//! The CSS tokenizer.
//!
//! A token is decided by its first character. Names, numbers and strings run
//! on to the first character that cannot belong to them; [`name_end`],
//! [`number_end`] and [`string_end`] say where that is.

use vstd::prelude::*;

use crate::error::Error;
use crate::text::{
    alphabetic, alphanumeric, chars_of, digit, is_ascii_alphabetic, is_ascii_alphanumeric,
    is_ascii_digit, is_whitespace, push_char, string_of, whitespace,
};

verus! {

/// A number as it is written: the digits before the first dot and the digits
/// after it. Later dots are read over.
#[derive(Debug, PartialEq, Eq)]
pub struct Decimal {
    pub integer: String,
    pub fraction: String,
}

/// What a [`Decimal`] holds.
pub struct DecimalView {
    pub integer: Seq<char>,
    pub fraction: Seq<char>,
}

impl View for Decimal {
    type V = DecimalView;

    open spec fn view(&self) -> DecimalView {
        DecimalView { integer: self.integer@, fraction: self.fraction@ }
    }
}

impl Clone for Decimal {
    fn clone(&self) -> (res: Self)
        ensures
            res@ == self@,
    {
        Decimal { integer: self.integer.clone(), fraction: self.fraction.clone() }
    }
}

#[derive(Debug, PartialEq, Eq)]
pub enum CssToken {
    /// `#` and the name after it: an id selector or a colour code.
    HashToken(String),
    Delim(char),
    Number(Decimal),
    Colon,
    SemiColon,
    OpenParenthesis,
    CloseParenthesis,
    OpenCurly,
    CloseCurly,
    Ident(String),
    StringToken(String),
    AtKeyword(String),
}

/// What a [`CssToken`] holds.
pub enum CssTokenView {
    HashToken(Seq<char>),
    Delim(char),
    Number(DecimalView),
    Colon,
    SemiColon,
    OpenParenthesis,
    CloseParenthesis,
    OpenCurly,
    CloseCurly,
    Ident(Seq<char>),
    StringToken(Seq<char>),
    AtKeyword(Seq<char>),
}

impl View for CssToken {
    type V = CssTokenView;

    open spec fn view(&self) -> CssTokenView {
        match self {
            CssToken::HashToken(s) => CssTokenView::HashToken(s@),
            CssToken::Delim(c) => CssTokenView::Delim(*c),
            CssToken::Number(n) => CssTokenView::Number(n@),
            CssToken::Colon => CssTokenView::Colon,
            CssToken::SemiColon => CssTokenView::SemiColon,
            CssToken::OpenParenthesis => CssTokenView::OpenParenthesis,
            CssToken::CloseParenthesis => CssTokenView::CloseParenthesis,
            CssToken::OpenCurly => CssTokenView::OpenCurly,
            CssToken::CloseCurly => CssTokenView::CloseCurly,
            CssToken::Ident(s) => CssTokenView::Ident(s@),
            CssToken::StringToken(s) => CssTokenView::StringToken(s@),
            CssToken::AtKeyword(s) => CssTokenView::AtKeyword(s@),
        }
    }
}

impl Clone for CssToken {
    fn clone(&self) -> (res: Self)
        ensures
            res@ == self@,
    {
        match self {
            CssToken::HashToken(s) => CssToken::HashToken(s.clone()),
            CssToken::Delim(c) => CssToken::Delim(*c),
            CssToken::Number(n) => CssToken::Number(n.clone()),
            CssToken::Colon => CssToken::Colon,
            CssToken::SemiColon => CssToken::SemiColon,
            CssToken::OpenParenthesis => CssToken::OpenParenthesis,
            CssToken::CloseParenthesis => CssToken::CloseParenthesis,
            CssToken::OpenCurly => CssToken::OpenCurly,
            CssToken::CloseCurly => CssToken::CloseCurly,
            CssToken::Ident(s) => CssToken::Ident(s.clone()),
            CssToken::StringToken(s) => CssToken::StringToken(s.clone()),
            CssToken::AtKeyword(s) => CssToken::AtKeyword(s.clone()),
        }
    }
}

/// A character that can stand inside a name.
pub open spec fn is_name_char(c: char) -> bool {
    is_ascii_alphanumeric(c) || c == '-' || c == '_'
}

pub open spec fn is_quote(c: char) -> bool {
    c == '"' || c == '\''
}

/// The first position from `pos` on that holds no name character.
pub open spec fn name_end(input: Seq<char>, pos: int) -> int
    decreases input.len() - pos,
{
    if 0 <= pos < input.len() && is_name_char(input[pos]) {
        name_end(input, pos + 1)
    } else {
        pos
    }
}

/// The first position from `pos` on that holds no digit.
pub open spec fn digits_end(input: Seq<char>, pos: int) -> int
    decreases input.len() - pos,
{
    if 0 <= pos < input.len() && is_ascii_digit(input[pos]) {
        digits_end(input, pos + 1)
    } else {
        pos
    }
}

/// The first position from `pos` on that holds neither a digit nor a dot.
pub open spec fn number_end(input: Seq<char>, pos: int) -> int
    decreases input.len() - pos,
{
    if 0 <= pos < input.len() && (is_ascii_digit(input[pos]) || input[pos] == '.') {
        number_end(input, pos + 1)
    } else {
        pos
    }
}

/// The first position from `pos` on that holds a quote, or the end of the
/// input.
pub open spec fn string_end(input: Seq<char>, pos: int) -> int
    decreases input.len() - pos,
{
    if 0 <= pos < input.len() && !is_quote(input[pos]) {
        string_end(input, pos + 1)
    } else {
        pos
    }
}

/// The characters of `s` that are not dots, in order.
pub open spec fn without_dots(s: Seq<char>) -> Seq<char>
    decreases s.len(),
{
    if s.len() == 0 {
        s
    } else if s.last() == '.' {
        without_dots(s.drop_last())
    } else {
        without_dots(s.drop_last()).push(s.last())
    }
}

/// The number that starts at `pos`.
pub open spec fn number_at(input: Seq<char>, pos: int) -> DecimalView {
    DecimalView {
        integer: input.subrange(pos, digits_end(input, pos)),
        fraction: without_dots(input.subrange(digits_end(input, pos), number_end(input, pos))),
    }
}

/// The name whose first character is at `pos`, whatever that character is.
pub open spec fn name_at(input: Seq<char>, pos: int) -> Seq<char> {
    input.subrange(pos, name_end(input, pos + 1))
}

/// Whether the three characters after `pos` are letters.
pub open spec fn three_letters_follow(input: Seq<char>, pos: int) -> bool {
    &&& pos + 3 < input.len()
    &&& is_ascii_alphabetic(input[pos + 1])
    &&& is_ascii_alphabetic(input[pos + 2])
    &&& is_ascii_alphabetic(input[pos + 3])
}

pub proof fn lemma_name_end_bounds(input: Seq<char>, pos: int)
    requires
        0 <= pos <= input.len(),
    ensures
        pos <= name_end(input, pos) <= input.len(),
    decreases input.len() - pos,
{
    if pos < input.len() && is_name_char(input[pos]) {
        lemma_name_end_bounds(input, pos + 1);
    }
}

pub proof fn lemma_digits_end_bounds(input: Seq<char>, pos: int)
    requires
        0 <= pos <= input.len(),
    ensures
        pos <= digits_end(input, pos) <= number_end(input, pos) <= input.len(),
        number_end(input, digits_end(input, pos)) == number_end(input, pos),
    decreases input.len() - pos,
{
    if pos < input.len() && is_ascii_digit(input[pos]) {
        lemma_digits_end_bounds(input, pos + 1);
    } else {
        lemma_number_end_bounds(input, pos);
    }
}

pub proof fn lemma_number_end_bounds(input: Seq<char>, pos: int)
    requires
        0 <= pos <= input.len(),
    ensures
        pos <= number_end(input, pos) <= input.len(),
    decreases input.len() - pos,
{
    if pos < input.len() && (is_ascii_digit(input[pos]) || input[pos] == '.') {
        lemma_number_end_bounds(input, pos + 1);
    }
}

pub proof fn lemma_string_end_bounds(input: Seq<char>, pos: int)
    requires
        0 <= pos <= input.len(),
    ensures
        pos <= string_end(input, pos) <= input.len(),
    decreases input.len() - pos,
{
    if pos < input.len() && !is_quote(input[pos]) {
        lemma_string_end_bounds(input, pos + 1);
    }
}

/// The token that starts at `pos`, after any white space, and the position
/// after it. At the end of the input there is none; a character that starts
/// no token is consumed and reported.
pub open spec fn css_token(input: Seq<char>, pos: int) -> (Result<Option<CssTokenView>, Error>, int)
    decreases input.len() - pos,
{
    if pos < 0 || pos >= input.len() {
        (Ok(None), pos)
    } else {
        let c = input[pos];
        if is_whitespace(c) {
            css_token(input, pos + 1)
        } else if c == '(' {
            (Ok(Some(CssTokenView::OpenParenthesis)), pos + 1)
        } else if c == ')' {
            (Ok(Some(CssTokenView::CloseParenthesis)), pos + 1)
        } else if c == ',' || c == '.' {
            (Ok(Some(CssTokenView::Delim(c))), pos + 1)
        } else if c == ':' {
            (Ok(Some(CssTokenView::Colon)), pos + 1)
        } else if c == ';' {
            (Ok(Some(CssTokenView::SemiColon)), pos + 1)
        } else if c == '{' {
            (Ok(Some(CssTokenView::OpenCurly)), pos + 1)
        } else if c == '}' {
            (Ok(Some(CssTokenView::CloseCurly)), pos + 1)
        } else if is_quote(c) {
            let end = string_end(input, pos + 1);
            (
                Ok(Some(CssTokenView::StringToken(input.subrange(pos + 1, end)))),
                if end < input.len() {
                    end + 1
                } else {
                    end
                },
            )
        } else if is_ascii_digit(c) {
            (Ok(Some(CssTokenView::Number(number_at(input, pos)))), number_end(input, pos))
        } else if c == '#' {
            (Ok(Some(CssTokenView::HashToken(name_at(input, pos)))), name_end(input, pos + 1))
        } else if c == '-' || c == '_' || is_ascii_alphabetic(c) {
            (Ok(Some(CssTokenView::Ident(name_at(input, pos)))), name_end(input, pos + 1))
        } else if c == '@' {
            if three_letters_follow(input, pos) {
                (
                    Ok(Some(CssTokenView::AtKeyword(name_at(input, pos + 1)))),
                    name_end(input, pos + 2),
                )
            } else {
                (Ok(Some(CssTokenView::Delim('@'))), pos + 1)
            }
        } else {
            (Err(Error::UnsupportedInput(c)), pos + 1)
        }
    }
}

/// Reading a token never moves backwards, stays within the input, and moves
/// forward whenever it gives a token or an error.
pub proof fn lemma_css_token_advances(input: Seq<char>, pos: int)
    requires
        0 <= pos,
    ensures
        pos <= css_token(input, pos).1,
        pos < input.len() ==> css_token(input, pos).1 <= input.len(),
        css_token(input, pos).0 != Ok::<Option<CssTokenView>, Error>(None) ==> pos < css_token(
            input,
            pos,
        ).1,
    decreases input.len() - pos,
{
    if pos < input.len() {
        let c = input[pos];
        if is_whitespace(c) {
            lemma_css_token_advances(input, pos + 1);
        } else {
            lemma_string_end_bounds(input, pos + 1);
            lemma_digits_end_bounds(input, pos);
            lemma_number_end_bounds(input, pos + 1);
            lemma_name_end_bounds(input, pos + 1);
            if pos + 2 <= input.len() {
                lemma_name_end_bounds(input, pos + 2);
            }
        }
    }
}

/// The view of what [`CssTokenizer::next`] returns.
pub open spec fn token_result_view(r: Result<Option<CssToken>, Error>) -> Result<
    Option<CssTokenView>,
    Error,
> {
    match r {
        Ok(Some(t)) => Ok(Some(t@)),
        Ok(None) => Ok(None),
        Err(e) => Err(e),
    }
}

pub fn name_char(c: char) -> (r: bool)
    ensures
        r == is_name_char(c),
{
    alphanumeric(c) || c == '-' || c == '_'
}

/// The tokenizer: the characters of a style sheet and a position in them.
#[derive(Debug)]
pub struct CssTokenizer {
    pos: usize,
    input: Vec<char>,
}

impl CssTokenizer {
    /// The characters being read.
    pub closed spec fn input(&self) -> Seq<char> {
        self.input@
    }

    /// How many of them are consumed.
    pub closed spec fn pos(&self) -> nat {
        self.pos as nat
    }

    pub fn new(css: String) -> (t: Self)
        ensures
            t.input() == css@,
            t.pos() == 0,
    {
        CssTokenizer { pos: 0, input: chars_of(css.as_str()) }
    }

    /// Reads a string whose opening quote is at the current position, up to
    /// and with the closing quote.
    fn consume_string_token(&mut self) -> (s: String)
        requires
            old(self).pos() < old(self).input().len(),
        ensures
            final(self).input() == old(self).input(),
            s@ == old(self).input().subrange(
                old(self).pos() as int + 1,
                string_end(old(self).input(), old(self).pos() as int + 1),
            ),
            final(self).pos() == ({
                let end = string_end(old(self).input(), old(self).pos() as int + 1);
                if end < old(self).input().len() {
                    end + 1
                } else {
                    end
                }
            }),
    {
        let len = self.input.len();
        let start = self.pos + 1;
        self.pos += 1;
        while self.pos < self.input.len() && !(self.input[self.pos] == '"' || self.input[self.pos]
            == '\'')
            invariant
                self.input == old(self).input,
                start <= self.pos <= self.input.len(),
                string_end(self.input@, self.pos as int) == string_end(self.input@, start as int),
            decreases self.input.len() - self.pos,
        {
            self.pos += 1;
        }
        let s = string_of(&self.input, start, self.pos);
        if self.pos < self.input.len() {
            self.pos += 1;
        }
        s
    }

    /// Reads a number whose first digit is at the current position.
    fn consume_numeric_token(&mut self) -> (n: Decimal)
        requires
            old(self).pos() < old(self).input().len(),
        ensures
            final(self).input() == old(self).input(),
            n@ == number_at(old(self).input(), old(self).pos() as int),
            final(self).pos() == number_end(old(self).input(), old(self).pos() as int),
    {
        let start = self.pos;
        while self.pos < self.input.len() && digit(self.input[self.pos])
            invariant
                self.input == old(self).input,
                start <= self.pos <= self.input.len(),
                digits_end(self.input@, self.pos as int) == digits_end(self.input@, start as int),
            decreases self.input.len() - self.pos,
        {
            self.pos += 1;
        }
        let integer = string_of(&self.input, start, self.pos);
        let ghost middle = self.pos;
        proof {
            lemma_digits_end_bounds(self.input@, start as int);
        }
        let mut fraction = String::new();
        assert(self.input@.subrange(middle as int, middle as int) =~= Seq::<char>::empty());
        while self.pos < self.input.len() && (digit(self.input[self.pos]) || self.input[self.pos]
            == '.')
            invariant
                self.input == old(self).input,
                middle <= self.pos <= self.input.len(),
                number_end(self.input@, self.pos as int) == number_end(self.input@, middle as int),
                fraction@ == without_dots(self.input@.subrange(middle as int, self.pos as int)),
            decreases self.input.len() - self.pos,
        {
            let c = self.input[self.pos];
            if c != '.' {
                push_char(&mut fraction, c);
            }
            self.pos += 1;
            proof {
                let now = self.input@.subrange(middle as int, self.pos as int);
                assert(now.drop_last() =~= self.input@.subrange(middle as int, self.pos - 1));
                assert(now.last() == c);
            }
        }
        Decimal { integer, fraction }
    }

    /// Reads a name whose first character, whatever it is, is at the current
    /// position.
    fn consume_indent_token(&mut self) -> (s: String)
        requires
            old(self).pos() < old(self).input().len(),
        ensures
            final(self).input() == old(self).input(),
            s@ == name_at(old(self).input(), old(self).pos() as int),
            final(self).pos() == name_end(old(self).input(), old(self).pos() as int + 1),
    {
        let len = self.input.len();
        let start = self.pos;
        self.pos += 1;
        while self.pos < self.input.len() && name_char(self.input[self.pos])
            invariant
                self.input == old(self).input,
                start < self.pos <= self.input.len(),
                name_end(self.input@, self.pos as int) == name_end(self.input@, start + 1),
            decreases self.input.len() - self.pos,
        {
            self.pos += 1;
        }
        string_of(&self.input, start, self.pos)
    }

    /// Whether the three characters after the current one are letters.
    fn at_keyword_follows(&self) -> (r: bool)
        requires
            self.pos() < self.input().len(),
        ensures
            r == three_letters_follow(self.input(), self.pos() as int),
    {
        self.input.len() - self.pos > 3 && alphabetic(self.input[self.pos + 1]) && alphabetic(
            self.input[self.pos + 2],
        ) && alphabetic(self.input[self.pos + 3])
    }

    /// Reads the next token: `Ok(None)` when the input is used up, and an
    /// error on a character that starts no token.
    pub fn next(&mut self) -> (r: Result<Option<CssToken>, Error>)
        ensures
            final(self).input() == old(self).input(),
            token_result_view(r) == css_token(old(self).input(), old(self).pos() as int).0,
            final(self).pos() == css_token(old(self).input(), old(self).pos() as int).1,
    {
        while self.pos < self.input.len() && whitespace(self.input[self.pos])
            invariant
                self.input == old(self).input,
                css_token(self.input@, self.pos as int) == css_token(
                    old(self).input(),
                    old(self).pos() as int,
                ),
            decreases self.input.len() - self.pos,
        {
            self.pos += 1;
        }
        if self.pos >= self.input.len() {
            return Ok(None);
        }
        let c = self.input[self.pos];
        let token = match c {
            '(' => CssToken::OpenParenthesis,
            ')' => CssToken::CloseParenthesis,
            ',' => CssToken::Delim(','),
            '.' => CssToken::Delim('.'),
            ':' => CssToken::Colon,
            ';' => CssToken::SemiColon,
            '{' => CssToken::OpenCurly,
            '}' => CssToken::CloseCurly,
            '"' | '\'' => {
                return Ok(Some(CssToken::StringToken(self.consume_string_token())));
            },
            '#' => {
                return Ok(Some(CssToken::HashToken(self.consume_indent_token())));
            },
            '-' | '_' => {
                return Ok(Some(CssToken::Ident(self.consume_indent_token())));
            },
            '@' => {
                if self.at_keyword_follows() {
                    self.pos += 1;
                    return Ok(Some(CssToken::AtKeyword(self.consume_indent_token())));
                }
                CssToken::Delim('@')
            },
            _ => {
                if digit(c) {
                    return Ok(Some(CssToken::Number(self.consume_numeric_token())));
                }
                if alphabetic(c) {
                    return Ok(Some(CssToken::Ident(self.consume_indent_token())));
                }
                self.pos += 1;
                return Err(Error::UnsupportedInput(c));
            },
        };
        self.pos += 1;
        Ok(Some(token))
    }
}

} // verus!
