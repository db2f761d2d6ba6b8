//! A lexer for a small part of JavaScript.

use vstd::prelude::*;

use crate::error::Error;
use crate::text::{
    alphabetic, alphanumeric, chars_of, digit, digit_of, digit_value, is_ascii_alphabetic,
    is_ascii_alphanumeric, is_ascii_digit, is_whitespace, string_of, whitespace,
};

verus! {

#[derive(Debug, PartialEq, Eq)]
pub enum Token {
    Punctuator(char),
    Number(u64),
    Identifier(String),
    Keyword(String),
    StringLiteral(String),
}

/// What a [`Token`] holds.
pub enum TokenView {
    Punctuator(char),
    Number(u64),
    Identifier(Seq<char>),
    Keyword(Seq<char>),
    StringLiteral(Seq<char>),
}

impl View for Token {
    type V = TokenView;

    open spec fn view(&self) -> TokenView {
        match self {
            Token::Punctuator(c) => TokenView::Punctuator(*c),
            Token::Number(n) => TokenView::Number(*n),
            Token::Identifier(s) => TokenView::Identifier(s@),
            Token::Keyword(s) => TokenView::Keyword(s@),
            Token::StringLiteral(s) => TokenView::StringLiteral(s@),
        }
    }
}

impl Clone for Token {
    fn clone(&self) -> (res: Self)
        ensures
            res@ == self@,
    {
        match self {
            Token::Punctuator(c) => Token::Punctuator(*c),
            Token::Number(n) => Token::Number(*n),
            Token::Identifier(s) => Token::Identifier(s.clone()),
            Token::Keyword(s) => Token::Keyword(s.clone()),
            Token::StringLiteral(s) => Token::StringLiteral(s.clone()),
        }
    }
}

pub open spec fn is_punctuator(c: char) -> bool {
    c == '+' || c == '-' || c == ';' || c == '=' || c == '(' || c == ')' || c == '{' || c == '}'
        || c == ',' || c == '.'
}

/// A character that can stand inside an identifier.
pub open spec fn is_identifier_char(c: char) -> bool {
    is_ascii_alphanumeric(c) || c == '$' || c == '_'
}

pub open spec fn is_quote(c: char) -> bool {
    c == '"' || c == '\''
}

/// The first position from `pos` on that holds no white space.
pub open spec fn whitespace_end(input: Seq<char>, pos: int) -> int
    decreases input.len() - pos,
{
    if 0 <= pos < input.len() && is_whitespace(input[pos]) {
        whitespace_end(input, pos + 1)
    } else {
        pos
    }
}

/// The first position from `pos` on that holds no identifier character.
pub open spec fn identifier_end(input: Seq<char>, pos: int) -> int
    decreases input.len() - pos,
{
    if 0 <= pos < input.len() && is_identifier_char(input[pos]) {
        identifier_end(input, pos + 1)
    } else {
        pos
    }
}

/// The first position from `pos` on that holds no digit.
pub open spec fn digits_end(input: Seq<char>, pos: int) -> int
    decreases input.len() - pos,
{
    if 0 <= pos < input.len() && is_ascii_digit(input[pos]) {
        digits_end(input, pos + 1)
    } else {
        pos
    }
}

/// The first position from `pos` on that holds a quote, or the end of the
/// input.
pub open spec fn string_end(input: Seq<char>, pos: int) -> int
    decreases input.len() - pos,
{
    if 0 <= pos < input.len() && !is_quote(input[pos]) {
        string_end(input, pos + 1)
    } else {
        pos
    }
}

/// The number that a sequence of digits writes in base ten.
pub open spec fn decimal_value(digits: Seq<char>) -> nat
    decreases digits.len(),
{
    if digits.len() == 0 {
        0
    } else {
        decimal_value(digits.drop_last()) * 10 + digit_value(digits.last())
    }
}

/// Whether the characters of `word` stand at `pos`.
pub open spec fn starts_with(input: Seq<char>, pos: int, word: Seq<char>) -> bool {
    0 <= pos && pos + word.len() <= input.len() && input.subrange(pos, pos + word.len()) == word
}

/// The reserved word that stands at `pos`, if one does.
pub open spec fn reserved_word_at(input: Seq<char>, pos: int) -> Option<Seq<char>> {
    if starts_with(input, pos, "var"@) {
        Some("var"@)
    } else if starts_with(input, pos, "function"@) {
        Some("function"@)
    } else if starts_with(input, pos, "return"@) {
        Some("return"@)
    } else {
        None
    }
}

/// The token that starts at `pos`, which holds no white space, and the
/// position after it.
pub open spec fn token_at(input: Seq<char>, pos: int) -> (Result<Option<TokenView>, Error>, int) {
    if pos < 0 || pos >= input.len() {
        (Ok(None), pos)
    } else {
        let c = input[pos];
        match reserved_word_at(input, pos) {
            Some(word) => (Ok(Some(TokenView::Keyword(word))), pos + word.len()),
            None => if is_punctuator(c) {
                (Ok(Some(TokenView::Punctuator(c))), pos + 1)
            } else if is_ascii_digit(c) {
                let end = digits_end(input, pos);
                let value = decimal_value(input.subrange(pos, end));
                if value <= u64::MAX {
                    (Ok(Some(TokenView::Number(value as u64))), end)
                } else {
                    (Err(Error::NumberTooLarge), end)
                }
            } else if is_ascii_alphabetic(c) || c == '_' || c == '$' {
                let end = identifier_end(input, pos);
                (Ok(Some(TokenView::Identifier(input.subrange(pos, end)))), end)
            } else if is_quote(c) {
                let end = string_end(input, pos + 1);
                (
                    Ok(Some(TokenView::StringLiteral(input.subrange(pos + 1, end)))),
                    if end < input.len() {
                        end + 1
                    } else {
                        end
                    },
                )
            } else {
                (Err(Error::UnsupportedInput(c)), pos + 1)
            },
        }
    }
}

/// The token that starts at `pos`, after any white space, and the position
/// after it. At the end of the input there is none.
pub open spec fn next_token(input: Seq<char>, pos: int) -> (Result<Option<TokenView>, Error>, int) {
    token_at(input, whitespace_end(input, pos))
}

pub proof fn lemma_identifier_end_bounds(input: Seq<char>, pos: int)
    requires
        0 <= pos <= input.len(),
    ensures
        pos <= identifier_end(input, pos) <= input.len(),
    decreases input.len() - pos,
{
    if pos < input.len() && is_identifier_char(input[pos]) {
        lemma_identifier_end_bounds(input, pos + 1);
    }
}

pub proof fn lemma_digits_end_bounds(input: Seq<char>, pos: int)
    requires
        0 <= pos <= input.len(),
    ensures
        pos <= digits_end(input, pos) <= input.len(),
    decreases input.len() - pos,
{
    if pos < input.len() && is_ascii_digit(input[pos]) {
        lemma_digits_end_bounds(input, pos + 1);
    }
}

/// The view of what [`JsLexer::next`] returns.
pub open spec fn token_result_view(r: Result<Option<Token>, Error>) -> Result<
    Option<TokenView>,
    Error,
> {
    match r {
        Ok(Some(t)) => Ok(Some(t@)),
        Ok(None) => Ok(None),
        Err(e) => Err(e),
    }
}

pub fn identifier_char(c: char) -> (r: bool)
    ensures
        r == is_identifier_char(c),
{
    alphanumeric(c) || c == '$' || c == '_'
}

pub fn punctuator(c: char) -> (r: bool)
    ensures
        r == is_punctuator(c),
{
    c == '+' || c == '-' || c == ';' || c == '=' || c == '(' || c == ')' || c == '{' || c == '}'
        || c == ',' || c == '.'
}

/// The lexer: the characters of a script and a position in them.
#[derive(Debug)]
pub struct JsLexer {
    pos: usize,
    input: Vec<char>,
}

impl JsLexer {
    /// The characters being read.
    pub closed spec fn input(&self) -> Seq<char> {
        self.input@
    }

    /// How many of them are consumed.
    pub closed spec fn pos(&self) -> nat {
        self.pos as nat
    }

    pub fn new(js: String) -> (l: Self)
        ensures
            l.input() == js@,
            l.pos() == 0,
    {
        JsLexer { pos: 0, input: chars_of(js.as_str()) }
    }

    /// Whether every character is consumed.
    pub fn exhausted(&self) -> (r: bool)
        ensures
            r == (self.pos() >= self.input().len()),
    {
        self.pos >= self.input.len()
    }

    /// The character at the current position.
    pub fn peek(&self) -> (c: char)
        requires
            self.pos() < self.input().len(),
        ensures
            c == self.input()[self.pos() as int],
    {
        self.input[self.pos]
    }

    /// Consumes the character at the current position.
    pub fn consume(&mut self) -> (c: char)
        requires
            old(self).pos() < old(self).input().len(),
        ensures
            c == old(self).input()[old(self).pos() as int],
            final(self).input() == old(self).input(),
            final(self).pos() == old(self).pos() + 1,
    {
        let len = self.input.len();
        let c = self.input[self.pos];
        self.pos += 1;
        c
    }

    /// Consumes the white space at the current position.
    pub fn skip_whitespaces(&mut self)
        ensures
            final(self).input() == old(self).input(),
            final(self).pos() == whitespace_end(old(self).input(), old(self).pos() as int),
    {
        while !self.exhausted() && whitespace(self.peek())
            invariant
                self.input@ == old(self).input@,
                whitespace_end(self.input@, self.pos as int) == whitespace_end(
                    self.input@,
                    old(self).pos as int,
                ),
            decreases self.input.len() - self.pos,
        {
            self.consume();
        }
    }

    /// Consumes `n` characters.
    pub fn skip_n(&mut self, n: usize)
        requires
            old(self).pos() + n <= old(self).input().len(),
        ensures
            final(self).input() == old(self).input(),
            final(self).pos() == old(self).pos() + n,
    {
        let len = self.input.len();
        self.pos += n;
    }

    /// Whether `keyword` stands at the current position.
    pub fn next_equals_to(&self, keyword: &str) -> (r: bool)
        ensures
            r == starts_with(self.input(), self.pos() as int, keyword@),
    {
        let word = chars_of(keyword);
        if self.pos > self.input.len() || word.len() > self.input.len() - self.pos {
            return false;
        }
        let mut i: usize = 0;
        while i < word.len()
            invariant
                i <= word.len(),
                word@ == keyword@,
                self.pos + word.len() <= self.input.len(),
                forall|j: int| 0 <= j < i ==> self.input@[self.pos + j] == word@[j],
            decreases word.len() - i,
        {
            if self.input[self.pos + i] != word[i] {
                assert(self.input@.subrange(self.pos as int, self.pos + word.len())[i as int]
                    != word@[i as int]);
                return false;
            }
            i += 1;
        }
        assert(self.input@.subrange(self.pos as int, self.pos + word.len()) =~= word@);
        true
    }

    /// The reserved word that stands at the current position, if one does.
    pub fn peek_reserved_word(&self) -> (r: Option<String>)
        ensures
            match r {
                Some(word) => reserved_word_at(self.input(), self.pos() as int) == Some(word@),
                None => reserved_word_at(self.input(), self.pos() as int) is None,
            },
    {
        if self.next_equals_to("var") {
            Some(String::from_str("var"))
        } else if self.next_equals_to("function") {
            Some(String::from_str("function"))
        } else if self.next_equals_to("return") {
            Some(String::from_str("return"))
        } else {
            None
        }
    }

    /// Reads the identifier at the current position.
    pub fn consume_identifier(&mut self) -> (s: String)
        ensures
            final(self).input() == old(self).input(),
            final(self).pos() == if old(self).pos() < old(self).input().len() {
                identifier_end(old(self).input(), old(self).pos() as int) as nat
            } else {
                old(self).pos()
            },
            old(self).pos() < old(self).input().len() ==> s@ == old(self).input().subrange(
                old(self).pos() as int,
                identifier_end(old(self).input(), old(self).pos() as int),
            ),
            old(self).pos() >= old(self).input().len() ==> s@ == Seq::<char>::empty(),
    {
        if self.exhausted() {
            return String::new();
        }
        let start = self.pos;
        while !self.exhausted() && identifier_char(self.peek())
            invariant
                self.input@ == old(self).input@,
                start <= self.pos <= self.input.len(),
                identifier_end(self.input@, self.pos as int) == identifier_end(
                    self.input@,
                    start as int,
                ),
            decreases self.input.len() - self.pos,
        {
            self.consume();
        }
        string_of(&self.input, start, self.pos)
    }

    /// Reads the string whose opening quote is at the current position, up
    /// to and with the closing quote.
    pub fn consume_string(&mut self) -> (s: String)
        requires
            old(self).pos() < old(self).input().len(),
            is_quote(old(self).input()[old(self).pos() as int]),
        ensures
            final(self).input() == old(self).input(),
            s@ == old(self).input().subrange(
                old(self).pos() as int + 1,
                string_end(old(self).input(), old(self).pos() as int + 1),
            ),
            final(self).pos() == ({
                let end = string_end(old(self).input(), old(self).pos() as int + 1);
                if end < old(self).input().len() {
                    end + 1
                } else {
                    end
                }
            }),
    {
        self.consume();
        let start = self.pos;
        while !self.exhausted() && !(self.peek() == '"' || self.peek() == '\'')
            invariant
                self.input@ == old(self).input@,
                start <= self.pos <= self.input.len(),
                string_end(self.input@, self.pos as int) == string_end(self.input@, start as int),
            decreases self.input.len() - self.pos,
        {
            self.consume();
        }
        let s = string_of(&self.input, start, self.pos);
        if !self.exhausted() {
            self.consume();
        }
        s
    }

    /// Reads the number at the current position: every digit is consumed,
    /// and the value is returned where it fits in 64 bits.
    pub fn consume_number(&mut self) -> (r: Option<u64>)
        ensures
            final(self).input() == old(self).input(),
            final(self).pos() == if old(self).pos() < old(self).input().len() {
                digits_end(old(self).input(), old(self).pos() as int) as nat
            } else {
                old(self).pos()
            },
            old(self).pos() < old(self).input().len() ==> ({
                let value = decimal_value(
                    old(self).input().subrange(
                        old(self).pos() as int,
                        digits_end(old(self).input(), old(self).pos() as int),
                    ),
                );
                match r {
                    Some(n) => n == value,
                    None => value > u64::MAX,
                }
            }),
            old(self).pos() >= old(self).input().len() ==> r == Some(0u64),
    {
        if self.exhausted() {
            return Some(0);
        }
        let start = self.pos;
        let mut num: Option<u64> = Some(0);
        assert(self.input@.subrange(start as int, start as int) =~= Seq::<char>::empty());
        while !self.exhausted() && digit(self.peek())
            invariant
                self.input@ == old(self).input@,
                start <= self.pos <= self.input.len(),
                digits_end(self.input@, self.pos as int) == digits_end(self.input@, start as int),
                match num {
                    Some(n) => n == decimal_value(
                        self.input@.subrange(start as int, self.pos as int),
                    ),
                    None => decimal_value(self.input@.subrange(start as int, self.pos as int))
                        > u64::MAX,
                },
            decreases self.input.len() - self.pos,
        {
            let d = digit_of(self.consume());
            proof {
                let now = self.input@.subrange(start as int, self.pos as int);
                assert(now.drop_last() =~= self.input@.subrange(start as int, self.pos - 1));
                assert(now.last() == self.input@[self.pos - 1]);
            }
            num = match num {
                Some(n) => match n.checked_mul(10) {
                    Some(m) => m.checked_add(d),
                    None => None,
                },
                None => None,
            };
        }
        num
    }

    /// Reads the next token: `Ok(None)` when only white space is left, and an
    /// error on a character that starts no token or a number that is too
    /// large.
    pub fn next(&mut self) -> (r: Result<Option<Token>, Error>)
        ensures
            final(self).input() == old(self).input(),
            token_result_view(r) == next_token(old(self).input(), old(self).pos() as int).0,
            final(self).pos() == next_token(old(self).input(), old(self).pos() as int).1,
    {
        self.skip_whitespaces();
        if self.exhausted() {
            return Ok(None);
        }
        proof {
            lemma_digits_end_bounds(self.input@, self.pos as int);
            lemma_identifier_end_bounds(self.input@, self.pos as int);
        }
        if let Some(keyword) = self.peek_reserved_word() {
            let n = chars_of(keyword.as_str()).len();
            self.skip_n(n);
            return Ok(Some(Token::Keyword(keyword)));
        }
        let c = self.peek();
        if punctuator(c) {
            self.consume();
            Ok(Some(Token::Punctuator(c)))
        } else if digit(c) {
            match self.consume_number() {
                Some(n) => Ok(Some(Token::Number(n))),
                None => Err(Error::NumberTooLarge),
            }
        } else if alphabetic(c) || c == '_' || c == '$' {
            Ok(Some(Token::Identifier(self.consume_identifier())))
        } else if c == '"' || c == '\'' {
            Ok(Some(Token::StringLiteral(self.consume_string())))
        } else {
            self.consume();
            Err(Error::UnsupportedInput(c))
        }
    }
}

} // verus!
