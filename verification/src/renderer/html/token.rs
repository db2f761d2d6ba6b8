//! The HTML tokenizer: characters in, tags and characters out.
//!
//! A token is read by a small state machine that takes one character at a
//! time. [`transition`] is its table; [`scan`] runs it from a position of the
//! input to the end of the token.

use vstd::prelude::*;

use crate::error::Error;
use crate::renderer::html::attribute::{attributes_view, clone_attributes, Attribute, AttributeView};
use crate::text::{
    alphabetic, chars_of, is_ascii_alphabetic, is_whitespace, lowercase, push_char,
    to_ascii_lowercase, whitespace,
};

verus! {

#[derive(Debug, PartialEq, Eq)]
pub enum HtmlToken {
    StartTag { tag: String, self_closing: bool, attributes: Vec<Attribute> },
    EndTag { tag: String },
    Char(char),
    /// The input ended inside a tag.
    Eof,
}

/// What an [`HtmlToken`] holds.
pub enum HtmlTokenView {
    StartTag { tag: Seq<char>, self_closing: bool, attributes: Seq<AttributeView> },
    EndTag { tag: Seq<char> },
    Char(char),
    Eof,
}

impl View for HtmlToken {
    type V = HtmlTokenView;

    open spec fn view(&self) -> HtmlTokenView {
        match self {
            HtmlToken::StartTag { tag, self_closing, attributes } => HtmlTokenView::StartTag {
                tag: tag@,
                self_closing: *self_closing,
                attributes: attributes_view(attributes@),
            },
            HtmlToken::EndTag { tag } => HtmlTokenView::EndTag { tag: tag@ },
            HtmlToken::Char(c) => HtmlTokenView::Char(*c),
            HtmlToken::Eof => HtmlTokenView::Eof,
        }
    }
}

impl Clone for HtmlToken {
    fn clone(&self) -> (res: Self)
        ensures
            res@ == self@,
    {
        match self {
            HtmlToken::StartTag { tag, self_closing, attributes } => HtmlToken::StartTag {
                tag: tag.clone(),
                self_closing: *self_closing,
                attributes: clone_attributes(attributes),
            },
            HtmlToken::EndTag { tag } => HtmlToken::EndTag { tag: tag.clone() },
            HtmlToken::Char(c) => HtmlToken::Char(*c),
            HtmlToken::Eof => HtmlToken::Eof,
        }
    }
}

/// Where the tokenizer is within a token.
#[derive(Debug, Copy, Clone, PartialEq, Eq, Structural)]
pub enum State {
    Data,
    TagOpen,
    EndTagOpen,
    TagName,
    BeforeAttributeName,
    AttributeName,
    AfterAttributeName,
    BeforeAttributeValue,
    AttributeValueDoubleQuoted,
    AttributeValueSingleQuoted,
    AttributeValueUnquoted,
    AfterAttributeValueQuoted,
    SelfClosingStartTag,
}

/// The tag read so far.
pub struct Draft {
    pub start: bool,
    pub tag: Seq<char>,
    pub self_closing: bool,
    pub attributes: Seq<AttributeView>,
}

impl Draft {
    pub open spec fn empty() -> Draft {
        Draft { start: true, tag: Seq::empty(), self_closing: false, attributes: Seq::empty() }
    }

    /// A tag of which only the first letter of the name is read.
    pub open spec fn begin(start: bool, c: char) -> Draft {
        Draft {
            start,
            tag: seq![to_ascii_lowercase(c)],
            self_closing: false,
            attributes: Seq::empty(),
        }
    }

    /// The finished tag.
    pub open spec fn token(self) -> HtmlTokenView {
        if self.start {
            HtmlTokenView::StartTag {
                tag: self.tag,
                self_closing: self.self_closing,
                attributes: self.attributes,
            }
        } else {
            HtmlTokenView::EndTag { tag: self.tag }
        }
    }

    /// One more attribute, still empty.
    pub open spec fn new_attribute(self) -> Draft {
        Draft { attributes: self.attributes.push(AttributeView::empty()), ..self }
    }

    /// One more character in the name or the value of the last attribute.
    pub open spec fn extend_attribute(self, c: char, is_name: bool) -> Draft {
        Draft { attributes: extend_last(self.attributes, c, is_name), ..self }
    }
}

/// `attributes` with `c` added to the name or the value of the last one. An
/// empty list gets a first attribute to hold it.
pub open spec fn extend_last(attributes: Seq<AttributeView>, c: char, is_name: bool) -> Seq<
    AttributeView,
> {
    if attributes.len() == 0 {
        seq![AttributeView::empty().with_char(c, is_name)]
    } else {
        attributes.update(attributes.len() - 1, attributes.last().with_char(c, is_name))
    }
}

/// What one character does to the machine.
pub enum Step {
    /// The token is complete.
    Emit(HtmlTokenView),
    /// The character is not one the machine can take here.
    Fail(Error),
    /// The token goes on.
    Continue(State, Draft),
}

/// The step taken where an attribute may begin, on a character that is not
/// white space.
pub open spec fn begin_attribute(draft: Draft, c: char) -> Step {
    if c == '/' {
        Step::Continue(State::SelfClosingStartTag, draft)
    } else if c == '>' {
        Step::Emit(draft.token())
    } else if c == '=' {
        Step::Continue(State::BeforeAttributeValue, draft.new_attribute())
    } else {
        Step::Continue(
            State::AttributeName,
            draft.new_attribute().extend_attribute(to_ascii_lowercase(c), true),
        )
    }
}

/// The transition table: the step taken in `state` on the character `c`.
pub open spec fn transition(state: State, draft: Draft, c: char) -> Step {
    match state {
        State::Data => if c == '<' {
            Step::Continue(State::TagOpen, draft)
        } else {
            Step::Emit(HtmlTokenView::Char(c))
        },
        State::TagOpen => if c == '/' {
            Step::Continue(State::EndTagOpen, draft)
        } else if is_ascii_alphabetic(c) {
            Step::Continue(State::TagName, Draft::begin(true, c))
        } else if c == '<' {
            Step::Continue(State::TagOpen, draft)
        } else {
            Step::Emit(HtmlTokenView::Char(c))
        },
        State::EndTagOpen => if is_ascii_alphabetic(c) {
            Step::Continue(State::TagName, Draft::begin(false, c))
        } else {
            Step::Fail(Error::UnsupportedInput(c))
        },
        State::TagName => if is_whitespace(c) {
            Step::Continue(State::BeforeAttributeName, draft)
        } else if c == '/' {
            Step::Continue(State::SelfClosingStartTag, draft)
        } else if c == '>' {
            Step::Emit(draft.token())
        } else {
            Step::Continue(
                State::TagName,
                Draft { tag: draft.tag.push(to_ascii_lowercase(c)), ..draft },
            )
        },
        State::BeforeAttributeName => if is_whitespace(c) {
            Step::Continue(State::BeforeAttributeName, draft)
        } else {
            begin_attribute(draft, c)
        },
        State::AttributeName => if is_whitespace(c) {
            Step::Continue(State::AfterAttributeName, draft)
        } else if c == '/' {
            Step::Continue(State::SelfClosingStartTag, draft)
        } else if c == '>' {
            Step::Emit(draft.token())
        } else if c == '=' {
            Step::Continue(State::BeforeAttributeValue, draft)
        } else {
            Step::Continue(
                State::AttributeName,
                draft.extend_attribute(to_ascii_lowercase(c), true),
            )
        },
        State::AfterAttributeName => if is_whitespace(c) {
            Step::Continue(State::AfterAttributeName, draft)
        } else if c == '=' {
            Step::Continue(State::BeforeAttributeValue, draft)
        } else {
            begin_attribute(draft, c)
        },
        State::BeforeAttributeValue => if is_whitespace(c) {
            Step::Continue(State::BeforeAttributeValue, draft)
        } else if c == '"' {
            Step::Continue(State::AttributeValueDoubleQuoted, draft)
        } else if c == '\'' {
            Step::Continue(State::AttributeValueSingleQuoted, draft)
        } else if c == '>' {
            Step::Emit(draft.token())
        } else {
            Step::Continue(State::AttributeValueUnquoted, draft.extend_attribute(c, false))
        },
        State::AttributeValueDoubleQuoted => if c == '"' {
            Step::Continue(State::AfterAttributeValueQuoted, draft)
        } else {
            Step::Continue(State::AttributeValueDoubleQuoted, draft.extend_attribute(c, false))
        },
        State::AttributeValueSingleQuoted => if c == '\'' {
            Step::Continue(State::AfterAttributeValueQuoted, draft)
        } else {
            Step::Continue(State::AttributeValueSingleQuoted, draft.extend_attribute(c, false))
        },
        State::AttributeValueUnquoted => if is_whitespace(c) {
            Step::Continue(State::BeforeAttributeName, draft)
        } else if c == '>' {
            Step::Emit(draft.token())
        } else {
            Step::Continue(State::AttributeValueUnquoted, draft.extend_attribute(c, false))
        },
        State::AfterAttributeValueQuoted => if is_whitespace(c) {
            Step::Continue(State::BeforeAttributeName, draft)
        } else {
            begin_attribute(draft, c)
        },
        State::SelfClosingStartTag => if c == '>' {
            Step::Emit(Draft { self_closing: true, ..draft }.token())
        } else {
            Step::Fail(Error::UnsupportedInput(c))
        },
    }
}

/// The result of reading on from `pos` in `state`, and the position after it.
///
/// At the end of the input there is no token between tags, and an
/// [`HtmlTokenView::Eof`] inside one. A character that the machine cannot take
/// is consumed and reported.
pub open spec fn scan(input: Seq<char>, pos: int, state: State, draft: Draft) -> (
    Result<Option<HtmlTokenView>, Error>,
    int,
)
    decreases input.len() - pos,
{
    if pos < 0 || pos >= input.len() {
        if state == State::Data {
            (Ok(None), pos)
        } else {
            (Ok(Some(HtmlTokenView::Eof)), pos)
        }
    } else {
        match transition(state, draft, input[pos]) {
            Step::Emit(token) => (Ok(Some(token)), pos + 1),
            Step::Fail(e) => (Err(e), pos + 1),
            Step::Continue(next, d) => scan(input, pos + 1, next, d),
        }
    }
}

/// The token that starts at `pos`, and the position after it.
pub open spec fn next_token(input: Seq<char>, pos: int) -> (
    Result<Option<HtmlTokenView>, Error>,
    int,
) {
    scan(input, pos, State::Data, Draft::empty())
}

/// Reading never moves backwards, stays within the input, and moves forward
/// whenever there is a character left.
pub proof fn lemma_scan_advances(input: Seq<char>, pos: int, state: State, draft: Draft)
    requires
        0 <= pos,
    ensures
        pos <= scan(input, pos, state, draft).1,
        pos < input.len() ==> pos < scan(input, pos, state, draft).1 <= input.len(),
        scan(input, pos, state, draft).0 == Ok::<Option<HtmlTokenView>, Error>(None) ==> pos
            >= input.len() && state == State::Data,
    decreases input.len() - pos,
{
    if pos < input.len() {
        match transition(state, draft, input[pos]) {
            Step::Continue(next, d) => {
                lemma_scan_advances(input, pos + 1, next, d);
                assert(next != State::Data);
                lemma_scan_not_data(input, pos + 1, next, d);
            },
            _ => {},
        }
    }
}

/// Inside a tag the input never just runs out: there is a token or an error.
pub proof fn lemma_scan_not_data(input: Seq<char>, pos: int, state: State, draft: Draft)
    requires
        state != State::Data,
    ensures
        scan(input, pos, state, draft).0 != Ok::<Option<HtmlTokenView>, Error>(None),
    decreases input.len() - pos,
{
    if 0 <= pos < input.len() {
        match transition(state, draft, input[pos]) {
            Step::Continue(next, d) => {
                lemma_scan_not_data(input, pos + 1, next, d);
            },
            _ => {},
        }
    }
}

/// The view of what [`HtmlTokenizer::next`] returns.
pub open spec fn token_result_view(r: Result<Option<HtmlToken>, Error>) -> Result<
    Option<HtmlTokenView>,
    Error,
> {
    match r {
        Ok(Some(t)) => Ok(Some(t@)),
        Ok(None) => Ok(None),
        Err(e) => Err(e),
    }
}

/// The tag read so far, as the tokenizer holds it.
struct TagDraft {
    start: bool,
    tag: String,
    self_closing: bool,
    attributes: Vec<Attribute>,
}

impl View for TagDraft {
    type V = Draft;

    closed spec fn view(&self) -> Draft {
        Draft {
            start: self.start,
            tag: self.tag@,
            self_closing: self.self_closing,
            attributes: attributes_view(self.attributes@),
        }
    }
}

/// What one character did, as the tokenizer holds it.
enum Outcome {
    Emit(HtmlToken),
    Fail(Error),
    Continue(State, TagDraft),
}

impl View for Outcome {
    type V = Step;

    closed spec fn view(&self) -> Step {
        match self {
            Outcome::Emit(t) => Step::Emit(t@),
            Outcome::Fail(e) => Step::Fail(*e),
            Outcome::Continue(s, d) => Step::Continue(*s, d@),
        }
    }
}

impl TagDraft {
    fn empty() -> (d: Self)
        ensures
            d@ == Draft::empty(),
    {
        let d = TagDraft {
            start: true,
            tag: String::new(),
            self_closing: false,
            attributes: Vec::new(),
        };
        assert(d@.attributes =~= Seq::empty());
        d
    }

    fn begin(start: bool, c: char) -> (d: Self)
        ensures
            d@ == Draft::begin(start, c),
    {
        let mut tag = String::new();
        push_char(&mut tag, lowercase(c));
        let d = TagDraft { start, tag, self_closing: false, attributes: Vec::new() };
        assert(d@.attributes =~= Seq::empty());
        assert(d@.tag =~= seq![to_ascii_lowercase(c)]);
        d
    }

    fn token(self) -> (t: HtmlToken)
        ensures
            t@ == self@.token(),
    {
        if self.start {
            HtmlToken::StartTag {
                tag: self.tag,
                self_closing: self.self_closing,
                attributes: self.attributes,
            }
        } else {
            HtmlToken::EndTag { tag: self.tag }
        }
    }

    fn new_attribute(&mut self)
        ensures
            final(self)@ == old(self)@.new_attribute(),
    {
        self.attributes.push(Attribute::new());
        assert(attributes_view(self.attributes@) =~= attributes_view(old(self).attributes@).push(
            AttributeView::empty(),
        ));
    }

    fn extend_attribute(&mut self, c: char, is_name: bool)
        ensures
            final(self)@ == old(self)@.extend_attribute(c, is_name),
    {
        let n = self.attributes.len();
        if n == 0 {
            let mut a = Attribute::new();
            a.add_char(c, is_name);
            self.attributes.push(a);
        } else {
            self.attributes[n - 1].add_char(c, is_name);
        }
        assert(attributes_view(self.attributes@) =~= extend_last(
            attributes_view(old(self).attributes@),
            c,
            is_name,
        ));
    }

    fn push_tag(&mut self, c: char)
        ensures
            final(self)@ == (Draft { tag: old(self)@.tag.push(c), ..old(self)@ }),
    {
        push_char(&mut self.tag, c);
    }

    fn close_itself(&mut self)
        ensures
            final(self)@ == (Draft { self_closing: true, ..old(self)@ }),
    {
        self.self_closing = true;
    }
}

fn begin_attribute_step(draft: TagDraft, c: char) -> (r: Outcome)
    ensures
        r@ == begin_attribute(draft@, c),
{
    let mut draft = draft;
    if c == '/' {
        Outcome::Continue(State::SelfClosingStartTag, draft)
    } else if c == '>' {
        Outcome::Emit(draft.token())
    } else if c == '=' {
        draft.new_attribute();
        Outcome::Continue(State::BeforeAttributeValue, draft)
    } else {
        draft.new_attribute();
        draft.extend_attribute(lowercase(c), true);
        Outcome::Continue(State::AttributeName, draft)
    }
}

fn take_step(state: State, draft: TagDraft, c: char) -> (r: Outcome)
    ensures
        r@ == transition(state, draft@, c),
{
    let mut draft = draft;
    match state {
        State::Data => {
            if c == '<' {
                Outcome::Continue(State::TagOpen, draft)
            } else {
                Outcome::Emit(HtmlToken::Char(c))
            }
        },
        State::TagOpen => {
            if c == '/' {
                Outcome::Continue(State::EndTagOpen, draft)
            } else if alphabetic(c) {
                Outcome::Continue(State::TagName, TagDraft::begin(true, c))
            } else if c == '<' {
                Outcome::Continue(State::TagOpen, draft)
            } else {
                Outcome::Emit(HtmlToken::Char(c))
            }
        },
        State::EndTagOpen => {
            if alphabetic(c) {
                Outcome::Continue(State::TagName, TagDraft::begin(false, c))
            } else {
                Outcome::Fail(Error::UnsupportedInput(c))
            }
        },
        State::TagName => {
            if whitespace(c) {
                Outcome::Continue(State::BeforeAttributeName, draft)
            } else if c == '/' {
                Outcome::Continue(State::SelfClosingStartTag, draft)
            } else if c == '>' {
                Outcome::Emit(draft.token())
            } else {
                draft.push_tag(lowercase(c));
                Outcome::Continue(State::TagName, draft)
            }
        },
        State::BeforeAttributeName => {
            if whitespace(c) {
                Outcome::Continue(State::BeforeAttributeName, draft)
            } else {
                begin_attribute_step(draft, c)
            }
        },
        State::AttributeName => {
            if whitespace(c) {
                Outcome::Continue(State::AfterAttributeName, draft)
            } else if c == '/' {
                Outcome::Continue(State::SelfClosingStartTag, draft)
            } else if c == '>' {
                Outcome::Emit(draft.token())
            } else if c == '=' {
                Outcome::Continue(State::BeforeAttributeValue, draft)
            } else {
                draft.extend_attribute(lowercase(c), true);
                Outcome::Continue(State::AttributeName, draft)
            }
        },
        State::AfterAttributeName => {
            if whitespace(c) {
                Outcome::Continue(State::AfterAttributeName, draft)
            } else if c == '=' {
                Outcome::Continue(State::BeforeAttributeValue, draft)
            } else {
                begin_attribute_step(draft, c)
            }
        },
        State::BeforeAttributeValue => {
            if whitespace(c) {
                Outcome::Continue(State::BeforeAttributeValue, draft)
            } else if c == '"' {
                Outcome::Continue(State::AttributeValueDoubleQuoted, draft)
            } else if c == '\'' {
                Outcome::Continue(State::AttributeValueSingleQuoted, draft)
            } else if c == '>' {
                Outcome::Emit(draft.token())
            } else {
                draft.extend_attribute(c, false);
                Outcome::Continue(State::AttributeValueUnquoted, draft)
            }
        },
        State::AttributeValueDoubleQuoted => {
            if c == '"' {
                Outcome::Continue(State::AfterAttributeValueQuoted, draft)
            } else {
                draft.extend_attribute(c, false);
                Outcome::Continue(State::AttributeValueDoubleQuoted, draft)
            }
        },
        State::AttributeValueSingleQuoted => {
            if c == '\'' {
                Outcome::Continue(State::AfterAttributeValueQuoted, draft)
            } else {
                draft.extend_attribute(c, false);
                Outcome::Continue(State::AttributeValueSingleQuoted, draft)
            }
        },
        State::AttributeValueUnquoted => {
            if whitespace(c) {
                Outcome::Continue(State::BeforeAttributeName, draft)
            } else if c == '>' {
                Outcome::Emit(draft.token())
            } else {
                draft.extend_attribute(c, false);
                Outcome::Continue(State::AttributeValueUnquoted, draft)
            }
        },
        State::AfterAttributeValueQuoted => {
            if whitespace(c) {
                Outcome::Continue(State::BeforeAttributeName, draft)
            } else {
                begin_attribute_step(draft, c)
            }
        },
        State::SelfClosingStartTag => {
            if c == '>' {
                draft.close_itself();
                Outcome::Emit(draft.token())
            } else {
                Outcome::Fail(Error::UnsupportedInput(c))
            }
        },
    }
}

/// The tokenizer: the characters of a page and a position in them.
#[derive(Debug)]
pub struct HtmlTokenizer {
    pos: usize,
    input: Vec<char>,
}

impl HtmlTokenizer {
    /// The characters being read.
    pub closed spec fn input(&self) -> Seq<char> {
        self.input@
    }

    /// How many of them are consumed.
    pub closed spec fn pos(&self) -> nat {
        self.pos as nat
    }

    pub fn new(html: String) -> (t: Self)
        ensures
            t.input() == html@,
            t.pos() == 0,
    {
        HtmlTokenizer { pos: 0, input: chars_of(html.as_str()) }
    }

    /// Reads the next token: `Ok(None)` when the input is used up, and an
    /// error on a character that cannot stand where it does.
    pub fn next(&mut self) -> (r: Result<Option<HtmlToken>, Error>)
        ensures
            final(self).input() == old(self).input(),
            token_result_view(r) == next_token(old(self).input(), old(self).pos() as int).0,
            final(self).pos() == next_token(old(self).input(), old(self).pos() as int).1,
    {
        let mut state = State::Data;
        let mut draft = TagDraft::empty();
        loop
            invariant
                self.input == old(self).input,
                scan(self.input@, self.pos as int, state, draft@) == next_token(
                    old(self).input(),
                    old(self).pos() as int,
                ),
            decreases self.input.len() - self.pos,
        {
            if self.pos >= self.input.len() {
                if state == State::Data {
                    return Ok(None);
                } else {
                    return Ok(Some(HtmlToken::Eof));
                }
            }
            let c = self.input[self.pos];
            self.pos += 1;
            match take_step(state, draft, c) {
                Outcome::Emit(token) => {
                    return Ok(Some(token));
                },
                Outcome::Fail(e) => {
                    return Err(e);
                },
                Outcome::Continue(next, d) => {
                    state = next;
                    draft = d;
                },
            }
        }
    }
}

} // verus!
