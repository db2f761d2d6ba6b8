//! The style sheet: rules read from CSS tokens.
//!
//! A rule is a selector, whatever stands between it and the next `{`, which is
//! read over, and a block of declarations up to the matching `}`. [`rules`]
//! says which rules a sequence of tokens holds.

use vstd::prelude::*;

use crate::error::Error;
use crate::renderer::css::token::{
    css_token, lemma_css_token_advances, CssToken, CssTokenView, CssTokenizer,
};
use crate::text::{chars_of, string_of};

verus! {

pub type ComponentValue = CssToken;

#[derive(Debug, PartialEq, Eq)]
pub enum Selector {
    /// Elements of a kind, by tag name.
    TypeSelector(String),
    /// Elements of a class.
    ClassSelector(String),
    /// The element with an id.
    IdSelector(String),
    /// A selector that this engine cannot read. It selects nothing.
    UnknownSelector,
}

/// What a [`Selector`] holds.
pub enum SelectorView {
    TypeSelector(Seq<char>),
    ClassSelector(Seq<char>),
    IdSelector(Seq<char>),
    UnknownSelector,
}

impl View for Selector {
    type V = SelectorView;

    open spec fn view(&self) -> SelectorView {
        match self {
            Selector::TypeSelector(s) => SelectorView::TypeSelector(s@),
            Selector::ClassSelector(s) => SelectorView::ClassSelector(s@),
            Selector::IdSelector(s) => SelectorView::IdSelector(s@),
            Selector::UnknownSelector => SelectorView::UnknownSelector,
        }
    }
}

impl Clone for Selector {
    fn clone(&self) -> (res: Self)
        ensures
            res@ == self@,
    {
        match self {
            Selector::TypeSelector(s) => Selector::TypeSelector(s.clone()),
            Selector::ClassSelector(s) => Selector::ClassSelector(s.clone()),
            Selector::IdSelector(s) => Selector::IdSelector(s.clone()),
            Selector::UnknownSelector => Selector::UnknownSelector,
        }
    }
}

/// A property and the value given to it.
#[derive(Debug, PartialEq, Eq)]
pub struct Declaration {
    pub property: String,
    pub value: ComponentValue,
}

/// What a [`Declaration`] holds.
pub struct DeclarationView {
    pub property: Seq<char>,
    pub value: CssTokenView,
}

impl View for Declaration {
    type V = DeclarationView;

    open spec fn view(&self) -> DeclarationView {
        DeclarationView { property: self.property@, value: self.value@ }
    }
}

impl Clone for Declaration {
    fn clone(&self) -> (res: Self)
        ensures
            res@ == self@,
    {
        Declaration { property: self.property.clone(), value: self.value.clone() }
    }
}

/// The views of a sequence of declarations, in the same order.
pub open spec fn declarations_view(declarations: Seq<Declaration>) -> Seq<DeclarationView> {
    declarations.map_values(|d: Declaration| d@)
}

/// A selector and the declarations that hold for what it selects.
#[derive(Debug, PartialEq, Eq)]
pub struct QualifiedRule {
    pub selector: Selector,
    pub declarations: Vec<Declaration>,
}

/// What a [`QualifiedRule`] holds.
pub struct RuleView {
    pub selector: SelectorView,
    pub declarations: Seq<DeclarationView>,
}

impl View for QualifiedRule {
    type V = RuleView;

    open spec fn view(&self) -> RuleView {
        RuleView { selector: self.selector@, declarations: declarations_view(self.declarations@) }
    }
}

/// The rules of a page, in the order in which they were written.
#[derive(Debug, PartialEq, Eq)]
pub struct StyleSheet {
    pub rules: Vec<QualifiedRule>,
}

impl View for StyleSheet {
    type V = Seq<RuleView>;

    open spec fn view(&self) -> Seq<RuleView> {
        self.rules@.map_values(|r: QualifiedRule| r@)
    }
}

/// A copy of a list of declarations.
pub fn clone_declarations(declarations: &Vec<Declaration>) -> (res: Vec<Declaration>)
    ensures
        declarations_view(res@) == declarations_view(declarations@),
{
    let mut res: Vec<Declaration> = Vec::new();
    let mut i: usize = 0;
    while i < declarations.len()
        invariant
            i <= declarations.len(),
            res@.len() == i,
            forall|j: int| 0 <= j < i ==> res@[j]@ == declarations@[j]@,
        decreases declarations.len() - i,
    {
        res.push(declarations[i].clone());
        i += 1;
    }
    assert(declarations_view(res@) =~= declarations_view(declarations@));
    res
}

impl Clone for QualifiedRule {
    fn clone(&self) -> (res: Self)
        ensures
            res@ == self@,
    {
        QualifiedRule {
            selector: self.selector.clone(),
            declarations: clone_declarations(&self.declarations),
        }
    }
}

impl Clone for StyleSheet {
    fn clone(&self) -> (res: Self)
        ensures
            res@ == self@,
    {
        let mut rules: Vec<QualifiedRule> = Vec::new();
        let mut i: usize = 0;
        while i < self.rules.len()
            invariant
                i <= self.rules.len(),
                rules@.len() == i,
                forall|j: int| 0 <= j < i ==> rules@[j]@ == self.rules@[j]@,
            decreases self.rules.len() - i,
        {
            rules.push(self.rules[i].clone());
            i += 1;
        }
        let res = StyleSheet { rules };
        assert(res@ =~= self@);
        res
    }
}

/// The tokens of `input` from `pos` on, or the first error, and the position
/// at which reading stopped.
///
/// A token always ends after the position at which it was read, by
/// [`lemma_css_token_advances`]; that this is asked here lets the definition
/// end.
pub open spec fn tokenize(input: Seq<char>, pos: int) -> (Result<Seq<CssTokenView>, Error>, int)
    decreases input.len() - pos,
{
    let (token, next) = css_token(input, pos);
    match token {
        Err(e) => (Err(e), next),
        Ok(None) => (Ok(Seq::empty()), next),
        Ok(Some(t)) => if pos < next <= input.len() {
            match tokenize(input, next) {
                (Ok(rest), end) => (Ok(seq![t] + rest), end),
                (Err(e), end) => (Err(e), end),
            }
        } else {
            (Ok(seq![t]), next)
        },
    }
}

/// A name without its first character.
pub open spec fn without_first(name: Seq<char>) -> Seq<char> {
    if name.len() > 0 {
        name.subrange(1, name.len() as int)
    } else {
        name
    }
}

/// The selector that starts at token `i`, and the index after it: a name
/// selects by type, a dot and a name by class, a hash token by id.
pub open spec fn selector_at(tokens: Seq<CssTokenView>, i: int) -> (SelectorView, int)
    recommends
        0 <= i < tokens.len(),
{
    match tokens[i] {
        CssTokenView::HashToken(value) => (SelectorView::IdSelector(without_first(value)), i + 1),
        CssTokenView::Delim(c) => if c == '.' && i + 1 < tokens.len() {
            match tokens[i + 1] {
                CssTokenView::Ident(name) => (SelectorView::ClassSelector(name), i + 2),
                _ => (SelectorView::UnknownSelector, i + 1),
            }
        } else {
            (SelectorView::UnknownSelector, i + 1)
        },
        CssTokenView::Ident(name) => (SelectorView::TypeSelector(name), i + 1),
        _ => (SelectorView::UnknownSelector, i + 1),
    }
}

/// The index of the first `{` from `i` on, or the number of tokens.
pub open spec fn block_start(tokens: Seq<CssTokenView>, i: int) -> int
    decreases tokens.len() - i,
{
    if 0 <= i < tokens.len() && !(tokens[i] is OpenCurly) {
        block_start(tokens, i + 1)
    } else {
        i
    }
}

/// Whether a token can be the value of a declaration.
pub open spec fn is_value(token: CssTokenView) -> bool {
    !(token is SemiColon) && !(token is CloseCurly)
}

/// The declarations of the block whose first token is `i`, and the index
/// after its `}`. A declaration is a name, a colon and a value; whatever
/// else stands in the block is read over.
pub open spec fn declarations_at(tokens: Seq<CssTokenView>, i: int) -> (Seq<DeclarationView>, int)
    decreases tokens.len() - i,
{
    if i < 0 || i >= tokens.len() {
        (Seq::empty(), i)
    } else {
        match tokens[i] {
            CssTokenView::CloseCurly => (Seq::empty(), i + 1),
            CssTokenView::Ident(property) => if i + 2 < tokens.len() && tokens[i + 1] is Colon
                && is_value(tokens[i + 2]) {
                let (rest, end) = declarations_at(tokens, i + 3);
                (seq![DeclarationView { property, value: tokens[i + 2] }] + rest, end)
            } else {
                declarations_at(tokens, i + 1)
            },
            _ => declarations_at(tokens, i + 1),
        }
    }
}

/// The rules that the tokens from `i` on hold. A rule without a block ends
/// the sheet; a block without a selector gets the unknown selector.
///
/// A rule always ends after the token at which it began; that this is asked
/// here lets the definition end.
pub open spec fn rules(tokens: Seq<CssTokenView>, i: int) -> Seq<RuleView>
    decreases tokens.len() - i,
{
    if i < 0 || i >= tokens.len() {
        Seq::empty()
    } else {
        let (selector, after) = if tokens[i] is OpenCurly {
            (SelectorView::UnknownSelector, i)
        } else {
            selector_at(tokens, i)
        };
        let open = block_start(tokens, after);
        if open >= tokens.len() {
            Seq::empty()
        } else {
            let (declarations, next) = declarations_at(tokens, open + 1);
            if i < next <= tokens.len() {
                seq![RuleView { selector, declarations }] + rules(tokens, next)
            } else {
                seq![RuleView { selector, declarations }]
            }
        }
    }
}

/// The style sheet written in `input` from `pos` on, or the tokenizer's
/// first error.
pub open spec fn stylesheet(input: Seq<char>, pos: int) -> Result<Seq<RuleView>, Error> {
    match tokenize(input, pos).0 {
        Ok(tokens) => Ok(rules(tokens, 0)),
        Err(e) => Err(e),
    }
}

/// The views of a sequence of tokens, in the same order.
pub open spec fn tokens_view(tokens: Seq<CssToken>) -> Seq<CssTokenView> {
    tokens.map_values(|t: CssToken| t@)
}

/// The view of what [`CssParser::parse_stylesheet`] returns.
pub open spec fn stylesheet_result_view(r: Result<StyleSheet, Error>) -> Result<
    Seq<RuleView>,
    Error,
> {
    match r {
        Ok(sheet) => Ok(sheet@),
        Err(e) => Err(e),
    }
}

/// Reads the selector at token `i`: see [`selector_at`].
pub fn consume_selector(tokens: &Vec<CssToken>, i: usize) -> (r: (Selector, usize))
    requires
        i < tokens.len(),
    ensures
        r.0@ == selector_at(tokens_view(tokens@), i as int).0,
        r.1 == selector_at(tokens_view(tokens@), i as int).1,
        i < r.1 <= tokens.len(),
{
    match &tokens[i] {
        CssToken::HashToken(value) => {
            let chars = chars_of(value.as_str());
            let name = if chars.len() > 0 {
                string_of(&chars, 1, chars.len())
            } else {
                String::new()
            };
            assert(name@ =~= without_first(value@));
            (Selector::IdSelector(name), i + 1)
        },
        CssToken::Delim(c) => {
            if *c == '.' && i + 1 < tokens.len() {
                match &tokens[i + 1] {
                    CssToken::Ident(name) => (Selector::ClassSelector(name.clone()), i + 2),
                    _ => (Selector::UnknownSelector, i + 1),
                }
            } else {
                (Selector::UnknownSelector, i + 1)
            }
        },
        CssToken::Ident(name) => (Selector::TypeSelector(name.clone()), i + 1),
        _ => (Selector::UnknownSelector, i + 1),
    }
}

fn open_curly(token: &CssToken) -> (r: bool)
    ensures
        r == (token@ is OpenCurly),
{
    match token {
        CssToken::OpenCurly => true,
        _ => false,
    }
}

fn value_token(token: &CssToken) -> (r: bool)
    ensures
        r == is_value(token@),
{
    match token {
        CssToken::SemiColon | CssToken::CloseCurly => false,
        _ => true,
    }
}

/// Reads the declarations of the block whose first token is `i`: see
/// [`declarations_at`].
pub fn consume_list_of_declarations(tokens: &Vec<CssToken>, i: usize) -> (r: (
    Vec<Declaration>,
    usize,
))
    requires
        i <= tokens.len(),
    ensures
        declarations_view(r.0@) == declarations_at(tokens_view(tokens@), i as int).0,
        r.1 == declarations_at(tokens_view(tokens@), i as int).1,
        i <= r.1 <= tokens.len(),
{
    let ghost all = tokens_view(tokens@);
    let mut declarations: Vec<Declaration> = Vec::new();
    let mut k: usize = i;
    assert(declarations_view(declarations@) =~= Seq::empty());
    loop
        invariant
            all == tokens_view(tokens@),
            i <= k <= tokens.len(),
            declarations_at(all, i as int).0 == declarations_view(declarations@)
                + declarations_at(all, k as int).0,
            declarations_at(all, i as int).1 == declarations_at(all, k as int).1,
        decreases tokens.len() - k,
    {
        if k >= tokens.len() {
            assert(declarations_view(declarations@) + Seq::empty() =~= declarations_view(
                declarations@,
            ));
            return (declarations, k);
        }
        match &tokens[k] {
            CssToken::CloseCurly => {
                assert(declarations_view(declarations@) + Seq::empty() =~= declarations_view(
                    declarations@,
                ));
                return (declarations, k + 1);
            },
            CssToken::Ident(property) => {
                if tokens.len() - k > 2 {
                    let colon = match &tokens[k + 1] {
                        CssToken::Colon => true,
                        _ => false,
                    };
                    if colon && value_token(&tokens[k + 2]) {
                        let ghost before = declarations_view(declarations@);
                        let d = Declaration {
                            property: property.clone(),
                            value: tokens[k + 2].clone(),
                        };
                        declarations.push(d);
                        proof {
                            let rest = declarations_at(all, k + 3).0;
                            assert(declarations_view(declarations@) =~= before.push(d@));
                            assert(before + (seq![d@] + rest) =~= before.push(d@) + rest);
                        }
                        k += 3;
                        continue ;
                    }
                }
                k += 1;
            },
            _ => {
                k += 1;
            },
        }
    }
}

/// Reads the rules that `tokens` hold: see [`rules`].
pub fn consume_list_of_rules(tokens: &Vec<CssToken>) -> (res: Vec<QualifiedRule>)
    ensures
        (StyleSheet { rules: res })@ == rules(tokens_view(tokens@), 0),
{
    let ghost all = tokens_view(tokens@);
    let mut res: Vec<QualifiedRule> = Vec::new();
    let mut i: usize = 0;
    loop
        invariant
            all == tokens_view(tokens@),
            i <= tokens.len(),
            rules(all, 0) == res@.map_values(|r: QualifiedRule| r@) + rules(all, i as int),
        decreases tokens.len() - i,
    {
        let ghost before = res@.map_values(|r: QualifiedRule| r@);
        if i >= tokens.len() {
            assert(before + Seq::empty() =~= before);
            return res;
        }
        let (selector, after) = if open_curly(&tokens[i]) {
            (Selector::UnknownSelector, i)
        } else {
            consume_selector(tokens, i)
        };
        let mut open: usize = after;
        while open < tokens.len() && !open_curly(&tokens[open])
            invariant
                all == tokens_view(tokens@),
                after <= open <= tokens.len(),
                block_start(all, open as int) == block_start(all, after as int),
            decreases tokens.len() - open,
        {
            open += 1;
        }
        if open >= tokens.len() {
            assert(before + Seq::empty() =~= before);
            return res;
        }
        let (declarations, next) = consume_list_of_declarations(tokens, open + 1);
        let rule = QualifiedRule { selector, declarations };
        res.push(rule);
        proof {
            let rest = rules(all, next as int);
            assert(res@.map_values(|r: QualifiedRule| r@) =~= before.push(rule@));
            assert(before + (seq![rule@] + rest) =~= before.push(rule@) + rest);
        }
        i = next;
    }
}

/// Reads a style sheet from the tokens of a [`CssTokenizer`].
#[derive(Debug)]
pub struct CssParser {
    t: CssTokenizer,
}

impl CssParser {
    /// The characters the tokens are read from.
    pub closed spec fn input(&self) -> Seq<char> {
        self.t.input()
    }

    /// How many of them are consumed.
    pub closed spec fn pos(&self) -> nat {
        self.t.pos()
    }

    pub fn new(t: CssTokenizer) -> (p: Self)
        ensures
            p.input() == t.input(),
            p.pos() == t.pos(),
    {
        CssParser { t }
    }

    /// Reads what is left of the tokens: see [`tokenize`].
    fn consume_tokens(&mut self) -> (r: Result<Vec<CssToken>, Error>)
        ensures
            final(self).input() == old(self).input(),
            final(self).pos() == tokenize(old(self).input(), old(self).pos() as int).1,
            match r {
                Ok(tokens) => tokenize(old(self).input(), old(self).pos() as int).0 == Ok::<
                    Seq<CssTokenView>,
                    Error,
                >(tokens_view(tokens@)),
                Err(e) => tokenize(old(self).input(), old(self).pos() as int).0 == Err::<
                    Seq<CssTokenView>,
                    Error,
                >(e),
            },
    {
        let ghost input = self.t.input();
        let ghost start = self.t.pos() as int;
        let mut tokens: Vec<CssToken> = Vec::new();
        assert(tokens_view(tokens@) =~= Seq::empty());
        loop
            invariant
                self.t.input() == input,
                input == old(self).input(),
                start == old(self).pos(),
                tokenize(input, start).1 == tokenize(input, self.t.pos() as int).1,
                match tokenize(input, self.t.pos() as int).0 {
                    Ok(rest) => tokenize(input, start).0 == Ok::<Seq<CssTokenView>, Error>(
                        tokens_view(tokens@) + rest,
                    ),
                    Err(e) => tokenize(input, start).0 == Err::<Seq<CssTokenView>, Error>(e),
                },
            decreases input.len() - self.t.pos(),
        {
            let ghost pos = self.t.pos() as int;
            let ghost before = tokens_view(tokens@);
            proof {
                lemma_css_token_advances(input, pos);
            }
            match self.t.next() {
                Err(e) => {
                    return Err(e);
                },
                Ok(None) => {
                    assert(before + Seq::empty() =~= before);
                    return Ok(tokens);
                },
                Ok(Some(token)) => {
                    tokens.push(token);
                    proof {
                        assert(tokens_view(tokens@) =~= before.push(token@));
                        match tokenize(input, self.t.pos() as int).0 {
                            Ok(rest) => {
                                assert(before + (seq![token@] + rest) =~= before.push(token@)
                                    + rest);
                            },
                            Err(e) => {},
                        }
                    }
                },
            }
        }
    }

    /// Reads the style sheet that the rest of the input holds: see
    /// [`stylesheet`].
    pub fn parse_stylesheet(&mut self) -> (r: Result<StyleSheet, Error>)
        ensures
            final(self).input() == old(self).input(),
            final(self).pos() == tokenize(old(self).input(), old(self).pos() as int).1,
            stylesheet_result_view(r) == stylesheet(old(self).input(), old(self).pos() as int),
    {
        match self.consume_tokens() {
            Ok(tokens) => Ok(StyleSheet { rules: consume_list_of_rules(&tokens) }),
            Err(e) => Err(e),
        }
    }
}

} // verus!
