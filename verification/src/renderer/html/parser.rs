//! The tree builder: tokens in, a DOM out.
//!
//! The builder is a state machine over insertion modes. [`step`] is its
//! transition function: from a state and a token to the next state, and
//! whether the token is used up, must be looked at again in the new mode, or
//! ends the document. [`feed`] repeats it on one token, [`run`] feeds the
//! tokens of an input one after another.

use vstd::prelude::*;

use crate::error::Error;
use crate::renderer::dom::node::{
    appended, lemma_name_round_trip, well_formed, with_char, Element, ElementKind, ElementView,
    Node, NodeKind, NodeKindView, NodeView, Window,
};
use crate::renderer::html::attribute::{attributes_view, clone_attributes, Attribute, AttributeView};
use crate::renderer::html::token::{
    lemma_scan_advances, next_token, Draft, HtmlToken, HtmlTokenView, HtmlTokenizer, State,
};
use crate::text::{is_whitespace, push_char, whitespace};

verus! {

#[derive(Debug, Copy, Clone, PartialEq, Eq, Structural)]
pub enum InsertionMode {
    Initial,
    BeforeHtml,
    BeforeHead,
    InHead,
    AfterHead,
    InBody,
    Text,
    AfterBody,
    AfterAfterBody,
}

/// What became of a token in one step.
#[derive(Debug, Copy, Clone, PartialEq, Eq, Structural)]
pub enum Flow {
    /// The token is used up.
    Consumed,
    /// The mode changed and the same token is to be looked at again.
    Again,
    /// The document is complete.
    Finished,
}

/// `nodes` is a tree and every node of `stack` is in it.
pub open spec fn open_nodes_in_tree(nodes: Seq<NodeView>, stack: Seq<usize>) -> bool {
    &&& well_formed(nodes)
    &&& forall|i: int| 0 <= i < stack.len() ==> (#[trigger] stack[i]) < nodes.len()
}

/// The state of the tree builder.
pub struct Builder {
    /// The DOM built so far.
    pub nodes: Seq<NodeView>,
    /// The open nodes, the innermost last.
    pub stack: Seq<usize>,
    pub mode: InsertionMode,
    /// The mode to go back to when a `Text` excursion ends.
    pub original_mode: InsertionMode,
}

impl Builder {
    /// The state before the first token.
    pub open spec fn initial() -> Builder {
        Builder {
            nodes: seq![NodeView::detached(NodeKindView::Document)],
            stack: Seq::empty(),
            mode: InsertionMode::Initial,
            original_mode: InsertionMode::Initial,
        }
    }

    /// The DOM is a tree and every open node is in it.
    pub open spec fn valid(self) -> bool {
        open_nodes_in_tree(self.nodes, self.stack)
    }

    pub open spec fn in_mode(self, mode: InsertionMode) -> Builder {
        Builder { mode, ..self }
    }

    /// Whether the open node at depth `i` is an element of kind `kind`.
    pub open spec fn open_at(self, i: int, kind: ElementKind) -> bool {
        self.nodes[self.stack[i] as int].kind.element_kind() == Some(kind)
    }

    /// Whether an element of kind `kind` is open.
    pub open spec fn has_open(self, kind: ElementKind) -> bool {
        exists|i: int| 0 <= i < self.stack.len() && self.open_at(i, kind)
    }

    /// Whether the innermost open node is an element of kind `kind`.
    pub open spec fn current_is(self, kind: ElementKind) -> bool {
        self.stack.len() > 0 && self.open_at(self.stack.len() - 1, kind)
    }

    /// The state after the innermost open node was closed.
    pub open spec fn popped(self) -> Builder {
        Builder { stack: self.stack.drop_last(), ..self }
    }

    /// The state after the open nodes were closed from the innermost one down
    /// to the nearest element of kind `kind`, that one included. Where none is
    /// open, every node is closed.
    pub open spec fn popped_until(self, kind: ElementKind) -> Builder
        decreases self.stack.len(),
    {
        if self.stack.len() == 0 {
            self
        } else if self.current_is(kind) {
            self.popped()
        } else {
            self.popped().popped_until(kind)
        }
    }

    /// The node that a new node is put under: the innermost open node, or
    /// the document where none is open.
    pub open spec fn current(self) -> usize {
        if self.stack.len() > 0 {
            self.stack.last()
        } else {
            0
        }
    }

    /// The state after a new node became the last child of the current node
    /// and was opened.
    pub open spec fn inserted(self, kind: NodeKindView) -> Builder {
        Builder {
            nodes: appended(self.nodes, self.current() as int, kind),
            stack: self.stack.push(self.nodes.len() as usize),
            ..self
        }
    }

    pub open spec fn inserted_element(
        self,
        kind: ElementKind,
        attributes: Seq<AttributeView>,
    ) -> Builder {
        self.inserted(NodeKindView::Element(ElementView { kind, attributes }))
    }

    /// The state after a character arrived: it is added to the current node
    /// where that is a text node; otherwise white space is dropped, and any
    /// other character starts a text node under the current node. With no
    /// open node the character is dropped.
    pub open spec fn inserted_char(self, c: char) -> Builder {
        if self.stack.len() == 0 {
            self
        } else if self.nodes[self.stack.last() as int].kind is Text {
            Builder { nodes: with_char(self.nodes, self.stack.last() as int, c), ..self }
        } else if is_whitespace(c) {
            self
        } else {
            self.inserted(NodeKindView::Text(seq![c]))
        }
    }
}

/// The state after a step, and what became of the token or why the document
/// cannot be built. A step that fails leaves the state as it was.
pub type Stepped = (Builder, Result<Flow, Error>);

/// A step that went well.
pub open spec fn went(builder: Builder, flow: Flow) -> Stepped {
    (builder, Ok(flow))
}

/// A step that failed.
pub open spec fn failed(builder: Builder, e: Error) -> Stepped {
    (builder, Err(e))
}

/// The step that closes the open nodes down to the nearest open `kind` and
/// goes over to `mode`. It fails where no `kind` is open.
pub open spec fn after_closing(
    b: Builder,
    kind: ElementKind,
    mode: InsertionMode,
    flow: Flow,
) -> Stepped {
    if b.has_open(kind) {
        went(b.popped_until(kind).in_mode(mode), flow)
    } else {
        failed(b, Error::ElementNotOpen(kind))
    }
}

/// Before anything is seen: characters are dropped, and anything else is
/// looked at again before the `html` element.
pub open spec fn step_initial(b: Builder, token: HtmlTokenView) -> Stepped {
    match token {
        HtmlTokenView::Char(_) => went(b, Flow::Consumed),
        _ => went(b.in_mode(InsertionMode::BeforeHtml), Flow::Again),
    }
}

/// Before the `html` element: white space is dropped, an `html` start tag
/// opens the element, the end of the input ends the document, and on
/// anything else a `head` element is made up and the token is looked at again
/// in it.
pub open spec fn step_before_html(b: Builder, token: HtmlTokenView) -> Stepped {
    let synthesize = went(
        b.inserted_element(ElementKind::Head, Seq::empty()).in_mode(InsertionMode::InHead),
        Flow::Again,
    );
    match token {
        HtmlTokenView::Char(c) => if is_whitespace(c) {
            went(b, Flow::Consumed)
        } else {
            synthesize
        },
        HtmlTokenView::StartTag { tag, attributes, .. } => if ElementKind::of_name(tag) == Some(
            ElementKind::Html,
        ) {
            went(
                b.inserted_element(ElementKind::Html, attributes).in_mode(
                    InsertionMode::BeforeHead,
                ),
                Flow::Consumed,
            )
        } else {
            synthesize
        },
        HtmlTokenView::Eof => went(b, Flow::Finished),
        HtmlTokenView::EndTag { .. } => synthesize,
    }
}

/// Before the `head` element: a `head` start tag opens it, the end of the
/// input ends the document, and anything else is dropped.
pub open spec fn step_before_head(b: Builder, token: HtmlTokenView) -> Stepped {
    match token {
        HtmlTokenView::StartTag { tag, attributes, .. } => if ElementKind::of_name(tag) == Some(
            ElementKind::Head,
        ) {
            went(
                b.inserted_element(ElementKind::Head, attributes).in_mode(InsertionMode::InHead),
                Flow::Consumed,
            )
        } else {
            went(b, Flow::Consumed)
        },
        HtmlTokenView::Eof => went(b, Flow::Finished),
        _ => went(b, Flow::Consumed),
    }
}

/// In the `head` element: `style` and `script` start tags open their element
/// and its text is read; the start tag of any other known element closes the
/// `head` and is looked at again after it; a `head` end tag closes it; the end
/// of the input ends the document; anything else is dropped.
pub open spec fn step_in_head(b: Builder, token: HtmlTokenView) -> Stepped {
    match token {
        HtmlTokenView::StartTag { tag, attributes, .. } => match ElementKind::of_name(tag) {
            Some(ElementKind::Style) => went(
                Builder {
                    mode: InsertionMode::Text,
                    original_mode: b.mode,
                    ..b.inserted_element(ElementKind::Style, attributes)
                },
                Flow::Consumed,
            ),
            Some(ElementKind::Script) => went(
                Builder {
                    mode: InsertionMode::Text,
                    original_mode: b.mode,
                    ..b.inserted_element(ElementKind::Script, attributes)
                },
                Flow::Consumed,
            ),
            Some(_) => after_closing(b, ElementKind::Head,
                InsertionMode::AfterHead,
                Flow::Again,
            ),
            None => went(b, Flow::Consumed),
        },
        HtmlTokenView::EndTag { tag } => if ElementKind::of_name(tag) == Some(ElementKind::Head) {
            after_closing(b, ElementKind::Head, InsertionMode::AfterHead, Flow::Consumed)
        } else {
            went(b, Flow::Consumed)
        },
        HtmlTokenView::Eof => went(b, Flow::Finished),
        HtmlTokenView::Char(_) => went(b, Flow::Consumed),
    }
}

/// After the `head` element: white space is taken as text, a `body` start tag
/// opens the element, the end of the input ends the document, and on
/// anything else a `body` element is made up and the token is looked at again
/// in it.
pub open spec fn step_after_head(b: Builder, token: HtmlTokenView) -> Stepped {
    let synthesize = went(
        b.inserted_element(ElementKind::Body, Seq::empty()).in_mode(InsertionMode::InBody),
        Flow::Again,
    );
    match token {
        HtmlTokenView::Char(c) => if is_whitespace(c) {
            went(b.inserted_char(c), Flow::Consumed)
        } else {
            synthesize
        },
        HtmlTokenView::StartTag { tag, attributes, .. } => if ElementKind::of_name(tag) == Some(
            ElementKind::Body,
        ) {
            went(
                b.inserted_element(ElementKind::Body, attributes).in_mode(InsertionMode::InBody),
                Flow::Consumed,
            )
        } else {
            synthesize
        },
        HtmlTokenView::Eof => went(b, Flow::Finished),
        HtmlTokenView::EndTag { .. } => synthesize,
    }
}

/// Whether an element of this kind may be opened and closed within the body.
pub open spec fn is_flow_content(kind: ElementKind) -> bool {
    kind == ElementKind::P || kind == ElementKind::H1 || kind == ElementKind::H2 || kind
        == ElementKind::A
}

/// In the `body` element: start tags of `p`, `h1`, `h2` and `a` open their
/// element and their end tags close it; a `body` end tag closes the `body`
/// where one is open and goes on after it; an `html` end tag, where the
/// `body` is the current node, closes it and the `html` element and is looked
/// at again after the body; characters are taken as text; the end of the
/// input ends the document; anything else is dropped.
pub open spec fn step_in_body(b: Builder, token: HtmlTokenView) -> Stepped {
    match token {
        HtmlTokenView::StartTag { tag, attributes, .. } => match ElementKind::of_name(tag) {
            Some(kind) => if is_flow_content(kind) {
                went(b.inserted_element(kind, attributes), Flow::Consumed)
            } else {
                went(b, Flow::Consumed)
            },
            None => went(b, Flow::Consumed),
        },
        HtmlTokenView::EndTag { tag } => match ElementKind::of_name(tag) {
            Some(ElementKind::Body) => if b.has_open(ElementKind::Body) {
                went(
                    b.popped_until(ElementKind::Body).in_mode(InsertionMode::AfterBody),
                    Flow::Consumed,
                )
            } else {
                went(b.in_mode(InsertionMode::AfterBody), Flow::Consumed)
            },
            Some(ElementKind::Html) => if b.current_is(ElementKind::Body) {
                if b.popped().current_is(ElementKind::Html) {
                    went(b.popped().popped().in_mode(InsertionMode::AfterBody), Flow::Again)
                } else {
                    failed(b, Error::ElementNotOpen(ElementKind::Html))
                }
            } else {
                went(b, Flow::Consumed)
            },
            Some(kind) => if is_flow_content(kind) {
                after_closing(b, kind, InsertionMode::InBody, Flow::Consumed)
            } else {
                went(b, Flow::Consumed)
            },
            None => went(b, Flow::Consumed),
        },
        HtmlTokenView::Eof => went(b, Flow::Finished),
        HtmlTokenView::Char(c) => went(b.inserted_char(c), Flow::Consumed),
    }
}

/// In the text of a `style` or `script` element: characters are taken as
/// text, the end tag of either closes that element and goes back to the mode
/// before, the end of the input ends the document, and anything else is
/// dropped.
pub open spec fn step_text(b: Builder, token: HtmlTokenView) -> Stepped {
    match token {
        HtmlTokenView::EndTag { tag } => match ElementKind::of_name(tag) {
            Some(ElementKind::Style) => after_closing(b, ElementKind::Style,
                b.original_mode,
                Flow::Consumed,
            ),
            Some(ElementKind::Script) => after_closing(b, ElementKind::Script,
                b.original_mode,
                Flow::Consumed,
            ),
            _ => went(b, Flow::Consumed),
        },
        HtmlTokenView::Char(c) => went(b.inserted_char(c), Flow::Consumed),
        HtmlTokenView::Eof => went(b, Flow::Finished),
        HtmlTokenView::StartTag { .. } => went(b, Flow::Consumed),
    }
}

/// After the `body` element: characters are dropped, an `html` end tag goes
/// on after the document, the end of the input ends the document, and
/// anything else is looked at again as part of the body.
pub open spec fn step_after_body(b: Builder, token: HtmlTokenView) -> Stepped {
    match token {
        HtmlTokenView::Char(_) => went(b, Flow::Consumed),
        HtmlTokenView::EndTag { tag } => if ElementKind::of_name(tag) == Some(ElementKind::Html) {
            went(b.in_mode(InsertionMode::AfterAfterBody), Flow::Consumed)
        } else {
            went(b.in_mode(InsertionMode::InBody), Flow::Again)
        },
        HtmlTokenView::Eof => went(b, Flow::Finished),
        HtmlTokenView::StartTag { .. } => went(b.in_mode(InsertionMode::InBody), Flow::Again),
    }
}

/// After the document: characters are dropped, the end of the input ends the
/// document, and anything else is looked at again as part of the body.
pub open spec fn step_after_after_body(b: Builder, token: HtmlTokenView) -> Stepped {
    match token {
        HtmlTokenView::Char(_) => went(b, Flow::Consumed),
        HtmlTokenView::Eof => went(b, Flow::Finished),
        _ => went(b.in_mode(InsertionMode::InBody), Flow::Again),
    }
}

/// The transition function of the tree builder.
pub open spec fn step(b: Builder, token: HtmlTokenView) -> Stepped {
    match b.mode {
        InsertionMode::Initial => step_initial(b, token),
        InsertionMode::BeforeHtml => step_before_html(b, token),
        InsertionMode::BeforeHead => step_before_head(b, token),
        InsertionMode::InHead => step_in_head(b, token),
        InsertionMode::AfterHead => step_after_head(b, token),
        InsertionMode::InBody => step_in_body(b, token),
        InsertionMode::Text => step_text(b, token),
        InsertionMode::AfterBody => step_after_body(b, token),
        InsertionMode::AfterAfterBody => step_after_after_body(b, token),
    }
}

/// How many more times a token can at most be looked at again in `mode`.
pub open spec fn rank(mode: InsertionMode, token: HtmlTokenView) -> nat {
    match mode {
        InsertionMode::Initial => 6,
        InsertionMode::BeforeHtml => 5,
        InsertionMode::InHead => 4,
        InsertionMode::AfterHead => 3,
        InsertionMode::AfterAfterBody => 2,
        InsertionMode::AfterBody => match token {
            HtmlTokenView::EndTag { tag } => if ElementKind::of_name(tag) == Some(
                ElementKind::Html,
            ) {
                0
            } else {
                2
            },
            _ => 2,
        },
        InsertionMode::InBody => 1,
        InsertionMode::BeforeHead => 0,
        InsertionMode::Text => 0,
    }
}

/// A token that has to be looked at again is looked at in a mode of lower
/// rank: no token is looked at for ever.
pub proof fn lemma_again_lowers_rank(b: Builder, token: HtmlTokenView)
    ensures
        match step(b, token) {
            (next, Ok(Flow::Again)) => rank(next.mode, token) < rank(b.mode, token),
            _ => true,
        },
{
}

/// The state after `token` was taken in, and whether the document is
/// complete or why it cannot be built.
///
/// A token that is looked at again always meets a mode of lower rank, by
/// [`lemma_again_lowers_rank`]; that this is asked here lets the definition
/// end.
pub open spec fn feed(b: Builder, token: HtmlTokenView) -> (Builder, Result<bool, Error>)
    decreases rank(b.mode, token),
{
    match step(b, token) {
        (next, Err(e)) => (next, Err(e)),
        (next, Ok(Flow::Consumed)) => (next, Ok(false)),
        (next, Ok(Flow::Finished)) => (next, Ok(true)),
        (next, Ok(Flow::Again)) => if rank(next.mode, token) < rank(b.mode, token) {
            feed(next, token)
        } else {
            (next, Ok(false))
        },
    }
}

/// The DOM that the builder, starting in state `b`, makes of the tokens of
/// `input` from `pos` on; or the first error of tokenizer or builder.
///
/// A token always ends after the position at which it was read, by
/// [`lemma_scan_advances`]; that this is asked here lets the definition end.
pub open spec fn run(b: Builder, input: Seq<char>, pos: int) -> Result<Seq<NodeView>, Error>
    decreases input.len() - pos,
{
    let (token, next) = next_token(input, pos);
    match token {
        Err(e) => Err(e),
        Ok(None) => Ok(b.nodes),
        Ok(Some(t)) => match feed(b, t) {
            (_, Err(e)) => Err(e),
            (after, Ok(true)) => Ok(after.nodes),
            (after, Ok(false)) => if pos < next <= input.len() {
                run(after, input, next)
            } else {
                Ok(after.nodes)
            },
        },
    }
}

/// The DOM of a page.
pub open spec fn parse(input: Seq<char>) -> Result<Seq<NodeView>, Error> {
    run(Builder::initial(), input, 0)
}

/// The tree builder.
#[derive(Debug)]
pub struct HtmlParser {
    window: Window,
    mode: InsertionMode,
    /// The mode to go back to when a `Text` excursion ends.
    original_insertion_mode: InsertionMode,
    /// The open nodes, the innermost last.
    stack_of_open_elements: Vec<usize>,
    t: HtmlTokenizer,
}

impl HtmlParser {
    /// The state of the builder.
    pub closed spec fn builder(&self) -> Builder {
        Builder {
            nodes: self.window@,
            stack: self.stack_of_open_elements@,
            mode: self.mode,
            original_mode: self.original_insertion_mode,
        }
    }

    /// The characters the tokens are read from.
    pub closed spec fn input(&self) -> Seq<char> {
        self.t.input()
    }

    /// How many of them are consumed.
    pub closed spec fn pos(&self) -> nat {
        self.t.pos()
    }

    pub open spec fn wf(&self) -> bool {
        self.builder().valid()
    }

    pub fn new(t: HtmlTokenizer) -> (p: Self)
        ensures
            p.wf(),
            p.builder() == Builder::initial(),
            p.input() == t.input(),
            p.pos() == t.pos(),
    {
        HtmlParser {
            window: Window::new(),
            mode: InsertionMode::Initial,
            original_insertion_mode: InsertionMode::Initial,
            stack_of_open_elements: Vec::new(),
            t,
        }
    }

    /// Whether an element of kind `element_kind` is open.
    pub fn contains_in_stack(&self, element_kind: ElementKind) -> (r: bool)
        requires
            self.wf(),
        ensures
            r == self.builder().has_open(element_kind),
    {
        let mut i: usize = 0;
        while i < self.stack_of_open_elements.len()
            invariant
                self.wf(),
                i <= self.stack_of_open_elements.len(),
                forall|j: int| 0 <= j < i ==> !self.builder().open_at(j, element_kind),
            decreases self.stack_of_open_elements.len() - i,
        {
            let id = self.stack_of_open_elements[i];
            assert(self.builder().stack[i as int] == id);
            if self.window.node(id).element_kind() == Some(element_kind) {
                assert(self.builder().open_at(i as int, element_kind));
                return true;
            }
            i += 1;
        }
        false
    }

    /// Closes the open nodes down to the nearest element of kind
    /// `element_kind`, which must be open.
    pub fn pop_until(&mut self, element_kind: ElementKind)
        requires
            old(self).wf(),
            old(self).builder().has_open(element_kind),
        ensures
            final(self).wf(),
            final(self).builder() == old(self).builder().popped_until(element_kind),
            final(self).input() == old(self).input(),
            final(self).pos() == old(self).pos(),
    {
        loop
            invariant
                self.wf(),
                self.builder().popped_until(element_kind) == old(self).builder().popped_until(
                    element_kind,
                ),
                self.t == old(self).t,
            decreases self.stack_of_open_elements.len(),
        {
            let ghost before = self.builder();
            let current = match self.stack_of_open_elements.pop() {
                Some(id) => id,
                None => {
                    return ;
                },
            };
            assert(before.stack[before.stack.len() - 1] == current);
            assert(self.builder() == before.popped());
            if self.window.node(current).element_kind() == Some(element_kind) {
                return ;
            }
        }
    }

    /// Closes the innermost open node if it is an element of kind
    /// `element_kind`, and says whether it did.
    pub fn pop_current_node(&mut self, element_kind: ElementKind) -> (r: bool)
        requires
            old(self).wf(),
        ensures
            final(self).wf(),
            r == old(self).builder().current_is(element_kind),
            final(self).builder() == if r {
                old(self).builder().popped()
            } else {
                old(self).builder()
            },
            final(self).input() == old(self).input(),
            final(self).pos() == old(self).pos(),
    {
        let n = self.stack_of_open_elements.len();
        if n == 0 {
            return false;
        }
        let current = self.stack_of_open_elements[n - 1];
        assert(self.builder().stack[n - 1] == current);
        if self.window.node(current).element_kind() == Some(element_kind) {
            self.stack_of_open_elements.pop();
            return true;
        }
        false
    }

    /// Whether the open node `depth` places below the innermost one is an
    /// element of kind `element_kind`.
    fn current_is(&self, element_kind: ElementKind, depth: usize) -> (r: bool)
        requires
            self.wf(),
        ensures
            r == (depth < self.builder().stack.len() && self.builder().open_at(
                self.builder().stack.len() - 1 - depth,
                element_kind,
            )),
    {
        let n = self.stack_of_open_elements.len();
        if depth >= n {
            return false;
        }
        let id = self.stack_of_open_elements[n - 1 - depth];
        assert(self.builder().stack[n - 1 - depth] == id);
        self.window.node(id).element_kind() == Some(element_kind)
    }

    /// Makes `new_node` the last child of `parent` and opens it.
    pub fn insert_node(&mut self, parent: usize, new_node: Node)
        requires
            old(self).wf(),
            parent < old(self).builder().nodes.len(),
            !(new_node@.kind is Document),
        ensures
            final(self).wf(),
            final(self).builder() == (Builder {
                nodes: appended(old(self).builder().nodes, parent as int, new_node@.kind),
                stack: old(self).builder().stack.push(old(self).builder().nodes.len() as usize),
                ..old(self).builder()
            }),
            final(self).input() == old(self).input(),
            final(self).pos() == old(self).pos(),
    {
        let id = self.window.append_child(parent, new_node.into_kind());
        self.stack_of_open_elements.push(id);
        proof {
            let before = old(self).builder();
            let after = self.builder();
            assert(after.nodes.len() == before.nodes.len() + 1);
            assert forall|i: int| 0 <= i < after.stack.len() implies (#[trigger] after.stack[i])
                < after.nodes.len() by {
                if i < before.stack.len() {
                    assert(after.stack[i] == before.stack[i]);
                }
            }
        }
    }

    /// A text node that holds the one character `c`.
    pub fn create_char(&self, c: char) -> (n: Node)
        ensures
            n@ == NodeView::detached(NodeKindView::Text(seq![c])),
    {
        let mut s = String::new();
        push_char(&mut s, c);
        assert(s@ =~= seq![c]);
        Node::new(NodeKind::Text(s))
    }

    /// Takes in one character of text: see [`Builder::inserted_char`].
    pub fn insert_char(&mut self, c: char)
        requires
            old(self).wf(),
        ensures
            final(self).wf(),
            final(self).builder() == old(self).builder().inserted_char(c),
            final(self).input() == old(self).input(),
            final(self).pos() == old(self).pos(),
    {
        let n = self.stack_of_open_elements.len();
        if n == 0 {
            return ;
        }
        let current = self.stack_of_open_elements[n - 1];
        assert(self.builder().stack[n - 1] == current);
        if self.window.node(current).is_text() {
            self.window.append_char(current, c);
            return ;
        }
        if whitespace(c) {
            return ;
        }
        let node = self.create_char(c);
        self.insert_node(current, node);
    }

    /// An element node for the tag `tag`, which must be a known one.
    pub fn create_element(&self, tag: &str, attributes: Vec<Attribute>) -> (n: Node)
        requires
            ElementKind::of_name(tag@) is Some,
        ensures
            n@ == NodeView::detached(
                NodeKindView::Element(
                    ElementView {
                        kind: ElementKind::of_name(tag@)->Some_0,
                        attributes: attributes_view(attributes@),
                    },
                ),
            ),
    {
        Node::new(NodeKind::Element(Element::new(tag, attributes)))
    }

    /// Makes an element for the tag `tag`, which must be a known one, the last
    /// child of the current node and opens it.
    pub fn insert_element(&mut self, tag: &str, attributes: Vec<Attribute>)
        requires
            old(self).wf(),
            ElementKind::of_name(tag@) is Some,
        ensures
            final(self).wf(),
            final(self).builder() == old(self).builder().inserted_element(
                ElementKind::of_name(tag@)->Some_0,
                attributes_view(attributes@),
            ),
            final(self).input() == old(self).input(),
            final(self).pos() == old(self).pos(),
    {
        let n = self.stack_of_open_elements.len();
        let current = if n > 0 {
            self.stack_of_open_elements[n - 1]
        } else {
            self.window.document()
        };
        assert(n > 0 ==> self.builder().stack[n - 1] == current);
        let node = self.create_element(tag, attributes);
        self.insert_node(current, node);
    }

    fn step_initial(&mut self, token: &HtmlToken) -> (r: Result<Flow, Error>)
        requires
            old(self).wf(),
            old(self).builder().mode == InsertionMode::Initial,
        ensures
            final(self).input() == old(self).input(),
            final(self).pos() == old(self).pos(),
            final(self).wf(),
            (final(self).builder(), r) == step_initial(old(self).builder(), token@),
    {
        match token {
            HtmlToken::Char(_) => Ok(Flow::Consumed),
            _ => {
                self.mode = InsertionMode::BeforeHtml;
                Ok(Flow::Again)
            },
        }
    }

    /// Opens an element that the page left out.
    fn synthesize(&mut self, kind: ElementKind)
        requires
            old(self).wf(),
            kind == ElementKind::Head || kind == ElementKind::Body,
        ensures
            final(self).wf(),
            final(self).builder() == old(self).builder().inserted_element(kind, Seq::empty()),
            final(self).input() == old(self).input(),
            final(self).pos() == old(self).pos(),
    {
        proof {
            lemma_name_round_trip(kind);
        }
        let none: Vec<Attribute> = Vec::new();
        assert(attributes_view(none@) =~= Seq::empty());
        match kind {
            ElementKind::Head => self.insert_element("head", none),
            _ => self.insert_element("body", none),
        }
    }

    fn step_before_html(&mut self, token: &HtmlToken) -> (r: Result<Flow, Error>)
        requires
            old(self).wf(),
            old(self).builder().mode == InsertionMode::BeforeHtml,
        ensures
            final(self).input() == old(self).input(),
            final(self).pos() == old(self).pos(),
            final(self).wf(),
            (final(self).builder(), r) == step_before_html(old(self).builder(), token@),
    {
        match token {
            HtmlToken::Char(c) => {
                if whitespace(*c) {
                    return Ok(Flow::Consumed);
                }
            },
            HtmlToken::StartTag { tag, attributes, .. } => {
                if ElementKind::from_str(tag.as_str()) == Some(ElementKind::Html) {
                    self.insert_element(tag.as_str(), clone_attributes(attributes));
                    self.mode = InsertionMode::BeforeHead;
                    return Ok(Flow::Consumed);
                }
            },
            HtmlToken::Eof => {
                return Ok(Flow::Finished);
            },
            HtmlToken::EndTag { .. } => {},
        }
        self.synthesize(ElementKind::Head);
        self.mode = InsertionMode::InHead;
        Ok(Flow::Again)
    }

    fn step_before_head(&mut self, token: &HtmlToken) -> (r: Result<Flow, Error>)
        requires
            old(self).wf(),
            old(self).builder().mode == InsertionMode::BeforeHead,
        ensures
            final(self).input() == old(self).input(),
            final(self).pos() == old(self).pos(),
            final(self).wf(),
            (final(self).builder(), r) == step_before_head(old(self).builder(), token@),
    {
        match token {
            HtmlToken::StartTag { tag, attributes, .. } => {
                if ElementKind::from_str(tag.as_str()) == Some(ElementKind::Head) {
                    self.insert_element(tag.as_str(), clone_attributes(attributes));
                    self.mode = InsertionMode::InHead;
                }
                Ok(Flow::Consumed)
            },
            HtmlToken::Eof => Ok(Flow::Finished),
            _ => Ok(Flow::Consumed),
        }
    }

    /// Closes up to the nearest open `kind` and goes over to `mode`: see
    /// [`after_closing`].
    fn close_into(&mut self, kind: ElementKind, mode: InsertionMode, flow: Flow) -> (r: Result<
        Flow,
        Error,
    >)
        requires
            old(self).wf(),
        ensures
            final(self).input() == old(self).input(),
            final(self).pos() == old(self).pos(),
            final(self).wf(),
            (final(self).builder(), r) == after_closing(old(self).builder(), kind, mode, flow),
    {
        if self.contains_in_stack(kind) {
            self.pop_until(kind);
            self.mode = mode;
            Ok(flow)
        } else {
            Err(Error::ElementNotOpen(kind))
        }
    }

    fn step_in_head(&mut self, token: &HtmlToken) -> (r: Result<Flow, Error>)
        requires
            old(self).wf(),
            old(self).builder().mode == InsertionMode::InHead,
        ensures
            final(self).input() == old(self).input(),
            final(self).pos() == old(self).pos(),
            final(self).wf(),
            (final(self).builder(), r) == step_in_head(old(self).builder(), token@),
    {
        match token {
            HtmlToken::StartTag { tag, attributes, .. } => {
                match ElementKind::from_str(tag.as_str()) {
                    Some(ElementKind::Style) | Some(ElementKind::Script) => {
                        self.insert_element(tag.as_str(), clone_attributes(attributes));
                        self.original_insertion_mode = self.mode;
                        self.mode = InsertionMode::Text;
                        Ok(Flow::Consumed)
                    },
                    Some(_) => self.close_into(
                        ElementKind::Head,
                        InsertionMode::AfterHead,
                        Flow::Again,
                    ),
                    None => Ok(Flow::Consumed),
                }
            },
            HtmlToken::EndTag { tag } => {
                if ElementKind::from_str(tag.as_str()) == Some(ElementKind::Head) {
                    self.close_into(ElementKind::Head, InsertionMode::AfterHead, Flow::Consumed)
                } else {
                    Ok(Flow::Consumed)
                }
            },
            HtmlToken::Eof => Ok(Flow::Finished),
            HtmlToken::Char(_) => Ok(Flow::Consumed),
        }
    }

    fn step_after_head(&mut self, token: &HtmlToken) -> (r: Result<Flow, Error>)
        requires
            old(self).wf(),
            old(self).builder().mode == InsertionMode::AfterHead,
        ensures
            final(self).input() == old(self).input(),
            final(self).pos() == old(self).pos(),
            final(self).wf(),
            (final(self).builder(), r) == step_after_head(old(self).builder(), token@),
    {
        match token {
            HtmlToken::Char(c) => {
                if whitespace(*c) {
                    self.insert_char(*c);
                    return Ok(Flow::Consumed);
                }
            },
            HtmlToken::StartTag { tag, attributes, .. } => {
                if ElementKind::from_str(tag.as_str()) == Some(ElementKind::Body) {
                    self.insert_element(tag.as_str(), clone_attributes(attributes));
                    self.mode = InsertionMode::InBody;
                    return Ok(Flow::Consumed);
                }
            },
            HtmlToken::Eof => {
                return Ok(Flow::Finished);
            },
            HtmlToken::EndTag { .. } => {},
        }
        self.synthesize(ElementKind::Body);
        self.mode = InsertionMode::InBody;
        Ok(Flow::Again)
    }

    fn step_in_body(&mut self, token: &HtmlToken) -> (r: Result<Flow, Error>)
        requires
            old(self).wf(),
            old(self).builder().mode == InsertionMode::InBody,
        ensures
            final(self).input() == old(self).input(),
            final(self).pos() == old(self).pos(),
            final(self).wf(),
            (final(self).builder(), r) == step_in_body(old(self).builder(), token@),
    {
        match token {
            HtmlToken::StartTag { tag, attributes, .. } => {
                match ElementKind::from_str(tag.as_str()) {
                    Some(ElementKind::P) | Some(ElementKind::H1) | Some(ElementKind::H2) | Some(
                        ElementKind::A,
                    ) => {
                        self.insert_element(tag.as_str(), clone_attributes(attributes));
                        Ok(Flow::Consumed)
                    },
                    _ => Ok(Flow::Consumed),
                }
            },
            HtmlToken::EndTag { tag } => {
                match ElementKind::from_str(tag.as_str()) {
                    Some(ElementKind::Body) => {
                        if self.contains_in_stack(ElementKind::Body) {
                            self.pop_until(ElementKind::Body);
                        }
                        self.mode = InsertionMode::AfterBody;
                        Ok(Flow::Consumed)
                    },
                    Some(ElementKind::Html) => {
                        if !self.current_is(ElementKind::Body, 0) {
                            Ok(Flow::Consumed)
                        } else if !self.current_is(ElementKind::Html, 1) {
                            Err(Error::ElementNotOpen(ElementKind::Html))
                        } else {
                            self.pop_current_node(ElementKind::Body);
                            self.pop_current_node(ElementKind::Html);
                            self.mode = InsertionMode::AfterBody;
                            Ok(Flow::Again)
                        }
                    },
                    Some(ElementKind::P) => self.close_into(
                        ElementKind::P,
                        InsertionMode::InBody,
                        Flow::Consumed,
                    ),
                    Some(ElementKind::H1) => self.close_into(
                        ElementKind::H1,
                        InsertionMode::InBody,
                        Flow::Consumed,
                    ),
                    Some(ElementKind::H2) => self.close_into(
                        ElementKind::H2,
                        InsertionMode::InBody,
                        Flow::Consumed,
                    ),
                    Some(ElementKind::A) => self.close_into(
                        ElementKind::A,
                        InsertionMode::InBody,
                        Flow::Consumed,
                    ),
                    _ => Ok(Flow::Consumed),
                }
            },
            HtmlToken::Eof => Ok(Flow::Finished),
            HtmlToken::Char(c) => {
                self.insert_char(*c);
                Ok(Flow::Consumed)
            },
        }
    }

    fn step_text(&mut self, token: &HtmlToken) -> (r: Result<Flow, Error>)
        requires
            old(self).wf(),
            old(self).builder().mode == InsertionMode::Text,
        ensures
            final(self).input() == old(self).input(),
            final(self).pos() == old(self).pos(),
            final(self).wf(),
            (final(self).builder(), r) == step_text(old(self).builder(), token@),
    {
        match token {
            HtmlToken::EndTag { tag } => {
                match ElementKind::from_str(tag.as_str()) {
                    Some(ElementKind::Style) => self.close_into(
                        ElementKind::Style,
                        self.original_insertion_mode,
                        Flow::Consumed,
                    ),
                    Some(ElementKind::Script) => self.close_into(
                        ElementKind::Script,
                        self.original_insertion_mode,
                        Flow::Consumed,
                    ),
                    _ => Ok(Flow::Consumed),
                }
            },
            HtmlToken::Char(c) => {
                self.insert_char(*c);
                Ok(Flow::Consumed)
            },
            HtmlToken::Eof => Ok(Flow::Finished),
            HtmlToken::StartTag { .. } => Ok(Flow::Consumed),
        }
    }

    fn step_after_body(&mut self, token: &HtmlToken) -> (r: Result<Flow, Error>)
        requires
            old(self).wf(),
            old(self).builder().mode == InsertionMode::AfterBody,
        ensures
            final(self).input() == old(self).input(),
            final(self).pos() == old(self).pos(),
            final(self).wf(),
            (final(self).builder(), r) == step_after_body(old(self).builder(), token@),
    {
        match token {
            HtmlToken::Char(_) => Ok(Flow::Consumed),
            HtmlToken::EndTag { tag } => {
                if ElementKind::from_str(tag.as_str()) == Some(ElementKind::Html) {
                    self.mode = InsertionMode::AfterAfterBody;
                    Ok(Flow::Consumed)
                } else {
                    self.mode = InsertionMode::InBody;
                    Ok(Flow::Again)
                }
            },
            HtmlToken::Eof => Ok(Flow::Finished),
            HtmlToken::StartTag { .. } => {
                self.mode = InsertionMode::InBody;
                Ok(Flow::Again)
            },
        }
    }

    fn step_after_after_body(&mut self, token: &HtmlToken) -> (r: Result<Flow, Error>)
        requires
            old(self).wf(),
            old(self).builder().mode == InsertionMode::AfterAfterBody,
        ensures
            final(self).input() == old(self).input(),
            final(self).pos() == old(self).pos(),
            final(self).wf(),
            (final(self).builder(), r) == step_after_after_body(old(self).builder(), token@),
    {
        match token {
            HtmlToken::Char(_) => Ok(Flow::Consumed),
            HtmlToken::Eof => Ok(Flow::Finished),
            _ => {
                self.mode = InsertionMode::InBody;
                Ok(Flow::Again)
            },
        }
    }

    /// Takes one step of the state machine on `token`: see [`step`].
    pub fn step(&mut self, token: &HtmlToken) -> (r: Result<Flow, Error>)
        requires
            old(self).wf(),
        ensures
            final(self).input() == old(self).input(),
            final(self).pos() == old(self).pos(),
            final(self).wf(),
            (final(self).builder(), r) == step(old(self).builder(), token@),
    {
        match self.mode {
            InsertionMode::Initial => self.step_initial(token),
            InsertionMode::BeforeHtml => self.step_before_html(token),
            InsertionMode::BeforeHead => self.step_before_head(token),
            InsertionMode::InHead => self.step_in_head(token),
            InsertionMode::AfterHead => self.step_after_head(token),
            InsertionMode::InBody => self.step_in_body(token),
            InsertionMode::Text => self.step_text(token),
            InsertionMode::AfterBody => self.step_after_body(token),
            InsertionMode::AfterAfterBody => self.step_after_after_body(token),
        }
    }

    /// Takes in `token`, looking at it again as often as the modes ask, and
    /// says whether the document is complete: see [`feed`].
    pub fn feed(&mut self, token: &HtmlToken) -> (r: Result<bool, Error>)
        requires
            old(self).wf(),
        ensures
            final(self).input() == old(self).input(),
            final(self).pos() == old(self).pos(),
            final(self).wf(),
            (final(self).builder(), r) == feed(old(self).builder(), token@),
    {
        loop
            invariant
                self.wf(),
                self.input() == old(self).input(),
                self.pos() == old(self).pos(),
                feed(self.builder(), token@) == feed(old(self).builder(), token@),
            decreases rank(self.mode, token@),
        {
            proof {
                lemma_again_lowers_rank(self.builder(), token@);
            }
            match self.step(token) {
                Err(e) => {
                    return Err(e);
                },
                Ok(Flow::Consumed) => {
                    return Ok(false);
                },
                Ok(Flow::Finished) => {
                    return Ok(true);
                },
                Ok(Flow::Again) => {},
            }
        }
    }

    /// Builds the DOM of the rest of the input: see [`run`].
    pub fn construct_tree(self) -> (r: Result<Window, Error>)
        requires
            self.wf(),
        ensures
            match r {
                Ok(w) => w.wf() && run(self.builder(), self.input(), self.pos() as int) == Ok::<
                    Seq<NodeView>,
                    Error,
                >(w@),
                Err(e) => run(self.builder(), self.input(), self.pos() as int) == Err::<
                    Seq<NodeView>,
                    Error,
                >(e),
            },
    {
        let mut parser = self;
        loop
            invariant
                parser.wf(),
                parser.input() == self.input(),
                run(parser.builder(), parser.input(), parser.pos() as int) == run(
                    self.builder(),
                    self.input(),
                    self.pos() as int,
                ),
            decreases parser.input().len() - parser.pos(),
        {
            proof {
                lemma_scan_advances(
                    parser.input(),
                    parser.pos() as int,
                    State::Data,
                    Draft::empty(),
                );
            }
            let ghost before = parser;
            let next = parser.t.next();
            assert(parser.builder() == before.builder());
            let token = match next {
                Err(e) => {
                    return Err(e);
                },
                Ok(None) => {
                    return Ok(parser.window);
                },
                Ok(Some(token)) => token,
            };
            match parser.feed(&token) {
                Err(e) => {
                    return Err(e);
                },
                Ok(true) => {
                    return Ok(parser.window);
                },
                Ok(false) => {},
            }
        }
    }
}

} // verus!
