//! The DOM: nodes held in one arena and addressed by their index in it.
//!
//! First-child and next-sibling links form the tree; parent, last-child and
//! previous-sibling links point back into it. A node is always created after
//! its parent and after its earlier siblings, so every forward link leads to a
//! larger index and every back link to a smaller one.

use vstd::prelude::*;

use crate::renderer::html::attribute::{attributes_view, clone_attributes, Attribute, AttributeView};
use crate::text::{equals, push_char};

verus! {

/// The elements this engine knows.
#[derive(Debug, Copy, Clone, PartialEq, Eq, Structural)]
pub enum ElementKind {
    Html,
    Head,
    Style,
    Script,
    Body,
    P,
    H1,
    H2,
    A,
}

impl ElementKind {
    /// The tag name of the element.
    pub open spec fn name(self) -> Seq<char> {
        match self {
            ElementKind::Html => "html"@,
            ElementKind::Head => "head"@,
            ElementKind::Style => "style"@,
            ElementKind::Script => "script"@,
            ElementKind::Body => "body"@,
            ElementKind::P => "p"@,
            ElementKind::H1 => "h1"@,
            ElementKind::H2 => "h2"@,
            ElementKind::A => "a"@,
        }
    }

    /// The element that a tag name stands for, if it is a known one.
    pub open spec fn of_name(name: Seq<char>) -> Option<ElementKind> {
        if name == "html"@ {
            Some(ElementKind::Html)
        } else if name == "head"@ {
            Some(ElementKind::Head)
        } else if name == "style"@ {
            Some(ElementKind::Style)
        } else if name == "script"@ {
            Some(ElementKind::Script)
        } else if name == "body"@ {
            Some(ElementKind::Body)
        } else if name == "p"@ {
            Some(ElementKind::P)
        } else if name == "h1"@ {
            Some(ElementKind::H1)
        } else if name == "h2"@ {
            Some(ElementKind::H2)
        } else if name == "a"@ {
            Some(ElementKind::A)
        } else {
            None
        }
    }

    /// Elements that start a new line and take the full width.
    pub open spec fn is_block(self) -> bool {
        self == ElementKind::Body || self == ElementKind::H1 || self == ElementKind::H2 || self
            == ElementKind::P
    }

    pub fn from_str(s: &str) -> (r: Option<ElementKind>)
        ensures
            r == ElementKind::of_name(s@),
    {
        if equals(s, "html") {
            Some(ElementKind::Html)
        } else if equals(s, "head") {
            Some(ElementKind::Head)
        } else if equals(s, "style") {
            Some(ElementKind::Style)
        } else if equals(s, "script") {
            Some(ElementKind::Script)
        } else if equals(s, "body") {
            Some(ElementKind::Body)
        } else if equals(s, "p") {
            Some(ElementKind::P)
        } else if equals(s, "h1") {
            Some(ElementKind::H1)
        } else if equals(s, "h2") {
            Some(ElementKind::H2)
        } else if equals(s, "a") {
            Some(ElementKind::A)
        } else {
            None
        }
    }

    pub fn to_string(&self) -> (s: String)
        ensures
            s@ == self.name(),
    {
        match self {
            ElementKind::Html => String::from_str("html"),
            ElementKind::Head => String::from_str("head"),
            ElementKind::Style => String::from_str("style"),
            ElementKind::Script => String::from_str("script"),
            ElementKind::Body => String::from_str("body"),
            ElementKind::P => String::from_str("p"),
            ElementKind::H1 => String::from_str("h1"),
            ElementKind::H2 => String::from_str("h2"),
            ElementKind::A => String::from_str("a"),
        }
    }
}

/// Every element kind is the one that its own name stands for.
pub proof fn lemma_name_round_trip(kind: ElementKind)
    ensures
        ElementKind::of_name(kind.name()) == Some(kind),
{
    reveal_strlit("html");
    reveal_strlit("head");
    reveal_strlit("style");
    reveal_strlit("script");
    reveal_strlit("body");
    reveal_strlit("p");
    reveal_strlit("h1");
    reveal_strlit("h2");
    reveal_strlit("a");
    assert("html"@.len() == 4 && "head"@.len() == 4 && "body"@.len() == 4);
    assert("style"@.len() == 5 && "script"@.len() == 6);
    assert("p"@.len() == 1 && "a"@.len() == 1 && "h1"@.len() == 2 && "h2"@.len() == 2);
    assert("h1"@[1] != "h2"@[1]);
    assert("html"@[1] != "head"@[1]);
    assert("html"@[0] != "body"@[0]);
    assert("head"@[0] != "body"@[0]);
    assert("p"@[0] != "a"@[0]);
}

/// An element: its kind and the attributes of its start tag, in order.
#[derive(Debug, PartialEq, Eq)]
pub struct Element {
    kind: ElementKind,
    attributes: Vec<Attribute>,
}

/// What an [`Element`] holds.
pub struct ElementView {
    pub kind: ElementKind,
    pub attributes: Seq<AttributeView>,
}

impl ElementView {
    /// The value of the first attribute called `name`.
    pub open spec fn attribute_value(self, name: Seq<char>) -> Option<Seq<char>> {
        first_value(self.attributes, name)
    }
}

/// The value of the first attribute in `attributes` whose name is `name`.
pub open spec fn first_value(attributes: Seq<AttributeView>, name: Seq<char>) -> Option<
    Seq<char>,
>
    decreases attributes.len(),
{
    if attributes.len() == 0 {
        None
    } else if attributes[0].name == name {
        Some(attributes[0].value)
    } else {
        first_value(attributes.drop_first(), name)
    }
}

impl View for Element {
    type V = ElementView;

    closed spec fn view(&self) -> ElementView {
        ElementView { kind: self.kind, attributes: attributes_view(self.attributes@) }
    }
}

impl Clone for Element {
    fn clone(&self) -> (res: Self)
        ensures
            res@ == self@,
    {
        Element { kind: self.kind, attributes: clone_attributes(&self.attributes) }
    }
}

impl Element {
    /// The element called `element_name`, which must be a known name.
    pub fn new(element_name: &str, attributes: Vec<Attribute>) -> (e: Self)
        requires
            ElementKind::of_name(element_name@) is Some,
        ensures
            e@.kind == ElementKind::of_name(element_name@)->Some_0,
            e@.attributes == attributes_view(attributes@),
    {
        match ElementKind::from_str(element_name) {
            Some(kind) => Element { kind, attributes },
            None => Element { kind: ElementKind::Html, attributes },
        }
    }

    pub fn kind(&self) -> (k: ElementKind)
        ensures
            k == self@.kind,
    {
        self.kind
    }

    pub fn attributes(&self) -> (res: Vec<Attribute>)
        ensures
            attributes_view(res@) == self@.attributes,
    {
        clone_attributes(&self.attributes)
    }

    pub fn is_block_element(&self) -> (b: bool)
        ensures
            b == self@.kind.is_block(),
    {
        match self.kind {
            ElementKind::Body | ElementKind::H1 | ElementKind::H2 | ElementKind::P => true,
            _ => false,
        }
    }

    /// The first attribute called `name`.
    pub fn get_attr(&self, name: &str) -> (r: Option<Attribute>)
        ensures
            match r {
                Some(a) => a@.name == name@ && self@.attribute_value(name@) == Some(a@.value),
                None => self@.attribute_value(name@) is None,
            },
    {
        let mut i: usize = 0;
        let ghost all = attributes_view(self.attributes@);
        assert(all.skip(0) =~= all);
        while i < self.attributes.len()
            invariant
                i <= self.attributes.len(),
                all == attributes_view(self.attributes@),
                first_value(all, name@) == first_value(all.skip(i as int), name@),
            decreases self.attributes.len() - i,
        {
            proof {
                assert(all.skip(i as int)[0] == self.attributes@[i as int]@);
                assert(all.skip(i as int).drop_first() =~= all.skip(i + 1));
            }
            if self.attributes[i].is_named(name) {
                return Some(self.attributes[i].clone());
            }
            i += 1;
        }
        assert(all.skip(i as int).len() == 0);
        None
    }
}

/// What a node is.
#[derive(Debug, PartialEq, Eq)]
pub enum NodeKind {
    /// The root of a document.
    Document,
    Element(Element),
    /// A run of characters.
    Text(String),
}

/// What a [`NodeKind`] holds.
pub enum NodeKindView {
    Document,
    Element(ElementView),
    Text(Seq<char>),
}

impl NodeKindView {
    /// The element kind of an element node.
    pub open spec fn element_kind(self) -> Option<ElementKind> {
        match self {
            NodeKindView::Element(e) => Some(e.kind),
            _ => None,
        }
    }
}

impl View for NodeKind {
    type V = NodeKindView;

    open spec fn view(&self) -> NodeKindView {
        match self {
            NodeKind::Document => NodeKindView::Document,
            NodeKind::Element(e) => NodeKindView::Element(e@),
            NodeKind::Text(s) => NodeKindView::Text(s@),
        }
    }
}

impl Clone for NodeKind {
    fn clone(&self) -> (res: Self)
        ensures
            res@ == self@,
    {
        match self {
            NodeKind::Document => NodeKind::Document,
            NodeKind::Element(e) => NodeKind::Element(e.clone()),
            NodeKind::Text(s) => NodeKind::Text(s.clone()),
        }
    }
}

/// One node of the arena: what it is, and the indices of its neighbours.
#[derive(Debug)]
pub struct Node {
    pub kind: NodeKind,
    parent: Option<usize>,
    first_child: Option<usize>,
    last_child: Option<usize>,
    previous_sibiling: Option<usize>,
    next_sibiling: Option<usize>,
}

/// What a [`Node`] holds.
pub struct NodeView {
    pub kind: NodeKindView,
    pub parent: Option<usize>,
    pub first_child: Option<usize>,
    pub last_child: Option<usize>,
    pub previous_sibling: Option<usize>,
    pub next_sibling: Option<usize>,
}

impl NodeView {
    /// A node of this kind with no neighbours.
    pub open spec fn detached(kind: NodeKindView) -> NodeView {
        NodeView {
            kind,
            parent: None,
            first_child: None,
            last_child: None,
            previous_sibling: None,
            next_sibling: None,
        }
    }
}

impl View for Node {
    type V = NodeView;

    closed spec fn view(&self) -> NodeView {
        NodeView {
            kind: self.kind@,
            parent: self.parent,
            first_child: self.first_child,
            last_child: self.last_child,
            previous_sibling: self.previous_sibiling,
            next_sibling: self.next_sibiling,
        }
    }
}

impl Clone for Node {
    fn clone(&self) -> (res: Self)
        ensures
            res@ == self@,
    {
        Node {
            kind: self.kind.clone(),
            parent: self.parent,
            first_child: self.first_child,
            last_child: self.last_child,
            previous_sibiling: self.previous_sibiling,
            next_sibiling: self.next_sibiling,
        }
    }
}

impl Node {
    pub fn new(kind: NodeKind) -> (n: Self)
        ensures
            n@ == NodeView::detached(kind@),
    {
        Node {
            kind,
            parent: None,
            first_child: None,
            last_child: None,
            previous_sibiling: None,
            next_sibiling: None,
        }
    }

    pub fn set_parent(&mut self, parent: Option<usize>)
        ensures
            final(self)@ == (NodeView { parent, ..old(self)@ }),
    {
        self.parent = parent;
    }

    pub fn parent(&self) -> (r: Option<usize>)
        ensures
            r == self@.parent,
    {
        self.parent
    }

    pub fn set_first_child(&mut self, first_child: Option<usize>)
        ensures
            final(self)@ == (NodeView { first_child, ..old(self)@ }),
    {
        self.first_child = first_child;
    }

    pub fn first_child(&self) -> (r: Option<usize>)
        ensures
            r == self@.first_child,
    {
        self.first_child
    }

    pub fn set_last_child(&mut self, last_child: Option<usize>)
        ensures
            final(self)@ == (NodeView { last_child, ..old(self)@ }),
    {
        self.last_child = last_child;
    }

    pub fn last_child(&self) -> (r: Option<usize>)
        ensures
            r == self@.last_child,
    {
        self.last_child
    }

    pub fn set_previous_sibiling(&mut self, previous_sibiling: Option<usize>)
        ensures
            final(self)@ == (NodeView { previous_sibling: previous_sibiling, ..old(self)@ }),
    {
        self.previous_sibiling = previous_sibiling;
    }

    pub fn previous_sibiling(&self) -> (r: Option<usize>)
        ensures
            r == self@.previous_sibling,
    {
        self.previous_sibiling
    }

    pub fn set_next_sibiling(&mut self, next_sibiling: Option<usize>)
        ensures
            final(self)@ == (NodeView { next_sibling: next_sibiling, ..old(self)@ }),
    {
        self.next_sibiling = next_sibiling;
    }

    pub fn next_sibiling(&self) -> (r: Option<usize>)
        ensures
            r == self@.next_sibling,
    {
        self.next_sibiling
    }

    pub fn kind(&self) -> (k: NodeKind)
        ensures
            k@ == self@.kind,
    {
        self.kind.clone()
    }

    pub fn get_element(&self) -> (r: Option<Element>)
        ensures
            match r {
                Some(e) => self@.kind == NodeKindView::Element(e@),
                None => !(self@.kind is Element),
            },
    {
        match &self.kind {
            NodeKind::Document | NodeKind::Text(_) => None,
            NodeKind::Element(e) => Some(e.clone()),
        }
    }

    pub fn element_kind(&self) -> (r: Option<ElementKind>)
        ensures
            r == self@.kind.element_kind(),
    {
        match &self.kind {
            NodeKind::Document | NodeKind::Text(_) => None,
            NodeKind::Element(e) => Some(e.kind()),
        }
    }

    /// What the node is, borrowed.
    pub fn kind_ref(&self) -> (k: &NodeKind)
        ensures
            k@ == self@.kind,
    {
        &self.kind
    }

    /// What the node is, without its links.
    pub fn into_kind(self) -> (k: NodeKind)
        ensures
            k@ == self@.kind,
    {
        self.kind
    }

    /// Whether the node is a run of characters.
    pub fn is_text(&self) -> (r: bool)
        ensures
            r == (self@.kind is Text),
    {
        match &self.kind {
            NodeKind::Text(_) => true,
            _ => false,
        }
    }
}

/// The links of node `i` agree with those of the nodes they lead to.
pub open spec fn node_well_formed(nodes: Seq<NodeView>, i: int) -> bool {
    let n = nodes[i];
    &&& (i == 0 <==> n.parent is None)
    &&& (i == 0 <==> n.kind is Document)
    &&& (i == 0 ==> n.next_sibling is None && n.previous_sibling is None)
    &&& (n.parent matches Some(p) ==> {
        &&& p < i
        &&& (n.previous_sibling is None ==> nodes[p as int].first_child == Some(i as usize))
        &&& (n.next_sibling is None ==> nodes[p as int].last_child == Some(i as usize))
    })
    &&& (n.first_child matches Some(c) ==> {
        &&& i < c < nodes.len()
        &&& nodes[c as int].parent == Some(i as usize)
        &&& nodes[c as int].previous_sibling is None
    })
    &&& (n.last_child matches Some(c) ==> {
        &&& i < c < nodes.len()
        &&& nodes[c as int].parent == Some(i as usize)
        &&& nodes[c as int].next_sibling is None
    })
    &&& (n.first_child is None <==> n.last_child is None)
    &&& (n.next_sibling matches Some(s) ==> {
        &&& i < s < nodes.len()
        &&& nodes[s as int].parent == n.parent
        &&& nodes[s as int].previous_sibling == Some(i as usize)
    })
    &&& (n.previous_sibling matches Some(s) ==> {
        &&& s < i
        &&& nodes[s as int].parent == n.parent
        &&& nodes[s as int].next_sibling == Some(i as usize)
    })
}

/// The arena is a tree rooted at its first node, the document, and every
/// back link agrees with the forward link it mirrors.
pub open spec fn well_formed(nodes: Seq<NodeView>) -> bool {
    &&& 1 <= nodes.len() <= usize::MAX
    &&& forall|i: int| 0 <= i < nodes.len() ==> #[trigger] node_well_formed(nodes, i)
}

/// The arena after a node of kind `kind` became the last child of `parent`.
pub open spec fn appended(nodes: Seq<NodeView>, parent: int, kind: NodeKindView) -> Seq<NodeView> {
    let id = nodes.len() as usize;
    let fresh = NodeView {
        kind,
        parent: Some(parent as usize),
        first_child: None,
        last_child: None,
        previous_sibling: nodes[parent].last_child,
        next_sibling: None,
    };
    let linked = match nodes[parent].last_child {
        Some(last) => nodes.update(
            last as int,
            NodeView { next_sibling: Some(id), ..nodes[last as int] },
        ),
        None => nodes,
    };
    let first_child = if nodes[parent].first_child is None {
        Some(id)
    } else {
        nodes[parent].first_child
    };
    linked.update(
        parent,
        NodeView { first_child, last_child: Some(id), ..linked[parent] },
    ).push(fresh)
}

/// The arena after `c` was added to the end of the text node `id`.
pub open spec fn with_char(nodes: Seq<NodeView>, id: int, c: char) -> Seq<NodeView> {
    nodes.update(
        id,
        NodeView { kind: NodeKindView::Text(nodes[id].kind->Text_0.push(c)), ..nodes[id] },
    )
}

/// Adding a last child keeps the arena a tree.
pub proof fn lemma_appended_well_formed(nodes: Seq<NodeView>, parent: int, kind: NodeKindView)
    requires
        well_formed(nodes),
        nodes.len() < usize::MAX,
        0 <= parent < nodes.len(),
        !(kind is Document),
    ensures
        well_formed(appended(nodes, parent, kind)),
{
    let after = appended(nodes, parent, kind);
    assert(node_well_formed(nodes, parent));
    match nodes[parent].last_child {
        Some(last) => {
            assert(node_well_formed(nodes, last as int));
        },
        None => {},
    }
    assert forall|i: int| 0 <= i < after.len() implies #[trigger] node_well_formed(after, i) by {
        if i < nodes.len() {
            assert(node_well_formed(nodes, i));
        }
    }
}

/// Adding a character to a text node keeps the arena a tree.
pub proof fn lemma_with_char_well_formed(nodes: Seq<NodeView>, id: int, c: char)
    requires
        well_formed(nodes),
        0 <= id < nodes.len(),
        nodes[id].kind is Text,
    ensures
        well_formed(with_char(nodes, id, c)),
{
    let after = with_char(nodes, id, c);
    assert forall|i: int| 0 <= i < after.len() implies #[trigger] node_well_formed(after, i) by {
        assert(node_well_formed(nodes, i));
    }
}

/// A document and everything in it. The document node has index 0.
#[derive(Debug)]
pub struct Window {
    nodes: Vec<Node>,
}

impl View for Window {
    type V = Seq<NodeView>;

    closed spec fn view(&self) -> Seq<NodeView> {
        self.nodes@.map_values(|n: Node| n@)
    }
}

impl Window {
    /// The arena is a tree: see [`well_formed`].
    pub open spec fn wf(&self) -> bool {
        well_formed(self@)
    }

    /// A window whose document is empty.
    pub fn new() -> (w: Self)
        ensures
            w.wf(),
            w@ == seq![NodeView::detached(NodeKindView::Document)],
    {
        let mut nodes: Vec<Node> = Vec::new();
        nodes.push(Node::new(NodeKind::Document));
        let w = Window { nodes };
        assert(w@ =~= seq![NodeView::detached(NodeKindView::Document)]);
        assert(node_well_formed(w@, 0));
        w
    }

    /// The index of the document node.
    pub fn document(&self) -> (id: usize)
        ensures
            id == 0,
    {
        0
    }

    /// The number of nodes.
    pub fn len(&self) -> (n: usize)
        ensures
            n == self@.len(),
    {
        self.nodes.len()
    }

    /// The node with index `id`.
    pub fn node(&self, id: usize) -> (n: &Node)
        requires
            id < self@.len(),
        ensures
            n@ == self@[id as int],
    {
        &self.nodes[id]
    }

    /// The node with index `id`, if there is one.
    pub fn get(&self, id: usize) -> (r: Option<&Node>)
        ensures
            match r {
                Some(n) => id < self@.len() && n@ == self@[id as int],
                None => id >= self@.len(),
            },
    {
        if id < self.nodes.len() {
            Some(&self.nodes[id])
        } else {
            None
        }
    }

    /// Makes a new node of kind `kind` the last child of `parent` and returns
    /// its index.
    pub fn append_child(&mut self, parent: usize, kind: NodeKind) -> (id: usize)
        requires
            old(self).wf(),
            parent < old(self)@.len(),
            !(kind is Document),
        ensures
            final(self).wf(),
            id == old(self)@.len(),
            final(self)@.len() == old(self)@.len() + 1,
            final(self)@ == appended(old(self)@, parent as int, kind@),
    {
        let id = self.nodes.len();
        let last = self.nodes[parent].last_child();
        let mut fresh = Node::new(kind);
        fresh.set_parent(Some(parent));
        fresh.set_previous_sibiling(last);
        match last {
            Some(l) => {
                assert(node_well_formed(old(self)@, parent as int));
                self.nodes[l].set_next_sibiling(Some(id));
            },
            None => {
                self.nodes[parent].set_first_child(Some(id));
            },
        }
        self.nodes[parent].set_last_child(Some(id));
        self.nodes.push(fresh);
        proof {
            assert(self.nodes.len() <= usize::MAX);
            assert(node_well_formed(old(self)@, parent as int));
            assert(self@ =~= appended(old(self)@, parent as int, kind@));
            lemma_appended_well_formed(old(self)@, parent as int, kind@);
        }
        id
    }

    /// Adds `c` to the end of the text node `id`.
    pub fn append_char(&mut self, id: usize, c: char)
        requires
            old(self).wf(),
            id < old(self)@.len(),
            old(self)@[id as int].kind is Text,
        ensures
            final(self).wf(),
            final(self)@ == with_char(old(self)@, id as int, c),
    {
        match &mut self.nodes[id].kind {
            NodeKind::Text(s) => {
                push_char(s, c);
            },
            _ => {},
        }
        proof {
            assert(self@ =~= with_char(old(self)@, id as int, c));
            lemma_with_char_well_formed(old(self)@, id as int, c);
        }
    }
}

} // verus!
