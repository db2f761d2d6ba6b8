//! Searching the DOM.

use vstd::prelude::*;

use crate::renderer::dom::node::{
    node_well_formed, ElementKind, NodeKind, NodeKindView, NodeView, Window,
};

verus! {

/// The link `link` of node `from`, where it leads forward to a node of the
/// arena. In a well-formed arena every first-child and next-sibling link does.
pub open spec fn forward(nodes: Seq<NodeView>, from: usize, link: Option<usize>) -> Option<usize> {
    match link {
        Some(to) => if from < to < nodes.len() {
            Some(to)
        } else {
            None
        },
        None => None,
    }
}

/// The first element of kind `kind` in document order among `root`, what is
/// below it, and what follows it: the node itself, else the first one among
/// its children, else the first one among its later siblings.
pub open spec fn find_element(nodes: Seq<NodeView>, root: Option<usize>, kind: ElementKind) -> Option<
    usize,
>
    decreases
            match root {
                Some(r) => nodes.len() - r,
                None => 0,
            },
{
    match root {
        None => None,
        Some(r) => if r >= nodes.len() {
            None
        } else if nodes[r as int].kind.element_kind() == Some(kind) {
            Some(r)
        } else {
            match find_element(nodes, forward(nodes, r, nodes[r as int].first_child), kind) {
                Some(found) => Some(found),
                None => find_element(nodes, forward(nodes, r, nodes[r as int].next_sibling), kind),
            }
        },
    }
}

/// What [`find_element`] finds is an element of the kind asked for.
pub proof fn lemma_find_element_is_kind(nodes: Seq<NodeView>, root: Option<usize>, kind: ElementKind)
    ensures
        match find_element(nodes, root, kind) {
            Some(found) => found < nodes.len() && nodes[found as int].kind.element_kind() == Some(
                kind,
            ),
            None => true,
        },
    decreases
            match root {
                Some(r) => nodes.len() - r,
                None => 0,
            },
{
    match root {
        None => {},
        Some(r) => {
            if r < nodes.len() && nodes[r as int].kind.element_kind() != Some(kind) {
                lemma_find_element_is_kind(
                    nodes,
                    forward(nodes, r, nodes[r as int].first_child),
                    kind,
                );
                lemma_find_element_is_kind(
                    nodes,
                    forward(nodes, r, nodes[r as int].next_sibling),
                    kind,
                );
            }
        },
    }
}

/// The text of the first `style` element found from `root`: the characters
/// of its first child where that is a text node, and nothing otherwise.
pub open spec fn style_content(nodes: Seq<NodeView>, root: usize) -> Seq<char> {
    match find_element(nodes, Some(root), ElementKind::Style) {
        Some(style) => match forward(nodes, style, nodes[style as int].first_child) {
            Some(child) => match nodes[child as int].kind {
                NodeKindView::Text(text) => text,
                _ => Seq::empty(),
            },
            None => Seq::empty(),
        },
        None => Seq::empty(),
    }
}

/// The first element of kind `element_kind` in document order, searched from
/// `root`: see [`find_element`].
pub fn get_target_element_node(dom: &Window, root: Option<usize>, element_kind: ElementKind) -> (r:
    Option<usize>)
    requires
        dom.wf(),
    ensures
        r == find_element(dom@, root, element_kind),
        r matches Some(found) ==> found < dom@.len() && dom@[found as int].kind.element_kind()
            == Some(element_kind),
    decreases
            match root {
                Some(r) => dom@.len() - r,
                None => 0,
            },
{
    proof {
        lemma_find_element_is_kind(dom@, root, element_kind);
    }
    let root = match root {
        Some(root) => root,
        None => {
            return None;
        },
    };
    let node = match dom.get(root) {
        Some(node) => node,
        None => {
            return None;
        },
    };
    if node.element_kind() == Some(element_kind) {
        return Some(root);
    }
    assert(node_well_formed(dom@, root as int));
    if let Some(result) = get_target_element_node(dom, node.first_child(), element_kind) {
        return Some(result);
    }
    get_target_element_node(dom, node.next_sibiling(), element_kind)
}

/// The text of the first `style` element found from `root`: see
/// [`style_content`].
pub fn get_style_content(dom: &Window, root: usize) -> (s: String)
    requires
        dom.wf(),
    ensures
        s@ == style_content(dom@, root),
{
    let style = match get_target_element_node(dom, Some(root), ElementKind::Style) {
        Some(style) => style,
        None => {
            return String::new();
        },
    };
    assert(node_well_formed(dom@, style as int));
    let child = match dom.node(style).first_child() {
        Some(child) => child,
        None => {
            return String::new();
        },
    };
    match dom.node(child).kind_ref() {
        NodeKind::Text(s) => s.clone(),
        _ => String::new(),
    }
}

} // verus!
