//! The box tree of a page: which nodes get a box, how large every box is and
//! where it stands.

use vstd::prelude::*;

use crate::constants::CONTENT_AREA_WIDTH;
use crate::display_item::{items_view, DisplayItem, DisplayItemView};
use crate::renderer::css::cssom::{RuleView, StyleSheet};
use crate::renderer::dom::api::{find_element, forward, get_target_element_node};
use crate::renderer::dom::node::{node_well_formed, ElementKind, NodeView, Window};
use crate::renderer::layout::computed_style::{ComputedStyle, DisplayType};
use crate::renderer::layout::layout_object::{
    box_of, computed_position, computed_size, create_layout_object, lemma_tree_view, link_of,
    painted, tree_view, BoxView, LayoutObject, LayoutObjectKind, LayoutPoint, LayoutSize,
};

verus! {

/// What a box hands to the boxes below it: the node it stands for and its
/// style.
pub open spec fn as_parent(b: BoxView) -> Option<(usize, ComputedStyle)> {
    Some((b.node_id, b.style))
}

/// The boxes of `node` and of the nodes after it, with those below them. A
/// node that is not shown gets no box, and neither does anything below it;
/// the next sibling that is shown takes its place.
pub open spec fn layout_tree(
    nodes: Seq<NodeView>,
    node: Option<usize>,
    parent: Option<(usize, ComputedStyle)>,
    rules: Seq<RuleView>,
) -> Option<Box<BoxView>>
    decreases
            match node {
                Some(n) => nodes.len() - n,
                None => 0,
            },
{
    match node {
        None => None,
        Some(n) => if n >= nodes.len() {
            None
        } else {
            let next = forward(nodes, n, nodes[n as int].next_sibling);
            match box_of(nodes, n, parent, rules) {
                None => layout_tree(nodes, next, parent, rules),
                Some(b) => Some(
                    Box::new(
                        BoxView {
                            first_child: layout_tree(
                                nodes,
                                forward(nodes, n, nodes[n as int].first_child),
                                as_parent(b),
                                rules,
                            ),
                            next_sibling: layout_tree(nodes, next, parent, rules),
                            ..b
                        },
                    ),
                ),
            }
        },
    }
}

/// The boxes with their sizes, in a parent of size `parent_size`. A block
/// has its width before the boxes below it are measured, and every box gets
/// its size once they are.
pub open spec fn sized(tree: Option<Box<BoxView>>, parent_size: LayoutSize) -> Option<Box<BoxView>>
    decreases tree,
{
    match tree {
        None => None,
        Some(b) => {
            let before = if b.kind == LayoutObjectKind::Block {
                BoxView { size: computed_size(*b, parent_size), ..*b }
            } else {
                *b
            };
            let inside = BoxView {
                first_child: sized(b.first_child, before.size),
                next_sibling: sized(b.next_sibling, parent_size),
                ..before
            };
            Some(Box::new(BoxView { size: computed_size(inside, parent_size), ..inside }))
        },
    }
}

/// The boxes with their places, in a parent at `parent_point`. The first box
/// below another has no box before it; a later one comes after its previous
/// sibling.
pub open spec fn positioned(
    tree: Option<Box<BoxView>>,
    parent_point: LayoutPoint,
    prev_sibling_kind: LayoutObjectKind,
    prev_sibling_point: Option<LayoutPoint>,
    prev_sibling_size: Option<LayoutSize>,
) -> Option<Box<BoxView>>
    decreases tree,
{
    match tree {
        None => None,
        Some(b) => {
            let point = computed_position(
                b.kind,
                parent_point,
                prev_sibling_kind,
                prev_sibling_point,
                prev_sibling_size,
            );
            Some(
                Box::new(
                    BoxView {
                        point,
                        first_child: positioned(b.first_child, point, prev_sibling_kind, None, None),
                        next_sibling: positioned(
                            b.next_sibling,
                            parent_point,
                            b.kind,
                            Some(point),
                            Some(b.size),
                        ),
                        ..*b
                    },
                ),
            )
        },
    }
}

/// The boxes with sizes and places, in the content area.
pub open spec fn laid_out(tree: Option<Box<BoxView>>) -> Option<Box<BoxView>> {
    positioned(
        sized(tree, LayoutSize(CONTENT_AREA_WIDTH, 0)),
        LayoutPoint(0, 0),
        LayoutObjectKind::Block,
        None,
        None,
    )
}

/// The box tree of a page: the boxes of its body, laid out. `root` is where
/// the search for the body starts.
pub open spec fn layout_of(nodes: Seq<NodeView>, root: usize, rules: Seq<RuleView>) -> Option<
    Box<BoxView>,
> {
    laid_out(layout_tree(nodes, find_element(nodes, Some(root), ElementKind::Body), None, rules))
}

/// What is drawn for the boxes: for each one what is drawn for itself, then
/// for the boxes below it, then for the boxes after it.
pub open spec fn paint_list(tree: Option<Box<BoxView>>) -> Seq<DisplayItemView>
    decreases tree,
{
    match tree {
        None => Seq::empty(),
        Some(b) => painted(*b) + paint_list(b.first_child) + paint_list(b.next_sibling),
    }
}

/// How many boxes there are.
pub open spec fn count(tree: Option<Box<BoxView>>) -> nat
    decreases tree,
{
    match tree {
        None => 0,
        Some(b) => 1 + count(b.first_child) + count(b.next_sibling),
    }
}

/// Whether a position lies on a box, its edges included.
pub open spec fn covers(b: BoxView, position: (i64, i64)) -> bool {
    &&& b.point.0 <= position.0 <= b.point.0 + b.size.0
    &&& b.point.1 <= position.1 <= b.point.1 + b.size.1
}

/// The box at a position: one below the first box where there is one, else
/// one after it, else the first box itself where it covers the position.
pub open spec fn box_at(tree: Option<Box<BoxView>>, position: (i64, i64)) -> Option<BoxView>
    decreases tree,
{
    match tree {
        None => None,
        Some(b) => match box_at(b.first_child, position) {
            Some(found) => Some(found),
            None => match box_at(b.next_sibling, position) {
                Some(found) => Some(found),
                None => if covers(*b, position) {
                    Some(*b)
                } else {
                    None
                },
            },
        },
    }
}

/// The address that the nearest `a` element around the box at a position
/// links to, where `enclosing` is that of the nearest one around `tree`; or
/// `None` where no box is at the position. The box itself does not count as
/// being around it.
pub open spec fn link_around(
    tree: Option<Box<BoxView>>,
    position: (i64, i64),
    enclosing: Option<Seq<char>>,
) -> Option<Option<Seq<char>>>
    decreases tree,
{
    match tree {
        None => None,
        Some(b) => {
            let inside = match link_of(*b) {
                Some(link) => link,
                None => enclosing,
            };
            match link_around(b.first_child, position, inside) {
                Some(found) => Some(found),
                None => match link_around(b.next_sibling, position, enclosing) {
                    Some(found) => Some(found),
                    None => if covers(*b, position) {
                        Some(enclosing)
                    } else {
                        None
                    },
                },
            }
        },
    }
}

/// The address that the link at a position leads to: the `href` of the
/// nearest `a` element around the box at the position.
pub open spec fn link_at(layout: Option<Box<BoxView>>, position: (i64, i64)) -> Option<Seq<char>> {
    match link_around(layout, position, None) {
        Some(link) => link,
        None => None,
    }
}

/// The link at a position is that of the box at the position: where there
/// is no box there is no link.
pub proof fn lemma_link_is_of_the_box_at(
    tree: Option<Box<BoxView>>,
    position: (i64, i64),
    enclosing: Option<Seq<char>>,
)
    ensures
        link_around(tree, position, enclosing) is Some <==> box_at(tree, position) is Some,
    decreases tree,
{
    match tree {
        None => {},
        Some(b) => {
            let inside = match link_of(*b) {
                Some(link) => link,
                None => enclosing,
            };
            lemma_link_is_of_the_box_at(b.first_child, position, inside);
            lemma_link_is_of_the_box_at(b.next_sibling, position, enclosing);
        },
    }
}

/// Whether every box has a value for every property of its style, and is
/// shown.
pub open spec fn all_resolved(tree: Option<Box<BoxView>>) -> bool
    decreases tree,
{
    match tree {
        None => true,
        Some(b) => {
            &&& b.style.is_resolved()
            &&& b.style.display != Some(DisplayType::DisplayNone)
            &&& all_resolved(b.first_child)
            &&& all_resolved(b.next_sibling)
        },
    }
}

/// A box without its size and place and without the boxes below and after
/// it.
pub open spec fn alone(b: BoxView) -> BoxView {
    BoxView {
        point: LayoutPoint(0, 0),
        size: LayoutSize(0, 0),
        first_child: None,
        next_sibling: None,
        ..b
    }
}

/// Whether every box stands for a node of the DOM that is shown: it has the
/// kind and the style that its node has under the style sheet and the style
/// of the box around it, and it knows the node of that box. `parent` is the
/// box around the first box.
pub open spec fn stands_for(
    tree: Option<Box<BoxView>>,
    nodes: Seq<NodeView>,
    parent: Option<(usize, ComputedStyle)>,
    rules: Seq<RuleView>,
) -> bool
    decreases tree,
{
    match tree {
        None => true,
        Some(b) => {
            &&& box_of(nodes, b.node_id, parent, rules) == Some(alone(*b))
            &&& stands_for(b.first_child, nodes, as_parent(*b), rules)
            &&& stands_for(b.next_sibling, nodes, parent, rules)
        },
    }
}

/// Whether the boxes come in the order of the document: every box stands
/// for a node that comes after `before`, the boxes below it for nodes that
/// come after its own, and so do the boxes after it.
pub open spec fn in_document_order(tree: Option<Box<BoxView>>, before: int) -> bool
    decreases tree,
{
    match tree {
        None => true,
        Some(b) => {
            &&& before < b.node_id
            &&& in_document_order(b.first_child, b.node_id as int)
            &&& in_document_order(b.next_sibling, b.node_id as int)
        },
    }
}

/// The boxes without their sizes and places.
pub open spec fn without_geometry(tree: Option<Box<BoxView>>) -> Option<Box<BoxView>>
    decreases tree,
{
    match tree {
        None => None,
        Some(b) => Some(
            Box::new(
                BoxView {
                    point: LayoutPoint(0, 0),
                    size: LayoutSize(0, 0),
                    first_child: without_geometry(b.first_child),
                    next_sibling: without_geometry(b.next_sibling),
                    ..*b
                },
            ),
        ),
    }
}

/// No unset property escapes the cascade: in the boxes built for a DOM every
/// style is resolved, and no box stands for a node that is not shown.
pub proof fn lemma_built_boxes_are_resolved(
    nodes: Seq<NodeView>,
    node: Option<usize>,
    parent: Option<(usize, ComputedStyle)>,
    rules: Seq<RuleView>,
)
    ensures
        all_resolved(layout_tree(nodes, node, parent, rules)),
    decreases
            match node {
                Some(n) => nodes.len() - n,
                None => 0,
            },
{
    match node {
        None => {},
        Some(n) => {
            if n < nodes.len() {
                let next = forward(nodes, n, nodes[n as int].next_sibling);
                lemma_built_boxes_are_resolved(nodes, next, parent, rules);
                match box_of(nodes, n, parent, rules) {
                    None => {},
                    Some(b) => {
                        lemma_built_boxes_are_resolved(
                            nodes,
                            forward(nodes, n, nodes[n as int].first_child),
                            as_parent(b),
                            rules,
                        );
                    },
                }
            }
        },
    }
}

/// The boxes built for a DOM stand for its nodes, and come in the order of
/// the document.
pub proof fn lemma_built_boxes_stand_for_nodes(
    nodes: Seq<NodeView>,
    node: Option<usize>,
    parent: Option<(usize, ComputedStyle)>,
    rules: Seq<RuleView>,
)
    ensures
        stands_for(layout_tree(nodes, node, parent, rules), nodes, parent, rules),
        node matches Some(n) ==> in_document_order(
            layout_tree(nodes, node, parent, rules),
            n - 1,
        ),
    decreases
            match node {
                Some(n) => nodes.len() - n,
                None => 0,
            },
{
    match node {
        None => {},
        Some(n) => {
            if n < nodes.len() {
                let next = forward(nodes, n, nodes[n as int].next_sibling);
                let below = forward(nodes, n, nodes[n as int].first_child);
                lemma_built_boxes_stand_for_nodes(nodes, next, parent, rules);
                match next {
                    Some(m) => {
                        lemma_order_from_earlier(layout_tree(nodes, next, parent, rules), m - 1, n as int);
                        lemma_order_from_earlier(layout_tree(nodes, next, parent, rules), m - 1, n - 1);
                    },
                    None => {},
                }
                match box_of(nodes, n, parent, rules) {
                    None => {},
                    Some(b) => {
                        lemma_built_boxes_stand_for_nodes(nodes, below, as_parent(b), rules);
                        match below {
                            Some(m) => {
                                lemma_order_from_earlier(
                                    layout_tree(nodes, below, as_parent(b), rules),
                                    m - 1,
                                    n as int,
                                );
                            },
                            None => {},
                        }
                        let whole = BoxView {
                            first_child: layout_tree(nodes, below, as_parent(b), rules),
                            next_sibling: layout_tree(nodes, next, parent, rules),
                            ..b
                        };
                        assert(layout_tree(nodes, node, parent, rules) == Some(Box::new(whole)));
                        assert(alone(whole) == b);
                        assert(as_parent(whole) == as_parent(b));
                        assert(whole.node_id == n);
                        assert(in_document_order(whole.first_child, n as int));
                        assert(in_document_order(whole.next_sibling, n as int));
                    },
                }
            }
        },
    }
}

/// Boxes that come after a node come after every earlier one.
pub proof fn lemma_order_from_earlier(tree: Option<Box<BoxView>>, before: int, earlier: int)
    requires
        in_document_order(tree, before),
        earlier <= before,
    ensures
        in_document_order(tree, earlier),
{
}

/// Measuring changes nothing but sizes.
pub proof fn lemma_sized_keeps_boxes(tree: Option<Box<BoxView>>, parent_size: LayoutSize)
    ensures
        without_geometry(sized(tree, parent_size)) == without_geometry(tree),
        all_resolved(tree) ==> all_resolved(sized(tree, parent_size)),
    decreases tree,
{
    match tree {
        None => {},
        Some(b) => {
            let before = if b.kind == LayoutObjectKind::Block {
                BoxView { size: computed_size(*b, parent_size), ..*b }
            } else {
                *b
            };
            lemma_sized_keeps_boxes(b.first_child, before.size);
            lemma_sized_keeps_boxes(b.next_sibling, parent_size);
        },
    }
}

/// Placing changes nothing but places.
pub proof fn lemma_positioned_keeps_boxes(
    tree: Option<Box<BoxView>>,
    parent_point: LayoutPoint,
    prev_sibling_kind: LayoutObjectKind,
    prev_sibling_point: Option<LayoutPoint>,
    prev_sibling_size: Option<LayoutSize>,
)
    ensures
        without_geometry(
            positioned(
                tree,
                parent_point,
                prev_sibling_kind,
                prev_sibling_point,
                prev_sibling_size,
            ),
        ) == without_geometry(tree),
        all_resolved(tree) ==> all_resolved(
            positioned(
                tree,
                parent_point,
                prev_sibling_kind,
                prev_sibling_point,
                prev_sibling_size,
            ),
        ),
    decreases tree,
{
    match tree {
        None => {},
        Some(b) => {
            let point = computed_position(
                b.kind,
                parent_point,
                prev_sibling_kind,
                prev_sibling_point,
                prev_sibling_size,
            );
            lemma_positioned_keeps_boxes(b.first_child, point, prev_sibling_kind, None, None);
            lemma_positioned_keeps_boxes(
                b.next_sibling,
                parent_point,
                b.kind,
                Some(point),
                Some(b.size),
            );
        },
    }
}

/// What holds of boxes whatever their sizes and places are.
pub proof fn lemma_geometry_does_not_matter(
    tree: Option<Box<BoxView>>,
    other: Option<Box<BoxView>>,
    nodes: Seq<NodeView>,
    parent: Option<(usize, ComputedStyle)>,
    rules: Seq<RuleView>,
    before: int,
)
    requires
        without_geometry(tree) == without_geometry(other),
    ensures
        stands_for(tree, nodes, parent, rules) == stands_for(other, nodes, parent, rules),
        in_document_order(tree, before) == in_document_order(other, before),
    decreases tree,
{
    match (tree, other) {
        (Some(a), Some(b)) => {
            assert(alone(*a) == alone(*b));
            lemma_geometry_does_not_matter(
                a.first_child,
                b.first_child,
                nodes,
                as_parent(*a),
                rules,
                a.node_id as int,
            );
            lemma_geometry_does_not_matter(
                a.next_sibling,
                b.next_sibling,
                nodes,
                parent,
                rules,
                a.node_id as int,
            );
        },
        _ => {},
    }
}

/// The box tree of a page has the boxes that were built for its body, each
/// with the node, the kind and the style it was built with, in the same
/// nesting and order. Every box stands for a node of the DOM that is shown,
/// every style is resolved, and the boxes come in the order of the document.
pub proof fn lemma_layout_keeps_boxes(nodes: Seq<NodeView>, root: usize, rules: Seq<RuleView>)
    ensures
        without_geometry(layout_of(nodes, root, rules)) == without_geometry(
            layout_tree(nodes, find_element(nodes, Some(root), ElementKind::Body), None, rules),
        ),
        all_resolved(layout_of(nodes, root, rules)),
        stands_for(layout_of(nodes, root, rules), nodes, None, rules),
        in_document_order(layout_of(nodes, root, rules), -1),
{
    let built = layout_tree(
        nodes,
        find_element(nodes, Some(root), ElementKind::Body),
        None,
        rules,
    );
    let measured = sized(built, LayoutSize(CONTENT_AREA_WIDTH, 0));
    lemma_built_boxes_are_resolved(
        nodes,
        find_element(nodes, Some(root), ElementKind::Body),
        None,
        rules,
    );
    lemma_sized_keeps_boxes(built, LayoutSize(CONTENT_AREA_WIDTH, 0));
    lemma_positioned_keeps_boxes(
        measured,
        LayoutPoint(0, 0),
        LayoutObjectKind::Block,
        None,
        None,
    );
    let body = find_element(nodes, Some(root), ElementKind::Body);
    lemma_built_boxes_stand_for_nodes(nodes, body, None, rules);
    match body {
        Some(n) => {
            lemma_order_from_earlier(layout_tree(nodes, body, None, rules), n - 1, -1);
        },
        None => {},
    }
    lemma_geometry_does_not_matter(
        layout_of(nodes, root, rules),
        layout_tree(nodes, body, None, rules),
        nodes,
        None,
        rules,
        -1,
    );
}

/// Laying out the same DOM under the same style sheet again gives the same
/// box tree: the same boxes in the same nesting and order, with the same
/// styles, sizes and places.
pub proof fn lemma_layout_is_repeatable(
    first: LayoutView,
    second: LayoutView,
    dom: Window,
    root: usize,
    cssom: StyleSheet,
)
    requires
        dom.wf(),
        first@ == layout_of(dom@, root, cssom@),
        second@ == layout_of(dom@, root, cssom@),
    ensures
        first@ == second@,
        paint_list(first@) == paint_list(second@),
{
}

/// The characters of a string, if there is one.
pub open spec fn text_view(s: Option<String>) -> Option<Seq<char>> {
    match s {
        Some(s) => Some(s@),
        None => None,
    }
}

/// A box, or none, seen as a chain of boxes.
pub open spec fn chain(b: Option<&LayoutObject>) -> Option<Box<BoxView>> {
    match b {
        Some(b) => Some(Box::new(b@)),
        None => None,
    }
}

/// Builds the boxes of `node` and of the nodes after it: see
/// [`layout_tree`]. `node` is not the document.
pub fn build_layout_tree(
    dom: &Window,
    node: Option<usize>,
    parent: Option<&LayoutObject>,
    cssom: &StyleSheet,
) -> (r: Option<Box<LayoutObject>>)
    requires
        dom.wf(),
        node != Some(0usize),
    ensures
        tree_view(r) == layout_tree(
            dom@,
            node,
            match parent {
                Some(p) => as_parent(p@),
                None => None,
            },
            cssom@,
        ),
    decreases
            match node {
                Some(n) => dom@.len() - n,
                None => 0,
            },
{
    let ghost up = match parent {
        Some(p) => as_parent(p@),
        None => None,
    };
    let mut target = node;
    loop
        invariant
            dom.wf(),
            target != Some(0usize),
            up == match parent {
                Some(p) => as_parent(p@),
                None => None,
            },
            layout_tree(dom@, target, up, cssom@) == layout_tree(dom@, node, up, cssom@),
            match (target, node) {
                (Some(t), Some(n)) => n <= t,
                (Some(t), None) => false,
                _ => true,
            },
        decreases
                match target {
                    Some(t) => dom@.len() - t,
                    None => 0,
                },
    {
        let id = match target {
            Some(id) => id,
            None => {
                proof {
                    lemma_tree_view(None);
                }
                return None;
            },
        };
        let dom_node = match dom.get(id) {
            Some(n) => n,
            None => {
                proof {
                    lemma_tree_view(None);
                }
                return None;
            },
        };
        assert(node_well_formed(dom@, id as int));
        match create_layout_object(dom, target, parent, cssom) {
            None => {
                target = dom_node.next_sibiling();
            },
            Some(current) => {
                let mut current = current;
                let first_child = build_layout_tree(
                    dom,
                    dom_node.first_child(),
                    Some(&current),
                    cssom,
                );
                let next_sibling = build_layout_tree(dom, dom_node.next_sibiling(), parent, cssom);
                current.set_first_child(first_child);
                current.set_next_sibling(next_sibling);
                let r = Some(Box::new(current));
                proof {
                    lemma_tree_view(r);
                }
                return r;
            },
        }
    }
}

/// The box tree of a page.
#[derive(Debug)]
pub struct LayoutView {
    root: Option<Box<LayoutObject>>,
}

impl View for LayoutView {
    type V = Option<Box<BoxView>>;

    closed spec fn view(&self) -> Option<Box<BoxView>> {
        tree_view(self.root)
    }
}

impl LayoutView {
    /// Builds and lays out the boxes of the body found from `root`: see
    /// [`layout_of`].
    pub fn new(dom: &Window, root: usize, cssom: &StyleSheet) -> (v: Self)
        requires
            dom.wf(),
        ensures
            v@ == layout_of(dom@, root, cssom@),
    {
        let body_root = get_target_element_node(dom, Some(root), ElementKind::Body);
        assert(node_well_formed(dom@, 0));
        let mut tree = LayoutView { root: build_layout_tree(dom, body_root, None, cssom) };
        tree.update_layout();
        tree
    }

    /// Gives every box its size: see [`sized`].
    pub fn calculat_node_size(node: &mut Option<Box<LayoutObject>>, parent_size: LayoutSize)
        ensures
            tree_view(*final(node)) == sized(tree_view(*old(node)), parent_size),
        decreases tree_view(*old(node)),
    {
        proof {
            lemma_tree_view(*node);
        }
        match node.take() {
            None => {
                proof {
                    lemma_tree_view(None);
                }
            },
            Some(n) => {
                let mut n = n;
                if n.kind() == LayoutObjectKind::Block {
                    n.compute_size(parent_size);
                }
                let mut first_child = n.take_first_child();
                Self::calculat_node_size(&mut first_child, n.size());
                let mut next_sibling = n.take_next_sibling();
                Self::calculat_node_size(&mut next_sibling, parent_size);
                n.set_first_child(first_child);
                n.set_next_sibling(next_sibling);
                n.compute_size(parent_size);
                *node = Some(n);
                proof {
                    lemma_tree_view(*node);
                }
            },
        }
    }

    /// Gives every box its place: see [`positioned`].
    pub fn calculate_node_position(
        node: &mut Option<Box<LayoutObject>>,
        parent_point: LayoutPoint,
        prev_sibling_kind: LayoutObjectKind,
        prev_sibling_point: Option<LayoutPoint>,
        prev_sibling_size: Option<LayoutSize>,
    )
        ensures
            tree_view(*final(node)) == positioned(
                tree_view(*old(node)),
                parent_point,
                prev_sibling_kind,
                prev_sibling_point,
                prev_sibling_size,
            ),
        decreases tree_view(*old(node)),
    {
        proof {
            lemma_tree_view(*node);
        }
        match node.take() {
            None => {
                proof {
                    lemma_tree_view(None);
                }
            },
            Some(n) => {
                let mut n = n;
                n.compute_position(
                    parent_point,
                    prev_sibling_kind,
                    prev_sibling_point,
                    prev_sibling_size,
                );
                let mut first_child = n.take_first_child();
                Self::calculate_node_position(
                    &mut first_child,
                    n.point(),
                    prev_sibling_kind,
                    None,
                    None,
                );
                let mut next_sibling = n.take_next_sibling();
                Self::calculate_node_position(
                    &mut next_sibling,
                    parent_point,
                    n.kind(),
                    Some(n.point()),
                    Some(n.size()),
                );
                n.set_first_child(first_child);
                n.set_next_sibling(next_sibling);
                *node = Some(n);
                proof {
                    lemma_tree_view(*node);
                }
            },
        }
    }

    /// Lays the boxes out in the content area: see [`laid_out`].
    pub fn update_layout(&mut self)
        ensures
            final(self)@ == laid_out(old(self)@),
    {
        Self::calculat_node_size(&mut self.root, LayoutSize::new(CONTENT_AREA_WIDTH, 0));
        Self::calculate_node_position(
            &mut self.root,
            LayoutPoint::new(0, 0),
            LayoutObjectKind::Block,
            None,
            None,
        );
    }

    /// Adds to `display_items` what is drawn for `node`, for the boxes below
    /// it and for the boxes after it: see [`paint_list`].
    pub fn paint_node(node: Option<&LayoutObject>, display_items: &mut Vec<DisplayItem>)
        ensures
            items_view(final(display_items)@) == items_view(old(display_items)@) + paint_list(
                chain(node),
            ),
        decreases count(chain(node)),
    {
        match node {
            None => {
                assert(items_view(display_items@) + Seq::empty() =~= items_view(display_items@));
            },
            Some(n) => {
                let ghost start = items_view(display_items@);
                let first_child = n.first_child();
                let next_sibling = n.next_sibling();
                assert(chain(first_child) == n@.first_child);
                assert(chain(next_sibling) == n@.next_sibling);
                let mut own = n.paint();
                let ghost own_view = items_view(own@);
                display_items.append(&mut own);
                assert(items_view(display_items@) =~= start + own_view);
                Self::paint_node(first_child, display_items);
                Self::paint_node(next_sibling, display_items);
                assert(items_view(display_items@) =~= start + (painted(n@) + paint_list(
                    n@.first_child,
                ) + paint_list(n@.next_sibling)));
            },
        }
    }

    /// What is drawn for the page, in the order of drawing: see
    /// [`paint_list`].
    pub fn paint(&self) -> (items: Vec<DisplayItem>)
        ensures
            items_view(items@) == paint_list(self@),
    {
        let mut display_items: Vec<DisplayItem> = Vec::new();
        assert(items_view(display_items@) =~= Seq::empty());
        Self::paint_node(self.root(), &mut display_items);
        assert(Seq::<DisplayItemView>::empty() + paint_list(self@) =~= paint_list(self@));
        display_items
    }

    /// The first box.
    pub fn root(&self) -> (r: Option<&LayoutObject>)
        ensures
            chain(r) == self@,
    {
        proof {
            lemma_tree_view(self.root);
        }
        match &self.root {
            Some(b) => Some(&**b),
            None => None,
        }
    }

    fn covering(b: &LayoutObject, position: (i64, i64)) -> (r: bool)
        ensures
            r == covers(b@, position),
    {
        let x = b.point().x() as i128;
        let y = b.point().y() as i128;
        let w = b.size().width() as i128;
        let h = b.size().height() as i128;
        x <= position.0 as i128 && position.0 as i128 <= x + w && y <= position.1 as i128
            && position.1 as i128 <= y + h
    }

    fn find_node_from(node: Option<&LayoutObject>, position: (i64, i64)) -> (r: Option<
        &LayoutObject,
    >)
        ensures
            match r {
                Some(found) => box_at(chain(node), position) == Some(found@),
                None => box_at(chain(node), position) is None,
            },
        decreases chain(node),
    {
        match node {
            None => None,
            Some(n) => {
                if let Some(found) = Self::find_node_from(n.first_child(), position) {
                    return Some(found);
                }
                if let Some(found) = Self::find_node_from(n.next_sibling(), position) {
                    return Some(found);
                }
                if Self::covering(n, position) {
                    Some(n)
                } else {
                    None
                }
            },
        }
    }

    /// The box at a position: see [`box_at`].
    pub fn find_node_by_position(&self, position: (i64, i64)) -> (r: Option<&LayoutObject>)
        ensures
            match r {
                Some(found) => box_at(self@, position) == Some(found@),
                None => box_at(self@, position) is None,
            },
    {
        Self::find_node_from(self.root(), position)
    }

    fn find_link_from(
        node: Option<&LayoutObject>,
        position: (i64, i64),
        enclosing: &Option<String>,
    ) -> (r: Option<Option<String>>)
        ensures
            match r {
                Some(Some(link)) => link_around(chain(node), position, text_view(*enclosing))
                    == Some(Some(link@)),
                Some(None) => link_around(chain(node), position, text_view(*enclosing)) == Some(
                    None::<Seq<char>>,
                ),
                None => link_around(chain(node), position, text_view(*enclosing)) is None,
            },
        decreases chain(node),
    {
        match node {
            None => None,
            Some(n) => {
                let own = n.link();
                let inside = match &own {
                    Some(link) => link,
                    None => enclosing,
                };
                if let Some(found) = Self::find_link_from(n.first_child(), position, inside) {
                    return Some(found);
                }
                if let Some(found) = Self::find_link_from(n.next_sibling(), position, enclosing) {
                    return Some(found);
                }
                if Self::covering(n, position) {
                    Some(enclosing.clone())
                } else {
                    None
                }
            },
        }
    }

    /// The address that the link at a position leads to: see [`link_at`].
    pub fn find_link_by_position(&self, position: (i64, i64)) -> (r: Option<String>)
        ensures
            match r {
                Some(link) => link_at(self@, position) == Some(link@),
                None => link_at(self@, position) is None,
            },
    {
        match Self::find_link_from(self.root(), position, &None) {
            Some(link) => link,
            None => None,
        }
    }
}

} // verus!
