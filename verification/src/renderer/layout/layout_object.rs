//! Boxes: one for every node that is shown, with its style and its place.
//!
//! A box owns its first child and its next sibling. Its parent is known by
//! the index of the DOM node that the parent box stands for.

use vstd::prelude::*;

use crate::constants::{CHAR_HEIGHT_WITH_PADDING, CHAR_WIDTH, CONTENT_AREA_WIDTH};
use crate::display_item::{DisplayItem, DisplayItemView};
use crate::renderer::css::cssom::{
    declarations_view, Declaration, DeclarationView, RuleView, Selector, SelectorView, StyleSheet,
};
use crate::renderer::css::token::{CssToken, CssTokenView};
use crate::renderer::dom::node::{ElementKind, NodeKind, NodeKindView, NodeView, Window};
use crate::renderer::layout::computed_style::{
    color_of_code, color_of_name, display_of, Color, ComputedStyle, DisplayType, FontSize,
};

verus! {

#[derive(Debug, Clone, Copy, PartialEq, Eq, Structural)]
pub enum LayoutObjectKind {
    Block,
    Inline,
    Text,
    Unknown,
}

/// A place on the page: `x` to the right, `y` down.
#[derive(Debug, Clone, Copy, PartialEq, Eq, Structural)]
pub struct LayoutPoint(pub i64, pub i64);

impl LayoutPoint {
    pub fn new(x: i64, y: i64) -> (p: Self)
        ensures
            p == LayoutPoint(x, y),
    {
        LayoutPoint(x, y)
    }

    pub fn x(&self) -> (x: i64)
        ensures
            x == self.0,
    {
        self.0
    }

    pub fn y(&self) -> (y: i64)
        ensures
            y == self.1,
    {
        self.1
    }

    pub fn set_x(&mut self, x: i64)
        ensures
            *final(self) == LayoutPoint(x, old(self).1),
    {
        self.0 = x;
    }

    pub fn set_y(&mut self, y: i64)
        ensures
            *final(self) == LayoutPoint(old(self).0, y),
    {
        self.1 = y;
    }
}

/// A width and a height.
#[derive(Debug, Clone, Copy, PartialEq, Eq, Structural)]
pub struct LayoutSize(pub i64, pub i64);

impl LayoutSize {
    pub fn new(width: i64, height: i64) -> (s: Self)
        ensures
            s == LayoutSize(width, height),
    {
        LayoutSize(width, height)
    }

    pub fn width(&self) -> (w: i64)
        ensures
            w == self.0,
    {
        self.0
    }

    pub fn height(&self) -> (h: i64)
        ensures
            h == self.1,
    {
        self.1
    }

    pub fn set_width(&mut self, width: i64)
        ensures
            *final(self) == LayoutSize(width, old(self).1),
    {
        self.0 = width;
    }

    pub fn set_height(&mut self, height: i64)
        ensures
            *final(self) == LayoutSize(old(self).0, height),
    {
        self.1 = height;
    }
}

/// A number brought into the range of `i64`: sums of sizes stop at its ends.
pub open spec fn clamp(v: int) -> i64 {
    if v > i64::MAX {
        i64::MAX
    } else if v < i64::MIN {
        i64::MIN
    } else {
        v as i64
    }
}

/// The sum of two sizes, stopped at the ends of `i64`.
pub fn clamped_sum(a: i64, b: i64) -> (r: i64)
    ensures
        r == clamp(a + b),
{
    match a.checked_add(b) {
        Some(r) => r,
        None => if a > 0 {
            i64::MAX
        } else {
            i64::MIN
        },
    }
}

/// A box, with the boxes below and after it.
pub struct BoxView {
    pub kind: LayoutObjectKind,
    /// The index of the DOM node that the box stands for.
    pub node_id: usize,
    /// What that node is.
    pub node: NodeKindView,
    /// The index of the DOM node that the parent box stands for.
    pub parent: Option<usize>,
    pub style: ComputedStyle,
    pub point: LayoutPoint,
    pub size: LayoutSize,
    pub first_child: Option<Box<BoxView>>,
    pub next_sibling: Option<Box<BoxView>>,
}

/// Whether a selector selects a node: by the name of its kind, by the value
/// of its `class` attribute or by that of its `id` attribute. Only elements
/// are selected.
pub open spec fn selects(selector: SelectorView, node: NodeKindView) -> bool {
    match node {
        NodeKindView::Element(e) => match selector {
            SelectorView::TypeSelector(name) => e.kind.name() == name,
            SelectorView::ClassSelector(name) => e.attribute_value("class"@) == Some(name),
            SelectorView::IdSelector(name) => e.attribute_value("id"@) == Some(name),
            SelectorView::UnknownSelector => false,
        },
        _ => false,
    }
}

/// The colour that a value stands for, where it stands for one.
pub open spec fn color_of_value(value: CssTokenView) -> Option<Option<u32>> {
    match value {
        CssTokenView::Ident(name) => Some(color_of_name(name)),
        CssTokenView::HashToken(code) => Some(color_of_code(code)),
        _ => None,
    }
}

/// A colour, or `initial` where there is none.
pub open spec fn color_or(code: Option<u32>, initial: Color) -> Color {
    match code {
        Some(code) => Color { code },
        None => initial,
    }
}

/// The style after one declaration. A colour that is not understood becomes
/// white as background and black as text; a display keyword that is not
/// understood hides the node; other properties, and values of another form,
/// change nothing.
pub open spec fn applied(style: ComputedStyle, declaration: DeclarationView) -> ComputedStyle {
    if declaration.property == "background-color"@ {
        match color_of_value(declaration.value) {
            Some(code) => ComputedStyle {
                background_color: Some(color_or(code, Color::spec_white())),
                ..style
            },
            None => style,
        }
    } else if declaration.property == "color"@ {
        match color_of_value(declaration.value) {
            Some(code) => ComputedStyle {
                color: Some(color_or(code, Color::spec_black())),
                ..style
            },
            None => style,
        }
    } else if declaration.property == "display"@ {
        match declaration.value {
            CssTokenView::Ident(keyword) => ComputedStyle {
                display: Some(
                    match display_of(keyword) {
                        Some(display) => display,
                        None => DisplayType::DisplayNone,
                    },
                ),
                ..style
            },
            _ => style,
        }
    } else {
        style
    }
}

/// The style after the declarations in order: a later one overwrites an
/// earlier one of the same property.
pub open spec fn cascaded(style: ComputedStyle, declarations: Seq<DeclarationView>) -> ComputedStyle
    decreases declarations.len(),
{
    if declarations.len() == 0 {
        style
    } else {
        cascaded(applied(style, declarations[0]), declarations.drop_first())
    }
}

/// The style after the rules in order, each one taken where its selector
/// selects the node.
pub open spec fn matched(style: ComputedStyle, node: NodeKindView, rules: Seq<RuleView>) -> ComputedStyle
    decreases rules.len(),
{
    if rules.len() == 0 {
        style
    } else {
        matched(
            if selects(rules[0].selector, node) {
                cascaded(style, rules[0].declarations)
            } else {
                style
            },
            node,
            rules.drop_first(),
        )
    }
}

/// The style of a node under a style sheet: what the rules give, and the
/// defaults for the rest.
pub open spec fn node_style(
    node: NodeKindView,
    rules: Seq<RuleView>,
    parent_style: Option<ComputedStyle>,
) -> ComputedStyle {
    matched(ComputedStyle::unset(), node, rules).defaulted(node, parent_style)
}

/// The kind of the box of a node: text for text, and for an element what its
/// display type says.
pub open spec fn box_kind(node: NodeKindView, display: Option<DisplayType>) -> LayoutObjectKind {
    match node {
        NodeKindView::Document => LayoutObjectKind::Unknown,
        NodeKindView::Element(_) => match display {
            Some(DisplayType::Block) => LayoutObjectKind::Block,
            Some(DisplayType::Inline) => LayoutObjectKind::Inline,
            _ => LayoutObjectKind::Unknown,
        },
        NodeKindView::Text(_) => LayoutObjectKind::Text,
    }
}

/// The box of node `id` under the style sheet `rules`, before it has
/// children, a size or a place. A node that is not shown has none.
pub open spec fn box_of(
    nodes: Seq<NodeView>,
    id: usize,
    parent: Option<(usize, ComputedStyle)>,
    rules: Seq<RuleView>,
) -> Option<BoxView> {
    if id >= nodes.len() {
        None
    } else {
        let node = nodes[id as int].kind;
        let style = node_style(
            node,
            rules,
            match parent {
                Some(p) => Some(p.1),
                None => None,
            },
        );
        if style.display == Some(DisplayType::DisplayNone) {
            None
        } else {
            Some(
                BoxView {
                    kind: box_kind(node, style.display),
                    node_id: id,
                    node,
                    parent: match parent {
                        Some(p) => Some(p.0),
                        None => None,
                    },
                    style,
                    point: LayoutPoint(0, 0),
                    size: LayoutSize(0, 0),
                    first_child: None,
                    next_sibling: None,
                },
            )
        }
    }
}

/// The height of a block: the heights of the boxes from `children` on, each
/// counted where it or the box before it is a block, added to `sum`.
pub open spec fn block_height(
    children: Option<Box<BoxView>>,
    previous: LayoutObjectKind,
    sum: i64,
) -> i64
    decreases children,
{
    match children {
        None => sum,
        Some(c) => block_height(
            c.next_sibling,
            c.kind,
            if previous == LayoutObjectKind::Block || c.kind == LayoutObjectKind::Block {
                clamp(sum + c.size.1)
            } else {
                sum
            },
        ),
    }
}

/// The size of an inline box: the widths and the heights of the boxes from
/// `children` on, added to `sum`.
pub open spec fn inline_size(children: Option<Box<BoxView>>, sum: LayoutSize) -> LayoutSize
    decreases children,
{
    match children {
        None => sum,
        Some(c) => inline_size(
            c.next_sibling,
            LayoutSize(clamp(sum.0 + c.size.0), clamp(sum.1 + c.size.1)),
        ),
    }
}

/// How many times larger than the medium size the text of a style is.
pub open spec fn font_ratio(style: ComputedStyle) -> int {
    match style.font_size {
        Some(size) => size.ratio(),
        None => 1,
    }
}

/// The size of a text of `count` characters: one line where it fits in the
/// content area, else as many lines of the full width as it takes.
pub open spec fn text_size(count: nat, ratio: int) -> LayoutSize {
    let width = CHAR_WIDTH * ratio * count;
    if width > CONTENT_AREA_WIDTH {
        let lines = if width % (CONTENT_AREA_WIDTH as int) == 0 {
            width / (CONTENT_AREA_WIDTH as int)
        } else {
            width / (CONTENT_AREA_WIDTH as int) + 1
        };
        LayoutSize(CONTENT_AREA_WIDTH, clamp(CHAR_HEIGHT_WITH_PADDING * ratio * lines))
    } else {
        LayoutSize(width as i64, (CHAR_HEIGHT_WITH_PADDING * ratio) as i64)
    }
}

/// The size of a box whose children have their sizes, in a parent of size
/// `parent_size`.
pub open spec fn computed_size(b: BoxView, parent_size: LayoutSize) -> LayoutSize {
    match b.kind {
        LayoutObjectKind::Block => LayoutSize(
            parent_size.0,
            block_height(b.first_child, LayoutObjectKind::Block, 0),
        ),
        LayoutObjectKind::Inline => inline_size(b.first_child, LayoutSize(0, 0)),
        LayoutObjectKind::Text => match b.node {
            NodeKindView::Text(text) => text_size(text.len(), font_ratio(b.style)),
            _ => b.size,
        },
        LayoutObjectKind::Unknown => LayoutSize(0, 0),
    }
}

/// The place of a box of kind `kind` whose parent is at `parent_point`.
/// Without a sibling before it, it is where its parent is. After one, it
/// starts a new line below it where either is a block, and goes on to the
/// right of it where both are inline.
pub open spec fn computed_position(
    kind: LayoutObjectKind,
    parent_point: LayoutPoint,
    prev_sibling_kind: LayoutObjectKind,
    prev_sibling_point: Option<LayoutPoint>,
    prev_sibling_size: Option<LayoutSize>,
) -> LayoutPoint {
    match (prev_sibling_size, prev_sibling_point) {
        (Some(size), Some(point)) => if kind == LayoutObjectKind::Block || prev_sibling_kind
            == LayoutObjectKind::Block {
            LayoutPoint(parent_point.0, clamp(point.1 + size.1))
        } else if kind == LayoutObjectKind::Inline && prev_sibling_kind
            == LayoutObjectKind::Inline {
            LayoutPoint(clamp(point.0 + size.0), point.1)
        } else {
            parent_point
        },
        _ => parent_point,
    }
}

/// The index of the last space among the first `end` characters of `line`.
pub open spec fn last_space(line: Seq<char>, end: int) -> Option<int>
    decreases end,
{
    if end <= 0 {
        None
    } else if end <= line.len() && line[end - 1] == ' ' {
        Some(end - 1)
    } else {
        last_space(line, end - 1)
    }
}

/// Where a line that may hold `max_index` characters is broken: at its last
/// space among them, or after them where there is none.
pub open spec fn line_break(line: Seq<char>, max_index: int) -> int {
    match last_space(line, max_index) {
        Some(at) => at,
        None => max_index,
    }
}

/// How many characters of width `char_width` a line may hold: as many as
/// fit in the content area, and one where not even one fits. Characters
/// without a width all fit.
pub open spec fn line_capacity(char_width: int) -> Option<int> {
    if char_width <= 0 {
        None
    } else if (CONTENT_AREA_WIDTH as int) / char_width < 1 {
        Some(1)
    } else {
        Some((CONTENT_AREA_WIDTH as int) / char_width)
    }
}

/// What is left of a line that is broken at `at`. The space at which it is
/// broken is dropped.
pub open spec fn after_break(line: Seq<char>, at: int) -> Seq<char> {
    if 0 <= at < line.len() && line[at] == ' ' {
        line.skip(at + 1)
    } else {
        line.skip(at)
    }
}

/// The lines of a text, each of at most `capacity` characters. A text that
/// is longer is broken where [`line_break`] says, again and again.
///
/// What is left after a break is always shorter, by
/// [`lemma_break_makes_progress`]; that this is asked here lets the
/// definition end.
pub open spec fn broken(line: Seq<char>, capacity: int) -> Seq<Seq<char>>
    decreases line.len(),
{
    if line.len() <= capacity {
        seq![line]
    } else {
        let at = line_break(line, capacity);
        let rest = after_break(line, at);
        if 0 <= at <= line.len() && rest.len() < line.len() {
            seq![line.take(at)] + broken(rest, capacity)
        } else {
            seq![line]
        }
    }
}

/// The lines of a text whose characters are `char_width` wide.
pub open spec fn text_lines(line: Seq<char>, char_width: int) -> Seq<Seq<char>> {
    match line_capacity(char_width) {
        Some(capacity) => broken(line, capacity),
        None => seq![line],
    }
}

/// The last space is among the characters looked at.
pub proof fn lemma_last_space(line: Seq<char>, end: int)
    ensures
        match last_space(line, end) {
            Some(at) => 0 <= at < end && at < line.len() && line[at] == ' ',
            None => true,
        },
        end >= line.len() ==> last_space(line, end) == last_space(line, line.len() as int),
    decreases end,
{
    if end > 0 {
        lemma_last_space(line, end - 1);
    }
}

/// A text that is too long is broken within it, and what is left is shorter.
pub proof fn lemma_break_makes_progress(line: Seq<char>, capacity: int)
    requires
        1 <= capacity < line.len(),
    ensures
        0 <= line_break(line, capacity) <= capacity,
        after_break(line, line_break(line, capacity)).len() < line.len(),
{
    lemma_last_space(line, capacity);
}

/// No line is longer than a line may be.
pub proof fn lemma_lines_are_short(line: Seq<char>, capacity: int)
    requires
        1 <= capacity,
    ensures
        forall|k: int|
            0 <= k < broken(line, capacity).len() ==> (#[trigger] broken(line, capacity)[k]).len()
                <= capacity,
    decreases line.len(),
{
    if line.len() > capacity {
        let at = line_break(line, capacity);
        let rest = after_break(line, at);
        lemma_break_makes_progress(line, capacity);
        lemma_lines_are_short(rest, capacity);
        let lines = broken(line, capacity);
        let later = broken(rest, capacity);
        assert(lines == seq![line.take(at)] + later);
        assert forall|k: int| 0 <= k < lines.len() implies (#[trigger] lines[k]).len()
            <= capacity by {
            if k > 0 {
                assert(lines[k] == later[k - 1]);
            }
        }
    }
}

/// Every line fits in the content area, where one character does.
pub proof fn lemma_lines_fit(line: Seq<char>, char_width: int)
    requires
        0 < char_width <= CONTENT_AREA_WIDTH,
    ensures
        forall|k: int|
            0 <= k < text_lines(line, char_width).len() ==> (#[trigger] text_lines(
                line,
                char_width,
            )[k]).len() * char_width <= CONTENT_AREA_WIDTH,
{
    let width = CONTENT_AREA_WIDTH as int;
    let capacity = width / char_width;
    vstd::arithmetic::div_mod::lemma_fundamental_div_mod(width, char_width);
    vstd::arithmetic::div_mod::lemma_mod_bound(width, char_width);
    assert(capacity >= 1) by (nonlinear_arith)
        requires
            0 < char_width <= width,
            width == char_width * capacity + width % char_width,
            width % char_width < char_width,
    ;
    lemma_lines_are_short(line, capacity);
    let lines = text_lines(line, char_width);
    assert forall|k: int| 0 <= k < lines.len() implies (#[trigger] lines[k]).len() * char_width
        <= CONTENT_AREA_WIDTH by {
        let n = lines[k].len() as int;
        assert(n * char_width <= width) by (nonlinear_arith)
            requires
                0 <= n <= capacity,
                char_width > 0,
                width == char_width * capacity + width % char_width,
                0 <= width % char_width,
        ;
    }
}

/// The items drawn for the lines of a text: one below the other, each
/// `line_height` high.
pub open spec fn line_items(
    lines: Seq<Seq<char>>,
    style: ComputedStyle,
    point: LayoutPoint,
    line_height: int,
) -> Seq<DisplayItemView> {
    Seq::new(
        lines.len(),
        |k: int|
            DisplayItemView::Text {
                text: lines[k],
                style,
                layout_point: LayoutPoint(point.0, clamp(point.1 + line_height * k)),
            },
    )
}

/// What is drawn for a box itself: a rectangle for a block element, its
/// lines for a text, nothing for the rest.
pub open spec fn painted(b: BoxView) -> Seq<DisplayItemView> {
    if b.style.display == Some(DisplayType::DisplayNone) {
        Seq::empty()
    } else {
        match b.kind {
            LayoutObjectKind::Block => if b.node is Element {
                seq![
                    DisplayItemView::Rect {
                        style: b.style,
                        layout_point: b.point,
                        layout_size: b.size,
                    },
                ]
            } else {
                Seq::empty()
            },
            LayoutObjectKind::Text => match b.node {
                NodeKindView::Text(text) => line_items(
                    text_lines(text, CHAR_WIDTH * font_ratio(b.style)),
                    b.style,
                    b.point,
                    CHAR_HEIGHT_WITH_PADDING * font_ratio(b.style),
                ),
                _ => Seq::empty(),
            },
            _ => Seq::empty(),
        }
    }
}

/// The address that a box links to, where it stands for an `a` element: the
/// value of its `href` attribute, if it has one.
pub open spec fn link_of(b: BoxView) -> Option<Option<Seq<char>>> {
    match b.node {
        NodeKindView::Element(e) => if e.kind == ElementKind::A {
            Some(e.attribute_value("href"@))
        } else {
            None
        },
        _ => None,
    }
}

/// A box: what it is, the node it stands for, its style, place and size, and
/// the boxes below and after it.
#[derive(Debug, PartialEq, Eq)]
pub struct LayoutObject {
    kind: LayoutObjectKind,
    node_id: usize,
    node: NodeKind,
    first_child: Option<Box<LayoutObject>>,
    next_sibling: Option<Box<LayoutObject>>,
    parent: Option<usize>,
    style: ComputedStyle,
    point: LayoutPoint,
    size: LayoutSize,
}

/// What a chain of boxes holds.
pub closed spec fn tree_view(tree: Option<Box<LayoutObject>>) -> Option<Box<BoxView>>
    decreases tree,
{
    match tree {
        None => None,
        Some(b) => Some(
            Box::new(
                BoxView {
                    kind: b.kind,
                    node_id: b.node_id,
                    node: b.node@,
                    parent: b.parent,
                    style: b.style,
                    point: b.point,
                    size: b.size,
                    first_child: tree_view(b.first_child),
                    next_sibling: tree_view(b.next_sibling),
                },
            ),
        ),
    }
}

impl View for LayoutObject {
    type V = BoxView;

    closed spec fn view(&self) -> BoxView {
        BoxView {
            kind: self.kind,
            node_id: self.node_id,
            node: self.node@,
            parent: self.parent,
            style: self.style,
            point: self.point,
            size: self.size,
            first_child: tree_view(self.first_child),
            next_sibling: tree_view(self.next_sibling),
        }
    }
}

/// A chain of boxes is its first box, if it has one.
pub proof fn lemma_tree_view(tree: Option<Box<LayoutObject>>)
    ensures
        tree_view(tree) == match tree {
            Some(b) => Some(Box::new(b@)),
            None => None,
        },
{
}

/// The views of a sequence of strings, in the same order.
pub open spec fn lines_view(lines: Seq<String>) -> Seq<Seq<char>> {
    lines.map_values(|l: String| l@)
}

/// Where the line that starts at `from` is broken: see [`line_break`].
fn break_index(chars: &Vec<char>, from: usize, max_index: usize) -> (at: usize)
    requires
        from <= chars.len(),
    ensures
        at == line_break(chars@.skip(from as int), max_index as int),
        at <= max_index,
{
    let ghost line = chars@.skip(from as int);
    let rest = chars.len() - from;
    let mut i: usize = if max_index < rest {
        max_index
    } else {
        rest
    };
    proof {
        lemma_last_space(line, max_index as int);
    }
    while i > 0
        invariant
            from <= chars.len(),
            line == chars@.skip(from as int),
            i <= chars.len() - from,
            i <= max_index,
            last_space(line, i as int) == last_space(line, max_index as int),
        decreases i,
    {
        if chars[from + i - 1] == ' ' {
            return i - 1;
        }
        i -= 1;
    }
    max_index
}

/// Where a line that may hold `max_index` characters is broken: see
/// [`line_break`].
pub fn find_index_for_line_break(line: String, max_index: usize) -> (at: usize)
    ensures
        at == line_break(line@, max_index as int),
{
    let chars = crate::text::chars_of(line.as_str());
    assert(chars@.skip(0) =~= chars@);
    break_index(&chars, 0, max_index)
}

/// The lines of a text whose characters are `char_width` wide: see
/// [`text_lines`].
pub fn split_text(line: String, char_width: i64) -> (lines: Vec<String>)
    ensures
        lines_view(lines@) == text_lines(line@, char_width as int),
{
    let chars = crate::text::chars_of(line.as_str());
    let mut lines: Vec<String> = Vec::new();
    if char_width <= 0 {
        lines.push(line);
        assert(lines_view(lines@) =~= seq![line@]);
        return lines;
    }
    let capacity: usize = if CONTENT_AREA_WIDTH / char_width < 1 {
        1
    } else {
        (CONTENT_AREA_WIDTH / char_width) as usize
    };
    let mut from: usize = 0;
    assert(chars@.skip(0) =~= chars@);
    assert(lines_view(lines@) =~= Seq::empty());
    loop
        invariant
            from <= chars.len(),
            chars@ == line@,
            1 <= capacity,
            line_capacity(char_width as int) == Some(capacity as int),
            broken(line@, capacity as int) == lines_view(lines@) + broken(
                chars@.skip(from as int),
                capacity as int,
            ),
        decreases chars.len() - from,
    {
        let ghost rest = chars@.skip(from as int);
        let ghost before = lines_view(lines@);
        let count = chars.len() - from;
        if count <= capacity {
            let last = crate::text::string_of(&chars, from, chars.len());
            lines.push(last);
            proof {
                assert(chars@.subrange(from as int, chars@.len() as int) =~= rest);
                assert(lines_view(lines@) =~= before + seq![rest]);
            }
            return lines;
        }
        proof {
            lemma_break_makes_progress(rest, capacity as int);
        }
        let at = break_index(&chars, from, capacity);
        let first = crate::text::string_of(&chars, from, from + at);
        lines.push(first);
        let next = if chars[from + at] == ' ' {
            from + at + 1
        } else {
            from + at
        };
        proof {
            let later = after_break(rest, at as int);
            assert(chars@.subrange(from as int, from + at) =~= rest.take(at as int));
            assert(later =~= chars@.skip(next as int));
            assert(lines_view(lines@) =~= before + seq![rest.take(at as int)]);
            assert(before + (seq![rest.take(at as int)] + broken(later, capacity as int))
                =~= before + seq![rest.take(at as int)] + broken(later, capacity as int));
        }
        from = next;
    }
}

/// The hash of a colour code or the name of a colour, as a colour.
fn color_of(value: &CssToken, initial: Color) -> (r: Option<Color>)
    ensures
        r == match color_of_value(value@) {
            Some(code) => Some(color_or(code, initial)),
            None => None,
        },
{
    match value {
        CssToken::Ident(name) => Some(
            match Color::from_name(name.as_str()) {
                Ok(c) => c,
                Err(_) => initial,
            },
        ),
        CssToken::HashToken(code) => Some(
            match Color::from_code(code.as_str()) {
                Ok(c) => c,
                Err(_) => initial,
            },
        ),
        _ => None,
    }
}

impl LayoutObject {
    /// A block box for a node, without style, children, size or place.
    pub fn new(node_id: usize, node: NodeKind, parent: Option<usize>) -> (b: Self)
        ensures
            b@ == (BoxView {
                kind: LayoutObjectKind::Block,
                node_id,
                node: node@,
                parent,
                style: ComputedStyle::unset(),
                point: LayoutPoint(0, 0),
                size: LayoutSize(0, 0),
                first_child: None,
                next_sibling: None,
            }),
    {
        LayoutObject {
            kind: LayoutObjectKind::Block,
            node_id,
            node,
            first_child: None,
            next_sibling: None,
            parent,
            style: ComputedStyle::new(),
            point: LayoutPoint::new(0, 0),
            size: LayoutSize::new(0, 0),
        }
    }

    /// What is drawn for the box itself: see [`painted`].
    pub fn paint(&self) -> (items: Vec<DisplayItem>)
        ensures
            crate::display_item::items_view(items@) == painted(self@),
    {
        let mut items: Vec<DisplayItem> = Vec::new();
        let hidden = match self.style.display {
            Some(DisplayType::DisplayNone) => true,
            _ => false,
        };
        if !hidden {
            match self.kind {
                LayoutObjectKind::Block => {
                    match &self.node {
                        NodeKind::Element(_) => {
                            items.push(
                                DisplayItem::Rect {
                                    style: self.style,
                                    layout_point: self.point,
                                    layout_size: self.size,
                                },
                            );
                        },
                        _ => {},
                    }
                },
                LayoutObjectKind::Text => {
                    match &self.node {
                        NodeKind::Text(text) => {
                            return self.paint_lines(text);
                        },
                        _ => {},
                    }
                },
                _ => {},
            }
        }
        assert(crate::display_item::items_view(items@) =~= painted(self@));
        items
    }

    /// What is drawn for the lines of `text` in the style and at the place
    /// of the box: see [`line_items`].
    fn paint_lines(&self, text: &String) -> (items: Vec<DisplayItem>)
        ensures
            crate::display_item::items_view(items@) == line_items(
                text_lines(text@, CHAR_WIDTH * font_ratio(self@.style)),
                self@.style,
                self@.point,
                CHAR_HEIGHT_WITH_PADDING * font_ratio(self@.style),
            ),
    {
        let ratio: i64 = match self.style.font_size {
            Some(FontSize::XLarge) => 2,
            Some(FontSize::XXLarge) => 3,
            _ => 1,
        };
        let line_height: i64 = CHAR_HEIGHT_WITH_PADDING * ratio;
        let lines = split_text(text.clone(), CHAR_WIDTH * ratio);
        let ghost all = lines_view(lines@);
        let ghost wanted = line_items(all, self.style, self.point, line_height as int);
        let mut items: Vec<DisplayItem> = Vec::new();
        let mut k: usize = 0;
        while k < lines.len()
            invariant
                k <= lines.len(),
                all == lines_view(lines@),
                wanted == line_items(all, self.style, self.point, line_height as int),
                20 <= line_height <= 60,
                items@.len() == k,
                forall|j: int| 0 <= j < k ==> (#[trigger] items@[j])@ == wanted[j],
            decreases lines.len() - k,
        {
            assert(0 <= line_height as i128 * k as i128 <= 60 * 0xffff_ffff_ffff_ffff)
                by (nonlinear_arith)
                requires
                    20 <= line_height <= 60,
                    0 <= k <= 0xffff_ffff_ffff_ffff,
            ;
            let down: i128 = self.point.y() as i128 + line_height as i128 * k as i128;
            let y: i64 = if down > i64::MAX as i128 {
                i64::MAX
            } else {
                down as i64
            };
            items.push(
                DisplayItem::Text {
                    text: lines[k].clone(),
                    style: self.style,
                    layout_point: LayoutPoint::new(self.point.x(), y),
                },
            );
            k += 1;
        }
        assert(crate::display_item::items_view(items@) =~= wanted);
        items
    }

    /// The height of a block with these children: see [`block_height`].
    fn sum_heights(children: &Option<Box<LayoutObject>>) -> (h: i64)
        ensures
            h == block_height(tree_view(*children), LayoutObjectKind::Block, 0),
    {
        let mut height: i64 = 0;
        let mut previous = LayoutObjectKind::Block;
        let mut child = children;
        loop
            invariant
                block_height(tree_view(*child), previous, height) == block_height(
                    tree_view(*children),
                    LayoutObjectKind::Block,
                    0,
                ),
            decreases *child,
        {
            match child {
                None => {
                    return height;
                },
                Some(c) => {
                    if previous == LayoutObjectKind::Block || c.kind == LayoutObjectKind::Block {
                        height = clamped_sum(height, c.size.height());
                    }
                    previous = c.kind;
                    child = &c.next_sibling;
                },
            }
        }
    }

    /// The size of an inline box with these children: see [`inline_size`].
    fn sum_sizes(children: &Option<Box<LayoutObject>>) -> (s: LayoutSize)
        ensures
            s == inline_size(tree_view(*children), LayoutSize(0, 0)),
    {
        let mut width: i64 = 0;
        let mut height: i64 = 0;
        let mut child = children;
        loop
            invariant
                inline_size(tree_view(*child), LayoutSize(width, height)) == inline_size(
                    tree_view(*children),
                    LayoutSize(0, 0),
                ),
            decreases *child,
        {
            match child {
                None => {
                    return LayoutSize::new(width, height);
                },
                Some(c) => {
                    width = clamped_sum(width, c.size.width());
                    height = clamped_sum(height, c.size.height());
                    child = &c.next_sibling;
                },
            }
        }
    }

    /// The size of a text of `count` characters: see [`text_size`].
    fn measure_text(count: usize, font_size: Option<FontSize>) -> (s: LayoutSize)
        ensures
            s == text_size(
                count as nat,
                match font_size {
                    Some(size) => size.ratio(),
                    None => 1,
                },
            ),
    {
        let ratio: i128 = match font_size {
            Some(FontSize::XLarge) => 2,
            Some(FontSize::XXLarge) => 3,
            _ => 1,
        };
        let unit: i128 = CHAR_WIDTH as i128 * ratio;
        let line: i128 = CHAR_HEIGHT_WITH_PADDING as i128 * ratio;
        assert(unit * count == CHAR_WIDTH * ratio * count) by (nonlinear_arith)
            requires
                unit == CHAR_WIDTH * ratio,
        ;
        assert(0 <= unit * count <= 24 * 0xffff_ffff_ffff_ffff) by (nonlinear_arith)
            requires
                8 <= unit <= 24,
                0 <= count <= 0xffff_ffff_ffff_ffff,
        ;
        let width: i128 = unit * (count as i128);
        if width > CONTENT_AREA_WIDTH as i128 {
            let lines: i128 = if width % (CONTENT_AREA_WIDTH as i128) == 0 {
                width / (CONTENT_AREA_WIDTH as i128)
            } else {
                width / (CONTENT_AREA_WIDTH as i128) + 1
            };
            assert(CONTENT_AREA_WIDTH == 590);
            assert(0 <= width / 590 <= width);
            assert(0 <= lines <= width);
            assert(line * lines == CHAR_HEIGHT_WITH_PADDING * ratio * lines) by (nonlinear_arith)
                requires
                    line == CHAR_HEIGHT_WITH_PADDING * ratio,
            ;
            assert(0 <= line * lines <= 60 * 24 * 0xffff_ffff_ffff_ffff) by (nonlinear_arith)
                requires
                    20 <= line <= 60,
                    0 <= lines <= 24 * 0xffff_ffff_ffff_ffff,
            ;
            let height: i128 = line * lines;
            let height: i64 = if height > i64::MAX as i128 {
                i64::MAX
            } else {
                height as i64
            };
            LayoutSize::new(CONTENT_AREA_WIDTH, height)
        } else {
            LayoutSize::new(width as i64, line as i64)
        }
    }

    /// Sets the size of the box from the sizes of its children: see
    /// [`computed_size`].
    pub fn compute_size(&mut self, parent_size: LayoutSize)
        ensures
            final(self)@ == (BoxView { size: computed_size(old(self)@, parent_size), ..old(self)@ }),
    {
        let size = match self.kind {
            LayoutObjectKind::Block => LayoutSize::new(
                parent_size.width(),
                Self::sum_heights(&self.first_child),
            ),
            LayoutObjectKind::Inline => Self::sum_sizes(&self.first_child),
            LayoutObjectKind::Text => match &self.node {
                NodeKind::Text(text) => Self::measure_text(
                    text.as_str().unicode_len(),
                    self.style.font_size,
                ),
                _ => self.size,
            },
            LayoutObjectKind::Unknown => LayoutSize::new(0, 0),
        };
        self.size = size;
    }

    /// Sets the place of the box: see [`computed_position`].
    pub fn compute_position(
        &mut self,
        parent_point: LayoutPoint,
        prev_sibling_kind: LayoutObjectKind,
        prev_sibling_point: Option<LayoutPoint>,
        prev_sibling_size: Option<LayoutSize>,
    )
        ensures
            final(self)@ == (BoxView {
                point: computed_position(
                    old(self)@.kind,
                    parent_point,
                    prev_sibling_kind,
                    prev_sibling_point,
                    prev_sibling_size,
                ),
                ..old(self)@
            }),
    {
        let mut point = LayoutPoint::new(parent_point.x(), parent_point.y());
        if let (Some(size), Some(pos)) = (prev_sibling_size, prev_sibling_point) {
            if self.kind == LayoutObjectKind::Block || prev_sibling_kind
                == LayoutObjectKind::Block {
                point.set_y(clamped_sum(pos.y(), size.height()));
            } else if self.kind == LayoutObjectKind::Inline && prev_sibling_kind
                == LayoutObjectKind::Inline {
                point.set_x(clamped_sum(pos.x(), size.width()));
                point.set_y(pos.y());
            }
        }
        self.point = point;
    }

    /// Whether `selector` selects the node of the box: see [`selects`].
    pub fn is_node_selected(&self, selector: &Selector) -> (r: bool)
        ensures
            r == selects(selector@, self@.node),
    {
        match &self.node {
            NodeKind::Element(element) => match selector {
                Selector::TypeSelector(name) => element.kind().to_string() == *name,
                Selector::ClassSelector(name) => match element.get_attr("class") {
                    Some(attr) => attr.value() == *name,
                    None => false,
                },
                Selector::IdSelector(name) => match element.get_attr("id") {
                    Some(attr) => attr.value() == *name,
                    None => false,
                },
                Selector::UnknownSelector => false,
            },
            _ => false,
        }
    }

    /// Takes the declarations into the style, in order: see [`cascaded`].
    pub fn cascading_style(&mut self, declarations: Vec<Declaration>)
        ensures
            final(self)@ == (BoxView {
                style: cascaded(old(self)@.style, declarations_view(declarations@)),
                ..old(self)@
            }),
    {
        let ghost all = declarations_view(declarations@);
        let mut i: usize = 0;
        assert(all.skip(0) =~= all);
        while i < declarations.len()
            invariant
                i <= declarations.len(),
                all == declarations_view(declarations@),
                self@ == (BoxView { style: self.style, ..old(self)@ }),
                cascaded(self.style, all.skip(i as int)) == cascaded(old(self).style, all),
            decreases declarations.len() - i,
        {
            let declaration = &declarations[i];
            proof {
                assert(all.skip(i as int)[0] == declaration@);
                assert(all.skip(i as int).drop_first() =~= all.skip(i + 1));
            }
            if crate::text::equals(declaration.property.as_str(), "background-color") {
                if let Some(color) = color_of(&declaration.value, Color::white()) {
                    self.style.set_background_color(color);
                }
            } else if crate::text::equals(declaration.property.as_str(), "color") {
                if let Some(color) = color_of(&declaration.value, Color::black()) {
                    self.style.set_color(color);
                }
            } else if crate::text::equals(declaration.property.as_str(), "display") {
                if let CssToken::Ident(value) = &declaration.value {
                    let display = match DisplayType::try_from(value.as_str()) {
                        Ok(d) => d,
                        Err(_) => DisplayType::DisplayNone,
                    };
                    self.style.set_display(display);
                }
            }
            i += 1;
        }
    }

    /// Fills in what the rules left unset: see [`ComputedStyle::defaulted`].
    pub fn defaulting_style(&mut self, parent_style: Option<ComputedStyle>)
        ensures
            final(self)@ == (BoxView {
                style: old(self)@.style.defaulted(old(self)@.node, parent_style),
                ..old(self)@
            }),
            final(self)@.style.is_resolved(),
    {
        self.style.defaulting(&self.node, parent_style);
    }

    /// Sets the kind of the box from its node and its display type: see
    /// [`box_kind`]. The node is no document and is shown.
    pub fn update_kind(&mut self)
        requires
            !(old(self)@.node is Document),
            old(self)@.style.display is Some,
            old(self)@.style.display != Some(DisplayType::DisplayNone),
        ensures
            final(self)@ == (BoxView {
                kind: box_kind(old(self)@.node, old(self)@.style.display),
                ..old(self)@
            }),
            final(self)@.kind != LayoutObjectKind::Unknown,
    {
        match &self.node {
            NodeKind::Text(_) => {
                self.kind = LayoutObjectKind::Text;
            },
            _ => {
                match self.style.display {
                    Some(DisplayType::Inline) => {
                        self.kind = LayoutObjectKind::Inline;
                    },
                    _ => {
                        self.kind = LayoutObjectKind::Block;
                    },
                }
            },
        }
    }

    pub fn kind(&self) -> (k: LayoutObjectKind)
        ensures
            k == self@.kind,
    {
        self.kind
    }

    /// The index of the DOM node that the box stands for.
    pub fn node_id(&self) -> (id: usize)
        ensures
            id == self@.node_id,
    {
        self.node_id
    }

    pub fn node_kind(&self) -> (k: NodeKind)
        ensures
            k@ == self@.node,
    {
        self.node.clone()
    }

    /// The address that the box links to, where it stands for an `a`
    /// element: see [`link_of`].
    pub fn link(&self) -> (r: Option<Option<String>>)
        ensures
            match r {
                Some(Some(href)) => link_of(self@) == Some(Some(href@)),
                Some(None) => link_of(self@) == Some(None::<Seq<char>>),
                None => link_of(self@) is None,
            },
    {
        match &self.node {
            NodeKind::Element(element) => match element.kind() {
                ElementKind::A => match element.get_attr("href") {
                    Some(attr) => Some(Some(attr.value())),
                    None => Some(None),
                },
                _ => None,
            },
            _ => None,
        }
    }

    pub fn set_first_child(&mut self, first_child: Option<Box<LayoutObject>>)
        ensures
            final(self)@ == (BoxView { first_child: tree_view(first_child), ..old(self)@ }),
    {
        self.first_child = first_child;
    }

    pub fn first_child(&self) -> (r: Option<&LayoutObject>)
        ensures
            match r {
                Some(c) => self@.first_child == Some(Box::new(c@)),
                None => self@.first_child is None,
            },
    {
        match &self.first_child {
            Some(c) => Some(&**c),
            None => None,
        }
    }

    /// Takes the boxes below this one away from it.
    pub fn take_first_child(&mut self) -> (r: Option<Box<LayoutObject>>)
        ensures
            tree_view(r) == old(self)@.first_child,
            final(self)@ == (BoxView { first_child: None, ..old(self)@ }),
    {
        self.first_child.take()
    }

    pub fn set_next_sibling(&mut self, next_sibling: Option<Box<LayoutObject>>)
        ensures
            final(self)@ == (BoxView { next_sibling: tree_view(next_sibling), ..old(self)@ }),
    {
        self.next_sibling = next_sibling;
    }

    pub fn next_sibling(&self) -> (r: Option<&LayoutObject>)
        ensures
            match r {
                Some(c) => self@.next_sibling == Some(Box::new(c@)),
                None => self@.next_sibling is None,
            },
    {
        match &self.next_sibling {
            Some(c) => Some(&**c),
            None => None,
        }
    }

    /// Takes the boxes after this one away from it.
    pub fn take_next_sibling(&mut self) -> (r: Option<Box<LayoutObject>>)
        ensures
            tree_view(r) == old(self)@.next_sibling,
            final(self)@ == (BoxView { next_sibling: None, ..old(self)@ }),
    {
        self.next_sibling.take()
    }

    /// The index of the DOM node that the parent box stands for.
    pub fn parent(&self) -> (r: Option<usize>)
        ensures
            r == self@.parent,
    {
        self.parent
    }

    pub fn style(&self) -> (s: ComputedStyle)
        ensures
            s == self@.style,
    {
        self.style
    }

    pub fn point(&self) -> (p: LayoutPoint)
        ensures
            p == self@.point,
    {
        self.point
    }

    pub fn size(&self) -> (s: LayoutSize)
        ensures
            s == self@.size,
    {
        self.size
    }
}

/// The box of a node under a style sheet: see [`box_of`]. The node is not the
/// document.
pub fn create_layout_object(
    dom: &Window,
    node: Option<usize>,
    parent: Option<&LayoutObject>,
    cssom: &StyleSheet,
) -> (r: Option<LayoutObject>)
    requires
        node matches Some(id) ==> id < dom@.len() ==> !(dom@[id as int].kind is Document),
    ensures
        match node {
            Some(id) => match r {
                Some(b) => box_of(
                    dom@,
                    id,
                    match parent {
                        Some(p) => Some((p@.node_id, p@.style)),
                        None => None,
                    },
                    cssom@,
                ) == Some(b@),
                None => box_of(
                    dom@,
                    id,
                    match parent {
                        Some(p) => Some((p@.node_id, p@.style)),
                        None => None,
                    },
                    cssom@,
                ) is None,
            },
            None => r is None,
        },
        r matches Some(b) ==> b@.style.is_resolved() && b@.kind != LayoutObjectKind::Unknown,
{
    let id = match node {
        Some(id) => id,
        None => {
            return None;
        },
    };
    let node = match dom.get(id) {
        Some(node) => node,
        None => {
            return None;
        },
    };
    let parent_id = match parent {
        Some(p) => Some(p.node_id()),
        None => None,
    };
    let mut new_layout_object = LayoutObject::new(id, node.kind(), parent_id);
    let ghost rules = cssom@;
    let ghost kind = node@.kind;
    let mut i: usize = 0;
    assert(rules.skip(0) =~= rules);
    while i < cssom.rules.len()
        invariant
            i <= cssom.rules.len(),
            rules == cssom@,
            new_layout_object@.node == kind,
            new_layout_object@.node_id == id,
            new_layout_object@.parent == parent_id,
            new_layout_object@.kind == LayoutObjectKind::Block,
            new_layout_object@.point == LayoutPoint(0, 0),
            new_layout_object@.size == LayoutSize(0, 0),
            new_layout_object@.first_child is None,
            new_layout_object@.next_sibling is None,
            matched(new_layout_object@.style, kind, rules.skip(i as int)) == matched(
                ComputedStyle::unset(),
                kind,
                rules,
            ),
        decreases cssom.rules.len() - i,
    {
        let rule = &cssom.rules[i];
        proof {
            assert(rules.skip(i as int)[0] == rule@);
            assert(rules.skip(i as int).drop_first() =~= rules.skip(i + 1));
        }
        if new_layout_object.is_node_selected(&rule.selector) {
            new_layout_object.cascading_style(
                crate::renderer::css::cssom::clone_declarations(&rule.declarations),
            );
        }
        i += 1;
    }
    let parent_style = match parent {
        Some(p) => Some(p.style()),
        None => None,
    };
    new_layout_object.defaulting_style(parent_style);
    if new_layout_object.style().display() == DisplayType::DisplayNone {
        return None;
    }
    new_layout_object.update_kind();
    Some(new_layout_object)
}

} // verus!
