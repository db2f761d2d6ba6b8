use saba_core::error::Error;
use saba_core::renderer::css::cssom::{Declaration, Selector};
use saba_core::renderer::css::token::CssToken;
use saba_core::renderer::dom::node::{Element, ElementKind, NodeKind};
use saba_core::renderer::html::attribute::Attribute;
use saba_core::renderer::layout::computed_style::{
    Color, ComputedStyle, DisplayType, FontSize, TextDecoration,
};
use saba_core::renderer::layout::layout_object::{
    clamped_sum, find_index_for_line_break, split_text, LayoutObject, LayoutObjectKind,
    LayoutPoint, LayoutSize,
};

fn attribute(name: &str, value: &str) -> Attribute {
    let mut a = Attribute::new();
    for c in name.chars() {
        a.add_char(c, true);
    }
    for c in value.chars() {
        a.add_char(c, false);
    }
    a
}

fn element(name: &str, attributes: Vec<Attribute>) -> NodeKind {
    NodeKind::Element(Element::new(name, attributes))
}

fn declaration(property: &str, value: CssToken) -> Declaration {
    Declaration { property: property.to_string(), value }
}

fn ident(s: &str) -> CssToken {
    CssToken::Ident(s.to_string())
}

#[test]
fn colours_by_name() {
    assert_eq!(Ok(Color { code: 0xff0000 }), Color::from_name("red"));
    assert_eq!(Ok(Color { code: 0xd3d3d3 }), Color::from_name("lightgray"));
    assert_eq!(Ok(Color { code: 0xffa500 }), Color::from_name("orange"));
    assert_eq!(Ok(Color::white()), Color::from_name("white"));
    assert_eq!(Ok(Color::black()), Color::from_name("black"));
    assert_eq!(Err(Error::UnexpectedInput), Color::from_name("Red"));
    assert_eq!(Err(Error::UnexpectedInput), Color::from_name(""));
    assert_eq!(0xffffff, Color::white().code_u32());
    assert_eq!(0, Color::black().code_u32());
}

#[test]
fn colours_by_code() {
    assert_eq!(Ok(Color { code: 0x12abef }), Color::from_code("#12abEF"));
    assert_eq!(Ok(Color { code: 0 }), Color::from_code("#000000"));
    assert_eq!(Ok(Color { code: 0xffffff }), Color::from_code("#ffffff"));
    assert_eq!(Err(Error::UnexpectedInput), Color::from_code("#fff"));
    assert_eq!(Err(Error::UnexpectedInput), Color::from_code("#12345g"));
    assert_eq!(Err(Error::UnexpectedInput), Color::from_code("1234567"));
    assert_eq!(Err(Error::UnexpectedInput), Color::from_code("#1234567"));
    assert_eq!(Err(Error::UnexpectedInput), Color::from_code("#g00000"));
}

#[test]
fn display_by_keyword() {
    assert_eq!(Ok(DisplayType::Block), DisplayType::try_from("block"));
    assert_eq!(Ok(DisplayType::Inline), DisplayType::try_from("inline"));
    assert_eq!(Ok(DisplayType::DisplayNone), DisplayType::try_from("none"));
    assert_eq!(Err(Error::UnexpectedInput), DisplayType::try_from("flex"));
}

#[test]
fn defaults_by_node() {
    let text = NodeKind::Text("t".to_string());
    assert_eq!(DisplayType::Block, DisplayType::default(&NodeKind::Document));
    assert_eq!(DisplayType::Block, DisplayType::default(&element("body", Vec::new())));
    assert_eq!(DisplayType::Block, DisplayType::default(&element("p", Vec::new())));
    assert_eq!(DisplayType::Block, DisplayType::default(&element("h1", Vec::new())));
    assert_eq!(DisplayType::Block, DisplayType::default(&element("h2", Vec::new())));
    assert_eq!(DisplayType::Inline, DisplayType::default(&element("a", Vec::new())));
    assert_eq!(DisplayType::Inline, DisplayType::default(&element("html", Vec::new())));
    assert_eq!(DisplayType::Inline, DisplayType::default(&text));
    assert_eq!(FontSize::XXLarge, FontSize::default(&element("h1", Vec::new())));
    assert_eq!(FontSize::XLarge, FontSize::default(&element("h2", Vec::new())));
    assert_eq!(FontSize::Medium, FontSize::default(&element("p", Vec::new())));
    assert_eq!(FontSize::Medium, FontSize::default(&text));
    assert_eq!(TextDecoration::Underline, TextDecoration::default(&element("a", Vec::new())));
    assert_eq!(TextDecoration::DecorationNone, TextDecoration::default(&element("p", Vec::new())));
}

#[test]
fn defaulting_without_a_parent() {
    let mut style = ComputedStyle::new();
    assert_eq!(None, style.display);
    style.defaulting(&element("a", Vec::new()), None);
    assert_eq!(Color::white(), style.background_color());
    assert_eq!(Color::black(), style.color());
    assert_eq!(DisplayType::Inline, style.display());
    assert_eq!(FontSize::Medium, style.font_size());
    assert_eq!(TextDecoration::Underline, style.text_decoration());
}

#[test]
fn defaulting_inherits_what_is_not_initial() {
    let mut parent = ComputedStyle::new();
    parent.set_color(Color { code: 0xff0000 });
    parent.set_background_color(Color::white());
    parent.set_display(DisplayType::DisplayNone);
    parent.defaulting(&element("h1", Vec::new()), None);
    assert_eq!(FontSize::XXLarge, parent.font_size());

    let mut child = ComputedStyle::new();
    child.defaulting(&NodeKind::Text("t".to_string()), Some(parent));
    assert_eq!(Color { code: 0xff0000 }, child.color());
    assert_eq!(Color::white(), child.background_color());
    assert_eq!(FontSize::XXLarge, child.font_size());
    assert_eq!(TextDecoration::DecorationNone, child.text_decoration());
    // display is never inherited
    assert_eq!(DisplayType::Inline, child.display());

    let mut own = ComputedStyle::new();
    own.set_color(Color { code: 0x0000ff });
    own.defaulting(&element("h2", Vec::new()), Some(parent));
    assert_eq!(Color { code: 0x0000ff }, own.color());
    assert_eq!(FontSize::XXLarge, own.font_size());
}

#[test]
fn selectors_select_by_type_class_and_id() {
    let node = element("p", vec![attribute("class", "a"), attribute("id", "b"), attribute("class", "c")]);
    let b = LayoutObject::new(3, node, Some(1));
    assert!(b.is_node_selected(&Selector::TypeSelector("p".to_string())));
    assert!(!b.is_node_selected(&Selector::TypeSelector("h1".to_string())));
    assert!(b.is_node_selected(&Selector::ClassSelector("a".to_string())));
    assert!(!b.is_node_selected(&Selector::ClassSelector("c".to_string())));
    assert!(b.is_node_selected(&Selector::IdSelector("b".to_string())));
    assert!(!b.is_node_selected(&Selector::IdSelector("a".to_string())));
    assert!(!b.is_node_selected(&Selector::UnknownSelector));
    let text = LayoutObject::new(4, NodeKind::Text("p".to_string()), Some(3));
    assert!(!text.is_node_selected(&Selector::TypeSelector("p".to_string())));
    assert_eq!(3, b.node_id());
    assert_eq!(Some(1), b.parent());
    assert_eq!(ElementKind::P, Element::new("p", Vec::new()).kind());
}

#[test]
fn later_declarations_overwrite_earlier_ones() {
    let mut b = LayoutObject::new(1, element("p", Vec::new()), None);
    b.cascading_style(vec![
        declaration("color", ident("red")),
        declaration("background-color", CssToken::HashToken("#010203".to_string())),
        declaration("display", ident("inline")),
        declaration("color", ident("blue")),
        declaration("margin", ident("none")),
        declaration("display", CssToken::Colon),
    ]);
    assert_eq!(Some(Color { code: 0x0000ff }), b.style().color);
    assert_eq!(Some(Color { code: 0x010203 }), b.style().background_color);
    assert_eq!(Some(DisplayType::Inline), b.style().display);
    assert_eq!(None, b.style().font_size);
    b.defaulting_style(None);
    b.update_kind();
    assert_eq!(LayoutObjectKind::Inline, b.kind());
}

#[test]
fn values_that_are_not_understood() {
    let mut b = LayoutObject::new(1, element("p", Vec::new()), None);
    b.cascading_style(vec![
        declaration("color", ident("nocolour")),
        declaration("background-color", CssToken::HashToken("#zzz".to_string())),
        declaration("display", ident("grid")),
    ]);
    assert_eq!(Some(Color::black()), b.style().color);
    assert_eq!(Some(Color::white()), b.style().background_color);
    assert_eq!(Some(DisplayType::DisplayNone), b.style().display);
}

#[test]
fn position_after_a_sibling() {
    let mut b = LayoutObject::new(1, element("p", Vec::new()), None);
    let parent = LayoutPoint::new(5, 7);
    let prev_point = Some(LayoutPoint::new(30, 40));
    let prev_size = Some(LayoutSize::new(100, 20));
    b.compute_position(parent, LayoutObjectKind::Inline, prev_point, prev_size);
    assert_eq!(LayoutPoint::new(5, 60), b.point());
    b.compute_position(parent, LayoutObjectKind::Inline, None, prev_size);
    assert_eq!(LayoutPoint::new(5, 7), b.point());

    let mut a = LayoutObject::new(2, element("a", Vec::new()), None);
    a.defaulting_style(None);
    a.update_kind();
    a.compute_position(parent, LayoutObjectKind::Inline, prev_point, prev_size);
    assert_eq!(LayoutPoint::new(130, 40), a.point());
    a.compute_position(parent, LayoutObjectKind::Block, prev_point, prev_size);
    assert_eq!(LayoutPoint::new(5, 60), a.point());
    a.compute_position(parent, LayoutObjectKind::Text, prev_point, prev_size);
    assert_eq!(LayoutPoint::new(5, 7), a.point());
    a.compute_position(parent, LayoutObjectKind::Inline, prev_point, None);
    assert_eq!(LayoutPoint::new(5, 7), a.point());
}

#[test]
fn sizes_stop_at_the_ends_of_the_range() {
    assert_eq!(i64::MAX, clamped_sum(i64::MAX, 1));
    assert_eq!(i64::MIN, clamped_sum(i64::MIN, -1));
    assert_eq!(3, clamped_sum(1, 2));
    assert_eq!(-1, clamped_sum(i64::MAX, i64::MIN));
    let mut a = LayoutObject::new(2, element("a", Vec::new()), None);
    a.defaulting_style(None);
    a.update_kind();
    a.compute_position(
        LayoutPoint::new(0, 0),
        LayoutObjectKind::Inline,
        Some(LayoutPoint::new(i64::MAX, 3)),
        Some(LayoutSize::new(10, 10)),
    );
    assert_eq!(LayoutPoint::new(i64::MAX, 3), a.point());
}

#[test]
fn size_of_a_box_alone() {
    let mut p = LayoutObject::new(1, element("p", Vec::new()), None);
    p.compute_size(LayoutSize::new(300, 9));
    assert_eq!(LayoutSize::new(300, 0), p.size());
    let mut t = LayoutObject::new(2, NodeKind::Text("abcd".to_string()), None);
    t.defaulting_style(None);
    t.update_kind();
    t.compute_size(LayoutSize::new(300, 9));
    assert_eq!(LayoutSize::new(32, 20), t.size());
    let mut e = LayoutObject::new(3, NodeKind::Text("".to_string()), None);
    e.defaulting_style(None);
    e.update_kind();
    e.compute_size(LayoutSize::new(300, 9));
    assert_eq!(LayoutSize::new(0, 20), e.size());
    let mut u = LayoutObject::new(4, NodeKind::Text("äö".to_string()), None);
    u.defaulting_style(None);
    u.update_kind();
    u.compute_size(LayoutSize::new(300, 9));
    // two characters, whatever their length in bytes
    assert_eq!(LayoutSize::new(16, 20), u.size());
}

#[test]
fn points_and_sizes() {
    let mut p = LayoutPoint::new(1, 2);
    assert_eq!((1, 2), (p.x(), p.y()));
    p.set_x(3);
    p.set_y(4);
    assert_eq!(LayoutPoint::new(3, 4), p);
    let mut s = LayoutSize::new(5, 6);
    assert_eq!((5, 6), (s.width(), s.height()));
    s.set_width(7);
    s.set_height(8);
    assert_eq!(LayoutSize::new(7, 8), s);
}

#[test]
fn line_is_broken_at_its_last_space() {
    assert_eq!(2, find_index_for_line_break("ab cd ef".to_string(), 5));
    assert_eq!(5, find_index_for_line_break("ab cd ef".to_string(), 6));
    assert_eq!(3, find_index_for_line_break("abcdef".to_string(), 3));
    assert_eq!(5, find_index_for_line_break("ab".to_string(), 5));
    assert_eq!(0, find_index_for_line_break(" x".to_string(), 1));
    assert_eq!(0, find_index_for_line_break("".to_string(), 0));
    assert_eq!(1, find_index_for_line_break("a b".to_string(), 9));
}

#[test]
fn text_is_split_into_lines_that_fit() {
    // 73 characters of width 8 fit in the 590 of the content area
    assert_eq!(vec!["x".repeat(73), "x".repeat(27)], split_text("x".repeat(100), 8));
    assert_eq!(vec!["x".repeat(73)], split_text("x".repeat(73), 8));
    assert_eq!(
        vec!["a".repeat(70), "b".repeat(10)],
        split_text(format!("{} {}", "a".repeat(70), "b".repeat(10)), 8)
    );
    assert_eq!(vec!["ab cd".to_string()], split_text("ab cd".to_string(), 8));
    assert_eq!(vec!["".to_string()], split_text("".to_string(), 8));
    // five characters of width 100 fit
    assert_eq!(
        vec!["aaaa".to_string(), "bbbb".to_string(), "cccc".to_string()],
        split_text("aaaa bbbb cccc".to_string(), 100)
    );
    assert_eq!(
        vec!["".to_string(), "abcde".to_string(), "fgh".to_string()],
        split_text(" abcdefgh".to_string(), 100)
    );
    // 24 characters of width 24 fit
    assert_eq!(vec!["y".repeat(24), "y".to_string()], split_text("y".repeat(25), 24));
}

#[test]
fn characters_that_do_not_fit_stand_alone() {
    assert_eq!(
        vec!["a".to_string(), "b".to_string(), "c".to_string()],
        split_text("abc".to_string(), 600)
    );
    assert_eq!(vec!["a".to_string(), "b".to_string()], split_text("a b".to_string(), 600));
    assert_eq!(
        vec!["a".to_string(), "b".to_string(), "c".to_string()],
        split_text("abc".to_string(), 590)
    );
    assert_eq!(vec!["abc".to_string()], split_text("abc".to_string(), 196));
    assert_eq!(vec!["ab".to_string(), "c".to_string()], split_text("abc".to_string(), 197));
    assert_eq!(vec!["abc".to_string()], split_text("abc".to_string(), 0));
    assert_eq!(vec!["abc".to_string()], split_text("abc".to_string(), -8));
    assert_eq!(vec!["x".repeat(1000)], split_text("x".repeat(1000), i64::MIN));
    assert_eq!(
        vec!["a".to_string(), "b".to_string()],
        split_text("ab".to_string(), i64::MAX)
    );
}
