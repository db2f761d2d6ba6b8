use saba_core::renderer::css::cssom::CssParser;
use saba_core::renderer::css::token::CssTokenizer;
use saba_core::renderer::dom::api::get_style_content;
use saba_core::renderer::dom::node::{Element, NodeKind};
use saba_core::renderer::html::attribute::Attribute;
use saba_core::renderer::html::parser::HtmlParser;
use saba_core::renderer::html::token::HtmlTokenizer;
use saba_core::renderer::layout::layout_object::{LayoutObjectKind, LayoutPoint, LayoutSize};
use saba_core::renderer::layout::layout_view::LayoutView;

fn create_layout_view(html: String) -> LayoutView {
    let t = HtmlTokenizer::new(html);
    let window = HtmlParser::new(t).construct_tree().expect("the page can be built");
    let dom = window.document();
    let style = get_style_content(&window, dom);
    let css_tokenizer = CssTokenizer::new(style);
    let cssom = CssParser::new(css_tokenizer)
        .parse_stylesheet()
        .expect("the style sheet can be read");
    LayoutView::new(&window, dom, &cssom)
}

fn attribute(name: &str, value: &str) -> Attribute {
    let mut a = Attribute::new();
    for c in name.chars() {
        a.add_char(c, true);
    }
    for c in value.chars() {
        a.add_char(c, false);
    }
    a
}

#[test]
fn layout_view_test_empty() {
    let layout_view = create_layout_view("".to_string());
    assert_eq!(None, layout_view.root());
}

#[test]
fn layout_view_test_body() {
    let html = "<html><head></head><body></body></html>".to_string();
    let layout_view = create_layout_view(html);

    let root = layout_view.root();
    assert!(root.is_some());
    assert_eq!(
        LayoutObjectKind::Block,
        root.clone().expect("root should exist").kind()
    );
    assert_eq!(
        NodeKind::Element(Element::new("body", Vec::new())),
        root.clone().expect("root should exist").node_kind()
    );
    assert!(root.expect("root should exist").first_child().is_none());
}

#[test]
fn layout_view_test_text() {
    let html = "<html><head></head><body>text</body></html>".to_string();
    let layout_view = create_layout_view(html);

    let root = layout_view.root();
    assert!(root.is_some());
    assert_eq!(
        LayoutObjectKind::Block,
        root.clone().expect("root should exist").kind()
    );
    assert_eq!(
        NodeKind::Element(Element::new("body", Vec::new())),
        root.clone().expect("root should exist").node_kind()
    );

    let text = root.expect("root should exist").first_child();
    assert!(text.is_some());
    assert_eq!(
        NodeKind::Text("text".to_string()),
        text.clone().expect("text node should exist").node_kind()
    );
    assert_eq!(
        LayoutObjectKind::Text,
        text.clone().expect("text node should exist").kind()
    );
}

#[test]
fn test_display_none() {
    let html = "<html><head><style>body{display:none;}</style></head><body>text</body></html>"
        .to_string();
    let layout_view = create_layout_view(html);

    assert_eq!(None, layout_view.root());
}

#[test]
fn test_hidden_class() {
    let html = r#"<html>
    <head>
    <style>
      .hidden {
        display: none;
      }
    </style>
    </head>
    <body>
      <a class="hidden">link1</a>
      <p></p>
      <p class="hidden"><a>link2</a></p>
    </body>
    </html>"#
        .to_string();
    let layout_view = create_layout_view(html);

    let root = layout_view.root();
    assert!(root.is_some());
    assert_eq!(
        LayoutObjectKind::Block,
        root.clone().expect("root should exist").kind()
    );
    assert_eq!(
        NodeKind::Element(Element::new("body", Vec::new())),
        root.clone().expect("root should exist").node_kind()
    );

    let p = root.expect("root should exist").first_child();
    assert!(p.is_some());
    assert_eq!(
        LayoutObjectKind::Block,
        p.clone().expect("p node should exist").kind()
    );
    assert_eq!(
        NodeKind::Element(Element::new("p", Vec::new())),
        p.clone().expect("p node should exist").node_kind()
    );

    assert!(p
        .clone()
        .expect("p node should exist")
        .first_child()
        .is_none());
    assert!(p.expect("p node should exist").next_sibling().is_none());
}

#[test]
fn layout_mirrors_the_nesting_of_the_dom() {
    let view = create_layout_view(
        "<html><head></head><body><p><a foo=bar>text</a></p></body></html>".to_string(),
    );
    let body = view.root().expect("body");
    let p = body.first_child().expect("p");
    assert_eq!(NodeKind::Element(Element::new("p", Vec::new())), p.node_kind());
    assert_eq!(LayoutObjectKind::Block, p.kind());
    let a = p.first_child().expect("a");
    assert_eq!(
        NodeKind::Element(Element::new("a", vec![attribute("foo", "bar")])),
        a.node_kind()
    );
    assert_eq!(LayoutObjectKind::Inline, a.kind());
    let text = a.first_child().expect("text");
    assert_eq!(NodeKind::Text("text".to_string()), text.node_kind());
    assert_eq!(LayoutObjectKind::Text, text.kind());
    assert_eq!(Some(a.node_id()), text.parent());
    assert_eq!(Some(p.node_id()), a.parent());
    assert_eq!(Some(body.node_id()), p.parent());
    assert_eq!(None, body.parent());
    assert!(text.first_child().is_none());
    assert!(text.next_sibling().is_none());
    assert!(body.next_sibling().is_none());
}

#[test]
fn hidden_siblings_leave_no_gap() {
    let view = create_layout_view(
        "<html><head><style>.x{display:none;}</style></head><body><p class=x>1</p><h1>2</h1><p class=x>3</p><p class=x>4</p><h2>5</h2><p class=x>6</p></body></html>"
            .to_string(),
    );
    let body = view.root().expect("body");
    let h1 = body.first_child().expect("h1");
    assert_eq!(NodeKind::Element(Element::new("h1", Vec::new())), h1.node_kind());
    let h2 = h1.next_sibling().expect("h2");
    assert_eq!(NodeKind::Element(Element::new("h2", Vec::new())), h2.node_kind());
    assert!(h2.next_sibling().is_none());
    assert_eq!(NodeKind::Text("5".to_string()), h2.first_child().expect("text").node_kind());
}

#[test]
fn unknown_display_value_hides_the_node() {
    let view = create_layout_view(
        "<html><head><style>p{display:flex;}</style></head><body><p>a</p><h1>b</h1></body></html>"
            .to_string(),
    );
    let body = view.root().expect("body");
    let h1 = body.first_child().expect("h1");
    assert_eq!(NodeKind::Element(Element::new("h1", Vec::new())), h1.node_kind());
    assert!(h1.next_sibling().is_none());
}

#[test]
fn display_can_make_an_inline_element_a_block() {
    let view = create_layout_view(
        "<html><head><style>a{display:block;} #t{display:inline;}</style></head><body><a>x</a><p id=t>y</p></body></html>"
            .to_string(),
    );
    let body = view.root().expect("body");
    let a = body.first_child().expect("a");
    assert_eq!(LayoutObjectKind::Block, a.kind());
    let p = a.next_sibling().expect("p");
    assert_eq!(LayoutObjectKind::Inline, p.kind());
}

#[test]
fn sizes_of_blocks_and_texts() {
    let view = create_layout_view(
        "<html><head></head><body><p>abc</p><h1>ab</h1><h2>a</h2></body></html>".to_string(),
    );
    let body = view.root().expect("body");
    let p = body.first_child().expect("p");
    let h1 = p.next_sibling().expect("h1");
    let h2 = h1.next_sibling().expect("h2");
    let p_text = p.first_child().expect("text of p");
    let h1_text = h1.first_child().expect("text of h1");
    let h2_text = h2.first_child().expect("text of h2");

    assert_eq!(LayoutSize::new(24, 20), p_text.size());
    assert_eq!(LayoutSize::new(48, 60), h1_text.size());
    assert_eq!(LayoutSize::new(16, 40), h2_text.size());
    assert_eq!(LayoutSize::new(590, 20), p.size());
    assert_eq!(LayoutSize::new(590, 60), h1.size());
    assert_eq!(LayoutSize::new(590, 40), h2.size());
    assert_eq!(LayoutSize::new(590, 120), body.size());

    assert_eq!(LayoutPoint::new(0, 0), body.point());
    assert_eq!(LayoutPoint::new(0, 0), p.point());
    assert_eq!(LayoutPoint::new(0, 0), p_text.point());
    assert_eq!(LayoutPoint::new(0, 20), h1.point());
    assert_eq!(LayoutPoint::new(0, 20), h1_text.point());
    assert_eq!(LayoutPoint::new(0, 80), h2.point());
    assert_eq!(LayoutPoint::new(0, 80), h2_text.point());
}

#[test]
fn inline_boxes_share_a_line() {
    let view = create_layout_view(
        "<html><head></head><body><a>ab</a><a>cde</a><p>f</p></body></html>".to_string(),
    );
    let body = view.root().expect("body");
    let first = body.first_child().expect("first a");
    let second = first.next_sibling().expect("second a");
    let p = second.next_sibling().expect("p");

    assert_eq!(LayoutObjectKind::Inline, first.kind());
    assert_eq!(LayoutSize::new(16, 20), first.size());
    assert_eq!(LayoutSize::new(24, 20), second.size());
    assert_eq!(LayoutSize::new(590, 20), p.size());
    // the first inline box counts, the one after an inline box does not, the block does
    assert_eq!(LayoutSize::new(590, 40), body.size());

    assert_eq!(LayoutPoint::new(0, 0), first.point());
    assert_eq!(LayoutPoint::new(16, 0), second.point());
    assert_eq!(LayoutPoint::new(0, 20), p.point());
}

#[test]
fn long_text_wraps_onto_lines_of_the_full_width() {
    let long = "x".repeat(74);
    let view = create_layout_view(format!("<html><head></head><body>{}</body></html>", long));
    let text = view.root().expect("body").first_child().expect("text");
    // 74 characters of width 8 are 592 wide: two lines of 590
    assert_eq!(LayoutSize::new(590, 40), text.size());

    let fits = "x".repeat(73);
    let view = create_layout_view(format!("<html><head></head><body>{}</body></html>", fits));
    let text = view.root().expect("body").first_child().expect("text");
    assert_eq!(LayoutSize::new(584, 20), text.size());

    let exact = "x".repeat(295);
    let view = create_layout_view(format!("<html><head></head><body><h2>{}</h2></body></html>", exact));
    let text = view
        .root()
        .expect("body")
        .first_child()
        .expect("h2")
        .first_child()
        .expect("text");
    // 295 characters of width 16 are 4720 wide: exactly eight lines, each 40 high
    assert_eq!(LayoutSize::new(590, 320), text.size());
}

#[test]
fn building_twice_gives_the_same_boxes() {
    let html = "<html><head><style>.h{display:none;} p{color:red;}</style></head><body><p>a<a class=h>b</a></p><h1>c</h1></body></html>";
    let t = HtmlTokenizer::new(html.to_string());
    let window = HtmlParser::new(t).construct_tree().expect("the page can be built");
    let style = get_style_content(&window, window.document());
    let cssom = CssParser::new(CssTokenizer::new(style))
        .parse_stylesheet()
        .expect("the style sheet can be read");
    let first = LayoutView::new(&window, window.document(), &cssom);
    let second = LayoutView::new(&window, window.document(), &cssom);
    assert_eq!(first.root(), second.root());
    assert!(first.root().is_some());
    assert_eq!(first.paint(), second.paint());
}

#[test]
fn box_under_a_position() {
    let view = create_layout_view(
        "<html><head></head><body><p>abc</p><h1>ab</h1></body></html>".to_string(),
    );
    let body = view.root().expect("body");
    let p = body.first_child().expect("p");
    let h1 = p.next_sibling().expect("h1");
    // the text of the paragraph is 24 wide and 20 high
    assert_eq!(p.first_child(), view.find_node_by_position((24, 0)));
    assert_eq!(Some(p), view.find_node_by_position((25, 0)));
    // where two boxes meet, the one that is searched first is found
    assert_eq!(p.first_child(), view.find_node_by_position((0, 20)));
    assert_eq!(h1.first_child(), view.find_node_by_position((0, 21)));
    assert_eq!(Some(h1), view.find_node_by_position((49, 80)));
    assert_eq!(None, view.find_node_by_position((0, 81)));
    assert_eq!(None, view.find_node_by_position((591, 0)));
    assert_eq!(None, view.find_node_by_position((-1, -1)));
}
