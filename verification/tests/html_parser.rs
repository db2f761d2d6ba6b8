use saba_core::error::Error;
use saba_core::renderer::dom::node::{Element, ElementKind, Node, NodeKind, Window};
use saba_core::renderer::html::attribute::Attribute;
use saba_core::renderer::html::parser::HtmlParser;
use saba_core::renderer::html::token::HtmlTokenizer;

fn parse(html: &str) -> Window {
    let t = HtmlTokenizer::new(html.to_string());
    HtmlParser::new(t).construct_tree().expect("the page can be built")
}

fn kind_of(window: &Window, id: usize) -> NodeKind {
    window.node(id).kind()
}

fn element(name: &str) -> NodeKind {
    Node::new(NodeKind::Element(Element::new(name, Vec::new()))).kind()
}

#[test]
fn parser_test_empty() {
    let html = "".to_string();
    let t = HtmlTokenizer::new(html);
    let window = HtmlParser::new(t).construct_tree().expect("the page can be built");
    let expected = Node::new(NodeKind::Document);

    assert_eq!(expected.kind(), window.node(window.document()).kind());
    assert_eq!(None, window.node(window.document()).first_child());
    assert_eq!(1, window.len());
}

#[test]
fn parser_test_body() {
    let html = "<html><head></head><body></body></html>".to_string();
    let t = HtmlTokenizer::new(html);
    let window = HtmlParser::new(t).construct_tree().expect("the page can be built");
    let document = window.document();
    assert_eq!(Node::new(NodeKind::Document).kind(), kind_of(&window, document));

    let html = window
        .node(document)
        .first_child()
        .expect("failed to get a first child of document");
    assert_eq!(element("html"), kind_of(&window, html));

    let head = window
        .node(html)
        .first_child()
        .expect("failed to get a first child of html");
    assert_eq!(element("head"), kind_of(&window, head));

    let body = window
        .node(head)
        .next_sibiling()
        .expect("failed to get a next sibling of head");
    assert_eq!(element("body"), kind_of(&window, body));
}

#[test]
fn parser_test_text() {
    let html = "<html><head></head><body>text</body></html>".to_string();
    let t = HtmlTokenizer::new(html);
    let window = HtmlParser::new(t).construct_tree().expect("the page can be built");
    let document = window.document();
    assert_eq!(Node::new(NodeKind::Document).kind(), kind_of(&window, document));

    let html = window
        .node(document)
        .first_child()
        .expect("failed to get a first child of document");
    assert_eq!(element("html"), kind_of(&window, html));

    let head = window
        .node(html)
        .first_child()
        .expect("failed to get a first child of document");
    let body = window
        .node(head)
        .next_sibiling()
        .expect("failed to get a next sibling of head");
    assert_eq!(element("body"), kind_of(&window, body));

    let text = window
        .node(body)
        .first_child()
        .expect("failed to get a first child of document");
    assert_eq!(
        Node::new(NodeKind::Text("text".to_string())).kind(),
        kind_of(&window, text)
    );
}

#[test]
fn test_multiple_nodes() {
    let html = "<html><head></head><body><p><a foo=bar>text</a></p></body></html>".to_string();
    let t = HtmlTokenizer::new(html);
    let window = HtmlParser::new(t).construct_tree().expect("the page can be built");
    let document = window.document();

    let html = window
        .node(document)
        .first_child()
        .expect("failed to get a first child of document");
    let head = window
        .node(html)
        .first_child()
        .expect("failed to get a first child of document");
    let body = window
        .node(head)
        .next_sibiling()
        .expect("failed to get a next sibling of head");
    assert_eq!(element("body"), kind_of(&window, body));

    let p = window
        .node(body)
        .first_child()
        .expect("failed to get a first child of body");
    assert_eq!(element("p"), kind_of(&window, p));

    let mut attr = Attribute::new();
    attr.add_char('f', true);
    attr.add_char('o', true);
    attr.add_char('o', true);
    attr.add_char('b', false);
    attr.add_char('a', false);
    attr.add_char('r', false);
    let a = window
        .node(p)
        .first_child()
        .expect("failed to get a first child of p");
    assert_eq!(
        Node::new(NodeKind::Element(Element::new("a", vec![attr]))).kind(),
        kind_of(&window, a)
    );

    let text = window
        .node(a)
        .first_child()
        .expect("failed to get a first child of a");
    assert_eq!(
        Node::new(NodeKind::Text("text".to_string())).kind(),
        kind_of(&window, text)
    );
}

#[test]
fn test_html_should_be_parsed_when_newline_exists_betwenn_open_tag_and_close_tag() {
    let html = r#"<html><head>
</head><body></body></html>"#
        .to_string();

    let t = HtmlTokenizer::new(html);

    let window = HtmlParser::new(t).construct_tree().expect("the page can be built");
    let document = window.document();
    let html = window
        .node(document)
        .first_child()
        .expect("failed to get a first child of document");
    let head = window
        .node(html)
        .first_child()
        .expect("failed to get a first child of document");
    let body = window
        .node(head)
        .next_sibiling()
        .expect("failed to get a next sibling of head");

    assert!(window.node(body).first_child().is_none());
}

#[test]
fn links_of_the_tree_agree() {
    let window = parse("<html><head></head><body><p>one</p><p>two</p><h1>three</h1></body></html>");
    let html = window.node(0).first_child().expect("html");
    let head = window.node(html).first_child().expect("head");
    let body = window.node(head).next_sibiling().expect("body");
    assert_eq!(Some(body), window.node(html).last_child());
    assert_eq!(Some(head), window.node(body).previous_sibiling());
    assert_eq!(Some(html), window.node(body).parent());
    assert_eq!(None, window.node(0).parent());

    let first = window.node(body).first_child().expect("first p");
    let second = window.node(first).next_sibiling().expect("second p");
    let third = window.node(second).next_sibiling().expect("h1");
    assert_eq!(Some(third), window.node(body).last_child());
    assert_eq!(None, window.node(third).next_sibiling());
    assert_eq!(Some(second), window.node(third).previous_sibiling());
    assert_eq!(Some(first), window.node(second).previous_sibiling());
    assert_eq!(None, window.node(first).previous_sibiling());
    assert_eq!(Some(body), window.node(second).parent());
    assert_eq!(Some(ElementKind::H1), window.node(third).element_kind());
    let text = window.node(second).first_child().expect("text");
    assert_eq!(NodeKind::Text("two".to_string()), kind_of(&window, text));
    assert!(window.get(window.len()).is_none());
}

#[test]
fn missing_html_and_head_are_made_up() {
    let window = parse("<body>hi</body>");
    let head = window.node(0).first_child().expect("head");
    assert_eq!(Some(ElementKind::Head), window.node(head).element_kind());
    let body = window.node(head).next_sibiling().expect("body");
    assert_eq!(Some(ElementKind::Body), window.node(body).element_kind());
    let text = window.node(body).first_child().expect("text");
    assert_eq!(NodeKind::Text("hi".to_string()), kind_of(&window, text));
}

#[test]
fn missing_body_is_made_up() {
    let window = parse("<html><head></head><p>x</p></html>");
    let html = window.node(0).first_child().expect("html");
    let head = window.node(html).first_child().expect("head");
    let body = window.node(head).next_sibiling().expect("body");
    assert_eq!(Some(ElementKind::Body), window.node(body).element_kind());
    let p = window.node(body).first_child().expect("p");
    assert_eq!(Some(ElementKind::P), window.node(p).element_kind());
}

#[test]
fn characters_before_the_first_tag_are_dropped() {
    let window = parse("<!doctype html><html><head></head><body></body></html>");
    let html = window.node(0).first_child().expect("html");
    assert_eq!(Some(ElementKind::Html), window.node(html).element_kind());
    assert_eq!(None, window.node(html).next_sibiling());
}

#[test]
fn whitespace_between_elements_makes_no_text() {
    let window = parse("<html>\n<head>\n</head>\n<body>\n  <p> a b </p>\n</body>\n</html>\n");
    let html = window.node(0).first_child().expect("html");
    let head = window.node(html).first_child().expect("head");
    assert_eq!(None, window.node(head).first_child());
    let body = window.node(head).next_sibiling().expect("body");
    let p = window.node(body).first_child().expect("p");
    assert_eq!(Some(ElementKind::P), window.node(p).element_kind());
    assert_eq!(None, window.node(p).next_sibiling());
    let text = window.node(p).first_child().expect("text");
    assert_eq!(NodeKind::Text("a b ".to_string()), kind_of(&window, text));
}

#[test]
fn style_text_is_kept_as_written() {
    let window = parse("<html><head><style> p { color : red } </style></head><body></body></html>");
    let html = window.node(0).first_child().expect("html");
    let head = window.node(html).first_child().expect("head");
    let style = window.node(head).first_child().expect("style");
    assert_eq!(Some(ElementKind::Style), window.node(style).element_kind());
    let text = window.node(style).first_child().expect("text");
    assert_eq!(NodeKind::Text("p { color : red } ".to_string()), kind_of(&window, text));
    let body = window.node(head).next_sibiling().expect("body");
    assert_eq!(Some(ElementKind::Body), window.node(body).element_kind());
}

#[test]
fn unknown_tags_are_ignored() {
    let window = parse("<html><head></head><body><div><p>x</p></div><span></span></body></html>");
    let html = window.node(0).first_child().expect("html");
    let head = window.node(html).first_child().expect("head");
    let body = window.node(head).next_sibiling().expect("body");
    let p = window.node(body).first_child().expect("p");
    assert_eq!(Some(ElementKind::P), window.node(p).element_kind());
    assert_eq!(None, window.node(p).next_sibiling());
}

#[test]
fn markup_after_the_end_is_read_as_body() {
    let window = parse("<html><head></head><body><p>a</p></body></html><h2>late</h2>");
    let html = window.node(0).first_child().expect("html");
    let late = window.node(html).last_child().expect("h2");
    assert_eq!(Some(ElementKind::H2), window.node(late).element_kind());
    let text = window.node(late).first_child().expect("text");
    assert_eq!(NodeKind::Text("late".to_string()), kind_of(&window, text));
}

#[test]
fn end_tag_without_its_element_is_an_error() {
    let t = HtmlTokenizer::new("<html><head></head><body></p></body></html>".to_string());
    assert_eq!(
        Err(Error::ElementNotOpen(ElementKind::P)),
        HtmlParser::new(t).construct_tree().map(|w| w.len())
    );
    let t = HtmlTokenizer::new("<html><head><style>a</script>".to_string());
    assert_eq!(
        Err(Error::ElementNotOpen(ElementKind::Script)),
        HtmlParser::new(t).construct_tree().map(|w| w.len())
    );
    let t = HtmlTokenizer::new("<body></html>".to_string());
    assert_eq!(
        Err(Error::ElementNotOpen(ElementKind::Html)),
        HtmlParser::new(t).construct_tree().map(|w| w.len())
    );
}

#[test]
fn tokenizer_error_stops_the_builder() {
    let t = HtmlTokenizer::new("<html><head></head><body></ ></body></html>".to_string());
    assert_eq!(
        Err(Error::UnsupportedInput(' ')),
        HtmlParser::new(t).construct_tree().map(|w| w.len())
    );
}

#[test]
fn text_after_head_without_body() {
    let window = parse("<html><head></head>text");
    let html = window.node(0).first_child().expect("html");
    let head = window.node(html).first_child().expect("head");
    let body = window.node(head).next_sibiling().expect("body");
    assert_eq!(Some(ElementKind::Body), window.node(body).element_kind());
    let text = window.node(body).first_child().expect("text");
    assert_eq!(NodeKind::Text("text".to_string()), kind_of(&window, text));
}

#[test]
fn element_after_text_goes_under_the_open_text() {
    let window = parse("<html><head></head><body>ab<p></p></body></html>");
    let html = window.node(0).first_child().expect("html");
    let head = window.node(html).first_child().expect("head");
    let body = window.node(head).next_sibiling().expect("body");
    let text = window.node(body).first_child().expect("text");
    assert_eq!(NodeKind::Text("ab".to_string()), kind_of(&window, text));
    let p = window.node(text).first_child().expect("p");
    assert_eq!(Some(ElementKind::P), window.node(p).element_kind());
    assert_eq!(Some(text), window.node(p).parent());
}
