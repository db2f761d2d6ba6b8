use saba_core::renderer::dom::api::{get_style_content, get_target_element_node};
use saba_core::renderer::dom::node::{Element, ElementKind, Node, NodeKind, Window};
use saba_core::renderer::html::attribute::Attribute;
use saba_core::renderer::html::parser::HtmlParser;
use saba_core::renderer::html::token::HtmlTokenizer;
use saba_core::text::{
    alphabetic, alphanumeric, chars_of, digit, digit_of, equals, lowercase, string_of, whitespace,
};

fn parse(html: &str) -> Window {
    let t = HtmlTokenizer::new(html.to_string());
    HtmlParser::new(t).construct_tree().expect("the page can be built")
}

#[test]
fn element_is_found_in_document_order() {
    let window = parse("<html><head></head><body><p>a</p><h1><p>b</p></h1><p>c</p></body></html>");
    let body = get_target_element_node(&window, Some(0), ElementKind::Body).expect("body");
    assert_eq!(Some(ElementKind::Body), window.node(body).element_kind());
    let first = get_target_element_node(&window, Some(0), ElementKind::P).expect("p");
    assert_eq!(window.node(body).first_child(), Some(first));
    // searched from the heading on, the paragraph inside it comes first
    let h1 = get_target_element_node(&window, Some(0), ElementKind::H1).expect("h1");
    let inner = get_target_element_node(&window, Some(h1), ElementKind::P).expect("inner p");
    assert_eq!(window.node(h1).first_child(), Some(inner));
    // searched from the paragraph inside the heading, the one after the heading is not
    // reached: it is neither below nor after that paragraph
    let text = window.node(inner).first_child().expect("text");
    assert_eq!(None, get_target_element_node(&window, Some(text), ElementKind::P));
    assert_eq!(None, get_target_element_node(&window, Some(0), ElementKind::A));
    assert_eq!(None, get_target_element_node(&window, None, ElementKind::Body));
    assert_eq!(None, get_target_element_node(&window, Some(window.len()), ElementKind::Body));
}

#[test]
fn style_content_is_the_text_of_the_first_style() {
    let window = parse("<html><head><style>p{color:red}</style><style>h1{}</style></head><body></body></html>");
    assert_eq!("p{color:red}", get_style_content(&window, window.document()));
    let window = parse("<html><head><style></style></head><body>x</body></html>");
    assert_eq!("", get_style_content(&window, window.document()));
    let window = parse("<html><head></head><body>x</body></html>");
    assert_eq!("", get_style_content(&window, window.document()));
    let window = Window::new();
    assert_eq!("", get_style_content(&window, window.document()));
}

#[test]
fn window_grows_by_appending() {
    let mut window = Window::new();
    assert_eq!(1, window.len());
    let a = window.append_child(0, NodeKind::Element(Element::new("html", Vec::new())));
    let b = window.append_child(a, NodeKind::Text("x".to_string()));
    let c = window.append_child(a, NodeKind::Element(Element::new("p", Vec::new())));
    window.append_char(b, 'y');
    assert_eq!((1, 2, 3), (a, b, c));
    assert_eq!(NodeKind::Text("xy".to_string()), window.node(b).kind());
    assert_eq!(Some(b), window.node(a).first_child());
    assert_eq!(Some(c), window.node(a).last_child());
    assert_eq!(Some(c), window.node(b).next_sibiling());
    assert_eq!(Some(b), window.node(c).previous_sibiling());
    assert_eq!(Some(a), window.node(c).parent());
    assert!(window.node(b).is_text());
    assert!(!window.node(c).is_text());
    assert_eq!(Some(Element::new("p", Vec::new())), window.node(c).get_element());
    assert_eq!(None, window.node(b).get_element());
    assert_eq!(None, window.node(0).element_kind());
}

#[test]
fn node_links_can_be_set() {
    let mut node = Node::new(NodeKind::Document);
    assert_eq!(None, node.parent());
    node.set_parent(Some(1));
    node.set_first_child(Some(2));
    node.set_last_child(Some(3));
    node.set_previous_sibiling(Some(4));
    node.set_next_sibiling(Some(5));
    assert_eq!(Some(1), node.parent());
    assert_eq!(Some(2), node.first_child());
    assert_eq!(Some(3), node.last_child());
    assert_eq!(Some(4), node.previous_sibiling());
    assert_eq!(Some(5), node.next_sibiling());
    assert_eq!(NodeKind::Document, node.clone().kind());
    assert_eq!(NodeKind::Document, *node.kind_ref());
    assert_eq!(NodeKind::Document, node.into_kind());
}

#[test]
fn element_kinds_and_names() {
    let all = [
        (ElementKind::Html, "html"),
        (ElementKind::Head, "head"),
        (ElementKind::Style, "style"),
        (ElementKind::Script, "script"),
        (ElementKind::Body, "body"),
        (ElementKind::P, "p"),
        (ElementKind::H1, "h1"),
        (ElementKind::H2, "h2"),
        (ElementKind::A, "a"),
    ];
    for (kind, name) in all {
        assert_eq!(Some(kind), ElementKind::from_str(name));
        assert_eq!(name, kind.to_string());
        assert_eq!(kind, Element::new(name, Vec::new()).kind());
    }
    assert_eq!(None, ElementKind::from_str("div"));
    assert_eq!(None, ElementKind::from_str("HTML"));
    assert_eq!(None, ElementKind::from_str(""));
}

#[test]
fn first_attribute_of_a_name() {
    let mut first = Attribute::new();
    first.add_char('i', true);
    first.add_char('d', true);
    first.add_char('1', false);
    let mut second = Attribute::new();
    second.add_char('i', true);
    second.add_char('d', true);
    second.add_char('2', false);
    let e = Element::new("a", vec![first.clone(), second]);
    assert_eq!(Some(first), e.get_attr("id"));
    assert_eq!(None, e.get_attr("i"));
    assert_eq!(2, e.attributes().len());
    assert!(!e.is_block_element());
    assert!(Element::new("p", Vec::new()).is_block_element());
}

#[test]
fn characters_and_strings() {
    assert!(alphabetic('a') && alphabetic('Z') && !alphabetic('1') && !alphabetic('['));
    assert!(digit('0') && digit('9') && !digit('a') && !digit('/'));
    assert!(alphanumeric('5') && alphanumeric('q') && !alphanumeric('_'));
    assert!(whitespace(' ') && whitespace('\n') && !whitespace('\t'));
    assert_eq!('a', lowercase('A'));
    assert_eq!('z', lowercase('Z'));
    assert_eq!('é', lowercase('é'));
    assert_eq!('1', lowercase('1'));
    assert_eq!(7, digit_of('7'));
    assert_eq!(vec!['h', 'é', '!'], chars_of("hé!"));
    assert_eq!("é!", string_of(&chars_of("hé!"), 1, 3));
    assert_eq!("", string_of(&chars_of("hé!"), 2, 2));
    assert!(equals("abc", "abc"));
    assert!(!equals("abc", "abd"));
    assert!(!equals("abc", "ab"));
}
