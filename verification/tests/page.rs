use saba_core::browser::Browser;
use saba_core::display_item::DisplayItem;
use saba_core::error::Error;
use saba_core::renderer::layout::computed_style::{
    Color, ComputedStyle, DisplayType, FontSize, TextDecoration,
};
use saba_core::renderer::layout::layout_object::{LayoutPoint, LayoutSize};
use saba_core::renderer::page::Page;
use saba_core::url::Url;

fn style(
    background_color: u32,
    color: u32,
    display: DisplayType,
    font_size: FontSize,
    text_decoration: TextDecoration,
) -> ComputedStyle {
    let mut s = ComputedStyle::new();
    s.set_background_color(Color { code: background_color });
    s.set_color(Color { code: color });
    s.set_display(display);
    s.font_size = Some(font_size);
    s.text_decoration = Some(text_decoration);
    s
}

#[test]
fn new_page_shows_nothing() {
    let page = Page::new();
    assert!(page.display_items().is_empty());
    assert_eq!(None, page.get_link_at((0, 0)));
}

#[test]
fn empty_response_has_no_box() {
    let mut page = Page::new();
    assert_eq!(Ok(()), page.receive_response("".to_string()));
    assert!(page.display_items().is_empty());
    assert_eq!(None, page.get_link_at((0, 0)));
}

#[test]
fn display_items_come_in_document_order() {
    let mut page = Page::new();
    let html = "<html><head><style>h1{color:#0000ff;background-color:yellow}</style></head><body><h1>ab</h1><p><a href=\"http://x/\">c</a></p></body></html>";
    assert_eq!(Ok(()), page.receive_response(html.to_string()));
    let plain = style(0xffffff, 0, DisplayType::Block, FontSize::Medium, TextDecoration::DecorationNone);
    let heading = style(
        0xffff00,
        0x0000ff,
        DisplayType::Block,
        FontSize::XXLarge,
        TextDecoration::DecorationNone,
    );
    let heading_text = style(
        0xffff00,
        0x0000ff,
        DisplayType::Inline,
        FontSize::XXLarge,
        TextDecoration::DecorationNone,
    );
    let link_text =
        style(0xffffff, 0, DisplayType::Inline, FontSize::Medium, TextDecoration::Underline);
    assert_eq!(
        vec![
            DisplayItem::Rect {
                style: plain,
                layout_point: LayoutPoint::new(0, 0),
                layout_size: LayoutSize::new(590, 80),
            },
            DisplayItem::Rect {
                style: heading,
                layout_point: LayoutPoint::new(0, 0),
                layout_size: LayoutSize::new(590, 60),
            },
            DisplayItem::Text {
                text: "ab".to_string(),
                style: heading_text,
                layout_point: LayoutPoint::new(0, 0),
            },
            DisplayItem::Rect {
                style: plain,
                layout_point: LayoutPoint::new(0, 60),
                layout_size: LayoutSize::new(590, 20),
            },
            DisplayItem::Text {
                text: "c".to_string(),
                style: link_text,
                layout_point: LayoutPoint::new(0, 60),
            },
        ],
        page.display_items()
    );
}

#[test]
fn long_text_is_drawn_line_by_line() {
    let mut page = Page::new();
    let html = format!(
        "<html><head></head><body><h2>{} {}</h2></body></html>",
        "a".repeat(30),
        "b".repeat(40)
    );
    assert_eq!(Ok(()), page.receive_response(html));
    let plain = style(0xffffff, 0, DisplayType::Block, FontSize::Medium, TextDecoration::DecorationNone);
    let heading =
        style(0xffffff, 0, DisplayType::Block, FontSize::XLarge, TextDecoration::DecorationNone);
    let text =
        style(0xffffff, 0, DisplayType::Inline, FontSize::XLarge, TextDecoration::DecorationNone);
    // 71 characters of width 16 are 1136 wide: two lines in the box, each 40 high;
    // 36 characters fit on a line
    assert_eq!(
        vec![
            DisplayItem::Rect {
                style: plain,
                layout_point: LayoutPoint::new(0, 0),
                layout_size: LayoutSize::new(590, 80),
            },
            DisplayItem::Rect {
                style: heading,
                layout_point: LayoutPoint::new(0, 0),
                layout_size: LayoutSize::new(590, 80),
            },
            DisplayItem::Text {
                text: "a".repeat(30),
                style: text,
                layout_point: LayoutPoint::new(0, 0),
            },
            DisplayItem::Text {
                text: "b".repeat(36),
                style: text,
                layout_point: LayoutPoint::new(0, 40),
            },
            DisplayItem::Text {
                text: "b".repeat(4),
                style: text,
                layout_point: LayoutPoint::new(0, 80),
            },
        ],
        page.display_items()
    );
}

#[test]
fn link_under_a_position() {
    let mut page = Page::new();
    let html = "<html><head></head><body><h1>ab</h1><p><a href=\"http://x/\">c</a></p><p><a>d</a></p></body></html>";
    assert_eq!(Ok(()), page.receive_response(html.to_string()));
    // the text "c" stands at (0, 60) and is 8 wide and 20 high
    assert_eq!(Some("http://x/".to_string()), page.get_link_at((1, 61)));
    assert_eq!(Some("http://x/".to_string()), page.get_link_at((8, 79)));
    // on the heading, whose text has no link around it
    assert_eq!(None, page.get_link_at((3, 10)));
    // beside the text, on the paragraph
    assert_eq!(None, page.get_link_at((9, 70)));
    // on a link without an address
    assert_eq!(None, page.get_link_at((0, 90)));
    // off the page
    assert_eq!(None, page.get_link_at((-1, 0)));
    assert_eq!(None, page.get_link_at((0, 101)));
}

#[test]
fn link_of_the_nearest_element_around() {
    let mut page = Page::new();
    let html = "<html><head></head><body><a href=u><p>x</p><a href=v>y</a><a>z</a></a></body></html>";
    assert_eq!(Ok(()), page.receive_response(html.to_string()));
    // "x" stands in a paragraph inside the link, at (0, 0)
    assert_eq!(Some("u".to_string()), page.get_link_at((3, 5)));
    // "y" stands in a link of its own inside the link, below the paragraph
    assert_eq!(Some("v".to_string()), page.get_link_at((3, 25)));
    // "z" stands in a link without an address, to the right of "y"
    assert_eq!(None, page.get_link_at((12, 25)));
}

#[test]
fn failed_response_leaves_the_page_as_it_was() {
    let mut page = Page::new();
    assert_eq!(
        Ok(()),
        page.receive_response("<html><head></head><body><p>a</p></body></html>".to_string())
    );
    let before = page.display_items();
    assert_eq!(3, before.len());
    assert_eq!(
        Err(Error::ElementNotOpen(saba_core::renderer::dom::node::ElementKind::H1)),
        page.receive_response("<html><head></head><body></h1></body></html>".to_string())
    );
    assert_eq!(before, page.display_items());
    assert_eq!(
        Err(Error::UnsupportedInput('*')),
        page.receive_response(
            "<html><head><style>* { color: red }</style></head><body>b</body></html>".to_string()
        )
    );
    assert_eq!(before, page.display_items());
    assert_eq!(
        Err(Error::UnsupportedInput('=')),
        page.receive_response("<html><head></head><body></=".to_string())
    );
    assert_eq!(before, page.display_items());
}

#[test]
fn new_response_replaces_the_old_page() {
    let mut page = Page::new();
    assert_eq!(
        Ok(()),
        page.receive_response("<html><head></head><body><p>a</p></body></html>".to_string())
    );
    assert_eq!(3, page.display_items().len());
    assert_eq!(
        Ok(()),
        page.receive_response(
            "<html><head><style>body{display:none}</style></head><body><p>a</p></body></html>"
                .to_string()
        )
    );
    assert!(page.display_items().is_empty());
    assert_eq!(
        Ok(()),
        page.receive_response("<html><head></head><body><p>a</p></body></html>".to_string())
    );
    assert_eq!(3, page.display_items().len());
    page.clear_display_items();
    assert!(page.display_items().is_empty());
}

#[test]
fn browser_has_one_page() {
    let mut browser = Browser::new();
    assert!(browser.current_page().display_items().is_empty());
    assert_eq!(
        Ok(()),
        browser
            .current_page_mut()
            .receive_response("<html><head></head><body>x</body></html>".to_string())
    );
    assert_eq!(2, browser.current_page().display_items().len());
}

#[test]
fn url_keeps_the_address() {
    let url = Url::new("http://example.com/".to_string());
    assert_eq!(url, url.clone());
    assert_ne!(url, Url::new("http://example.org/".to_string()));
}
