use saba_core::error::Error;
use saba_core::renderer::html::attribute::Attribute;
use saba_core::renderer::html::token::{HtmlToken, HtmlTokenizer};

fn attribute(name: &str, value: &str) -> Attribute {
    let mut a = Attribute::new();
    for c in name.chars() {
        a.add_char(c, true);
    }
    for c in value.chars() {
        a.add_char(c, false);
    }
    a
}

fn start(tag: &str, self_closing: bool, attributes: Vec<Attribute>) -> HtmlToken {
    HtmlToken::StartTag { tag: tag.to_string(), self_closing, attributes }
}

fn end(tag: &str) -> HtmlToken {
    HtmlToken::EndTag { tag: tag.to_string() }
}

fn tokens(html: &str) -> Vec<HtmlToken> {
    let mut t = HtmlTokenizer::new(html.to_string());
    let mut all = Vec::new();
    while let Some(token) = t.next().expect("the page is supported") {
        all.push(token);
    }
    all
}

#[test]
fn empty_page_has_no_token() {
    let mut t = HtmlTokenizer::new("".to_string());
    assert_eq!(Ok(None), t.next());
    assert_eq!(Ok(None), t.next());
}

#[test]
fn start_and_end_tag() {
    assert_eq!(vec![start("body", false, Vec::new()), end("body")], tokens("<body></body>"));
}

#[test]
fn characters_come_one_at_a_time() {
    assert_eq!(
        vec![
            start("p", false, Vec::new()),
            HtmlToken::Char('a'),
            HtmlToken::Char(' '),
            HtmlToken::Char('\n'),
            HtmlToken::Char('b'),
            end("p"),
        ],
        tokens("<p>a \nb</p>")
    );
}

#[test]
fn attributes_in_every_form() {
    assert_eq!(
        vec![start(
            "p",
            false,
            vec![
                attribute("class", "A"),
                attribute("id", "B c"),
                attribute("foo", "bar"),
                attribute("checked", ""),
            ]
        )],
        tokens("<p class=\"A\" id='B c' foo=bar checked>")
    );
}

#[test]
fn names_are_lowered_and_values_are_not() {
    assert_eq!(
        vec![
            start("img", true, vec![attribute("src", "X.PNG")]),
            HtmlToken::Char('\n'),
            end("body"),
        ],
        tokens("<IMG SRC=X.PNG />\n</BODY>"),
    );
}

#[test]
fn whitespace_inside_a_tag_is_dropped() {
    assert_eq!(
        vec![start("a", false, vec![attribute("href", "u"), attribute("x", "")])],
        tokens("<a \n href = \"u\"\n  x  >")
    );
    assert_eq!(vec![start("br", true, Vec::new())], tokens("<br/>"));
}

#[test]
fn end_tag_drops_its_attributes() {
    assert_eq!(vec![end("p")], tokens("</p class=x>"));
}

#[test]
fn less_than_before_another_character_is_dropped() {
    assert_eq!(
        vec![HtmlToken::Char('1'), HtmlToken::Char(' '), HtmlToken::Char(' '), HtmlToken::Char('2')],
        tokens("1 < 2")
    );
    assert_eq!(vec![start("p", false, Vec::new())], tokens("<<p>"));
    assert_eq!(
        vec![HtmlToken::Char('!'), HtmlToken::Char('-'), HtmlToken::Char('>')],
        tokens("<!->")
    );
}

#[test]
fn input_that_ends_inside_a_tag_gives_eof() {
    let mut t = HtmlTokenizer::new("a<p class=".to_string());
    assert_eq!(Ok(Some(HtmlToken::Char('a'))), t.next());
    assert_eq!(Ok(Some(HtmlToken::Eof)), t.next());
    assert_eq!(Ok(None), t.next());
    let mut t = HtmlTokenizer::new("<".to_string());
    assert_eq!(Ok(Some(HtmlToken::Eof)), t.next());
    assert_eq!(Ok(None), t.next());
}

#[test]
fn character_that_cannot_follow_is_an_error() {
    let mut t = HtmlTokenizer::new("</3>x".to_string());
    assert_eq!(Err(Error::UnsupportedInput('3')), t.next());
    assert_eq!(Ok(Some(HtmlToken::Char('>'))), t.next());
    assert_eq!(Ok(Some(HtmlToken::Char('x'))), t.next());
    let mut t = HtmlTokenizer::new("<a/b>".to_string());
    assert_eq!(Err(Error::UnsupportedInput('b')), t.next());
    let mut t = HtmlTokenizer::new("</>".to_string());
    assert_eq!(Err(Error::UnsupportedInput('>')), t.next());
}

#[test]
fn token_can_be_copied() {
    let token = start("a", false, vec![attribute("href", "x")]);
    assert_eq!(token, token.clone());
    assert_eq!("href", attribute("href", "x").name());
    assert_eq!("x", attribute("href", "x").value());
    assert!(attribute("href", "x").is_named("href"));
    assert!(!attribute("href", "x").is_named("hre"));
}
