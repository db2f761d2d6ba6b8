use saba_core::error::Error;
use saba_core::renderer::css::cssom::{
    consume_list_of_declarations, consume_list_of_rules, consume_selector, CssParser,
    Declaration, QualifiedRule, Selector, StyleSheet,
};
use saba_core::renderer::css::token::{CssToken, CssTokenizer, Decimal};

fn sheet(css: &str) -> StyleSheet {
    CssParser::new(CssTokenizer::new(css.to_string()))
        .parse_stylesheet()
        .expect("the style sheet can be read")
}

fn ident(s: &str) -> CssToken {
    CssToken::Ident(s.to_string())
}

fn declaration(property: &str, value: CssToken) -> Declaration {
    Declaration { property: property.to_string(), value }
}

fn rule(selector: Selector, declarations: Vec<Declaration>) -> QualifiedRule {
    QualifiedRule { selector, declarations }
}

#[test]
fn empty_sheet_has_no_rule() {
    assert_eq!(StyleSheet { rules: Vec::new() }, sheet(""));
    assert_eq!(StyleSheet { rules: Vec::new() }, sheet("  \n "));
}

#[test]
fn one_rule_by_type() {
    assert_eq!(
        StyleSheet {
            rules: vec![rule(
                Selector::TypeSelector("p".to_string()),
                vec![declaration("color", ident("red"))]
            )]
        },
        sheet("p { color: red; }")
    );
}

#[test]
fn selectors_by_id_and_class() {
    assert_eq!(
        StyleSheet {
            rules: vec![
                rule(
                    Selector::IdSelector("id".to_string()),
                    vec![declaration("color", ident("red"))]
                ),
                rule(
                    Selector::ClassSelector("class".to_string()),
                    vec![declaration("color", CssToken::HashToken("#00ff00".to_string()))]
                ),
            ]
        },
        sheet("#id { color: red; } .class { color: #00ff00 }")
    );
}

#[test]
fn rules_keep_their_order_and_their_declarations() {
    assert_eq!(
        StyleSheet {
            rules: vec![
                rule(
                    Selector::TypeSelector("p".to_string()),
                    vec![declaration("content", CssToken::StringToken("Hey".to_string()))]
                ),
                rule(
                    Selector::TypeSelector("h1".to_string()),
                    vec![
                        declaration(
                            "font-size",
                            CssToken::Number(Decimal {
                                integer: "40".to_string(),
                                fraction: "".to_string()
                            })
                        ),
                        declaration("color", ident("blue")),
                    ]
                ),
            ]
        },
        sheet("p { content: \"Hey\"; } h1 { font-size: 40; color: blue; }")
    );
}

#[test]
fn unknown_selectors_are_kept_and_select_nothing() {
    assert_eq!(
        StyleSheet {
            rules: vec![
                rule(Selector::UnknownSelector, vec![declaration("color", ident("red"))]),
                rule(Selector::UnknownSelector, Vec::new()),
                rule(Selector::UnknownSelector, vec![declaration("a", ident("b"))]),
                rule(Selector::TypeSelector("a".to_string()), Vec::new()),
            ]
        },
        sheet("@media (x) { color: red } . { } { a: b } a:hover { }")
    );
}

#[test]
fn what_is_no_declaration_is_read_over() {
    assert_eq!(
        StyleSheet {
            rules: vec![rule(
                Selector::TypeSelector("p".to_string()),
                vec![declaration("display", ident("block")), declaration("color", ident("red"))]
            )]
        },
        sheet("p { ; color ; display: block; 12 : x ; width: ; color: red")
    );
}

#[test]
fn rule_without_a_block_ends_the_sheet() {
    assert_eq!(
        StyleSheet { rules: vec![rule(Selector::TypeSelector("p".to_string()), Vec::new())] },
        sheet("p { } h1 h2")
    );
}

#[test]
fn tokenizer_error_is_the_result() {
    let mut parser = CssParser::new(CssTokenizer::new("p { color: red; } a > b { }".to_string()));
    assert_eq!(Err(Error::UnsupportedInput('>')), parser.parse_stylesheet());
}

#[test]
fn parts_of_the_parser() {
    let tokens = vec![
        CssToken::Delim('.'),
        ident("a"),
        CssToken::OpenCurly,
        ident("color"),
        CssToken::Colon,
        ident("red"),
        CssToken::CloseCurly,
        CssToken::HashToken("#b".to_string()),
    ];
    assert_eq!((Selector::ClassSelector("a".to_string()), 2), consume_selector(&tokens, 0));
    assert_eq!((Selector::TypeSelector("a".to_string()), 2), consume_selector(&tokens, 1));
    assert_eq!((Selector::UnknownSelector, 5), consume_selector(&tokens, 4));
    assert_eq!((Selector::IdSelector("b".to_string()), 8), consume_selector(&tokens, 7));
    assert_eq!(
        (vec![declaration("color", ident("red"))], 7),
        consume_list_of_declarations(&tokens, 3)
    );
    assert_eq!((Vec::new(), 8), consume_list_of_declarations(&tokens, 8));
    assert_eq!(
        vec![rule(
            Selector::ClassSelector("a".to_string()),
            vec![declaration("color", ident("red"))]
        )],
        consume_list_of_rules(&tokens)
    );
    let copy = sheet("p{color:red}").clone();
    assert_eq!(sheet("p{color:red}"), copy);
}
