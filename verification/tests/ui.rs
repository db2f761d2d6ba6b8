use saba_core::error::Error;
use saba_core::renderer::layout::layout_object::LayoutPoint;
use saba_core::ui::{handle_key, locate_click, place_in_window, Click, InputMode, KeyAction};
use saba_core::url::Url;

#[test]
fn clicks_are_located() {
    // the window stands at (30, 50) and is 600 wide and 400 high
    assert_eq!(Click::Outside, locate_click((29, 100)));
    assert_eq!(Click::Outside, locate_click((630, 100)));
    assert_eq!(Click::Outside, locate_click((100, 49)));
    assert_eq!(Click::Outside, locate_click((100, 450)));
    assert_eq!(Click::Outside, locate_click((i64::MIN, i64::MAX)));
    // the toolbar lies from 24 to 50 below the top of the window
    assert_eq!(Click::Toolbar, locate_click((30, 74)));
    assert_eq!(Click::Toolbar, locate_click((629, 99)));
    assert_eq!(Click::Content(0, 0), locate_click((30, 100)));
    assert_eq!(Click::Content(599, 349), locate_click((629, 449)));
    // on the title bar: above the content area
    assert_eq!(Click::Content(5, -50), locate_click((35, 50)));
    assert_eq!(Click::Content(5, -27), locate_click((35, 73)));
}

#[test]
fn places_are_moved_below_the_toolbar() {
    assert_eq!((5, 31), place_in_window(LayoutPoint::new(0, 0)));
    assert_eq!((15, 51), place_in_window(LayoutPoint::new(10, 20)));
    assert_eq!((i64::MAX, i64::MAX), place_in_window(LayoutPoint::new(i64::MAX, i64::MAX - 3)));
}

#[test]
fn keys_edit_the_address() {
    let mut mode = InputMode::Normal;
    let mut address = "ab".to_string();
    assert_eq!(KeyAction::Ignore, handle_key(&mut mode, &mut address, Some('c')));
    assert_eq!(KeyAction::Ignore, handle_key(&mut mode, &mut address, Some('\n')));
    assert_eq!((InputMode::Normal, "ab"), (mode, address.as_str()));

    mode = InputMode::Editing;
    assert_eq!(KeyAction::Ignore, handle_key(&mut mode, &mut address, None));
    assert_eq!(KeyAction::Redraw, handle_key(&mut mode, &mut address, Some('c')));
    assert_eq!("abc", address);
    assert_eq!(KeyAction::Redraw, handle_key(&mut mode, &mut address, Some('\u{7f}')));
    assert_eq!(KeyAction::Redraw, handle_key(&mut mode, &mut address, Some('\u{8}')));
    assert_eq!("a", address);
    assert_eq!(KeyAction::Redraw, handle_key(&mut mode, &mut address, Some('\u{8}')));
    assert_eq!(KeyAction::Redraw, handle_key(&mut mode, &mut address, Some('\u{8}')));
    assert_eq!("", address);
    assert_eq!(InputMode::Editing, mode);
    assert_eq!(KeyAction::Redraw, handle_key(&mut mode, &mut address, Some('x')));
    assert_eq!(
        KeyAction::Navigate("x".to_string()),
        handle_key(&mut mode, &mut address, Some('\n'))
    );
    assert_eq!((InputMode::Normal, ""), (mode, address.as_str()));
}

#[test]
fn addresses_are_taken_apart() {
    let mut url = Url::new("http://example.com:8888/index.html?a=123&b=456".to_string());
    let parsed = url.parse().expect("an http address");
    assert_eq!("example.com", parsed.host());
    assert_eq!("8888", parsed.port());
    assert_eq!("index.html", parsed.path());
    assert_eq!("a=123&b=456", parsed.searchpart());
    assert_eq!(parsed, url);

    let parsed = Url::new("http://example.com".to_string()).parse().expect("an http address");
    assert_eq!(
        ("example.com", "80", "", ""),
        (
            parsed.host().as_str(),
            parsed.port().as_str(),
            parsed.path().as_str(),
            parsed.searchpart().as_str()
        )
    );

    let parsed = Url::new("http://h/a/b?c?d".to_string()).parse().expect("an http address");
    assert_eq!(
        ("h", "80", "a/b", "c?d"),
        (
            parsed.host().as_str(),
            parsed.port().as_str(),
            parsed.path().as_str(),
            parsed.searchpart().as_str()
        )
    );

    let parsed = Url::new("http://".to_string()).parse().expect("an http address");
    assert_eq!("", parsed.host());
    assert_eq!("80", parsed.port());

    let parsed = Url::new("http://h:1:2/p".to_string()).parse().expect("an http address");
    assert_eq!("1:2", parsed.port());
}

#[test]
fn other_schemes_are_refused() {
    let mut url = Url::new("https://example.com/".to_string());
    let before = url.clone();
    assert_eq!(Err(Error::UnexpectedInput), url.parse());
    assert_eq!(before, url);
    assert_eq!(Err(Error::UnexpectedInput), Url::new("http:/".to_string()).parse());
    assert_eq!(Err(Error::UnexpectedInput), Url::new("".to_string()).parse());
    assert_eq!(Err(Error::UnexpectedInput), Url::new("xhttp://a".to_string()).parse());
}
