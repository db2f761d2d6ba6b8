//! What the window around a page decides: where a click went and what a key
//! does to the address being typed. Drawing and reading events are not done
//! here.

use vstd::prelude::*;

use crate::constants::{
    TITLE_BAR_HEIGHT, TOOLBAR_HEIGHT, WINDOW_HEIGHT, WINDOW_INIT_X_POS, WINDOW_INIT_Y_POS,
    WINDOW_PADDING, WINDOW_WIDTH,
};
use crate::renderer::layout::layout_object::{clamp, clamped_sum, LayoutPoint};
use crate::text::{chars_of, push_char, string_of};

verus! {

/// Whether keys go to the address bar.
#[derive(Debug, Clone, Copy, PartialEq, Eq, Structural)]
pub enum InputMode {
    Normal,
    Editing,
}

/// Where a click went.
#[derive(Debug, Clone, Copy, PartialEq, Eq, Structural)]
pub enum Click {
    /// Beside the window.
    Outside,
    /// On the toolbar, where the address is typed.
    Toolbar,
    /// On the window and not on its toolbar, at this place counted from the
    /// corner of the content area.
    Content(i64, i64),
}

/// Where a click at `(x, y)` on the screen went.
pub open spec fn click_at(x: int, y: int) -> Click {
    let left = x - WINDOW_INIT_X_POS;
    let top = y - WINDOW_INIT_Y_POS;
    if !(0 <= left < WINDOW_WIDTH && 0 <= top < WINDOW_HEIGHT) {
        Click::Outside
    } else if TITLE_BAR_HEIGHT <= top < TOOLBAR_HEIGHT + TITLE_BAR_HEIGHT {
        Click::Toolbar
    } else {
        Click::Content(left as i64, (top - TITLE_BAR_HEIGHT - TOOLBAR_HEIGHT) as i64)
    }
}

/// Where a click at `position` on the screen went: see [`click_at`].
pub fn locate_click(position: (i64, i64)) -> (c: Click)
    ensures
        c == click_at(position.0 as int, position.1 as int),
{
    let left: i128 = position.0 as i128 - WINDOW_INIT_X_POS as i128;
    let top: i128 = position.1 as i128 - WINDOW_INIT_Y_POS as i128;
    if !(0 <= left && left < WINDOW_WIDTH as i128 && 0 <= top && top < WINDOW_HEIGHT as i128) {
        Click::Outside
    } else if TITLE_BAR_HEIGHT as i128 <= top && top < (TOOLBAR_HEIGHT + TITLE_BAR_HEIGHT) as i128 {
        Click::Toolbar
    } else {
        Click::Content(left as i64, (top - TITLE_BAR_HEIGHT as i128 - TOOLBAR_HEIGHT as i128) as i64)
    }
}

/// Where a place of the page is drawn in the window: below the toolbar,
/// inside the padding.
pub open spec fn window_point(point: LayoutPoint) -> (i64, i64) {
    (clamp(point.0 + WINDOW_PADDING), clamp(point.1 + (WINDOW_PADDING + TOOLBAR_HEIGHT)))
}

/// Where a place of the page is drawn in the window: see [`window_point`].
pub fn place_in_window(point: LayoutPoint) -> (r: (i64, i64))
    ensures
        r == window_point(point),
{
    (clamped_sum(point.x(), WINDOW_PADDING), clamped_sum(point.y(), WINDOW_PADDING + TOOLBAR_HEIGHT))
}

/// What the window has to do after a key.
#[derive(Debug, PartialEq, Eq)]
pub enum KeyAction {
    /// Nothing.
    Ignore,
    /// Show the address again.
    Redraw,
    /// Go to this address.
    Navigate(String),
}

/// What a [`KeyAction`] holds.
pub enum KeyActionView {
    Ignore,
    Redraw,
    Navigate(Seq<char>),
}

impl View for KeyAction {
    type V = KeyActionView;

    open spec fn view(&self) -> KeyActionView {
        match self {
            KeyAction::Ignore => KeyActionView::Ignore,
            KeyAction::Redraw => KeyActionView::Redraw,
            KeyAction::Navigate(url) => KeyActionView::Navigate(url@),
        }
    }
}

pub open spec fn is_enter(key: char) -> bool {
    key == '\n'
}

pub open spec fn is_delete(key: char) -> bool {
    key == '\u{7f}' || key == '\u{8}'
}

/// The mode, the address typed and the action after a key. Keys are read
/// while an address is being edited: enter goes to it and ends the editing,
/// delete and backspace take its last character away, any other key is added
/// to it.
pub open spec fn after_key(mode: InputMode, address: Seq<char>, key: Option<char>) -> (
    InputMode,
    Seq<char>,
    KeyActionView,
) {
    match (mode, key) {
        (InputMode::Editing, Some(c)) => if is_enter(c) {
            (InputMode::Normal, Seq::empty(), KeyActionView::Navigate(address))
        } else if is_delete(c) {
            (
                mode,
                if address.len() > 0 {
                    address.drop_last()
                } else {
                    address
                },
                KeyActionView::Redraw,
            )
        } else {
            (mode, address.push(c), KeyActionView::Redraw)
        },
        _ => (mode, address, KeyActionView::Ignore),
    }
}

/// Takes a key in: see [`after_key`].
pub fn handle_key(mode: &mut InputMode, input_url: &mut String, key: Option<char>) -> (action:
    KeyAction)
    ensures
        (*final(mode), final(input_url)@, action@) == after_key(*old(mode), old(input_url)@, key),
{
    let c = match (*mode, key) {
        (InputMode::Editing, Some(c)) => c,
        _ => {
            return KeyAction::Ignore;
        },
    };
    if c == '\n' {
        let mut address = String::new();
        core::mem::swap(input_url, &mut address);
        *mode = InputMode::Normal;
        KeyAction::Navigate(address)
    } else if c == '\u{7f}' || c == '\u{8}' {
        let chars = chars_of(input_url.as_str());
        if chars.len() > 0 {
            *input_url = string_of(&chars, 0, chars.len() - 1);
        }
        KeyAction::Redraw
    } else {
        push_char(input_url, c);
        KeyAction::Redraw
    }
}

} // verus!
