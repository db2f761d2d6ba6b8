//! The style of a box: what every property is resolved to.

use vstd::prelude::*;

use crate::error::Error;
use crate::renderer::dom::node::{ElementKind, NodeKind, NodeKindView};
use crate::text::{chars_of, equals};

verus! {

/// A colour: red, green and blue in the low 24 bits.
#[derive(Debug, Clone, Copy, PartialEq, Eq, Structural)]
pub struct Color {
    pub code: u32,
}

/// The colour that a name stands for.
pub open spec fn color_of_name(name: Seq<char>) -> Option<u32> {
    if name == "black"@ {
        Some(0x000000u32)
    } else if name == "silver"@ {
        Some(0xc0c0c0u32)
    } else if name == "gray"@ {
        Some(0x808080u32)
    } else if name == "white"@ {
        Some(0xffffffu32)
    } else if name == "maroon"@ {
        Some(0x800000u32)
    } else if name == "red"@ {
        Some(0xff0000u32)
    } else if name == "purple"@ {
        Some(0x800080u32)
    } else if name == "fuchsia"@ {
        Some(0xff00ffu32)
    } else if name == "green"@ {
        Some(0x008000u32)
    } else if name == "lime"@ {
        Some(0x00ff00u32)
    } else if name == "olive"@ {
        Some(0x808000u32)
    } else if name == "yellow"@ {
        Some(0xffff00u32)
    } else if name == "navy"@ {
        Some(0x000080u32)
    } else if name == "blue"@ {
        Some(0x0000ffu32)
    } else if name == "teal"@ {
        Some(0x008080u32)
    } else if name == "aqua"@ {
        Some(0x00ffffu32)
    } else if name == "orange"@ {
        Some(0xffa500u32)
    } else if name == "lightgray"@ {
        Some(0xd3d3d3u32)
    } else {
        None
    }
}

/// The value of a hexadecimal digit, for a character that is one.
pub open spec fn hex_digit(c: char) -> Option<nat> {
    if '0' <= c && c <= '9' {
        Some((c as u8 - '0' as u8) as nat)
    } else if 'a' <= c && c <= 'f' {
        Some((c as u8 - 'a' as u8 + 10) as nat)
    } else if 'A' <= c && c <= 'F' {
        Some((c as u8 - 'A' as u8 + 10) as nat)
    } else {
        None
    }
}

/// The number that a sequence of hexadecimal digits writes, where every
/// character is one.
pub open spec fn hex_value(digits: Seq<char>) -> Option<nat>
    decreases digits.len(),
{
    if digits.len() == 0 {
        Some(0)
    } else {
        match (hex_value(digits.drop_last()), hex_digit(digits.last())) {
            (Some(high), Some(low)) => Some(high * 16 + low),
            _ => None,
        }
    }
}

/// The colour that a code stands for: `#` and six hexadecimal digits.
pub open spec fn color_of_code(code: Seq<char>) -> Option<u32> {
    if code.len() == 7 && code[0] == '#' {
        match hex_value(code.subrange(1, 7)) {
            Some(value) => Some(value as u32),
            None => None,
        }
    } else {
        None
    }
}

fn hex_digit_of(c: char) -> (r: Option<u32>)
    ensures
        match r {
            Some(d) => hex_digit(c) == Some(d as nat) && d < 16,
            None => hex_digit(c) is None,
        },
{
    if '0' <= c && c <= '9' {
        Some((c as u8 - '0' as u8) as u32)
    } else if 'a' <= c && c <= 'f' {
        Some((c as u8 - 'a' as u8 + 10) as u32)
    } else if 'A' <= c && c <= 'F' {
        Some((c as u8 - 'A' as u8 + 10) as u32)
    } else {
        None
    }
}

impl Color {
    pub open spec fn spec_white() -> Color {
        Color { code: 0xffffffu32 }
    }

    pub open spec fn spec_black() -> Color {
        Color { code: 0x000000u32 }
    }

    /// The colour called `name`.
    pub fn from_name(name: &str) -> (r: Result<Color, Error>)
        ensures
            match r {
                Ok(color) => color_of_name(name@) == Some(color.code),
                Err(e) => e == Error::UnexpectedInput && color_of_name(name@) is None,
            },
    {
        let code: u32 = if equals(name, "black") {
            0x000000
        } else if equals(name, "silver") {
            0xc0c0c0
        } else if equals(name, "gray") {
            0x808080
        } else if equals(name, "white") {
            0xffffff
        } else if equals(name, "maroon") {
            0x800000
        } else if equals(name, "red") {
            0xff0000
        } else if equals(name, "purple") {
            0x800080
        } else if equals(name, "fuchsia") {
            0xff00ff
        } else if equals(name, "green") {
            0x008000
        } else if equals(name, "lime") {
            0x00ff00
        } else if equals(name, "olive") {
            0x808000
        } else if equals(name, "yellow") {
            0xffff00
        } else if equals(name, "navy") {
            0x000080
        } else if equals(name, "blue") {
            0x0000ff
        } else if equals(name, "teal") {
            0x008080
        } else if equals(name, "aqua") {
            0x00ffff
        } else if equals(name, "orange") {
            0xffa500
        } else if equals(name, "lightgray") {
            0xd3d3d3
        } else {
            return Err(Error::UnexpectedInput);
        };
        Ok(Color { code })
    }

    /// The colour written as `#` and six hexadecimal digits.
    pub fn from_code(code: &str) -> (r: Result<Color, Error>)
        ensures
            match r {
                Ok(color) => color_of_code(code@) == Some(color.code),
                Err(e) => e == Error::UnexpectedInput && color_of_code(code@) is None,
            },
    {
        let chars = chars_of(code);
        if chars.len() != 7 || chars[0] != '#' {
            return Err(Error::UnexpectedInput);
        }
        let ghost digits = chars@.subrange(1, 7);
        let ghost mut limit: int = 1;
        let mut value: u32 = 0;
        let mut i: usize = 1;
        assert(digits.subrange(0, 0) =~= Seq::<char>::empty());
        while i < 7
            invariant
                1 <= i <= 7,
                chars.len() == 7,
                digits == chars@.subrange(1, 7),
                hex_value(digits.subrange(0, i - 1)) == Some(value as nat),
                chars@ == code@,
                value < limit,
                (i == 1 && limit == 0x1) || (i == 2 && limit == 0x10) || (i == 3 && limit == 0x100)
                    || (i == 4 && limit == 0x1000) || (i == 5 && limit == 0x10000) || (i == 6
                    && limit == 0x100000) || (i == 7 && limit == 0x1000000),
            decreases 7 - i,
        {
            let ghost now = digits.subrange(0, i as int);
            proof {
                assert(now.drop_last() =~= digits.subrange(0, i - 1));
                assert(now.last() == chars@[i as int]);
            }
            match hex_digit_of(chars[i]) {
                Some(d) => {
                    value = value * 16 + d;
                    proof {
                        limit = limit * 16;
                    }
                },
                None => {
                    proof {
                        assert(hex_value(now) is None);
                        lemma_hex_rejects(digits, i as int);
                    }
                    return Err(Error::UnexpectedInput);
                },
            }
            i += 1;
        }
        assert(digits.subrange(0, 6) =~= digits);
        Ok(Color { code: value })
    }

    pub fn white() -> (c: Color)
        ensures
            c == Color::spec_white(),
    {
        Color { code: 0xffffff }
    }

    pub fn black() -> (c: Color)
        ensures
            c == Color::spec_black(),
    {
        Color { code: 0x000000 }
    }

    pub fn code_u32(&self) -> (code: u32)
        ensures
            code == self.code,
    {
        self.code
    }
}

/// A character that is no hexadecimal digit spoils every sequence that goes
/// beyond it.
pub proof fn lemma_hex_rejects(digits: Seq<char>, end: int)
    requires
        0 < end <= digits.len(),
        hex_value(digits.subrange(0, end)) is None,
    ensures
        hex_value(digits) is None,
    decreases digits.len() - end,
{
    if end < digits.len() {
        let longer = digits.subrange(0, end + 1);
        assert(longer.drop_last() =~= digits.subrange(0, end));
        lemma_hex_rejects(digits, end + 1);
    } else {
        assert(digits.subrange(0, end) =~= digits);
    }
}

#[derive(Debug, Clone, Copy, PartialEq, Eq, Structural)]
pub enum FontSize {
    Medium,
    XLarge,
    XXLarge,
}

impl FontSize {
    /// The size of the text of a node where no rule says otherwise.
    pub open spec fn spec_default(kind: NodeKindView) -> FontSize {
        match kind.element_kind() {
            Some(ElementKind::H1) => FontSize::XXLarge,
            Some(ElementKind::H2) => FontSize::XLarge,
            _ => FontSize::Medium,
        }
    }

    /// How many times larger than the medium size this size is.
    pub open spec fn ratio(self) -> int {
        match self {
            FontSize::Medium => 1,
            FontSize::XLarge => 2,
            FontSize::XXLarge => 3,
        }
    }

    pub fn default(node: &NodeKind) -> (r: FontSize)
        ensures
            r == FontSize::spec_default(node@),
    {
        match node {
            NodeKind::Element(element) => match element.kind() {
                ElementKind::H1 => FontSize::XXLarge,
                ElementKind::H2 => FontSize::XLarge,
                _ => FontSize::Medium,
            },
            _ => FontSize::Medium,
        }
    }
}

#[derive(Debug, Clone, Copy, PartialEq, Eq, Structural)]
pub enum DisplayType {
    Block,
    Inline,
    /// The node and what is below it are not shown.
    DisplayNone,
}

/// The display type that a keyword stands for.
pub open spec fn display_of(value: Seq<char>) -> Option<DisplayType> {
    if value == "block"@ {
        Some(DisplayType::Block)
    } else if value == "inline"@ {
        Some(DisplayType::Inline)
    } else if value == "none"@ {
        Some(DisplayType::DisplayNone)
    } else {
        None
    }
}

impl DisplayType {
    /// How a node is shown where no rule says otherwise.
    pub open spec fn spec_default(kind: NodeKindView) -> DisplayType {
        match kind {
            NodeKindView::Document => DisplayType::Block,
            NodeKindView::Element(e) => if e.kind.is_block() {
                DisplayType::Block
            } else {
                DisplayType::Inline
            },
            NodeKindView::Text(_) => DisplayType::Inline,
        }
    }

    pub fn try_from(value: &str) -> (r: Result<DisplayType, Error>)
        ensures
            match r {
                Ok(display) => display_of(value@) == Some(display),
                Err(e) => e == Error::UnexpectedInput && display_of(value@) is None,
            },
    {
        if equals(value, "block") {
            Ok(DisplayType::Block)
        } else if equals(value, "inline") {
            Ok(DisplayType::Inline)
        } else if equals(value, "none") {
            Ok(DisplayType::DisplayNone)
        } else {
            Err(Error::UnexpectedInput)
        }
    }

    pub fn default(node: &NodeKind) -> (r: DisplayType)
        ensures
            r == DisplayType::spec_default(node@),
    {
        match node {
            NodeKind::Document => DisplayType::Block,
            NodeKind::Element(e) => {
                if e.is_block_element() {
                    DisplayType::Block
                } else {
                    DisplayType::Inline
                }
            },
            NodeKind::Text(_) => DisplayType::Inline,
        }
    }
}

#[derive(Debug, Clone, Copy, PartialEq, Eq, Structural)]
pub enum TextDecoration {
    DecorationNone,
    Underline,
}

impl TextDecoration {
    /// How the text of a node is decorated where no rule says otherwise.
    pub open spec fn spec_default(kind: NodeKindView) -> TextDecoration {
        match kind.element_kind() {
            Some(ElementKind::A) => TextDecoration::Underline,
            _ => TextDecoration::DecorationNone,
        }
    }

    pub fn default(node: &NodeKind) -> (r: TextDecoration)
        ensures
            r == TextDecoration::spec_default(node@),
    {
        match node {
            NodeKind::Element(element) => match element.kind() {
                ElementKind::A => TextDecoration::Underline,
                _ => TextDecoration::DecorationNone,
            },
            _ => TextDecoration::DecorationNone,
        }
    }
}

/// The properties of a box. A property is unset until a rule or the defaults
/// have given it a value; in a finished box every one is set.
#[derive(Debug, Clone, Copy, PartialEq, Eq, Structural)]
pub struct ComputedStyle {
    pub background_color: Option<Color>,
    pub color: Option<Color>,
    pub display: Option<DisplayType>,
    pub font_size: Option<FontSize>,
    pub text_decoration: Option<TextDecoration>,
}

/// `own` where it is set; else what `parent` has, where that is set and is
/// not the initial value.
pub open spec fn inherited<T>(own: Option<T>, parent: Option<T>, initial: T) -> Option<T> {
    match own {
        Some(_) => own,
        None => match parent {
            Some(value) => if value != initial {
                parent
            } else {
                None
            },
            None => None,
        },
    }
}

/// `own` where it is set, else `initial`.
pub open spec fn or_initial<T>(own: Option<T>, initial: T) -> Option<T> {
    match own {
        Some(_) => own,
        None => Some(initial),
    }
}

impl ComputedStyle {
    /// The style with every property unset.
    pub open spec fn unset() -> ComputedStyle {
        ComputedStyle {
            background_color: None,
            color: None,
            display: None,
            font_size: None,
            text_decoration: None,
        }
    }

    /// Every property has a value.
    pub open spec fn is_resolved(self) -> bool {
        &&& self.background_color is Some
        &&& self.color is Some
        &&& self.display is Some
        &&& self.font_size is Some
        &&& self.text_decoration is Some
    }

    /// The style with every unset property filled in. Colours, font size and
    /// text decoration are taken from the parent where it has a value other
    /// than the initial one; what is then still unset gets its initial value,
    /// which for display, font size and text decoration depends on the node.
    /// Display is never inherited.
    pub open spec fn defaulted(self, node: NodeKindView, parent: Option<ComputedStyle>) -> ComputedStyle {
        let from_parent = match parent {
            Some(p) => ComputedStyle {
                background_color: inherited(
                    self.background_color,
                    p.background_color,
                    Color::spec_white(),
                ),
                color: inherited(self.color, p.color, Color::spec_black()),
                display: self.display,
                font_size: inherited(self.font_size, p.font_size, FontSize::Medium),
                text_decoration: inherited(
                    self.text_decoration,
                    p.text_decoration,
                    TextDecoration::DecorationNone,
                ),
            },
            None => self,
        };
        ComputedStyle {
            background_color: or_initial(from_parent.background_color, Color::spec_white()),
            color: or_initial(from_parent.color, Color::spec_black()),
            display: or_initial(from_parent.display, DisplayType::spec_default(node)),
            font_size: or_initial(from_parent.font_size, FontSize::spec_default(node)),
            text_decoration: or_initial(
                from_parent.text_decoration,
                TextDecoration::spec_default(node),
            ),
        }
    }

    pub fn new() -> (s: ComputedStyle)
        ensures
            s == ComputedStyle::unset(),
    {
        ComputedStyle {
            background_color: None,
            color: None,
            display: None,
            font_size: None,
            text_decoration: None,
        }
    }

    /// Fills in every unset property: see [`ComputedStyle::defaulted`].
    pub fn defaulting(&mut self, node: &NodeKind, parent_style: Option<ComputedStyle>)
        ensures
            *final(self) == old(self).defaulted(node@, parent_style),
            final(self).is_resolved(),
    {
        if let Some(parent) = parent_style {
            if self.background_color.is_none() {
                if let Some(c) = parent.background_color {
                    if c != Color::white() {
                        self.background_color = Some(c);
                    }
                }
            }
            if self.color.is_none() {
                if let Some(c) = parent.color {
                    if c != Color::black() {
                        self.color = Some(c);
                    }
                }
            }
            if self.font_size.is_none() {
                if let Some(f) = parent.font_size {
                    if f != FontSize::Medium {
                        self.font_size = Some(f);
                    }
                }
            }
            if self.text_decoration.is_none() {
                if let Some(t) = parent.text_decoration {
                    if t != TextDecoration::DecorationNone {
                        self.text_decoration = Some(t);
                    }
                }
            }
        }
        if self.background_color.is_none() {
            self.background_color = Some(Color::white());
        }
        if self.color.is_none() {
            self.color = Some(Color::black());
        }
        if self.display.is_none() {
            self.display = Some(DisplayType::default(node));
        }
        if self.font_size.is_none() {
            self.font_size = Some(FontSize::default(node));
        }
        if self.text_decoration.is_none() {
            self.text_decoration = Some(TextDecoration::default(node));
        }
    }

    pub fn set_background_color(&mut self, color: Color)
        ensures
            *final(self) == (ComputedStyle { background_color: Some(color), ..*old(self) }),
    {
        self.background_color = Some(color);
    }

    /// The background colour, which must be set.
    pub fn background_color(&self) -> (c: Color)
        requires
            self.background_color is Some,
        ensures
            Some(c) == self.background_color,
    {
        match self.background_color {
            Some(c) => c,
            None => Color::white(),
        }
    }

    pub fn set_color(&mut self, color: Color)
        ensures
            *final(self) == (ComputedStyle { color: Some(color), ..*old(self) }),
    {
        self.color = Some(color);
    }

    /// The colour of text, which must be set.
    pub fn color(&self) -> (c: Color)
        requires
            self.color is Some,
        ensures
            Some(c) == self.color,
    {
        match self.color {
            Some(c) => c,
            None => Color::black(),
        }
    }

    pub fn set_display(&mut self, display: DisplayType)
        ensures
            *final(self) == (ComputedStyle { display: Some(display), ..*old(self) }),
    {
        self.display = Some(display);
    }

    /// The display type, which must be set.
    pub fn display(&self) -> (d: DisplayType)
        requires
            self.display is Some,
        ensures
            Some(d) == self.display,
    {
        match self.display {
            Some(d) => d,
            None => DisplayType::DisplayNone,
        }
    }

    /// The font size, which must be set.
    pub fn font_size(&self) -> (f: FontSize)
        requires
            self.font_size is Some,
        ensures
            Some(f) == self.font_size,
    {
        match self.font_size {
            Some(f) => f,
            None => FontSize::Medium,
        }
    }

    /// The text decoration, which must be set.
    pub fn text_decoration(&self) -> (t: TextDecoration)
        requires
            self.text_decoration is Some,
        ensures
            Some(t) == self.text_decoration,
    {
        match self.text_decoration {
            Some(t) => t,
            None => TextDecoration::DecorationNone,
        }
    }
}

} // verus!
