use vstd::prelude::*;

use crate::renderer::layout::computed_style::ComputedStyle;
use crate::renderer::layout::layout_object::{LayoutPoint, LayoutSize};

verus! {

/// One thing to draw.
#[derive(Debug, PartialEq, Eq)]
pub enum DisplayItem {
    Text { text: String, style: ComputedStyle, layout_point: LayoutPoint },
    Rect { style: ComputedStyle, layout_point: LayoutPoint, layout_size: LayoutSize },
}

/// What a [`DisplayItem`] holds.
pub enum DisplayItemView {
    Text { text: Seq<char>, style: ComputedStyle, layout_point: LayoutPoint },
    Rect { style: ComputedStyle, layout_point: LayoutPoint, layout_size: LayoutSize },
}

impl View for DisplayItem {
    type V = DisplayItemView;

    open spec fn view(&self) -> DisplayItemView {
        match self {
            DisplayItem::Text { text, style, layout_point } => DisplayItemView::Text {
                text: text@,
                style: *style,
                layout_point: *layout_point,
            },
            DisplayItem::Rect { style, layout_point, layout_size } => DisplayItemView::Rect {
                style: *style,
                layout_point: *layout_point,
                layout_size: *layout_size,
            },
        }
    }
}

impl Clone for DisplayItem {
    fn clone(&self) -> (res: Self)
        ensures
            res@ == self@,
    {
        match self {
            DisplayItem::Text { text, style, layout_point } => DisplayItem::Text {
                text: text.clone(),
                style: *style,
                layout_point: *layout_point,
            },
            DisplayItem::Rect { style, layout_point, layout_size } => DisplayItem::Rect {
                style: *style,
                layout_point: *layout_point,
                layout_size: *layout_size,
            },
        }
    }
}

/// The views of a sequence of display items, in the same order.
pub open spec fn items_view(items: Seq<DisplayItem>) -> Seq<DisplayItemView> {
    items.map_values(|i: DisplayItem| i@)
}

} // verus!
