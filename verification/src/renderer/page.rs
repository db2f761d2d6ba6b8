//! A page: the DOM of the last response, its style sheet, its boxes and what
//! is drawn for them.

use vstd::prelude::*;

use crate::display_item::{items_view, DisplayItem, DisplayItemView};
use crate::error::Error;
use crate::renderer::css::cssom::{stylesheet, CssParser, RuleView, StyleSheet};
use crate::renderer::css::token::CssTokenizer;
use crate::renderer::dom::api::{get_style_content, style_content};
use crate::renderer::dom::node::{NodeView, Window};
use crate::renderer::html::parser::{parse, HtmlParser};
use crate::renderer::html::token::HtmlTokenizer;
use crate::renderer::layout::layout_object::BoxView;
use crate::renderer::layout::layout_view::{layout_of, link_at, paint_list, LayoutView};

verus! {

/// What a [`Page`] holds.
pub struct PageView {
    pub frame: Option<Seq<NodeView>>,
    pub style: Option<Seq<RuleView>>,
    pub layout_view: Option<Option<Box<BoxView>>>,
    pub display_items: Seq<DisplayItemView>,
}

impl PageView {
    /// A page that has received nothing.
    pub open spec fn blank() -> PageView {
        PageView { frame: None, style: None, layout_view: None, display_items: Seq::empty() }
    }
}

/// The DOM of a response and the style sheet written in its first `style`
/// element; or the first error of the HTML tokenizer, the tree builder or
/// the CSS tokenizer.
pub open spec fn frame_of(html: Seq<char>) -> Result<(Seq<NodeView>, Seq<RuleView>), Error> {
    match parse(html) {
        Ok(nodes) => match stylesheet(style_content(nodes, 0), 0) {
            Ok(rules) => Ok((nodes, rules)),
            Err(e) => Err(e),
        },
        Err(e) => Err(e),
    }
}

/// The page that a response makes: its DOM, its style sheet, its boxes, and
/// what is drawn for them.
pub open spec fn page_of(html: Seq<char>) -> Result<PageView, Error> {
    match frame_of(html) {
        Ok((nodes, rules)) => Ok(
            PageView {
                frame: Some(nodes),
                style: Some(rules),
                layout_view: Some(layout_of(nodes, 0, rules)),
                display_items: paint_list(layout_of(nodes, 0, rules)),
            },
        ),
        Err(e) => Err(e),
    }
}

#[derive(Debug)]
pub struct Page {
    frame: Option<Window>,
    style: Option<StyleSheet>,
    layout_view: Option<LayoutView>,
    display_items: Vec<DisplayItem>,
}

impl View for Page {
    type V = PageView;

    closed spec fn view(&self) -> PageView {
        PageView {
            frame: match self.frame {
                Some(w) => Some(w@),
                None => None,
            },
            style: match self.style {
                Some(s) => Some(s@),
                None => None,
            },
            layout_view: match self.layout_view {
                Some(v) => Some(v@),
                None => None,
            },
            display_items: items_view(self.display_items@),
        }
    }
}

impl Page {
    /// The DOM of the page, where it has one, is a tree.
    pub closed spec fn wf(&self) -> bool {
        match self.frame {
            Some(w) => w.wf(),
            None => true,
        }
    }

    /// A page that has received nothing.
    pub fn new() -> (p: Self)
        ensures
            p.wf(),
            p@ == PageView::blank(),
    {
        let p = Page { frame: None, style: None, layout_view: None, display_items: Vec::new() };
        assert(p@.display_items =~= Seq::empty());
        p
    }

    /// Takes in the body of a response: the page becomes what the response
    /// makes, see [`page_of`]. Where the response cannot be read the page
    /// stays as it was.
    pub fn receive_response(&mut self, body: String) -> (r: Result<(), Error>)
        requires
            old(self).wf(),
        ensures
            final(self).wf(),
            match r {
                Ok(_) => page_of(body@) == Ok::<PageView, Error>(final(self)@),
                Err(e) => page_of(body@) == Err::<PageView, Error>(e) && final(self)@ == old(
                    self,
                )@,
            },
    {
        match self.create_frame(body) {
            Ok(_) => {
                self.set_layout_view();
                self.paint_tree();
                Ok(())
            },
            Err(e) => Err(e),
        }
    }

    /// Reads the DOM and the style sheet of a response: see [`frame_of`].
    fn create_frame(&mut self, html: String) -> (r: Result<(), Error>)
        requires
            old(self).wf(),
        ensures
            final(self).wf(),
            match r {
                Ok(_) => match frame_of(html@) {
                    Ok((nodes, rules)) => final(self)@ == (PageView {
                        frame: Some(nodes),
                        style: Some(rules),
                        ..old(self)@
                    }),
                    Err(_) => false,
                },
                Err(e) => frame_of(html@) == Err::<(Seq<NodeView>, Seq<RuleView>), Error>(e)
                    && final(self)@ == old(self)@,
            },
    {
        let html_tokenizer = HtmlTokenizer::new(html);
        let frame = match HtmlParser::new(html_tokenizer).construct_tree() {
            Ok(frame) => frame,
            Err(e) => {
                return Err(e);
            },
        };
        let style = get_style_content(&frame, frame.document());
        let css_tokenizer = CssTokenizer::new(style);
        let cssom = match CssParser::new(css_tokenizer).parse_stylesheet() {
            Ok(cssom) => cssom,
            Err(e) => {
                return Err(e);
            },
        };
        self.frame = Some(frame);
        self.style = Some(cssom);
        Ok(())
    }

    /// Builds the boxes of the DOM under the style sheet, where the page has
    /// both.
    fn set_layout_view(&mut self)
        requires
            old(self).wf(),
        ensures
            final(self).wf(),
            final(self)@ == match (old(self)@.frame, old(self)@.style) {
                (Some(nodes), Some(rules)) => PageView {
                    layout_view: Some(layout_of(nodes, 0, rules)),
                    ..old(self)@
                },
                _ => old(self)@,
            },
    {
        let layout_view = match (&self.frame, &self.style) {
            (Some(frame), Some(style)) => LayoutView::new(frame, frame.document(), style),
            _ => {
                return ;
            },
        };
        self.layout_view = Some(layout_view);
    }

    /// Lists what is drawn for the boxes, where the page has boxes.
    fn paint_tree(&mut self)
        requires
            old(self).wf(),
        ensures
            final(self).wf(),
            final(self)@ == match old(self)@.layout_view {
                Some(layout) => PageView { display_items: paint_list(layout), ..old(self)@ },
                None => old(self)@,
            },
    {
        if let Some(layout_view) = &self.layout_view {
            self.display_items = layout_view.paint();
        }
    }

    /// The address that the link at `position` leads to: see [`link_at`].
    pub fn get_link_at(&self, position: (i64, i64)) -> (r: Option<String>)
        ensures
            match self@.layout_view {
                Some(layout) => match r {
                    Some(link) => link_at(layout, position) == Some(link@),
                    None => link_at(layout, position) is None,
                },
                None => r is None,
            },
    {
        match &self.layout_view {
            Some(view) => view.find_link_by_position(position),
            None => None,
        }
    }

    /// What is drawn for the page, in the order of drawing.
    pub fn display_items(&self) -> (items: Vec<DisplayItem>)
        ensures
            items_view(items@) == self@.display_items,
    {
        let mut items: Vec<DisplayItem> = Vec::new();
        let mut i: usize = 0;
        while i < self.display_items.len()
            invariant
                i <= self.display_items.len(),
                items@.len() == i,
                forall|j: int| 0 <= j < i ==> items@[j]@ == self.display_items@[j]@,
            decreases self.display_items.len() - i,
        {
            items.push(self.display_items[i].clone());
            i += 1;
        }
        assert(items_view(items@) =~= items_view(self.display_items@));
        items
    }

    /// Forgets what is drawn for the page.
    pub fn clear_display_items(&mut self)
        requires
            old(self).wf(),
        ensures
            final(self).wf(),
            final(self)@ == (PageView { display_items: Seq::empty(), ..old(self)@ }),
    {
        self.display_items = Vec::new();
        assert(items_view(self.display_items@) =~= Seq::empty());
    }
}

} // verus!
