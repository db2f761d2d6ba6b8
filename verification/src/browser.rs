use vstd::prelude::*;

use crate::renderer::page::{Page, PageView};

verus! {

/// The pages that are open, and which of them is shown.
#[derive(Debug)]
pub struct Browser {
    active_page_index: usize,
    pages: Vec<Page>,
}

/// What a [`Browser`] holds.
pub struct BrowserView {
    pub active_page_index: usize,
    pub pages: Seq<PageView>,
}

impl BrowserView {
    /// What the page shown holds.
    pub open spec fn current(self) -> PageView {
        self.pages[self.active_page_index as int]
    }
}

impl View for Browser {
    type V = BrowserView;

    closed spec fn view(&self) -> BrowserView {
        BrowserView {
            active_page_index: self.active_page_index,
            pages: self.pages@.map_values(|p: Page| p@),
        }
    }
}

impl Browser {
    /// The page shown is among the pages, and every page is well formed.
    pub closed spec fn wf(&self) -> bool {
        &&& self.active_page_index < self.pages@.len()
        &&& forall|i: int| 0 <= i < self.pages@.len() ==> (#[trigger] self.pages@[i]).wf()
    }

    /// A browser with one page, which has received nothing.
    pub fn new() -> (b: Self)
        ensures
            b.wf(),
            b@ == (BrowserView { active_page_index: 0, pages: seq![PageView::blank()] }),
    {
        let mut pages: Vec<Page> = Vec::new();
        pages.push(Page::new());
        let b = Browser { active_page_index: 0, pages };
        assert(b@.pages =~= seq![PageView::blank()]);
        b
    }

    /// The page shown.
    pub fn current_page(&self) -> (p: &Page)
        requires
            self.wf(),
        ensures
            p.wf(),
            self@.active_page_index < self@.pages.len(),
            p@ == self@.current(),
    {
        &self.pages[self.active_page_index]
    }

    /// The page shown, to change it. The other pages stay as they are.
    pub fn current_page_mut(&mut self) -> (p: &mut Page)
        requires
            old(self).wf(),
        ensures
            p.wf(),
            old(self)@.active_page_index < old(self)@.pages.len(),
            p@ == old(self)@.current(),
            final(self)@ == (BrowserView {
                pages: old(self)@.pages.update(
                    old(self)@.active_page_index as int,
                    final(p)@,
                ),
                ..old(self)@
            }),
            final(p).wf() ==> final(self).wf(),
    {
        let ghost before = self@;
        let p = &mut self.pages[self.active_page_index];
        proof {
            assert(after_borrow(self)@.pages =~= before.pages.update(
                before.active_page_index as int,
                final(p)@,
            ));
        }
        p
    }
}

} // verus!
