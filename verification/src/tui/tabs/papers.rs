use vstd::prelude::*;

use crate::tui::tabs::news::{scroll_down_offset, scrolled_down};
use crate::utils::papers_model::PapersModel;
use crate::utils::sidebar::{next_index, next_selection, previous_index, previous_selection, Sidebar};
use std::collections::HashMap;

verus! {

/// The papers tab: the fetched papers, which of them are listed, and the reading position in
/// the selected paper's summary.
pub struct Papers {
    pub items: Vec<PapersModel>,
    /// Positions in `items` of the listed papers, in listing order.
    pub display_items: Vec<usize>,
    pub sidebar: Sidebar,
    pub scroll_offset: u16,
    /// The furthest scroll position of each listed paper that has been shown.
    pub max_scroll_offsets: HashMap<usize, u16>,
}

impl Papers {
    /// The listed positions all lie within `items`.
    pub open spec fn display_valid(&self) -> bool {
        forall|j: int| 0 <= j < self.display_items@.len() ==> #[trigger] self.display_items@[j] < self.items@.len()
    }

    /// The titles of the listed papers, in listing order.
    pub open spec fn listed_titles(&self) -> Seq<Seq<char>> {
        Seq::new(self.display_items@.len(), |j: int| self.items@[self.display_items@[j] as int].title@)
    }

    /// An empty tab.
    pub fn new() -> (r: Self)
        ensures
            r.items@.len() == 0,
            r.display_items@.len() == 0,
            r.sidebar.titles@.len() == 0,
            r.sidebar.state.selected is None,
            r.sidebar.focused,
            r.scroll_offset == 0,
            r.max_scroll_offsets@ == Map::<usize, u16>::empty(),
    {
        Self {
            items: Vec::new(),
            display_items: Vec::new(),
            sidebar: Sidebar::new(),
            scroll_offset: 0,
            max_scroll_offsets: HashMap::new(),
        }
    }

    /// Lists every paper, in order.
    pub fn reset_display_items(&mut self)
        ensures
            final(self).display_items@ == Seq::new(old(self).items@.len(), |i: int| i as usize),
            final(self).display_valid(),
            final(self).items == old(self).items,
            final(self).sidebar == old(self).sidebar,
            final(self).scroll_offset == old(self).scroll_offset,
            final(self).max_scroll_offsets == old(self).max_scroll_offsets,
    {
        let mut items_index: Vec<usize> = Vec::new();
        for i in 0..self.items.len()
            invariant
                items_index@ == Seq::new(i as nat, |k: int| k as usize),
        {
            items_index.push(i);
            assert(items_index@ =~= Seq::new((i + 1) as nat, |k: int| k as usize));
        }
        self.display_items = items_index;
    }

    /// Shows the titles of the listed papers in the sidebar.
    pub fn reload_sidebar(&mut self)
        requires
            old(self).display_valid(),
        ensures
            final(self).sidebar.titles.deep_view() == old(self).listed_titles(),
            final(self).sidebar.state == old(self).sidebar.state,
            final(self).sidebar.focused == old(self).sidebar.focused,
            final(self).items == old(self).items,
            final(self).display_items == old(self).display_items,
            final(self).scroll_offset == old(self).scroll_offset,
            final(self).max_scroll_offsets == old(self).max_scroll_offsets,
    {
        let mut titles: Vec<String> = Vec::new();
        for j in 0..self.display_items.len()
            invariant
                self.display_valid(),
                titles.deep_view() == self.listed_titles().take(j as int),
        {
            let i = self.display_items[j];
            titles.push(self.items[i].title.clone());
            assert(self.listed_titles().take(j + 1) == self.listed_titles().take(j as int).push(
                self.items@[i as int].title@,
            ));
        }
        assert(self.listed_titles().take(self.display_items@.len() as int) == self.listed_titles());
        self.sidebar.titles = titles;
    }

    /// Selects the next listed paper (wrapping around) and goes back to its top; does nothing
    /// when no paper is listed.
    pub fn next(&mut self)
        ensures
            old(self).display_items@.len() == 0 ==> *final(self) == *old(self),
            old(self).display_items@.len() > 0 ==> {
                &&& final(self).sidebar.state.selected == Some(next_selection(old(self).sidebar.state.selected, old(self).display_items@.len()) as usize)
                &&& final(self).scroll_offset == 0
            },
            final(self).sidebar.titles == old(self).sidebar.titles,
            final(self).sidebar.focused == old(self).sidebar.focused,
            final(self).items == old(self).items,
            final(self).display_items == old(self).display_items,
            final(self).max_scroll_offsets == old(self).max_scroll_offsets,
    {
        if self.display_items.len() == 0 {
            return;
        }
        let i = next_index(self.sidebar.state.selected, self.display_items.len());
        self.sidebar.state.select(Some(i));
        self.scroll_offset = 0;
    }

    /// Selects the previous listed paper (wrapping around) and goes back to its top; does
    /// nothing when no paper is listed.
    pub fn previous(&mut self)
        ensures
            old(self).display_items@.len() == 0 ==> *final(self) == *old(self),
            old(self).display_items@.len() > 0 ==> {
                &&& final(self).sidebar.state.selected == Some(previous_selection(old(self).sidebar.state.selected, old(self).display_items@.len()) as usize)
                &&& final(self).scroll_offset == 0
            },
            final(self).sidebar.titles == old(self).sidebar.titles,
            final(self).sidebar.focused == old(self).sidebar.focused,
            final(self).items == old(self).items,
            final(self).display_items == old(self).display_items,
            final(self).max_scroll_offsets == old(self).max_scroll_offsets,
    {
        if self.display_items.len() == 0 {
            return;
        }
        let i = previous_index(self.sidebar.state.selected, self.display_items.len());
        self.sidebar.state.select(Some(i));
        self.scroll_offset = 0;
    }

    /// Scrolls the selected paper down by one line, unless it is at its furthest position or
    /// has not been shown yet.
    pub fn scroll_down(&mut self)
        ensures
            final(self).scroll_offset == scrolled_down(old(self).sidebar.state.selected, old(self).max_scroll_offsets@, old(self).scroll_offset),
            final(self).sidebar == old(self).sidebar,
            final(self).items == old(self).items,
            final(self).display_items == old(self).display_items,
            final(self).max_scroll_offsets == old(self).max_scroll_offsets,
    {
        self.scroll_offset = scroll_down_offset(self.sidebar.state.selected, &self.max_scroll_offsets, self.scroll_offset);
    }

    /// Scrolls up by one line, stopping at the top.
    pub fn scroll_up(&mut self)
        ensures
            final(self).scroll_offset == (if old(self).scroll_offset == 0 { 0 } else { (old(self).scroll_offset - 1) as u16 }),
            final(self).sidebar == old(self).sidebar,
            final(self).items == old(self).items,
            final(self).display_items == old(self).display_items,
            final(self).max_scroll_offsets == old(self).max_scroll_offsets,
    {
        self.scroll_offset = self.scroll_offset.saturating_sub(1);
    }

    /// The link of the selected paper, when a listed paper is selected; `None` when the
    /// selection or the listing points past the papers.
    pub fn selected_link(&self) -> (r: Option<Option<String>>)
        ensures
            self.sidebar.state.selected is None ==> r == Some(None::<String>),
            self.sidebar.state.selected is Some ==> {
                let i = self.sidebar.state.selected.unwrap() as int;
                if i < self.display_items@.len() && self.display_items@[i] < self.items@.len() {
                    r is Some && r.unwrap() is Some && r.unwrap().unwrap()@ == self.items@[self.display_items@[i] as int].link@
                } else {
                    r is None
                }
            },
    {
        match self.sidebar.state.selected {
            None => Some(None),
            Some(i) => {
                if i < self.display_items.len() && self.display_items[i] < self.items.len() {
                    Some(Some(self.items[self.display_items[i]].link.clone()))
                } else {
                    None
                }
            },
        }
    }
}

} // verus!
