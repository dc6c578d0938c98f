use vstd::prelude::*;

use crate::tui::tabs::news::News;
use crate::tui::tabs::papers::Papers;

verus! {

/// Which half of the screen keys act on: the list on the left or the reading pane on the right.
#[derive(PartialEq, Eq, Structural, Clone, Copy)]
pub enum Focused {
    Left,
    Right,
}

/// The input mode: normal commands, typing a search, or selecting text.
#[derive(PartialEq, Eq, Structural, Clone, Copy)]
pub enum Mode {
    Normal,
    Insert,
    Visual,
}

/// The tab being shown.
#[derive(PartialEq, Eq, Structural, Clone, Copy)]
pub enum Tab {
    News,
    Papers,
    Custom,
}

/// The state of the application: focus, mode, tab, and the news and papers tabs.
pub struct App {
    pub focused: Focused,
    pub mode: Mode,
    pub tab: Tab,
    pub news_app: News,
    pub papers_app: Papers,
}

impl App {
    /// The starting state: focus on the list, normal mode, the news tab, both tabs empty.
    pub fn new() -> (r: Self)
        ensures
            r.focused == Focused::Left,
            r.mode == Mode::Normal,
            r.tab == Tab::News,
            r.news_app.wf(),
            r.news_app.current_source.source_index() == 0,
            r.news_app.current_source.category_index() == 0,
            forall|k: nat| k < 3 ==> (#[trigger] r.news_app.source_at(k)).position() == 0
                && r.news_app.source_at(k).source_variant.category_index() == 0
                && !r.news_app.source_at(k).source_variant.is_loaded(),
            r.news_app.items@.len() == 0,
            r.news_app.display_items@.len() == 0,
            r.news_app.sidebar.titles@.len() == 0,
            r.news_app.sidebar.state.selected is None,
            r.news_app.sidebar.focused,
            r.news_app.scroll_offset == 0,
            r.news_app.max_scroll_offsets@ == Map::<usize, u16>::empty(),
            r.papers_app.items@.len() == 0,
            r.papers_app.display_items@.len() == 0,
            r.papers_app.sidebar.titles@.len() == 0,
            r.papers_app.sidebar.state.selected is None,
            r.papers_app.sidebar.focused,
            r.papers_app.scroll_offset == 0,
            r.papers_app.max_scroll_offsets@ == Map::<usize, u16>::empty(),
    {
        Self {
            focused: Focused::Left,
            mode: Mode::Normal,
            tab: Tab::News,
            news_app: News::new(),
            papers_app: Papers::new(),
        }
    }
}

} // verus!
