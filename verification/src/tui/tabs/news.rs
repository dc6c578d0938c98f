use vstd::prelude::*;

use crate::services::businesstimes::NewsCategoryBT;
use crate::services::cna::NewsCategoryCNA;
use crate::services::straitstimes::NewsCategoryST;
use crate::utils::article::{articles_view, clone_articles, Article};
use crate::utils::sidebar::{next_index, next_selection, previous_index, previous_selection, Sidebar};
use crate::utils::fuzzy::{all_scored, is_ranking, rank_titles};
use std::collections::HashMap;

verus! {

/// One of the three news services.
#[derive(PartialEq, Eq, Structural, Clone, Copy)]
pub enum SourceId {
    CNA,
    StraitsTimes,
    BusinessTimes,
}

impl SourceId {
    /// The position of the service: CNA, then The Straits Times, then The Business Times.
    pub open spec fn index(self) -> nat {
        match self {
            SourceId::CNA => 0,
            SourceId::StraitsTimes => 1,
            SourceId::BusinessTimes => 2,
        }
    }

    /// The name under which the service is stored.
    pub fn name(&self) -> (r: String)
        ensures
            r@ == source_name_of(self.index()),
    {
        match self {
            SourceId::CNA => String::from_str("CNA"),
            SourceId::StraitsTimes => String::from_str("StraitsTimes"),
            SourceId::BusinessTimes => String::from_str("BusinessTimes"),
        }
    }

    /// The service stored under a name; `None` for a name no service has.
    pub fn from_name(name: &String) -> (r: Option<SourceId>)
        ensures
            match r {
                Some(s) => name@ == source_name_of(s.index()),
                None => forall|i: nat| i < 3 ==> name@ != source_name_of(i),
            },
    {
        let cna = SourceId::CNA.name();
        let st = SourceId::StraitsTimes.name();
        let bt = SourceId::BusinessTimes.name();
        if *name == cna {
            Some(SourceId::CNA)
        } else if *name == st {
            Some(SourceId::StraitsTimes)
        } else if *name == bt {
            Some(SourceId::BusinessTimes)
        } else {
            assert forall|i: nat| i < 3 implies name@ != source_name_of(i) by {
                if i == 0 {
                    assert(cna@ == source_name_of(0));
                } else if i == 1 {
                    assert(st@ == source_name_of(1));
                } else {
                    assert(bt@ == source_name_of(2));
                }
            }
            None
        }
    }
}

/// A news service together with one of its categories.
pub enum NewsSourceEnum {
    CNA(NewsCategoryCNA),
    StraitsTimes(NewsCategoryST),
    BusinessTimes(NewsCategoryBT),
}

/// The name under which a service is shown and stored.
pub open spec fn source_name_of(source_index: nat) -> Seq<char> {
    if source_index == 0 {
        "CNA"@
    } else if source_index == 1 {
        "StraitsTimes"@
    } else {
        "BusinessTimes"@
    }
}

/// How many categories a service has.
pub open spec fn category_count_of(source_index: nat) -> nat {
    if source_index == 0 {
        7
    } else if source_index == 1 {
        8
    } else {
        6
    }
}

impl NewsSourceEnum {
    /// Which service this is.
    pub open spec fn source_index(&self) -> nat {
        match self {
            NewsSourceEnum::CNA(_) => 0,
            NewsSourceEnum::StraitsTimes(_) => 1,
            NewsSourceEnum::BusinessTimes(_) => 2,
        }
    }

    /// The position of the category among the service's categories.
    pub open spec fn category_index(&self) -> nat {
        match self {
            NewsSourceEnum::CNA(c) => c.index(),
            NewsSourceEnum::StraitsTimes(c) => c.index(),
            NewsSourceEnum::BusinessTimes(c) => c.index(),
        }
    }

    /// Whether the category holds fetched articles.
    pub open spec fn is_loaded(&self) -> bool {
        match self {
            NewsSourceEnum::CNA(c) => c.cached() is Some,
            NewsSourceEnum::StraitsTimes(c) => c.cached() is Some,
            NewsSourceEnum::BusinessTimes(c) => c.cached() is Some,
        }
    }

    /// The articles the category holds.
    pub open spec fn cached_articles(&self) -> Option<Vec<Article>> {
        match self {
            NewsSourceEnum::CNA(c) => c.cached(),
            NewsSourceEnum::StraitsTimes(c) => c.cached(),
            NewsSourceEnum::BusinessTimes(c) => c.cached(),
        }
    }

    /// The name of the service.
    pub open spec fn source_name(&self) -> Seq<char> {
        source_name_of(self.source_index())
    }

    /// The name of the category.
    pub open spec fn category_name(&self) -> Seq<char> {
        match self {
            NewsSourceEnum::CNA(c) => c.name(),
            NewsSourceEnum::StraitsTimes(c) => c.name(),
            NewsSourceEnum::BusinessTimes(c) => c.name(),
        }
    }

    /// The category at position `index` of service `source`, holding no articles.
    pub fn from_position(source: SourceId, index: usize) -> (r: NewsSourceEnum)
        requires
            index < category_count_of(source.index()),
        ensures
            r.source_index() == source.index(),
            r.category_index() == index,
            !r.is_loaded(),
    {
        match source {
            SourceId::CNA => NewsSourceEnum::CNA(NewsCategoryCNA::from_index(index)),
            SourceId::StraitsTimes => NewsSourceEnum::StraitsTimes(
                NewsCategoryST::from_index(index),
            ),
            SourceId::BusinessTimes => NewsSourceEnum::BusinessTimes(
                NewsCategoryBT::from_index(index),
            ),
        }
    }

    /// Which service this is.
    pub fn source(&self) -> (r: SourceId)
        ensures
            r.index() == self.source_index(),
    {
        match self {
            NewsSourceEnum::CNA(_) => SourceId::CNA,
            NewsSourceEnum::StraitsTimes(_) => SourceId::StraitsTimes,
            NewsSourceEnum::BusinessTimes(_) => SourceId::BusinessTimes,
        }
    }

    /// The position of the category among the service's categories.
    pub fn category_position(&self) -> (r: usize)
        ensures
            r == self.category_index(),
    {
        match self {
            NewsSourceEnum::CNA(c) => c.position(),
            NewsSourceEnum::StraitsTimes(c) => c.position(),
            NewsSourceEnum::BusinessTimes(c) => c.position(),
        }
    }

    /// Whether the category holds fetched articles.
    pub fn loaded(&self) -> (r: bool)
        ensures
            r == self.is_loaded(),
    {
        match self {
            NewsSourceEnum::CNA(c) => c.has_articles(),
            NewsSourceEnum::StraitsTimes(c) => c.has_articles(),
            NewsSourceEnum::BusinessTimes(c) => c.has_articles(),
        }
    }

    /// The name of the service ("CNA", "StraitsTimes" or "BusinessTimes").
    pub fn to_string(&self) -> (r: String)
        ensures
            r@ == self.source_name(),
    {
        match self {
            NewsSourceEnum::CNA(_) => String::from_str("CNA"),
            NewsSourceEnum::StraitsTimes(_) => String::from_str("StraitsTimes"),
            NewsSourceEnum::BusinessTimes(_) => String::from_str("BusinessTimes"),
        }
    }

    /// The name of the category.
    pub fn category_to_string(&self) -> (r: String)
        ensures
            r@ == self.category_name(),
    {
        match self {
            NewsSourceEnum::CNA(c) => c.to_string(),
            NewsSourceEnum::StraitsTimes(c) => c.to_string(),
            NewsSourceEnum::BusinessTimes(c) => c.to_string(),
        }
    }

    /// A copy of the service, category and held articles.
    pub fn duplicate(&self) -> (r: NewsSourceEnum)
        ensures
            r.source_index() == self.source_index(),
            r.category_index() == self.category_index(),
            r.is_loaded() == self.is_loaded(),
    {
        match self {
            NewsSourceEnum::CNA(c) => NewsSourceEnum::CNA(c.duplicate()),
            NewsSourceEnum::StraitsTimes(c) => NewsSourceEnum::StraitsTimes(c.duplicate()),
            NewsSourceEnum::BusinessTimes(c) => NewsSourceEnum::BusinessTimes(c.duplicate()),
        }
    }
}

/// A news service with the category being read, and the position of that category in the
/// service's listing, which moving between categories follows.
pub struct NewsSource {
    pub source_variant: NewsSourceEnum,
    pub category_index: usize,
}

impl NewsSource {
    /// The position that moving between categories starts from.
    pub open spec fn position(&self) -> nat {
        self.category_index as nat
    }

    /// The position lies within the service's categories.
    pub open spec fn wf(&self) -> bool {
        self.position() < category_count_of(self.source_variant.source_index())
    }

    /// A source reading the given category, positioned at the first category.
    pub fn new(source_variant: NewsSourceEnum) -> (r: Self)
        ensures
            r.source_variant == source_variant,
            r.position() == 0,
            r.wf(),
    {
        Self { source_variant, category_index: 0 }
    }

    /// The position that moving between categories starts from.
    pub fn category_index(&self) -> (r: usize)
        ensures
            r == self.position(),
    {
        self.category_index
    }

    /// Moves to the next category of the service, from the last back to the first; the new
    /// category holds no articles yet.
    pub fn next_category(&mut self)
        requires
            old(self).wf(),
        ensures
            final(self).wf(),
            final(self).position() == crate::utils::sidebar::next_selection(
                Some(old(self).position() as usize),
                category_count_of(old(self).source_variant.source_index()),
            ),
            final(self).source_variant.source_index() == old(self).source_variant.source_index(),
            final(self).source_variant.category_index() == final(self).position(),
            !final(self).source_variant.is_loaded(),
    {
        let source = self.source_variant.source();
        let count = category_count(source);
        let next = crate::utils::sidebar::next_index(Some(self.category_index), count);
        self.category_index = next;
        self.source_variant = NewsSourceEnum::from_position(source, next);
    }

    /// Moves to the previous category of the service, from the first to the last; the new
    /// category holds no articles yet.
    pub fn previous_category(&mut self)
        requires
            old(self).wf(),
        ensures
            final(self).wf(),
            final(self).position() == crate::utils::sidebar::previous_selection(
                Some(old(self).position() as usize),
                category_count_of(old(self).source_variant.source_index()),
            ),
            final(self).source_variant.source_index() == old(self).source_variant.source_index(),
            final(self).source_variant.category_index() == final(self).position(),
            !final(self).source_variant.is_loaded(),
    {
        let source = self.source_variant.source();
        let count = category_count(source);
        let prev = crate::utils::sidebar::previous_index(Some(self.category_index), count);
        self.category_index = prev;
        self.source_variant = NewsSourceEnum::from_position(source, prev);
    }

    /// Stores fetched articles in the category being read.
    pub fn store_articles(&mut self, articles: Vec<Article>)
        ensures
            final(self).position() == old(self).position(),
            final(self).source_variant.source_index() == old(self).source_variant.source_index(),
            final(self).source_variant.category_index() == old(self).source_variant.category_index(),
            final(self).source_variant.cached_articles() == Some(articles),
    {
        match &mut self.source_variant {
            NewsSourceEnum::CNA(c) => c.update_articles(articles),
            NewsSourceEnum::StraitsTimes(c) => c.update_articles(articles),
            NewsSourceEnum::BusinessTimes(c) => c.update_articles(articles),
        }
    }

    /// A copy of the source.
    pub fn duplicate(&self) -> (r: Self)
        ensures
            r.position() == self.position(),
            r.source_variant.source_index() == self.source_variant.source_index(),
            r.source_variant.category_index() == self.source_variant.category_index(),
            r.source_variant.is_loaded() == self.source_variant.is_loaded(),
    {
        Self { source_variant: self.source_variant.duplicate(), category_index: self.category_index }
    }

    /// The name of the service.
    pub fn to_string(&self) -> (r: String)
        ensures
            r@ == self.source_variant.source_name(),
    {
        self.source_variant.to_string()
    }
}

/// How many categories a service has.
pub fn category_count(source: SourceId) -> (r: usize)
    ensures
        r == category_count_of(source.index()),
{
    match source {
        SourceId::CNA => NewsCategoryCNA::COUNT,
        SourceId::StraitsTimes => NewsCategoryST::COUNT,
        SourceId::BusinessTimes => NewsCategoryBT::COUNT,
    }
}

/// Moving to the next category and back to the previous one returns to the category that was
/// being read.
pub proof fn lemma_previous_category_undoes_next(before: NewsSource, moved: NewsSource, back: NewsSource)
    requires
        before.wf(),
        moved.position() == crate::utils::sidebar::next_selection(
            Some(before.position() as usize),
            category_count_of(before.source_variant.source_index()),
        ),
        moved.source_variant.source_index() == before.source_variant.source_index(),
        back.position() == crate::utils::sidebar::previous_selection(
            Some(moved.position() as usize),
            category_count_of(moved.source_variant.source_index()),
        ),
    ensures
        back.position() == before.position(),
{
}


/// The news tab: the three services, the one being read, the articles of its current category,
/// which of them are listed (after a search) and the reading position in the selected article.
pub struct News {
    pub cna: NewsSource,
    pub st: NewsSource,
    pub bt: NewsSource,
    pub current_source: NewsSourceEnum,
    pub sidebar: Sidebar,
    pub items: Vec<Article>,
    /// Positions in `items` of the listed articles, in listing order.
    pub display_items: Vec<usize>,
    pub scroll_offset: u16,
    /// The furthest scroll position of each listed article that has been shown.
    pub max_scroll_offsets: HashMap<usize, u16>,
}

impl News {
    /// The service at position `k`.
    pub open spec fn source_at(&self, k: nat) -> NewsSource {
        if k == 0 {
            self.cna
        } else if k == 1 {
            self.st
        } else {
            self.bt
        }
    }

    /// The service being read.
    pub open spec fn current(&self) -> NewsSource {
        self.source_at(self.current_source.source_index())
    }

    /// Each service sits in its own place and reads the category it is positioned at, and the
    /// category being read is the one the service being read is positioned at.
    pub open spec fn wf(&self) -> bool {
        &&& self.cna.wf() && self.cna.source_variant.source_index() == 0
        &&& self.st.wf() && self.st.source_variant.source_index() == 1
        &&& self.bt.wf() && self.bt.source_variant.source_index() == 2
        &&& self.cna.source_variant.category_index() == self.cna.position()
        &&& self.st.source_variant.category_index() == self.st.position()
        &&& self.bt.source_variant.category_index() == self.bt.position()
        &&& self.current_source.category_index() == self.current().position()
    }

    /// The listed positions all lie within `items`.
    pub open spec fn display_valid(&self) -> bool {
        forall|j: int| 0 <= j < self.display_items@.len() ==> #[trigger] self.display_items@[j] < self.items@.len()
    }

    /// The titles of the listed articles, in listing order.
    pub open spec fn listed_titles(&self) -> Seq<Seq<char>> {
        Seq::new(self.display_items@.len(), |j: int| self.items@[self.display_items@[j] as int].title@)
    }

    /// The services and the one being read are those of `other`.
    pub open spec fn same_sources(&self, other: &News) -> bool {
        &&& self.cna == other.cna
        &&& self.st == other.st
        &&& self.bt == other.bt
        &&& self.current_source == other.current_source
    }

    /// An empty tab reading the first category of CNA, with the first category of each service.
    pub fn new() -> (r: Self)
        ensures
            r.wf(),
            r.current_source.source_index() == 0,
            r.current_source.category_index() == 0,
            forall|k: nat| k < 3 ==> (#[trigger] r.source_at(k)).position() == 0
                && r.source_at(k).source_variant.category_index() == 0
                && !r.source_at(k).source_variant.is_loaded(),
            r.items@.len() == 0,
            r.display_items@.len() == 0,
            r.sidebar.titles@.len() == 0,
            r.sidebar.state.selected is None,
            r.sidebar.focused,
            r.scroll_offset == 0,
            r.max_scroll_offsets@ == Map::<usize, u16>::empty(),
    {
        let cna = NewsSource::new(NewsSourceEnum::from_position(SourceId::CNA, 0));
        let st = NewsSource::new(NewsSourceEnum::from_position(SourceId::StraitsTimes, 0));
        let bt = NewsSource::new(NewsSourceEnum::from_position(SourceId::BusinessTimes, 0));
        Self {
            cna,
            st,
            bt,
            current_source: NewsSourceEnum::from_position(SourceId::CNA, 0),
            sidebar: Sidebar::new(),
            items: Vec::new(),
            display_items: Vec::new(),
            scroll_offset: 0,
            max_scroll_offsets: HashMap::new(),
        }
    }

    /// The service being read.
    pub fn get_current_news_source(&self) -> (r: &NewsSource)
        ensures
            *r == self.current(),
    {
        match self.current_source {
            NewsSourceEnum::CNA(_) => &self.cna,
            NewsSourceEnum::StraitsTimes(_) => &self.st,
            NewsSourceEnum::BusinessTimes(_) => &self.bt,
        }
    }

    /// Stores fetched articles in the current category of the service being read, and makes
    /// them the tab's articles.
    pub fn update_source_articles(&mut self, articles: Vec<Article>)
        requires
            old(self).wf(),
        ensures
            final(self).wf(),
            final(self).current_source == old(self).current_source,
            final(self).current().source_variant.cached_articles() == Some(articles),
            final(self).current().position() == old(self).current().position(),
            final(self).current().source_variant.category_index() == old(self).current().source_variant.category_index(),
            forall|k: nat| k < 3 && k != old(self).current_source.source_index() ==> #[trigger] final(self).source_at(k) == old(self).source_at(k),
            articles_view(final(self).items@) == articles_view(articles@),
            final(self).display_items == old(self).display_items,
            final(self).sidebar == old(self).sidebar,
            final(self).scroll_offset == old(self).scroll_offset,
            final(self).max_scroll_offsets == old(self).max_scroll_offsets,
    {
        let copy = clone_articles(&articles);
        match self.current_source {
            NewsSourceEnum::CNA(_) => self.cna.store_articles(articles),
            NewsSourceEnum::StraitsTimes(_) => self.st.store_articles(articles),
            NewsSourceEnum::BusinessTimes(_) => self.bt.store_articles(articles),
        }
        self.items = copy;
    }

    /// The selected article.
    pub fn get_current_article(&self) -> (r: &Article)
        requires
            self.sidebar.state.selected is Some,
            self.sidebar.state.selected.unwrap() < self.display_items@.len(),
            self.display_items@[self.sidebar.state.selected.unwrap() as int] < self.items@.len(),
        ensures
            *r == self.items@[self.display_items@[self.sidebar.state.selected.unwrap() as int] as int],
    {
        let i = self.sidebar.state.selected.unwrap();
        &self.items[self.display_items[i]]
    }

    /// Drops the articles and the selection.
    pub fn clear_items(&mut self)
        ensures
            final(self).items@.len() == 0,
            final(self).sidebar.state.selected is None,
            final(self).sidebar.titles == old(self).sidebar.titles,
            final(self).sidebar.focused == old(self).sidebar.focused,
            final(self).display_items == old(self).display_items,
            final(self).same_sources(old(self)),
            final(self).scroll_offset == old(self).scroll_offset,
            final(self).max_scroll_offsets == old(self).max_scroll_offsets,
    {
        self.items = Vec::new();
        self.sidebar.state.selected = None;
    }

    /// Lists every article, in order.
    pub fn reset_display_items(&mut self)
        ensures
            final(self).display_items@ == Seq::new(old(self).items@.len(), |i: int| i as usize),
            final(self).display_valid(),
            final(self).items == old(self).items,
            final(self).sidebar == old(self).sidebar,
            final(self).same_sources(old(self)),
            final(self).scroll_offset == old(self).scroll_offset,
            final(self).max_scroll_offsets == old(self).max_scroll_offsets,
    {
        let mut items_index: Vec<usize> = Vec::new();
        for i in 0..self.items.len()
            invariant
                items_index@ == Seq::new(i as nat, |k: int| k as usize),
        {
            items_index.push(i);
            assert(items_index@ =~= Seq::new((i + 1) as nat, |k: int| k as usize));
        }
        self.display_items = items_index;
    }

    /// Shows the titles of the listed articles in the sidebar.
    pub fn reload_sidebar(&mut self)
        requires
            old(self).display_valid(),
        ensures
            final(self).sidebar.titles.deep_view() == old(self).listed_titles(),
            final(self).sidebar.state == old(self).sidebar.state,
            final(self).sidebar.focused == old(self).sidebar.focused,
            final(self).items == old(self).items,
            final(self).display_items == old(self).display_items,
            final(self).same_sources(old(self)),
            final(self).scroll_offset == old(self).scroll_offset,
            final(self).max_scroll_offsets == old(self).max_scroll_offsets,
    {
        let mut titles: Vec<String> = Vec::new();
        for j in 0..self.display_items.len()
            invariant
                self.display_valid(),
                titles.deep_view() == self.listed_titles().take(j as int),
        {
            let i = self.display_items[j];
            titles.push(self.items[i].title.clone());
            assert(self.listed_titles().take(j + 1) == self.listed_titles().take(j as int).push(
                self.items@[i as int].title@,
            ));
        }
        assert(self.listed_titles().take(self.display_items@.len() as int) == self.listed_titles());
        self.sidebar.titles = titles;
    }

    /// Moves the service being read to its next category (`next`) or to its previous one.
    pub fn update_news_category(&mut self, next: bool)
        requires
            old(self).wf(),
        ensures
            final(self).wf(),
            final(self).current_source.source_index() == old(self).current_source.source_index(),
            final(self).current().position() == (if next {
                next_selection(Some(old(self).current().position() as usize), category_count_of(old(self).current_source.source_index()))
            } else {
                previous_selection(Some(old(self).current().position() as usize), category_count_of(old(self).current_source.source_index()))
            }),
            final(self).current().source_variant.category_index() == final(self).current().position(),
            final(self).current_source.category_index() == final(self).current().position(),
            !final(self).current_source.is_loaded(),
            !final(self).current().source_variant.is_loaded(),
            forall|k: nat| k < 3 && k != old(self).current_source.source_index() ==> #[trigger] final(self).source_at(k) == old(self).source_at(k),
            final(self).items == old(self).items,
            final(self).display_items == old(self).display_items,
            final(self).sidebar == old(self).sidebar,
            final(self).scroll_offset == old(self).scroll_offset,
            final(self).max_scroll_offsets == old(self).max_scroll_offsets,
    {
        let source = self.current_source.source();
        let moved = match source {
            SourceId::CNA => {
                if next { self.cna.next_category() } else { self.cna.previous_category() }
                self.cna.source_variant.duplicate()
            },
            SourceId::StraitsTimes => {
                if next { self.st.next_category() } else { self.st.previous_category() }
                self.st.source_variant.duplicate()
            },
            SourceId::BusinessTimes => {
                if next { self.bt.next_category() } else { self.bt.previous_category() }
                self.bt.source_variant.duplicate()
            },
        };
        self.current_source = moved;
    }

    /// Switches to reading another service, at the category it was left on, and drops the
    /// articles and the selection.
    pub fn change_source(&mut self, source: SourceId)
        requires
            old(self).wf(),
        ensures
            final(self).wf(),
            final(self).current_source.source_index() == source.index(),
            final(self).current_source.category_index() == old(self).source_at(source.index()).source_variant.category_index(),
            final(self).current_source.is_loaded() == old(self).source_at(source.index()).source_variant.is_loaded(),
            final(self).cna == old(self).cna,
            final(self).st == old(self).st,
            final(self).bt == old(self).bt,
            final(self).items@.len() == 0,
            final(self).sidebar.state.selected is None,
            final(self).sidebar.titles == old(self).sidebar.titles,
            final(self).sidebar.focused == old(self).sidebar.focused,
            final(self).display_items == old(self).display_items,
            final(self).scroll_offset == old(self).scroll_offset,
            final(self).max_scroll_offsets == old(self).max_scroll_offsets,
    {
        let variant = match source {
            SourceId::CNA => self.cna.source_variant.duplicate(),
            SourceId::StraitsTimes => self.st.source_variant.duplicate(),
            SourceId::BusinessTimes => self.bt.source_variant.duplicate(),
        };
        self.current_source = variant;
        self.clear_items();
    }

    /// Selects the next listed article (wrapping around) and goes back to its top; does nothing
    /// when no article is listed.
    pub fn next(&mut self)
        ensures
            old(self).display_items@.len() == 0 ==> *final(self) == *old(self),
            old(self).display_items@.len() > 0 ==> {
                &&& final(self).sidebar.state.selected == Some(next_selection(old(self).sidebar.state.selected, old(self).display_items@.len()) as usize)
                &&& final(self).scroll_offset == 0
            },
            final(self).sidebar.titles == old(self).sidebar.titles,
            final(self).sidebar.focused == old(self).sidebar.focused,
            final(self).items == old(self).items,
            final(self).display_items == old(self).display_items,
            final(self).same_sources(old(self)),
            final(self).max_scroll_offsets == old(self).max_scroll_offsets,
    {
        if self.display_items.len() == 0 {
            return;
        }
        let i = next_index(self.sidebar.state.selected, self.display_items.len());
        self.sidebar.state.select(Some(i));
        self.scroll_offset = 0;
    }

    /// Selects the previous listed article (wrapping around) and goes back to its top; does
    /// nothing when no article is listed.
    pub fn previous(&mut self)
        ensures
            old(self).display_items@.len() == 0 ==> *final(self) == *old(self),
            old(self).display_items@.len() > 0 ==> {
                &&& final(self).sidebar.state.selected == Some(previous_selection(old(self).sidebar.state.selected, old(self).display_items@.len()) as usize)
                &&& final(self).scroll_offset == 0
            },
            final(self).sidebar.titles == old(self).sidebar.titles,
            final(self).sidebar.focused == old(self).sidebar.focused,
            final(self).items == old(self).items,
            final(self).display_items == old(self).display_items,
            final(self).same_sources(old(self)),
            final(self).max_scroll_offsets == old(self).max_scroll_offsets,
    {
        if self.display_items.len() == 0 {
            return;
        }
        let i = previous_index(self.sidebar.state.selected, self.display_items.len());
        self.sidebar.state.select(Some(i));
        self.scroll_offset = 0;
    }

    /// Scrolls the selected article down by one line, unless it is at its furthest position
    /// or has not been shown yet.
    pub fn scroll_down(&mut self)
        ensures
            final(self).scroll_offset == scrolled_down(old(self).sidebar.state.selected, old(self).max_scroll_offsets@, old(self).scroll_offset),
            final(self).sidebar == old(self).sidebar,
            final(self).items == old(self).items,
            final(self).display_items == old(self).display_items,
            final(self).same_sources(old(self)),
            final(self).max_scroll_offsets == old(self).max_scroll_offsets,
    {
        broadcast use vstd::std_specs::hash::group_hash_axioms;
        self.scroll_offset = scroll_down_offset(self.sidebar.state.selected, &self.max_scroll_offsets, self.scroll_offset);
    }

    /// Scrolls up by one line, stopping at the top.
    pub fn scroll_up(&mut self)
        ensures
            final(self).scroll_offset == (if old(self).scroll_offset == 0 { 0 } else { (old(self).scroll_offset - 1) as u16 }),
            final(self).sidebar == old(self).sidebar,
            final(self).items == old(self).items,
            final(self).display_items == old(self).display_items,
            final(self).same_sources(old(self)),
            final(self).max_scroll_offsets == old(self).max_scroll_offsets,
    {
        self.scroll_offset = self.scroll_offset.saturating_sub(1);
    }
}

/// The scroll position after scrolling down: one further when an entry is selected, its
/// furthest position is known and not yet reached.
pub open spec fn scrolled_down(selected: Option<usize>, max_offsets: Map<usize, u16>, offset: u16) -> u16 {
    match selected {
        Some(i) => if max_offsets.contains_key(i) && offset < max_offsets[i] {
            (offset + 1) as u16
        } else {
            offset
        },
        None => offset,
    }
}

/// Scrolling down never passes the recorded furthest position of the selected entry.
pub proof fn lemma_scroll_down_stays_within(i: usize, max_offsets: Map<usize, u16>, offset: u16)
    requires
        max_offsets.contains_key(i),
        offset <= max_offsets[i],
    ensures
        scrolled_down(Some(i), max_offsets, offset) <= max_offsets[i],
        scrolled_down(Some(i), max_offsets, offset) == (if offset < max_offsets[i] { offset + 1 } else { offset as int }),
{
}

/// Scrolls down by one line within the known furthest position of the selected entry.
pub fn scroll_down_offset(selected: Option<usize>, max_offsets: &HashMap<usize, u16>, offset: u16) -> (r: u16)
    ensures
        r == scrolled_down(selected, max_offsets@, offset),
{
    broadcast use vstd::std_specs::hash::group_hash_axioms;
    assert(vstd::std_specs::hash::obeys_key_model::<usize>());
    if let Some(i) = selected {
        if let Some(max) = max_offsets.get(&i) {
            if offset < *max {
                return offset + 1;
            }
        }
    }
    offset
}


/// The titles of a list of articles.
pub open spec fn article_titles(items: Seq<Article>) -> Seq<Seq<char>> {
    Seq::new(items.len(), |i: int| items[i].title@)
}

impl News {
    /// Lists the articles that match a search query, best first (all of them, in order, for an
    /// empty query), shows their titles and selects the first. Returns `false`, changing
    /// nothing, when some title cannot be scored for the query.
    pub fn apply_search(&mut self, query: &String) -> (ok: bool)
        ensures
            ok == all_scored(query@, article_titles(old(self).items@)),
            !ok ==> *final(self) == *old(self),
            ok ==> {
                &&& query@.len() == 0 ==> final(self).display_items@ == Seq::new(old(self).items@.len(), |i: int| i as usize)
                &&& query@.len() != 0 ==> is_ranking(query@, article_titles(old(self).items@), final(self).display_items@)
                &&& final(self).display_valid()
                &&& final(self).sidebar.titles.deep_view() == final(self).listed_titles()
                &&& final(self).sidebar.state.selected == Some(0usize)
                &&& final(self).sidebar.focused == old(self).sidebar.focused
                &&& final(self).items == old(self).items
                &&& final(self).same_sources(old(self))
                &&& final(self).scroll_offset == old(self).scroll_offset
                &&& final(self).max_scroll_offsets == old(self).max_scroll_offsets
            },
    {
        let mut titles: Vec<String> = Vec::new();
        for i in 0..self.items.len()
            invariant
                titles.deep_view() == article_titles(self.items@).take(i as int),
        {
            titles.push(self.items[i].title.clone());
            assert(article_titles(self.items@).take(i + 1) == article_titles(self.items@).take(i as int).push(self.items@[i as int].title@));
        }
        assert(article_titles(self.items@).take(self.items@.len() as int) == article_titles(self.items@));
        let order = match rank_titles(query, &titles) {
            None => {
                return false;
            },
            Some(order) => order,
        };
        self.display_items = order;
        if query.as_str().is_empty() {
            self.reset_display_items();
        }
        self.reload_sidebar();
        self.sidebar.state.selected = Some(0);
        true
    }
}

} // verus!
