use vstd::prelude::*;

use crate::utils::article::{articles_view, clone_articles, Article};
use crate::services::feed::{article_of, build_article, page_paragraphs, paragraphs_of_page, FeedItem};
use crate::utils::text::{chars_of, replace_all, replace_all_chars, string_of_chars};

verus! {

/// A news category of CNA (Channel News Asia).
/// A category holds the articles that were fetched for it, once there are any.
pub enum NewsCategoryCNA {
    Latest(Option<Vec<Article>>),
    Asia(Option<Vec<Article>>),
    Business(Option<Vec<Article>>),
    Singapore(Option<Vec<Article>>),
    Sports(Option<Vec<Article>>),
    World(Option<Vec<Article>>),
    Today(Option<Vec<Article>>),
}

impl NewsCategoryCNA {
    /// The number of categories.
    pub const COUNT: usize = 7;

    /// The position of the category in the listing order.
    pub open spec fn index(&self) -> nat {
        match self {
            NewsCategoryCNA::Latest(_) => 0,
            NewsCategoryCNA::Asia(_) => 1,
            NewsCategoryCNA::Business(_) => 2,
            NewsCategoryCNA::Singapore(_) => 3,
            NewsCategoryCNA::Sports(_) => 4,
            NewsCategoryCNA::World(_) => 5,
            NewsCategoryCNA::Today(_) => 6,
        }
    }

    /// The articles the category holds.
    pub open spec fn cached(&self) -> Option<Vec<Article>> {
        match self {
            NewsCategoryCNA::Latest(a) => *a,
            NewsCategoryCNA::Asia(a) => *a,
            NewsCategoryCNA::Business(a) => *a,
            NewsCategoryCNA::Singapore(a) => *a,
            NewsCategoryCNA::Sports(a) => *a,
            NewsCategoryCNA::World(a) => *a,
            NewsCategoryCNA::Today(a) => *a,
        }
    }

    /// The category's display name.
    pub open spec fn name(&self) -> Seq<char> {
        match self {
            NewsCategoryCNA::Latest(_) => "Latest"@,
            NewsCategoryCNA::Asia(_) => "Asia"@,
            NewsCategoryCNA::Business(_) => "Business"@,
            NewsCategoryCNA::Singapore(_) => "Singapore"@,
            NewsCategoryCNA::Sports(_) => "Sports"@,
            NewsCategoryCNA::World(_) => "World"@,
            NewsCategoryCNA::Today(_) => "Today"@,
        }
    }

    /// The category at position `index` of the listing order, holding no articles.
    pub fn from_index(index: usize) -> (r: Self)
        requires
            index < 7,
        ensures
            r.index() == index,
            r.cached() is None,
    {
        if index == 0 {
            NewsCategoryCNA::Latest(None)
        } else if index == 1 {
            NewsCategoryCNA::Asia(None)
        } else if index == 2 {
            NewsCategoryCNA::Business(None)
        } else if index == 3 {
            NewsCategoryCNA::Singapore(None)
        } else if index == 4 {
            NewsCategoryCNA::Sports(None)
        } else if index == 5 {
            NewsCategoryCNA::World(None)
        } else {
            NewsCategoryCNA::Today(None)
        }
    }

    /// Every category, in listing order, none holding articles.
    pub fn all() -> (r: Vec<Self>)
        ensures
            r@.len() == Self::COUNT,
            forall|i: int| 0 <= i < r@.len() ==> (#[trigger] r@[i]).index() == i && r@[i].cached() is None,
    {
        let mut r: Vec<Self> = Vec::new();
        for i in 0..Self::COUNT
            invariant
                r@.len() == i,
                forall|k: int| 0 <= k < r@.len() ==> (#[trigger] r@[k]).index() == k && r@[k].cached() is None,
        {
            r.push(Self::from_index(i));
        }
        r
    }

    /// The position of the category in the listing order.
    pub fn position(&self) -> (r: usize)
        ensures
            r == self.index(),
    {
        match self {
            NewsCategoryCNA::Latest(_) => 0,
            NewsCategoryCNA::Asia(_) => 1,
            NewsCategoryCNA::Business(_) => 2,
            NewsCategoryCNA::Singapore(_) => 3,
            NewsCategoryCNA::Sports(_) => 4,
            NewsCategoryCNA::World(_) => 5,
            NewsCategoryCNA::Today(_) => 6,
        }
    }

    /// Whether the category holds fetched articles.
    pub fn has_articles(&self) -> (r: bool)
        ensures
            r == self.cached() is Some,
    {
        match self {
            NewsCategoryCNA::Latest(a) => a.is_some(),
            NewsCategoryCNA::Asia(a) => a.is_some(),
            NewsCategoryCNA::Business(a) => a.is_some(),
            NewsCategoryCNA::Singapore(a) => a.is_some(),
            NewsCategoryCNA::Sports(a) => a.is_some(),
            NewsCategoryCNA::World(a) => a.is_some(),
            NewsCategoryCNA::Today(a) => a.is_some(),
        }
    }

    /// The category's display name.
    pub fn to_string(&self) -> (r: String)
        ensures
            r@ == self.name(),
    {
        match self {
            NewsCategoryCNA::Latest(_) => String::from_str("Latest"),
            NewsCategoryCNA::Asia(_) => String::from_str("Asia"),
            NewsCategoryCNA::Business(_) => String::from_str("Business"),
            NewsCategoryCNA::Singapore(_) => String::from_str("Singapore"),
            NewsCategoryCNA::Sports(_) => String::from_str("Sports"),
            NewsCategoryCNA::World(_) => String::from_str("World"),
            NewsCategoryCNA::Today(_) => String::from_str("Today"),
        }
    }

    /// Stores fetched articles in the category; the category itself stays the same.
    pub fn update_articles(&mut self, articles: Vec<Article>)
        ensures
            final(self).index() == old(self).index(),
            final(self).cached() == Some(articles),
    {
        match self {
            NewsCategoryCNA::Latest(articles_opt) => {
                *articles_opt = Some(articles);
            },
            NewsCategoryCNA::Asia(articles_opt) => {
                *articles_opt = Some(articles);
            },
            NewsCategoryCNA::Business(articles_opt) => {
                *articles_opt = Some(articles);
            },
            NewsCategoryCNA::Singapore(articles_opt) => {
                *articles_opt = Some(articles);
            },
            NewsCategoryCNA::Sports(articles_opt) => {
                *articles_opt = Some(articles);
            },
            NewsCategoryCNA::World(articles_opt) => {
                *articles_opt = Some(articles);
            },
            NewsCategoryCNA::Today(articles_opt) => {
                *articles_opt = Some(articles);
            },
        }
    }

    /// A copy of the category and of the articles it holds.
    pub fn duplicate(&self) -> (r: Self)
        ensures
            r.index() == self.index(),
            r.cached() is Some <==> self.cached() is Some,
            self.cached() is Some ==> articles_view(r.cached().unwrap()@) == articles_view(
                self.cached().unwrap()@,
            ),
    {
        match self {
            NewsCategoryCNA::Latest(a) => NewsCategoryCNA::Latest(match a {
                Some(v) => Some(clone_articles(v)),
                None => None,
            }),
            NewsCategoryCNA::Asia(a) => NewsCategoryCNA::Asia(match a {
                Some(v) => Some(clone_articles(v)),
                None => None,
            }),
            NewsCategoryCNA::Business(a) => NewsCategoryCNA::Business(match a {
                Some(v) => Some(clone_articles(v)),
                None => None,
            }),
            NewsCategoryCNA::Singapore(a) => NewsCategoryCNA::Singapore(match a {
                Some(v) => Some(clone_articles(v)),
                None => None,
            }),
            NewsCategoryCNA::Sports(a) => NewsCategoryCNA::Sports(match a {
                Some(v) => Some(clone_articles(v)),
                None => None,
            }),
            NewsCategoryCNA::World(a) => NewsCategoryCNA::World(match a {
                Some(v) => Some(clone_articles(v)),
                None => None,
            }),
            NewsCategoryCNA::Today(a) => NewsCategoryCNA::Today(match a {
                Some(v) => Some(clone_articles(v)),
                None => None,
            }),
        }
    }
}

/// The CNA news service.
pub struct CNA;

impl CNA {
    /// The address of the RSS feed of a category.
    pub open spec fn feed_url(category: NewsCategoryCNA) -> Seq<char> {
        match category {
            NewsCategoryCNA::Latest(_) => "https://www.channelnewsasia.com/api/v1/rss-outbound-feed?_format=xml"@,
            NewsCategoryCNA::Asia(_) => "https://www.channelnewsasia.com/api/v1/rss-outbound-feed?_format=xml&category=6511"@,
            NewsCategoryCNA::Business(_) => "https://www.channelnewsasia.com/api/v1/rss-outbound-feed?_format=xml&category=6936"@,
            NewsCategoryCNA::Singapore(_) => "https://www.channelnewsasia.com/api/v1/rss-outbound-feed?_format=xml&category=10416"@,
            NewsCategoryCNA::Sports(_) => "https://www.channelnewsasia.com/api/v1/rss-outbound-feed?_format=xml&category=10296"@,
            NewsCategoryCNA::World(_) => "https://www.channelnewsasia.com/api/v1/rss-outbound-feed?_format=xml&category=6311"@,
            NewsCategoryCNA::Today(_) => "https://www.channelnewsasia.com/api/v1/rss-outbound-feed?_format=xml&category=679471"@,
        }
    }

    /// The address of the RSS feed of a category.
    pub fn category_url(category: &NewsCategoryCNA) -> (r: &'static str)
        ensures
            r@ == Self::feed_url(*category),
    {
        match category {
            NewsCategoryCNA::Latest(_) => "https://www.channelnewsasia.com/api/v1/rss-outbound-feed?_format=xml",
            NewsCategoryCNA::Asia(_) => "https://www.channelnewsasia.com/api/v1/rss-outbound-feed?_format=xml&category=6511",
            NewsCategoryCNA::Business(_) => "https://www.channelnewsasia.com/api/v1/rss-outbound-feed?_format=xml&category=6936",
            NewsCategoryCNA::Singapore(_) => "https://www.channelnewsasia.com/api/v1/rss-outbound-feed?_format=xml&category=10416",
            NewsCategoryCNA::Sports(_) => "https://www.channelnewsasia.com/api/v1/rss-outbound-feed?_format=xml&category=10296",
            NewsCategoryCNA::World(_) => "https://www.channelnewsasia.com/api/v1/rss-outbound-feed?_format=xml&category=6311",
            NewsCategoryCNA::Today(_) => "https://www.channelnewsasia.com/api/v1/rss-outbound-feed?_format=xml&category=679471",
        }
    }
}


/// The CSS selector of the paragraphs of a CNA article page.
pub const CNA_CONTENT_SELECTOR: &'static str = "section[data-title=\"Content\"] div.text-long p";

/// The categories CNA gives an item: each name with " ," turned into ", ".
pub open spec fn cna_categories(names: Seq<Seq<char>>) -> Seq<Seq<char>> {
    names.map_values(|n: Seq<char>| replace_all(n, " ,"@, ", "@))
}

impl CNA {
    /// The paragraphs of a CNA article page; `None` when the selector does not parse.
    pub fn get_content(page: &String) -> (r: Option<Vec<String>>)
        ensures
            match r {
                Some(p) => page_paragraphs(page@, CNA_CONTENT_SELECTOR@) == Some(p.deep_view()),
                None => page_paragraphs(page@, CNA_CONTENT_SELECTOR@) is None,
            },
    {
        paragraphs_of_page(page, CNA_CONTENT_SELECTOR)
    }

    /// The category names of an item, with " ," turned into ", ".
    pub fn category_names(names: &Vec<String>) -> (r: Vec<String>)
        ensures
            r.deep_view() == cna_categories(names.deep_view()),
    {
        let pat = chars_of(" ,");
        let rep = chars_of(", ");
        let mut r: Vec<String> = Vec::new();
        for i in 0..names.len()
            invariant
                pat@ == " ,"@,
                rep@ == ", "@,
                r.deep_view() == cna_categories(names.deep_view().take(i as int)),
        {
            let chars = chars_of(names[i].as_str());
            let replaced = replace_all_chars(chars.as_slice(), pat.as_slice(), rep.as_slice());
            r.push(string_of_chars(replaced.as_slice()));
            assert(names.deep_view().take(i + 1) == names.deep_view().take(i as int).push(names@[i as int]@));
            assert(cna_categories(names.deep_view().take(i + 1)) =~= cna_categories(names.deep_view().take(i as int)).push(
                replace_all(names@[i as int]@, " ,"@, ", "@),
            ));
        }
        assert(names.deep_view().take(names@.len() as int) == names.deep_view());
        r
    }

    /// The article of a CNA feed item and its page; `None` when the item's date does not parse.
    pub fn build_article(item: FeedItem, page: &String) -> (r: Option<Article>)
        ensures
            match r {
                Some(a) => article_of(item@, cna_categories(item@.categories), page@, CNA_CONTENT_SELECTOR@) == Some(a@),
                None => article_of(item@, cna_categories(item@.categories), page@, CNA_CONTENT_SELECTOR@) is None,
            },
    {
        let categories = Self::category_names(&item.categories);
        build_article(item, categories, page, CNA_CONTENT_SELECTOR)
    }
}

} // verus!
