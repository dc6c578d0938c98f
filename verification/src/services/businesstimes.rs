use vstd::prelude::*;

use crate::utils::article::{articles_view, clone_articles, Article};
use crate::services::feed::{article_of, build_article, page_paragraphs, paragraphs_of_page, FeedItem};

verus! {

/// A news category of The Business Times.
/// A category holds the articles that were fetched for it, once there are any.
pub enum NewsCategoryBT {
    Singapore(Option<Vec<Article>>),
    International(Option<Vec<Article>>),
    Opinion(Option<Vec<Article>>),
    Market(Option<Vec<Article>>),
    Technology(Option<Vec<Article>>),
    Awards(Option<Vec<Article>>),
}

impl NewsCategoryBT {
    /// The number of categories.
    pub const COUNT: usize = 6;

    /// The position of the category in the listing order.
    pub open spec fn index(&self) -> nat {
        match self {
            NewsCategoryBT::Singapore(_) => 0,
            NewsCategoryBT::International(_) => 1,
            NewsCategoryBT::Opinion(_) => 2,
            NewsCategoryBT::Market(_) => 3,
            NewsCategoryBT::Technology(_) => 4,
            NewsCategoryBT::Awards(_) => 5,
        }
    }

    /// The articles the category holds.
    pub open spec fn cached(&self) -> Option<Vec<Article>> {
        match self {
            NewsCategoryBT::Singapore(a) => *a,
            NewsCategoryBT::International(a) => *a,
            NewsCategoryBT::Opinion(a) => *a,
            NewsCategoryBT::Market(a) => *a,
            NewsCategoryBT::Technology(a) => *a,
            NewsCategoryBT::Awards(a) => *a,
        }
    }

    /// The category's display name.
    pub open spec fn name(&self) -> Seq<char> {
        match self {
            NewsCategoryBT::Singapore(_) => "Singapore"@,
            NewsCategoryBT::International(_) => "International"@,
            NewsCategoryBT::Opinion(_) => "Opinion"@,
            NewsCategoryBT::Market(_) => "Market"@,
            NewsCategoryBT::Technology(_) => "Technology"@,
            NewsCategoryBT::Awards(_) => "Awards"@,
        }
    }

    /// The category at position `index` of the listing order, holding no articles.
    pub fn from_index(index: usize) -> (r: Self)
        requires
            index < 6,
        ensures
            r.index() == index,
            r.cached() is None,
    {
        if index == 0 {
            NewsCategoryBT::Singapore(None)
        } else if index == 1 {
            NewsCategoryBT::International(None)
        } else if index == 2 {
            NewsCategoryBT::Opinion(None)
        } else if index == 3 {
            NewsCategoryBT::Market(None)
        } else if index == 4 {
            NewsCategoryBT::Technology(None)
        } else {
            NewsCategoryBT::Awards(None)
        }
    }

    /// Every category, in listing order, none holding articles.
    pub fn all() -> (r: Vec<Self>)
        ensures
            r@.len() == Self::COUNT,
            forall|i: int| 0 <= i < r@.len() ==> (#[trigger] r@[i]).index() == i && r@[i].cached() is None,
    {
        let mut r: Vec<Self> = Vec::new();
        for i in 0..Self::COUNT
            invariant
                r@.len() == i,
                forall|k: int| 0 <= k < r@.len() ==> (#[trigger] r@[k]).index() == k && r@[k].cached() is None,
        {
            r.push(Self::from_index(i));
        }
        r
    }

    /// The position of the category in the listing order.
    pub fn position(&self) -> (r: usize)
        ensures
            r == self.index(),
    {
        match self {
            NewsCategoryBT::Singapore(_) => 0,
            NewsCategoryBT::International(_) => 1,
            NewsCategoryBT::Opinion(_) => 2,
            NewsCategoryBT::Market(_) => 3,
            NewsCategoryBT::Technology(_) => 4,
            NewsCategoryBT::Awards(_) => 5,
        }
    }

    /// Whether the category holds fetched articles.
    pub fn has_articles(&self) -> (r: bool)
        ensures
            r == self.cached() is Some,
    {
        match self {
            NewsCategoryBT::Singapore(a) => a.is_some(),
            NewsCategoryBT::International(a) => a.is_some(),
            NewsCategoryBT::Opinion(a) => a.is_some(),
            NewsCategoryBT::Market(a) => a.is_some(),
            NewsCategoryBT::Technology(a) => a.is_some(),
            NewsCategoryBT::Awards(a) => a.is_some(),
        }
    }

    /// The category's display name.
    pub fn to_string(&self) -> (r: String)
        ensures
            r@ == self.name(),
    {
        match self {
            NewsCategoryBT::Singapore(_) => String::from_str("Singapore"),
            NewsCategoryBT::International(_) => String::from_str("International"),
            NewsCategoryBT::Opinion(_) => String::from_str("Opinion"),
            NewsCategoryBT::Market(_) => String::from_str("Market"),
            NewsCategoryBT::Technology(_) => String::from_str("Technology"),
            NewsCategoryBT::Awards(_) => String::from_str("Awards"),
        }
    }

    /// Stores fetched articles in the category; the category itself stays the same.
    pub fn update_articles(&mut self, articles: Vec<Article>)
        ensures
            final(self).index() == old(self).index(),
            final(self).cached() == Some(articles),
    {
        match self {
            NewsCategoryBT::Singapore(articles_opt) => {
                *articles_opt = Some(articles);
            },
            NewsCategoryBT::International(articles_opt) => {
                *articles_opt = Some(articles);
            },
            NewsCategoryBT::Opinion(articles_opt) => {
                *articles_opt = Some(articles);
            },
            NewsCategoryBT::Market(articles_opt) => {
                *articles_opt = Some(articles);
            },
            NewsCategoryBT::Technology(articles_opt) => {
                *articles_opt = Some(articles);
            },
            NewsCategoryBT::Awards(articles_opt) => {
                *articles_opt = Some(articles);
            },
        }
    }

    /// A copy of the category and of the articles it holds.
    pub fn duplicate(&self) -> (r: Self)
        ensures
            r.index() == self.index(),
            r.cached() is Some <==> self.cached() is Some,
            self.cached() is Some ==> articles_view(r.cached().unwrap()@) == articles_view(
                self.cached().unwrap()@,
            ),
    {
        match self {
            NewsCategoryBT::Singapore(a) => NewsCategoryBT::Singapore(match a {
                Some(v) => Some(clone_articles(v)),
                None => None,
            }),
            NewsCategoryBT::International(a) => NewsCategoryBT::International(match a {
                Some(v) => Some(clone_articles(v)),
                None => None,
            }),
            NewsCategoryBT::Opinion(a) => NewsCategoryBT::Opinion(match a {
                Some(v) => Some(clone_articles(v)),
                None => None,
            }),
            NewsCategoryBT::Market(a) => NewsCategoryBT::Market(match a {
                Some(v) => Some(clone_articles(v)),
                None => None,
            }),
            NewsCategoryBT::Technology(a) => NewsCategoryBT::Technology(match a {
                Some(v) => Some(clone_articles(v)),
                None => None,
            }),
            NewsCategoryBT::Awards(a) => NewsCategoryBT::Awards(match a {
                Some(v) => Some(clone_articles(v)),
                None => None,
            }),
        }
    }
}

/// The BT news service.
pub struct BT;

impl BT {
    /// The address of the RSS feed of a category.
    pub open spec fn feed_url(category: NewsCategoryBT) -> Seq<char> {
        match category {
            NewsCategoryBT::Singapore(_) => "https://www.businesstimes.com.sg/rss/singapore"@,
            NewsCategoryBT::International(_) => "https://www.businesstimes.com.sg/rss/international"@,
            NewsCategoryBT::Opinion(_) => "https://www.businesstimes.com.sg/rss/opinion-features"@,
            NewsCategoryBT::Market(_) => "https://www.businesstimes.com.sg/rss/companies-markets"@,
            NewsCategoryBT::Technology(_) => "https://www.businesstimes.com.sg/rss/startups-tech"@,
            NewsCategoryBT::Awards(_) => "https://www.businesstimes.com.sg/rss/events-awards"@,
        }
    }

    /// The address of the RSS feed of a category.
    pub fn category_url(category: &NewsCategoryBT) -> (r: &'static str)
        ensures
            r@ == Self::feed_url(*category),
    {
        match category {
            NewsCategoryBT::Singapore(_) => "https://www.businesstimes.com.sg/rss/singapore",
            NewsCategoryBT::International(_) => "https://www.businesstimes.com.sg/rss/international",
            NewsCategoryBT::Opinion(_) => "https://www.businesstimes.com.sg/rss/opinion-features",
            NewsCategoryBT::Market(_) => "https://www.businesstimes.com.sg/rss/companies-markets",
            NewsCategoryBT::Technology(_) => "https://www.businesstimes.com.sg/rss/startups-tech",
            NewsCategoryBT::Awards(_) => "https://www.businesstimes.com.sg/rss/events-awards",
        }
    }
}


/// The CSS selector of the paragraphs of a BT article page.
pub const BT_CONTENT_SELECTOR: &'static str = "div[data-testid=\"article-body-container\"] p";

impl BT {
    /// The paragraphs of a BT article page; `None` when the selector does not parse.
    pub fn get_content(page: &String) -> (r: Option<Vec<String>>)
        ensures
            match r {
                Some(p) => page_paragraphs(page@, BT_CONTENT_SELECTOR@) == Some(p.deep_view()),
                None => page_paragraphs(page@, BT_CONTENT_SELECTOR@) is None,
            },
    {
        paragraphs_of_page(page, BT_CONTENT_SELECTOR)
    }

    /// The article of a feed item of a category and its page, filed under that category;
    /// `None` when the item's date does not parse.
    pub fn build_article(item: FeedItem, page: &String, news_category: &NewsCategoryBT) -> (r: Option<Article>)
        ensures
            match r {
                Some(a) => article_of(item@, seq![news_category.name()], page@, BT_CONTENT_SELECTOR@) == Some(a@),
                None => article_of(item@, seq![news_category.name()], page@, BT_CONTENT_SELECTOR@) is None,
            },
    {
        let mut categories: Vec<String> = Vec::new();
        categories.push(news_category.to_string());
        assert(categories.deep_view() =~= seq![news_category.name()]);
        build_article(item, categories, page, BT_CONTENT_SELECTOR)
    }
}

} // verus!
