use vstd::prelude::*;

use crate::utils::article::{articles_view, clone_articles, Article};
use crate::services::feed::{article_of, build_article, page_paragraphs, paragraphs_of_page, FeedItem};

verus! {

/// A news category of The Straits Times.
/// A category holds the articles that were fetched for it, once there are any.
pub enum NewsCategoryST {
    Singapore(Option<Vec<Article>>),
    Asia(Option<Vec<Article>>),
    World(Option<Vec<Article>>),
    Opinion(Option<Vec<Article>>),
    Life(Option<Vec<Article>>),
    Business(Option<Vec<Article>>),
    Sport(Option<Vec<Article>>),
    Newsletter(Option<Vec<Article>>),
}

impl NewsCategoryST {
    /// The number of categories.
    pub const COUNT: usize = 8;

    /// The position of the category in the listing order.
    pub open spec fn index(&self) -> nat {
        match self {
            NewsCategoryST::Singapore(_) => 0,
            NewsCategoryST::Asia(_) => 1,
            NewsCategoryST::World(_) => 2,
            NewsCategoryST::Opinion(_) => 3,
            NewsCategoryST::Life(_) => 4,
            NewsCategoryST::Business(_) => 5,
            NewsCategoryST::Sport(_) => 6,
            NewsCategoryST::Newsletter(_) => 7,
        }
    }

    /// The articles the category holds.
    pub open spec fn cached(&self) -> Option<Vec<Article>> {
        match self {
            NewsCategoryST::Singapore(a) => *a,
            NewsCategoryST::Asia(a) => *a,
            NewsCategoryST::World(a) => *a,
            NewsCategoryST::Opinion(a) => *a,
            NewsCategoryST::Life(a) => *a,
            NewsCategoryST::Business(a) => *a,
            NewsCategoryST::Sport(a) => *a,
            NewsCategoryST::Newsletter(a) => *a,
        }
    }

    /// The category's display name.
    pub open spec fn name(&self) -> Seq<char> {
        match self {
            NewsCategoryST::Singapore(_) => "Singapore"@,
            NewsCategoryST::Asia(_) => "Asia"@,
            NewsCategoryST::World(_) => "World"@,
            NewsCategoryST::Opinion(_) => "Opinion"@,
            NewsCategoryST::Life(_) => "Life"@,
            NewsCategoryST::Business(_) => "Business"@,
            NewsCategoryST::Sport(_) => "Sport"@,
            NewsCategoryST::Newsletter(_) => "Newsletter"@,
        }
    }

    /// The category at position `index` of the listing order, holding no articles.
    pub fn from_index(index: usize) -> (r: Self)
        requires
            index < 8,
        ensures
            r.index() == index,
            r.cached() is None,
    {
        if index == 0 {
            NewsCategoryST::Singapore(None)
        } else if index == 1 {
            NewsCategoryST::Asia(None)
        } else if index == 2 {
            NewsCategoryST::World(None)
        } else if index == 3 {
            NewsCategoryST::Opinion(None)
        } else if index == 4 {
            NewsCategoryST::Life(None)
        } else if index == 5 {
            NewsCategoryST::Business(None)
        } else if index == 6 {
            NewsCategoryST::Sport(None)
        } else {
            NewsCategoryST::Newsletter(None)
        }
    }

    /// Every category, in listing order, none holding articles.
    pub fn all() -> (r: Vec<Self>)
        ensures
            r@.len() == Self::COUNT,
            forall|i: int| 0 <= i < r@.len() ==> (#[trigger] r@[i]).index() == i && r@[i].cached() is None,
    {
        let mut r: Vec<Self> = Vec::new();
        for i in 0..Self::COUNT
            invariant
                r@.len() == i,
                forall|k: int| 0 <= k < r@.len() ==> (#[trigger] r@[k]).index() == k && r@[k].cached() is None,
        {
            r.push(Self::from_index(i));
        }
        r
    }

    /// The position of the category in the listing order.
    pub fn position(&self) -> (r: usize)
        ensures
            r == self.index(),
    {
        match self {
            NewsCategoryST::Singapore(_) => 0,
            NewsCategoryST::Asia(_) => 1,
            NewsCategoryST::World(_) => 2,
            NewsCategoryST::Opinion(_) => 3,
            NewsCategoryST::Life(_) => 4,
            NewsCategoryST::Business(_) => 5,
            NewsCategoryST::Sport(_) => 6,
            NewsCategoryST::Newsletter(_) => 7,
        }
    }

    /// Whether the category holds fetched articles.
    pub fn has_articles(&self) -> (r: bool)
        ensures
            r == self.cached() is Some,
    {
        match self {
            NewsCategoryST::Singapore(a) => a.is_some(),
            NewsCategoryST::Asia(a) => a.is_some(),
            NewsCategoryST::World(a) => a.is_some(),
            NewsCategoryST::Opinion(a) => a.is_some(),
            NewsCategoryST::Life(a) => a.is_some(),
            NewsCategoryST::Business(a) => a.is_some(),
            NewsCategoryST::Sport(a) => a.is_some(),
            NewsCategoryST::Newsletter(a) => a.is_some(),
        }
    }

    /// The category's display name.
    pub fn to_string(&self) -> (r: String)
        ensures
            r@ == self.name(),
    {
        match self {
            NewsCategoryST::Singapore(_) => String::from_str("Singapore"),
            NewsCategoryST::Asia(_) => String::from_str("Asia"),
            NewsCategoryST::World(_) => String::from_str("World"),
            NewsCategoryST::Opinion(_) => String::from_str("Opinion"),
            NewsCategoryST::Life(_) => String::from_str("Life"),
            NewsCategoryST::Business(_) => String::from_str("Business"),
            NewsCategoryST::Sport(_) => String::from_str("Sport"),
            NewsCategoryST::Newsletter(_) => String::from_str("Newsletter"),
        }
    }

    /// Stores fetched articles in the category; the category itself stays the same.
    pub fn update_articles(&mut self, articles: Vec<Article>)
        ensures
            final(self).index() == old(self).index(),
            final(self).cached() == Some(articles),
    {
        match self {
            NewsCategoryST::Singapore(articles_opt) => {
                *articles_opt = Some(articles);
            },
            NewsCategoryST::Asia(articles_opt) => {
                *articles_opt = Some(articles);
            },
            NewsCategoryST::World(articles_opt) => {
                *articles_opt = Some(articles);
            },
            NewsCategoryST::Opinion(articles_opt) => {
                *articles_opt = Some(articles);
            },
            NewsCategoryST::Life(articles_opt) => {
                *articles_opt = Some(articles);
            },
            NewsCategoryST::Business(articles_opt) => {
                *articles_opt = Some(articles);
            },
            NewsCategoryST::Sport(articles_opt) => {
                *articles_opt = Some(articles);
            },
            NewsCategoryST::Newsletter(articles_opt) => {
                *articles_opt = Some(articles);
            },
        }
    }

    /// A copy of the category and of the articles it holds.
    pub fn duplicate(&self) -> (r: Self)
        ensures
            r.index() == self.index(),
            r.cached() is Some <==> self.cached() is Some,
            self.cached() is Some ==> articles_view(r.cached().unwrap()@) == articles_view(
                self.cached().unwrap()@,
            ),
    {
        match self {
            NewsCategoryST::Singapore(a) => NewsCategoryST::Singapore(match a {
                Some(v) => Some(clone_articles(v)),
                None => None,
            }),
            NewsCategoryST::Asia(a) => NewsCategoryST::Asia(match a {
                Some(v) => Some(clone_articles(v)),
                None => None,
            }),
            NewsCategoryST::World(a) => NewsCategoryST::World(match a {
                Some(v) => Some(clone_articles(v)),
                None => None,
            }),
            NewsCategoryST::Opinion(a) => NewsCategoryST::Opinion(match a {
                Some(v) => Some(clone_articles(v)),
                None => None,
            }),
            NewsCategoryST::Life(a) => NewsCategoryST::Life(match a {
                Some(v) => Some(clone_articles(v)),
                None => None,
            }),
            NewsCategoryST::Business(a) => NewsCategoryST::Business(match a {
                Some(v) => Some(clone_articles(v)),
                None => None,
            }),
            NewsCategoryST::Sport(a) => NewsCategoryST::Sport(match a {
                Some(v) => Some(clone_articles(v)),
                None => None,
            }),
            NewsCategoryST::Newsletter(a) => NewsCategoryST::Newsletter(match a {
                Some(v) => Some(clone_articles(v)),
                None => None,
            }),
        }
    }
}

/// The ST news service.
pub struct ST;

impl ST {
    /// The address of the RSS feed of a category.
    pub open spec fn feed_url(category: NewsCategoryST) -> Seq<char> {
        match category {
            NewsCategoryST::Singapore(_) => "https://www.straitstimes.com/news/singapore/rss.xml"@,
            NewsCategoryST::Asia(_) => "https://www.straitstimes.com/news/asia/rss.xml"@,
            NewsCategoryST::World(_) => "https://www.straitstimes.com/news/world/rss.xml"@,
            NewsCategoryST::Opinion(_) => "https://www.straitstimes.com/news/opinion/rss.xml"@,
            NewsCategoryST::Life(_) => "https://www.straitstimes.com/news/life/rss.xml"@,
            NewsCategoryST::Business(_) => "https://www.straitstimes.com/news/business/rss.xml"@,
            NewsCategoryST::Sport(_) => "https://www.straitstimes.com/news/sport/rss.xml"@,
            NewsCategoryST::Newsletter(_) => "https://www.straitstimes.com/news/newsletter/rss.xml"@,
        }
    }

    /// The address of the RSS feed of a category.
    pub fn category_url(category: &NewsCategoryST) -> (r: &'static str)
        ensures
            r@ == Self::feed_url(*category),
    {
        match category {
            NewsCategoryST::Singapore(_) => "https://www.straitstimes.com/news/singapore/rss.xml",
            NewsCategoryST::Asia(_) => "https://www.straitstimes.com/news/asia/rss.xml",
            NewsCategoryST::World(_) => "https://www.straitstimes.com/news/world/rss.xml",
            NewsCategoryST::Opinion(_) => "https://www.straitstimes.com/news/opinion/rss.xml",
            NewsCategoryST::Life(_) => "https://www.straitstimes.com/news/life/rss.xml",
            NewsCategoryST::Business(_) => "https://www.straitstimes.com/news/business/rss.xml",
            NewsCategoryST::Sport(_) => "https://www.straitstimes.com/news/sport/rss.xml",
            NewsCategoryST::Newsletter(_) => "https://www.straitstimes.com/news/newsletter/rss.xml",
        }
    }
}


/// The CSS selector of the paragraphs of a ST article page.
pub const ST_CONTENT_SELECTOR: &'static str = "div.storyline-wrapper p";

impl ST {
    /// The paragraphs of a ST article page; `None` when the selector does not parse.
    pub fn get_content(page: &String) -> (r: Option<Vec<String>>)
        ensures
            match r {
                Some(p) => page_paragraphs(page@, ST_CONTENT_SELECTOR@) == Some(p.deep_view()),
                None => page_paragraphs(page@, ST_CONTENT_SELECTOR@) is None,
            },
    {
        paragraphs_of_page(page, ST_CONTENT_SELECTOR)
    }

    /// The article of a feed item of a category and its page, filed under that category;
    /// `None` when the item's date does not parse.
    pub fn build_article(item: FeedItem, page: &String, news_category: &NewsCategoryST) -> (r: Option<Article>)
        ensures
            match r {
                Some(a) => article_of(item@, seq![news_category.name()], page@, ST_CONTENT_SELECTOR@) == Some(a@),
                None => article_of(item@, seq![news_category.name()], page@, ST_CONTENT_SELECTOR@) is None,
            },
    {
        let mut categories: Vec<String> = Vec::new();
        categories.push(news_category.to_string());
        assert(categories.deep_view() =~= seq![news_category.name()]);
        build_article(item, categories, page, ST_CONTENT_SELECTOR)
    }
}

} // verus!
