use vstd::prelude::*;

use crate::tui::tabs::news::NewsSource;
use crate::utils::text::clone_strings;

verus! {

/// A news article as it is stored: the paragraphs may be missing, and the service it came from
/// is kept.
pub struct NewsModel {
    pub title: String,
    pub description: String,
    pub content: Option<Vec<String>>,
    pub link: String,
    pub pub_date: String,
    pub categories: Vec<String>,
    pub source: NewsSource,
}

/// The plain contents of a [`NewsModel`]; the service is kept by its position, with the
/// position of the category it reads and the position it moves between categories from.
pub struct NewsModelView {
    pub title: Seq<char>,
    pub description: Seq<char>,
    pub content: Option<Seq<Seq<char>>>,
    pub link: Seq<char>,
    pub pub_date: Seq<char>,
    pub categories: Seq<Seq<char>>,
    pub source_index: nat,
    pub source_category: nat,
    pub source_position: nat,
}

/// The plain contents of optional paragraphs.
pub open spec fn content_view(content: Option<Vec<String>>) -> Option<Seq<Seq<char>>> {
    match content {
        Some(v) => Some(v.deep_view()),
        None => None,
    }
}

impl View for NewsModel {
    type V = NewsModelView;

    open spec fn view(&self) -> NewsModelView {
        NewsModelView {
            title: self.title@,
            description: self.description@,
            content: content_view(self.content),
            link: self.link@,
            pub_date: self.pub_date@,
            categories: self.categories.deep_view(),
            source_index: self.source.source_variant.source_index(),
            source_category: self.source.source_variant.category_index(),
            source_position: self.source.position(),
        }
    }
}

impl NewsModel {
    /// A copy of the model.
    pub fn duplicate(&self) -> (r: NewsModel)
        ensures
            r@ == self@,
    {
        NewsModel {
            title: self.title.clone(),
            description: self.description.clone(),
            content: match &self.content {
                Some(v) => Some(clone_strings(v)),
                None => None,
            },
            link: self.link.clone(),
            pub_date: self.pub_date.clone(),
            categories: clone_strings(&self.categories),
            source: self.source.duplicate(),
        }
    }
}

} // verus!
