use vstd::prelude::*;

use crate::utils::text::clone_strings;

verus! {

/// A news article as a source publishes it, with the paragraphs of its page.
pub struct Article {
    pub title: String,
    pub description: String,
    pub content: Vec<String>,
    pub link: String,
    pub pub_date: String,
    pub categories: Vec<String>,
}

/// The plain contents of an [`Article`].
pub struct ArticleView {
    pub title: Seq<char>,
    pub description: Seq<char>,
    pub content: Seq<Seq<char>>,
    pub link: Seq<char>,
    pub pub_date: Seq<char>,
    pub categories: Seq<Seq<char>>,
}

impl View for Article {
    type V = ArticleView;

    open spec fn view(&self) -> ArticleView {
        ArticleView {
            title: self.title@,
            description: self.description@,
            content: self.content.deep_view(),
            link: self.link@,
            pub_date: self.pub_date@,
            categories: self.categories.deep_view(),
        }
    }
}

impl Article {
    /// A copy of the article.
    pub fn duplicate(&self) -> (r: Article)
        ensures
            r@ == self@,
    {
        Article {
            title: self.title.clone(),
            description: self.description.clone(),
            content: clone_strings(&self.content),
            link: self.link.clone(),
            pub_date: self.pub_date.clone(),
            categories: clone_strings(&self.categories),
        }
    }
}

/// The plain contents of a list of articles.
pub open spec fn articles_view(v: Seq<Article>) -> Seq<ArticleView> {
    v.map_values(|a: Article| a@)
}

/// A copy of a list of articles.
pub fn clone_articles(v: &Vec<Article>) -> (r: Vec<Article>)
    ensures
        articles_view(r@) == articles_view(v@),
{
    let mut r: Vec<Article> = Vec::new();
    for i in 0..v.len()
        invariant
            articles_view(r@) == articles_view(v@.take(i as int)),
    {
        let ghost before = r@;
        let a = v[i].duplicate();
        r.push(a);
        assert(v@.take(i + 1) == v@.take(i as int).push(v@[i as int]));
        assert(articles_view(r@) =~= articles_view(before).push(a@));
        assert(articles_view(v@.take(i + 1)) =~= articles_view(v@.take(i as int)).push(
            v@[i as int]@,
        ));
    }
    assert(v@.take(v@.len() as int) == v@);
    r
}

} // verus!
