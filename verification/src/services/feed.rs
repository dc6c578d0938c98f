use vstd::prelude::*;

use crate::utils::article::Article;
use crate::utils::text::{is_blank, is_white_space, text_is_blank};
use crate::utils::time_formatter::{rfc2822_reformatted, try_rfc2822_to_custom, CUSTOM_TIME_FORMAT};

verus! {

/// An item of an RSS channel, with the fields that the news services read.
pub struct FeedItem {
    pub title: Option<String>,
    pub description: Option<String>,
    pub link: Option<String>,
    pub pub_date: Option<String>,
    /// The names of the item's categories.
    pub categories: Vec<String>,
}

/// The plain contents of a [`FeedItem`].
pub struct FeedItemView {
    pub title: Option<Seq<char>>,
    pub description: Option<Seq<char>>,
    pub link: Option<Seq<char>>,
    pub pub_date: Option<Seq<char>>,
    pub categories: Seq<Seq<char>>,
}

/// The plain contents of an optional text.
pub open spec fn text_view(s: Option<String>) -> Option<Seq<char>> {
    match s {
        Some(t) => Some(t@),
        None => None,
    }
}

impl View for FeedItem {
    type V = FeedItemView;

    open spec fn view(&self) -> FeedItemView {
        FeedItemView {
            title: text_view(self.title),
            description: text_view(self.description),
            link: text_view(self.link),
            pub_date: text_view(self.pub_date),
            categories: self.categories.deep_view(),
        }
    }
}

/// The items of an RSS document as `rss::Channel::read_from` reads them, or `None` when the
/// document is not an RSS channel.
pub uninterp spec fn rss_channel_items(xml: Seq<char>) -> Option<Seq<FeedItemView>>;

/// Reads an RSS document with `rss::Channel::read_from` and hands out its items' title,
/// description, link, publication date and category names. The result depends on the text
/// alone, so it is named.
#[verifier::external_body]
fn read_rss_items(xml: &str) -> (r: Option<Vec<FeedItem>>)
    ensures
        match r {
            Some(items) => rss_channel_items(xml@) == Some(items@.map_values(|i: FeedItem| i@)),
            None => rss_channel_items(xml@) is None,
        },
{
    let channel = rss::Channel::read_from(xml.as_bytes()).ok()?;
    Some(channel.items.into_iter().map(|i| FeedItem {
        title: i.title,
        description: i.description,
        link: i.link,
        pub_date: i.pub_date,
        categories: i.categories.into_iter().map(|c| c.name).collect(),
    }).collect())
}

/// The items of a feed: none for an empty response; `None` when a non-empty response is not an
/// RSS channel.
pub open spec fn feed_items(xml: Seq<char>) -> Option<Seq<FeedItemView>> {
    if xml.len() == 0 {
        Some(seq![])
    } else {
        rss_channel_items(xml)
    }
}

/// Reads the items of a feed response; an empty response has none.
pub fn read_feed(xml_response: &String) -> (r: Option<Vec<FeedItem>>)
    ensures
        match r {
            Some(items) => feed_items(xml_response@) == Some(items@.map_values(|i: FeedItem| i@)),
            None => feed_items(xml_response@) is None,
        },
{
    if xml_response.as_str().is_empty() {
        let r: Vec<FeedItem> = Vec::new();
        assert(r@.map_values(|i: FeedItem| i@) =~= Seq::<FeedItemView>::empty());
        return Some(r);
    }
    read_rss_items(xml_response.as_str())
}

/// The texts of the elements of an HTML page that a CSS selector picks, in document order, as
/// `scraper` finds them (`Html::parse_document`, `Html::select`, `ElementRef::text`); `None`
/// when the selector does not parse.
pub uninterp spec fn html_selected_texts(html: Seq<char>, selector: Seq<char>) -> Option<Seq<Seq<char>>>;

/// Parses a page with `scraper::Html::parse_document` and a selector with
/// `scraper::Selector::parse`, and gives the text of each element the selector picks. The
/// result depends on the two texts alone, so it is named.
#[verifier::external_body]
fn select_texts(html: &str, selector: &str) -> (r: Option<Vec<String>>)
    ensures
        match r {
            Some(texts) => html_selected_texts(html@, selector@) == Some(texts.deep_view()),
            None => html_selected_texts(html@, selector@) is None,
        },
{
    let selector = scraper::Selector::parse(selector).ok()?;
    let document = scraper::Html::parse_document(html);
    Some(document.select(&selector).map(|el| el.text().collect::<String>()).collect())
}

/// The texts that are not blank, in order.
pub open spec fn non_blank(texts: Seq<Seq<char>>) -> Seq<Seq<char>>
    decreases texts.len(),
{
    if texts.len() == 0 {
        seq![]
    } else {
        let before = non_blank(texts.drop_last());
        if is_blank(texts.last()) {
            before
        } else {
            before.push(texts.last())
        }
    }
}

/// The text holds a character that is not white space.
pub open spec fn has_content(t: Seq<char>) -> bool {
    exists|i: int| 0 <= i < t.len() && !is_white_space(#[trigger] t[i])
}

/// The paragraphs kept of the selected texts are exactly, in order, those that hold a character
/// that is not white space; a text of white space alone is dropped, wherever its white space
/// stands.
pub proof fn lemma_non_blank_keeps_texts_with_content(texts: Seq<Seq<char>>)
    ensures
        non_blank(texts) == texts.filter(|t: Seq<char>| has_content(t)),
    decreases texts.len(),
{
    reveal(Seq::filter);
    if texts.len() > 0 {
        lemma_non_blank_keeps_texts_with_content(texts.drop_last());
        let t = texts.last();
        if is_blank(t) {
            assert(!has_content(t));
        } else {
            let i = choose|i: int| 0 <= i < t.len() && !#[trigger] is_white_space(t[i]);
            assert(has_content(t));
        }
    }
}

/// The paragraphs of an article page: the non-blank texts that the selector picks; `None` when
/// the selector does not parse.
pub open spec fn page_paragraphs(page: Seq<char>, selector: Seq<char>) -> Option<Seq<Seq<char>>> {
    match html_selected_texts(page, selector) {
        Some(texts) => Some(non_blank(texts)),
        None => None,
    }
}

/// Keeps the texts that are not blank.
pub fn keep_non_blank(texts: Vec<String>) -> (r: Vec<String>)
    ensures
        r.deep_view() == non_blank(texts.deep_view()),
{
    let ghost tv = texts.deep_view();
    let mut r: Vec<String> = Vec::new();
    for i in 0..texts.len()
        invariant
            tv == texts.deep_view(),
            r.deep_view() == non_blank(tv.take(i as int)),
    {
        assert(tv.take(i + 1).drop_last() == tv.take(i as int));
        assert(tv.take(i + 1).last() == texts@[i as int]@);
        if !text_is_blank(texts[i].as_str()) {
            r.push(texts[i].clone());
        }
    }
    assert(tv.take(texts@.len() as int) == tv);
    r
}

/// The paragraphs of an article page picked by a selector.
pub fn paragraphs_of_page(page: &String, selector: &str) -> (r: Option<Vec<String>>)
    ensures
        match r {
            Some(p) => page_paragraphs(page@, selector@) == Some(p.deep_view()),
            None => page_paragraphs(page@, selector@) is None,
        },
{
    match select_texts(page.as_str(), selector) {
        Some(texts) => Some(keep_non_blank(texts)),
        None => None,
    }
}

/// A text, or the empty text when there is none.
pub open spec fn or_empty(s: Option<Seq<char>>) -> Seq<char> {
    match s {
        Some(t) => t,
        None => seq![],
    }
}

/// The article a feed item and its page make: missing texts become empty, the publication date
/// is shown in the custom format, the paragraphs are those of the page; `None` when the date
/// does not parse or the selector does not.
pub open spec fn article_of(item: FeedItemView, categories: Seq<Seq<char>>, page: Seq<char>, selector: Seq<char>) -> Option<crate::utils::article::ArticleView> {
    match (rfc2822_reformatted(or_empty(item.pub_date), CUSTOM_TIME_FORMAT@), page_paragraphs(page, selector)) {
        (Some(date), Some(content)) => Some(crate::utils::article::ArticleView {
            title: or_empty(item.title),
            description: or_empty(item.description),
            content,
            link: or_empty(item.link),
            pub_date: date,
            categories,
        }),
        _ => None,
    }
}

/// A text, or the empty text.
fn unwrap_or_empty(s: Option<String>) -> (r: String)
    ensures
        r@ == or_empty(text_view(s)),
{
    match s {
        Some(t) => t,
        None => String::new(),
    }
}

/// Builds the article of a feed item from the item, its categories and its page.
pub fn build_article(item: FeedItem, categories: Vec<String>, page: &String, selector: &str) -> (r: Option<Article>)
    ensures
        match r {
            Some(a) => article_of(item@, categories.deep_view(), page@, selector@) == Some(a@),
            None => article_of(item@, categories.deep_view(), page@, selector@) is None,
        },
{
    let ghost iv = item@;
    let title = unwrap_or_empty(item.title);
    let description = unwrap_or_empty(item.description);
    let link = unwrap_or_empty(item.link);
    let pub_date = unwrap_or_empty(item.pub_date);
    let formatted = try_rfc2822_to_custom(&pub_date);
    let content = paragraphs_of_page(page, selector);
    match (formatted, content) {
        (Some(date), Some(content)) => Some(Article {
            title,
            description,
            content,
            link,
            pub_date: date,
            categories,
        }),
        _ => None,
    }
}

} // verus!
