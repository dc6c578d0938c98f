use news_tui::services::arxiv::Arxiv;
use news_tui::services::businesstimes::BT;
use news_tui::services::cna::CNA;
use news_tui::services::feed::read_feed;
use news_tui::services::straitstimes::{NewsCategoryST, ST};

const RSS: &str = r#"<?xml version="1.0"?>
<rss version="2.0"><channel><title>T</title><link>http://x</link><description>D</description>
<item><title>Hello</title><link>https://a/1</link><description>Desc</description><pubDate>Mon, 15 Jan 2024 15:04:00 +0800</pubDate><category>Asia ,World</category></item>
<item><title>Second</title></item>
</channel></rss>"#;

const CNA_PAGE: &str = r#"<html><body><section data-title="Content"><div class="text-long"><p>One</p><p>   </p><p>Two <b>bold</b></p></div></section><p>outside</p></body></html>"#;

#[test]
fn feed_items_are_read() {
    let items = read_feed(&RSS.to_string()).unwrap();
    assert_eq!(items.len(), 2);
    assert_eq!(items[0].title, Some("Hello".to_string()));
    assert_eq!(items[0].link, Some("https://a/1".to_string()));
    assert_eq!(items[0].categories, vec!["Asia ,World".to_string()]);
    assert_eq!(items[1].description, None);
}

#[test]
fn empty_response_has_no_items() {
    assert_eq!(read_feed(&String::new()).unwrap().len(), 0);
    assert!(read_feed(&"not a feed".to_string()).is_none());
}

#[test]
fn cna_article_is_built_from_item_and_page() {
    let mut items = read_feed(&RSS.to_string()).unwrap();
    let item = items.remove(0);
    let article = CNA::build_article(item, &CNA_PAGE.to_string()).unwrap();
    assert_eq!(article.title, "Hello");
    assert_eq!(article.description, "Desc");
    assert_eq!(article.link, "https://a/1");
    assert_eq!(article.pub_date, "Mon, 15 Jan 2024 03:04 PM UTC+0800");
    assert_eq!(article.content, vec!["One".to_string(), "Two bold".to_string()]);
    assert_eq!(article.categories, vec!["Asia, World".to_string()]);
}

#[test]
fn item_without_date_makes_no_article() {
    let mut items = read_feed(&RSS.to_string()).unwrap();
    let item = items.remove(1);
    assert!(CNA::build_article(item, &CNA_PAGE.to_string()).is_none());
}

#[test]
fn straits_times_files_articles_under_the_category() {
    let mut items = read_feed(&RSS.to_string()).unwrap();
    let item = items.remove(0);
    let page = r#"<div class="storyline-wrapper"><p>Para</p></div>"#.to_string();
    let article = ST::build_article(item, &page, &NewsCategoryST::Opinion(None)).unwrap();
    assert_eq!(article.categories, vec!["Opinion".to_string()]);
    assert_eq!(article.content, vec!["Para".to_string()]);
}

#[test]
fn business_times_paragraphs() {
    let page = r#"<div data-testid="article-body-container"><p>x</p><p> </p><p>y</p></div>"#.to_string();
    assert_eq!(BT::get_content(&page), Some(vec!["x".to_string(), "y".to_string()]));
    assert_eq!(CNA::get_content(&page), Some(vec![]));
}

const ATOM: &str = r#"<?xml version="1.0" encoding="UTF-8"?>
<feed xmlns="http://www.w3.org/2005/Atom"><title>arXiv</title><id>x</id><updated>2024-01-15T00:00:00Z</updated>
<entry><id>e1</id><title>Paper One</title><updated>2024-01-15T00:00:00Z</updated><published>2024-01-15T07:04:00Z</published><summary>Abstract text</summary><author><name>Ada Lovelace</name></author><author><name>Alan Turing</name></author><link href="http://arxiv.org/abs/1" rel="alternate"/><link href="http://arxiv.org/pdf/1" rel="related"/></entry>
</feed>"#;

#[test]
fn arxiv_entries_become_papers() {
    let papers = Arxiv::parse(ATOM.to_string()).unwrap();
    assert_eq!(papers.len(), 1);
    assert_eq!(papers[0].title, "Paper One");
    assert_eq!(papers[0].summary, "Abstract text");
    assert_eq!(papers[0].link, "http://arxiv.org/pdf/1");
    assert_eq!(papers[0].pub_date, "Mon, 15 Jan 2024 07:04 AM UTC+0000");
    assert_eq!(papers[0].authors, vec!["Ada Lovelace".to_string(), "Alan Turing".to_string()]);
}

#[test]
fn arxiv_date_keeps_its_offset() {
    let xml = ATOM.replace("2024-01-15T07:04:00Z", "2024-01-15T15:04:00+08:00");
    let papers = Arxiv::parse(xml).unwrap();
    assert_eq!(papers[0].pub_date, "Mon, 15 Jan 2024 03:04 PM UTC+0800");
}

#[test]
fn arxiv_date_out_of_range_is_refused() {
    let xml = ATOM.replace("2024-01-15T07:04:00Z", "-9999-01-01T00:00:00Z");
    assert!(Arxiv::parse(xml).is_none());
}

#[test]
fn arxiv_entry_without_summary_is_refused() {
    let xml = ATOM.replace("<summary>Abstract text</summary>", "");
    assert!(Arxiv::parse(xml).is_none());
    assert_eq!(Arxiv::parse(String::new()).unwrap().len(), 0);
}
