use news_tui::services::businesstimes::{NewsCategoryBT, BT};
use news_tui::services::cna::{NewsCategoryCNA, CNA};
use news_tui::services::straitstimes::{NewsCategoryST, ST};
use news_tui::tui::tabs::news::{category_count, News, NewsSource, NewsSourceEnum, SourceId};
use news_tui::utils::article::Article;
use news_tui::utils::helper::is_latest;

#[test]
fn category_names_follow_listing_order() {
    let cna: Vec<String> = NewsCategoryCNA::all().iter().map(|c| c.to_string()).collect();
    assert_eq!(cna, vec!["Latest", "Asia", "Business", "Singapore", "Sports", "World", "Today"]);
    let st: Vec<String> = NewsCategoryST::all().iter().map(|c| c.to_string()).collect();
    assert_eq!(st, vec!["Singapore", "Asia", "World", "Opinion", "Life", "Business", "Sport", "Newsletter"]);
    let bt: Vec<String> = NewsCategoryBT::all().iter().map(|c| c.to_string()).collect();
    assert_eq!(bt, vec!["Singapore", "International", "Opinion", "Market", "Technology", "Awards"]);
    assert_eq!(category_count(SourceId::CNA), 7);
    assert_eq!(category_count(SourceId::StraitsTimes), 8);
    assert_eq!(category_count(SourceId::BusinessTimes), 6);
}

#[test]
fn feed_addresses() {
    assert_eq!(
        CNA::category_url(&NewsCategoryCNA::Latest(None)),
        "https://www.channelnewsasia.com/api/v1/rss-outbound-feed?_format=xml"
    );
    assert_eq!(
        CNA::category_url(&NewsCategoryCNA::Today(None)),
        "https://www.channelnewsasia.com/api/v1/rss-outbound-feed?_format=xml&category=679471"
    );
    assert_eq!(
        ST::category_url(&NewsCategoryST::Newsletter(None)),
        "https://www.straitstimes.com/news/newsletter/rss.xml"
    );
    assert_eq!(
        BT::category_url(&NewsCategoryBT::Market(None)),
        "https://www.businesstimes.com.sg/rss/companies-markets"
    );
}

#[test]
fn update_articles_keeps_the_category() {
    let mut c = NewsCategoryCNA::Sports(None);
    assert!(!c.has_articles());
    c.update_articles(vec![Article {
        title: "t".into(),
        description: String::new(),
        content: vec![],
        link: String::new(),
        pub_date: String::new(),
        categories: vec![],
    }]);
    assert!(c.has_articles());
    assert_eq!(c.to_string(), "Sports");
    match c {
        NewsCategoryCNA::Sports(Some(v)) => assert_eq!(v[0].title, "t"),
        _ => panic!("category changed"),
    }
}

#[test]
fn latest_is_only_cna_latest() {
    assert!(is_latest(NewsSourceEnum::CNA(NewsCategoryCNA::Latest(None))));
    assert!(!is_latest(NewsSourceEnum::CNA(NewsCategoryCNA::Asia(None))));
    assert!(!is_latest(NewsSourceEnum::StraitsTimes(NewsCategoryST::Singapore(None))));
}

#[test]
fn source_cycles_through_its_categories() {
    let mut s = NewsSource::new(NewsSourceEnum::StraitsTimes(NewsCategoryST::Singapore(None)));
    assert_eq!(s.category_index(), 0);
    s.previous_category();
    assert_eq!(s.category_index(), 7);
    assert_eq!(s.source_variant.category_to_string(), "Newsletter");
    s.next_category();
    assert_eq!(s.category_index(), 0);
    assert_eq!(s.source_variant.category_to_string(), "Singapore");
    for _ in 0..8 {
        s.next_category();
    }
    assert_eq!(s.category_index(), 0);
    assert_eq!(s.to_string(), "StraitsTimes");
}

#[test]
fn news_moves_the_current_service_between_categories() {
    let mut news = News::new();
    assert_eq!(news.current_source.to_string(), "CNA");
    assert_eq!(news.current_source.category_to_string(), "Latest");
    news.update_news_category(false);
    assert_eq!(news.current_source.category_to_string(), "Today");
    news.update_news_category(true);
    assert_eq!(news.current_source.category_to_string(), "Latest");
    news.update_news_category(true);
    assert_eq!(news.get_current_news_source().source_variant.category_to_string(), "Asia");
    news.change_source(SourceId::BusinessTimes);
    assert_eq!(news.current_source.to_string(), "BusinessTimes");
    assert_eq!(news.current_source.category_to_string(), "Singapore");
    news.change_source(SourceId::CNA);
    assert_eq!(news.current_source.category_to_string(), "Asia");
}

#[test]
fn fetched_articles_are_kept_with_the_category() {
    let mut news = News::new();
    news.update_source_articles(vec![Article {
        title: "a".into(),
        description: String::new(),
        content: vec![],
        link: String::new(),
        pub_date: String::new(),
        categories: vec![],
    }]);
    assert_eq!(news.items.len(), 1);
    assert!(news.get_current_news_source().source_variant.loaded());
}
