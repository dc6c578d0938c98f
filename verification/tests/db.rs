use news_tui::database::sqlite::{CategoryRow, Db, NewsRow};
use news_tui::services::cna::NewsCategoryCNA;
use news_tui::services::straitstimes::NewsCategoryST;
use news_tui::tui::tabs::news::{NewsSource, NewsSourceEnum, SourceId};
use news_tui::utils::news_model::NewsModel;
use news_tui::utils::time_formatter::custom_time_to_unix;

const DATE: &str = "Mon, 15 Jan 2024 03:04 PM UTC+0800";

fn empty_db() -> Db {
    Db::new(vec![], vec![]).unwrap()
}

fn cna() -> NewsSource {
    NewsSource::new(NewsSourceEnum::CNA(NewsCategoryCNA::Latest(None)))
}

fn st() -> NewsSource {
    NewsSource::new(NewsSourceEnum::StraitsTimes(NewsCategoryST::Singapore(None)))
}

fn model(title: &str, link: &str, content: Option<Vec<&str>>, categories: Vec<&str>, source: NewsSource) -> NewsModel {
    NewsModel {
        title: title.to_string(),
        description: format!("about {}", title),
        content: content.map(|c| c.into_iter().map(|p| p.to_string()).collect()),
        link: link.to_string(),
        pub_date: DATE.to_string(),
        categories: categories.into_iter().map(|c| c.to_string()).collect(),
        source,
    }
}

#[test]
fn saved_article_is_fetched_back() {
    let mut db = empty_db();
    db.save_news(model("One", "l1", Some(vec!["p1", "p2"]), vec!["Asia", "World"], cna()));
    let fetched = db.fetch_latest_news_by_source(cna());
    assert_eq!(fetched.len(), 1);
    let m = &fetched[0];
    assert_eq!(m.title, "One");
    assert_eq!(m.description, "about One");
    assert_eq!(m.link, "l1");
    assert_eq!(m.content, Some(vec!["p1".to_string(), "p2".to_string()]));
    assert_eq!(m.categories, vec!["Asia".to_string(), "World".to_string()]);
    assert_eq!(m.source.to_string(), "CNA");
    assert_eq!(custom_time_to_unix(&m.pub_date), 1705302240);
}

#[test]
fn saving_twice_is_saving_once() {
    let mut db = empty_db();
    db.save_news(model("One", "l1", Some(vec!["p1"]), vec!["Asia", "Asia"], cna()));
    db.save_news(model("One", "l1", Some(vec!["p1"]), vec!["Asia", "Asia"], cna()));
    let fetched = db.fetch_latest_news_by_source(cna());
    assert_eq!(fetched.len(), 1);
    assert_eq!(fetched[0].categories, vec!["Asia".to_string()]);
}

#[test]
fn article_without_paragraphs_is_not_saved() {
    let mut db = empty_db();
    db.save_news(model("One", "l1", None, vec!["Asia"], cna()));
    assert!(db.fetch_latest_news_by_source(cna()).is_empty());
    assert!(!db.check_news_exist(&model("One", "l1", None, vec![], cna())));
}

#[test]
fn known_link_keeps_its_row_and_gains_categories() {
    let mut db = empty_db();
    db.save_news(model("One", "l1", Some(vec!["p1"]), vec!["Asia"], cna()));
    db.save_news(model("Renamed", "l1", Some(vec!["other"]), vec!["World"], cna()));
    let fetched = db.fetch_latest_news_by_source(cna());
    assert_eq!(fetched.len(), 1);
    assert_eq!(fetched[0].title, "One");
    assert_eq!(fetched[0].content, Some(vec!["p1".to_string()]));
    assert_eq!(fetched[0].categories, vec!["Asia".to_string(), "World".to_string()]);
    assert!(db.check_news_exist(&model("One", "x", None, vec![], cna())));
    assert!(!db.check_news_exist(&model("Renamed", "x", None, vec![], cna())));
}

#[test]
fn fetch_by_source_gives_the_first_ten_of_that_source() {
    let mut db = empty_db();
    let mut batch = Vec::new();
    for i in 0..12 {
        batch.push(model(&format!("cna{}", i), &format!("c{}", i), Some(vec!["p"]), vec!["Asia"], cna()));
        batch.push(model(&format!("st{}", i), &format!("s{}", i), Some(vec!["p"]), vec!["Asia"], st()));
    }
    db.save_news_batch(batch);
    let fetched = db.fetch_latest_news_by_source(cna());
    let titles: Vec<String> = fetched.iter().map(|m| m.title.clone()).collect();
    let expected: Vec<String> = (0..10).map(|i| format!("cna{}", i)).collect();
    assert_eq!(titles, expected);
    assert!(fetched.iter().all(|m| m.source.to_string() == "CNA"));
}

#[test]
fn fetch_by_category_matches_names_containing_it_in_any_ascii_case() {
    let mut db = empty_db();
    db.save_news(model("A", "la", Some(vec!["p"]), vec!["south-east ASIA news"], cna()));
    db.save_news(model("B", "lb", Some(vec!["p"]), vec!["World"], cna()));
    db.save_news(model("C", "lc", Some(vec!["p"]), vec!["Asia"], st()));
    let asia = NewsSource::new(NewsSourceEnum::CNA(NewsCategoryCNA::Asia(None)));
    let fetched = db.fetch_news_by_source_and_category(&asia);
    let titles: Vec<String> = fetched.iter().map(|m| m.title.clone()).collect();
    assert_eq!(titles, vec!["A".to_string()]);
}

#[test]
fn stored_paragraphs_split_back() {
    let mut db = empty_db();
    db.save_news(model("One", "l1", Some(vec!["a b", "", "c"]), vec![], cna()));
    let fetched = db.fetch_latest_news_by_source(cna());
    assert_eq!(
        fetched[0].content,
        Some(vec!["a b".to_string(), "".to_string(), "c".to_string()])
    );
}

#[test]
fn empty_paragraph_list_comes_back_as_one_empty_paragraph() {
    let mut db = empty_db();
    db.save_news(model("One", "l1", Some(vec![]), vec![], cna()));
    let fetched = db.fetch_latest_news_by_source(cna());
    assert_eq!(fetched[0].content, Some(vec!["".to_string()]));
}

fn row(id: i64, link: &str, source: SourceId) -> NewsRow {
    NewsRow {
        id,
        title: format!("t{}", id),
        description: "d".to_string(),
        content: "p1\np2".to_string(),
        link: link.to_string(),
        pub_date: 1705302240,
        source,
    }
}

fn category(news_id: i64, name: &str) -> CategoryRow {
    CategoryRow { news_id, category_name: name.to_string(), source: SourceId::CNA }
}

#[test]
fn opening_keeps_the_stored_rows() {
    let mut db = Db::new(
        vec![row(1, "a", SourceId::CNA), row(2, "b", SourceId::StraitsTimes)],
        vec![category(1, "Asia")],
    )
    .unwrap();
    let fetched = db.fetch_latest_news_by_source(cna());
    assert_eq!(fetched.len(), 1);
    assert_eq!(fetched[0].title, "t1");
    assert_eq!(fetched[0].content, Some(vec!["p1".to_string(), "p2".to_string()]));
    assert_eq!(fetched[0].categories, vec!["Asia".to_string()]);
    assert_eq!(custom_time_to_unix(&fetched[0].pub_date), 1705302240);
    db.save_news(model("New", "c", Some(vec!["x"]), vec![], cna()));
    assert_eq!(db.news_rows().len(), 3);
    assert_eq!(db.news_rows()[2].id, 3);
    assert_eq!(db.news_rows()[0].link, "a");
    assert_eq!(db.category_rows().len(), 1);
}

#[test]
fn rows_that_break_the_constraints_are_refused() {
    assert!(Db::new(vec![row(2, "a", SourceId::CNA), row(1, "b", SourceId::CNA)], vec![]).is_none());
    assert!(Db::new(vec![row(0, "a", SourceId::CNA)], vec![]).is_none());
    assert!(Db::new(vec![row(1, "a", SourceId::CNA), row(2, "a", SourceId::CNA)], vec![]).is_none());
    assert!(Db::new(vec![row(1, "a", SourceId::CNA), row(3, "b", SourceId::CNA)], vec![category(2, "Asia")]).is_none());
    assert!(Db::new(vec![row(1, "a", SourceId::CNA)], vec![category(1, "Asia"), category(1, "Asia")]).is_none());
    let mut far = row(1, "a", SourceId::CNA);
    far.pub_date = 300000000000;
    assert!(Db::new(vec![far], vec![]).is_none());
}

#[test]
fn unreadable_dates_are_not_saved() {
    let mut db = empty_db();
    let mut m = model("One", "l1", Some(vec!["p1"]), vec![], cna());
    m.pub_date = "yesterday".to_string();
    assert!(!db.try_save_news(m));
    assert!(db.news_rows().is_empty());
    assert!(db.try_save_news(model("One", "l1", Some(vec!["p1"]), vec![], cna())));
    assert_eq!(db.news_rows().len(), 1);
}

#[test]
fn batches_in_turn_are_one_batch() {
    let make = |i: usize| model(&format!("n{}", i), &format!("l{}", i), Some(vec!["p"]), vec!["Asia"], cna());
    let mut one = empty_db();
    one.save_news_batch((0..4).map(make).collect());
    let mut two = empty_db();
    two.save_news_batch((0..2).map(make).collect());
    two.save_news_batch((2..4).map(make).collect());
    let titles = |db: &Db| db.news_rows().iter().map(|r| r.title.clone()).collect::<Vec<_>>();
    assert_eq!(titles(&one), titles(&two));
    assert_eq!(one.category_rows().len(), two.category_rows().len());
}

#[test]
fn keys_with_gaps_are_kept_and_continued() {
    let mut db = Db::new(
        vec![row(1, "a", SourceId::CNA), row(5, "b", SourceId::CNA)],
        vec![category(5, "Asia"), category(1, "World")],
    )
    .unwrap();
    let asia = NewsSource::new(NewsSourceEnum::CNA(NewsCategoryCNA::Asia(None)));
    let fetched = db.fetch_news_by_source_and_category(&asia);
    assert_eq!(fetched.len(), 1);
    assert_eq!(fetched[0].link, "b");
    db.save_news(model("New", "c", Some(vec!["x"]), vec!["Asia"], cna()));
    assert_eq!(db.news_rows()[2].id, 6);
    assert_eq!(db.fetch_news_by_source_and_category(&asia).len(), 2);
}
