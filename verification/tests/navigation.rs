use news_tui::tui::tabs::news::News;
use news_tui::tui::tabs::papers::Papers;
use news_tui::utils::article::Article;
use news_tui::utils::papers_model::PapersModel;
use news_tui::utils::sidebar::{next_index, previous_index};

fn article(title: &str) -> Article {
    Article {
        title: title.to_string(),
        description: String::new(),
        content: vec![],
        link: String::new(),
        pub_date: String::new(),
        categories: vec![],
    }
}

fn news_with(titles: &[&str]) -> News {
    let mut news = News::new();
    news.items = titles.iter().map(|t| article(t)).collect();
    news.reset_display_items();
    news.reload_sidebar();
    news
}

#[test]
fn next_and_previous_wrap_around() {
    assert_eq!(next_index(None, 3), 0);
    assert_eq!(next_index(Some(1), 3), 2);
    assert_eq!(next_index(Some(2), 3), 0);
    assert_eq!(next_index(Some(7), 3), 0);
    assert_eq!(previous_index(None, 3), 0);
    assert_eq!(previous_index(Some(0), 3), 2);
    assert_eq!(previous_index(Some(2), 3), 1);
}

#[test]
fn previous_undoes_next() {
    for len in 1..5usize {
        for i in 0..len {
            assert_eq!(previous_index(Some(next_index(Some(i), len)), len), i);
            assert_eq!(next_index(Some(previous_index(Some(i), len)), len), i);
        }
    }
}

#[test]
fn moving_down_a_whole_list_comes_back() {
    let len = 4;
    let mut i = 2;
    for _ in 0..len {
        i = next_index(Some(i), len);
    }
    assert_eq!(i, 2);
}

#[test]
fn reset_and_reload_list_every_title() {
    let news = news_with(&["one", "two", "three"]);
    assert_eq!(news.display_items, vec![0, 1, 2]);
    assert_eq!(news.sidebar.titles, vec!["one".to_string(), "two".to_string(), "three".to_string()]);
}

#[test]
fn news_selection_moves_and_resets_scroll() {
    let mut news = news_with(&["one", "two", "three"]);
    news.scroll_offset = 4;
    news.next();
    assert_eq!(news.sidebar.state.selected, Some(0));
    assert_eq!(news.scroll_offset, 0);
    news.previous();
    assert_eq!(news.sidebar.state.selected, Some(2));
    assert_eq!(news.get_current_article().title, "three");
}

#[test]
fn empty_list_ignores_moves() {
    let mut news = News::new();
    news.scroll_offset = 3;
    news.next();
    news.previous();
    assert_eq!(news.sidebar.state.selected, None);
    assert_eq!(news.scroll_offset, 3);
}

#[test]
fn scrolling_stays_within_the_recorded_maximum() {
    let mut news = news_with(&["one"]);
    news.scroll_down();
    assert_eq!(news.scroll_offset, 0); // nothing selected
    news.next();
    news.scroll_down();
    assert_eq!(news.scroll_offset, 0); // no maximum recorded yet
    news.max_scroll_offsets.insert(0, 2);
    news.scroll_down();
    news.scroll_down();
    news.scroll_down();
    assert_eq!(news.scroll_offset, 2);
    news.scroll_up();
    news.scroll_up();
    news.scroll_up();
    assert_eq!(news.scroll_offset, 0);
}

#[test]
fn clear_items_drops_articles_and_selection() {
    let mut news = news_with(&["one"]);
    news.next();
    news.clear_items();
    assert!(news.items.is_empty());
    assert_eq!(news.sidebar.state.selected, None);
}

#[test]
fn search_lists_matching_titles_best_first() {
    let mut news = news_with(&["ab", "xaby", "zzz", "ba b"]);
    assert!(news.apply_search(&"ab".to_string()));
    assert_eq!(news.display_items, vec![1, 0, 3]);
    assert_eq!(news.sidebar.titles, vec!["xaby".to_string(), "ab".to_string(), "ba b".to_string()]);
    assert_eq!(news.sidebar.state.selected, Some(0));
    assert!(news.apply_search(&"".to_string()));
    assert_eq!(news.display_items, vec![0, 1, 2, 3]);
}

#[test]
fn search_that_cannot_be_scored_changes_nothing() {
    let mut news = news_with(&["éa"]);
    assert!(!news.apply_search(&"é".to_string()));
    assert_eq!(news.display_items, vec![0]);
    assert_eq!(news.sidebar.state.selected, None);
}

#[test]
fn papers_navigate_like_news() {
    let mut papers = Papers::new();
    papers.items = vec![
        PapersModel { title: "p1".into(), summary: "s".into(), authors: vec![], pub_date: "d".into(), link: "l1".into() },
        PapersModel { title: "p2".into(), summary: "s".into(), authors: vec![], pub_date: "d".into(), link: "l2".into() },
    ];
    papers.reset_display_items();
    papers.reload_sidebar();
    assert_eq!(papers.sidebar.titles, vec!["p1".to_string(), "p2".to_string()]);
    assert_eq!(papers.selected_link(), Some(None));
    papers.previous();
    assert_eq!(papers.sidebar.state.selected, Some(0));
    papers.previous();
    assert_eq!(papers.sidebar.state.selected, Some(1));
    assert_eq!(papers.selected_link(), Some(Some("l2".to_string())));
    papers.next();
    assert_eq!(papers.sidebar.state.selected, Some(0));
    papers.sidebar.state.selected = Some(5);
    assert_eq!(papers.selected_link(), None);
}
