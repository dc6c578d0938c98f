use news_tui::services::cna::NewsCategoryCNA;
use news_tui::tui::tabs::news::{NewsSource, NewsSourceEnum};
use news_tui::utils::fuzzy::{fuzzy_match, fuzzy_score, rank_titles, try_fuzzy_score};
use news_tui::utils::news_model::NewsModel;

fn model(title: &str) -> NewsModel {
    NewsModel {
        title: title.to_string(),
        description: String::new(),
        content: None,
        link: format!("https://example.com/{}", title),
        pub_date: String::new(),
        categories: vec![],
        source: NewsSource::new(NewsSourceEnum::CNA(NewsCategoryCNA::Latest(None))),
    }
}

#[test]
fn consecutive_matches_score_more() {
    // a: 10 + 1, b: 10 + 2
    assert_eq!(fuzzy_score(&"ab".to_string(), &model("xaby")), 23);
    // a: 10 + 1, c after a break: 10 + 1
    assert_eq!(fuzzy_score(&"ac".to_string(), &model("abc")), 22);
}

#[test]
fn case_is_ignored() {
    assert_eq!(fuzzy_score(&"AB".to_string(), &model("XaBy")), 23);
}

#[test]
fn incomplete_match_scores_zero() {
    assert_eq!(fuzzy_score(&"abc".to_string(), &model("ab")), 0);
    assert_eq!(fuzzy_score(&"z".to_string(), &model("abc")), 0);
}

#[test]
fn empty_query_scores_zero() {
    assert_eq!(fuzzy_score(&"".to_string(), &model("abc")), 0);
}

#[test]
fn multibyte_query_found_before_the_end_cannot_be_scored() {
    assert_eq!(try_fuzzy_score(&"é".to_string(), &model("éa")), None);
    // found exactly at the end: its byte count is never reached, so the score is 0
    assert_eq!(try_fuzzy_score(&"é".to_string(), &model("é")), Some(0));
    assert_eq!(try_fuzzy_score(&"ab".to_string(), &model("xaby")), Some(23));
}

#[test]
fn fuzzy_match_keeps_matching_models_in_order() {
    let results = fuzzy_match("ab".to_string(), vec![model("xaby"), model("zz"), model("ab")]);
    let summary: Vec<(i32, String, usize)> =
        results.iter().map(|(s, m, i)| (*s, m.title.clone(), *i)).collect();
    assert_eq!(
        summary,
        vec![(23, "xaby".to_string(), 0), (23, "ab".to_string(), 2)]
    );
}

#[test]
fn ranking_puts_higher_scores_first_and_later_ties_first() {
    let titles = vec![
        "ab".to_string(),
        "xaby".to_string(),
        "zzz".to_string(),
        "ba b".to_string(),
    ];
    assert_eq!(rank_titles(&"ab".to_string(), &titles), Some(vec![1, 0, 3]));
}

#[test]
fn ranking_fails_when_a_title_cannot_be_scored() {
    let titles = vec!["abc".to_string(), "éa".to_string()];
    assert_eq!(rank_titles(&"é".to_string(), &titles), None);
}

#[test]
fn ascii_scores_lie_within_their_bounds() {
    // three characters: at least 33, at most 30 + 1 + 2 + 3
    assert_eq!(fuzzy_score(&"abc".to_string(), &model("xAbCx")), 36);
    assert_eq!(fuzzy_score(&"abc".to_string(), &model("a-b-c")), 33);
    assert_eq!(fuzzy_score(&"abc".to_string(), &model("acb")), 0);
    assert_eq!(fuzzy_score(&String::new(), &model("anything")), 0);
}

#[test]
fn matching_joined_lists_is_matching_each() {
    let a = vec![model("alpha"), model("beta")];
    let b = vec![model("gamma"), model("delta")];
    let joined: Vec<NewsModel> = a.iter().chain(b.iter()).map(|m| m.duplicate()).collect();
    let whole: Vec<(i32, usize)> = fuzzy_match("a".to_string(), joined).iter().map(|m| (m.0, m.2)).collect();
    let mut parts: Vec<(i32, usize)> = fuzzy_match("a".to_string(), a.iter().map(|m| m.duplicate()).collect()).iter().map(|m| (m.0, m.2)).collect();
    parts.extend(fuzzy_match("a".to_string(), b).iter().map(|m| (m.0, m.2 + a.len())));
    assert_eq!(whole, parts);
}
