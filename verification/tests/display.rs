use news_tui::tui::app::{App, Focused, Mode, Tab};
use news_tui::tui::display::{
    content_line_count, count_wrapped_lines, handle_key, handle_message, update_max_scroll,
    wrapped_line_count, Command, KeyCode, KeyError, KeyPress, Message,
};
use news_tui::tui::tabs::news::{News, NewsSource, NewsSourceEnum};
use news_tui::services::cna::NewsCategoryCNA;
use news_tui::utils::article::Article;
use news_tui::utils::papers_model::PapersModel;

fn key(c: char) -> KeyPress {
    KeyPress { code: KeyCode::Char(c), control: false }
}

fn article(title: &str) -> Article {
    Article {
        title: title.to_string(),
        description: String::new(),
        content: vec![],
        link: String::new(),
        pub_date: String::new(),
        categories: vec![],
    }
}

#[test]
fn words_wrap_at_the_width() {
    assert_eq!(count_wrapped_lines("aaa bbb ccc", 7), 2);
    assert_eq!(count_wrapped_lines("aa bb cc dd", 5), 2);
    assert_eq!(count_wrapped_lines("abcdefghij", 3), 1);
    assert_eq!(count_wrapped_lines("", 10), 1);
    assert_eq!(count_wrapped_lines("aaa bbb ccc", 0), 1);
    assert_eq!(wrapped_line_count("a b c", 1), Some(3));
}

#[test]
fn paragraphs_take_their_lines_and_a_gap_each() {
    let content = vec!["aaa bbb ccc".to_string(), "dd".to_string()];
    assert_eq!(content_line_count(&content, 7), Some(4));
    assert_eq!(content_line_count(&vec![], 7), Some(0));
}

#[test]
fn maximum_scroll_is_recorded_once() {
    let mut news = News::new();
    news.scroll_offset = 9;
    assert_eq!(update_max_scroll(&mut news, 10, 4), 6);
    assert_eq!(news.max_scroll_offsets.get(&0), Some(&6));
    assert_eq!(news.scroll_offset, 6);
    assert_eq!(update_max_scroll(&mut news, 30, 4), 6);
    assert_eq!(update_max_scroll(&mut News::new(), 3, 4), 0);
}

#[test]
fn quit_and_modes() {
    let mut app = App::new();
    assert!(matches!(handle_key(&mut app, &key('q'), true), Ok(Command::Quit)));
    assert!(matches!(handle_key(&mut app, &key('i'), true), Ok(Command::Idle)));
    assert!(app.mode == Mode::Insert);
    let enter = KeyPress { code: KeyCode::Enter, control: false };
    assert!(matches!(handle_key(&mut app, &enter, true), Ok(Command::Skip)));
    let backspace = KeyPress { code: KeyCode::Backspace, control: false };
    assert!(matches!(handle_key(&mut app, &backspace, true), Ok(Command::Skip)));
    assert!(matches!(handle_key(&mut app, &backspace, false), Ok(Command::EditSearch)));
    assert!(matches!(handle_key(&mut app, &KeyPress { code: KeyCode::Char('x'), control: true }, false), Ok(Command::Skip)));
    assert!(matches!(handle_key(&mut app, &key('q'), false), Ok(Command::EditSearch)));
    let esc = KeyPress { code: KeyCode::Esc, control: false };
    assert!(matches!(handle_key(&mut app, &esc, false), Ok(Command::Idle)));
    assert!(app.mode == Mode::Normal);
    assert!(matches!(handle_key(&mut app, &key('v'), false), Ok(Command::Idle)));
    assert!(matches!(handle_key(&mut app, &key('q'), false), Ok(Command::Idle)));
    assert!(app.mode == Mode::Visual);
}

#[test]
fn tab_moves_to_the_next_category_and_fetches_it() {
    let mut app = App::new();
    app.news_app.items = vec![article("old")];
    let tab = KeyPress { code: KeyCode::Tab, control: false };
    match handle_key(&mut app, &tab, true) {
        Ok(Command::FetchArticles(v)) => assert_eq!(v.category_to_string(), "Asia"),
        _ => panic!("expected a fetch"),
    }
    assert!(app.news_app.items.is_empty());
    let back = KeyPress { code: KeyCode::BackTab, control: false };
    assert!(matches!(handle_key(&mut app, &back, true), Ok(Command::FetchArticles(_))));
    assert!(matches!(handle_key(&mut app, &back, true), Ok(Command::FetchArticles(_))));
    assert_eq!(app.news_app.current_source.category_to_string(), "Today");
}

#[test]
fn letters_choose_tab_focus_and_service() {
    let mut app = App::new();
    handle_key(&mut app, &key('2'), true).unwrap();
    assert!(app.tab == Tab::Papers);
    handle_key(&mut app, &key('l'), true).unwrap();
    assert!(app.focused == Focused::Right);
    assert!(!app.papers_app.sidebar.focused);
    handle_key(&mut app, &key('h'), true).unwrap();
    assert!(app.papers_app.sidebar.focused);
    handle_key(&mut app, &key('1'), true).unwrap();
    handle_key(&mut app, &key('s'), true).unwrap();
    assert_eq!(app.news_app.current_source.to_string(), "StraitsTimes");
    match handle_key(&mut app, &key('3'), true) {
        Ok(Command::FetchArticles(v)) => assert_eq!(v.to_string(), "StraitsTimes"),
        _ => panic!("expected a fetch"),
    }
}

#[test]
fn p_opens_the_selected_paper() {
    let mut app = App::new();
    handle_key(&mut app, &key('2'), true).unwrap();
    assert!(matches!(handle_key(&mut app, &key('p'), true), Ok(Command::Idle)));
    app.papers_app.items = vec![PapersModel { title: "t".into(), summary: "s".into(), authors: vec![], pub_date: "d".into(), link: "https://arxiv.org/1".into() }];
    app.papers_app.reset_display_items();
    handle_key(&mut app, &key('j'), true).unwrap();
    match handle_key(&mut app, &key('p'), true) {
        Ok(Command::OpenLink(link)) => assert_eq!(link, "https://arxiv.org/1"),
        _ => panic!("expected a link"),
    }
    app.papers_app.sidebar.state.selected = Some(3);
    assert!(matches!(handle_key(&mut app, &key('p'), true), Err(KeyError::SelectionOutOfRange)));
}

#[test]
fn fetched_articles_are_listed_and_the_first_selected() {
    let mut app = App::new();
    let source = NewsSource::new(NewsSourceEnum::CNA(NewsCategoryCNA::Latest(None)));
    let command = handle_message(Message::ArticlesFetched(source, vec![article("a"), article("b")]), &mut app);
    assert!(matches!(command, Command::Idle));
    assert_eq!(app.news_app.display_items, vec![0, 1]);
    assert_eq!(app.news_app.sidebar.titles, vec!["a".to_string(), "b".to_string()]);
    assert_eq!(app.news_app.sidebar.state.selected, Some(0));
    let source = NewsSource::new(NewsSourceEnum::CNA(NewsCategoryCNA::Latest(None)));
    match handle_message(Message::GetArticles(source), &mut app) {
        Command::FetchArticles(v) => assert_eq!(v.category_to_string(), "Latest"),
        _ => panic!("expected a fetch"),
    }
    handle_key(&mut app, &key('j'), true).unwrap();
    assert_eq!(app.news_app.sidebar.state.selected, Some(1));
    handle_key(&mut app, &key('k'), true).unwrap();
    assert_eq!(app.news_app.sidebar.state.selected, Some(0));
}

#[test]
fn wider_text_takes_no_more_lines() {
    let text = "one two three four five six";
    let mut previous = count_wrapped_lines(text, 1);
    for width in 2..40 {
        let lines = count_wrapped_lines(text, width);
        assert!(lines <= previous);
        previous = lines;
    }
    assert_eq!(count_wrapped_lines(text, 40), 1);
}
