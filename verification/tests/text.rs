use news_tui::utils::text::{chars_of, join_strings, replace_all_chars, split_string, split_words, string_of_chars, text_is_blank};

#[test]
fn split_words_skips_runs_of_space() {
    let chars = chars_of("  hello \t world\n ");
    let words = split_words(&chars);
    let words: Vec<String> = words.iter().map(|w| w.iter().collect()).collect();
    assert_eq!(words, vec!["hello".to_string(), "world".to_string()]);
}

#[test]
fn blank_text_is_only_white_space() {
    assert!(text_is_blank(" \t\u{a0}\n"));
    assert!(text_is_blank(""));
    assert!(!text_is_blank("  a "));
}

#[test]
fn join_then_split_gives_back_the_paragraphs() {
    let parts = vec!["first".to_string(), "second".to_string(), "".to_string()];
    let joined = join_strings(&parts, "\n");
    assert_eq!(joined, "first\nsecond\n");
    assert_eq!(split_string(&joined, '\n'), parts);
}

#[test]
fn split_of_empty_text_is_one_empty_piece() {
    assert_eq!(split_string("", '\n'), vec!["".to_string()]);
}

#[test]
fn replace_all_is_left_to_right() {
    let s = chars_of("Asia ,World , Sport");
    let pat = chars_of(" ,");
    let rep = chars_of(", ");
    let r = replace_all_chars(&s, &pat, &rep);
    assert_eq!(string_of_chars(&r), "Asia, World,  Sport");
}
