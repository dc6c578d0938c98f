use vstd::prelude::*;

use crate::tui::app::{App, Focused, Mode, Tab};
use crate::tui::tabs::news::{
    category_count_of, scrolled_down, News, NewsSource, NewsSourceEnum, SourceId,
};
use crate::utils::article::{articles_view, Article};
use crate::utils::papers_model::PapersModel;
use crate::utils::sidebar::{next_selection, previous_selection};
use crate::utils::text::{chars_of, split_words, words};

verus! {

/// Laying words out on lines of `width` characters, as far as the given words: the number of
/// lines and the length of the last one. A word goes on the current line, after a space, when
/// it fits; otherwise it starts a new line.
pub open spec fn wrap_fold(ws: Seq<Seq<char>>, width: int) -> (int, int)
    decreases ws.len(),
{
    if ws.len() == 0 {
        (1, 0)
    } else {
        let (lines, cur) = wrap_fold(ws.drop_last(), width);
        let w = ws.last().len() as int;
        if cur == 0 {
            (lines, w)
        } else if cur + 1 + w > width {
            (lines + 1, w)
        } else {
            (lines, cur + 1 + w)
        }
    }
}

/// How many lines a text takes when its words are wrapped at `width` characters (one line for
/// a width of 0).
pub open spec fn wrapped_lines(text: Seq<char>, width: int) -> int {
    if width == 0 {
        1
    } else {
        wrap_fold(words(text), width).0
    }
}

proof fn lemma_wrap_fold_bounds(ws: Seq<Seq<char>>, width: int, n: int)
    requires
        0 <= n <= ws.len(),
    ensures
        1 <= wrap_fold(ws.take(n), width).0 <= wrap_fold(ws, width).0,
        wrap_fold(ws.take(n), width).1 >= 0,
    decreases ws.len() - n,
{
    if n < ws.len() {
        lemma_wrap_fold_bounds(ws, width, n + 1);
        assert(ws.take(n + 1).drop_last() == ws.take(n));
    } else {
        assert(ws.take(n) == ws);
    }
    lemma_wrap_fold_nonneg(ws.take(n), width);
}

proof fn lemma_wrap_fold_nonneg(ws: Seq<Seq<char>>, width: int)
    ensures
        wrap_fold(ws, width).0 >= 1,
        wrap_fold(ws, width).1 >= 0,
    decreases ws.len(),
{
    if ws.len() > 0 {
        lemma_wrap_fold_nonneg(ws.drop_last(), width);
    }
}

/// When every word fits on a line by itself, no wrapped line is longer than the width, counting
/// one space between neighbouring words: the line being filled never passes `width` (and every
/// earlier line was such a line).
pub proof fn lemma_wrapped_lines_fit(ws: Seq<Seq<char>>, width: int)
    requires
        width >= 0,
        forall|i: int| 0 <= i < ws.len() ==> #[trigger] ws[i].len() <= width,
    ensures
        0 <= wrap_fold(ws, width).1 <= width,
    decreases ws.len(),
{
    if ws.len() > 0 {
        assert forall|i: int| 0 <= i < ws.drop_last().len() implies #[trigger] ws.drop_last()[i].len() <= width by {
            assert(ws.drop_last()[i] == ws[i]);
        }
        lemma_wrapped_lines_fit(ws.drop_last(), width);
        assert(ws.last().len() <= width);
    }
}

/// A word starts a new line exactly when the line being filled holds something and the word
/// does not fit after it with one space; otherwise the word joins that line.
pub proof fn lemma_new_line_only_when_word_does_not_fit(ws: Seq<Seq<char>>, word: Seq<char>, width: int)
    ensures
        ({
            let (lines, cur) = wrap_fold(ws, width);
            let (after_lines, after_cur) = wrap_fold(ws.push(word), width);
            &&& after_lines == lines + 1 <==> (cur > 0 && cur + 1 + word.len() > width)
            &&& after_lines == lines + 1 ==> after_cur == word.len()
            &&& after_lines == lines ==> after_cur == (if cur > 0 { cur + 1 + word.len() } else { word.len() as int })
            &&& after_lines == lines || after_lines == lines + 1
        }),
{
    lemma_wrap_fold_nonneg(ws, width);
    assert(ws.push(word).drop_last() == ws);
    assert(ws.push(word).last() == word);
    let (lines, cur) = wrap_fold(ws, width);
    assert(wrap_fold(ws.push(word), width) == (if cur == 0 {
        (lines, word.len() as int)
    } else if cur + 1 + word.len() > width {
        (lines + 1, word.len() as int)
    } else {
        (lines, cur + 1 + word.len())
    }));
}

/// Two words share a line exactly when both fit on it with one space between them.
pub proof fn lemma_two_words_share_a_line_when_they_fit(a: Seq<char>, b: Seq<char>, width: int)
    requires
        a.len() > 0,
    ensures
        wrap_fold(seq![a, b], width).0 == (if a.len() + 1 + b.len() > width { 2int } else { 1int }),
{
    let ws = seq![a, b];
    assert(ws.drop_last() == seq![a]);
    assert(seq![a].drop_last() == Seq::<Seq<char>>::empty());
    assert(seq![a].last() == a);
    assert(ws.last() == b);
    assert(wrap_fold(Seq::<Seq<char>>::empty(), width) == (1int, 0int));
    assert(wrap_fold(seq![a], width) == (1int, a.len() as int));
}

/// Wrapping at the wider width ends no later: on fewer lines, or on as many with a last line no
/// longer.
proof fn lemma_wrap_fold_wider(ws: Seq<Seq<char>>, w1: int, w2: int)
    requires
        w1 <= w2,
    ensures
        ({
            let (l1, c1) = wrap_fold(ws, w1);
            let (l2, c2) = wrap_fold(ws, w2);
            l2 < l1 || (l2 == l1 && c2 <= c1)
        }),
    decreases ws.len(),
{
    if ws.len() > 0 {
        lemma_wrap_fold_wider(ws.drop_last(), w1, w2);
        lemma_wrap_fold_nonneg(ws.drop_last(), w1);
        lemma_wrap_fold_nonneg(ws.drop_last(), w2);
    }
}

/// A text wrapped at a wider width takes no more lines (for widths above 0; a width of 0 counts
/// as one line).
pub proof fn lemma_wider_wraps_in_no_more_lines(text: Seq<char>, w1: int, w2: int)
    requires
        0 < w1 <= w2,
    ensures
        wrapped_lines(text, w2) <= wrapped_lines(text, w1),
{
    lemma_wrap_fold_wider(words(text), w1, w2);
}

/// How many lines a text takes when its words are wrapped at `width` characters.
pub fn count_wrapped_lines(text: &str, width: u16) -> (r: u16)
    requires
        wrapped_lines(text@, width as int) <= u16::MAX,
    ensures
        r == wrapped_lines(text@, width as int),
{
    if width == 0 {
        return 1;
    }
    let width = width as usize;
    let chars = chars_of(text);
    let ws = split_words(chars.as_slice());
    let ghost wv = words(text@);
    let mut lines: u16 = 1;
    let mut current_len: usize = 0;
    for k in 0..ws.len()
        invariant
            chars@ == text@,
            wv == words(text@),
            ws@.len() == wv.len(),
            forall|i: int| 0 <= i < ws@.len() ==> #[trigger] ws@[i]@ == wv[i],
            width > 0,
            wrap_fold(wv, width as int).0 <= u16::MAX,
            (lines as int, current_len as int) == wrap_fold(wv.take(k as int), width as int),
    {
        proof {
            lemma_wrap_fold_bounds(wv, width as int, k + 1);
        }
        assert(wv.take(k + 1).drop_last() == wv.take(k as int));
        assert(wv.take(k + 1).last() == ws@[k as int]@);
        let word_len = ws[k].len();
        if current_len == 0 {
            current_len = word_len;
        } else if current_len >= width || word_len > width - 1 - current_len {
            lines = lines + 1;
            current_len = word_len;
        } else {
            current_len = current_len + 1 + word_len;
        }
    }
    assert(wv.take(wv.len() as int) == wv);
    lines
}

/// The lines a list of paragraphs takes at `width`: the lines of each, plus one blank line
/// between each two; `None` where the count leaves `u16`.
pub open spec fn paragraph_lines(content: Seq<Seq<char>>, width: int) -> Option<int>
    decreases content.len(),
{
    if content.len() == 0 {
        Some(0)
    } else {
        match paragraph_lines(content.drop_last(), width) {
            None => None,
            Some(total) => {
                let n = wrapped_lines(content.last(), width);
                if n > u16::MAX || total + n > u16::MAX {
                    None
                } else {
                    Some(total + n)
                }
            },
        }
    }
}

/// The lines that the selected article's paragraphs take in a pane of `width` columns: their
/// wrapped lines plus one between each two paragraphs; `None` where the count leaves `u16`.
pub open spec fn content_lines(content: Seq<Seq<char>>, width: int) -> Option<int> {
    match paragraph_lines(content, width) {
        None => None,
        Some(total) => {
            let gaps = (if content.len() == 0 { 0 } else { content.len() - 1 }) % 65536;
            if total + gaps > u16::MAX {
                None
            } else {
                Some(total + gaps)
            }
        },
    }
}

proof fn lemma_paragraph_lines_prefix(content: Seq<Seq<char>>, width: int, n: int)
    requires
        0 <= n <= content.len(),
        paragraph_lines(content.take(n), width) is None,
    ensures
        paragraph_lines(content, width) is None,
    decreases content.len() - n,
{
    if n < content.len() {
        assert(content.take(n + 1).drop_last() == content.take(n));
        lemma_paragraph_lines_prefix(content, width, n + 1);
    } else {
        assert(content.take(n) == content);
    }
}

/// Counts the lines that paragraphs take in a pane of `width` columns; `None` where the count
/// leaves `u16`.
pub fn content_line_count(content: &Vec<String>, width: u16) -> (r: Option<u16>)
    ensures
        match r {
            Some(n) => content_lines(content.deep_view(), width as int) == Some(n as int),
            None => content_lines(content.deep_view(), width as int) is None,
        },
{
    let ghost cv = content.deep_view();
    let mut total: u16 = 0;
    for i in 0..content.len()
        invariant
            cv == content.deep_view(),
            paragraph_lines(cv.take(i as int), width as int) == Some(total as int),
    {
        assert(cv.take(i + 1).drop_last() == cv.take(i as int));
        assert(cv.take(i + 1).last() == content@[i as int]@);
        let n = match wrapped_line_count(content[i].as_str(), width) {
            Some(n) => n,
            None => {
                proof {
                    lemma_paragraph_lines_prefix(cv, width as int, i + 1);
                }
                return None;
            },
        };
        if n > u16::MAX - total {
            proof {
                lemma_paragraph_lines_prefix(cv, width as int, i + 1);
            }
            return None;
        }
        total = total + n;
    }
    assert(cv.take(content@.len() as int) == cv);
    let gaps: u16 = if content.len() == 0 {
        0
    } else {
        ((content.len() - 1) % 65536) as u16
    };
    if gaps > u16::MAX - total {
        return None;
    }
    Some(total + gaps)
}

/// The lines a text takes wrapped at `width`, or `None` when they are more than `u16` holds.
pub fn wrapped_line_count(text: &str, width: u16) -> (r: Option<u16>)
    ensures
        match r {
            Some(n) => wrapped_lines(text@, width as int) == n as int,
            None => wrapped_lines(text@, width as int) > u16::MAX,
        },
{
    if width == 0 {
        return Some(1);
    }
    let w = width as usize;
    let chars = chars_of(text);
    let ws = split_words(chars.as_slice());
    let ghost wv = words(text@);
    let mut lines: u16 = 1;
    let mut current_len: usize = 0;
    for k in 0..ws.len()
        invariant
            chars@ == text@,
            wv == words(text@),
            ws@.len() == wv.len(),
            forall|i: int| 0 <= i < ws@.len() ==> #[trigger] ws@[i]@ == wv[i],
            w == width,
            w > 0,
            (lines as int, current_len as int) == wrap_fold(wv.take(k as int), w as int),
    {
        assert(wv.take(k + 1).drop_last() == wv.take(k as int));
        assert(wv.take(k + 1).last() == ws@[k as int]@);
        let word_len = ws[k].len();
        if current_len == 0 {
            current_len = word_len;
        } else if current_len >= w || word_len > w - 1 - current_len {
            if lines == u16::MAX {
                assert(wrap_fold(wv.take(k + 1), w as int).0 == lines + 1);
                proof {
                    lemma_wrap_fold_bounds(wv, w as int, k + 1);
                }
                return None;
            }
            lines = lines + 1;
            current_len = word_len;
        } else {
            current_len = current_len + 1 + word_len;
        }
    }
    assert(wv.take(wv.len() as int) == wv);
    let r = count_wrapped_lines(text, width);
    Some(r)
}

/// The furthest scroll position of the selected article (the first when none is selected):
/// the one recorded, or, when none is recorded or it is 0, the lines that do not fit in the
/// pane, which is then recorded and the scroll position kept within it.
pub open spec fn max_scroll_after(recorded: Option<u16>, total_lines: u16, viewport_height: u16) -> u16 {
    match recorded {
        Some(m) if m != 0 => m,
        _ => if total_lines > viewport_height { (total_lines - viewport_height) as u16 } else { 0 },
    }
}

/// Works out the furthest scroll position of the selected article, records it and keeps the
/// scroll position within it.
pub fn update_max_scroll(news_app: &mut News, total_lines: u16, viewport_height: u16) -> (r: u16)
    ensures
        ({
            let idx = match old(news_app).sidebar.state.selected { Some(i) => i, None => 0 };
            let recorded = if old(news_app).max_scroll_offsets@.contains_key(idx) {
                Some(old(news_app).max_scroll_offsets@[idx])
            } else {
                None
            };
            let m = max_scroll_after(recorded, total_lines, viewport_height);
            &&& r == m
            &&& if recorded matches Some(v) && v != 0 {
                &&& final(news_app).max_scroll_offsets@ == old(news_app).max_scroll_offsets@
                &&& final(news_app).scroll_offset == old(news_app).scroll_offset
            } else {
                &&& final(news_app).max_scroll_offsets@ == old(news_app).max_scroll_offsets@.insert(idx, m)
                &&& final(news_app).scroll_offset == if old(news_app).scroll_offset > m { m } else { old(news_app).scroll_offset }
            }
        }),
        final(news_app).sidebar == old(news_app).sidebar,
        final(news_app).items == old(news_app).items,
        final(news_app).display_items == old(news_app).display_items,
        final(news_app).same_sources(old(news_app)),
{
    broadcast use vstd::std_specs::hash::group_hash_axioms;
    assert(vstd::std_specs::hash::obeys_key_model::<usize>());
    assert(vstd::std_specs::hash::builds_valid_hashers::<std::hash::RandomState>());
    let idx = match news_app.sidebar.state.selected {
        Some(i) => i,
        None => 0,
    };
    let mut max_scroll: u16 = match news_app.max_scroll_offsets.get(&idx) {
        Some(m) => *m,
        None => 0,
    };
    if max_scroll == 0 {
        max_scroll = total_lines.saturating_sub(viewport_height);
        news_app.max_scroll_offsets.insert(idx, max_scroll);
        if news_app.scroll_offset > max_scroll {
            news_app.scroll_offset = max_scroll;
        }
    }
    max_scroll
}


/// A message from a background task to the main loop.
pub enum Message {
    /// Fetch the articles of the service being read.
    GetArticles(NewsSource),
    /// Articles fetched for a service.
    ArticlesFetched(NewsSource, Vec<Article>),
    /// Papers fetched.
    PapersFetched(Vec<PapersModel>),
}

/// What the main loop does after handling a key or a message.
pub enum Command {
    /// Draw the screen and go on.
    Idle,
    /// Go on without drawing.
    Skip,
    /// Fetch the articles of this category in the background, then draw.
    FetchArticles(NewsSourceEnum),
    /// Give the key to the search box, search with its new text (`News::apply_search`), then
    /// draw.
    EditSearch,
    /// Open this address in the web browser, then draw.
    OpenLink(String),
    /// Leave the application.
    Quit,
}

/// A key of the keyboard, as far as the application tells keys apart.
#[derive(PartialEq, Eq, Structural, Clone, Copy)]
pub enum KeyCode {
    Esc,
    Enter,
    Backspace,
    Tab,
    BackTab,
    Char(char),
    Other,
}

/// A key press: the key and whether Control was held.
pub struct KeyPress {
    pub code: KeyCode,
    pub control: bool,
}

/// Why a key cannot be handled.
#[derive(PartialEq, Eq, Structural, Clone, Copy, Debug)]
pub enum KeyError {
    /// The selected entry of the papers list points past the papers.
    SelectionOutOfRange,
}

/// The command fetches the articles of the category `source` reads.
pub open spec fn fetches(r: Command, source: NewsSourceEnum) -> bool {
    r matches Command::FetchArticles(v) && v.source_index() == source.source_index()
        && v.category_index() == source.category_index()
}

/// The key was handled and the articles of the category `source` reads are to be fetched.
pub open spec fn ok_fetches(r: Result<Command, KeyError>, source: NewsSourceEnum) -> bool {
    match r {
        Ok(c) => fetches(c, source),
        Err(_) => false,
    }
}

/// The key was handled and this address is to be opened.
pub open spec fn ok_opens(r: Result<Command, KeyError>, link: Seq<char>) -> bool {
    match r {
        Ok(Command::OpenLink(l)) => l@ == link,
        _ => false,
    }
}

/// Handles a message from a background task. A request for articles asks for the current
/// category of the service being read; fetched articles are stored, all listed, shown, and the
/// first is selected; fetched papers change nothing.
pub fn handle_message(message: Message, app: &mut App) -> (r: Command)
    requires
        old(app).news_app.wf(),
    ensures
        final(app).news_app.wf(),
        final(app).focused == old(app).focused,
        final(app).mode == old(app).mode,
        final(app).tab == old(app).tab,
        final(app).papers_app == old(app).papers_app,
        message is GetArticles ==> fetches(r, old(app).news_app.current().source_variant) && final(app).news_app == old(app).news_app,
        message is PapersFetched ==> r is Idle && final(app).news_app == old(app).news_app,
        message matches Message::ArticlesFetched(_, articles) ==> {
            &&& r is Idle
            &&& final(app).news_app.current_source == old(app).news_app.current_source
            &&& final(app).news_app.current().source_variant.cached_articles() == Some(articles)
            &&& articles_view(final(app).news_app.items@) == articles_view(articles@)
            &&& final(app).news_app.display_items@ == Seq::new(articles@.len(), |i: int| i as usize)
            &&& final(app).news_app.sidebar.titles.deep_view() == final(app).news_app.listed_titles()
            &&& final(app).news_app.sidebar.state.selected == Some(0usize)
        },
{
    match message {
        Message::GetArticles(_) => {
            let source = app.news_app.get_current_news_source();
            Command::FetchArticles(source.source_variant.duplicate())
        },
        Message::ArticlesFetched(_, articles) => {
            app.news_app.update_source_articles(articles);
            app.news_app.reset_display_items();
            app.news_app.reload_sidebar();
            app.news_app.sidebar.state.selected = Some(0);
            Command::Idle
        },
        Message::PapersFetched(_) => Command::Idle,
    }
}

/// Switches the news tab to another service and drops its articles.
pub fn change_source(app: &mut App, source: SourceId)
    requires
        old(app).news_app.wf(),
    ensures
        final(app).news_app.wf(),
        final(app).news_app.current_source.source_index() == source.index(),
        final(app).news_app.current_source.category_index() == old(app).news_app.source_at(source.index()).source_variant.category_index(),
        final(app).news_app.items@.len() == 0,
        final(app).news_app.sidebar.state.selected is None,
        final(app).focused == old(app).focused,
        final(app).mode == old(app).mode,
        final(app).tab == old(app).tab,
        final(app).papers_app == old(app).papers_app,
{
    app.news_app.change_source(source);
}

/// The keys that do something in normal mode.
pub open spec fn is_command_key(code: KeyCode) -> bool {
    ||| code == KeyCode::Tab
    ||| code == KeyCode::BackTab
    ||| code == KeyCode::Char('1')
    ||| code == KeyCode::Char('2')
    ||| code == KeyCode::Char('3')
    ||| code == KeyCode::Char('c')
    ||| code == KeyCode::Char('s')
    ||| code == KeyCode::Char('b')
    ||| code == KeyCode::Char('p')
    ||| code == KeyCode::Char('i')
    ||| code == KeyCode::Char('v')
    ||| code == KeyCode::Char('h')
    ||| code == KeyCode::Char('l')
    ||| code == KeyCode::Char('j')
    ||| code == KeyCode::Char('k')
    ||| code == KeyCode::Char('q')
}

/// The mode a key is handled in: Esc returns to normal mode first.
pub open spec fn effective_mode(mode: Mode, code: KeyCode) -> Mode {
    if code == KeyCode::Esc {
        Mode::Normal
    } else {
        mode
    }
}

/// Handles a key press. Esc returns to normal mode. In insert mode a key with Control, Enter,
/// or Backspace on an empty search box is ignored without drawing, and any other key edits the
/// search. In normal mode: Tab and Shift-Tab move the news tab to the next or previous
/// category and fetch it (Tab also drops the articles), 1 and 2 choose the tab, 3 fetches the
/// current category again, c, s and b choose the service, p opens the selected paper's link, i
/// and v enter insert and visual mode, h and l move the focus left and right, j and k move down
/// and up the list or scroll the article, q quits.
pub fn handle_key(app: &mut App, key: &KeyPress, search_is_empty: bool) -> (r: Result<Command, KeyError>)
    requires
        old(app).news_app.wf(),
    ensures
        final(app).news_app.wf(),
        r is Err ==> *final(app) == *old(app) || final(app).mode == Mode::Normal,
        r matches Ok(Command::Quit) ==> key.code == KeyCode::Char('q')
            && effective_mode(old(app).mode, key.code) == Mode::Normal,
        effective_mode(old(app).mode, key.code) == Mode::Normal && key.code == KeyCode::Char('p')
            && old(app).tab != Tab::Papers ==> r == Ok::<Command, KeyError>(Command::Idle),
        ({
            let mode = effective_mode(old(app).mode, key.code);
            &&& mode == Mode::Insert ==> {
                &&& *final(app) == *old(app)
                &&& r == Ok::<Command, KeyError>(if key.control || key.code == KeyCode::Enter || (key.code == KeyCode::Backspace && search_is_empty) {
                    Command::Skip
                } else {
                    Command::EditSearch
                })
            }
            &&& mode == Mode::Visual ==> final(app).news_app == old(app).news_app && final(app).papers_app == old(app).papers_app
                && r == Ok::<Command, KeyError>(Command::Idle)
            &&& mode == Mode::Normal ==> {
                &&& final(app).mode == (if key.code == KeyCode::Char('i') {
                    Mode::Insert
                } else if key.code == KeyCode::Char('v') {
                    Mode::Visual
                } else {
                    Mode::Normal
                })
                &&& !is_command_key(key.code) ==> {
                    &&& r == Ok::<Command, KeyError>(Command::Idle)
                    &&& final(app).news_app == old(app).news_app
                    &&& final(app).papers_app == old(app).papers_app
                    &&& final(app).focused == old(app).focused
                    &&& final(app).tab == old(app).tab
                }
                &&& is_command_key(key.code) && key.code != KeyCode::Tab && key.code != KeyCode::BackTab
                    && key.code != KeyCode::Char('3') && key.code != KeyCode::Char('p') && key.code != KeyCode::Char('q')
                    ==> r == Ok::<Command, KeyError>(Command::Idle)
                &&& key.code != KeyCode::Char('1') && key.code != KeyCode::Char('2') ==> final(app).tab == old(app).tab
                &&& key.code != KeyCode::Char('h') && key.code != KeyCode::Char('l') ==> final(app).focused == old(app).focused
                &&& key.code != KeyCode::Tab && key.code != KeyCode::BackTab && key.code != KeyCode::Char('c')
                    && key.code != KeyCode::Char('s') && key.code != KeyCode::Char('b') && key.code != KeyCode::Char('h')
                    && key.code != KeyCode::Char('l') && key.code != KeyCode::Char('j') && key.code != KeyCode::Char('k')
                    ==> final(app).news_app == old(app).news_app
                &&& key.code != KeyCode::Char('h') && key.code != KeyCode::Char('l') && key.code != KeyCode::Char('j')
                    && key.code != KeyCode::Char('k') ==> final(app).papers_app == old(app).papers_app
                &&& (key.code == KeyCode::Char('j') || key.code == KeyCode::Char('k') || key.code == KeyCode::Char('h')
                    || key.code == KeyCode::Char('l')) && old(app).tab != Tab::News ==> final(app).news_app == old(app).news_app
                &&& (key.code == KeyCode::Char('j') || key.code == KeyCode::Char('k') || key.code == KeyCode::Char('h')
                    || key.code == KeyCode::Char('l')) && old(app).tab != Tab::Papers ==> final(app).papers_app == old(app).papers_app
                &&& key.code == KeyCode::Char('q') ==> r == Ok::<Command, KeyError>(Command::Quit)
                    && final(app).news_app == old(app).news_app && final(app).papers_app == old(app).papers_app
                &&& key.code == KeyCode::Char('1') ==> final(app).tab == Tab::News
                &&& key.code == KeyCode::Char('2') ==> final(app).tab == Tab::Papers
                &&& key.code == KeyCode::Char('3') ==> ok_fetches(r, old(app).news_app.current_source)
                &&& key.code == KeyCode::Char('h') ==> final(app).focused == Focused::Left
                    && (old(app).tab == Tab::News ==> final(app).news_app.sidebar.focused)
                    && (old(app).tab == Tab::Papers ==> final(app).papers_app.sidebar.focused)
                &&& key.code == KeyCode::Char('l') ==> final(app).focused == Focused::Right
                    && (old(app).tab == Tab::News ==> !final(app).news_app.sidebar.focused)
                    && (old(app).tab == Tab::Papers ==> !final(app).papers_app.sidebar.focused)
                &&& key.code == KeyCode::Char('c') ==> final(app).news_app.current_source.source_index() == 0
                    && final(app).news_app.items@.len() == 0
                    && final(app).news_app.current_source.category_index() == old(app).news_app.source_at(0).source_variant.category_index()
                    && final(app).news_app.sidebar.state.selected is None
                &&& key.code == KeyCode::Char('s') ==> final(app).news_app.current_source.source_index() == 1
                    && final(app).news_app.items@.len() == 0
                    && final(app).news_app.current_source.category_index() == old(app).news_app.source_at(1).source_variant.category_index()
                    && final(app).news_app.sidebar.state.selected is None
                &&& key.code == KeyCode::Char('b') ==> final(app).news_app.current_source.source_index() == 2
                    && final(app).news_app.items@.len() == 0
                    && final(app).news_app.current_source.category_index() == old(app).news_app.source_at(2).source_variant.category_index()
                    && final(app).news_app.sidebar.state.selected is None
                &&& key.code == KeyCode::Char('j') && old(app).focused == Focused::Left && old(app).tab == Tab::News
                    && old(app).news_app.display_items@.len() > 0
                    ==> final(app).news_app.sidebar.state.selected == Some(next_selection(old(app).news_app.sidebar.state.selected, old(app).news_app.display_items@.len()) as usize)
                &&& key.code == KeyCode::Char('k') && old(app).focused == Focused::Left && old(app).tab == Tab::News
                    && old(app).news_app.display_items@.len() > 0
                    ==> final(app).news_app.sidebar.state.selected == Some(previous_selection(old(app).news_app.sidebar.state.selected, old(app).news_app.display_items@.len()) as usize)
                &&& key.code == KeyCode::Char('j') && old(app).focused == Focused::Left && old(app).tab == Tab::Papers
                    && old(app).papers_app.display_items@.len() > 0
                    ==> final(app).papers_app.sidebar.state.selected == Some(next_selection(old(app).papers_app.sidebar.state.selected, old(app).papers_app.display_items@.len()) as usize)
                &&& key.code == KeyCode::Char('k') && old(app).focused == Focused::Left && old(app).tab == Tab::Papers
                    && old(app).papers_app.display_items@.len() > 0
                    ==> final(app).papers_app.sidebar.state.selected == Some(previous_selection(old(app).papers_app.sidebar.state.selected, old(app).papers_app.display_items@.len()) as usize)
                &&& key.code == KeyCode::Char('j') && old(app).focused == Focused::Right && old(app).tab == Tab::News
                    ==> final(app).news_app.scroll_offset == scrolled_down(old(app).news_app.sidebar.state.selected, old(app).news_app.max_scroll_offsets@, old(app).news_app.scroll_offset)
                &&& key.code == KeyCode::Char('k') && old(app).focused == Focused::Right && old(app).tab == Tab::News
                    ==> final(app).news_app.scroll_offset == (if old(app).news_app.scroll_offset == 0 { 0 } else { (old(app).news_app.scroll_offset - 1) as u16 })
                &&& key.code == KeyCode::Char('j') && old(app).focused == Focused::Right && old(app).tab == Tab::Papers
                    ==> final(app).papers_app.scroll_offset == scrolled_down(old(app).papers_app.sidebar.state.selected, old(app).papers_app.max_scroll_offsets@, old(app).papers_app.scroll_offset)
                &&& key.code == KeyCode::Char('k') && old(app).focused == Focused::Right && old(app).tab == Tab::Papers
                    ==> final(app).papers_app.scroll_offset == (if old(app).papers_app.scroll_offset == 0 { 0 } else { (old(app).papers_app.scroll_offset - 1) as u16 })
                &&& (key.code == KeyCode::Tab || key.code == KeyCode::BackTab) && old(app).tab != Tab::News ==> {
                    &&& r == Ok::<Command, KeyError>(Command::Idle)
                    &&& final(app).news_app == old(app).news_app
                    &&& final(app).papers_app == old(app).papers_app
                }
                &&& key.code == KeyCode::Tab && old(app).tab == Tab::News ==> {
                    &&& final(app).news_app.current().position() == next_selection(
                        Some(old(app).news_app.current().position() as usize),
                        category_count_of(old(app).news_app.current_source.source_index()))
                    &&& final(app).news_app.items@.len() == 0
                    &&& final(app).news_app.sidebar.state.selected is None
                    &&& final(app).news_app.current_source.source_index() == old(app).news_app.current_source.source_index()
                    &&& ok_fetches(r, final(app).news_app.current_source)
                }
                &&& key.code == KeyCode::BackTab && old(app).tab == Tab::News ==> {
                    &&& final(app).news_app.current().position() == previous_selection(
                        Some(old(app).news_app.current().position() as usize),
                        category_count_of(old(app).news_app.current_source.source_index()))
                    &&& final(app).news_app.current_source.source_index() == old(app).news_app.current_source.source_index()
                    &&& final(app).news_app.items == old(app).news_app.items
                    &&& ok_fetches(r, final(app).news_app.current_source)
                }
                &&& key.code == KeyCode::Char('p') && old(app).tab == Tab::Papers ==> {
                    match old(app).papers_app.sidebar.state.selected {
                        None => r == Ok::<Command, KeyError>(Command::Idle),
                        Some(i) => if i < old(app).papers_app.display_items@.len()
                            && old(app).papers_app.display_items@[i as int] < old(app).papers_app.items@.len() {
                            ok_opens(r, old(app).papers_app.items@[old(app).papers_app.display_items@[i as int] as int].link@)
                        } else {
                            r == Err::<Command, KeyError>(KeyError::SelectionOutOfRange)
                        },
                    }
                }
            }
        }),
{
    if key.code == KeyCode::Esc {
        app.mode = Mode::Normal;
    }
    match app.mode {
        Mode::Insert => {
            if key.control || key.code == KeyCode::Enter || (key.code == KeyCode::Backspace && search_is_empty) {
                Ok(Command::Skip)
            } else {
                Ok(Command::EditSearch)
            }
        },
        Mode::Visual => Ok(Command::Idle),
        Mode::Normal => match key.code {
            KeyCode::Tab => match app.tab {
                Tab::News => {
                    app.news_app.update_news_category(true);
                    app.news_app.clear_items();
                    Ok(Command::FetchArticles(app.news_app.current_source.duplicate()))
                },
                _ => Ok(Command::Idle),
            },
            KeyCode::BackTab => match app.tab {
                Tab::News => {
                    app.news_app.update_news_category(false);
                    if !app.news_app.current_source.loaded() {
                        Ok(Command::FetchArticles(app.news_app.current_source.duplicate()))
                    } else {
                        Ok(Command::Idle)
                    }
                },
                _ => Ok(Command::Idle),
            },
            KeyCode::Char('1') => {
                app.tab = Tab::News;
                Ok(Command::Idle)
            },
            KeyCode::Char('2') => {
                app.tab = Tab::Papers;
                Ok(Command::Idle)
            },
            KeyCode::Char('3') => Ok(Command::FetchArticles(app.news_app.current_source.duplicate())),
            KeyCode::Char('c') => {
                change_source(app, SourceId::CNA);
                Ok(Command::Idle)
            },
            KeyCode::Char('s') => {
                change_source(app, SourceId::StraitsTimes);
                Ok(Command::Idle)
            },
            KeyCode::Char('b') => {
                change_source(app, SourceId::BusinessTimes);
                Ok(Command::Idle)
            },
            KeyCode::Char('p') => match app.tab {
                Tab::Papers => match app.papers_app.selected_link() {
                    Some(Some(link)) => Ok(Command::OpenLink(link)),
                    Some(None) => Ok(Command::Idle),
                    None => Err(KeyError::SelectionOutOfRange),
                },
                _ => Ok(Command::Idle),
            },
            KeyCode::Char('i') => {
                app.mode = Mode::Insert;
                Ok(Command::Idle)
            },
            KeyCode::Char('v') => {
                app.mode = Mode::Visual;
                Ok(Command::Idle)
            },
            KeyCode::Char('h') => {
                app.focused = Focused::Left;
                match app.tab {
                    Tab::News => app.news_app.sidebar.focused = true,
                    Tab::Papers => app.papers_app.sidebar.focused = true,
                    Tab::Custom => {},
                }
                Ok(Command::Idle)
            },
            KeyCode::Char('l') => {
                app.focused = Focused::Right;
                match app.tab {
                    Tab::News => app.news_app.sidebar.focused = false,
                    Tab::Papers => app.papers_app.sidebar.focused = false,
                    Tab::Custom => {},
                }
                Ok(Command::Idle)
            },
            KeyCode::Char('j') => {
                match app.focused {
                    Focused::Left => match app.tab {
                        Tab::News => app.news_app.next(),
                        Tab::Papers => app.papers_app.next(),
                        Tab::Custom => {},
                    },
                    Focused::Right => match app.tab {
                        Tab::News => app.news_app.scroll_down(),
                        Tab::Papers => app.papers_app.scroll_down(),
                        Tab::Custom => {},
                    },
                }
                Ok(Command::Idle)
            },
            KeyCode::Char('k') => {
                match app.focused {
                    Focused::Left => match app.tab {
                        Tab::News => app.news_app.previous(),
                        Tab::Papers => app.papers_app.previous(),
                        Tab::Custom => {},
                    },
                    Focused::Right => match app.tab {
                        Tab::News => app.news_app.scroll_up(),
                        Tab::Papers => app.papers_app.scroll_up(),
                        Tab::Custom => {},
                    },
                }
                Ok(Command::Idle)
            },
            KeyCode::Char('q') => Ok(Command::Quit),
            _ => Ok(Command::Idle),
        },
    }
}

} // verus!
