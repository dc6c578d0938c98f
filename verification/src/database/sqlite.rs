use vstd::prelude::*;

use crate::tui::tabs::news::{NewsSource, NewsSourceEnum, SourceId};
use crate::utils::news_model::{NewsModel, NewsModelView};
use crate::utils::text::{chars_of, join, join_strings, split_on, split_string};
use crate::utils::time_formatter::{
    custom_time_to_unix, is_representable_second, parsed_seconds, representable_second,
    shown_at_offset, try_custom_time_to_unix, unix_to_custom_time, valid_offset, CUSTOM_TIME_FORMAT,
};

verus! {

/// A row of the `news` table: one stored article. `id` is the row's key; keys increase in
/// order of insertion, a new row taking one past the last; `link` is unique; `pub_date` is a second since the Unix epoch; the
/// paragraphs are stored joined by line breaks.
pub struct NewsRow {
    pub id: i64,
    pub title: String,
    pub description: String,
    pub content: String,
    pub link: String,
    pub pub_date: i64,
    pub source: SourceId,
}

/// A row of the `news_category` table: a category of a stored article; the pair of article key
/// and category name is unique.
pub struct CategoryRow {
    pub news_id: i64,
    pub category_name: String,
    pub source: SourceId,
}

/// The plain contents of a [`NewsRow`]; the service is kept by its position.
pub struct NewsRowView {
    pub id: int,
    pub title: Seq<char>,
    pub description: Seq<char>,
    pub content: Seq<char>,
    pub link: Seq<char>,
    pub pub_date: i64,
    pub source: nat,
}

/// The plain contents of a [`CategoryRow`].
pub struct CategoryRowView {
    pub news_id: int,
    pub category_name: Seq<char>,
    pub source: nat,
}

impl View for NewsRow {
    type V = NewsRowView;

    open spec fn view(&self) -> NewsRowView {
        NewsRowView {
            id: self.id as int,
            title: self.title@,
            description: self.description@,
            content: self.content@,
            link: self.link@,
            pub_date: self.pub_date,
            source: self.source.index(),
        }
    }
}

impl View for CategoryRow {
    type V = CategoryRowView;

    open spec fn view(&self) -> CategoryRowView {
        CategoryRowView {
            news_id: self.news_id as int,
            category_name: self.category_name@,
            source: self.source.index(),
        }
    }
}

/// The contents of the store: its two tables, rows in order of insertion.
pub struct DbView {
    pub news: Seq<NewsRowView>,
    pub news_category: Seq<CategoryRowView>,
}

/// The store of fetched news: a table of articles and a table of their categories, with the
/// constraints and queries of the application's database. It is opened over the rows already
/// kept in the database file (`Db::new`) and hands its rows out to be written back
/// (`news_rows`, `category_rows`).
pub struct Db {
    news: Vec<NewsRow>,
    news_category: Vec<CategoryRow>,
}

/// The rows of `news` as plain values.
pub open spec fn news_view(rows: Seq<NewsRow>) -> Seq<NewsRowView> {
    rows.map_values(|r: NewsRow| r@)
}

/// The rows of `news_category` as plain values.
pub open spec fn category_view(rows: Seq<CategoryRow>) -> Seq<CategoryRowView> {
    rows.map_values(|r: CategoryRow| r@)
}

impl View for Db {
    type V = DbView;

    closed spec fn view(&self) -> DbView {
        DbView { news: news_view(self.news@), news_category: category_view(self.news_category@) }
    }
}

/// The position of the stored article with the given key, if any.
pub open spec fn find_id(news: Seq<NewsRowView>, id: int) -> Option<int>
    decreases news.len(),
{
    if news.len() == 0 {
        None
    } else if news.last().id == id {
        Some(news.len() - 1)
    } else {
        find_id(news.drop_last(), id)
    }
}

/// The key the next stored article gets: one past the last key, 1 for an empty table.
pub open spec fn next_id(news: Seq<NewsRowView>) -> int {
    if news.len() == 0 {
        1
    } else {
        news.last().id + 1
    }
}

/// What holds of the tables at all times: keys are positive, below `i64::MAX` and increase in
/// row order, links are unique, publication seconds are ones `jiff` accepts, every category row
/// names the key of a stored article and no two category rows share their article and name.
pub open spec fn tables_wf(v: DbView) -> bool {
    &&& forall|k: int| 0 <= k < v.news.len() ==> 1 <= (#[trigger] v.news[k]).id < i64::MAX
    &&& forall|j: int, k: int| 0 <= j < k < v.news.len() ==> (#[trigger] v.news[j]).id < (#[trigger] v.news[k]).id
    &&& forall|k: int| 0 <= k < v.news.len() ==> representable_second((#[trigger] v.news[k]).pub_date)
    &&& forall|j: int, k: int| 0 <= j < v.news.len() && 0 <= k < v.news.len() && j != k
        ==> (#[trigger] v.news[j]).link != (#[trigger] v.news[k]).link
    &&& forall|c: int| 0 <= c < v.news_category.len() ==> find_id(v.news, (#[trigger] v.news_category[c]).news_id) is Some
    &&& forall|b: int, c: int| 0 <= b < v.news_category.len() && 0 <= c < v.news_category.len() && b != c
        ==> !same_category(#[trigger] v.news_category[b], #[trigger] v.news_category[c])
}

/// Two category rows name the same category of the same article.
pub open spec fn same_category(a: CategoryRowView, b: CategoryRowView) -> bool {
    a.news_id == b.news_id && a.category_name == b.category_name
}

proof fn lemma_find_id_push(news: Seq<NewsRowView>, row: NewsRowView, id: int)
    ensures
        find_id(news, id) is Some ==> find_id(news.push(row), id) is Some,
        row.id == id ==> find_id(news.push(row), id) == Some(news.len() as int),
{
    assert(news.push(row).drop_last() == news);
    assert(news.push(row).last() == row);
}

proof fn lemma_find_id_some(news: Seq<NewsRowView>, id: int)
    ensures
        find_id(news, id) matches Some(p) ==> 0 <= p < news.len() && news[p].id == id,
        find_id(news, id) is None ==> forall|k: int| 0 <= k < news.len() ==> (#[trigger] news[k]).id != id,
    decreases news.len(),
{
    if news.len() > 0 {
        lemma_find_id_some(news.drop_last(), id);
        assert forall|k: int| 0 <= k < news.len() - 1 implies #[trigger] news[k] == news.drop_last()[k] by {}
    }
}

/// The position of the stored article with the given key.
fn find_id_in(news: &Vec<NewsRow>, id: i64) -> (r: Option<usize>)
    ensures
        match r {
            Some(p) => find_id(news_view(news@), id as int) == Some(p as int),
            None => find_id(news_view(news@), id as int) is None,
        },
{
    let ghost nv = news_view(news@);
    let mut k = news.len();
    assert(nv.take(k as int) == nv);
    while k > 0
        invariant
            nv == news_view(news@),
            k <= news@.len(),
            find_id(nv, id as int) == find_id(nv.take(k as int), id as int),
        decreases k,
    {
        let ghost pre = nv.take(k as int);
        assert(pre.drop_last() == nv.take(k - 1));
        assert(pre.last() == news@[k - 1]@);
        if news[k - 1].id == id {
            return Some(k - 1);
        }
        k = k - 1;
    }
    None
}

/// Whether rows meet the tables' constraints.
fn rows_wf(news: &Vec<NewsRow>, cats: &Vec<CategoryRow>) -> (r: bool)
    ensures
        r == tables_wf(DbView { news: news_view(news@), news_category: category_view(cats@) }),
{
    let ghost v = DbView { news: news_view(news@), news_category: category_view(cats@) };
    let ghost nv = v.news;
    let ghost cv = v.news_category;
    let n = news.len();
    for k in 0..n
        invariant
            v == (DbView { news: nv, news_category: cv }),
            nv == news_view(news@),
            cv == category_view(cats@),
            n == news@.len(),
            forall|j: int| 0 <= j < k ==> 1 <= (#[trigger] nv[j]).id < i64::MAX && representable_second(nv[j].pub_date),
            forall|a: int, b: int| 0 <= a < b < k ==> (#[trigger] nv[a]).id < (#[trigger] nv[b]).id,
    {
        assert(nv[k as int] == news@[k as int]@);
        if news[k].id < 1 || news[k].id == i64::MAX || !is_representable_second(news[k].pub_date) {
            return false;
        }
        if k > 0 {
            assert(nv[k - 1] == news@[k - 1]@);
            if news[k - 1].id >= news[k].id {
                assert(!tables_wf(v)) by {
                    if tables_wf(v) {
                        assert(v.news[k - 1].id < v.news[k as int].id);
                    }
                }
                return false;
            }
        }
        assert forall|a: int, b: int| 0 <= a < b < k + 1 implies (#[trigger] nv[a]).id < (#[trigger] nv[b]).id by {
            if b == k && a < k - 1 {
                assert(nv[a].id < nv[k - 1].id);
            }
        }
    }
    for j in 0..n
        invariant
            v == (DbView { news: nv, news_category: cv }),
            nv == news_view(news@),
            cv == category_view(cats@),
            n == news@.len(),
            forall|j: int| 0 <= j < n ==> 1 <= (#[trigger] nv[j]).id < i64::MAX && representable_second(nv[j].pub_date),
            forall|a: int, b: int| 0 <= a < b < n ==> (#[trigger] nv[a]).id < (#[trigger] nv[b]).id,
            forall|a: int, b: int| 0 <= a < j && 0 <= b < j && a != b ==> (#[trigger] nv[a]).link != (#[trigger] nv[b]).link,
    {
        for k in 0..j
            invariant
                v == (DbView { news: nv, news_category: cv }),
                nv == news_view(news@),
                cv == category_view(cats@),
                j < n,
                n == news@.len(),
                forall|a: int, b: int| 0 <= a < j && 0 <= b < j && a != b ==> (#[trigger] nv[a]).link != (#[trigger] nv[b]).link,
                forall|b: int| 0 <= b < k ==> (#[trigger] nv[b]).link != nv[j as int].link,
        {
            assert(nv[k as int] == news@[k as int]@);
            assert(nv[j as int] == news@[j as int]@);
            if news[j].link == news[k].link {
                assert(nv[j as int].link == nv[k as int].link);
                assert(!tables_wf(v)) by {
                    if tables_wf(v) {
                        assert(v.news[j as int].link != v.news[k as int].link);
                    }
                }
                return false;
            }
        }
        assert forall|a: int, b: int| 0 <= a < j + 1 && 0 <= b < j + 1 && a != b implies (#[trigger] nv[a]).link != (#[trigger] nv[b]).link by {
            if a == j {
                assert(nv[b].link != nv[j as int].link);
            } else if b == j {
                assert(nv[a].link != nv[j as int].link);
            }
        }
    }
    let m = cats.len();
    for c in 0..m
        invariant
            v == (DbView { news: nv, news_category: cv }),
            nv == news_view(news@),
            cv == category_view(cats@),
            m == cats@.len(),
            forall|b: int| 0 <= b < c ==> find_id(nv, (#[trigger] cv[b]).news_id) is Some,
    {
        assert(cv[c as int] == cats@[c as int]@);
        if find_id_in(news, cats[c].news_id).is_none() {
            assert(!tables_wf(v)) by {
                if tables_wf(v) {
                    assert(find_id(v.news, v.news_category[c as int].news_id) is Some);
                }
            }
            return false;
        }
    }
    for c in 0..m
        invariant
            v == (DbView { news: nv, news_category: cv }),
            nv == news_view(news@),
            cv == category_view(cats@),
            m == cats@.len(),
            forall|a: int, b: int| 0 <= a < c && 0 <= b < c && a != b ==> !same_category(#[trigger] cv[a], #[trigger] cv[b]),
    {
        for b in 0..c
            invariant
                v == (DbView { news: nv, news_category: cv }),
                nv == news_view(news@),
                cv == category_view(cats@),
                c < m,
                m == cats@.len(),
                forall|a: int, b: int| 0 <= a < c && 0 <= b < c && a != b ==> !same_category(#[trigger] cv[a], #[trigger] cv[b]),
                forall|a: int| 0 <= a < b ==> !same_category(#[trigger] cv[a], cv[c as int]),
        {
            assert(cv[b as int] == cats@[b as int]@);
            assert(cv[c as int] == cats@[c as int]@);
            if cats[b].news_id == cats[c].news_id && cats[b].category_name == cats[c].category_name {
                assert(same_category(cv[b as int], cv[c as int]));
                assert(!tables_wf(v)) by {
                    if tables_wf(v) {
                        assert(!same_category(v.news_category[b as int], v.news_category[c as int]));
                    }
                }
                return false;
            }
        }
        assert forall|a: int, b: int| 0 <= a < c + 1 && 0 <= b < c + 1 && a != b implies !same_category(#[trigger] cv[a], #[trigger] cv[b]) by {
            if a == c {
                assert(!same_category(cv[b], cv[c as int]));
            } else if b == c {
                assert(!same_category(cv[a], cv[c as int]));
            }
        }
    }
    true
}

impl Db {
    #[verifier::type_invariant]
    spec fn inv(self) -> bool {
        tables_wf(self@)
    }

    /// An empty store.
    fn empty() -> (r: Self)
        ensures
            r@.news.len() == 0,
            r@.news_category.len() == 0,
    {
        let r = Self { news: Vec::new(), news_category: Vec::new() };
        assert(news_view(r.news@) =~= Seq::empty());
        assert(category_view(r.news_category@) =~= Seq::empty());
        r
    }

    /// Opens a store over the rows already kept (those of a database file, in order of their
    /// keys): every row is kept as it is. `None` when the rows break the tables' constraints.
    pub fn new(news: Vec<NewsRow>, news_category: Vec<CategoryRow>) -> (r: Option<Self>)
        ensures
            r is Some <==> tables_wf(DbView { news: news_view(news@), news_category: category_view(news_category@) }),
            r matches Some(db) ==> db@ == (DbView { news: news_view(news@), news_category: category_view(news_category@) })
                && tables_wf(db@),
    {
        let ghost v = DbView { news: news_view(news@), news_category: category_view(news_category@) };
        if rows_wf(&news, &news_category) {
            let db = Self { news, news_category };
            assert(db@ == v);
            Some(db)
        } else {
            None
        }
    }

    /// The rows of the `news` table, in order of their keys.
    pub fn news_rows(&self) -> (r: &Vec<NewsRow>)
        ensures
            news_view(r@) == self@.news,
            tables_wf(self@),
    {
        proof {
            use_type_invariant(self);
        }
        &self.news
    }

    /// The rows of the `news_category` table, in order of insertion.
    pub fn category_rows(&self) -> (r: &Vec<CategoryRow>)
        ensures
            category_view(r@) == self@.news_category,
            tables_wf(self@),
    {
        proof {
            use_type_invariant(self);
        }
        &self.news_category
    }
}


/// The position of the stored article with the given link, if any.
pub open spec fn find_link(news: Seq<NewsRowView>, link: Seq<char>) -> Option<int>
    decreases news.len(),
{
    if news.len() == 0 {
        None
    } else if news.last().link == link {
        Some(news.len() - 1)
    } else {
        find_link(news.drop_last(), link)
    }
}

/// The category row names category `name` of article `id`.
pub open spec fn names_category(row: CategoryRowView, id: int, name: Seq<char>) -> bool {
    row.news_id == id && row.category_name == name
}

/// Article `id` has category `name`.
pub open spec fn has_category(cats: Seq<CategoryRowView>, id: int, name: Seq<char>) -> bool {
    exists|c: int| 0 <= c < cats.len() && #[trigger] names_category(cats[c], id, name)
}

/// The category table after inserting each of the names for article `id`, skipping those the
/// article already has (the pair of article and name is a key).
pub open spec fn add_categories(cats: Seq<CategoryRowView>, id: int, names: Seq<Seq<char>>, source: nat) -> Seq<CategoryRowView>
    decreases names.len(),
{
    if names.len() == 0 {
        cats
    } else {
        let before = add_categories(cats, id, names.drop_last(), source);
        if has_category(before, id, names.last()) {
            before
        } else {
            before.push(CategoryRowView { news_id: id, category_name: names.last(), source })
        }
    }
}

/// The row that saving an article adds when its link is new: the next key, the paragraphs
/// joined by line breaks, and the publication second.
pub open spec fn new_row(news: Seq<NewsRowView>, m: NewsModelView, paragraphs: Seq<Seq<char>>, timestamp: i64) -> NewsRowView {
    NewsRowView {
        id: next_id(news),
        title: m.title,
        description: m.description,
        content: join(paragraphs, "\n"@),
        link: m.link,
        pub_date: timestamp,
        source: m.source_index,
    }
}

/// The store after saving an article published at `timestamp`. An article without paragraphs
/// is not saved. Otherwise its row is inserted unless an article with the same link is stored
/// (the link is unique), and its categories are attached to the stored
/// article with that link.
pub open spec fn saved(db: DbView, m: NewsModelView, timestamp: i64) -> DbView {
    match m.content {
        None => db,
        Some(paragraphs) => {
            let news = if find_link(db.news, m.link) is Some {
                db.news
            } else {
                db.news.push(new_row(db.news, m, paragraphs, timestamp))
            };
            let id = news[find_link(news, m.link).unwrap()].id;
            DbView { news, news_category: add_categories(db.news_category, id, m.categories, m.source_index) }
        },
    }
}

/// The publication second of a model's date, in the custom format.
pub open spec fn model_timestamp(m: NewsModel) -> i64 {
    parsed_seconds(m.pub_date@, CUSTOM_TIME_FORMAT@).unwrap()
}

/// The store after saving each of the models in turn.
pub open spec fn saved_all(db: DbView, models: Seq<NewsModel>) -> DbView
    decreases models.len(),
{
    if models.len() == 0 {
        db
    } else {
        let before = saved_all(db, models.drop_last());
        saved(before, models.last()@, model_timestamp(models.last()))
    }
}

/// Every model's date parses in the custom format.
pub open spec fn dates_parse(models: Seq<NewsModel>) -> bool {
    forall|i: int| 0 <= i < models.len() ==> (#[trigger] parsed_seconds(models[i].pub_date@, CUSTOM_TIME_FORMAT@)) is Some
}

/// The names of the categories of article `id`, in order of insertion.
pub open spec fn categories_of(cats: Seq<CategoryRowView>, id: int) -> Seq<Seq<char>>
    decreases cats.len(),
{
    if cats.len() == 0 {
        seq![]
    } else {
        let before = categories_of(cats.drop_last(), id);
        if cats.last().news_id == id {
            before.push(cats.last().category_name)
        } else {
            before
        }
    }
}

/// A fetched model holds what the row and its categories hold; its date is the row's second
/// shown in the custom format at some offset from UTC (the machine's at that moment), and its
/// service reads and is positioned at the service's first category.
pub open spec fn model_of_row(m: NewsModelView, row: NewsRowView, cats: Seq<CategoryRowView>) -> bool {
    &&& m.title == row.title
    &&& exists|o: i32| valid_offset(o) && m.pub_date == shown_at_offset(row.pub_date, o, CUSTOM_TIME_FORMAT@)
    &&& m.source_category == 0
    &&& m.source_position == 0
    &&& m.description == row.description
    &&& m.content == Some(split_on(row.content, '\n'))
    &&& m.link == row.link
    &&& m.categories == categories_of(cats, row.id)
    &&& m.source_index == row.source
}

/// The stored articles of a service, in order of insertion.
pub open spec fn rows_of_source(news: Seq<NewsRowView>, source: nat) -> Seq<NewsRowView>
    decreases news.len(),
{
    if news.len() == 0 {
        seq![]
    } else {
        let before = rows_of_source(news.drop_last(), source);
        if news.last().source == source {
            before.push(news.last())
        } else {
            before
        }
    }
}

/// At most the first ten entries.
pub open spec fn first_ten<A>(s: Seq<A>) -> Seq<A> {
    if s.len() <= 10 {
        s
    } else {
        s.take(10)
    }
}

/// A character with ASCII upper case folded to lower case, as category names are compared.
pub open spec fn ascii_fold(c: char) -> u32 {
    if 'A' <= c && c <= 'Z' {
        (c as u32 + 32) as u32
    } else {
        c as u32
    }
}

/// `needle` occurs in `hay` at position `i`, ASCII case aside.
pub open spec fn occurs_folded(hay: Seq<char>, needle: Seq<char>, i: int) -> bool {
    &&& 0 <= i
    &&& i + needle.len() <= hay.len()
    &&& forall|j: int| 0 <= j < needle.len() ==> #[trigger] ascii_fold(hay[i + j]) == ascii_fold(needle[j])
}

/// The needle occurs in the text, ASCII case aside.
pub open spec fn like_contains(hay: Seq<char>, needle: Seq<char>) -> bool {
    exists|i: int| #[trigger] occurs_folded(hay, needle, i)
}

/// The stored articles joined to their category rows of the service whose name contains the
/// category name (ASCII case aside), in the order of the category rows.
pub open spec fn joined_rows(news: Seq<NewsRowView>, cats: Seq<CategoryRowView>, source: nat, name: Seq<char>) -> Seq<NewsRowView>
    decreases cats.len(),
{
    if cats.len() == 0 {
        seq![]
    } else {
        let before = joined_rows(news, cats.drop_last(), source, name);
        let c = cats.last();
        if c.source == source && like_contains(c.category_name, name) {
            before.push(news[find_id(news, c.news_id).unwrap()])
        } else {
            before
        }
    }
}

/// Folds ASCII upper case to lower case.
fn ascii_fold_exec(c: char) -> (r: u32)
    ensures
        r == ascii_fold(c),
{
    if c >= 'A' && c <= 'Z' {
        (c as u32) + 32
    } else {
        c as u32
    }
}

/// Whether `needle` occurs in `hay`, ASCII case aside.
fn like_contains_exec(hay: &[char], needle: &[char]) -> (r: bool)
    ensures
        r == like_contains(hay@, needle@),
{
    if needle.len() > hay.len() {
        assert forall|i: int| !occurs_folded(hay@, needle@, i) by {}
        return false;
    }
    if needle.len() == 0 {
        assert(occurs_folded(hay@, needle@, 0));
        return true;
    }
    let last = hay.len() - needle.len();
    let mut i: usize = 0;
    while i <= last
        invariant
            needle@.len() > 0,
            hay@.len() == hay.len(),
            last + needle@.len() == hay@.len(),
            i <= last + 1,
            forall|k: int| 0 <= k < i ==> !#[trigger] occurs_folded(hay@, needle@, k),
        decreases last + 1 - i,
    {
        let mut j: usize = 0;
        let mut ok = true;
        while j < needle.len()
            invariant
                i <= last,
                hay@.len() == hay.len(),
                last + needle@.len() == hay@.len(),
                j <= needle@.len(),
                ok ==> forall|m: int| 0 <= m < j ==> #[trigger] ascii_fold(hay@[i + m]) == ascii_fold(needle@[m]),
                !ok ==> !occurs_folded(hay@, needle@, i as int),
            decreases needle@.len() - j,
        {
            if ok && ascii_fold_exec(hay[i + j]) != ascii_fold_exec(needle[j]) {
                ok = false;
            }
            j = j + 1;
        }
        if ok {
            assert(occurs_folded(hay@, needle@, i as int));
            return true;
        }
        i = i + 1;
    }
    assert forall|k: int| !occurs_folded(hay@, needle@, k) by {
        if 0 <= k < i {
        }
    }
    false
}


proof fn lemma_distinct_categories(v: DbView, b: int, c: int)
    requires
        tables_wf(v),
        0 <= b < v.news_category.len(),
        0 <= c < v.news_category.len(),
        b != c,
    ensures
        !same_category(v.news_category[b], v.news_category[c]),
{
}

proof fn lemma_news_view_push(s: Seq<NewsRow>, r: NewsRow)
    ensures
        news_view(s.push(r)) == news_view(s).push(r@),
{
    assert(news_view(s.push(r)) =~= news_view(s).push(r@));
}

proof fn lemma_category_view_push(s: Seq<CategoryRow>, r: CategoryRow)
    ensures
        category_view(s.push(r)) == category_view(s).push(r@),
{
    assert(category_view(s.push(r)) =~= category_view(s).push(r@));
}

proof fn lemma_find_link_some(news: Seq<NewsRowView>, link: Seq<char>)
    ensures
        find_link(news, link) matches Some(p) ==> 0 <= p < news.len() && news[p].link == link,
        find_link(news, link) is None ==> forall|k: int| 0 <= k < news.len() ==> (#[trigger] news[k]).link != link,
    decreases news.len(),
{
    if news.len() > 0 {
        lemma_find_link_some(news.drop_last(), link);
        assert forall|k: int| 0 <= k < news.len() - 1 implies #[trigger] news[k] == news.drop_last()[k] by {}
    }
}

proof fn lemma_find_link_push(news: Seq<NewsRowView>, row: NewsRowView)
    ensures
        find_link(news.push(row), row.link) == Some(news.len() as int),
{
    assert(news.push(row).last() == row);
}

impl Db {
    /// The position of the stored article with the given link.
    fn find_link_exec(&self, link: &String) -> (r: Option<usize>)
        ensures
            match r {
                Some(p) => find_link(self@.news, link@) == Some(p as int),
                None => find_link(self@.news, link@) is None,
            },
    {
        let ghost news = self@.news;
        let mut k = self.news.len();
        assert(news.take(k as int) == news);
        while k > 0
            invariant
                news == self@.news,
                news == news_view(self.news@),
                k <= self.news@.len(),
                find_link(news, link@) == find_link(news.take(k as int), link@),
            decreases k,
        {
            let ghost pre = news.take(k as int);
            assert(pre.drop_last() == news.take(k - 1));
            assert(pre.last() == self.news@[k - 1]@);
            if self.news[k - 1].link == *link {
                return Some(k - 1);
            }
            k = k - 1;
        }
        None
    }

    /// Saves an article: nothing when it has no paragraphs; otherwise its row (unless an
    /// article with the same link is stored) and the categories it lacks.
    pub fn save_news(&mut self, news_model: NewsModel)
        requires
            parsed_seconds(news_model.pub_date@, CUSTOM_TIME_FORMAT@) is Some,
            next_id(old(self)@.news) < i64::MAX,
        ensures
            final(self)@ == saved(old(self)@, news_model@, model_timestamp(news_model)),
            tables_wf(final(self)@),
            old(self)@.news.len() < final(self)@.news.len() ==> forall|k: int| 0 <= k < old(self)@.news.len()
                ==> (#[trigger] old(self)@.news[k]).id < final(self)@.news.last().id,
    {
        proof {
            use_type_invariant(&*self);
        }
        let ghost old_view = self@;
        let timestamp = custom_time_to_unix(news_model.pub_date.as_str());
        let paragraphs = match &news_model.content {
            None => {
                return;
            },
            Some(c) => c,
        };
        let content = join_strings(paragraphs, "\n");
        let source = news_model.source.source_variant.source();
        let found = self.find_link_exec(&news_model.link);
        proof {
            lemma_find_link_some(old_view.news, news_model.link@);
        }
        assert(old_view.news.len() == self.news@.len());
        let id_found: i64 = match found {
            Some(p) => self.news[p].id,
            None => 0,
        };
        let mut taken = Db::empty();
        std::mem::swap(self, &mut taken);
        let Db { news: mut news, news_category: mut cats } = taken;
        assert(news_view(news@) == old_view.news);
        assert(category_view(cats@) == old_view.news_category);
        assert(news@.len() == old_view.news.len());
        let next: i64 = if news.len() == 0 { 1 } else { news[news.len() - 1].id + 1 };
        assert(next as int == next_id(old_view.news));
        let id: i64 = match found {
            Some(_) => id_found,
            None => {
                let row = NewsRow {
                    id: next,
                    title: news_model.title.clone(),
                    description: news_model.description.clone(),
                    content,
                    link: news_model.link.clone(),
                    pub_date: timestamp,
                    source,
                };
                proof {
                    lemma_news_view_push(news@, row);
                    lemma_find_link_push(old_view.news, row@);
                    let v = DbView { news: old_view.news.push(row@), news_category: old_view.news_category };
                    assert(row@ == new_row(old_view.news, news_model@, paragraphs.deep_view(), timestamp));
                    assert forall|j: int, k: int| 0 <= j < v.news.len() && 0 <= k < v.news.len() && j != k
                        implies (#[trigger] v.news[j]).link != (#[trigger] v.news[k]).link by {
                        if k == old_view.news.len() {
                            assert(v.news[j] == old_view.news[j]);
                        } else if j == old_view.news.len() {
                            assert(v.news[k] == old_view.news[k]);
                        } else {
                            assert(v.news[j] == old_view.news[j]);
                            assert(v.news[k] == old_view.news[k]);
                        }
                    }
                    assert forall|j: int, k: int| 0 <= j < k < v.news.len()
                        implies (#[trigger] v.news[j]).id < (#[trigger] v.news[k]).id by {
                        assert(v.news[j] == old_view.news[j]);
                        if k < old_view.news.len() {
                            assert(v.news[k] == old_view.news[k]);
                        } else if j < old_view.news.len() - 1 {
                            assert(old_view.news[j].id < old_view.news[old_view.news.len() - 1].id);
                        }
                    }
                    assert forall|k: int| 0 <= k < v.news.len() implies 1 <= (#[trigger] v.news[k]).id < i64::MAX by {
                        if k < old_view.news.len() {
                            assert(v.news[k] == old_view.news[k]);
                        }
                    }
                    assert forall|k: int| 0 <= k < v.news.len() implies representable_second((#[trigger] v.news[k]).pub_date) by {
                        if k < old_view.news.len() {
                            assert(v.news[k] == old_view.news[k]);
                        }
                    }
                    assert forall|c: int| 0 <= c < v.news_category.len()
                        implies find_id(v.news, (#[trigger] v.news_category[c]).news_id) is Some by {
                        lemma_find_id_push(old_view.news, row@, v.news_category[c].news_id);
                    }
                    assert(tables_wf(v));
                    lemma_find_id_push(old_view.news, row@, row@.id);
                }
                news.push(row);
                next
            },
        };
        let ghost news_after = news_view(news@);
        assert(news_after == saved(old_view, news_model@, timestamp).news);
        assert(id as int == news_after[find_link(news_after, news_model.link@).unwrap()].id);
        assert(find_id(news_after, id as int) is Some) by {
            lemma_find_link_some(news_after, news_model.link@);
            lemma_find_id_some(news_after, id as int);
        }
        let ghost names = news_model.categories.deep_view();
        for i in 0..news_model.categories.len()
            invariant
                names == news_model.categories.deep_view(),
                news_view(news@) == news_after,
                find_id(news_after, id as int) is Some,
                category_view(cats@) == add_categories(old_view.news_category, id as int, names.take(i as int), source.index()),
                tables_wf(DbView { news: news_after, news_category: category_view(cats@) }),
        {
            let ghost before = category_view(cats@);
            assert(names.take(i + 1).drop_last() == names.take(i as int));
            assert(names.take(i + 1).last() == names[i as int]);
            let present = has_category_in(&cats, id, &news_model.categories[i]);
            assert(news_model.categories@[i as int]@ == names[i as int]);
            if !present {
                assert(forall|b: int| 0 <= b < before.len() ==> !#[trigger] names_category(before[b], id as int, names[i as int]));
                let row = CategoryRow {
                    news_id: id,
                    category_name: news_model.categories[i].clone(),
                    source,
                };
                proof {
                    assert(row@.category_name == names[i as int]);
                    assert(row@.news_id == id as int);
                    lemma_category_view_push(cats@, row);
                    let v = DbView { news: news_after, news_category: before.push(row@) };
                    assert forall|b: int, c: int| 0 <= b < v.news_category.len() && 0 <= c < v.news_category.len() && b != c
                        implies !same_category(#[trigger] v.news_category[b], #[trigger] v.news_category[c]) by {
                        if c == before.len() {
                            assert(v.news_category[b] == before[b]);
                            assert(!names_category(before[b], id as int, names[i as int]));
                            assert(v.news_category[c] == row@);
                            assert(!same_category(before[b], row@));
                        } else if b == before.len() {
                            assert(v.news_category[c] == before[c]);
                            assert(!names_category(before[c], id as int, names[i as int]));
                            assert(v.news_category[b] == row@);
                            assert(!same_category(row@, before[c]));
                        } else {
                            assert(v.news_category[b] == before[b]);
                            assert(v.news_category[c] == before[c]);
                            lemma_distinct_categories(DbView { news: news_after, news_category: before }, b, c);
                        }
                    }
                    assert(tables_wf(v));
                }
                cats.push(row);
            }
        }
        assert(names.take(names.len() as int) == names);
        *self = Db { news, news_category: cats };
        proof {
            use_type_invariant(&*self);
        }
    }

    /// Saves an article when its date reads in the custom format, and says whether it did;
    /// otherwise the store is left as it was.
    pub fn try_save_news(&mut self, news_model: NewsModel) -> (r: bool)
        requires
            next_id(old(self)@.news) < i64::MAX,
        ensures
            r == (parsed_seconds(news_model.pub_date@, CUSTOM_TIME_FORMAT@) is Some),
            r ==> final(self)@ == saved(old(self)@, news_model@, model_timestamp(news_model)),
            !r ==> final(self)@ == old(self)@,
            tables_wf(final(self)@),
    {
        proof {
            use_type_invariant(&*self);
        }
        match try_custom_time_to_unix(news_model.pub_date.as_str()) {
            Some(_) => {
                self.save_news(news_model);
                true
            },
            None => false,
        }
    }
}

/// Whether article `id` has category `name` in the category rows.
fn has_category_in(cats: &Vec<CategoryRow>, id: i64, name: &String) -> (r: bool)
    ensures
        r == has_category(category_view(cats@), id as int, name@),
{
    let ghost cv = category_view(cats@);
    for c in 0..cats.len()
        invariant
            cv == category_view(cats@),
            forall|b: int| 0 <= b < c ==> !#[trigger] names_category(cv[b], id as int, name@),
    {
        if cats[c].news_id == id && cats[c].category_name == *name {
            assert(names_category(cv[c as int], id as int, name@));
            return true;
        }
    }
    false
}


/// The fetched models hold, in order, what the rows hold.
pub open spec fn models_of_rows(models: Seq<NewsModel>, rows: Seq<NewsRowView>, cats: Seq<CategoryRowView>) -> bool {
    &&& models.len() == rows.len()
    &&& forall|k: int| 0 <= k < models.len() ==> model_of_row((#[trigger] models[k])@, rows[k], cats)
}

proof fn lemma_saved_len(db: DbView, m: NewsModelView, t: i64)
    ensures
        next_id(saved(db, m, t).news) <= next_id(db.news) + 1,
{
    if let Some(paragraphs) = m.content {
        if find_link(db.news, m.link) is None {
            let row = new_row(db.news, m, paragraphs, t);
            assert(db.news.push(row).last() == row);
        }
    }
}

proof fn lemma_saved_all_len(db: DbView, models: Seq<NewsModel>)
    ensures
        next_id(saved_all(db, models).news) <= next_id(db.news) + models.len(),
    decreases models.len(),
{
    if models.len() > 0 {
        lemma_saved_all_len(db, models.drop_last());
        lemma_saved_len(saved_all(db, models.drop_last()), models.last()@, model_timestamp(models.last()));
    }
}

/// The names of the categories of article `id`.
fn categories_of_exec(cats: &Vec<CategoryRow>, id: i64) -> (r: Vec<String>)
    ensures
        r.deep_view() == categories_of(category_view(cats@), id as int),
{
    let ghost cv = category_view(cats@);
    let mut r: Vec<String> = Vec::new();
    for c in 0..cats.len()
        invariant
            cv == category_view(cats@),
            r.deep_view() == categories_of(cv.take(c as int), id as int),
    {
        assert(cv.take(c + 1).drop_last() == cv.take(c as int));
        assert(cv.take(c + 1).last() == cats@[c as int]@);
        if cats[c].news_id == id {
            r.push(cats[c].category_name.clone());
        }
    }
    assert(cv.take(cats@.len() as int) == cv);
    r
}

impl Db {
    /// Saves each article in turn.
    pub fn save_news_batch(&mut self, news: Vec<NewsModel>)
        requires
            dates_parse(news@),
            next_id(old(self)@.news) + news@.len() < i64::MAX,
        ensures
            final(self)@ == saved_all(old(self)@, news@),
            tables_wf(final(self)@),
    {
        proof {
            use_type_invariant(&*self);
        }
        let ghost start = self@;
        for i in 0..news.len()
            invariant
                dates_parse(news@),
                next_id(start.news) + news@.len() < i64::MAX,
                self@ == saved_all(start, news@.take(i as int)),
        {
            proof {
                lemma_saved_all_len(start, news@.take(i as int));
            }
            assert(news@.take(i + 1).drop_last() == news@.take(i as int));
            assert(news@.take(i + 1).last() == news@[i as int]);
            assert(parsed_seconds(news@[i as int].pub_date@, CUSTOM_TIME_FORMAT@) is Some);
            let news_model = news[i].duplicate();
            self.save_news(news_model);
        }
        assert(news@.take(news@.len() as int) == news@);
        proof {
            use_type_invariant(&*self);
        }
    }

    /// Whether an article with the same title is stored.
    pub fn check_news_exist(&self, news: &NewsModel) -> (r: bool)
        ensures
            r == exists|k: int| 0 <= k < self@.news.len() && (#[trigger] self@.news[k]).title == news.title@,
            tables_wf(self@),
    {
        proof {
            use_type_invariant(self);
        }
        let ghost nv = self@.news;
        for k in 0..self.news.len()
            invariant
                nv == self@.news,
                nv == news_view(self.news@),
                tables_wf(self@),
                forall|j: int| 0 <= j < k ==> (#[trigger] nv[j]).title != news.title@,
        {
            if self.news[k].title == news.title {
                assert(nv[k as int].title == news.title@);
                return true;
            }
        }
        false
    }

    /// The model of a stored row: its paragraphs split at line breaks, its categories, and its
    /// date shown in the machine's time zone.
    fn parse_news_model(&self, row: &NewsRow) -> (r: NewsModel)
        requires
            representable_second(row.pub_date),
        ensures
            model_of_row(r@, row@, self@.news_category),
    {
        let content = split_string(row.content.as_str(), '\n');
        let categories = categories_of_exec(&self.news_category, row.id);
        let pub_date = unix_to_custom_time(row.pub_date);
        let source = NewsSource::new(NewsSourceEnum::from_position(row.source, 0));
        NewsModel {
            title: row.title.clone(),
            description: row.description.clone(),
            content: Some(content),
            link: row.link.clone(),
            pub_date,
            categories,
            source,
        }
    }

    /// Models of at most the first ten of the given rows.
    fn models_of_positions(&self, positions: &Vec<usize>, Ghost(rows): Ghost<Seq<NewsRowView>>) -> (r: Vec<NewsModel>)
        requires
            tables_wf(self@),
            positions@.len() == rows.len(),
            forall|j: int| 0 <= j < positions@.len() ==> (#[trigger] positions@[j]) < self@.news.len()
                && self@.news[positions@[j] as int] == rows[j],
        ensures
            models_of_rows(r@, first_ten(rows), self@.news_category),
    {
        let n = if positions.len() <= 10 { positions.len() } else { 10 };
        let mut r: Vec<NewsModel> = Vec::new();
        for j in 0..n
            invariant
                n == first_ten(rows).len(),
                n <= positions@.len(),
                tables_wf(self@),
                positions@.len() == rows.len(),
                forall|j: int| 0 <= j < positions@.len() ==> (#[trigger] positions@[j]) < self@.news.len()
                    && self@.news[positions@[j] as int] == rows[j],
                r@.len() == j,
                forall|k: int| 0 <= k < j ==> model_of_row((#[trigger] r@[k])@, rows[k], self@.news_category),
        {
            let p = positions[j];
            assert(self@.news[p as int] == self.news@[p as int]@);
            let m = self.parse_news_model(&self.news[p]);
            r.push(m);
        }
        assert forall|k: int| 0 <= k < r@.len() implies model_of_row((#[trigger] r@[k])@, first_ten(rows)[k], self@.news_category) by {
            assert(first_ten(rows)[k] == rows[k]);
        }
        r
    }

    /// The first ten stored articles of a service, in order of insertion; no two share a link.
    pub fn fetch_latest_news_by_source(&self, source: NewsSource) -> (r: Vec<NewsModel>)
        ensures
            models_of_rows(r@, first_ten(rows_of_source(self@.news, source.source_variant.source_index())), self@.news_category),
            forall|a: int, b: int| 0 <= a < r@.len() && 0 <= b < r@.len() && a != b ==> (#[trigger] r@[a]).link@ != (#[trigger] r@[b]).link@,
            tables_wf(self@),
    {
        proof {
            use_type_invariant(self);
        }
        let src = source.source_variant.source();
        let ghost nv = self@.news;
        let ghost si = source.source_variant.source_index();
        let mut positions: Vec<usize> = Vec::new();
        for k in 0..self.news.len()
            invariant
                nv == self@.news,
                nv == news_view(self.news@),
                src.index() == si,
                positions@.len() == rows_of_source(nv.take(k as int), si).len(),
                forall|j: int| 0 <= j < positions@.len() ==> (#[trigger] positions@[j]) < k
                    && nv[positions@[j] as int] == rows_of_source(nv.take(k as int), si)[j],
                forall|a: int, b: int| 0 <= a < b < positions@.len() ==> (#[trigger] positions@[a]) < (#[trigger] positions@[b]),
        {
            assert(nv.take(k + 1).drop_last() == nv.take(k as int));
            assert(nv.take(k + 1).last() == nv[k as int]);
            if self.news[k].source == src {
                positions.push(k);
            }
        }
        assert(nv.take(nv.len() as int) == nv);
        let r = self.models_of_positions(&positions, Ghost(rows_of_source(nv, si)));
        proof {
            let rows = rows_of_source(nv, si);
            assert forall|a: int, b: int| 0 <= a < r@.len() && 0 <= b < r@.len() && a != b
                implies (#[trigger] r@[a]).link@ != (#[trigger] r@[b]).link@ by {
                assert(model_of_row(r@[a]@, first_ten(rows)[a], self@.news_category));
                assert(model_of_row(r@[b]@, first_ten(rows)[b], self@.news_category));
                assert(first_ten(rows)[a] == rows[a]);
                assert(first_ten(rows)[b] == rows[b]);
                let pa = positions@[a] as int;
                let pb = positions@[b] as int;
                assert(pa != pb) by {
                    if a < b {
                        assert(positions@[a] < positions@[b]);
                    } else {
                        assert(positions@[b] < positions@[a]);
                    }
                }
                assert(nv[pa].link != nv[pb].link);
            }
        }
        r
    }

    /// The first ten articles joined to category rows of the same service whose name contains
    /// the name of the source's current category (ASCII case aside), one per matching category
    /// row, in the order of the category rows; each is the article whose key the row names.
    pub fn fetch_news_by_source_and_category(&self, category: &NewsSource) -> (r: Vec<NewsModel>)
        ensures
            models_of_rows(
                r@,
                first_ten(joined_rows(self@.news, self@.news_category, category.source_variant.source_index(), category.source_variant.category_name())),
                self@.news_category,
            ),
            tables_wf(self@),
    {
        proof {
            use_type_invariant(self);
        }
        let name = category.source_variant.category_to_string();
        let name_chars = chars_of(name.as_str());
        let src = category.source_variant.source();
        let ghost nv = self@.news;
        let ghost cv = self@.news_category;
        let ghost si = category.source_variant.source_index();
        let mut positions: Vec<usize> = Vec::new();
        for c in 0..self.news_category.len()
            invariant
                nv == self@.news,
                cv == self@.news_category,
                cv == category_view(self.news_category@),
                tables_wf(self@),
                src.index() == si,
                name_chars@ == category.source_variant.category_name(),
                positions@.len() == joined_rows(nv, cv.take(c as int), si, name_chars@).len(),
                forall|j: int| 0 <= j < positions@.len() ==> (#[trigger] positions@[j]) < nv.len()
                    && nv[positions@[j] as int] == joined_rows(nv, cv.take(c as int), si, name_chars@)[j],
        {
            assert(cv.take(c + 1).drop_last() == cv.take(c as int));
            assert(cv.take(c + 1).last() == cv[c as int]);
            let row = &self.news_category[c];
            assert(cv[c as int] == row@);
            if row.source == src {
                let cat_chars = chars_of(row.category_name.as_str());
                if like_contains_exec(cat_chars.as_slice(), name_chars.as_slice()) {
                    assert(find_id(nv, row.news_id as int) is Some);
                    if let Some(p) = find_id_in(&self.news, row.news_id) {
                        proof {
                            lemma_find_id_some(nv, row.news_id as int);
                        }
                        let ghost before = joined_rows(nv, cv.take(c as int), si, name_chars@);
                        assert(joined_rows(nv, cv.take(c + 1), si, name_chars@) == before.push(nv[p as int]));
                        positions.push(p);
                    }
                }
            }
        }
        assert(cv.take(cv.len() as int) == cv);
        self.models_of_positions(&positions, Ghost(joined_rows(nv, cv, si, name_chars@)))
    }
}


proof fn lemma_has_category_push(cats: Seq<CategoryRowView>, row: CategoryRowView, id: int, name: Seq<char>)
    requires
        has_category(cats, id, name),
    ensures
        has_category(cats.push(row), id, name),
{
    let c = choose|c: int| 0 <= c < cats.len() && #[trigger] names_category(cats[c], id, name);
    assert(cats.push(row)[c] == cats[c]);
    assert(names_category(cats.push(row)[c], id, name));
}

proof fn lemma_add_categories_extends(cats: Seq<CategoryRowView>, id: int, names: Seq<Seq<char>>, source: nat, name: Seq<char>)
    requires
        has_category(cats, id, name),
    ensures
        has_category(add_categories(cats, id, names, source), id, name),
    decreases names.len(),
{
    if names.len() > 0 {
        lemma_add_categories_extends(cats, id, names.drop_last(), source, name);
        let before = add_categories(cats, id, names.drop_last(), source);
        if !has_category(before, id, names.last()) {
            lemma_has_category_push(before, CategoryRowView { news_id: id, category_name: names.last(), source }, id, name);
        }
    }
}

proof fn lemma_add_categories_has_all(cats: Seq<CategoryRowView>, id: int, names: Seq<Seq<char>>, source: nat)
    ensures
        forall|k: int| 0 <= k < names.len() ==> has_category(add_categories(cats, id, names, source), id, #[trigger] names[k]),
    decreases names.len(),
{
    if names.len() > 0 {
        let before = add_categories(cats, id, names.drop_last(), source);
        let last = names.last();
        lemma_add_categories_has_all(cats, id, names.drop_last(), source);
        let row = CategoryRowView { news_id: id, category_name: last, source };
        if !has_category(before, id, last) {
            assert(before.push(row)[before.len() as int] == row);
            assert(names_category(before.push(row)[before.len() as int], id, last));
        }
        assert forall|k: int| 0 <= k < names.len() implies has_category(add_categories(cats, id, names, source), id, #[trigger] names[k]) by {
            if k < names.len() - 1 {
                assert(names[k] == names.drop_last()[k]);
                if !has_category(before, id, last) {
                    lemma_has_category_push(before, row, id, names[k]);
                }
            }
        }
    }
}

proof fn lemma_add_categories_present(cats: Seq<CategoryRowView>, id: int, names: Seq<Seq<char>>, source: nat)
    requires
        forall|k: int| 0 <= k < names.len() ==> has_category(cats, id, #[trigger] names[k]),
    ensures
        add_categories(cats, id, names, source) == cats,
    decreases names.len(),
{
    if names.len() > 0 {
        assert forall|k: int| 0 <= k < names.drop_last().len() implies has_category(cats, id, #[trigger] names.drop_last()[k]) by {
            assert(names.drop_last()[k] == names[k]);
        }
        lemma_add_categories_present(cats, id, names.drop_last(), source);
        assert(has_category(cats, id, names[names.len() - 1]));
    }
}

/// Saving an article stores it: afterwards an article with its link is stored, holding all its
/// categories; when the link was new, the stored row is the article's own.
pub proof fn lemma_saved_stores(db: DbView, m: NewsModelView, timestamp: i64)
    requires
        m.content is Some,
    ensures
        ({
            let after = saved(db, m, timestamp);
            let p = find_link(after.news, m.link);
            &&& p is Some
            &&& forall|k: int| 0 <= k < m.categories.len() ==> has_category(after.news_category, after.news[p.unwrap()].id, #[trigger] m.categories[k])
            &&& find_link(db.news, m.link) is None ==> after.news[p.unwrap()] == new_row(db.news, m, m.content.unwrap(), timestamp)
        }),
{
    let paragraphs = m.content.unwrap();
    if find_link(db.news, m.link) is None {
        lemma_find_link_push(db.news, new_row(db.news, m, paragraphs, timestamp));
    } else {
        lemma_find_link_some(db.news, m.link);
    }
    let after = saved(db, m, timestamp);
    let id = after.news[find_link(after.news, m.link).unwrap()].id;
    lemma_add_categories_has_all(db.news_category, id, m.categories, m.source_index);
}

/// Saving the same article twice leaves the store as saving it once.
pub proof fn lemma_save_idempotent(db: DbView, m: NewsModelView, timestamp: i64)
    ensures
        saved(saved(db, m, timestamp), m, timestamp) == saved(db, m, timestamp),
{
    if m.content is Some {
        let once = saved(db, m, timestamp);
        lemma_saved_stores(db, m, timestamp);
        lemma_find_link_some(once.news, m.link);
        let id = once.news[find_link(once.news, m.link).unwrap()].id;
        lemma_add_categories_present(once.news_category, id, m.categories, m.source_index);
    }
}

/// Every article that fetching by service gives comes from that service, and there are at
/// most ten.
pub proof fn lemma_fetch_by_source_filters(news: Seq<NewsRowView>, source: nat)
    ensures
        first_ten(rows_of_source(news, source)).len() <= 10,
        forall|k: int| 0 <= k < first_ten(rows_of_source(news, source)).len()
            ==> (#[trigger] first_ten(rows_of_source(news, source))[k]).source == source,
    decreases news.len(),
{
    lemma_rows_of_source_all(news, source);
}

proof fn lemma_rows_of_source_all(news: Seq<NewsRowView>, source: nat)
    ensures
        forall|k: int| 0 <= k < rows_of_source(news, source).len() ==> (#[trigger] rows_of_source(news, source)[k]).source == source,
    decreases news.len(),
{
    if news.len() > 0 {
        lemma_rows_of_source_all(news.drop_last(), source);
        let before = rows_of_source(news.drop_last(), source);
        assert forall|k: int| 0 <= k < rows_of_source(news, source).len() implies (#[trigger] rows_of_source(news, source)[k]).source == source by {
            if k < before.len() {
                assert(rows_of_source(news, source)[k] == before[k]);
            }
        }
    }
}


/// The paragraphs of a stored article are those that were saved, when there is at least one
/// and none holds a line break: the stored text splits back into them.
pub proof fn lemma_content_round_trip(paragraphs: Seq<Seq<char>>)
    requires
        paragraphs.len() >= 1,
        forall|i: int| 0 <= i < paragraphs.len() ==> !(#[trigger] paragraphs[i]).contains('\n'),
    ensures
        split_on(join(paragraphs, "\n"@), '\n') == paragraphs,
{
    reveal_strlit("\n");
    assert("\n"@ == seq!['\n']);
    crate::utils::text::lemma_split_undoes_join(paragraphs, '\n');
}


/// The names without repeats, each where it first occurs.
pub open spec fn distinct_names(names: Seq<Seq<char>>) -> Seq<Seq<char>>
    decreases names.len(),
{
    if names.len() == 0 {
        seq![]
    } else {
        let before = distinct_names(names.drop_last());
        if before.contains(names.last()) {
            before
        } else {
            before.push(names.last())
        }
    }
}

proof fn lemma_fresh_categories(cats: Seq<CategoryRowView>, id: int, names: Seq<Seq<char>>, source: nat)
    requires
        forall|c: int| 0 <= c < cats.len() ==> (#[trigger] cats[c]).news_id != id,
    ensures
        categories_of(add_categories(cats, id, names, source), id) == distinct_names(names),
        forall|n: Seq<char>| has_category(add_categories(cats, id, names, source), id, n) <==> distinct_names(names).contains(n),
    decreases names.len(),
{
    if names.len() == 0 {
        lemma_categories_of_absent(cats, id);
        assert forall|n: Seq<char>| !has_category(cats, id, n) by {
            if has_category(cats, id, n) {
                let c = choose|c: int| 0 <= c < cats.len() && #[trigger] names_category(cats[c], id, n);
            }
        }
    } else {
        lemma_fresh_categories(cats, id, names.drop_last(), source);
        let before = add_categories(cats, id, names.drop_last(), source);
        let row = CategoryRowView { news_id: id, category_name: names.last(), source };
        if !has_category(before, id, names.last()) {
            let after = before.push(row);
            assert(after.drop_last() == before);
            assert(after.last() == row);
            assert forall|n: Seq<char>| has_category(after, id, n) <==> distinct_names(names).contains(n) by {
                if has_category(after, id, n) {
                    let c = choose|c: int| 0 <= c < after.len() && #[trigger] names_category(after[c], id, n);
                    if c < before.len() {
                        assert(names_category(before[c], id, n));
                        assert(distinct_names(names.drop_last()).contains(n));
                        assert(distinct_names(names) == distinct_names(names.drop_last()).push(names.last()));
                        let k = choose|k: int| 0 <= k < distinct_names(names.drop_last()).len() && distinct_names(names.drop_last())[k] == n;
                        assert(distinct_names(names)[k] == n);
                    } else {
                        assert(distinct_names(names).last() == n);
                    }
                }
                if distinct_names(names).contains(n) {
                    let k = choose|k: int| 0 <= k < distinct_names(names).len() && distinct_names(names)[k] == n;
                    if k < distinct_names(names.drop_last()).len() {
                        assert(distinct_names(names.drop_last())[k] == n);
                        assert(distinct_names(names.drop_last()).contains(n));
                        let c = choose|c: int| 0 <= c < before.len() && #[trigger] names_category(before[c], id, n);
                        assert(after[c] == before[c]);
                        assert(names_category(after[c], id, n));
                    } else {
                        assert(names_category(after[before.len() as int], id, n));
                    }
                }
            }
        } else {
            assert(distinct_names(names.drop_last()).contains(names.last()));
        }
    }
}

proof fn lemma_categories_of_absent(cats: Seq<CategoryRowView>, id: int)
    requires
        forall|c: int| 0 <= c < cats.len() ==> (#[trigger] cats[c]).news_id != id,
    ensures
        categories_of(cats, id) == Seq::<Seq<char>>::empty(),
    decreases cats.len(),
{
    if cats.len() > 0 {
        assert forall|c: int| 0 <= c < cats.drop_last().len() implies (#[trigger] cats.drop_last()[c]).news_id != id by {
            assert(cats.drop_last()[c] == cats[c]);
        }
        lemma_categories_of_absent(cats.drop_last(), id);
        assert(cats.last() == cats[cats.len() - 1]);
    }
}

/// A read gives back a write: saving an article whose link is new, in a store with fewer than
/// ten articles of its service, makes it the last article that fetching by service gives, with
/// its categories listed once each in the order first given.
pub proof fn lemma_saved_article_is_fetched(db: DbView, m: NewsModelView, timestamp: i64)
    requires
        tables_wf(db),
        m.content is Some,
        find_link(db.news, m.link) is None,
        rows_of_source(db.news, m.source_index).len() < 10,
    ensures
        ({
            let after = saved(db, m, timestamp);
            let fetched = first_ten(rows_of_source(after.news, m.source_index));
            let row = new_row(db.news, m, m.content.unwrap(), timestamp);
            &&& fetched.len() == rows_of_source(db.news, m.source_index).len() + 1
            &&& fetched.last() == row
            &&& categories_of(after.news_category, row.id) == distinct_names(m.categories)
        }),
{
    let row = new_row(db.news, m, m.content.unwrap(), timestamp);
    let after = saved(db, m, timestamp);
    assert(after.news == db.news.push(row));
    assert(after.news.drop_last() == db.news);
    assert(after.news.last() == row);
    assert(rows_of_source(after.news, m.source_index) == rows_of_source(db.news, m.source_index).push(row));
    lemma_find_link_push(db.news, row);
    assert(after.news[db.news.len() as int] == row);
    assert forall|c: int| 0 <= c < db.news_category.len() implies (#[trigger] db.news_category[c]).news_id != row.id by {
        let x = db.news_category[c].news_id;
        assert(find_id(db.news, x) is Some);
        lemma_find_id_some(db.news, x);
        let p = find_id(db.news, x).unwrap();
        if p < db.news.len() - 1 {
            assert(db.news[p].id < db.news[db.news.len() - 1].id);
        }
    }
    lemma_fresh_categories(db.news_category, row.id, m.categories, m.source_index);
}

proof fn lemma_add_categories_prefix(cats: Seq<CategoryRowView>, id: int, names: Seq<Seq<char>>, source: nat)
    ensures
        cats.len() <= add_categories(cats, id, names, source).len(),
        add_categories(cats, id, names, source).take(cats.len() as int) == cats,
    decreases names.len(),
{
    if names.len() > 0 {
        lemma_add_categories_prefix(cats, id, names.drop_last(), source);
        let before = add_categories(cats, id, names.drop_last(), source);
        let row = CategoryRowView { news_id: id, category_name: names.last(), source };
        assert(before.push(row).take(cats.len() as int) == before.take(cats.len() as int));
    }
}

/// Saving an article keeps every row stored before: the stored articles and category rows
/// come first, unchanged.
pub proof fn lemma_save_keeps_rows(db: DbView, m: NewsModelView, timestamp: i64)
    ensures
        ({
            let after = saved(db, m, timestamp);
            &&& db.news.len() <= after.news.len()
            &&& after.news.take(db.news.len() as int) == db.news
            &&& db.news_category.len() <= after.news_category.len()
            &&& after.news_category.take(db.news_category.len() as int) == db.news_category
        }),
{
    if let Some(paragraphs) = m.content {
        if find_link(db.news, m.link) is None {
            assert(db.news.push(new_row(db.news, m, paragraphs, timestamp)).take(db.news.len() as int) == db.news);
        } else {
            assert(db.news.take(db.news.len() as int) == db.news);
        }
        let after = saved(db, m, timestamp);
        let id = after.news[find_link(after.news, m.link).unwrap()].id;
        lemma_add_categories_prefix(db.news_category, id, m.categories, m.source_index);
    } else {
        assert(db.news.take(db.news.len() as int) == db.news);
        assert(db.news_category.take(db.news_category.len() as int) == db.news_category);
    }
}

/// A category row of the service whose name contains the category name (ASCII case aside).
pub open spec fn category_matches(c: CategoryRowView, source: nat, name: Seq<char>) -> bool {
    c.source == source && like_contains(c.category_name, name)
}

/// The category query is complete and in order: it gives, for every category row of the
/// service whose name contains the category name, in the order of the rows, the stored article
/// with the key that row names, whatever other category rows that article has.
pub proof fn lemma_joined_rows_complete(news: Seq<NewsRowView>, cats: Seq<CategoryRowView>, source: nat, name: Seq<char>)
    ensures
        joined_rows(news, cats, source, name) == cats.filter(|c: CategoryRowView| category_matches(c, source, name)).map_values(
            |c: CategoryRowView| news[find_id(news, c.news_id).unwrap()],
        ),
    decreases cats.len(),
{
    reveal(Seq::filter);
    let pred = |c: CategoryRowView| category_matches(c, source, name);
    let f = |c: CategoryRowView| news[find_id(news, c.news_id).unwrap()];
    if cats.len() == 0 {
        assert(cats.filter(pred).map_values(f) =~= Seq::<NewsRowView>::empty());
    } else {
        lemma_joined_rows_complete(news, cats.drop_last(), source, name);
        let before = cats.drop_last().filter(pred);
        if pred(cats.last()) {
            assert(before.push(cats.last()).map_values(f) =~= before.map_values(f).push(f(cats.last())));
        }
    }
}

/// Each article that the category query joins is a stored article whose key a category row of
/// the service names, that row's name containing the category name (ASCII case aside).
pub proof fn lemma_joined_rows_match_keys(v: DbView, source: nat, name: Seq<char>)
    requires
        tables_wf(v),
    ensures
        forall|j: int| 0 <= j < joined_rows(v.news, v.news_category, source, name).len() ==> {
            &&& v.news.contains(#[trigger] joined_rows(v.news, v.news_category, source, name)[j])
            &&& exists|c: int| 0 <= c < v.news_category.len() && v.news_category[c].source == source
                && like_contains(v.news_category[c].category_name, name)
                && joined_rows(v.news, v.news_category, source, name)[j].id == v.news_category[c].news_id
        },
{
    assert(v.news_category == v.news_category.take(v.news_category.len() as int));
    lemma_joined_rows_keys(v.news, v.news_category, source, name, v);
}

proof fn lemma_joined_rows_keys(news: Seq<NewsRowView>, cats: Seq<CategoryRowView>, source: nat, name: Seq<char>, v: DbView)
    requires
        tables_wf(v),
        news == v.news,
        cats.len() <= v.news_category.len(),
        cats == v.news_category.take(cats.len() as int),
    ensures
        forall|j: int| 0 <= j < joined_rows(news, cats, source, name).len() ==> {
            &&& v.news.contains(#[trigger] joined_rows(news, cats, source, name)[j])
            &&& exists|c: int| 0 <= c < v.news_category.len() && v.news_category[c].source == source
                && like_contains(v.news_category[c].category_name, name)
                && joined_rows(news, cats, source, name)[j].id == v.news_category[c].news_id
        },
    decreases cats.len(),
{
    if cats.len() > 0 {
        let shorter = cats.drop_last();
        assert(shorter == v.news_category.take(shorter.len() as int));
        lemma_joined_rows_keys(news, shorter, source, name, v);
        let before = joined_rows(news, shorter, source, name);
        let c = cats.len() - 1;
        assert(cats.last() == v.news_category[c]);
        let x = v.news_category[c].news_id;
        assert(find_id(v.news, x) is Some);
        lemma_find_id_some(v.news, x);
        let p = find_id(v.news, x).unwrap();
        let all = joined_rows(news, cats, source, name);
        assert forall|j: int| 0 <= j < all.len() implies {
            &&& v.news.contains(#[trigger] all[j])
            &&& exists|c: int| 0 <= c < v.news_category.len() && v.news_category[c].source == source
                && like_contains(v.news_category[c].category_name, name)
                && all[j].id == v.news_category[c].news_id
        } by {
            if j < before.len() {
                assert(all[j] == before[j]);
            } else {
                assert(all[j] == v.news[p]);
                assert(v.news[p] == v.news[p]);
            }
        }
    }
}

/// Saving two lists of articles one after the other is saving the joined list: a batch is the
/// single saves in order.
pub proof fn lemma_batches_compose(db: DbView, a: Seq<NewsModel>, b: Seq<NewsModel>)
    ensures
        saved_all(db, a + b) == saved_all(saved_all(db, a), b),
    decreases b.len(),
{
    if b.len() == 0 {
        assert(a + b == a);
    } else {
        lemma_batches_compose(db, a, b.drop_last());
        assert((a + b).drop_last() == a + b.drop_last());
        assert((a + b).last() == b.last());
    }
}

} // verus!
