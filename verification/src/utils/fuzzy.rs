use vstd::prelude::*;

use crate::utils::news_model::NewsModel;
use crate::utils::text::chars_of;
use vstd::utf8::encode_utf8;

verus! {

/// The lower-case form of a text, as `str::to_lowercase` gives it (Unicode `Lowercase_Mapping`).
pub uninterp spec fn lowercase(s: Seq<char>) -> Seq<char>;

/// Every character of the text is ASCII.
pub open spec fn is_ascii_text(s: Seq<char>) -> bool {
    forall|i: int| 0 <= i < s.len() ==> (#[trigger] s[i] as u32) < 128
}

/// An ASCII upper-case letter in lower case; any other character as it is.
pub open spec fn ascii_lower_char(c: char) -> char {
    if 'A' <= c && c <= 'Z' {
        ((c as u32) + 32) as char
    } else {
        c
    }
}

/// A text with its ASCII upper-case letters in lower case.
pub open spec fn ascii_lowercase(s: Seq<char>) -> Seq<char> {
    s.map_values(|c: char| ascii_lower_char(c))
}

/// The lower-case form of a text (`str::to_lowercase`). Of ASCII text it is the text with its
/// letters `A` to `Z` made `a` to `z`, character for character, as the Unicode lower-case
/// mapping gives for ASCII.
#[verifier::external_body]
fn to_lowercase(s: &str) -> (r: String)
    ensures
        r@ == lowercase(s@),
        is_ascii_text(s@) ==> r@ == ascii_lowercase(s@),
{
    s.to_lowercase()
}

/// The scan of a text for the characters of a query, in order: the number of query characters
/// matched so far, the score and the current run of consecutive matches. A match adds 10 plus
/// the length of the run it extends. The scan compares while fewer characters than the query's
/// length in UTF-8 bytes (`qbytes`) are matched; it fails (`None`) when it must compare with a
/// query character that does not exist.
pub open spec fn fuzzy_fold(q: Seq<char>, qbytes: int, t: Seq<char>) -> Option<(int, int, int)>
    decreases t.len(),
{
    if t.len() == 0 {
        Some((0, 0, 0))
    } else {
        match fuzzy_fold(q, qbytes, t.drop_last()) {
            None => None,
            Some(state) => {
                let (qi, score, streak) = state;
                let c = t.last();
                if qi < qbytes {
                    if qi >= q.len() {
                        None
                    } else if c == q[qi] {
                        Some((qi + 1, score + 10 + streak + 1, streak + 1))
                    } else {
                        Some((qi, score, 0))
                    }
                } else {
                    Some((qi, score, 0))
                }
            },
        }
    }
}

/// The score of a lower-cased text for a lower-cased query: the scan's score when every query
/// byte was matched, 0 otherwise; `None` when the scan fails or the score leaves `i32`.
pub open spec fn fuzzy_result(q: Seq<char>, t: Seq<char>) -> Option<int> {
    let qbytes = encode_utf8(q).len() as int;
    match fuzzy_fold(q, qbytes, t) {
        None => None,
        Some(state) => {
            let (qi, score, streak) = state;
            if score > i32::MAX {
                None
            } else if qi != qbytes {
                Some(0)
            } else {
                Some(score)
            }
        },
    }
}

/// How well a title matches a search query, both compared in lower case.
pub open spec fn fuzzy_outcome(query: Seq<char>, title: Seq<char>) -> Option<int> {
    fuzzy_result(lowercase(query), lowercase(title))
}

proof fn lemma_fold_nonneg(q: Seq<char>, qbytes: int, t: Seq<char>)
    requires
        fuzzy_fold(q, qbytes, t) is Some,
    ensures
        0 <= fuzzy_fold(q, qbytes, t).unwrap().2 <= fuzzy_fold(q, qbytes, t).unwrap().1,
    decreases t.len(),
{
    if t.len() > 0 {
        lemma_fold_nonneg(q, qbytes, t.drop_last());
    }
}

proof fn lemma_fold_prefix(q: Seq<char>, qbytes: int, t: Seq<char>, n: int)
    requires
        0 <= n <= t.len(),
        fuzzy_fold(q, qbytes, t) is Some,
    ensures
        fuzzy_fold(q, qbytes, t.take(n)) is Some,
        fuzzy_fold(q, qbytes, t.take(n)).unwrap().1 <= fuzzy_fold(q, qbytes, t).unwrap().1,
        fuzzy_fold(q, qbytes, t).unwrap().1 >= 0,
    decreases t.len(),
{
    lemma_fold_nonneg(q, qbytes, t);
    if t.len() == 0 {
        assert(t.take(n) == t);
    } else {
        lemma_fold_nonneg(q, qbytes, t.drop_last());
        lemma_fold_prefix(q, qbytes, t.drop_last(), if n == t.len() { 0 } else { n });
        if n == t.len() {
            assert(t.take(n) == t);
        } else {
            assert(t.drop_last().take(n) == t.take(n));
        }
    }
}

/// Scores a lower-cased text for a lower-cased query whose UTF-8 length is `qbytes`.
fn fuzzy_core(q: &[char], qbytes: usize, t: &[char]) -> (r: Option<i32>)
    requires
        qbytes == encode_utf8(q@).len(),
    ensures
        match r {
            Some(s) => fuzzy_result(q@, t@) == Some(s as int),
            None => fuzzy_result(q@, t@) is None,
        },
{
    let mut qi: usize = 0;
    let mut score: i32 = 0;
    let mut streak: i32 = 0;
    let mut i: usize = 0;
    assert(t@.take(0) == Seq::<char>::empty());
    while i < t.len()
        invariant
            i <= t.len(),
            qbytes == encode_utf8(q@).len(),
            fuzzy_fold(q@, qbytes as int, t@.take(i as int)) == Some((qi as int, score as int, streak as int)),
            0 <= streak <= score,
        decreases t.len() - i,
    {
        let ghost pre = t@.take(i as int);
        let ghost now = t@.take(i + 1);
        assert(now.drop_last() == pre);
        assert(now.last() == t@[i as int]);
        let c = t[i];
        if qi < qbytes {
            if qi >= q.len() {
                proof {
                    if fuzzy_fold(q@, qbytes as int, t@) is Some {
                        lemma_fold_prefix(q@, qbytes as int, t@, i + 1);
                    }
                }
                return None;
            }
            if c == q[qi] {
                if score > i32::MAX - 11 - streak {
                    proof {
                        if fuzzy_fold(q@, qbytes as int, t@) is Some {
                            lemma_fold_prefix(q@, qbytes as int, t@, i + 1);
                        }
                    }
                    return None;
                }
                qi = qi + 1;
                streak = streak + 1;
                score = score + 10 + streak;
            } else {
                streak = 0;
            }
        } else {
            streak = 0;
        }
        i = i + 1;
    }
    assert(t@.take(t@.len() as int) == t@);
    if qi != qbytes {
        Some(0)
    } else {
        Some(score)
    }
}

/// The lower-cased characters of a text.
fn lowered_chars(s: &str) -> (r: Vec<char>)
    ensures
        r@ == lowercase(s@),
        is_ascii_text(s@) ==> r@ == ascii_lowercase(s@),
{
    let lowered = to_lowercase(s);
    chars_of(lowered.as_str())
}

/// The UTF-8 length of the lower-cased query.
fn lowered_bytes(s: &str) -> (r: usize)
    ensures
        r == encode_utf8(lowercase(s@)).len(),
        is_ascii_text(s@) ==> r == encode_utf8(ascii_lowercase(s@)).len(),
{
    let lowered = to_lowercase(s);
    lowered.as_str().as_bytes().len()
}

/// How well the model's title matches a search query: the characters of the query must appear
/// in the title in order (case aside); each one found scores 10 plus the length of the run of
/// consecutive finds it extends. A title that does not hold the whole query scores 0.
pub fn fuzzy_score(query: &String, cna_model: &NewsModel) -> (r: i32)
    requires
        admitted_query(query@) || fuzzy_outcome(query@, cna_model.title@) is Some,
    ensures
        fuzzy_outcome(query@, cna_model.title@) == Some(r as int),
        is_ascii_text(query@) ==> (r > 0 <==> query@.len() > 0
            && is_subsequence(ascii_lowercase(query@), lowercase(cna_model.title@))),
        is_ascii_text(query@) && r > 0 ==> 11 * query@.len() <= r
            && 2 * r <= 20 * query@.len() + query@.len() * (query@.len() + 1),
{
    let q = lowered_chars(query.as_str());
    let qbytes = lowered_bytes(query.as_str());
    let t = lowered_chars(cna_model.title.as_str());
    proof {
        if is_ascii_text(query@) {
            lemma_ascii_lowercase(query@);
            if admitted_query(query@) {
                lemma_ascii_query_scores(q@, t@);
            }
        }
    }
    let r = fuzzy_core(q.as_slice(), qbytes, t.as_slice()).unwrap();
    proof {
        if is_ascii_text(query@) {
            lemma_ascii_lowercase(query@);
            if q@.len() <= 65000 {
                lemma_ascii_query_scores(q@, t@);
            } else {
                lemma_ascii_utf8_len(q@);
                lemma_fold_single_bytes(q@, t@);
                if r > 0 {
                    let k = q@.len() as int;
                    let (qi, score, streak) = fuzzy_fold(q@, k, t@).unwrap();
                    assert(qi == k);
                    let idx = lemma_fold_witness(q@, k, t@);
                    assert(q@.take(k) == q@);
                } else {
                    if query@.len() > 0 && is_subsequence(q@, t@) {
                        let idx = choose|idx: Seq<int>| embeds(q@, t@, idx);
                        assert(q@.take(q@.len() as int) == q@);
                        lemma_fold_finds_embedded(q@, t@, q@.len() as int, idx);
                    }
                }
            }
        }
    }
    r
}

/// A query that every title can be scored for: at most 65,000 ASCII characters.
pub open spec fn admitted_query(query: Seq<char>) -> bool {
    is_ascii_text(query) && query.len() <= 65000
}

/// The score of a title for a query, or `None` for the titles that `fuzzy_score` cannot score
/// (a query whose lower-case form is shorter in characters than in bytes and is found whole
/// before the title ends, or a score beyond `i32`).
pub fn try_fuzzy_score(query: &String, cna_model: &NewsModel) -> (r: Option<i32>)
    ensures
        match r {
            Some(s) => fuzzy_outcome(query@, cna_model.title@) == Some(s as int),
            None => fuzzy_outcome(query@, cna_model.title@) is None,
        },
{
    let q = lowered_chars(query.as_str());
    let qbytes = lowered_bytes(query.as_str());
    let t = lowered_chars(cna_model.title.as_str());
    match fuzzy_core(q.as_slice(), qbytes, t.as_slice()) {
        Some(_) => Some(fuzzy_score(query, cna_model)),
        None => None,
    }
}

/// The titles of a list of models.
pub open spec fn titles_of(choices: Seq<NewsModel>) -> Seq<Seq<char>> {
    Seq::new(choices.len(), |i: int| choices[i].title@)
}

/// Every title can be scored for the query.
pub open spec fn all_scored(query: Seq<char>, titles: Seq<Seq<char>>) -> bool {
    forall|i: int| 0 <= i < titles.len() ==> (#[trigger] fuzzy_outcome(query, titles[i])) is Some
}

/// The titles that match the query, in order, with their scores: (score, position).
pub open spec fn fuzzy_matches(query: Seq<char>, titles: Seq<Seq<char>>) -> Seq<(int, int)>
    decreases titles.len(),
{
    if titles.len() == 0 {
        seq![]
    } else {
        let m = fuzzy_matches(query, titles.drop_last());
        let s = fuzzy_outcome(query, titles.last()).unwrap();
        if s > 0 {
            m.push((s, titles.len() - 1))
        } else {
            m
        }
    }
}

/// Each result carries the score and position of the corresponding match and a copy of the
/// model at that position.
pub open spec fn agrees(results: Seq<(i32, NewsModel, usize)>, choices: Seq<NewsModel>, ms: Seq<(int, int)>) -> bool {
    &&& results.len() == ms.len()
    &&& forall|k: int| 0 <= k < results.len() ==> {
        &&& (#[trigger] results[k]).0 as int == ms[k].0
        &&& results[k].2 as int == ms[k].1
        &&& results[k].2 < choices.len()
        &&& results[k].1@ == choices[results[k].2 as int]@
    }
}

/// The models whose titles match the query, in order, each with its score and its position
/// among the choices.
pub fn fuzzy_match(query: String, choices: Vec<NewsModel>) -> (r: Vec<(i32, NewsModel, usize)>)
    requires
        admitted_query(query@) || all_scored(query@, titles_of(choices@)),
    ensures
        agrees(r@, choices@, fuzzy_matches(query@, titles_of(choices@))),
{
    let mut results: Vec<(i32, NewsModel, usize)> = Vec::new();
    let ghost titles = titles_of(choices@);
    for i in 0..choices.len()
        invariant
            titles == titles_of(choices@),
            admitted_query(query@) || all_scored(query@, titles),
            agrees(results@, choices@, fuzzy_matches(query@, titles.take(i as int))),
    {
        assert(titles.take(i + 1).drop_last() == titles.take(i as int));
        assert(titles.take(i + 1).last() == choices@[i as int].title@);
        assert(admitted_query(query@) || fuzzy_outcome(query@, titles[i as int]) is Some);
        let s = fuzzy_score(&query, &choices[i]);
        let ghost before = fuzzy_matches(query@, titles.take(i as int));
        let ghost after = fuzzy_matches(query@, titles.take(i + 1));
        if s > 0 {
            assert(after == before.push((s as int, i as int)));
            let ghost old_results = results@;
            results.push((s, choices[i].duplicate(), i));
            assert forall|k: int| 0 <= k < results@.len() implies {
                &&& (#[trigger] results@[k]).0 as int == after[k].0
                &&& results@[k].2 as int == after[k].1
                &&& results@[k].2 < choices@.len()
                &&& results@[k].1@ == choices@[results@[k].2 as int]@
            } by {
                if k < old_results.len() {
                    assert(after[k] == before[k]);
                    assert(results@[k] == old_results[k]);
                }
            }
        } else {
            assert(after == before);
        }
    }
    assert(titles.take(choices@.len() as int) == titles);
    results
}

/// Ranking order of matches: higher scores first, and among equal scores the later position
/// first (what a stable ascending sort by score followed by a reversal gives).
pub open spec fn ranks_before(a: (int, int), b: (int, int)) -> bool {
    a.0 > b.0 || (a.0 == b.0 && a.1 > b.1)
}

/// `order` lists exactly the positions of the titles that match the query, best ranked first.
pub open spec fn is_ranking(query: Seq<char>, titles: Seq<Seq<char>>, order: Seq<usize>) -> bool {
    &&& forall|k: int| 0 <= k < order.len() ==> #[trigger] order[k] < titles.len()
        && fuzzy_outcome(query, titles[order[k] as int]).unwrap() > 0
    &&& forall|i: int| 0 <= i < titles.len() && fuzzy_outcome(query, titles[i]).unwrap() > 0
        ==> order.contains(i as usize)
    &&& forall|k1: int, k2: int| 0 <= k1 < k2 < order.len() ==> ranks_before(
        (fuzzy_outcome(query, titles[order[k1] as int]).unwrap(), order[k1] as int),
        (fuzzy_outcome(query, titles[order[k2] as int]).unwrap(), order[k2] as int),
    )
}

/// The positions of the titles that match the query, best ranked first; `None` when some title
/// cannot be scored.
pub fn rank_titles(query: &String, titles: &Vec<String>) -> (r: Option<Vec<usize>>)
    ensures
        r is Some <==> all_scored(query@, titles.deep_view()),
        admitted_query(query@) ==> r is Some,
        r matches Some(order) ==> is_ranking(query@, titles.deep_view(), order@),
{
    let ghost tv = titles.deep_view();
    let q = lowered_chars(query.as_str());
    let qbytes = lowered_bytes(query.as_str());
    // ranked (score, position) pairs, best first
    let mut ranked: Vec<(i32, usize)> = Vec::new();
    for i in 0..titles.len()
        invariant
            tv == titles.deep_view(),
            q@ == lowercase(query@),
            is_ascii_text(query@) ==> q@ == ascii_lowercase(query@),
            qbytes == encode_utf8(q@).len(),
            forall|j: int| 0 <= j < i ==> (#[trigger] fuzzy_outcome(query@, tv[j])) is Some,
            forall|k: int| 0 <= k < ranked@.len() ==> (#[trigger] ranked@[k]).1 < i
                && fuzzy_outcome(query@, tv[ranked@[k].1 as int]) == Some(ranked@[k].0 as int)
                && ranked@[k].0 > 0,
            forall|j: int| 0 <= j < i && fuzzy_outcome(query@, tv[j]).unwrap() > 0
                ==> exists|k: int| 0 <= k < ranked@.len() && #[trigger] ranked@[k].1 == j,
            forall|k1: int, k2: int| 0 <= k1 < k2 < ranked@.len() ==> ranks_before(
                (ranked@[k1].0 as int, ranked@[k1].1 as int),
                (ranked@[k2].0 as int, ranked@[k2].1 as int),
            ),
    {
        let t = lowered_chars(titles[i].as_str());
        let outcome = fuzzy_core(q.as_slice(), qbytes, t.as_slice());
        assert(tv[i as int] == titles@[i as int]@);
        match outcome {
            None => {
                proof {
                    if admitted_query(query@) {
                        lemma_ascii_lowercase(query@);
                        lemma_ascii_query_scores(q@, t@);
                    }
                }
                return None;
            },
            Some(s) => {
                if s > 0 {
                    // insert before the first entry whose score is not higher
                    let mut p: usize = 0;
                    while p < ranked.len() && ranked[p].0 > s
                        invariant
                            p <= ranked@.len(),
                            forall|k: int| 0 <= k < p ==> (#[trigger] ranked@[k]).0 > s,
                        decreases ranked@.len() - p,
                    {
                        p = p + 1;
                    }
                    let ghost old_ranked = ranked@;
                    ranked.insert(p, (s, i));
                    assert(forall|k: int| 0 <= k < p ==> ranked@[k] == old_ranked[k]);
                    assert(forall|k: int| p < k < ranked@.len() ==> ranked@[k] == old_ranked[k - 1]);
                    assert forall|k1: int, k2: int| 0 <= k1 < k2 < ranked@.len() implies ranks_before(
                        (ranked@[k1].0 as int, ranked@[k1].1 as int),
                        (ranked@[k2].0 as int, ranked@[k2].1 as int),
                    ) by {
                        if k2 < p {
                        } else if k1 < p && k2 == p {
                        } else if k1 < p {
                            assert(ranked@[k2] == old_ranked[k2 - 1]);
                        } else if k1 == p {
                            assert(ranked@[k2] == old_ranked[k2 - 1]);
                            assert(p == k2 - 1 || p < k2 - 1);
                            if p < old_ranked.len() {
                                if k2 - 1 > p {
                                    assert(ranks_before(
                                        (old_ranked[p as int].0 as int, old_ranked[p as int].1 as int),
                                        (old_ranked[k2 - 1].0 as int, old_ranked[k2 - 1].1 as int),
                                    ));
                                }
                            }
                        } else {
                            assert(ranked@[k1] == old_ranked[k1 - 1]);
                            assert(ranked@[k2] == old_ranked[k2 - 1]);
                        }
                    }
                    assert forall|j: int| 0 <= j < i + 1 && fuzzy_outcome(query@, tv[j]).unwrap() > 0
                        implies exists|k: int| 0 <= k < ranked@.len() && #[trigger] ranked@[k].1 == j by {
                        if j == i {
                            assert(ranked@[p as int].1 == j);
                        } else {
                            let k0 = choose|k: int| 0 <= k < old_ranked.len() && #[trigger] old_ranked[k].1 == j;
                            if k0 < p {
                                assert(ranked@[k0].1 == j);
                            } else {
                                assert(ranked@[k0 + 1].1 == j);
                            }
                        }
                    }
                } else {
                    assert forall|j: int| 0 <= j < i + 1 && fuzzy_outcome(query@, tv[j]).unwrap() > 0
                        implies exists|k: int| 0 <= k < ranked@.len() && #[trigger] ranked@[k].1 == j by {
                    }
                }
            },
        }
    }
    let mut order: Vec<usize> = Vec::new();
    for k in 0..ranked.len()
        invariant
            order@.len() == k,
            forall|m: int| 0 <= m < k ==> order@[m] == (#[trigger] ranked@[m]).1,
    {
        order.push(ranked[k].1);
    }
    assert forall|i: int| 0 <= i < tv.len() && fuzzy_outcome(query@, tv[i]).unwrap() > 0
        implies order@.contains(i as usize) by {
        let k = choose|k: int| 0 <= k < ranked@.len() && #[trigger] ranked@[k].1 == i;
        assert(order@[k] == i);
    }
    assert forall|k: int| 0 <= k < order@.len() implies #[trigger] order@[k] < tv.len()
        && fuzzy_outcome(query@, tv[order@[k] as int]).unwrap() > 0 by {
        assert(order@[k] == ranked@[k].1);
    }
    assert forall|k1: int, k2: int| 0 <= k1 < k2 < order@.len() implies ranks_before(
        (fuzzy_outcome(query@, tv[order@[k1] as int]).unwrap(), order@[k1] as int),
        (fuzzy_outcome(query@, tv[order@[k2] as int]).unwrap(), order@[k2] as int),
    ) by {
        assert(order@[k1] == ranked@[k1].1);
        assert(order@[k2] == ranked@[k2].1);
    }
    Some(order)
}


/// `idx` places the characters of `q`, in order, at increasing positions of `t`.
pub open spec fn embeds(q: Seq<char>, t: Seq<char>, idx: Seq<int>) -> bool {
    &&& idx.len() == q.len()
    &&& forall|k: int| 0 <= k < idx.len() ==> 0 <= #[trigger] idx[k] < t.len() && t[idx[k]] == q[k]
    &&& forall|j: int, k: int| 0 <= j < k < idx.len() ==> idx[j] < idx[k]
}

/// The characters of `q` occur in `t` in order.
pub open spec fn is_subsequence(q: Seq<char>, t: Seq<char>) -> bool {
    exists|idx: Seq<int>| embeds(q, t, idx)
}

proof fn lemma_fold_witness(q: Seq<char>, qbytes: int, t: Seq<char>) -> (idx: Seq<int>)
    requires
        fuzzy_fold(q, qbytes, t) is Some,
    ensures
        fuzzy_fold(q, qbytes, t).unwrap().0 <= q.len(),
        0 <= fuzzy_fold(q, qbytes, t).unwrap().0,
        embeds(q.take(fuzzy_fold(q, qbytes, t).unwrap().0), t, idx),
    decreases t.len(),
{
    if t.len() == 0 {
        assert(q.take(0) == Seq::<char>::empty());
        Seq::empty()
    } else {
        let prev = lemma_fold_witness(q, qbytes, t.drop_last());
        let qi = fuzzy_fold(q, qbytes, t.drop_last()).unwrap().0;
        let now = fuzzy_fold(q, qbytes, t).unwrap().0;
        assert(forall|k: int| 0 <= k < prev.len() ==> t.drop_last()[prev[k]] == t[prev[k]]);
        if now == qi {
            prev
        } else {
            let idx = prev.push(t.len() - 1);
            assert(q.take(now) == q.take(qi).push(q[qi]));
            assert forall|k: int| 0 <= k < idx.len() implies 0 <= #[trigger] idx[k] < t.len() && t[idx[k]] == q.take(now)[k] by {
                if k < prev.len() {
                    assert(idx[k] == prev[k]);
                    assert(q.take(now)[k] == q.take(qi)[k]);
                }
            }
            idx
        }
    }
}

proof fn lemma_encode_utf8_len(q: Seq<char>)
    ensures
        encode_utf8(q).len() >= q.len(),
    decreases q.len(),
{
    if q.len() > 0 {
        lemma_encode_utf8_len(q.drop_first());
        assert(vstd::utf8::encode_scalar(q[0] as u32).len() >= 1);
    }
}

/// A title scores above 0 only when the whole query, in lower case, occurs in order in the
/// lower-cased title.
pub proof fn lemma_positive_score_is_subsequence(query: Seq<char>, title: Seq<char>)
    requires
        fuzzy_outcome(query, title) matches Some(s) && s > 0,
    ensures
        is_subsequence(lowercase(query), lowercase(title)),
{
    let q = lowercase(query);
    let t = lowercase(title);
    let qbytes = encode_utf8(q).len() as int;
    let idx = lemma_fold_witness(q, qbytes, t);
    lemma_encode_utf8_len(q);
    assert(q.take(q.len() as int) == q);
    assert(embeds(q, t, idx));
}

/// Lower-casing ASCII text gives ASCII text of the same length.
pub proof fn lemma_ascii_lowercase(s: Seq<char>)
    requires
        is_ascii_text(s),
    ensures
        ascii_lowercase(s).len() == s.len(),
        is_ascii_text(ascii_lowercase(s)),
{
    let l = ascii_lowercase(s);
    assert forall|i: int| 0 <= i < l.len() implies (#[trigger] l[i] as u32) < 128 by {
        assert(l[i] == ascii_lower_char(s[i]));
        assert((s[i] as u32) < 128);
    }
}

proof fn lemma_ascii_utf8_len(s: Seq<char>)
    requires
        is_ascii_text(s),
    ensures
        encode_utf8(s).len() == s.len(),
    decreases s.len(),
{
    if s.len() > 0 {
        assert forall|i: int| 0 <= i < s.drop_first().len() implies (#[trigger] s.drop_first()[i] as u32) < 128 by {
            assert(s.drop_first()[i] == s[i + 1]);
        }
        lemma_ascii_utf8_len(s.drop_first());
        assert((s[0] as u32) < 128);
        assert(vstd::utf8::has_width_1_encoding(s[0] as u32));
    }
}

proof fn lemma_score_step(qi: int, score: int, streak: int)
    by (nonlinear_arith)
    requires
        0 <= streak <= qi,
        11 * qi <= score,
        2 * score <= 20 * qi + qi * (qi + 1),
    ensures
        11 * (qi + 1) <= score + 10 + streak + 1,
        2 * (score + 10 + streak + 1) <= 20 * (qi + 1) + (qi + 1) * (qi + 1 + 1),
{
}

/// The scan of a text for a query of single-byte characters never fails; its score is bounded
/// by the number of matches.
proof fn lemma_fold_single_bytes(q: Seq<char>, t: Seq<char>)
    ensures
        fuzzy_fold(q, q.len() as int, t) matches Some(state) && {
            let (qi, score, streak) = state;
            &&& 0 <= streak <= qi <= q.len()
            &&& 11 * qi <= score
            &&& 2 * score <= 20 * qi + qi * (qi + 1)
        },
    decreases t.len(),
{
    if t.len() > 0 {
        lemma_fold_single_bytes(q, t.drop_last());
        let (qi, score, streak) = fuzzy_fold(q, q.len() as int, t.drop_last()).unwrap();
        if qi < q.len() && t.last() == q[qi] {
            lemma_score_step(qi, score, streak);
        }
    }
}

proof fn lemma_fold_matches_grow(q: Seq<char>, t: Seq<char>, n: int)
    requires
        0 <= n <= t.len(),
    ensures
        fuzzy_fold(q, q.len() as int, t.take(n)).unwrap().0 <= fuzzy_fold(q, q.len() as int, t).unwrap().0,
    decreases t.len(),
{
    lemma_fold_single_bytes(q, t);
    if n == t.len() {
        assert(t.take(n) == t);
    } else {
        lemma_fold_single_bytes(q, t.drop_last());
        assert(t.drop_last().take(n) == t.take(n));
        lemma_fold_matches_grow(q, t.drop_last(), n);
    }
}

/// When a prefix of the query occurs in order in the text, the scan matches at least that many
/// query characters: taking the first match of each character never loses a later one.
proof fn lemma_fold_finds_embedded(q: Seq<char>, t: Seq<char>, m: int, idx: Seq<int>)
    requires
        0 <= m <= q.len(),
        embeds(q.take(m), t, idx),
    ensures
        fuzzy_fold(q, q.len() as int, t).unwrap().0 >= m,
    decreases t.len(),
{
    lemma_fold_single_bytes(q, t);
    if m > 0 {
        let p = idx[m - 1];
        let shorter = idx.take(m - 1);
        let tp = t.take(p);
        assert forall|k: int| 0 <= k < shorter.len() implies 0 <= #[trigger] shorter[k] < tp.len() && tp[shorter[k]] == q.take(m - 1)[k] by {
            assert(shorter[k] == idx[k]);
            assert(idx[k] < idx[m - 1]);
            assert(q.take(m - 1)[k] == q.take(m)[k]);
        }
        assert(embeds(q.take(m - 1), tp, shorter));
        lemma_fold_finds_embedded(q, tp, m - 1, shorter);
        let tp1 = t.take(p + 1);
        assert(tp1.drop_last() == tp);
        assert(tp1.last() == t[p]);
        assert(t[p] == q.take(m)[m - 1]);
        lemma_fold_single_bytes(q, tp);
        lemma_fold_single_bytes(q, tp1);
        assert(fuzzy_fold(q, q.len() as int, tp1).unwrap().0 >= m);
        lemma_fold_matches_grow(q, t, p + 1);
    }
}

/// A query of at most 65,000 ASCII characters scores every text: the score is above 0 exactly
/// when the query is not empty and its characters occur in order in the text, and then it lies
/// between 11 and 10 plus the query's length per query character (at most
/// `10 k + k (k + 1) / 2` for a query of `k` characters, reached when the matches run on).
pub proof fn lemma_ascii_query_scores(q: Seq<char>, t: Seq<char>)
    requires
        is_ascii_text(q),
        q.len() <= 65000,
    ensures
        fuzzy_result(q, t) matches Some(s) && {
            &&& s >= 0
            &&& s > 0 <==> (q.len() > 0 && is_subsequence(q, t))
            &&& s > 0 ==> 11 * q.len() <= s && 2 * s <= 20 * q.len() + q.len() * (q.len() + 1)
        },
{
    lemma_ascii_utf8_len(q);
    lemma_fold_single_bytes(q, t);
    let k = q.len() as int;
    let (qi, score, streak) = fuzzy_fold(q, k, t).unwrap();
    assert(2 * score <= 20 * k + k * (k + 1)) by (nonlinear_arith)
        requires
            0 <= qi <= k,
            2 * score <= 20 * qi + qi * (qi + 1),
    ;
    assert(20 * k + k * (k + 1) <= 20 * 65000 + 65000 * 65001) by (nonlinear_arith)
        requires
            0 <= k <= 65000,
    ;
    if is_subsequence(q, t) {
        let idx = choose|idx: Seq<int>| embeds(q, t, idx);
        assert(q.take(k) == q);
        lemma_fold_finds_embedded(q, t, k, idx);
    }
    if qi == k && score > 0 {
        let idx = lemma_fold_witness(q, k, t);
        assert(q.take(k) == q);
    }
}

/// Matching a query against two lists one after the other gives the matches of the first list
/// followed by those of the second, their positions moved past the first list.
pub proof fn lemma_matches_concat(query: Seq<char>, a: Seq<Seq<char>>, b: Seq<Seq<char>>)
    ensures
        fuzzy_matches(query, a + b) == fuzzy_matches(query, a) + fuzzy_matches(query, b).map_values(
            |m: (int, int)| (m.0, m.1 + a.len()),
        ),
    decreases b.len(),
{
    let shift = |m: (int, int)| (m.0, m.1 + a.len());
    if b.len() == 0 {
        assert(a + b == a);
        assert(fuzzy_matches(query, b).map_values(shift) =~= Seq::<(int, int)>::empty());
        assert(fuzzy_matches(query, a) + Seq::<(int, int)>::empty() == fuzzy_matches(query, a));
    } else {
        lemma_matches_concat(query, a, b.drop_last());
        assert((a + b).drop_last() == a + b.drop_last());
        assert((a + b).last() == b.last());
        let mb = fuzzy_matches(query, b.drop_last());
        let s = fuzzy_outcome(query, b.last()).unwrap();
        if s > 0 {
            assert(mb.push((s, b.len() - 1)).map_values(shift) =~= mb.map_values(shift).push((s, (a + b).len() - 1)));
            assert(fuzzy_matches(query, a) + mb.map_values(shift).push((s, (a + b).len() - 1))
                =~= (fuzzy_matches(query, a) + mb.map_values(shift)).push((s, (a + b).len() - 1)));
        }
    }
}

} // verus!
