use vstd::prelude::*;

verus! {

/// Unicode `White_Space` property, the set of characters that
/// `char::is_whitespace` (and so `str::trim` and `str::split_whitespace`) treats as space.
pub open spec fn is_white_space(c: char) -> bool {
    ||| ('\u{9}' <= c && c <= '\u{d}')
    ||| c == ' '
    ||| c == '\u{85}'
    ||| c == '\u{a0}'
    ||| c == '\u{1680}'
    ||| ('\u{2000}' <= c && c <= '\u{200a}')
    ||| c == '\u{2028}'
    ||| c == '\u{2029}'
    ||| c == '\u{202f}'
    ||| c == '\u{205f}'
    ||| c == '\u{3000}'
}

/// Whether `c` is white space.
pub fn char_is_white_space(c: char) -> (r: bool)
    ensures
        r == is_white_space(c),
{
    (c >= '\u{9}' && c <= '\u{d}') || c == ' ' || c == '\u{85}' || c == '\u{a0}' || c
        == '\u{1680}' || (c >= '\u{2000}' && c <= '\u{200a}') || c == '\u{2028}' || c
        == '\u{2029}' || c == '\u{202f}' || c == '\u{205f}' || c == '\u{3000}'
}

/// A text is blank when it holds nothing but white space (its trimmed form is empty).
pub open spec fn is_blank(s: Seq<char>) -> bool {
    forall|i: int| 0 <= i < s.len() ==> #[trigger] is_white_space(s[i])
}

/// The characters of `s`, in order.
pub fn chars_of(s: &str) -> (v: Vec<char>)
    ensures
        v@ == s@,
{
    broadcast use vstd::string::group_string_axioms;

    let mut v: Vec<char> = Vec::new();
    for c in it: s.chars()
        invariant
            v@ == it.seq().take(it.index() as int),
    {
        v.push(c);
    }
    v
}

/// Appends one character to a string (`String::push`).
#[verifier::external_body]
fn push_char(s: &mut String, c: char)
    ensures
        final(s)@ == old(s)@.push(c),
{
    s.push(c);
}

/// The string made of the characters `v`.
pub fn string_of_chars(v: &[char]) -> (s: String)
    ensures
        s@ == v@,
{
    let mut s = String::new();
    for i in 0..v.len()
        invariant
            s@ == v@.take(i as int),
    {
        push_char(&mut s, v[i]);
        assert(v@.take(i + 1) == v@.take(i as int).push(v@[i as int]));
    }
    assert(v@.take(v@.len() as int) == v@);
    s
}

/// Whether the text holds only white space: `text.trim().is_empty()`.
pub fn text_is_blank(s: &str) -> (r: bool)
    ensures
        r == is_blank(s@),
{
    let v = chars_of(s);
    for i in 0..v.len()
        invariant
            v@ == s@,
            forall|j: int| 0 <= j < i ==> #[trigger] is_white_space(v@[j]),
    {
        if !char_is_white_space(v[i]) {
            return false;
        }
    }
    true
}

/// The words of a text: its maximal runs of characters that are not white space, in order
/// (what `str::split_whitespace` yields).
pub open spec fn words(s: Seq<char>) -> Seq<Seq<char>>
    decreases s.len(),
{
    if s.len() == 0 {
        seq![]
    } else {
        let w = words(s.drop_last());
        let c = s.last();
        if is_white_space(c) {
            w
        } else if s.len() >= 2 && !is_white_space(s[s.len() - 2]) {
            w.drop_last().push(w.last().push(c))
        } else {
            w.push(seq![c])
        }
    }
}

proof fn lemma_words_nonempty_last(s: Seq<char>)
    requires
        s.len() > 0,
        !is_white_space(s.last()),
    ensures
        words(s).len() > 0,
    decreases s.len(),
{
    if s.len() >= 2 && !is_white_space(s[s.len() - 2]) {
        assert(s.drop_last().last() == s[s.len() - 2]);
        lemma_words_nonempty_last(s.drop_last());
    }
}

/// Splits a text into its words, as `str::split_whitespace` does.
pub fn split_words(s: &[char]) -> (r: Vec<Vec<char>>)
    ensures
        r@.len() == words(s@).len(),
        forall|i: int| 0 <= i < r@.len() ==> #[trigger] r@[i]@ == words(s@)[i],
{
    let mut r: Vec<Vec<char>> = Vec::new();
    let mut i: usize = 0;
    while i < s.len()
        invariant
            i <= s.len(),
            r@.len() == words(s@.take(i as int)).len(),
            forall|k: int| 0 <= k < r@.len() ==> #[trigger] r@[k]@ == words(s@.take(i as int))[k],
        decreases s.len() - i,
    {
        let c = s[i];
        let ghost pre = s@.take(i as int);
        let ghost cur = s@.take(i + 1);
        assert(cur.drop_last() == pre);
        assert(cur.last() == c);
        if char_is_white_space(c) {
        } else if i >= 1 && !char_is_white_space(s[i - 1]) {
            assert(cur[cur.len() - 2] == s@[i - 1]);
            assert(pre.last() == s@[i - 1]);
            proof {
                lemma_words_nonempty_last(pre);
            }
            let last = r.len() - 1;
            let mut w = r.pop().unwrap();
            w.push(c);
            r.push(w);
            assert(words(cur) == words(pre).drop_last().push(words(pre).last().push(c)));
            assert forall|k: int| 0 <= k < r@.len() implies #[trigger] r@[k]@ == words(cur)[k] by {
                if k < last {
                } else {
                }
            }
        } else {
            let mut w: Vec<char> = Vec::new();
            w.push(c);
            r.push(w);
            assert(w@ == seq![c]);
        }
        i = i + 1;
    }
    assert(s@.take(s@.len() as int) == s@);
    r
}


/// The parts laid end to end with `sep` between each two neighbours (`[T]::join`).
pub open spec fn join(parts: Seq<Seq<char>>, sep: Seq<char>) -> Seq<char>
    decreases parts.len(),
{
    if parts.len() == 0 {
        seq![]
    } else if parts.len() == 1 {
        parts[0]
    } else {
        join(parts.drop_last(), sep) + sep + parts.last()
    }
}

/// Joins strings with a separator, as `[String]::join` does.
pub fn join_strings(parts: &Vec<String>, sep: &str) -> (r: String)
    ensures
        r@ == join(parts.deep_view(), sep@),
{
    let mut r = String::new();
    let ghost dv = parts.deep_view();
    for i in 0..parts.len()
        invariant
            dv == parts.deep_view(),
            r@ == join(dv.take(i as int), sep@),
    {
        assert(dv.take(i + 1).drop_last() == dv.take(i as int));
        assert(dv.take(i + 1).last() == parts@[i as int]@);
        if i != 0 {
            r.append(sep);
        }
        r.append(parts[i].as_str());
    }
    assert(dv.take(parts.len() as int) == dv);
    r
}

/// The pieces of `s` between occurrences of the character `sep` (`str::split` with a
/// character pattern): one more piece than there are separators.
pub open spec fn split_on(s: Seq<char>, sep: char) -> Seq<Seq<char>>
    decreases s.len(),
{
    if s.len() == 0 {
        seq![seq![]]
    } else {
        let p = split_on(s.drop_last(), sep);
        if s.last() == sep {
            p.push(seq![])
        } else {
            p.drop_last().push(p.last().push(s.last()))
        }
    }
}

proof fn lemma_split_on_nonempty(s: Seq<char>, sep: char)
    ensures
        split_on(s, sep).len() >= 1,
    decreases s.len(),
{
    if s.len() > 0 {
        lemma_split_on_nonempty(s.drop_last(), sep);
    }
}

/// Splits a text at each occurrence of `sep`.
pub fn split_string(s: &str, sep: char) -> (r: Vec<String>)
    ensures
        r.deep_view() == split_on(s@, sep),
{
    let v = chars_of(s);
    let mut pieces: Vec<String> = Vec::new();
    let mut cur: Vec<char> = Vec::new();
    let mut i: usize = 0;
    while i < v.len()
        invariant
            v@ == s@,
            i <= v.len(),
            pieces.deep_view().push(cur@) == split_on(v@.take(i as int), sep),
        decreases v.len() - i,
    {
        let ghost pre = v@.take(i as int);
        let ghost now = v@.take(i + 1);
        assert(now.drop_last() == pre);
        assert(now.last() == v@[i as int]);
        proof {
            lemma_split_on_nonempty(pre, sep);
        }
        let c = v[i];
        if c == sep {
            let piece = string_of_chars(cur.as_slice());
            pieces.push(piece);
            cur = Vec::new();
            assert(pieces.deep_view() == split_on(pre, sep));
        } else {
            let ghost before = pieces.deep_view();
            assert(before == split_on(pre, sep).drop_last());
            cur.push(c);
        }
        i = i + 1;
    }
    assert(v@.take(v@.len() as int) == v@);
    let last = string_of_chars(cur.as_slice());
    pieces.push(last);
    pieces
}

/// `s` with every occurrence of `pat`, found left to right without overlap, replaced by `rep`:
/// what `s.split(pat).collect::<Vec<_>>().join(rep)` builds.
pub open spec fn replace_all(s: Seq<char>, pat: Seq<char>, rep: Seq<char>) -> Seq<char>
    decreases s.len(),
{
    if s.len() == 0 || pat.len() == 0 {
        s
    } else if pat.is_prefix_of(s) {
        rep + replace_all(s.skip(pat.len() as int), pat, rep)
    } else {
        seq![s[0]] + replace_all(s.skip(1), pat, rep)
    }
}

/// Whether `pat` occurs in `s` at position `at`.
fn occurs_at(s: &[char], at: usize, pat: &[char]) -> (r: bool)
    requires
        at <= s.len(),
    ensures
        r == pat@.is_prefix_of(s@.skip(at as int)),
{
    if pat.len() > s.len() - at {
        return false;
    }
    for j in 0..pat.len()
        invariant
            at + pat.len() <= s.len(),
            forall|k: int| 0 <= k < j ==> pat@[k] == s@[at + k],
    {
        if pat[j] != s[at + j] {
            return false;
        }
    }
    true
}

/// Appends the characters `add` to `r`.
fn extend_chars(r: &mut Vec<char>, add: &[char])
    ensures
        final(r)@ == old(r)@ + add@,
{
    for j in 0..add.len()
        invariant
            r@ == old(r)@ + add@.take(j as int),
    {
        r.push(add[j]);
        assert(add@.take(j + 1) == add@.take(j as int).push(add@[j as int]));
    }
    assert(add@.take(add@.len() as int) == add@);
}

/// Replaces every occurrence of `pat` in `s` by `rep`, left to right.
pub fn replace_all_chars(s: &[char], pat: &[char], rep: &[char]) -> (r: Vec<char>)
    ensures
        r@ == replace_all(s@, pat@, rep@),
{
    if pat.len() == 0 {
        let mut r: Vec<char> = Vec::new();
        for i in 0..s.len()
            invariant
                r@ == s@.take(i as int),
        {
            r.push(s[i]);
            assert(s@.take(i + 1) == s@.take(i as int).push(s@[i as int]));
        }
        assert(s@.take(s@.len() as int) == s@);
        return r;
    }
    let mut r: Vec<char> = Vec::new();
    let mut i: usize = 0;
    assert(s@.skip(0) == s@);
    assert(r@ + s@ == s@);
    assert(r@ + replace_all(s@, pat@, rep@) == replace_all(s@, pat@, rep@));
    while i < s.len()
        invariant
            pat@.len() > 0,
            i <= s.len(),
            r@ + replace_all(s@.skip(i as int), pat@, rep@) == replace_all(s@, pat@, rep@),
        decreases s.len() - i,
    {
        let ghost rest = s@.skip(i as int);
        if occurs_at(s, i, pat) {
            extend_chars(&mut r, rep);
            assert(rest.skip(pat@.len() as int) == s@.skip(i + pat.len()));
            i = i + pat.len();
        } else {
            r.push(s[i]);
            assert(rest.skip(1) == s@.skip(i + 1));
            i = i + 1;
        }
    }
    assert(s@.skip(s@.len() as int) == Seq::<char>::empty());
    r
}


/// A copy of a list of strings.
pub fn clone_strings(v: &Vec<String>) -> (r: Vec<String>)
    ensures
        r.deep_view() == v.deep_view(),
{
    let mut r: Vec<String> = Vec::new();
    for i in 0..v.len()
        invariant
            r.deep_view() == v.deep_view().take(i as int),
    {
        r.push(v[i].clone());
        assert(v.deep_view().take(i + 1) == v.deep_view().take(i as int).push(v@[i as int]@));
    }
    assert(v.deep_view().take(v@.len() as int) == v.deep_view());
    r
}


proof fn lemma_split_no_sep(y: Seq<char>, c: char)
    requires
        !y.contains(c),
    ensures
        split_on(y, c) == seq![y],
    decreases y.len(),
{
    if y.len() > 0 {
        assert(!y.drop_last().contains(c)) by {
            if y.drop_last().contains(c) {
                let i = choose|i: int| 0 <= i < y.drop_last().len() && y.drop_last()[i] == c;
                assert(y[i] == c);
            }
        }
        lemma_split_no_sep(y.drop_last(), c);
        assert(y.last() != c);
        assert(y.drop_last().push(y.last()) == y);
    } else {
        assert(y == Seq::<char>::empty());
    }
}

proof fn lemma_split_after_sep(s: Seq<char>, y: Seq<char>, c: char)
    requires
        !y.contains(c),
    ensures
        split_on(s + seq![c] + y, c) == split_on(s, c).push(y),
    decreases y.len(),
{
    let z = s + seq![c] + y;
    if y.len() == 0 {
        assert(z == s.push(c));
        assert(z.drop_last() == s);
        assert(y == Seq::<char>::empty());
    } else {
        assert(!y.drop_last().contains(c)) by {
            if y.drop_last().contains(c) {
                let i = choose|i: int| 0 <= i < y.drop_last().len() && y.drop_last()[i] == c;
                assert(y[i] == c);
            }
        }
        lemma_split_after_sep(s, y.drop_last(), c);
        assert(z.drop_last() == s + seq![c] + y.drop_last());
        assert(z.last() == y.last());
        assert(y.last() != c);
        assert(y.drop_last().push(y.last()) == y);
    }
}

/// Splitting at a separator what was joined with it gives back the pieces, when there is at
/// least one piece and none holds the separator.
pub proof fn lemma_split_undoes_join(parts: Seq<Seq<char>>, c: char)
    requires
        parts.len() >= 1,
        forall|i: int| 0 <= i < parts.len() ==> !(#[trigger] parts[i]).contains(c),
    ensures
        split_on(join(parts, seq![c]), c) == parts,
    decreases parts.len(),
{
    if parts.len() == 1 {
        lemma_split_no_sep(parts[0], c);
        assert(parts == seq![parts[0]]);
    } else {
        let init = parts.drop_last();
        assert forall|i: int| 0 <= i < init.len() implies !(#[trigger] init[i]).contains(c) by {
            assert(init[i] == parts[i]);
        }
        lemma_split_undoes_join(init, c);
        assert(!parts[parts.len() - 1].contains(c));
        lemma_split_after_sep(join(init, seq![c]), parts.last(), c);
        assert(init.push(parts.last()) == parts);
    }
}

} // verus!
