//! Extraction of `[[Name]]` wikilink mentions from capture text.

use vstd::prelude::*;
use crate::text::{
    chars_of, find_char, is_ws, lemma_find_char, lemma_trim_no_ws_ends, lowercase_str, slice_chars,
    str_to_lowercase, string_of, trim, trim_range,
};

verus! {

/// First index `k >= from` where `]]` starts.
pub open spec fn find_close(s: Seq<char>, from: int) -> Option<int>
    decreases s.len() - from,
{
    if from < 0 || from + 1 >= s.len() {
        None
    } else if s[from] == ']' && s[from + 1] == ']' {
        Some(from)
    } else {
        find_close(s, from + 1)
    }
}

proof fn lemma_find_close(s: Seq<char>, from: int)
    requires
        0 <= from,
    ensures
        find_close(s, from) matches Some(k) ==> from <= k && k + 1 < s.len(),
    decreases s.len() - from,
{
    if from + 1 < s.len() && !(s[from] == ']' && s[from + 1] == ']') {
        lemma_find_close(s, from + 1);
    }
}

/// The part of `s` before the first `c` (all of `s` when there is none).
pub open spec fn before_char(s: Seq<char>, c: char) -> Seq<char> {
    match find_char(s, c, 0) {
        Some(j) => s.take(j),
        None => s,
    }
}

/// The name a mention body refers to: the part before any `|alias` and
/// any `#heading`, trimmed.
pub open spec fn mention_base(raw: Seq<char>) -> Seq<char> {
    trim(before_char(before_char(raw, '|'), '#'))
}

/// The base names of the `[[...]]` mentions of `s` from index `i` on, in
/// order, empty ones included. Scanning stops at an unclosed `[[`.
pub open spec fn mentions_from(s: Seq<char>, i: int) -> Seq<Seq<char>>
    decreases s.len() - i,
{
    if i < 0 || i + 1 >= s.len() {
        Seq::empty()
    } else if s[i] == '[' && s[i + 1] == '[' {
        match find_close(s, i + 2) {
            Some(c) => if i + 2 <= c && c + 1 < s.len() {
                seq![mention_base(s.subrange(i + 2, c))] + mentions_from(s, c + 2)
            } else {
                Seq::empty()
            },
            None => Seq::empty(),
        }
    } else {
        mentions_from(s, i + 1)
    }
}

/// Some name of `names` has the same lowercase form as `n`.
pub open spec fn has_same_lowercase(names: Seq<Seq<char>>, n: Seq<char>) -> bool {
    exists|k: int| 0 <= k < names.len() && str_to_lowercase(#[trigger] names[k]) == str_to_lowercase(n)
}

/// The names of `names`, empty ones and case-insensitive repeats dropped;
/// the first spelling met is kept.
pub open spec fn dedupe_names(names: Seq<Seq<char>>) -> Seq<Seq<char>>
    decreases names.len(),
{
    if names.len() == 0 {
        names
    } else {
        let prev = dedupe_names(names.drop_last());
        let n = names.last();
        if n.len() == 0 || has_same_lowercase(prev, n) {
            prev
        } else {
            prev.push(n)
        }
    }
}

/// The mentions of a text, as `extract_mentions` returns them.
pub open spec fn mentions_of(text: Seq<char>) -> Seq<Seq<char>> {
    dedupe_names(mentions_from(text, 0))
}

/// The views of a list of strings.
pub open spec fn string_views(v: Seq<String>) -> Seq<Seq<char>> {
    v.map_values(|s: String| s@)
}

/// Bounds of `mention_base(v[lo..hi])` inside `v`.
fn base_range(v: &Vec<char>, lo: usize, hi: usize) -> (r: (usize, usize))
    requires
        lo <= hi <= v.len(),
    ensures
        lo <= r.0 <= r.1 <= hi,
        v@.subrange(r.0 as int, r.1 as int) == mention_base(v@.subrange(lo as int, hi as int)),
{
    let ghost raw = v@.subrange(lo as int, hi as int);
    let mut e = lo;
    while e < hi && v[e] != '|'
        invariant
            lo <= e <= hi <= v.len(),
            raw == v@.subrange(lo as int, hi as int),
            find_char(raw, '|', 0) == find_char(raw, '|', e - lo),
        decreases hi - e,
    {
        e = e + 1;
    }
    assert(v@.subrange(lo as int, e as int) == before_char(raw, '|')) by {
        if e < hi {
            assert(raw.take(e - lo) =~= v@.subrange(lo as int, e as int));
        } else {
            assert(raw =~= v@.subrange(lo as int, e as int));
        }
    }
    let ghost raw2 = v@.subrange(lo as int, e as int);
    let mut f = lo;
    while f < e && v[f] != '#'
        invariant
            lo <= f <= e <= hi <= v.len(),
            raw2 == v@.subrange(lo as int, e as int),
            find_char(raw2, '#', 0) == find_char(raw2, '#', f - lo),
        decreases e - f,
    {
        f = f + 1;
    }
    assert(v@.subrange(lo as int, f as int) == before_char(raw2, '#')) by {
        if f < e {
            assert(raw2.take(f - lo) =~= v@.subrange(lo as int, f as int));
        } else {
            assert(raw2 =~= v@.subrange(lo as int, f as int));
        }
    }
    trim_range(v, lo, f)
}

/// Extracts the unique `[[Name]]` mentions of `text` in first-occurrence
/// order. Names are trimmed; alias segments (`[[Name|alias]]`) and
/// heading anchors (`[[Name#heading]]`) are stripped; empty names are
/// skipped; duplicates are detected case-insensitively, keeping the first
/// spelling. An unclosed `[[` ends the scan.
pub fn extract_mentions(text: &str) -> (r: Vec<String>)
    ensures
        string_views(r@) == mentions_of(text@),
{
    let v = chars_of(text);
    let n = v.len();
    let mut out: Vec<String> = Vec::new();
    let mut keys: Vec<String> = Vec::new();
    let mut i: usize = 0;
    let ghost mut found: Seq<Seq<char>> = Seq::empty();
    while n > 0 && i < n - 1
        invariant
            n == v.len(),
            i <= n,
            mentions_from(v@, 0) == found + mentions_from(v@, i as int),
            string_views(out@) == dedupe_names(found),
            keys.len() == out.len(),
            forall|k: int|
                0 <= k < keys.len() ==> #[trigger] keys@[k]@ == str_to_lowercase(out@[k]@),
        decreases n - i,
    {
        if v[i] == '[' && v[i + 1] == '[' {
            let mut c = i + 2;
            while c < n - 1 && !(v[c] == ']' && v[c + 1] == ']')
                invariant
                    n == v.len(),
                    n >= 2,
                    i + 2 <= c <= n,
                    find_close(v@, i + 2) == find_close(v@, c as int),
                decreases n - c,
            {
                c = c + 1;
            }
            if c >= n - 1 {
                assert(find_close(v@, c as int) is None);
                assert(mentions_from(v@, i as int) =~= Seq::<Seq<char>>::empty());
                assert(mentions_from(v@, n as int) =~= Seq::<Seq<char>>::empty());
                i = n;
                continue;
            }
            assert(find_close(v@, c as int) == Some(c as int));
            let (a, b) = base_range(&v, i + 2, c);
            let base = slice_chars(&v, a, b);
            let ghost prev_found = found;
            proof {
                found = found.push(base@);
                assert(found.drop_last() =~= prev_found);
                assert(prev_found + (seq![base@] + mentions_from(v@, c + 2)) =~= found
                    + mentions_from(v@, c + 2));
            }
            if base.len() > 0 {
                let name = string_of(&base);
                let key = lowercase_str(name.as_str());
                let mut seen = false;
                let mut k: usize = 0;
                while k < keys.len()
                    invariant
                        k <= keys.len(),
                        keys.len() == out.len(),
                        key@ == str_to_lowercase(base@),
                        forall|j: int|
                            0 <= j < keys.len() ==> #[trigger] keys@[j]@ == str_to_lowercase(
                                out@[j]@,
                            ),
                        string_views(out@) == dedupe_names(prev_found),
                        seen ==> has_same_lowercase(dedupe_names(prev_found), base@),
                        !seen ==> forall|j: int|
                            0 <= j < k ==> str_to_lowercase(#[trigger] string_views(out@)[j])
                                != str_to_lowercase(base@),
                    decreases keys.len() - k,
                {
                    if keys[k] == key {
                        assert(string_views(out@)[k as int] == out@[k as int]@);
                        seen = true;
                    }
                    k = k + 1;
                }
                if !seen {
                    assert(!has_same_lowercase(dedupe_names(prev_found), base@));
                    let ghost before = out@;
                    out.push(name);
                    keys.push(key);
                    assert(string_views(out@) =~= string_views(before).push(base@));
                }
            }
            i = c + 2;
        } else {
            i = i + 1;
        }
    }
    assert(mentions_from(v@, i as int) =~= Seq::<Seq<char>>::empty());
    assert(found + Seq::<Seq<char>>::empty() =~= found);
    out
}

// ---------------------------------------------------------------------------
// Laws
// ---------------------------------------------------------------------------

/// Every name `dedupe_names` keeps is non-empty, comes from its input,
/// and no two kept names have the same lowercase form.
pub proof fn lemma_dedupe_names(names: Seq<Seq<char>>)
    ensures
        forall|i: int| 0 <= i < dedupe_names(names).len() ==> #[trigger] dedupe_names(names)[i].len() > 0,
        forall|i: int| 0 <= i < dedupe_names(names).len() ==> names.contains(#[trigger] dedupe_names(names)[i]),
        forall|i: int, j: int|
            0 <= i < j < dedupe_names(names).len() ==> str_to_lowercase(#[trigger] dedupe_names(names)[i])
                != str_to_lowercase(#[trigger] dedupe_names(names)[j]),
    decreases names.len(),
{
    if names.len() > 0 {
        let prev = dedupe_names(names.drop_last());
        lemma_dedupe_names(names.drop_last());
        let d = dedupe_names(names);
        assert forall|i: int| 0 <= i < d.len() implies names.contains(#[trigger] d[i]) by {
            if i < prev.len() {
                let k = choose|k: int| 0 <= k < names.drop_last().len() && names.drop_last()[k] == prev[i];
                assert(names[k] == d[i]);
            } else {
                assert(names[names.len() - 1] == d[i]);
            }
        }
        assert forall|i: int, j: int| 0 <= i < j < d.len() implies str_to_lowercase(#[trigger] d[i])
            != str_to_lowercase(#[trigger] d[j]) by {
            if j == prev.len() {
                assert(d[i] == prev[i]);
            }
        }
    }
}

/// Every body `mention_base` yields is trimmed.
pub proof fn lemma_mention_base_trimmed(raw: Seq<char>)
    ensures
        mention_base(raw).len() > 0 ==> !is_ws(mention_base(raw)[0]) && !is_ws(mention_base(raw).last()),
{
    lemma_trim_no_ws_ends(before_char(before_char(raw, '|'), '#'));
}

/// `m` is the base name of some mention body.
pub open spec fn is_mention_base(m: Seq<char>) -> bool {
    exists|raw: Seq<char>| #[trigger] mention_base(raw) == m
}

/// Every name in `mentions_from(s, i)` is the base of some mention body.
pub proof fn lemma_mentions_from_bases(s: Seq<char>, i: int)
    ensures
        forall|k: int| 0 <= k < mentions_from(s, i).len() ==> is_mention_base(#[trigger] mentions_from(s, i)[k]),
    decreases s.len() - i,
{
    if i >= 0 && i + 1 < s.len() {
        if s[i] == '[' && s[i + 1] == '[' {
            match find_close(s, i + 2) {
                Some(c) => {
                    if i + 2 <= c && c + 1 < s.len() {
                        lemma_mentions_from_bases(s, c + 2);
                        let m = mentions_from(s, i);
                        assert forall|k: int| 0 <= k < m.len() implies is_mention_base(#[trigger] m[k]) by {
                            if k == 0 {
                                assert(m[0] == mention_base(s.subrange(i + 2, c)));
                                assert(mention_base(s.subrange(i + 2, c)) == m[0]);
                            } else {
                                assert(m[k] == mentions_from(s, c + 2)[k - 1]);
                            }
                        }
                    }
                },
                None => {},
            }
        } else {
            lemma_mentions_from_bases(s, i + 1);
            assert(mentions_from(s, i) == mentions_from(s, i + 1));
        }
    }
}

/// What `extract_mentions` promises of its result: each mention is a
/// non-empty, trimmed name that occurs among the text's mention bases, and
/// no two mentions are equal ignoring case.
pub proof fn lemma_mentions_unique_trimmed(text: Seq<char>)
    ensures
        forall|i: int, j: int|
            0 <= i < j < mentions_of(text).len() ==> str_to_lowercase(#[trigger] mentions_of(text)[i])
                != str_to_lowercase(#[trigger] mentions_of(text)[j]),
        forall|i: int|
            0 <= i < mentions_of(text).len() ==> {
                let m = #[trigger] mentions_of(text)[i];
                &&& m.len() > 0
                &&& !is_ws(m[0])
                &&& !is_ws(m.last())
                &&& mentions_from(text, 0).contains(m)
            },
{
    let names = mentions_from(text, 0);
    lemma_dedupe_names(names);
    lemma_mentions_from_bases(text, 0);
    assert forall|i: int| 0 <= i < mentions_of(text).len() implies {
        let m = #[trigger] mentions_of(text)[i];
        &&& m.len() > 0
        &&& !is_ws(m[0])
        &&& !is_ws(m.last())
        &&& mentions_from(text, 0).contains(m)
    } by {
        let m = mentions_of(text)[i];
        assert(names.contains(m));
        let k = choose|k: int| 0 <= k < names.len() && names[k] == m;
        assert(is_mention_base(names[k]));
        let raw = choose|raw: Seq<char>| #[trigger] mention_base(raw) == names[k];
        lemma_mention_base_trimmed(raw);
    }
}

} // verus!
