//! The people of the Wikilink source folder: the top-level `.md` files of
//! a user-chosen directory, offered by the Composer's `[[` autocomplete.
//! The application reads the directory; this module decides which entries
//! are people, what they are called, and in which order they are listed.

use vstd::prelude::*;
use crate::text::{chars_of, ends_with_chars, lowercase_str, str_to_lowercase, string_of};
use vstd::string::StringExecFns;

verus! {

/// One `.md` file of the source folder: its name without the extension
/// and its full path.
#[derive(Debug, Clone, PartialEq, Eq)]
pub struct PersonEntry {
    pub name: String,
    pub path: String,
}

/// Why a source folder cannot be used.
#[derive(Debug, Clone, PartialEq, Eq)]
pub enum FolderError {
    NotFound,
    NotADirectory,
    /// Any other failure to read it, with the system's message.
    Io(String),
}

/// The message a folder error is shown with.
pub open spec fn folder_error_message(e: FolderError) -> Seq<char> {
    match e {
        FolderError::NotFound => "folder does not exist"@,
        FolderError::NotADirectory => "path is not a directory"@,
        FolderError::Io(m) => "io error: "@ + m@,
    }
}

impl FolderError {
    /// The message the error is shown with.
    pub fn to_message(&self) -> (r: String)
        ensures
            r@ == folder_error_message(*self),
    {
        match self {
            FolderError::NotFound => String::from_str("folder does not exist"),
            FolderError::NotADirectory => String::from_str("path is not a directory"),
            FolderError::Io(m) => crate::store::concat_str("io error: ", m.as_str()),
        }
    }
}

/// One entry of the folder as the application read it: its file name and
/// full path (`None` when not valid UTF-8) and whether it is a directory
/// (`None` when its file type could not be read).
#[derive(Debug, Clone, PartialEq, Eq)]
pub struct FolderEntry {
    pub name: Option<String>,
    pub is_dir: Option<bool>,
    pub path: Option<String>,
}

// ---------------------------------------------------------------------------
// File names
// ---------------------------------------------------------------------------

/// Index of the last `.` of `s`, or -1.
pub open spec fn last_dot(s: Seq<char>) -> int
    decreases s.len(),
{
    if s.len() == 0 {
        -1
    } else if s.last() == '.' {
        s.len() - 1
    } else {
        last_dot(s.drop_last())
    }
}

/// The stem of a file name (`Path::file_stem`): the name before its last
/// `.`, or the whole name when it has no `.`, when the only `.` opens it,
/// or when it is `..`.
pub open spec fn file_stem(name: Seq<char>) -> Seq<char> {
    if name == seq!['.', '.'] || last_dot(name) <= 0 {
        name
    } else {
        name.take(last_dot(name))
    }
}

proof fn lemma_last_dot_range(s: Seq<char>)
    ensures
        -1 <= last_dot(s) < s.len(),
        last_dot(s) >= 0 ==> s[last_dot(s)] == '.',
        forall|i: int| last_dot(s) < i < s.len() ==> s[i] != '.',
    decreases s.len(),
{
    if s.len() > 0 && s.last() != '.' {
        lemma_last_dot_range(s.drop_last());
        assert forall|i: int| last_dot(s) < i < s.len() implies s[i] != '.' by {
            if i < s.len() - 1 {
                assert(s[i] == s.drop_last()[i]);
            }
        }
    }
}

/// Executable `file_stem`.
pub fn stem_of(name: &str) -> (r: String)
    ensures
        r@ == file_stem(name@),
{
    let v = chars_of(name);
    let mut i: usize = v.len();
    assert(v@.take(v.len() as int) =~= v@);
    while i > 0 && v[i - 1] != '.'
        invariant
            i <= v.len(),
            v@ == name@,
            last_dot(v@) == last_dot(v@.take(i as int)),
        decreases i,
    {
        assert(v@.take(i as int).drop_last() =~= v@.take(i - 1));
        i = i - 1;
    }
    if i > 0 {
        assert(v@.take(i as int).last() == '.');
    } else {
        assert(v@.take(0) =~= Seq::<char>::empty());
    }
    assert(v@.take(v.len() as int) =~= v@);
    let dotdot = v.len() == 2 && v[0] == '.' && v[1] == '.';
    assert(dotdot == (name@ == seq!['.', '.'])) by {
        if name@ == seq!['.', '.'] {
            assert(v@.len() == 2);
        }
        if dotdot {
            assert(v@ =~= seq!['.', '.']);
        }
    }
    if dotdot || i <= 1 {
        return String::from_str(name);
    }
    let mut out: Vec<char> = Vec::new();
    let mut k: usize = 0;
    while k < i - 1
        invariant
            k <= i - 1 < v.len(),
            out@ == v@.take(k as int),
        decreases i - 1 - k,
    {
        out.push(v[k]);
        k = k + 1;
        assert(out@ =~= v@.take(k as int));
    }
    string_of(&out)
}

// ---------------------------------------------------------------------------
// Which entries are people
// ---------------------------------------------------------------------------

/// An entry is a person when it is a file (not a directory) with a UTF-8
/// name and path, the name does not start with `.`, and the lowercased
/// name ends with `.md`.
pub open spec fn is_person(e: FolderEntry) -> bool {
    &&& e.is_dir == Some(false)
    &&& e.name is Some
    &&& e.path is Some
    &&& !(e.name->0@.len() > 0 && e.name->0@[0] == '.')
    &&& ".md"@.is_suffix_of(str_to_lowercase(e.name->0@))
}

/// The people of a listing, in listing order.
pub open spec fn people_of(entries: Seq<FolderEntry>) -> Seq<(Seq<char>, Seq<char>)>
    decreases entries.len(),
{
    if entries.len() == 0 {
        Seq::empty()
    } else {
        let e = entries.last();
        let init = people_of(entries.drop_last());
        if is_person(e) {
            init.push((file_stem(e.name->0@), e.path->0@))
        } else {
            init
        }
    }
}

/// A person as values.
pub open spec fn person_view(p: PersonEntry) -> (Seq<char>, Seq<char>) {
    (p.name@, p.path@)
}

/// The views of a list of people.
pub open spec fn people_view(v: Seq<PersonEntry>) -> Seq<(Seq<char>, Seq<char>)> {
    v.map_values(|p: PersonEntry| person_view(p))
}

// ---------------------------------------------------------------------------
// Order
// ---------------------------------------------------------------------------

/// `a` sorts strictly before `b`: the order of `str` (code point by code
/// point, a proper prefix first).
pub open spec fn lex_lt(a: Seq<char>, b: Seq<char>) -> bool
    decreases a.len(),
{
    if b.len() == 0 {
        false
    } else if a.len() == 0 {
        true
    } else if a[0] != b[0] {
        a[0] < b[0]
    } else {
        lex_lt(a.drop_first(), b.drop_first())
    }
}

/// A person sorts by its lowercased name.
pub open spec fn sort_key(p: (Seq<char>, Seq<char>)) -> Seq<char> {
    str_to_lowercase(p.0)
}

/// `x` inserted into `s` after every element whose key is not greater.
pub open spec fn insert_by_key(s: Seq<(Seq<char>, Seq<char>)>, x: (Seq<char>, Seq<char>)) -> Seq<
    (Seq<char>, Seq<char>),
>
    decreases s.len(),
{
    if s.len() == 0 {
        seq![x]
    } else if lex_lt(sort_key(x), sort_key(s[0])) {
        seq![x] + s
    } else {
        seq![s[0]] + insert_by_key(s.drop_first(), x)
    }
}

/// `s` stably sorted by lowercased name: equal keys keep their order.
pub open spec fn sorted_by_key(s: Seq<(Seq<char>, Seq<char>)>) -> Seq<(Seq<char>, Seq<char>)>
    decreases s.len(),
{
    if s.len() == 0 {
        Seq::empty()
    } else {
        insert_by_key(sorted_by_key(s.drop_last()), s.last())
    }
}

/// The list the Composer is offered: the people of the listing, sorted by
/// lowercased name.
pub open spec fn people_listing(entries: Seq<FolderEntry>) -> Seq<(Seq<char>, Seq<char>)> {
    sorted_by_key(people_of(entries))
}

proof fn lemma_lex_lt_asym(a: Seq<char>, b: Seq<char>)
    ensures
        lex_lt(a, b) ==> !lex_lt(b, a),
    decreases a.len(),
{
    if a.len() > 0 && b.len() > 0 && a[0] == b[0] {
        lemma_lex_lt_asym(a.drop_first(), b.drop_first());
    }
}

proof fn lemma_lex_lt_total(a: Seq<char>, b: Seq<char>)
    ensures
        lex_lt(a, b) || lex_lt(b, a) || a == b,
    decreases a.len(),
{
    if a.len() > 0 && b.len() > 0 && a[0] == b[0] {
        lemma_lex_lt_total(a.drop_first(), b.drop_first());
        if a.drop_first() == b.drop_first() {
            assert(a =~= seq![a[0]] + a.drop_first());
            assert(b =~= seq![b[0]] + b.drop_first());
        }
    } else if a.len() == 0 && b.len() == 0 {
        assert(a =~= b);
    }
}

proof fn lemma_lex_lt_trans(a: Seq<char>, b: Seq<char>, c: Seq<char>)
    requires
        lex_lt(a, b),
        lex_lt(b, c),
    ensures
        lex_lt(a, c),
    decreases a.len(),
{
    if a.len() > 0 && b.len() > 0 && c.len() > 0 && a[0] == b[0] && b[0] == c[0] {
        lemma_lex_lt_trans(a.drop_first(), b.drop_first(), c.drop_first());
    }
}

// ---------------------------------------------------------------------------
// Listing
// ---------------------------------------------------------------------------

/// Executable `lex_lt`.
fn chars_lt(a: &Vec<char>, b: &Vec<char>) -> (r: bool)
    ensures
        r == lex_lt(a@, b@),
{
    let mut i: usize = 0;
    assert(a@.skip(0) =~= a@ && b@.skip(0) =~= b@);
    while i < a.len() && i < b.len() && a[i] == b[i]
        invariant
            i <= a.len(),
            i <= b.len(),
            lex_lt(a@, b@) == lex_lt(a@.skip(i as int), b@.skip(i as int)),
        decreases a.len() - i,
    {
        assert(a@.skip(i as int).drop_first() =~= a@.skip(i + 1));
        assert(b@.skip(i as int).drop_first() =~= b@.skip(i + 1));
        i = i + 1;
    }
    if i == b.len() {
        false
    } else if i == a.len() {
        true
    } else {
        a[i] < b[i]
    }
}

/// Where `insert_by_key` puts `x`: after the elements whose key is not
/// greater, before the first whose key is.
proof fn lemma_insert_position(s: Seq<(Seq<char>, Seq<char>)>, x: (Seq<char>, Seq<char>), j: int)
    requires
        0 <= j <= s.len(),
        forall|k: int| 0 <= k < j ==> !lex_lt(sort_key(x), #[trigger] sort_key(s[k])),
        j < s.len() ==> lex_lt(sort_key(x), sort_key(s[j])),
    ensures
        insert_by_key(s, x) == s.insert(j, x),
    decreases j,
{
    if j == 0 {
        if s.len() == 0 {
            assert(s.insert(0, x) =~= seq![x]);
        } else {
            assert(s.insert(0, x) =~= seq![x] + s);
        }
    } else {
        let t = s.drop_first();
        assert forall|k: int| 0 <= k < j - 1 implies !lex_lt(sort_key(x), #[trigger] sort_key(t[k])) by {
            assert(t[k] == s[k + 1]);
        }
        assert(!lex_lt(sort_key(x), sort_key(s[0])));
        lemma_insert_position(t, x, j - 1);
        assert(s.insert(j, x) =~= seq![s[0]] + t.insert(j - 1, x));
    }
}

/// The person of an entry, when it is one.
fn person_of(e: &FolderEntry) -> (r: Option<PersonEntry>)
    ensures
        r is Some <==> is_person(*e),
        r matches Some(p) ==> person_view(p) == (file_stem(e.name->0@), e.path->0@),
{
    if e.is_dir != Some(false) {
        return None;
    }
    let name = match &e.name {
        Some(n) => n,
        None => return None,
    };
    let path = match &e.path {
        Some(p) => p,
        None => return None,
    };
    let chars = chars_of(name.as_str());
    if chars.len() > 0 && chars[0] == '.' {
        return None;
    }
    let lower = lowercase_str(name.as_str());
    let md = chars_of(".md");
    if !ends_with_chars(&chars_of(lower.as_str()), &md) {
        return None;
    }
    Some(PersonEntry { name: stem_of(name.as_str()), path: path.clone() })
}

/// The people of a folder listing, for the `[[` autocomplete: each file
/// (not directory) with a UTF-8 name and path, not hidden (no leading
/// `.`), whose lowercased name ends with `.md`; named by its stem and
/// sorted by lowercased name, files with the same lowercased name in
/// listing order.
pub fn people_from_entries(entries: &Vec<FolderEntry>) -> (r: Vec<PersonEntry>)
    ensures
        people_view(r@) == people_listing(entries@),
{
    let mut kept: Vec<PersonEntry> = Vec::new();
    let mut i: usize = 0;
    while i < entries.len()
        invariant
            i <= entries.len(),
            people_view(kept@) == people_of(entries@.take(i as int)),
        decreases entries.len() - i,
    {
        assert(entries@.take(i + 1).drop_last() =~= entries@.take(i as int));
        let ghost before = kept@;
        match person_of(&entries[i]) {
            Some(p) => {
                kept.push(p);
                assert(people_view(kept@) =~= people_view(before).push(person_view(p)));
            },
            None => {},
        }
        i = i + 1;
    }
    assert(entries@.take(entries.len() as int) =~= entries@);
    let mut out: Vec<PersonEntry> = Vec::new();
    let mut keys: Vec<Vec<char>> = Vec::new();
    let mut n: usize = 0;
    while n < kept.len()
        invariant
            n <= kept.len(),
            people_view(out@) == sorted_by_key(people_view(kept@).take(n as int)),
            keys.len() == out.len(),
            forall|k: int| 0 <= k < keys.len() ==> (#[trigger] keys@[k])@ == sort_key(person_view(out@[k])),
        decreases kept.len() - n,
    {
        let x = PersonEntry { name: kept[n].name.clone(), path: kept[n].path.clone() };
        let kx = chars_of(lowercase_str(x.name.as_str()).as_str());
        let ghost xv = person_view(x);
        assert(xv == people_view(kept@)[n as int]);
        let ghost s = people_view(out@);
        let mut j: usize = 0;
        while j < out.len() && !chars_lt(&kx, &keys[j])
            invariant
                j <= out.len(),
                keys.len() == out.len(),
                s == people_view(out@),
                kx@ == sort_key(xv),
                forall|k: int| 0 <= k < keys.len() ==> (#[trigger] keys@[k])@ == sort_key(person_view(out@[k])),
                forall|k: int| 0 <= k < j ==> !lex_lt(sort_key(xv), #[trigger] sort_key(s[k])),
            decreases out.len() - j,
        {
            assert(keys@[j as int]@ == sort_key(s[j as int]));
            j = j + 1;
        }
        proof {
            if j < out.len() {
                assert(keys@[j as int]@ == sort_key(s[j as int]));
            }
            lemma_insert_position(s, xv, j as int);
            assert(people_view(kept@).take(n + 1).drop_last() =~= people_view(kept@).take(n as int));
        }
        let ghost old_keys = keys@;
        let ghost old_out = out@;
        out.insert(j, x);
        keys.insert(j, kx);
        assert(people_view(out@) =~= s.insert(j as int, xv));
        assert forall|k: int| 0 <= k < keys.len() implies (#[trigger] keys@[k])@ == sort_key(
            person_view(out@[k]),
        ) by {
            if k < j {
                assert(keys@[k] == old_keys[k] && out@[k] == old_out[k]);
            } else if k > j {
                assert(keys@[k] == old_keys[k - 1] && out@[k] == old_out[k - 1]);
            }
        }
        n = n + 1;
    }
    assert(people_view(kept@).take(kept.len() as int) =~= people_view(kept@));
    out
}

/// No element sorts strictly before an earlier one.
pub open spec fn is_sorted(s: Seq<(Seq<char>, Seq<char>)>) -> bool {
    forall|i: int, j: int|
        0 <= i < j < s.len() ==> !lex_lt(#[trigger] sort_key(s[j]), #[trigger] sort_key(s[i]))
}

proof fn lemma_insert_by_key(s: Seq<(Seq<char>, Seq<char>)>, x: (Seq<char>, Seq<char>))
    requires
        is_sorted(s),
    ensures
        is_sorted(insert_by_key(s, x)),
        insert_by_key(s, x).to_multiset() == s.to_multiset().insert(x),
    decreases s.len(),
{
    broadcast use vstd::seq_lib::group_seq_properties;
    broadcast use vstd::seq_lib::group_to_multiset_ensures;
    broadcast use vstd::multiset::group_multiset_axioms;
    if s.len() == 0 {
        assert(insert_by_key(s, x) =~= seq![x]);
        assert(seq![x] =~= s.insert(0, x));
    } else if lex_lt(sort_key(x), sort_key(s[0])) {
        let r = seq![x] + s;
        assert forall|i: int, j: int| 0 <= i < j < r.len() implies !lex_lt(
            #[trigger] sort_key(r[j]),
            #[trigger] sort_key(r[i]),
        ) by {
            if i == 0 {
                assert(r[j] == s[j - 1]);
                if j - 1 > 0 {
                    assert(!lex_lt(sort_key(s[j - 1]), sort_key(s[0])));
                    lemma_lex_lt_total(sort_key(s[j - 1]), sort_key(s[0]));
                    if lex_lt(sort_key(s[j - 1]), sort_key(x)) {
                        lemma_lex_lt_trans(sort_key(s[j - 1]), sort_key(x), sort_key(s[0]));
                    }
                } else {
                    lemma_lex_lt_asym(sort_key(x), sort_key(s[0]));
                }
            } else {
                assert(r[i] == s[i - 1] && r[j] == s[j - 1]);
            }
        }
        assert(r =~= s.insert(0, x));
    } else {
        let t = s.drop_first();
        assert(is_sorted(t)) by {
            assert forall|i: int, j: int| 0 <= i < j < t.len() implies !lex_lt(
                #[trigger] sort_key(t[j]),
                #[trigger] sort_key(t[i]),
            ) by {
                assert(t[i] == s[i + 1] && t[j] == s[j + 1]);
            }
        }
        lemma_insert_by_key(t, x);
        let u = insert_by_key(t, x);
        let r = seq![s[0]] + u;
        assert(r == insert_by_key(s, x));
        assert forall|j: int| 0 <= j < u.len() implies !lex_lt(#[trigger] sort_key(u[j]), sort_key(s[0])) by {
            assert(u.to_multiset().count(u[j]) > 0);
            assert(t.to_multiset().insert(x).count(u[j]) > 0);
            if u[j] == x {
                lemma_lex_lt_total(sort_key(x), sort_key(s[0]));
            } else {
                assert(t.to_multiset().count(u[j]) > 0);
                assert(t.contains(u[j]));
                let k = choose|k: int| 0 <= k < t.len() && t[k] == u[j];
                assert(s[k + 1] == u[j]);
            }
        }
        assert forall|i: int, j: int| 0 <= i < j < r.len() implies !lex_lt(
            #[trigger] sort_key(r[j]),
            #[trigger] sort_key(r[i]),
        ) by {
            if i == 0 {
                assert(r[j] == u[j - 1]);
            } else {
                assert(r[i] == u[i - 1] && r[j] == u[j - 1]);
            }
        }
        assert(s =~= t.insert(0, s[0]));
        assert(r =~= u.insert(0, s[0]));
        assert(r.to_multiset() =~= s.to_multiset().insert(x));
    }
}

/// The listing is sorted by lowercased name and holds each person of the
/// folder exactly as often as the folder does.
pub proof fn lemma_people_listing_sorted(entries: Seq<FolderEntry>)
    ensures
        is_sorted(people_listing(entries)),
        people_listing(entries).to_multiset() == people_of(entries).to_multiset(),
{
    lemma_sorted_by_key(people_of(entries));
}

proof fn lemma_sorted_by_key(s: Seq<(Seq<char>, Seq<char>)>)
    ensures
        is_sorted(sorted_by_key(s)),
        sorted_by_key(s).to_multiset() == s.to_multiset(),
    decreases s.len(),
{
    broadcast use vstd::seq_lib::group_seq_properties;
    if s.len() == 0 {
        assert(s.to_multiset() =~= vstd::multiset::Multiset::empty());
    } else {
        lemma_sorted_by_key(s.drop_last());
        lemma_insert_by_key(sorted_by_key(s.drop_last()), s.last());
        assert(s =~= s.drop_last().push(s.last()));
    }
}

} // verus!
