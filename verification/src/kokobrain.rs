//! The `kokobrain://capture` deep link (schema v2) that routing a Capture
//! to a kokobrain Destination sends to the brain app.
//!
//! Every URI is `kokobrain://capture?` followed by the form-encoded
//! parameters `v=2`, `kind`, `vault`, the per-kind fields, the non-blank
//! source context, `captured_at` and, when non-empty, `tags`:
//! - `note`, `clip`, `transcription`: `text`, then `source_app`,
//!   `source_title`, `source_url`;
//! - `link`: `url`, the optional `title`, then `source_app` only;
//! - `shot`, `file`: `path` (the blob path, else the source path), `mime`
//!   when present, `original_name` for a file, then `source_app`,
//!   `source_title`, `source_url`.
//!
//! `tags` is the kebab-cased Destination name followed by the kebab-cased
//! tags of the Destination's config, without empties or repeats, joined
//! by commas. Form encoding is done by the `url` crate; the config JSON is
//! read by `serde_json`.

use vstd::prelude::*;
use crate::store::{Capture, CaptureKind, Destination, DestinationKind, Payload, StoreError};
use crate::text::{
    alnum, ascii_lower, chars_of, is_alphanumeric, is_ascii_alnum, opt_view, string_of, to_ascii_lower,
    trim, trim_chars,
};
use vstd::string::StringExecFns;

verus! {

// ---------------------------------------------------------------------------
// Kebab case and tags
// ---------------------------------------------------------------------------

/// Scanner state of `kebab` after reading `s`: the output so far and
/// whether the last thing written was a dash (true at the start, so that
/// leading separators are dropped).
pub open spec fn kebab_acc(s: Seq<char>) -> (Seq<char>, bool)
    decreases s.len(),
{
    if s.len() == 0 {
        (Seq::empty(), true)
    } else {
        let (o, last_dash) = kebab_acc(s.drop_last());
        let c = s.last();
        if alnum(c) {
            (o.push(ascii_lower(c)), false)
        } else if !last_dash {
            (o.push('-'), true)
        } else {
            (o, last_dash)
        }
    }
}

/// `s` without its trailing dashes.
pub open spec fn strip_trailing_dashes(s: Seq<char>) -> Seq<char>
    decreases s.len(),
{
    if s.len() > 0 && s.last() == '-' {
        strip_trailing_dashes(s.drop_last())
    } else {
        s
    }
}

/// The kebab-case form of a name: alphanumeric characters kept, ASCII
/// letters lowercased, each run of other characters turned into one dash,
/// no dash at either end.
pub open spec fn kebab(s: Seq<char>) -> Seq<char> {
    strip_trailing_dashes(kebab_acc(s).0)
}

/// A character a kebab-case tag may hold from an ASCII name: a lowercase
/// ASCII letter, a digit or a dash.
pub open spec fn kebab_char(c: char) -> bool {
    ('a' <= c && c <= 'z') || ('0' <= c && c <= '9') || c == '-'
}

/// `o` has a dash at `i` and at `i + 1`.
pub open spec fn double_dash_at(o: Seq<char>, i: int) -> bool {
    o[i] == '-' && o[i + 1] == '-'
}

/// Lowercase ASCII letters, digits and dashes, no dash first and no two
/// dashes in a row.
pub open spec fn kebab_shaped(o: Seq<char>) -> bool {
    &&& forall|i: int| 0 <= i < o.len() ==> kebab_char(#[trigger] o[i])
    &&& o.len() > 0 ==> o[0] != '-'
    &&& forall|i: int| 0 <= i < o.len() - 1 ==> !#[trigger] double_dash_at(o, i)
}

/// A prefix of a kebab-shaped text is kebab-shaped.
proof fn lemma_kebab_shaped_prefix(o: Seq<char>, n: int)
    requires
        kebab_shaped(o),
        0 <= n <= o.len(),
    ensures
        kebab_shaped(o.take(n)),
{
    let p = o.take(n);
    assert forall|i: int| 0 <= i < p.len() - 1 implies !#[trigger] double_dash_at(p, i) by {
        assert(!double_dash_at(o, i));
    }
}

/// Scanning an ASCII name yields a kebab-shaped text, and the scanner's
/// flag says whether it is empty or ends in a dash.
proof fn lemma_kebab_acc_shape(s: Seq<char>)
    requires
        crate::ids::all_ascii(s),
    ensures
        kebab_shaped(kebab_acc(s).0),
        kebab_acc(s).1 <==> (kebab_acc(s).0.len() == 0 || kebab_acc(s).0.last() == '-'),
    decreases s.len(),
{
    if s.len() > 0 {
        let q = s.drop_last();
        assert(crate::ids::all_ascii(q)) by {
            assert forall|i: int| 0 <= i < q.len() implies (#[trigger] q[i]) as int <= 0x7f by {
                assert(q[i] == s[i]);
            }
        }
        lemma_kebab_acc_shape(q);
        let o = kebab_acc(q).0;
        let c = s.last();
        assert(c as int <= 0x7f) by {
            assert(s[s.len() - 1] == c);
        }
        if alnum(c) {
            let l = ascii_lower(c);
            assert(kebab_char(l));
            let o2 = o.push(l);
            assert forall|i: int| 0 <= i < o2.len() implies kebab_char(#[trigger] o2[i]) by {
                if i < o.len() {
                    assert(o2[i] == o[i]);
                }
            }
            assert forall|i: int| 0 <= i < o2.len() - 1 implies !#[trigger] double_dash_at(o2, i) by {
                if i < o.len() - 1 {
                    assert(!double_dash_at(o, i));
                }
            }
        } else if !kebab_acc(q).1 {
            let o2 = o.push('-');
            assert forall|i: int| 0 <= i < o2.len() implies kebab_char(#[trigger] o2[i]) by {
                if i < o.len() {
                    assert(o2[i] == o[i]);
                }
            }
            assert forall|i: int| 0 <= i < o2.len() - 1 implies !#[trigger] double_dash_at(o2, i) by {
                if i < o.len() - 1 {
                    assert(!double_dash_at(o, i));
                }
            }
        }
    }
}

/// Dropping the trailing dash of a kebab-shaped text leaves no dash at
/// its end.
proof fn lemma_strip_kebab(o: Seq<char>)
    requires
        kebab_shaped(o),
    ensures
        kebab_shaped(strip_trailing_dashes(o)),
        strip_trailing_dashes(o).len() > 0 ==> strip_trailing_dashes(o).last() != '-',
{
    if o.len() > 0 && o.last() == '-' {
        let p = o.drop_last();
        lemma_kebab_shaped_prefix(o, o.len() - 1);
        assert(p =~= o.take(o.len() - 1));
        if p.len() > 0 {
            assert(!double_dash_at(o, o.len() - 2));
            assert(p.last() != '-');
        }
        assert(strip_trailing_dashes(p) == p);
    }
}

/// Scanning a kebab-shaped text gives it back.
proof fn lemma_kebab_acc_fixed(p: Seq<char>)
    requires
        kebab_shaped(p),
    ensures
        kebab_acc(p) == (p, p.len() == 0 || p.last() == '-'),
    decreases p.len(),
{
    if p.len() > 0 {
        let q = p.drop_last();
        lemma_kebab_shaped_prefix(p, p.len() - 1);
        assert(q =~= p.take(p.len() - 1));
        lemma_kebab_acc_fixed(q);
        let c = p.last();
        assert(kebab_char(c));
        if c == '-' {
            assert(!alnum(c));
            assert(q.len() > 0);
            assert(!double_dash_at(p, p.len() - 2));
            assert(q.last() != '-');
            assert(q.push('-') =~= p);
        } else {
            assert(alnum(c));
            assert(ascii_lower(c) == c);
            assert(q.push(c) =~= p);
        }
    }
}

/// For an ASCII name, the kebab-case form holds only lowercase letters,
/// digits and single dashes between them, with no dash at either end, and
/// kebab-casing it again changes nothing.
pub proof fn lemma_kebab_case_law(s: Seq<char>)
    requires
        crate::ids::all_ascii(s),
    ensures
        kebab_shaped(kebab(s)),
        kebab(s).len() > 0 ==> kebab(s).last() != '-',
        kebab(kebab(s)) == kebab(s),
{
    lemma_kebab_acc_shape(s);
    lemma_strip_kebab(kebab_acc(s).0);
    let k = kebab(s);
    lemma_kebab_acc_fixed(k);
}

/// Kebab-cases a name for use as a tag: lowercases ASCII, collapses each
/// run of non-alphanumeric characters into a single `-`, and drops leading
/// and trailing dashes. Non-ASCII letters are kept as they are, so accented
/// names survive.
pub fn kebab_case(input: &str) -> (r: String)
    ensures
        r@ == kebab(input@),
{
    let v = chars_of(input);
    let mut out: Vec<char> = Vec::new();
    let mut last_was_dash = true;
    let mut i: usize = 0;
    while i < v.len()
        invariant
            i <= v.len(),
            (out@, last_was_dash) == kebab_acc(v@.take(i as int)),
        decreases v.len() - i,
    {
        assert(v@.take(i + 1).drop_last() =~= v@.take(i as int));
        let ch = v[i];
        if is_alphanumeric(ch) {
            out.push(to_ascii_lower(ch));
            last_was_dash = false;
        } else if !last_was_dash {
            out.push('-');
            last_was_dash = true;
        }
        i = i + 1;
    }
    assert(v@.take(v.len() as int) =~= v@);
    assert(out@.take(out.len() as int) =~= out@);
    let mut n = out.len();
    while n > 0 && out[n - 1] == '-'
        invariant
            n <= out.len(),
            strip_trailing_dashes(out@) == strip_trailing_dashes(out@.take(n as int)),
        decreases n,
    {
        assert(out@.take(n as int).drop_last() =~= out@.take(n - 1));
        n = n - 1;
    }
    assert(out@.take(out.len() as int) =~= out@);
    let mut r: Vec<char> = Vec::new();
    let mut k: usize = 0;
    while k < n
        invariant
            k <= n <= out.len(),
            r@ == out@.take(k as int),
        decreases n - k,
    {
        r.push(out[k]);
        k = k + 1;
        assert(r@ =~= out@.take(k as int));
    }
    string_of(&r)
}

/// The tags of a URI: the kebab-cased Destination name, then each
/// kebab-cased user tag, skipping empty results and repeats.
pub open spec fn merged_tags(name: Seq<char>, tags: Seq<Seq<char>>) -> Seq<Seq<char>>
    decreases tags.len(),
{
    if tags.len() == 0 {
        if kebab(name).len() > 0 {
            seq![kebab(name)]
        } else {
            Seq::empty()
        }
    } else {
        let prev = merged_tags(name, tags.drop_last());
        let k = kebab(tags.last());
        if k.len() == 0 || prev.contains(k) {
            prev
        } else {
            prev.push(k)
        }
    }
}

/// The views of a list of strings.
pub open spec fn string_views(v: Seq<String>) -> Seq<Seq<char>> {
    v.map_values(|s: String| s@)
}

fn contains_string(v: &Vec<String>, s: &String) -> (r: bool)
    ensures
        r == string_views(v@).contains(s@),
{
    let mut i: usize = 0;
    while i < v.len()
        invariant
            i <= v.len(),
            forall|k: int| 0 <= k < i ==> string_views(v@)[k] != s@,
        decreases v.len() - i,
    {
        if v[i] == *s {
            assert(string_views(v@)[i as int] == s@);
            return true;
        }
        i = i + 1;
    }
    false
}

/// Merges the Destination name (kebab-cased) with the user tags
/// (kebab-cased, empties and repeats dropped, first position kept).
pub fn merge_tags(destination_name: &str, user_tags: &Vec<String>) -> (r: Vec<String>)
    ensures
        string_views(r@) == merged_tags(destination_name@, string_views(user_tags@)),
{
    let ghost ts = string_views(user_tags@);
    let mut out: Vec<String> = Vec::new();
    let dest_kebab = kebab_case(destination_name);
    if dest_kebab.as_str().unicode_len() > 0 {
        out.push(dest_kebab);
    }
    assert(string_views(out@) =~= merged_tags(destination_name@, ts.take(0)));
    let mut i: usize = 0;
    while i < user_tags.len()
        invariant
            i <= user_tags.len(),
            ts == string_views(user_tags@),
            string_views(out@) == merged_tags(destination_name@, ts.take(i as int)),
        decreases user_tags.len() - i,
    {
        assert(ts.take(i + 1).drop_last() =~= ts.take(i as int));
        let k = kebab_case(user_tags[i].as_str());
        if k.as_str().unicode_len() > 0 && !contains_string(&out, &k) {
            let ghost before = out@;
            out.push(k);
            assert(string_views(out@) =~= string_views(before).push(k@));
        }
        i = i + 1;
    }
    assert(ts.take(user_tags.len() as int) =~= ts);
    out
}

/// No tag is empty and no tag repeats.
pub proof fn lemma_merged_tags_distinct(name: Seq<char>, tags: Seq<Seq<char>>)
    ensures
        merged_tags(name, tags).no_duplicates(),
        forall|i: int| 0 <= i < merged_tags(name, tags).len() ==> #[trigger] merged_tags(name, tags)[i].len() > 0,
    decreases tags.len(),
{
    if tags.len() > 0 {
        lemma_merged_tags_distinct(name, tags.drop_last());
        let prev = merged_tags(name, tags.drop_last());
        let k = kebab(tags.last());
        if !(k.len() == 0 || prev.contains(k)) {
            let m = prev.push(k);
            assert forall|i: int, j: int| 0 <= i < m.len() && 0 <= j < m.len() && i != j implies m[i] != m[j] by {
                if i == prev.len() {
                    assert(!prev.contains(k));
                    assert(m[j] == prev[j]);
                } else if j == prev.len() {
                    assert(m[i] == prev[i]);
                }
            }
        }
    }
}

/// Tags joined by commas.
pub open spec fn join_comma(ts: Seq<Seq<char>>) -> Seq<char>
    decreases ts.len(),
{
    if ts.len() == 0 {
        Seq::empty()
    } else if ts.len() == 1 {
        ts[0]
    } else {
        join_comma(ts.drop_last()) + ","@ + ts.last()
    }
}

fn join_with_commas(ts: &Vec<String>) -> (r: String)
    ensures
        r@ == join_comma(string_views(ts@)),
{
    let ghost v = string_views(ts@);
    let mut r = String::new();
    let mut i: usize = 0;
    while i < ts.len()
        invariant
            i <= ts.len(),
            v == string_views(ts@),
            r@ == join_comma(v.take(i as int)),
        decreases ts.len() - i,
    {
        assert(v.take(i + 1).drop_last() =~= v.take(i as int));
        if i > 0 {
            r.append(",");
        }
        r.append(ts[i].as_str());
        if i == 0 {
            assert(r@ =~= join_comma(v.take(1)));
        }
        i = i + 1;
    }
    assert(v.take(ts.len() as int) =~= v);
    r
}

// ---------------------------------------------------------------------------
// Trusted calls: form encoding and JSON
// ---------------------------------------------------------------------------

/// The UTF-8 encoding of a character, as byte values.
pub open spec fn utf8_bytes(c: char) -> Seq<int> {
    let v = c as int;
    if v < 0x80 {
        seq![v]
    } else if v < 0x800 {
        seq![0xC0 + v / 64, 0x80 + v % 64]
    } else if v < 0x10000 {
        seq![0xE0 + v / 4096, 0x80 + (v / 64) % 64, 0x80 + v % 64]
    } else {
        seq![0xF0 + v / 262144, 0x80 + (v / 4096) % 64, 0x80 + (v / 64) % 64, 0x80 + v % 64]
    }
}

/// A byte that form encoding leaves as it is: an ASCII letter or digit,
/// `*`, `-`, `.` or `_`.
pub open spec fn form_unchanged(b: int) -> bool {
    (0x30 <= b <= 0x39) || (0x41 <= b <= 0x5A) || (0x61 <= b <= 0x7A) || b == 0x2A || b == 0x2D
        || b == 0x2E || b == 0x5F
}

/// An upper-case hexadecimal digit.
pub open spec fn hex_digit(d: int) -> char {
    "0123456789ABCDEF"@[d]
}

/// The form encoding of one byte: itself when unchanged, `+` for a space,
/// else `%` and its two upper-case hexadecimal digits.
pub open spec fn form_byte(b: int) -> Seq<char> {
    if form_unchanged(b) {
        seq![b as char]
    } else if b == 0x20 {
        seq!['+']
    } else {
        seq!['%', hex_digit(b / 16), hex_digit(b % 16)]
    }
}

/// The form encoding of a sequence of bytes.
pub open spec fn form_bytes(bs: Seq<int>) -> Seq<char>
    decreases bs.len(),
{
    if bs.len() == 0 {
        Seq::empty()
    } else {
        form_bytes(bs.drop_last()) + form_byte(bs.last())
    }
}

/// The form encoding of a text (`application/x-www-form-urlencoded`): the
/// encoding of the UTF-8 bytes of each character, in order. This is what
/// `Serializer::append_pair` writes names and values with.
pub open spec fn form_encoded(s: Seq<char>) -> Seq<char>
    decreases s.len(),
{
    if s.len() == 0 {
        Seq::empty()
    } else {
        form_encoded(s.drop_last()) + form_bytes(utf8_bytes(s.last()))
    }
}

/// `url::form_urlencoded::byte_serialize` of the UTF-8 bytes of `s`,
/// collected. The contract claims the byte serializer's rule
/// (form_urlencoded `byte_serialized_unchanged` and `percent_encode_byte`):
/// letters, digits and `*-._` stay, a space becomes `+`, any other byte
/// becomes `%XX`.
#[verifier::external_body]
fn form_encode(s: &str) -> (r: String)
    ensures
        r@ == form_encoded(s@),
{
    url::form_urlencoded::byte_serialize(s.as_bytes()).collect()
}

/// Appends one encoded pair to a query, after a `&` when the query is not
/// empty (what `Serializer::append_pair` writes).
fn query_append(q: &mut String, name: &str, value: &str)
    ensures
        final(q)@ == (if old(q)@.len() > 0 {
            old(q)@ + "&"@
        } else {
            old(q)@
        }) + form_encoded(name@) + "="@ + form_encoded(value@),
{
    if q.as_str().unicode_len() > 0 {
        q.append("&");
    }
    let n = form_encode(name);
    q.append(n.as_str());
    q.append("=");
    let v = form_encode(value);
    q.append(v.as_str());
}

/// The query text of a list of name/value pairs.
pub open spec fn encode_pairs(ps: Seq<(Seq<char>, Seq<char>)>) -> Seq<char>
    decreases ps.len(),
{
    if ps.len() == 0 {
        Seq::empty()
    } else {
        let prev = encode_pairs(ps.drop_last());
        (if prev.len() > 0 {
            prev + "&"@
        } else {
            prev
        }) + form_encoded(ps.last().0) + "="@ + form_encoded(ps.last().1)
    }
}

/// A kokobrain config as `serde_json` reads it: the `vault` field when it
/// is a string; the `tags` field when present, as an array (each entry as
/// text when it is a string) or as `None` when it is not an array. `Err`
/// carries serde's message for text that is not JSON.
pub uninterp spec fn json_config_fields(raw: Seq<char>) -> Result<
    (Option<Seq<char>>, Option<Option<Seq<Option<Seq<char>>>>>),
    Seq<char>,
>;

/// The fields read from the config JSON.
pub struct ConfigFields {
    pub vault: Option<String>,
    pub tags: Option<Option<Vec<Option<String>>>>,
}

/// The view of the read fields.
pub open spec fn config_fields_view(r: Result<ConfigFields, String>) -> Result<
    (Option<Seq<char>>, Option<Option<Seq<Option<Seq<char>>>>>),
    Seq<char>,
> {
    match r {
        Ok(f) => Ok(
            (
                opt_view(f.vault),
                match f.tags {
                    Some(Some(es)) => Some(Some(es@.map_values(|e: Option<String>| opt_view(e)))),
                    Some(None) => Some(None),
                    None => None,
                },
            ),
        ),
        Err(m) => Err(m@),
    }
}

/// `serde_json::from_str::<Value>` followed by reading `vault` and `tags`
/// with `get`, `as_str` and `as_array`. The contract claims only that the
/// fields are the named reading of `raw`; JSON syntax is not spelled out.
#[verifier::external_body]
fn read_config_json(raw: &str) -> (r: Result<ConfigFields, String>)
    ensures
        config_fields_view(r) == json_config_fields(raw@),
{
    match serde_json::from_str::<serde_json::Value>(raw) {
        Err(e) => Err(e.to_string()),
        Ok(v) => Ok(ConfigFields {
            vault: v.get("vault").and_then(|x| x.as_str()).map(String::from),
            tags: v.get("tags").map(
                |t| t.as_array().map(|a| a.iter().map(|e| e.as_str().map(String::from)).collect()),
            ),
        }),
    }
}

// ---------------------------------------------------------------------------
// Config
// ---------------------------------------------------------------------------

/// Why a Capture cannot be turned into a `kokobrain://` URI.
#[derive(Debug, Clone, PartialEq, Eq)]
pub enum BuildError {
    /// The Destination is not a kokobrain Destination.
    WrongDestinationKind,
    /// The kokobrain Destination has no config.
    MissingConfig,
    /// The config is not JSON, or its vault or tags are malformed.
    InvalidConfig(String),
    /// The payload lacks the field the kind needs (`text`, `url`, `path`).
    MalformedPayload(&'static str),
}

/// A build error as mathematical values: its variant (0 to 3) and text.
pub open spec fn build_error_view(e: BuildError) -> (int, Seq<char>) {
    match e {
        BuildError::WrongDestinationKind => (0, Seq::empty()),
        BuildError::MissingConfig => (1, Seq::empty()),
        BuildError::InvalidConfig(m) => (2, m@),
        BuildError::MalformedPayload(f) => (3, f@),
    }
}

/// The user-facing message of a build error.
pub open spec fn build_error_message(e: BuildError) -> Seq<char> {
    match e {
        BuildError::WrongDestinationKind => "destination is not a kokobrain destination"@,
        BuildError::MissingConfig => "kokobrain destination is missing its config"@,
        BuildError::InvalidConfig(m) => "invalid kokobrain config: "@ + m@,
        BuildError::MalformedPayload(f) => "capture payload missing field: "@ + f@,
    }
}

impl BuildError {
    /// The user-facing message of the error.
    pub fn to_message(&self) -> (r: String)
        ensures
            r@ == build_error_message(*self),
    {
        match self {
            BuildError::WrongDestinationKind => String::from_str(
                "destination is not a kokobrain destination",
            ),
            BuildError::MissingConfig => String::from_str(
                "kokobrain destination is missing its config",
            ),
            BuildError::InvalidConfig(m) => crate::store::concat_str(
                "invalid kokobrain config: ",
                m.as_str(),
            ),
            BuildError::MalformedPayload(f) => crate::store::concat_str(
                "capture payload missing field: ",
                f,
            ),
        }
    }
}

/// The vault and user tags of a kokobrain Destination.
pub struct KokobrainConfig {
    pub vault: String,
    pub tags: Vec<String>,
}

/// The trimmed, non-blank entries of a tag array, in order.
pub open spec fn clean_tags(es: Seq<Option<Seq<char>>>) -> Seq<Seq<char>>
    decreases es.len(),
{
    if es.len() == 0 {
        Seq::empty()
    } else {
        let prev = clean_tags(es.drop_last());
        match es.last() {
            Some(s) => if trim(s).len() > 0 {
                prev.push(trim(s))
            } else {
                prev
            },
            None => prev,
        }
    }
}

/// An entry of the tag array is not a string.
pub open spec fn has_non_string(es: Seq<Option<Seq<char>>>) -> bool {
    exists|i: int| 0 <= i < es.len() && #[trigger] es[i] is None
}

/// The vault and tags of a config text, or the `InvalidConfig` message.
pub open spec fn parsed_config(raw: Seq<char>) -> Result<(Seq<char>, Seq<Seq<char>>), Seq<char>> {
    match json_config_fields(raw) {
        Err(m) => Err(m),
        Ok((vault, tags)) => match vault {
            None => Err("vault must be a non-blank string"@),
            Some(v) => if trim(v).len() == 0 {
                Err("vault must be a non-blank string"@)
            } else {
                match tags {
                    None => Ok((trim(v), Seq::empty())),
                    Some(None) => Err("tags must be an array of strings"@),
                    Some(Some(es)) => if has_non_string(es) {
                        Err("tags entries must be strings"@)
                    } else {
                        Ok((trim(v), clean_tags(es)))
                    },
                }
            }
        },
    }
}

/// The config of a Destination, or the error it yields.
pub open spec fn config_of(config: Option<Seq<char>>) -> Result<(Seq<char>, Seq<Seq<char>>), (int, Seq<char>)> {
    match config {
        None => Err((1, Seq::empty())),
        Some(raw) => match parsed_config(raw) {
            Ok(c) => Ok(c),
            Err(m) => Err((2, m)),
        },
    }
}

fn invalid_config(msg: &str) -> (e: BuildError)
    ensures
        build_error_view(e) == (2int, msg@),
{
    BuildError::InvalidConfig(String::from_str(msg))
}

/// Reads and re-validates a kokobrain config: `MissingConfig` when there
/// is none; `InvalidConfig` when it is not JSON, its `vault` is not a
/// non-blank string, its `tags` is not an array, or a tag is not a
/// string. The vault is trimmed; tags are trimmed and blanks dropped.
#[verifier::loop_isolation(false)]
pub fn parse_kokobrain_config(config: Option<&str>) -> (r: Result<KokobrainConfig, BuildError>)
    ensures
        match r {
            Ok(c) => config_of(
                match config {
                    Some(s) => Some(s@),
                    None => None,
                },
            ) == Ok::<(Seq<char>, Seq<Seq<char>>), (int, Seq<char>)>((c.vault@, string_views(c.tags@))),
            Err(e) => config_of(
                match config {
                    Some(s) => Some(s@),
                    None => None,
                },
            ) == Err::<(Seq<char>, Seq<Seq<char>>), (int, Seq<char>)>(build_error_view(e)),
        },
{
    let raw = match config {
        Some(s) => s,
        None => {
            return Err(BuildError::MissingConfig);
        },
    };
    let fields = match read_config_json(raw) {
        Ok(f) => f,
        Err(m) => {
            return Err(BuildError::InvalidConfig(m));
        },
    };
    let vault = match &fields.vault {
        Some(v) => trim_chars(&chars_of(v.as_str())),
        None => {
            return Err(invalid_config("vault must be a non-blank string"));
        },
    };
    if vault.len() == 0 {
        return Err(invalid_config("vault must be a non-blank string"));
    }
    let vault = string_of(&vault);
    let ghost jf = json_config_fields(raw@);
    assert(jf == config_fields_view(Ok::<ConfigFields, String>(fields)));
    let tags = match &fields.tags {
        None => {
            let e: Vec<String> = Vec::new();
            assert(string_views(e@) =~= Seq::<Seq<char>>::empty());
            e
        },
        Some(None) => {
            return Err(invalid_config("tags must be an array of strings"));
        },
        Some(Some(entries)) => {
            let ghost es = entries@.map_values(|e: Option<String>| opt_view(e));
            let mut out: Vec<String> = Vec::new();
            let mut i: usize = 0;
            while i < entries.len()
                invariant
                    i <= entries.len(),
                    es == entries@.map_values(|e: Option<String>| opt_view(e)),
                    string_views(out@) == clean_tags(es.take(i as int)),
                    forall|k: int| 0 <= k < i ==> es[k] is Some,
                decreases entries.len() - i,
            {
                assert(es.take(i + 1).drop_last() =~= es.take(i as int));
                match &entries[i] {
                    Some(s) => {
                        let t = trim_chars(&chars_of(s.as_str()));
                        if t.len() > 0 {
                            let ghost before = out@;
                            out.push(string_of(&t));
                            assert(string_views(out@) =~= string_views(before).push(t@));
                        }
                    },
                    None => {
                        assert(es[i as int] is None);
                        assert(has_non_string(es));
                        return Err(invalid_config("tags entries must be strings"));
                    },
                }
                i = i + 1;
            }
            assert(es.take(entries.len() as int) =~= es);
            assert(!has_non_string(es));
            out
        },
    };
    Ok(KokobrainConfig { vault, tags })
}

// ---------------------------------------------------------------------------
// The URI
// ---------------------------------------------------------------------------

/// The `kind` parameter of a Capture kind.
pub open spec fn kind_param(k: CaptureKind) -> Seq<char> {
    match k {
        CaptureKind::Note => "note"@,
        CaptureKind::Clip => "clip"@,
        CaptureKind::Link => "link"@,
        CaptureKind::Shot => "shot"@,
        CaptureKind::File => "file"@,
        CaptureKind::Transcription => "transcription"@,
    }
}

/// The `kind` parameter of the link names the Capture's kind: it is the
/// kind's stored name in lower case, so distinct kinds give distinct
/// parameters.
pub proof fn lemma_kind_param_names_kind(k: CaptureKind, j: CaptureKind)
    ensures
        kind_param(k) == crate::store::kind_name(k).map_values(|c: char| crate::text::ascii_lower(c)),
        kind_param(k) == kind_param(j) ==> k == j,
{
    reveal_strlit("note");
    reveal_strlit("clip");
    reveal_strlit("link");
    reveal_strlit("shot");
    reveal_strlit("file");
    reveal_strlit("transcription");
    reveal_strlit("Note");
    reveal_strlit("Clip");
    reveal_strlit("Link");
    reveal_strlit("Shot");
    reveal_strlit("File");
    reveal_strlit("Transcription");
    assert(kind_param(k) =~= crate::store::kind_name(k).map_values(|c: char| crate::text::ascii_lower(c)));
    if kind_param(k) == kind_param(j) && k != j {
        assert(kind_param(k).len() == kind_param(j).len());
        assert(kind_param(k)[0] == kind_param(j)[0]);
        assert(kind_param(k)[1] == kind_param(j)[1]);
    }
}

/// The `kind` parameter of a Capture kind.
pub fn capture_kind_param(kind: CaptureKind) -> (r: &'static str)
    ensures
        r@ == kind_param(kind),
{
    match kind {
        CaptureKind::Note => "note",
        CaptureKind::Clip => "clip",
        CaptureKind::Link => "link",
        CaptureKind::Shot => "shot",
        CaptureKind::File => "file",
        CaptureKind::Transcription => "transcription",
    }
}

/// An optional field as it is emitted: trimmed, absent when blank.
pub open spec fn non_blank_view(s: Option<String>) -> Option<Seq<char>> {
    match s {
        Some(x) => if trim(x@).len() > 0 {
            Some(trim(x@))
        } else {
            None
        },
        None => None,
    }
}

/// An optional field, trimmed, or `None` when absent or blank.
pub fn non_blank(s: &Option<String>) -> (r: Option<String>)
    ensures
        opt_view(r) == non_blank_view(*s),
{
    match s {
        Some(x) => {
            let t = trim_chars(&chars_of(x.as_str()));
            if t.len() > 0 {
                Some(string_of(&t))
            } else {
                None
            }
        },
        None => None,
    }
}

/// The `title` of a Link URI: the non-blank window title, else the
/// non-blank payload title, trimmed.
pub open spec fn link_title_view(c: Capture) -> Option<Seq<char>> {
    match non_blank_view(c.source_title) {
        Some(t) => Some(t),
        None => non_blank_view(c.payload.title),
    }
}

/// The title a Link URI carries.
pub fn link_title(capture: &Capture) -> (r: Option<String>)
    ensures
        opt_view(r) == link_title_view(*capture),
{
    match non_blank(&capture.source_title) {
        Some(t) => Some(t),
        None => non_blank(&capture.payload.title),
    }
}

/// A one-pair list when `o` holds a value.
pub open spec fn opt_pair(k: Seq<char>, o: Option<Seq<char>>) -> Seq<(Seq<char>, Seq<char>)> {
    match o {
        Some(v) => seq![(k, v)],
        None => Seq::empty(),
    }
}

/// The source-context pairs of a Capture.
pub open spec fn source_pairs(c: Capture) -> Seq<(Seq<char>, Seq<char>)> {
    opt_pair("source_app"@, non_blank_view(c.source_app)) + opt_pair(
        "source_title"@,
        non_blank_view(c.source_title),
    ) + opt_pair("source_url"@, non_blank_view(c.source_url))
}

/// The path of a Shot or File: the blob path, else the source path.
pub open spec fn payload_path(p: Payload) -> Option<Seq<char>> {
    match p.blob_path {
        Some(b) => Some(b@),
        None => opt_view(p.source_path),
    }
}

/// The per-kind pairs of a Capture, or the payload field it lacks.
pub open spec fn kind_pairs(c: Capture) -> Result<Seq<(Seq<char>, Seq<char>)>, Seq<char>> {
    match c.kind {
        CaptureKind::Note | CaptureKind::Clip | CaptureKind::Transcription => match c.payload.text {
            Some(t) => Ok(seq![("text"@, t@)] + source_pairs(c)),
            None => Err("text"@),
        },
        CaptureKind::Link => match c.payload.url {
            Some(u) => Ok(
                seq![("url"@, u@)] + opt_pair("title"@, link_title_view(c)) + opt_pair(
                    "source_app"@,
                    non_blank_view(c.source_app),
                ),
            ),
            None => Err("url"@),
        },
        CaptureKind::Shot | CaptureKind::File => match payload_path(c.payload) {
            Some(p) => Ok(
                seq![("path"@, p)] + opt_pair("mime"@, opt_view(c.payload.mime)) + (if c.kind
                    == CaptureKind::File {
                    opt_pair("original_name"@, opt_view(c.payload.original_name))
                } else {
                    Seq::empty()
                }) + source_pairs(c),
            ),
            None => Err("path"@),
        },
    }
}

/// The URI a Capture routed to a Destination becomes, or the error
/// (as `build_error_view`) that stops it, checked in this order: the
/// Destination kind, its config, the Capture's payload.
pub open spec fn capture_uri(c: Capture, d: Destination) -> Result<Seq<char>, (int, Seq<char>)> {
    if d.kind != DestinationKind::Kokobrain {
        Err((0, Seq::empty()))
    } else {
        match config_of(opt_view(d.config)) {
            Err(e) => Err(e),
            Ok((vault, user_tags)) => match kind_pairs(c) {
                Err(f) => Err((3, f)),
                Ok(body) => {
                    let tags = merged_tags(d.name@, user_tags);
                    let pairs = seq![("v"@, "2"@), ("kind"@, kind_param(c.kind)), ("vault"@, vault)]
                        + body + seq![("captured_at"@, c.created_at@)] + (if tags.len() > 0 {
                        seq![("tags"@, join_comma(tags))]
                    } else {
                        Seq::empty()
                    });
                    Ok("kokobrain://capture?"@ + encode_pairs(pairs))
                },
            },
        }
    }
}

/// A query builder together with the pairs it has encoded.
fn append_pair(
    q: &mut String,
    name: &str,
    value: &str,
    Ghost(pairs): Ghost<Seq<(Seq<char>, Seq<char>)>>,
)
    requires
        old(q)@ == encode_pairs(pairs),
    ensures
        final(q)@ == encode_pairs(pairs.push((name@, value@))),
{
    query_append(q, name, value);
    assert(pairs.push((name@, value@)).drop_last() =~= pairs);
}

fn append_opt(
    q: &mut String,
    name: &str,
    value: &Option<String>,
    Ghost(pairs): Ghost<Seq<(Seq<char>, Seq<char>)>>,
)
    requires
        old(q)@ == encode_pairs(pairs),
    ensures
        final(q)@ == encode_pairs(pairs + opt_pair(name@, opt_view(*value))),
{
    match value {
        Some(v) => {
            append_pair(q, name, v.as_str(), Ghost(pairs));
            assert(pairs + opt_pair(name@, opt_view(*value)) =~= pairs.push((name@, v@)));
        },
        None => {
            assert(pairs + opt_pair(name@, opt_view(*value)) =~= pairs);
        },
    }
}

fn append_source(q: &mut String, c: &Capture, Ghost(pairs): Ghost<Seq<(Seq<char>, Seq<char>)>>)
    requires
        old(q)@ == encode_pairs(pairs),
    ensures
        final(q)@ == encode_pairs(pairs + source_pairs(*c)),
{
    let app = non_blank(&c.source_app);
    append_opt(q, "source_app", &app, Ghost(pairs));
    let ghost p1 = pairs + opt_pair("source_app"@, non_blank_view(c.source_app));
    let title = non_blank(&c.source_title);
    append_opt(q, "source_title", &title, Ghost(p1));
    let ghost p2 = p1 + opt_pair("source_title"@, non_blank_view(c.source_title));
    let url = non_blank(&c.source_url);
    append_opt(q, "source_url", &url, Ghost(p2));
    assert(p2 + opt_pair("source_url"@, non_blank_view(c.source_url)) =~= pairs + source_pairs(*c));
}

fn append_text_pairs(q: &mut String, capture: &Capture, Ghost(head): Ghost<Seq<(Seq<char>, Seq<char>)>>) -> (r: Result<(), BuildError>)
    requires
        old(q)@ == encode_pairs(head),
        capture.kind == CaptureKind::Note || capture.kind == CaptureKind::Clip || capture.kind
            == CaptureKind::Transcription,
    ensures
        match kind_pairs(*capture) {
            Ok(body) => r is Ok && final(q)@ == encode_pairs(head + body),
            Err(f) => r is Err && build_error_view(r->Err_0) == (3int, f),
        },
{
    let text = match &capture.payload.text {
        Some(t) => t,
        None => {
            return Err(BuildError::MalformedPayload("text"));
        },
    };
    append_pair(q, "text", text.as_str(), Ghost(head));
    append_source(q, capture, Ghost(head.push(("text"@, text@))));
    assert(head.push(("text"@, text@)) + source_pairs(*capture) =~= head + (seq![("text"@, text@)]
        + source_pairs(*capture)));
    Ok(())
}

fn append_link_pairs(q: &mut String, capture: &Capture, Ghost(head): Ghost<Seq<(Seq<char>, Seq<char>)>>) -> (r: Result<(), BuildError>)
    requires
        old(q)@ == encode_pairs(head),
        capture.kind == CaptureKind::Link,
    ensures
        match kind_pairs(*capture) {
            Ok(body) => r is Ok && final(q)@ == encode_pairs(head + body),
            Err(f) => r is Err && build_error_view(r->Err_0) == (3int, f),
        },
{
    let url = match &capture.payload.url {
        Some(u) => u,
        None => {
            return Err(BuildError::MalformedPayload("url"));
        },
    };
    append_pair(q, "url", url.as_str(), Ghost(head));
    let title = link_title(capture);
    append_opt(q, "title", &title, Ghost(head.push(("url"@, url@))));
    let ghost p1 = head.push(("url"@, url@)) + opt_pair("title"@, link_title_view(*capture));
    let app = non_blank(&capture.source_app);
    append_opt(q, "source_app", &app, Ghost(p1));
    assert(p1 + opt_pair("source_app"@, non_blank_view(capture.source_app)) =~= head + (seq![
        ("url"@, url@),
    ] + opt_pair("title"@, link_title_view(*capture)) + opt_pair(
        "source_app"@,
        non_blank_view(capture.source_app),
    )));
    Ok(())
}

fn append_file_pairs(q: &mut String, capture: &Capture, Ghost(head): Ghost<Seq<(Seq<char>, Seq<char>)>>) -> (r: Result<(), BuildError>)
    requires
        old(q)@ == encode_pairs(head),
        capture.kind == CaptureKind::Shot || capture.kind == CaptureKind::File,
    ensures
        match kind_pairs(*capture) {
            Ok(body) => r is Ok && final(q)@ == encode_pairs(head + body),
            Err(f) => r is Err && build_error_view(r->Err_0) == (3int, f),
        },
{
    let path = match &capture.payload.blob_path {
        Some(b) => b,
        None => match &capture.payload.source_path {
            Some(s) => s,
            None => {
                return Err(BuildError::MalformedPayload("path"));
            },
        },
    };
    assert(payload_path(capture.payload) == Some(path@));
    append_pair(q, "path", path.as_str(), Ghost(head));
    let ghost p0 = head.push(("path"@, path@));
    append_opt(q, "mime", &capture.payload.mime, Ghost(p0));
    let ghost p1 = p0 + opt_pair("mime"@, opt_view(capture.payload.mime));
    let ghost mut p2 = p1;
    let ghost extra: Seq<(Seq<char>, Seq<char>)> = if capture.kind == CaptureKind::File {
        opt_pair("original_name"@, opt_view(capture.payload.original_name))
    } else {
        Seq::empty()
    };
    if capture.kind == CaptureKind::File {
        append_opt(q, "original_name", &capture.payload.original_name, Ghost(p1));
        proof {
            p2 = p1 + extra;
        }
    } else {
        assert(p1 + extra =~= p1);
    }
    append_source(q, capture, Ghost(p2));
    assert(p2 + source_pairs(*capture) =~= head + (seq![("path"@, path@)] + opt_pair(
        "mime"@,
        opt_view(capture.payload.mime),
    ) + extra + source_pairs(*capture)));
    Ok(())
}

fn append_kind_pairs(q: &mut String, capture: &Capture, Ghost(head): Ghost<Seq<(Seq<char>, Seq<char>)>>) -> (r: Result<(), BuildError>)
    requires
        old(q)@ == encode_pairs(head),
    ensures
        match kind_pairs(*capture) {
            Ok(body) => r is Ok && final(q)@ == encode_pairs(head + body),
            Err(f) => r is Err && build_error_view(r->Err_0) == (3int, f),
        },
{
    match capture.kind {
        CaptureKind::Note | CaptureKind::Clip | CaptureKind::Transcription => append_text_pairs(
            q,
            capture,
            Ghost(head),
        ),
        CaptureKind::Link => append_link_pairs(q, capture, Ghost(head)),
        CaptureKind::Shot | CaptureKind::File => append_file_pairs(q, capture, Ghost(head)),
    }
}

/// The view of a build result.
pub open spec fn uri_result_view(r: Result<String, BuildError>) -> Result<Seq<char>, (int, Seq<char>)> {
    match r {
        Ok(s) => Ok(s@),
        Err(e) => Err(build_error_view(e)),
    }
}

/// Builds the v2 `kokobrain://capture?...` URI for a Capture routed to a
/// kokobrain Destination (see the module documentation for the
/// parameters). Fails with `WrongDestinationKind` for a label
/// Destination, `MissingConfig` / `InvalidConfig` for a missing or
/// malformed config, and `MalformedPayload` when the payload lacks the
/// text, url or path its kind needs.
pub fn build_capture_uri(capture: &Capture, destination: &Destination) -> (r: Result<String, BuildError>)
    ensures
        uri_result_view(r) == capture_uri(*capture, *destination),
{
    if destination.kind != DestinationKind::Kokobrain {
        return Err(BuildError::WrongDestinationKind);
    }
    let cfg_text: Option<&str> = match &destination.config {
        Some(s) => Some(s.as_str()),
        None => None,
    };
    let cfg = match parse_kokobrain_config(cfg_text) {
        Ok(c) => c,
        Err(e) => {
            return Err(e);
        },
    };
    let tags = merge_tags(destination.name.as_str(), &cfg.tags);
    let ghost vault = cfg.vault@;
    let ghost head = seq![("v"@, "2"@), ("kind"@, kind_param(capture.kind)), ("vault"@, vault)];
    let mut q = String::new();
    let ghost p_empty: Seq<(Seq<char>, Seq<char>)> = Seq::empty();
    let ghost p_v = seq![("v"@, "2"@)];
    let ghost p_vk = seq![("v"@, "2"@), ("kind"@, kind_param(capture.kind))];
    append_pair(&mut q, "v", "2", Ghost(p_empty));
    assert(p_empty.push(("v"@, "2"@)) =~= p_v);
    append_pair(&mut q, "kind", capture_kind_param(capture.kind), Ghost(p_v));
    assert(p_v.push(("kind"@, kind_param(capture.kind))) =~= p_vk);
    append_pair(&mut q, "vault", cfg.vault.as_str(), Ghost(p_vk));
    assert(p_vk.push(("vault"@, vault)) =~= head);
    let ghost body = kind_pairs(*capture)->Ok_0;
    match append_kind_pairs(&mut q, capture, Ghost(head)) {
        Ok(()) => {},
        Err(e) => {
            return Err(e);
        },
    }
    append_pair(&mut q, "captured_at", capture.created_at.as_str(), Ghost(head + body));
    let ghost p3 = (head + body).push(("captured_at"@, capture.created_at@));
    let ghost mtags = merged_tags(destination.name@, string_views(cfg.tags@));
    if tags.len() > 0 {
        let joined = join_with_commas(&tags);
        append_pair(&mut q, "tags", joined.as_str(), Ghost(p3));
        assert(p3.push(("tags"@, joined@)) =~= head + body + seq![("captured_at"@, capture.created_at@)]
            + seq![("tags"@, join_comma(mtags))]);
    } else {
        assert(p3 =~= head + body + seq![("captured_at"@, capture.created_at@)] + Seq::<
            (Seq<char>, Seq<char>),
        >::empty());
    }
    let mut uri = String::from_str("kokobrain://capture?");
    uri.append(q.as_str());
    Ok(uri)
}

/// Whether a Destination of `kind` may carry `config`: a label takes none;
/// a kokobrain Destination needs a valid config (a JSON object with a
/// non-blank `vault`). The config is kept as given; a refusal is the
/// store's `InvalidArgument`.
pub fn check_destination_config(kind: DestinationKind, config: Option<&str>) -> (r: Result<
    Option<String>,
    StoreError,
>)
    ensures
        match kind {
            DestinationKind::Label => match config {
                None => r == Ok::<Option<String>, StoreError>(None),
                Some(_) => r matches Err(StoreError::InvalidArgument(m)) && m@
                    == "label destinations take no config"@,
            },
            DestinationKind::Kokobrain => match config_of(
                match config {
                    Some(s) => Some(s@),
                    None => None,
                },
            ) {
                Ok(_) => r matches Ok(Some(c)) && c@ == config->0@,
                Err(e) => r matches Err(StoreError::InvalidArgument(m)) && exists|b: BuildError|
                    build_error_view(b) == e && m@ == build_error_message(b),
            },
        },
{
    match kind {
        DestinationKind::Label => match config {
            None => Ok(None),
            Some(_) => Err(StoreError::InvalidArgument(String::from_str("label destinations take no config"))),
        },
        DestinationKind::Kokobrain => match parse_kokobrain_config(config) {
            Ok(_) => match config {
                Some(c) => Ok(Some(String::from_str(c))),
                None => Ok(None),
            },
            Err(b) => Err(StoreError::InvalidArgument(b.to_message())),
        },
    }
}

} // verus!
