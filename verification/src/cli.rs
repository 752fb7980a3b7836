//! The logic of the `dev_list` command: argument parsing and the one-line
//! rendering of a Capture. Reading the store and printing are done by the
//! application.

use vstd::prelude::*;
use crate::store::{kind_name, store_error_message, Capture, CaptureKind, StoreError};
use crate::text::{chars_of, push_char, string_of};
use vstd::string::StringExecFns;

verus! {

/// Number of rows listed when `--limit` is not given.
pub const DEFAULT_LIMIT: u32 = 20;

/// Maximum number of characters of a Note preview.
pub const NOTE_PREVIEW_MAX: usize = 60;

/// Number of leading ULID characters shown.
pub const SHORT_ULID_LEN: usize = 8;

/// The parsed command line.
#[derive(Debug, Clone, PartialEq, Eq)]
pub struct Args {
    pub limit: u32,
    pub db: Option<String>,
}

/// Why `dev_list` failed.
#[derive(Debug, Clone, PartialEq, Eq)]
pub enum CliError {
    BadArgs(String),
    Store(StoreError),
}

/// The message printed for an error.
pub open spec fn cli_error_message(e: CliError) -> Seq<char> {
    match e {
        CliError::BadArgs(m) => m@,
        CliError::Store(s) => store_error_message(s),
    }
}

impl CliError {
    /// The message printed for the error.
    pub fn to_message(&self) -> (r: String)
        ensures
            r@ == cli_error_message(*self),
    {
        match self {
            CliError::BadArgs(m) => m.clone(),
            CliError::Store(s) => s.to_message(),
        }
    }
}

// ---------------------------------------------------------------------------
// Decimal numbers
// ---------------------------------------------------------------------------

/// `c` is an ASCII digit.
pub open spec fn is_digit(c: char) -> bool {
    '0' <= c && c <= '9'
}

/// The value of a string of ASCII digits.
pub open spec fn digits_value(s: Seq<char>) -> nat
    decreases s.len(),
{
    if s.len() == 0 {
        0
    } else {
        digits_value(s.drop_last()) * 10 + ((s.last() as u32) - ('0' as u32)) as nat
    }
}

/// The digits of a `u32` literal: the text without an optional leading `+`.
pub open spec fn u32_digits(s: Seq<char>) -> Seq<char> {
    if s.len() > 0 && s[0] == '+' {
        s.drop_first()
    } else {
        s
    }
}

/// What `str::parse::<u32>` accepts: an optional `+` followed by one or
/// more ASCII digits whose value fits in a `u32`.
pub open spec fn parse_u32_spec(s: Seq<char>) -> Option<u32> {
    let d = u32_digits(s);
    if d.len() > 0 && (forall|i: int| 0 <= i < d.len() ==> is_digit(#[trigger] d[i]))
        && digits_value(d) <= u32::MAX {
        Some(digits_value(d) as u32)
    } else {
        None
    }
}

/// `str::parse::<u32>`: an optional `+`, then at least one ASCII digit,
/// with a value that fits in a `u32`.
#[verifier::loop_isolation(false)]
pub fn parse_u32(s: &str) -> (r: Option<u32>)
    ensures
        r == parse_u32_spec(s@),
{
    let v = chars_of(s);
    let start: usize = if v.len() > 0 && v[0] == '+' {
        1
    } else {
        0
    };
    let ghost d = u32_digits(s@);
    assert(d =~= v@.subrange(start as int, v.len() as int));
    if start >= v.len() {
        return None;
    }
    let mut j = start;
    while j < v.len()
        invariant
            start <= j <= v.len(),
            d == v@.subrange(start as int, v.len() as int),
            forall|k: int| 0 <= k < j - start ==> is_digit(#[trigger] d[k]),
        decreases v.len() - j,
    {
        let c = v[j];
        if !('0' <= c && c <= '9') {
            assert(!is_digit(d[j - start]));
            return None;
        }
        j = j + 1;
    }
    let mut value: u64 = 0;
    let mut i = start;
    while i < v.len()
        invariant
            start <= i <= v.len(),
            d == v@.subrange(start as int, v.len() as int),
            forall|k: int| 0 <= k < d.len() ==> is_digit(#[trigger] d[k]),
            value == digits_value(d.take(i - start)),
            value <= u32::MAX,
        decreases v.len() - i,
    {
        let c = v[i];
        assert(is_digit(d[i - start]));
        assert(d.take(i - start + 1).drop_last() =~= d.take(i - start));
        let digit = (c as u32) - ('0' as u32);
        value = value * 10 + digit as u64;
        i = i + 1;
        if value > 0xFFFF_FFFF {
            proof {
                lemma_digits_value_monotone(d, i - start);
            }
            return None;
        }
    }
    assert(d.take(d.len() as int) =~= d);
    Some(value as u32)
}

/// A longer digit prefix never has a smaller value.
proof fn lemma_digits_value_monotone(d: Seq<char>, k: int)
    requires
        0 <= k <= d.len(),
        forall|i: int| 0 <= i < d.len() ==> is_digit(#[trigger] d[i]),
    ensures
        digits_value(d.take(k)) <= digits_value(d),
    decreases d.len() - k,
{
    if k < d.len() {
        lemma_digits_value_monotone(d, k + 1);
        assert(d.take(k + 1).drop_last() =~= d.take(k));
    } else {
        assert(d.take(k) =~= d);
    }
}

// ---------------------------------------------------------------------------
// Arguments
// ---------------------------------------------------------------------------

/// The result of parsing `argv` from index `i`, given the values read so
/// far; `Err` carries the message of `BadArgs`.
pub open spec fn parse_args_from(
    argv: Seq<Seq<char>>,
    i: int,
    limit: u32,
    db: Option<Seq<char>>,
) -> Result<(u32, Option<Seq<char>>), Seq<char>>
    decreases argv.len() - i,
{
    if i < 0 || i >= argv.len() {
        Ok((limit, db))
    } else if argv[i] == "--limit"@ {
        if i + 1 >= argv.len() {
            Err("--limit requires a value"@)
        } else {
            match parse_u32_spec(argv[i + 1]) {
                Some(n) => parse_args_from(argv, i + 2, n, db),
                None => Err("invalid --limit value: "@ + argv[i + 1]),
            }
        }
    } else if argv[i] == "--db"@ {
        if i + 1 >= argv.len() {
            Err("--db requires a value"@)
        } else {
            parse_args_from(argv, i + 2, limit, Some(argv[i + 1]))
        }
    } else {
        Err("unknown argument: "@ + argv[i])
    }
}

/// The views of a list of strings.
pub open spec fn arg_views(v: Seq<String>) -> Seq<Seq<char>> {
    v.map_values(|s: String| s@)
}

/// Parses `--limit N` (default 20) and `--db PATH`, in any order; a later
/// flag overrides an earlier one. Fails on a missing or invalid value and
/// on any other argument.
#[verifier::loop_isolation(false)]
pub fn parse_args(argv: &[String]) -> (r: Result<Args, CliError>)
    ensures
        match parse_args_from(arg_views(argv@), 0, DEFAULT_LIMIT, None) {
            Ok((limit, db)) => r matches Ok(a) && a.limit == limit && crate::text::opt_view(a.db)
                == db,
            Err(m) => r matches Err(e) && e == CliError::BadArgs(e->BadArgs_0) && e->BadArgs_0@
                == m,
        },
{
    let ghost av = arg_views(argv@);
    let mut limit: u32 = DEFAULT_LIMIT;
    let mut db: Option<String> = None;
    let mut i: usize = 0;
    while i < argv.len()
        invariant
            i <= argv.len(),
            av == arg_views(argv@),
            parse_args_from(av, 0, DEFAULT_LIMIT, None) == parse_args_from(
                av,
                i as int,
                limit,
                crate::text::opt_view(db),
            ),
        decreases argv.len() - i,
    {
        let arg = argv[i].as_str();
        assert(av[i as int] == arg@);
        if crate::transcription::str_eq(arg, "--limit") {
            if i + 1 >= argv.len() {
                return Err(CliError::BadArgs(String::from_str("--limit requires a value")));
            }
            let v = argv[i + 1].as_str();
            assert(av[i + 1] == v@);
            match parse_u32(v) {
                Some(n) => {
                    limit = n;
                },
                None => {
                    let mut m = String::from_str("invalid --limit value: ");
                    m.append(v);
                    return Err(CliError::BadArgs(m));
                },
            }
            i = i + 2;
        } else if crate::transcription::str_eq(arg, "--db") {
            if i + 1 >= argv.len() {
                return Err(CliError::BadArgs(String::from_str("--db requires a value")));
            }
            assert(av[i + 1] == argv@[i + 1]@);
            db = Some(argv[i + 1].clone());
            i = i + 2;
        } else {
            let mut m = String::from_str("unknown argument: ");
            m.append(arg);
            return Err(CliError::BadArgs(m));
        }
    }
    Ok(Args { limit, db })
}

// ---------------------------------------------------------------------------
// Rendering
// ---------------------------------------------------------------------------

/// The escaped form of one character: `\n`, `\r`, `\t` as two characters.
pub open spec fn escape_char(c: char) -> Seq<char> {
    if c == '\n' {
        seq!['\\', 'n']
    } else if c == '\r' {
        seq!['\\', 'r']
    } else if c == '\t' {
        seq!['\\', 't']
    } else {
        seq![c]
    }
}

/// `s` with its line breaks and tabs escaped.
pub open spec fn escape_line(s: Seq<char>) -> Seq<char>
    decreases s.len(),
{
    if s.len() == 0 {
        Seq::empty()
    } else {
        escape_line(s.drop_last()) + escape_char(s.last())
    }
}

/// A one-line preview: the escaped text, cut to `max` characters plus
/// `...` when longer.
pub open spec fn truncated_line(s: Seq<char>, max: nat) -> Seq<char> {
    let e = escape_line(s);
    if e.len() <= max {
        e
    } else {
        e.take(max as int) + seq!['.', '.', '.']
    }
}

/// Escapes `\n`, `\r` and `\t`, then keeps at most `max_chars` characters,
/// adding `...` when it cut.
pub fn truncate_single_line(s: &str, max_chars: usize) -> (r: String)
    ensures
        r@ == truncated_line(s@, max_chars as nat),
{
    let v = chars_of(s);
    let mut e: Vec<char> = Vec::new();
    let mut i: usize = 0;
    while i < v.len()
        invariant
            i <= v.len(),
            e@ == escape_line(v@.take(i as int)),
        decreases v.len() - i,
    {
        assert(v@.take(i + 1).drop_last() =~= v@.take(i as int));
        let c = v[i];
        let ghost before = e@;
        if c == '\n' {
            e.push('\\');
            e.push('n');
        } else if c == '\r' {
            e.push('\\');
            e.push('r');
        } else if c == '\t' {
            e.push('\\');
            e.push('t');
        } else {
            e.push(c);
        }
        assert(e@ =~= before + escape_char(c));
        i = i + 1;
    }
    assert(v@.take(v.len() as int) =~= v@);
    if e.len() <= max_chars {
        return string_of(&e);
    }
    let mut out = String::new();
    let mut k: usize = 0;
    while k < max_chars
        invariant
            k <= max_chars < e.len(),
            out@ == e@.take(k as int),
        decreases max_chars - k,
    {
        push_char(&mut out, e[k]);
        k = k + 1;
        assert(out@ =~= e@.take(k as int));
    }
    push_char(&mut out, '.');
    push_char(&mut out, '.');
    push_char(&mut out, '.');
    assert(out@ =~= e@.take(max_chars as int) + seq!['.', '.', '.']);
    out
}

/// The label printed for a kind.
pub fn kind_label(k: CaptureKind) -> (r: &'static str)
    ensures
        r@ == kind_name(k),
{
    k.as_str()
}

/// The preview of a Capture: the first line of a Note's text (escaped and
/// cut to 60 characters), `<Kind>: ?` for other kinds.
pub open spec fn preview_of(c: Capture) -> Seq<char> {
    if c.kind == CaptureKind::Note {
        truncated_line(
            match c.payload.text {
                Some(t) => t@,
                None => Seq::empty(),
            },
            NOTE_PREVIEW_MAX as nat,
        )
    } else {
        kind_name(c.kind) + ": ?"@
    }
}

/// The preview column of a Capture.
pub fn payload_preview(c: &Capture) -> (r: String)
    ensures
        r@ == preview_of(*c),
{
    if c.kind == CaptureKind::Note {
        match &c.payload.text {
            Some(t) => truncate_single_line(t.as_str(), NOTE_PREVIEW_MAX),
            None => {
                assert(truncated_line(Seq::empty(), NOTE_PREVIEW_MAX as nat) =~= Seq::empty());
                String::new()
            },
        }
    } else {
        let mut s = String::from_str(kind_label(c.kind));
        s.append(": ?");
        s
    }
}

/// The short id: the first 8 characters, or the whole id when shorter.
pub open spec fn short_id(id: Seq<char>) -> Seq<char> {
    if id.len() >= SHORT_ULID_LEN {
        id.take(SHORT_ULID_LEN as int)
    } else {
        id
    }
}

/// The line printed for a Capture: short id, kind, creation time and
/// preview, separated by two spaces.
pub open spec fn line_of(c: Capture) -> Seq<char> {
    short_id(c.id@) + "  "@ + kind_name(c.kind) + "  "@ + c.created_at@ + "  "@ + preview_of(c)
}

/// Renders one Capture as a `dev_list` line.
pub fn format_line(c: &Capture) -> (r: String)
    ensures
        r@ == line_of(*c),
{
    let idv = chars_of(c.id.as_str());
    let short = if idv.len() >= SHORT_ULID_LEN {
        let mut s: Vec<char> = Vec::new();
        let mut k: usize = 0;
        while k < SHORT_ULID_LEN
            invariant
                k <= SHORT_ULID_LEN <= idv.len(),
                s@ == idv@.take(k as int),
            decreases SHORT_ULID_LEN - k,
        {
            s.push(idv[k]);
            k = k + 1;
            assert(s@ =~= idv@.take(k as int));
        }
        string_of(&s)
    } else {
        c.id.clone()
    };
    let mut out = short;
    out.append("  ");
    out.append(kind_label(c.kind));
    out.append("  ");
    out.append(c.created_at.as_str());
    out.append("  ");
    let p = payload_preview(c);
    out.append(p.as_str());
    out
}

} // verus!
