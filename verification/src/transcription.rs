//! Post-processing of speech-to-text output: hallucination detection and
//! the removal of the stock phrases, bracketed tokens, repeated words and
//! filler words that the speech model tends to emit.
//!
//! The model itself is run by the application; this module receives the
//! text it produced.

use vstd::prelude::*;
use vstd::string::StringExecFns;
use crate::text::{
    chars_eq, clone_chars, chars_eq_ignore_ascii_case, chars_of, eq_ignore_ascii_case, is_alphanumeric,
    join_sp, join_words, lowercase_str, slice_chars, split_ws, split_whitespace, string_of,
    str_to_lowercase, char_is_alphanumeric, trim, trim_chars, trim_range, trim_start,
    trim_start_index, views, find_char, starts_with_chars, ends_with_chars,
};

verus! {

/// Language the transcription defaults to.
pub const DEFAULT_LANGUAGE: &'static str = "pt";

pub const SEED_PT: &'static str = "Olá, tudo bem? Vamos conversar sobre o que aconteceu hoje. Então, o que você acha disso?";

pub const SEED_EN: &'static str = "Hello, how are you doing? Let's talk about what happened today. So, what do you think?";

/// Equality of two texts.
pub fn str_eq(a: &str, b: &str) -> (r: bool)
    ensures
        r == (a@ == b@),
{
    let va = chars_of(a);
    let vb = chars_of(b);
    chars_eq(&va, &vb)
}

// ---------------------------------------------------------------------------
// Model parameters
// ---------------------------------------------------------------------------

/// The shortest audio, in 16 kHz samples, handed to the speech model.
pub const MIN_AUDIO_SAMPLES_16KHZ: usize = 16_000;

/// Silence, in 16 kHz samples, appended behind the audio.
pub const TRAILING_SILENCE_SAMPLES: usize = 16_000;

/// The audio handed to the speech model: `samples`, padded with `silence`
/// to at least a second, then followed by another second of silence.
pub fn pad_audio<T: Copy>(samples: &[T], silence: T) -> (r: Vec<T>)
    requires
        samples@.len() + TRAILING_SILENCE_SAMPLES <= usize::MAX,
    ensures
        r@.len() == (if samples@.len() > MIN_AUDIO_SAMPLES_16KHZ {
            samples@.len() as int
        } else {
            MIN_AUDIO_SAMPLES_16KHZ as int
        }) + TRAILING_SILENCE_SAMPLES,
        r@.take(samples@.len() as int) == samples@,
        forall|i: int| samples@.len() <= i < r@.len() ==> r@[i] == silence,
{
    let min_len = if samples.len() > MIN_AUDIO_SAMPLES_16KHZ {
        samples.len()
    } else {
        MIN_AUDIO_SAMPLES_16KHZ
    } + TRAILING_SILENCE_SAMPLES;
    let mut padded: Vec<T> = Vec::new();
    let mut i: usize = 0;
    while i < samples.len()
        invariant
            i <= samples.len(),
            padded@ == samples@.take(i as int),
        decreases samples.len() - i,
    {
        padded.push(samples[i]);
        assert(samples@.take(i + 1) =~= samples@.take(i as int).push(samples@[i as int]));
        i = i + 1;
    }
    assert(samples@.take(samples.len() as int) =~= samples@);
    while padded.len() < min_len
        invariant
            samples@.len() <= padded@.len() <= min_len,
            padded@.take(samples@.len() as int) == samples@,
            forall|k: int| samples@.len() <= k < padded@.len() ==> padded@[k] == silence,
        decreases min_len - padded.len(),
    {
        let ghost before = padded@;
        padded.push(silence);
        assert(padded@.take(samples@.len() as int) =~= before.take(samples@.len() as int));
    }
    padded
}

/// Decoder threads for a machine with `cpus` logical CPUs: two left to
/// the rest of the system, at least one, at most eight.
pub fn whisper_thread_count(cpus: i32) -> (r: i32)
    ensures
        r == (if cpus - 2 < 1 {
            1
        } else if cpus - 2 > 8 {
            8
        } else {
            cpus - 2
        }),
{
    if cpus < 3 {
        1
    } else if cpus > 10 {
        8
    } else {
        cpus - 2
    }
}

/// The audio context of the model for `samples` samples of 16 kHz audio:
/// 1500 positions per 30 seconds, plus 128, at most 1500.
pub fn audio_context_size(samples: usize) -> (r: i32)
    requires
        samples <= usize::MAX / 1500,
    ensures
        r == (if (1500 * samples as int) / 480_000int + 128 > 1500 {
            1500
        } else {
            (1500 * samples as int) / 480_000int + 128
        }),
{
    let positions = (1500 * samples) / (16_000 * 30) + 128;
    if positions > 1500 {
        1500
    } else {
        positions as i32
    }
}

/// The prompt the model starts from: the caller's prompt when it is not
/// empty, else the seed prompt of the language.
pub open spec fn effective_prompt_spec(initial: Option<Seq<char>>, language: Seq<char>) -> Option<Seq<char>> {
    match initial {
        Some(p) => if p.len() > 0 {
            Some(p)
        } else {
            seed_prompt(language)
        },
        None => seed_prompt(language),
    }
}

/// Executable `effective_prompt_spec`.
pub fn effective_prompt(initial: Option<&str>, language: &str) -> (r: Option<String>)
    ensures
        crate::text::opt_view(r) == effective_prompt_spec(
            match initial {
                Some(p) => Some(p@),
                None => None,
            },
            language@,
        ),
{
    match initial {
        Some(p) => {
            if !p.is_empty() {
                return Some(String::from_str(p));
            }
        },
        None => {},
    }
    match language_seed_prompt(language) {
        Some(s) => Some(String::from_str(s)),
        None => None,
    }
}

/// The seed prompt handed to the model for `language`.
pub open spec fn seed_prompt(language: Seq<char>) -> Option<Seq<char>> {
    if language == "pt"@ {
        Some(SEED_PT@)
    } else if language == "en"@ {
        Some(SEED_EN@)
    } else {
        None
    }
}

/// A natural-sounding sentence in `language` that primes the model, for
/// Portuguese (`"pt"`) and English (`"en"`); `None` for any other code.
pub fn language_seed_prompt(language: &str) -> (r: Option<&'static str>)
    ensures
        r matches Some(p) ==> seed_prompt(language@) == Some(p@),
        r is None ==> seed_prompt(language@) is None,
{
    if str_eq(language, "pt") {
        Some(SEED_PT)
    } else if str_eq(language, "en") {
        Some(SEED_EN)
    } else {
        None
    }
}

// ---------------------------------------------------------------------------
// Hallucination detection
// ---------------------------------------------------------------------------

/// The chunk of `p` words starting at `start` repeats the first `p` words.
pub open spec fn chunk_is_pattern(w: Seq<Seq<char>>, p: int, start: int) -> bool {
    &&& 0 <= start
    &&& start + p <= w.len()
    &&& forall|k: int| 0 <= k < p ==> #[trigger] w[start + k] == w[k]
}

/// Number of the chunks `w[start..start+p]`, `w[start+p..start+2p]`, ...
/// (the last one possibly shorter) that equal the first `p` words.
pub open spec fn reps_from(w: Seq<Seq<char>>, p: int, start: int) -> nat
    decreases w.len() + p - start,
{
    if p <= 0 || start < 0 || start >= w.len() {
        0
    } else {
        (if chunk_is_pattern(w, p, start) {
            1nat
        } else {
            0nat
        }) + reps_from(w, p, start + p)
    }
}

/// The first `p` words, repeated, cover at least 80% of `w`.
pub open spec fn pattern_covers(w: Seq<Seq<char>>, p: int) -> bool {
    &&& w.len() >= 2 * p
    &&& (reps_from(w, p, 0) * p * 100) / (w.len() as int) >= 80
}

/// A transcript is a hallucination when it has at least four words and
/// a pattern of one to four words, repeated, makes up at least 80% of it.
pub open spec fn hallucinated(text: Seq<char>) -> bool {
    let t = trim(text);
    let w = split_ws(t);
    &&& t.len() > 0
    &&& w.len() >= 4
    &&& exists|p: int| 1 <= p <= 4 && #[trigger] pattern_covers(w, p)
}

proof fn lemma_reps_bound(w: Seq<Seq<char>>, p: int, start: int)
    requires
        p >= 1,
        0 <= start,
    ensures
        start <= w.len() ==> reps_from(w, p, start) <= w.len() - start,
        start > w.len() ==> reps_from(w, p, start) == 0,
    decreases w.len() + p - start,
{
    if start < w.len() {
        lemma_reps_bound(w, p, start + p);
    }
}

/// `w[start..start+p] == w[0..p]`, exactly.
fn chunk_matches(w: &Vec<Vec<char>>, p: usize, start: usize) -> (r: bool)
    requires
        p <= w.len(),
    ensures
        r == chunk_is_pattern(views(w@), p as int, start as int),
{
    if start > w.len() || p > w.len() - start {
        return false;
    }
    let mut k: usize = 0;
    while k < p
        invariant
            p <= w.len(),
            start + p <= w.len(),
            k <= p,
            forall|j: int| 0 <= j < k ==> #[trigger] views(w@)[start + j] == views(w@)[j],
        decreases p - k,
    {
        if !chars_eq(&w[start + k], &w[k]) {
            assert(views(w@)[start + k] != views(w@)[k as int]);
            return false;
        }
        k = k + 1;
    }
    true
}

/// Detects the looping output the speech model produces on silence:
/// at least four words, at least 80% of them a repetition of the first
/// one to four words.
pub fn is_hallucination(text: &str) -> (r: bool)
    ensures
        r == hallucinated(text@),
{
    let t = trim_chars(&chars_of(text));
    if t.len() == 0 {
        return false;
    }
    let words = split_whitespace(&t);
    let ghost w = views(words@);
    let n = words.len();
    if n < 4 {
        return false;
    }
    let mut p: usize = 1;
    while p <= 4
        invariant
            1 <= p <= 5,
            n == w.len(),
            n >= 4,
            w == views(words@),
            w == split_ws(trim(text@)),
            forall|q: int| 1 <= q < p ==> !#[trigger] pattern_covers(w, q),
        decreases 5 - p,
    {
        if n >= p * 2 {
            let mut reps: usize = 0;
            let mut start: usize = 0;
            while start < n
                invariant
                    1 <= p <= 4,
                    2 * p <= n,
                    n == w.len(),
                    w == views(words@),
                    start <= n + p,
                    reps + reps_from(w, p as int, start as int) == reps_from(w, p as int, 0),
                    reps <= n,
                decreases n + p - start,
            {
                proof {
                    lemma_reps_bound(w, p as int, 0);
                }
                proof {
                    lemma_reps_bound(w, p as int, start as int);
                    lemma_reps_bound(w, p as int, start + p);
                }
                if chunk_matches(&words, p, start) {
                    reps = reps + 1;
                }
                if p > n - start {
                    start = n;
                } else {
                    start = start + p;
                }
            }
            assert((reps as u128) * (p as u128) <= (n as u128) * 4) by (nonlinear_arith)
                requires
                    reps <= n,
                    p <= 4,
            ;
            let coverage: u128 = (reps as u128) * (p as u128);
            if coverage * 100 / (n as u128) >= 80 {
                assert(pattern_covers(w, p as int));
                return true;
            }
            assert(!pattern_covers(w, p as int));
        }
        p = p + 1;
    }
    false
}

// ---------------------------------------------------------------------------
// Bracketed tokens
// ---------------------------------------------------------------------------

/// Opening brackets whose tokens are removed.
pub open spec fn is_open_bracket(c: char) -> bool {
    c == '[' || c == '(' || c == '{'
}

/// The bracket that closes `c`.
pub open spec fn closer(c: char) -> char {
    if c == '[' {
        ']'
    } else if c == '(' {
        ')'
    } else {
        '}'
    }
}

/// `s` without its bracketed tokens: each `[..]`, `(..)` or `{..}` is
/// dropped up to the first matching closer; an opener with no closer
/// keeps the rest of the text verbatim.
pub open spec fn strip_brackets(s: Seq<char>) -> Seq<char>
    decreases s.len(),
{
    if s.len() == 0 {
        Seq::empty()
    } else if is_open_bracket(s[0]) {
        match find_char(s, closer(s[0]), 1) {
            Some(j) => if 1 <= j < s.len() {
                strip_brackets(s.subrange(j + 1, s.len() as int))
            } else {
                s
            },
            None => s,
        }
    } else {
        seq![s[0]] + strip_brackets(s.drop_first())
    }
}

/// Removes `[MUSIC]`, `(applause)`, `{noise}`-style tokens; an unclosed
/// opener and everything after it is kept.
pub fn strip_bracketed_tokens(text: &str) -> (r: String)
    ensures
        r@ == strip_brackets(text@),
{
    let v = chars_of(text);
    let out = strip_bracketed_chars(&v);
    string_of(&out)
}

fn strip_bracketed_chars(v: &Vec<char>) -> (r: Vec<char>)
    ensures
        r@ == strip_brackets(v@),
{
    let mut out: Vec<char> = Vec::new();
    let mut i: usize = 0;
    let n = v.len();
    assert(v@.subrange(0, n as int) =~= v@);
    while i < n
        invariant
            n == v.len(),
            i <= n,
            strip_brackets(v@) == out@ + strip_brackets(v@.subrange(i as int, n as int)),
        decreases n - i,
    {
        let ghost rest = v@.subrange(i as int, n as int);
        let c = v[i];
        if c == '[' || c == '(' || c == '{' {
            let close = if c == '[' {
                ']'
            } else if c == '(' {
                ')'
            } else {
                '}'
            };
            let mut j: usize = i + 1;
            while j < n && v[j] != close
                invariant
                    n == v.len(),
                    i < j <= n,
                    rest == v@.subrange(i as int, n as int),
                    close == closer(rest[0]),
                    find_char(rest, close, 1) == find_char(rest, close, j - i),
                decreases n - j,
            {
                j = j + 1;
            }
            if j < n {
                assert(find_char(rest, close, j - i) == Some((j - i) as int));
                assert(rest.subrange(j - i + 1, rest.len() as int) =~= v@.subrange(
                    j + 1,
                    n as int,
                ));
                i = j + 1;
            } else {
                assert(find_char(rest, close, j - i) is None);
                let mut k = i;
                let ghost before = out@;
                while k < n
                    invariant
                        i <= k <= n,
                        n == v.len(),
                        out@ == before + v@.subrange(i as int, k as int),
                    decreases n - k,
                {
                    out.push(v[k]);
                    k = k + 1;
                    assert(out@ =~= before + v@.subrange(i as int, k as int));
                }
                assert(v@.subrange(n as int, n as int) =~= Seq::<char>::empty());
                assert(out@ + strip_brackets(v@.subrange(n as int, n as int)) =~= out@);
                i = n;
            }
        } else {
            let ghost before = out@;
            out.push(c);
            assert(rest.drop_first() =~= v@.subrange(i + 1, n as int));
            assert(out@ =~= before + seq![c]);
            i = i + 1;
        }
    }
    assert(v@.subrange(n as int, n as int) =~= Seq::<char>::empty());
    assert(out@ + Seq::<char>::empty() =~= out@);
    out
}

// ---------------------------------------------------------------------------
// Repeated words and phrases
// ---------------------------------------------------------------------------

/// Words `w[a..a+p]` and `w[b..b+p]` match ignoring ASCII case.
pub open spec fn phrase_eq(w: Seq<Seq<char>>, a: int, b: int, p: int) -> bool {
    forall|k: int| 0 <= k < p ==> eq_ignore_ascii_case(#[trigger] w[a + k], w[b + k])
}

/// Skips the further repetitions of the phrase at `a` starting at `j`.
pub open spec fn skip_repeats(w: Seq<Seq<char>>, p: int, a: int, j: int) -> int
    decreases w.len() - j,
{
    if p >= 1 && j + p <= w.len() && phrase_eq(w, a, j, p) {
        skip_repeats(w, p, a, j + p)
    } else {
        j
    }
}

/// Collapses back-to-back repetitions of each `p`-word phrase, scanning
/// from word `i`; the first occurrence keeps its spelling.
pub open spec fn collapse_from(w: Seq<Seq<char>>, p: int, i: int) -> Seq<Seq<char>>
    decreases w.len() - i, 1int,
{
    if p < 1 || i < 0 || i >= w.len() {
        Seq::empty()
    } else if i + 2 * p <= w.len() && phrase_eq(w, i, i + p, p) {
        let j = skip_repeats(w, p, i, i + p);
        if i < j <= w.len() {
            w.subrange(i, i + p) + collapse_from(w, p, j)
        } else {
            Seq::empty()
        }
    } else {
        seq![w[i]] + collapse_from(w, p, i + 1)
    }
}

proof fn lemma_skip_repeats(w: Seq<Seq<char>>, p: int, a: int, j: int)
    requires
        p >= 1,
        j <= w.len(),
    ensures
        j <= skip_repeats(w, p, a, j) <= w.len(),
    decreases w.len() - j,
{
    if j + p <= w.len() && phrase_eq(w, a, j, p) {
        lemma_skip_repeats(w, p, a, j + p);
    }
}

proof fn lemma_collapse_nonempty(w: Seq<Seq<char>>, p: int, i: int)
    requires
        p >= 1,
        0 <= i < w.len(),
    ensures
        collapse_from(w, p, i).len() >= 1,
{
    if i + 2 * p <= w.len() && phrase_eq(w, i, i + p, p) {
        lemma_skip_repeats(w, p, i, i + p);
    }
}

/// `w[a..a+p]` and `w[b..b+p]` match ignoring ASCII case.
fn phrases_match(w: &Vec<Vec<char>>, a: usize, b: usize, p: usize) -> (r: bool)
    requires
        a + p <= w.len(),
        b + p <= w.len(),
    ensures
        r == phrase_eq(views(w@), a as int, b as int, p as int),
{
    let mut k: usize = 0;
    while k < p
        invariant
            a + p <= w.len(),
            b + p <= w.len(),
            k <= p,
            forall|j: int|
                0 <= j < k ==> eq_ignore_ascii_case(
                    #[trigger] views(w@)[a + j],
                    views(w@)[b + j],
                ),
        decreases p - k,
    {
        if !chars_eq_ignore_ascii_case(&w[a + k], &w[b + k]) {
            assert(!eq_ignore_ascii_case(views(w@)[a + k], views(w@)[b + k]));
            return false;
        }
        k = k + 1;
    }
    true
}

/// Collapses back-to-back repetitions of `phrase_len`-word phrases
/// (ASCII case ignored) to their first occurrence.
pub fn collapse_phrase_repeats(words: &Vec<Vec<char>>, phrase_len: usize) -> (r: Vec<Vec<char>>)
    requires
        phrase_len >= 1,
    ensures
        views(r@) == collapse_from(views(words@), phrase_len as int, 0),
{
    let ghost w = views(words@);
    let p = phrase_len;
    let n = words.len();
    let mut out: Vec<Vec<char>> = Vec::new();
    let mut i: usize = 0;
    while i < n
        invariant
            p >= 1,
            n == words.len(),
            w == views(words@),
            i <= n,
            collapse_from(w, p as int, 0) == views(out@) + collapse_from(w, p as int, i as int),
        decreases n - i,
    {
        let ghost before = views(out@);
        if p <= n && i <= n - p && p <= n - i - p && phrases_match(words, i, i + p, p) {
            let mut k: usize = 0;
            while k < p
                invariant
                    p >= 1,
                    i + 2 * p <= n,
                    n == words.len(),
                    w == views(words@),
                    k <= p,
                    views(out@) == before + w.subrange(i as int, i + k),
                decreases p - k,
            {
                let ghost prev = out@;
                let c = clone_chars(&words[i + k]);
                out.push(c);
                assert(out@ == prev.push(c));
                assert(views(out@) =~= views(prev).push(w[i + k]));
                k = k + 1;
                assert(views(out@) =~= before + w.subrange(i as int, i + k));
            }
            let mut j: usize = i + p;
            while p <= n - j && phrases_match(words, i, j, p)
                invariant
                    p >= 1,
                    i + 2 * p <= n,
                    i + p <= j <= n,
                    n == words.len(),
                    w == views(words@),
                    skip_repeats(w, p as int, i as int, i + p) == skip_repeats(
                        w,
                        p as int,
                        i as int,
                        j as int,
                    ),
                decreases n - j,
            {
                j = j + p;
            }
            assert(skip_repeats(w, p as int, i as int, j as int) == j);
            i = j;
        } else {
            out.push(clone_chars(&words[i]));
            assert(views(out@) =~= before + seq![w[i as int]]);
            i = i + 1;
        }
    }
    assert(views(out@) + Seq::<Seq<char>>::empty() =~= views(out@));
    out
}

/// Drops each word that matches (ASCII case ignored) the word kept just
/// before it.
pub open spec fn dedupe_adjacent(w: Seq<Seq<char>>) -> Seq<Seq<char>>
    decreases w.len(),
{
    if w.len() <= 1 {
        w
    } else {
        let d = dedupe_adjacent(w.drop_last());
        if eq_ignore_ascii_case(w.last(), d.last()) {
            d
        } else {
            d.push(w.last())
        }
    }
}

proof fn lemma_dedupe_adjacent_nonempty(w: Seq<Seq<char>>)
    requires
        w.len() >= 1,
    ensures
        dedupe_adjacent(w).len() >= 1,
    decreases w.len(),
{
    if w.len() > 1 {
        lemma_dedupe_adjacent_nonempty(w.drop_last());
    }
}

/// What `collapse_repeated_words` makes of a text.
pub open spec fn collapse_words(s: Seq<char>) -> Seq<char> {
    let w = split_ws(s);
    if w.len() < 2 {
        s
    } else {
        let a2 = collapse_from(w, 2, 0);
        let a3 = collapse_from(a2, 3, 0);
        join_sp(dedupe_adjacent(a3))
    }
}

/// Collapses repeated two- and three-word phrases, then repeated single
/// words, ignoring ASCII case; the words of the result are separated by
/// single spaces. A text of fewer than two words is returned unchanged.
pub fn collapse_repeated_words(text: &str) -> (r: String)
    ensures
        r@ == collapse_words(text@),
{
    let v = chars_of(text);
    let out = collapse_repeated_chars(&v);
    string_of(&out)
}

fn collapse_repeated_chars(v: &Vec<char>) -> (r: Vec<char>)
    ensures
        r@ == collapse_words(v@),
{
    let words = split_whitespace(v);
    if words.len() < 2 {
        return v.clone();
    }
    let after_2 = collapse_phrase_repeats(&words, 2);
    let after_3 = collapse_phrase_repeats(&after_2, 3);
    let ghost a3 = views(after_3@);
    proof {
        lemma_collapse_nonempty(views(words@), 2, 0);
        lemma_collapse_nonempty(views(after_2@), 3, 0);
    }
    let mut final_out: Vec<Vec<char>> = Vec::new();
    final_out.push(clone_chars(&after_3[0]));
    assert(views(final_out@) =~= dedupe_adjacent(a3.take(1)));
    let mut i: usize = 1;
    while i < after_3.len()
        invariant
            1 <= i <= after_3.len(),
            a3 == views(after_3@),
            views(final_out@) == dedupe_adjacent(a3.take(i as int)),
            final_out.len() >= 1,
        decreases after_3.len() - i,
    {
        assert(a3.take(i + 1).drop_last() =~= a3.take(i as int));
        let last = final_out.len() - 1;
        if !chars_eq_ignore_ascii_case(&after_3[i], &final_out[last]) {
            final_out.push(clone_chars(&after_3[i]));
            assert(views(final_out@) =~= dedupe_adjacent(a3.take(i as int)).push(a3[i as int]));
        }
        i = i + 1;
        proof {
            lemma_dedupe_adjacent_nonempty(a3.take(i as int));
        }
    }
    assert(a3.take(after_3.len() as int) =~= a3);
    join_words(&final_out)
}

// ---------------------------------------------------------------------------
// Filler words
// ---------------------------------------------------------------------------

/// The hesitation sounds dropped from a transcript.
pub open spec fn is_filler(w: Seq<char>) -> bool {
    ||| w == "uh"@
    ||| w == "uhh"@
    ||| w == "uhhh"@
    ||| w == "um"@
    ||| w == "uhm"@
    ||| w == "umm"@
    ||| w == "ummm"@
    ||| w == "hm"@
    ||| w == "hmm"@
    ||| w == "hmmm"@
    ||| w == "mm"@
    ||| w == "mmm"@
    ||| w == "mh"@
    ||| w == "ah"@
    ||| w == "ahh"@
    ||| w == "eh"@
    ||| w == "ehh"@
    ||| w == "er"@
    ||| w == "err"@
}

/// Executable `is_filler`.
pub fn is_filler_word(w: &str) -> (b: bool)
    ensures
        b == is_filler(w@),
{
    str_eq(w, "uh") || str_eq(w, "uhh") || str_eq(w, "uhhh") || str_eq(w, "um") || str_eq(
        w,
        "uhm",
    ) || str_eq(w, "umm") || str_eq(w, "ummm") || str_eq(w, "hm") || str_eq(w, "hmm")
        || str_eq(w, "hmmm") || str_eq(w, "mm") || str_eq(w, "mmm") || str_eq(w, "mh")
        || str_eq(w, "ah") || str_eq(w, "ahh") || str_eq(w, "eh") || str_eq(w, "ehh")
        || str_eq(w, "er") || str_eq(w, "err")
}

/// `s` without its leading non-alphanumeric characters.
pub open spec fn trim_start_non_alnum(s: Seq<char>) -> Seq<char>
    decreases s.len(),
{
    if s.len() > 0 && !char_is_alphanumeric(s[0]) {
        trim_start_non_alnum(s.drop_first())
    } else {
        s
    }
}

/// `s` without its trailing non-alphanumeric characters.
pub open spec fn trim_end_non_alnum(s: Seq<char>) -> Seq<char>
    decreases s.len(),
{
    if s.len() > 0 && !char_is_alphanumeric(s.last()) {
        trim_end_non_alnum(s.drop_last())
    } else {
        s
    }
}

/// `str::trim_matches(|c| !c.is_alphanumeric())`.
pub open spec fn trim_non_alnum(s: Seq<char>) -> Seq<char> {
    trim_end_non_alnum(trim_start_non_alnum(s))
}

/// A word is a filler when, stripped of surrounding punctuation and
/// lowercased, it is one of the filler sounds.
pub open spec fn is_filler_token(w: Seq<char>) -> bool {
    is_filler(str_to_lowercase(trim_non_alnum(w)))
}

/// The words of `ws` that are not fillers.
pub open spec fn drop_fillers(ws: Seq<Seq<char>>) -> Seq<Seq<char>>
    decreases ws.len(),
{
    if ws.len() == 0 {
        ws
    } else {
        let d = drop_fillers(ws.drop_last());
        if is_filler_token(ws.last()) {
            d
        } else {
            d.push(ws.last())
        }
    }
}

/// `v` stripped of non-alphanumeric characters at both ends.
fn trim_non_alnum_chars(v: &Vec<char>) -> (r: Vec<char>)
    ensures
        r@ == trim_non_alnum(v@),
{
    let n = v.len();
    let mut a: usize = 0;
    assert(v@.subrange(0, n as int) =~= v@);
    while a < n && !is_alphanumeric(v[a])
        invariant
            n == v.len(),
            a <= n,
            trim_start_non_alnum(v@) == trim_start_non_alnum(v@.subrange(a as int, n as int)),
        decreases n - a,
    {
        assert(v@.subrange(a as int, n as int).drop_first() =~= v@.subrange(a + 1, n as int));
        a = a + 1;
    }
    assert(v@.subrange(0, n as int) =~= v@);
    let mut b: usize = n;
    while b > a && !is_alphanumeric(v[b - 1])
        invariant
            n == v.len(),
            a <= b <= n,
            trim_end_non_alnum(v@.subrange(a as int, n as int)) == trim_end_non_alnum(
                v@.subrange(a as int, b as int),
            ),
        decreases b - a,
    {
        assert(v@.subrange(a as int, b as int).drop_last() =~= v@.subrange(a as int, b - 1));
        b = b - 1;
    }
    slice_chars(v, a, b)
}

/// Drops the words that are hesitation sounds (`uh`, `umm`, `hmm`, ...),
/// matched after stripping surrounding punctuation and lowercasing; the
/// remaining words are joined by single spaces.
pub fn strip_filler_words(text: &str) -> (r: String)
    ensures
        r@ == join_sp(drop_fillers(split_ws(text@))),
{
    let v = chars_of(text);
    let out = strip_filler_chars(&v);
    string_of(&out)
}

fn strip_filler_chars(v: &Vec<char>) -> (r: Vec<char>)
    ensures
        r@ == join_sp(drop_fillers(split_ws(v@))),
{
    let words = split_whitespace(v);
    let ghost w = views(words@);
    let mut kept: Vec<Vec<char>> = Vec::new();
    let mut i: usize = 0;
    while i < words.len()
        invariant
            i <= words.len(),
            w == views(words@),
            views(kept@) == drop_fillers(w.take(i as int)),
        decreases words.len() - i,
    {
        assert(w.take(i + 1).drop_last() =~= w.take(i as int));
        let core = trim_non_alnum_chars(&words[i]);
        let lower = lowercase_str(string_of(&core).as_str());
        if !is_filler_word(lower.as_str()) {
            kept.push(clone_chars(&words[i]));
            assert(views(kept@) =~= drop_fillers(w.take(i as int)).push(w[i as int]));
        }
        i = i + 1;
    }
    assert(w.take(words.len() as int) =~= w);
    join_words(&kept)
}

} // verus!

verus! {

// ---------------------------------------------------------------------------
// Stock phrases and the whole clean-up
// ---------------------------------------------------------------------------

/// Stock openings the model invents, tried in this order.
pub open spec fn hallucination_prefixes() -> Seq<Seq<char>> {
    seq![
        "E aí pessoal,"@,
        "E aí pessoal!"@,
        "E aí,"@,
        "E aí!"@,
        "E aí."@,
        "E aí"@,
        "Fala pessoal,"@,
        "Fala pessoal!"@,
        "Fala pessoal"@,
        "Fala galera,"@,
        "Fala galera!"@,
        "Fala galera"@,
    ]
}

/// Stock sign-offs the model invents, tried in this order.
pub open spec fn hallucination_suffixes() -> Seq<Seq<char>> {
    seq![
        "Obrigado por assistir!"@,
        "Obrigado por assistir."@,
        "Obrigado por assistir"@,
        "Até a próxima!"@,
        "Até a próxima."@,
        "Até a próxima"@,
        "Até mais!"@,
        "Até mais."@,
        "Até mais"@,
        "Legendas pela comunidade Amara.org"@,
        "Inscreva-se no canal!"@,
        "Inscreva-se no canal."@,
        "Inscreva-se no canal"@,
        "Thank you for watching!"@,
        "Thank you for watching."@,
        "Thank you for watching"@,
        "Thanks for watching!"@,
        "Thanks for watching."@,
        "Thanks for watching"@,
        "Please like and subscribe!"@,
        "Please like and subscribe."@,
        "Please like and subscribe"@,
        "Like and subscribe!"@,
        "Like and subscribe."@,
        "Like and subscribe"@,
        "Please subscribe!"@,
        "Please subscribe."@,
        "Please subscribe"@,
        "See you in the next video!"@,
        "See you in the next video."@,
        "See you in the next video"@,
        "See you next time!"@,
        "See you next time."@,
        "See you next time"@,
        "Subtitles by the Amara.org community"@,
    ]
}

fn prefix_list() -> (v: Vec<&'static str>)
    ensures
        v@.map_values(|x: &str| x@) == hallucination_prefixes(),
{
    let v = vec![
        "E aí pessoal,",
        "E aí pessoal!",
        "E aí,",
        "E aí!",
        "E aí.",
        "E aí",
        "Fala pessoal,",
        "Fala pessoal!",
        "Fala pessoal",
        "Fala galera,",
        "Fala galera!",
        "Fala galera",
    ];
    assert(v@.map_values(|x: &str| x@) =~= hallucination_prefixes());
    v
}

fn suffix_list() -> (v: Vec<&'static str>)
    ensures
        v@.map_values(|x: &str| x@) == hallucination_suffixes(),
{
    let v = vec![
        "Obrigado por assistir!",
        "Obrigado por assistir.",
        "Obrigado por assistir",
        "Até a próxima!",
        "Até a próxima.",
        "Até a próxima",
        "Até mais!",
        "Até mais.",
        "Até mais",
        "Legendas pela comunidade Amara.org",
        "Inscreva-se no canal!",
        "Inscreva-se no canal.",
        "Inscreva-se no canal",
        "Thank you for watching!",
        "Thank you for watching.",
        "Thank you for watching",
        "Thanks for watching!",
        "Thanks for watching.",
        "Thanks for watching",
        "Please like and subscribe!",
        "Please like and subscribe.",
        "Please like and subscribe",
        "Like and subscribe!",
        "Like and subscribe.",
        "Like and subscribe",
        "Please subscribe!",
        "Please subscribe.",
        "Please subscribe",
        "See you in the next video!",
        "See you in the next video.",
        "See you in the next video",
        "See you next time!",
        "See you next time.",
        "See you next time",
        "Subtitles by the Amara.org community",
    ];
    assert(v@.map_values(|x: &str| x@) =~= hallucination_suffixes());
    v
}

/// Removes the first phrase of `ps` (in order) that begins `s`, then trims.
pub open spec fn strip_first_prefix(s: Seq<char>, ps: Seq<Seq<char>>) -> Seq<char>
    decreases ps.len(),
{
    if ps.len() == 0 {
        s
    } else if ps[0].is_prefix_of(s) {
        trim(s.subrange(ps[0].len() as int, s.len() as int))
    } else {
        strip_first_prefix(s, ps.drop_first())
    }
}

/// Removes the first phrase of `ps` (in order) that ends `s`, then trims.
pub open spec fn strip_first_suffix(s: Seq<char>, ps: Seq<Seq<char>>) -> Seq<char>
    decreases ps.len(),
{
    if ps.len() == 0 {
        s
    } else if ps[0].is_suffix_of(s) {
        trim(s.subrange(0, s.len() - ps[0].len()))
    } else {
        strip_first_suffix(s, ps.drop_first())
    }
}

/// What `strip_filler_words` makes of a text.
pub open spec fn without_fillers(s: Seq<char>) -> Seq<char> {
    join_sp(drop_fillers(split_ws(s)))
}

/// `s` without a leading `'!'` (and the whitespace after it).
pub open spec fn strip_bang(s: Seq<char>) -> Seq<char> {
    if s.len() > 0 && s[0] == '!' {
        trim_start(s.drop_first())
    } else {
        s
    }
}

/// The whole artifact clean-up, in the order the steps run.
pub open spec fn strip_artifacts(s: Seq<char>) -> Seq<char> {
    let a = strip_bang(s);
    let b = strip_first_prefix(a, hallucination_prefixes());
    let c = strip_first_suffix(b, hallucination_suffixes());
    trim(without_fillers(collapse_words(strip_brackets(c))))
}

fn strip_prefix_list(s: Vec<char>) -> (r: Vec<char>)
    ensures
        r@ == strip_first_prefix(s@, hallucination_prefixes()),
{
    let list = prefix_list();
    let ghost ps = list@.map_values(|x: &str| x@);
    assert(ps.skip(0) =~= ps);
    let mut i: usize = 0;
    while i < list.len()
        invariant
            i <= list.len(),
            ps == list@.map_values(|x: &str| x@),
            strip_first_prefix(s@, hallucination_prefixes()) == strip_first_prefix(
                s@,
                ps.skip(i as int),
            ),
        decreases list.len() - i,
    {
        assert(ps.skip(i as int).drop_first() =~= ps.skip(i + 1));
        let p = chars_of(list[i]);
        assert(ps.skip(i as int)[0] == p@);
        if starts_with_chars(&s, &p) {
            let (a, b) = trim_range(&s, p.len(), s.len());
            return slice_chars(&s, a, b);
        }
        i = i + 1;
    }
    assert(ps.skip(list.len() as int) =~= Seq::<Seq<char>>::empty());
    s
}

fn strip_suffix_list(s: Vec<char>) -> (r: Vec<char>)
    ensures
        r@ == strip_first_suffix(s@, hallucination_suffixes()),
{
    let list = suffix_list();
    let ghost ps = list@.map_values(|x: &str| x@);
    assert(ps.skip(0) =~= ps);
    let mut i: usize = 0;
    while i < list.len()
        invariant
            i <= list.len(),
            ps == list@.map_values(|x: &str| x@),
            strip_first_suffix(s@, hallucination_suffixes()) == strip_first_suffix(
                s@,
                ps.skip(i as int),
            ),
        decreases list.len() - i,
    {
        assert(ps.skip(i as int).drop_first() =~= ps.skip(i + 1));
        let p = chars_of(list[i]);
        assert(ps.skip(i as int)[0] == p@);
        if ends_with_chars(&s, &p) {
            let (a, b) = trim_range(&s, 0, s.len() - p.len());
            return slice_chars(&s, a, b);
        }
        i = i + 1;
    }
    assert(ps.skip(list.len() as int) =~= Seq::<Seq<char>>::empty());
    s
}

/// Removes the artifacts the speech model adds to real speech: a leading
/// `!`, one stock opening and one stock sign-off, bracketed tokens,
/// repeated words and phrases, and filler words; the result is trimmed.
pub fn strip_hallucination_artifacts(text: &str) -> (r: String)
    ensures
        r@ == strip_artifacts(text@),
{
    let v = chars_of(text);
    let a = if v.len() > 0 && v[0] == '!' {
        let lo = trim_start_index(&v, 1, v.len());
        assert(v@.subrange(1, v.len() as int) =~= v@.drop_first());
        slice_chars(&v, lo, v.len())
    } else {
        v
    };
    let b = strip_prefix_list(a);
    let c = strip_suffix_list(b);
    let d = strip_bracketed_chars(&c);
    let e = collapse_repeated_chars(&d);
    let f = strip_filler_chars(&e);
    let g = trim_chars(&f);
    string_of(&g)
}

/// The final text of a transcription: empty when the model produced a
/// hallucination loop, otherwise the trimmed text cleaned of artifacts.
pub open spec fn cleaned_transcript(raw: Seq<char>) -> Seq<char> {
    if hallucinated(trim(raw)) {
        Seq::empty()
    } else {
        strip_artifacts(trim(raw))
    }
}

/// Trimming a trimmed text changes nothing.
proof fn lemma_trim_idempotent(s: Seq<char>)
    ensures
        trim(trim(s)) == trim(s),
{
    crate::text::lemma_trim_no_ws_ends(s);
    let t = trim(s);
    if t.len() > 0 {
        assert(crate::text::trim_start(t) == t);
        assert(crate::text::trim_end(t) == t);
    } else {
        assert(crate::text::trim_start(t) == t);
        assert(crate::text::trim_end(t) == t);
    }
}

/// A hallucination loop is dropped whole: when the trimmed transcript has
/// at least four words and its first one to four words, repeated, make up
/// at least 80% of them, the saved text is empty.
pub proof fn lemma_loop_is_dropped(raw: Seq<char>, p: int)
    requires
        split_ws(trim(raw)).len() >= 4,
        1 <= p <= 4,
        pattern_covers(split_ws(trim(raw)), p),
    ensures
        cleaned_transcript(raw).len() == 0,
{
    lemma_trim_idempotent(raw);
    if trim(raw).len() == 0 {
        assert(trim(raw) =~= Seq::<char>::empty());
    }
    assert(hallucinated(trim(raw)));
}

/// Turns the raw text the speech model produced into the text that is
/// saved: trimmed, dropped entirely when it is a hallucination loop,
/// otherwise cleaned of artifacts.
pub fn clean_transcript(raw: &str) -> (r: String)
    ensures
        r@ == cleaned_transcript(raw@),
{
    let t = trim_chars(&chars_of(raw));
    let ts = string_of(&t);
    if is_hallucination(ts.as_str()) {
        return String::new();
    }
    strip_hallucination_artifacts(ts.as_str())
}

} // verus!
