//! Kind detection: which Capture inputs a clipboard snapshot becomes.
//!
//! Text that is a URL becomes a `Link`, any other text a `Clip`; image
//! bytes become a `Shot`; each copied file becomes a `Shot` (image mime)
//! or a `File`. Mime types are guessed from the path's extension by
//! `mime_guess`.

use vstd::prelude::*;
use crate::clipboard::ClipboardSnapshot;
use crate::store::{CaptureInput, ShotSource};
use crate::text::{
    all_ws, ascii_lower, chars_of, is_whitespace, is_ws, opt_view, starts_with_str, string_of,
    to_ascii_lower, trim, trim_chars,
};
use vstd::string::StringExecFns;

verus! {

/// Why a snapshot yields no input.
#[derive(Debug, Clone, PartialEq, Eq)]
pub enum KindDetectError {
    /// The text is empty after trimming.
    EmptyText,
    /// The file list is empty.
    EmptyFiles,
}

/// The user-facing message of a detection error.
pub open spec fn kind_detect_error_message(e: KindDetectError) -> Seq<char> {
    match e {
        KindDetectError::EmptyText => "clipboard text is empty"@,
        KindDetectError::EmptyFiles => "clipboard file list is empty"@,
    }
}

impl KindDetectError {
    /// The user-facing message of the error.
    pub fn to_message(&self) -> (r: String)
        ensures
            r@ == kind_detect_error_message(*self),
    {
        match self {
            KindDetectError::EmptyText => String::from_str("clipboard text is empty"),
            KindDetectError::EmptyFiles => String::from_str("clipboard file list is empty"),
        }
    }
}

// ---------------------------------------------------------------------------
// Trusted calls: mime guessing and file names
// ---------------------------------------------------------------------------

/// The first mime type (its essence, `type/subtype`) that `mime_guess`
/// associates with the extension of `path`; `None` when it knows none.
pub uninterp spec fn mime_first_guess(path: Seq<char>) -> Option<Seq<char>>;

/// `mime_guess::from_path(path).first()`, as its essence string. The
/// contract claims only that the result is the named guess for `path`;
/// the extension table of `mime_guess` is not spelled out.
#[verifier::external_body]
pub(crate) fn guess_mime_first(path: &str) -> (r: Option<String>)
    ensures
        opt_view(r) == mime_first_guess(path@),
{
    mime_guess::from_path(path).first().map(|m| m.essence_str().to_string())
}

/// The final component of `path` as `std::path::Path::file_name` sees it.
pub uninterp spec fn file_name_of(path: Seq<char>) -> Option<Seq<char>>;

/// `Path::file_name`, lossily converted to text. The contract claims only
/// that the result is the named final component of `path`; std's rules
/// for components (trailing `/`, `..`, roots) are not spelled out.
#[verifier::external_body]
pub(crate) fn path_file_name(path: &str) -> (r: Option<String>)
    ensures
        opt_view(r) == file_name_of(path@),
{
    std::path::Path::new(path).file_name().map(|n| n.to_string_lossy().into_owned())
}

// ---------------------------------------------------------------------------
// Paths
// ---------------------------------------------------------------------------

/// The mime type recorded for a path: the guess, or
/// `application/octet-stream` when there is none.
pub open spec fn guessed_mime(path: Seq<char>) -> Seq<char> {
    match mime_first_guess(path) {
        Some(m) => m,
        None => "application/octet-stream"@,
    }
}

/// The mime type recorded for `path`.
pub fn guess_mime(path: &str) -> (r: String)
    ensures
        r@ == guessed_mime(path@),
{
    match guess_mime_first(path) {
        Some(m) => m,
        None => String::from_str("application/octet-stream"),
    }
}

/// The input a file path becomes: a `Shot` taken from disk when its mime
/// is an image type, a `File` (with its file name) otherwise.
pub open spec fn input_for_path(path: Seq<char>, i: CaptureInput) -> bool {
    let m = guessed_mime(path);
    if "image/"@.is_prefix_of(m) {
        match i {
            CaptureInput::Shot { source, width, height } => width is None && height is None
                && match source {
                ShotSource::Path { source_path, mime } => source_path@ == path && mime@ == m,
                _ => false,
            },
            _ => false,
        }
    } else {
        match i {
            CaptureInput::File { source_path, mime, original_name } => source_path@ == path
                && mime@ == m && opt_view(original_name) == file_name_of(path),
            _ => false,
        }
    }
}

/// The input one file path becomes.
pub fn decide_one_path(path: String) -> (r: CaptureInput)
    ensures
        input_for_path(path@, r),
{
    let mime = guess_mime(path.as_str());
    if starts_with_str(mime.as_str(), "image/") {
        CaptureInput::Shot {
            source: ShotSource::Path { source_path: path, mime },
            width: None,
            height: None,
        }
    } else {
        let original_name = path_file_name(path.as_str());
        CaptureInput::File { source_path: path, mime, original_name }
    }
}

/// One input per path, in order.
pub open spec fn inputs_for_paths(paths: Seq<String>, inputs: Seq<CaptureInput>) -> bool {
    &&& inputs.len() == paths.len()
    &&& forall|k: int| 0 <= k < paths.len() ==> input_for_path(paths[k]@, #[trigger] inputs[k])
}

/// One input per path, in order (no check for emptiness).
pub fn inputs_for_each_path(paths: &Vec<String>) -> (r: Vec<CaptureInput>)
    ensures
        inputs_for_paths(paths@, r@),
{
    let mut out: Vec<CaptureInput> = Vec::new();
    let mut i: usize = 0;
    while i < paths.len()
        invariant
            i <= paths.len(),
            out.len() == i,
            forall|k: int| 0 <= k < i ==> input_for_path(paths@[k]@, #[trigger] out@[k]),
        decreases paths.len() - i,
    {
        let p = paths[i].clone();
        out.push(decide_one_path(p));
        i = i + 1;
    }
    out
}

fn decide_files(paths: Vec<String>) -> (r: Result<Vec<CaptureInput>, KindDetectError>)
    ensures
        match r {
            Ok(v) => paths.len() > 0 && inputs_for_paths(paths@, v@),
            Err(e) => paths.len() == 0 && e == KindDetectError::EmptyFiles,
        },
{
    if paths.len() == 0 {
        return Err(KindDetectError::EmptyFiles);
    }
    Ok(inputs_for_each_path(&paths))
}

// ---------------------------------------------------------------------------
// Text
// ---------------------------------------------------------------------------

/// `p` begins `t` when ASCII case is ignored in `t`.
pub open spec fn ascii_prefix_ci(t: Seq<char>, p: Seq<char>) -> bool {
    &&& t.len() >= p.len()
    &&& forall|i: int| 0 <= i < p.len() ==> ascii_lower(#[trigger] t[i]) == p[i]
}

/// The URL a trimmed text stands for: the text itself when it starts
/// (ignoring ASCII case) with `http://`, `https://` or `mailto:` followed
/// by at least one character; `https://` plus the text when it starts
/// with `www.` followed by at least one character; none when the text
/// holds whitespace or has no such prefix.
pub open spec fn url_of(t: Seq<char>) -> Option<Seq<char>> {
    if exists|i: int| 0 <= i < t.len() && is_ws(#[trigger] t[i]) {
        None
    } else if ascii_prefix_ci(t, "http://"@) {
        if t.len() > "http://"@.len() {
            Some(t)
        } else {
            None
        }
    } else if ascii_prefix_ci(t, "https://"@) {
        if t.len() > "https://"@.len() {
            Some(t)
        } else {
            None
        }
    } else if ascii_prefix_ci(t, "mailto:"@) {
        if t.len() > "mailto:"@.len() {
            Some(t)
        } else {
            None
        }
    } else if ascii_prefix_ci(t, "www."@) && t.len() > 4 {
        Some("https://"@ + t)
    } else {
        None
    }
}

fn has_ascii_prefix_ci(t: &Vec<char>, p: &str) -> (r: bool)
    ensures
        r == ascii_prefix_ci(t@, p@),
{
    let pv = chars_of(p);
    if pv.len() > t.len() {
        return false;
    }
    let mut i: usize = 0;
    while i < pv.len()
        invariant
            pv@ == p@,
            pv.len() <= t.len(),
            i <= pv.len(),
            forall|k: int| 0 <= k < i ==> ascii_lower(#[trigger] t@[k]) == pv@[k],
        decreases pv.len() - i,
    {
        if to_ascii_lower(t[i]) != pv[i] {
            return false;
        }
        i = i + 1;
    }
    true
}

/// The canonical URL a trimmed text stands for, if it is one.
pub fn url_from_trimmed(trimmed: &str) -> (r: Option<String>)
    ensures
        opt_view(r) == url_of(trimmed@),
{
    let t = chars_of(trimmed);
    let mut i: usize = 0;
    while i < t.len()
        invariant
            i <= t.len(),
            t@ == trimmed@,
            forall|k: int| 0 <= k < i ==> !is_ws(#[trigger] t@[k]),
        decreases t.len() - i,
    {
        if is_whitespace(t[i]) {
            assert(is_ws(trimmed@[i as int]));
            return None;
        }
        i = i + 1;
    }
    let n = t.len();
    if has_ascii_prefix_ci(&t, "http://") {
        if n > chars_of("http://").len() {
            return Some(string_of(&t));
        }
        return None;
    }
    if has_ascii_prefix_ci(&t, "https://") {
        if n > chars_of("https://").len() {
            return Some(string_of(&t));
        }
        return None;
    }
    if has_ascii_prefix_ci(&t, "mailto:") {
        if n > chars_of("mailto:").len() {
            return Some(string_of(&t));
        }
        return None;
    }
    if has_ascii_prefix_ci(&t, "www.") && n > 4 {
        let mut u = String::from_str("https://");
        u.append(trimmed);
        return Some(u);
    }
    None
}

/// The input a clipboard text becomes: a `Link` (keeping the original
/// text as `raw_text`) when the trimmed text is a URL, otherwise a `Clip`
/// of the verbatim text; `EmptyText` when the trimmed text is empty.
pub open spec fn text_input(raw: String, r: Result<CaptureInput, KindDetectError>) -> bool {
    if trim(raw@).len() == 0 {
        r == Err::<CaptureInput, KindDetectError>(KindDetectError::EmptyText)
    } else {
        match url_of(trim(raw@)) {
            Some(u) => match r {
                Ok(CaptureInput::Link { url, raw_text, title }) => url@ == u && raw_text == raw
                    && title is None,
                _ => false,
            },
            None => r == Ok::<CaptureInput, KindDetectError>(CaptureInput::Clip { text: raw }),
        }
    }
}

/// A clipboard text is kept exactly as it was copied: a Clip's text, and
/// a Link's raw text, are the raw clipboard text, untrimmed; a text that
/// is blank once trimmed saves nothing; a text that is no URL once trimmed
/// becomes a Clip.
pub proof fn lemma_text_kept_verbatim(raw: String, r: Result<CaptureInput, KindDetectError>)
    requires
        text_input(raw, r),
    ensures
        r matches Ok(CaptureInput::Clip { text }) ==> text@ == raw@,
        r matches Ok(CaptureInput::Link { raw_text, .. }) ==> raw_text@ == raw@,
        r is Err <==> trim(raw@).len() == 0,
        trim(raw@).len() > 0 && url_of(trim(raw@)) is None ==> r matches Ok(CaptureInput::Clip { .. }),
        r matches Ok(i) ==> i matches CaptureInput::Clip { .. } || i matches CaptureInput::Link { .. },
{
}

/// The input a clipboard text becomes.
pub fn decide_text(raw: String) -> (r: Result<CaptureInput, KindDetectError>)
    ensures
        text_input(raw, r),
{
    let trimmed = string_of(&trim_chars(&chars_of(raw.as_str())));
    if trimmed.as_str().unicode_len() == 0 {
        return Err(KindDetectError::EmptyText);
    }
    match url_from_trimmed(trimmed.as_str()) {
        Some(url) => Ok(CaptureInput::Link { url, raw_text: raw, title: None }),
        None => Ok(CaptureInput::Clip { text: raw }),
    }
}

/// What `decide` returns for a snapshot.
pub open spec fn decided(snapshot: ClipboardSnapshot, r: Result<Vec<CaptureInput>, KindDetectError>) -> bool {
    match snapshot {
        ClipboardSnapshot::Text(raw) => match r {
            Ok(v) => v@.len() == 1 && text_input(raw, Ok(v@[0])),
            Err(e) => text_input(raw, Err(e)),
        },
        ClipboardSnapshot::Image { bytes, mime } => match r {
            Ok(v) => v@ == seq![
                CaptureInput::Shot {
                    source: ShotSource::Bytes { bytes, mime },
                    width: None,
                    height: None,
                },
            ],
            Err(_) => false,
        },
        ClipboardSnapshot::Files(paths) => match r {
            Ok(v) => paths.len() > 0 && inputs_for_paths(paths@, v@),
            Err(e) => paths.len() == 0 && e == KindDetectError::EmptyFiles,
        },
    }
}

/// Turns a clipboard snapshot into the Capture inputs it stands for: one
/// input for a text or an image, one per path (in order) for a file list.
pub fn decide(snapshot: ClipboardSnapshot) -> (r: Result<Vec<CaptureInput>, KindDetectError>)
    ensures
        decided(snapshot, r),
{
    match snapshot {
        ClipboardSnapshot::Text(raw) => match decide_text(raw) {
            Ok(c) => {
                let mut v: Vec<CaptureInput> = Vec::new();
                v.push(c);
                Ok(v)
            },
            Err(e) => Err(e),
        },
        ClipboardSnapshot::Image { bytes, mime } => {
            let mut v: Vec<CaptureInput> = Vec::new();
            v.push(
                CaptureInput::Shot {
                    source: ShotSource::Bytes { bytes, mime },
                    width: None,
                    height: None,
                },
            );
            assert(v@ =~= seq![
                CaptureInput::Shot {
                    source: ShotSource::Bytes { bytes, mime },
                    width: None,
                    height: None,
                },
            ]);
            Ok(v)
        },
        ClipboardSnapshot::Files(paths) => decide_files(paths),
    }
}

} // verus!
