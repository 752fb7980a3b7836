//! The data model of the capture store and the computations the store
//! makes around its SQLite rows: kind names, payload shapes, the text fed
//! to the full-text index, the sanitised search expression, timestamps,
//! blob file names and the checks that guard destination and routing
//! writes. The SQLite database itself is driven by the application.

use vstd::prelude::*;
use crate::text::{
    chars_of, is_alphanumeric, char_is_alphanumeric, push_char, slice_chars, string_of, trim,
    trim_chars,
};
use vstd::string::StringExecFns;

verus! {

/// Settings key of the ULID of the newest Capture when the Inbox was last
/// opened.
pub const SETTING_LAST_INBOX_OPEN_ID: &'static str = "last_inbox_open_id";

/// Settings key of the Wikilink source folder.
pub const SETTING_WIKILINK_SOURCE_FOLDER: &'static str = "wikilink_source_folder";

/// Settings key of the selected microphone.
pub const SETTING_MIC_DEVICE: &'static str = "mic_device";

/// Settings key of the selected system-audio device.
pub const SETTING_SYS_AUDIO_DEVICE: &'static str = "sys_audio_device";

/// Settings key of the system-audio switch.
pub const SETTING_SYS_AUDIO_ENABLED: &'static str = "sys_audio_enabled";

/// Settings key of the transcription language.
pub const SETTING_TRANSCRIPTION_LANGUAGE: &'static str = "transcription_language";

/// The smallest ULID (26 zeros): the unread cursor before the Inbox was
/// ever opened.
pub const ULID_MIN: &'static str = "00000000000000000000000000";

/// Closed set of Capture kinds.
#[derive(Debug, Clone, Copy, PartialEq, Eq, Structural)]
pub enum CaptureKind {
    Link,
    Clip,
    Shot,
    File,
    Note,
    Transcription,
}

/// The name a kind is stored under.
pub open spec fn kind_name(k: CaptureKind) -> Seq<char> {
    match k {
        CaptureKind::Link => "Link"@,
        CaptureKind::Clip => "Clip"@,
        CaptureKind::Shot => "Shot"@,
        CaptureKind::File => "File"@,
        CaptureKind::Note => "Note"@,
        CaptureKind::Transcription => "Transcription"@,
    }
}

/// Errors of the store. The messages of the database and file system
/// layers are carried as text.
#[derive(Debug, Clone, PartialEq, Eq)]
pub enum StoreError {
    Io(String),
    Db(String),
    Decode(String),
    NotFound(String),
    /// The name is already held by another live Destination.
    DestinationNameConflict(String),
    /// A precondition that the caller should have enforced does not hold.
    InvalidArgument(String),
}

/// `a` followed by `b`, as a new `String`.
pub fn concat_str(a: &str, b: &str) -> (r: String)
    ensures
        r@ == a@ + b@,
{
    let mut s = String::from_str(a);
    s.append(b);
    s
}

/// The user-facing message of a store error.
pub open spec fn store_error_message(e: StoreError) -> Seq<char> {
    match e {
        StoreError::Io(m) => "io error: "@ + m@,
        StoreError::Db(m) => "db error: "@ + m@,
        StoreError::Decode(m) => "decode error: "@ + m@,
        StoreError::NotFound(id) => "capture not found: "@ + id@,
        StoreError::DestinationNameConflict(n) => "destination name already in use: "@ + n@,
        StoreError::InvalidArgument(m) => "invalid argument: "@ + m@,
    }
}

impl StoreError {
    /// The user-facing message of the error.
    pub fn to_message(&self) -> (r: String)
        ensures
            r@ == store_error_message(*self),
    {
        match self {
            StoreError::Io(m) => concat_str("io error: ", m.as_str()),
            StoreError::Db(m) => concat_str("db error: ", m.as_str()),
            StoreError::Decode(m) => concat_str("decode error: ", m.as_str()),
            StoreError::NotFound(id) => concat_str("capture not found: ", id.as_str()),
            StoreError::DestinationNameConflict(n) => concat_str(
                "destination name already in use: ",
                n.as_str(),
            ),
            StoreError::InvalidArgument(m) => concat_str("invalid argument: ", m.as_str()),
        }
    }
}

/// Equality of two texts.
pub fn text_eq(a: &str, b: &str) -> (r: bool)
    ensures
        r == (a@ == b@),
{
    crate::transcription::str_eq(a, b)
}

impl CaptureKind {
    /// The name the kind is stored under.
    pub fn as_str(&self) -> (r: &'static str)
        ensures
            r@ == kind_name(*self),
    {
        match self {
            CaptureKind::Link => "Link",
            CaptureKind::Clip => "Clip",
            CaptureKind::Shot => "Shot",
            CaptureKind::File => "File",
            CaptureKind::Note => "Note",
            CaptureKind::Transcription => "Transcription",
        }
    }

    /// The kind stored under `value`; `Decode("unknown kind: <value>")`
    /// for any other text.
    pub fn parse(value: &str) -> (r: Result<CaptureKind, StoreError>)
        ensures
            match r {
                Ok(k) => kind_name(k) == value@,
                Err(e) => (forall|k: CaptureKind| kind_name(k) != value@) && e == StoreError::Decode(
                    e->Decode_0,
                ) && e->Decode_0@ == "unknown kind: "@ + value@,
            },
    {
        if text_eq(value, "Link") {
            Ok(CaptureKind::Link)
        } else if text_eq(value, "Clip") {
            Ok(CaptureKind::Clip)
        } else if text_eq(value, "Shot") {
            Ok(CaptureKind::Shot)
        } else if text_eq(value, "File") {
            Ok(CaptureKind::File)
        } else if text_eq(value, "Note") {
            Ok(CaptureKind::Note)
        } else if text_eq(value, "Transcription") {
            Ok(CaptureKind::Transcription)
        } else {
            Err(StoreError::Decode(concat_str("unknown kind: ", value)))
        }
    }
}

/// Where the image of a `Shot` comes from.
#[derive(Debug, Clone, PartialEq, Eq)]
pub enum ShotSource {
    /// Image bytes, persisted as a blob file.
    Bytes { bytes: Vec<u8>, mime: String },
    /// An image already on disk, recorded by path.
    Path { source_path: String, mime: String },
}

/// What the caller hands to the store to create a Capture.
#[derive(Debug, Clone, PartialEq, Eq)]
pub enum CaptureInput {
    Note { text: String },
    Link { url: String, raw_text: String, title: Option<String> },
    Clip { text: String },
    Shot { source: ShotSource, width: Option<u32>, height: Option<u32> },
    File { source_path: String, mime: String, original_name: Option<String> },
}

/// The kind of Capture an input becomes.
pub open spec fn input_kind(input: CaptureInput) -> CaptureKind {
    match input {
        CaptureInput::Note { .. } => CaptureKind::Note,
        CaptureInput::Link { .. } => CaptureKind::Link,
        CaptureInput::Clip { .. } => CaptureKind::Clip,
        CaptureInput::Shot { .. } => CaptureKind::Shot,
        CaptureInput::File { .. } => CaptureKind::File,
    }
}

impl CaptureInput {
    /// The kind of Capture this input becomes.
    pub fn kind(&self) -> (k: CaptureKind)
        ensures
            k == input_kind(*self),
    {
        match self {
            CaptureInput::Note { .. } => CaptureKind::Note,
            CaptureInput::Link { .. } => CaptureKind::Link,
            CaptureInput::Clip { .. } => CaptureKind::Clip,
            CaptureInput::Shot { .. } => CaptureKind::Shot,
            CaptureInput::File { .. } => CaptureKind::File,
        }
    }
}

/// The kind-specific payload of a Capture: the JSON object of the row,
/// with each field present as text when the object holds it as a string
/// (and as a number for the image dimensions).
#[derive(Debug, Clone, PartialEq, Eq)]
pub struct Payload {
    pub text: Option<String>,
    pub url: Option<String>,
    pub raw_text: Option<String>,
    pub title: Option<String>,
    pub blob_path: Option<String>,
    pub source_path: Option<String>,
    pub mime: Option<String>,
    pub original_name: Option<String>,
    pub width: Option<u32>,
    pub height: Option<u32>,
}

impl Payload {
    /// A payload with no fields.
    pub fn empty() -> (p: Payload)
        ensures
            p.text is None && p.url is None && p.raw_text is None && p.title is None
                && p.blob_path is None && p.source_path is None && p.mime is None
                && p.original_name is None && p.width is None && p.height is None,
    {
        Payload {
            text: None,
            url: None,
            raw_text: None,
            title: None,
            blob_path: None,
            source_path: None,
            mime: None,
            original_name: None,
            width: None,
            height: None,
        }
    }
}

/// A row of the `captures` table.
#[derive(Debug, Clone, PartialEq, Eq)]
pub struct Capture {
    pub id: String,
    pub kind: CaptureKind,
    pub created_at: String,
    pub payload: Payload,
    pub source_app: Option<String>,
    pub starred: bool,
    pub deleted_at: Option<String>,
    pub read_at: Option<String>,
    pub source_title: Option<String>,
    pub source_url: Option<String>,
    /// The Destination the Capture is Routed to; `None` while in the Inbox.
    pub destination_id: Option<String>,
    /// When the Capture was last Routed; set and cleared with
    /// `destination_id`.
    pub routed_at: Option<String>,
}

/// Closed set of Destination kinds.
#[derive(Debug, Clone, Copy, PartialEq, Eq, Structural)]
pub enum DestinationKind {
    /// Routing only records the Destination.
    Label,
    /// Routing also sends a `kokobrain://capture` deep link.
    Kokobrain,
}

/// The name a Destination kind is stored and passed under.
pub open spec fn destination_kind_name(k: DestinationKind) -> Seq<char> {
    match k {
        DestinationKind::Label => "label"@,
        DestinationKind::Kokobrain => "kokobrain"@,
    }
}

impl DestinationKind {
    /// The name the kind is stored under.
    pub fn as_str(&self) -> (r: &'static str)
        ensures
            r@ == destination_kind_name(*self),
    {
        match self {
            DestinationKind::Label => "label",
            DestinationKind::Kokobrain => "kokobrain",
        }
    }

    /// The kind named `value`; `InvalidArgument("unknown destination kind:
    /// <value>")` for any other text.
    pub fn parse(value: &str) -> (r: Result<DestinationKind, StoreError>)
        ensures
            match r {
                Ok(k) => destination_kind_name(k) == value@,
                Err(e) => (forall|k: DestinationKind| destination_kind_name(k) != value@)
                    && e == StoreError::InvalidArgument(e->InvalidArgument_0)
                    && e->InvalidArgument_0@ == "unknown destination kind: "@ + value@,
            },
    {
        if text_eq(value, "label") {
            Ok(DestinationKind::Label)
        } else if text_eq(value, "kokobrain") {
            Ok(DestinationKind::Kokobrain)
        } else {
            Err(StoreError::InvalidArgument(concat_str("unknown destination kind: ", value)))
        }
    }
}

/// A row of the `destinations` table.
#[derive(Debug, Clone, PartialEq, Eq)]
pub struct Destination {
    pub id: String,
    pub name: String,
    /// Palette key; `None` when no color was picked.
    pub color: Option<String>,
    pub created_at: String,
    pub deleted_at: Option<String>,
    pub kind: DestinationKind,
    /// Kind-specific JSON configuration (the vault of a kokobrain
    /// Destination); `None` for a label.
    pub config: Option<String>,
}

/// The app and, for known browsers, the page a capture was taken from.
#[derive(Debug, Clone, PartialEq, Eq)]
pub struct CaptureContext {
    pub source_app: Option<String>,
    pub source_title: Option<String>,
    pub source_url: Option<String>,
}

impl Default for CaptureContext {
    fn default() -> (c: Self)
        ensures
            c.source_app is None && c.source_title is None && c.source_url is None,
    {
        CaptureContext { source_app: None, source_title: None, source_url: None }
    }
}

/// Clones an optional string.
pub fn clone_opt(s: &Option<String>) -> (r: Option<String>)
    ensures
        r == *s,
{
    match s {
        Some(x) => Some(x.clone()),
        None => None,
    }
}

// ---------------------------------------------------------------------------
// Payloads and blob names
// ---------------------------------------------------------------------------

/// The file extension a blob of the given mime is stored under.
pub open spec fn mime_extension(mime: Seq<char>) -> Seq<char> {
    if mime == "image/png"@ {
        "png"@
    } else if mime == "image/jpeg"@ {
        "jpg"@
    } else if mime == "image/gif"@ {
        "gif"@
    } else if mime == "image/webp"@ {
        "webp"@
    } else if mime == "image/heic"@ {
        "heic"@
    } else if mime == "image/tiff"@ {
        "tiff"@
    } else {
        "bin"@
    }
}

/// The extension of a blob of `mime`: `png`, `jpg`, `gif`, `webp`,
/// `heic` or `tiff` for those image types, `bin` otherwise.
pub fn extension_for_mime(mime: &str) -> (r: &'static str)
    ensures
        r@ == mime_extension(mime@),
{
    if text_eq(mime, "image/png") {
        "png"
    } else if text_eq(mime, "image/jpeg") {
        "jpg"
    } else if text_eq(mime, "image/gif") {
        "gif"
    } else if text_eq(mime, "image/webp") {
        "webp"
    } else if text_eq(mime, "image/heic") {
        "heic"
    } else if text_eq(mime, "image/tiff") {
        "tiff"
    } else {
        "bin"
    }
}

/// The file name of the blob of a Capture: `<id>.<ext>`.
pub fn blob_file_name(id: &str, mime: &str) -> (r: String)
    ensures
        r@ == id@ + "."@ + mime_extension(mime@),
{
    let s = concat_str(id, ".");
    let ext = extension_for_mime(mime);
    concat_str(s.as_str(), ext)
}

/// The payload recorded for an input. `blob_path` is where the bytes of a
/// `Shot { Bytes }` were written; it is not read for other inputs.
pub open spec fn payload_for(input: CaptureInput, blob_path: Option<String>) -> Payload {
    let e = Payload {
        text: None,
        url: None,
        raw_text: None,
        title: None,
        blob_path: None,
        source_path: None,
        mime: None,
        original_name: None,
        width: None,
        height: None,
    };
    match input {
        CaptureInput::Note { text } => Payload { text: Some(text), ..e },
        CaptureInput::Clip { text } => Payload { text: Some(text), ..e },
        CaptureInput::Link { url, raw_text, title } => Payload {
            url: Some(url),
            raw_text: Some(raw_text),
            title: title,
            ..e
        },
        CaptureInput::Shot { source, width, height } => match source {
            ShotSource::Bytes { mime, .. } => Payload {
                blob_path: blob_path,
                mime: Some(mime),
                width: width,
                height: height,
                ..e
            },
            ShotSource::Path { source_path, mime } => Payload {
                source_path: Some(source_path),
                mime: Some(mime),
                width: width,
                height: height,
                ..e
            },
        },
        CaptureInput::File { source_path, mime, original_name } => Payload {
            source_path: Some(source_path),
            mime: Some(mime),
            original_name: original_name,
            ..e
        },
    }
}

/// The payload of a saved input records what the input holds: the text
/// of a Note or Clip; the url, raw text and title of a Link; the path,
/// mime type and original name of a File; the mime type, size and either
/// the path on disk or the blob it was written to of a Shot.
pub proof fn lemma_payload_records_input(input: CaptureInput, blob_path: Option<String>)
    ensures
        input matches CaptureInput::Note { text } ==> payload_for(input, blob_path).text == Some(text),
        input matches CaptureInput::Clip { text } ==> payload_for(input, blob_path).text == Some(text),
        input matches CaptureInput::Link { url, raw_text, title } ==> {
            &&& payload_for(input, blob_path).url == Some(url)
            &&& payload_for(input, blob_path).raw_text == Some(raw_text)
            &&& payload_for(input, blob_path).title == title
        },
        input matches CaptureInput::File { source_path, mime, original_name } ==> {
            &&& payload_for(input, blob_path).source_path == Some(source_path)
            &&& payload_for(input, blob_path).mime == Some(mime)
            &&& payload_for(input, blob_path).original_name == original_name
        },
        input matches CaptureInput::Shot { source, width, height } ==> {
            &&& payload_for(input, blob_path).width == width
            &&& payload_for(input, blob_path).height == height
            &&& match source {
                ShotSource::Path { source_path, mime } => payload_for(input, blob_path).source_path
                    == Some(source_path) && payload_for(input, blob_path).mime == Some(mime),
                ShotSource::Bytes { mime, .. } => payload_for(input, blob_path).blob_path == blob_path
                    && payload_for(input, blob_path).mime == Some(mime),
            }
        },
{
}

/// The payload recorded for `input` (per kind: `text`; `url`, `raw_text`,
/// `title`; `blob_path` or `source_path` with `mime`, `width`, `height`;
/// `source_path`, `mime`, `original_name`).
pub fn build_payload(input: &CaptureInput, blob_path: Option<String>) -> (p: Payload)
    ensures
        p == payload_for(*input, blob_path),
{
    let e = Payload::empty();
    match input {
        CaptureInput::Note { text } => Payload { text: Some(text.clone()), ..e },
        CaptureInput::Clip { text } => Payload { text: Some(text.clone()), ..e },
        CaptureInput::Link { url, raw_text, title } => Payload {
            url: Some(url.clone()),
            raw_text: Some(raw_text.clone()),
            title: clone_opt(title),
            ..e
        },
        CaptureInput::Shot { source, width, height } => match source {
            ShotSource::Bytes { mime, .. } => Payload {
                blob_path: blob_path,
                mime: Some(mime.clone()),
                width: *width,
                height: *height,
                ..e
            },
            ShotSource::Path { source_path, mime } => Payload {
                source_path: Some(source_path.clone()),
                mime: Some(mime.clone()),
                width: *width,
                height: *height,
                ..e
            },
        },
        CaptureInput::File { source_path, mime, original_name } => Payload {
            source_path: Some(source_path.clone()),
            mime: Some(mime.clone()),
            original_name: clone_opt(original_name),
            ..e
        },
    }
}

// ---------------------------------------------------------------------------
// Full-text index
// ---------------------------------------------------------------------------

/// The text of an input that goes into the full-text index.
pub open spec fn searchable_text(input: CaptureInput) -> Seq<char> {
    match input {
        CaptureInput::Note { text } => text@,
        CaptureInput::Clip { text } => text@,
        CaptureInput::Link { url, raw_text, title } => {
            let a = if raw_text@ != url@ {
                url@ + " "@ + raw_text@
            } else {
                url@
            };
            match title {
                Some(t) => a + " "@ + t@,
                None => a,
            }
        },
        CaptureInput::File { source_path, original_name, .. } => match original_name {
            Some(n) => n@ + " "@ + source_path@,
            None => source_path@,
        },
        CaptureInput::Shot { source, .. } => match source {
            ShotSource::Path { source_path, .. } => source_path@,
            ShotSource::Bytes { .. } => Seq::empty(),
        },
    }
}

/// What an input carries is found in its index entry: a Note's or Clip's
/// whole text, a Link's url at the start, a File's path at the end and its
/// original name at the start, a Shot's path when it was taken from disk.
pub proof fn lemma_index_holds_input_text(input: CaptureInput)
    ensures
        input matches CaptureInput::Note { text } ==> searchable_text(input) == text@,
        input matches CaptureInput::Clip { text } ==> searchable_text(input) == text@,
        input matches CaptureInput::Link { url, .. } ==> url@.is_prefix_of(searchable_text(input)),
        input matches CaptureInput::File { source_path, original_name, .. } ==> {
            &&& source_path@.is_suffix_of(searchable_text(input))
            &&& original_name matches Some(n) ==> n@.is_prefix_of(searchable_text(input))
        },
        input matches CaptureInput::Shot { source: ShotSource::Path { source_path, .. }, .. }
            ==> searchable_text(input) == source_path@,
{
    match input {
        CaptureInput::Link { url, raw_text, title } => {
            let a = if raw_text@ != url@ { url@ + " "@ + raw_text@ } else { url@ };
            assert(url@.is_prefix_of(a)) by {
                assert(a.subrange(0, url@.len() as int) =~= url@);
            }
            match title {
                Some(t) => {
                    assert((a + " "@ + t@).subrange(0, url@.len() as int) =~= url@);
                },
                None => {},
            }
        },
        CaptureInput::File { source_path, original_name, .. } => {
            let st = searchable_text(input);
            match original_name {
                Some(n) => {
                    assert(st.subrange(0, n@.len() as int) =~= n@);
                    assert(st.subrange(st.len() - source_path@.len(), st.len() as int) =~= source_path@);
                },
                None => {
                    assert(st.subrange(0, st.len() as int) =~= source_path@);
                },
            }
        },
        _ => {},
    }
}

/// The indexable text of an input: the text of a Note or Clip; the url,
/// the raw text when it differs and the title of a Link; the original
/// name and path of a File; the path of a Shot taken from disk.
pub fn searchable_text_for_input(input: &CaptureInput) -> (r: String)
    ensures
        r@ == searchable_text(*input),
{
    match input {
        CaptureInput::Note { text } => text.clone(),
        CaptureInput::Clip { text } => text.clone(),
        CaptureInput::Link { url, raw_text, title } => {
            let mut s = url.clone();
            if !text_eq(raw_text.as_str(), url.as_str()) {
                s.append(" ");
                s.append(raw_text.as_str());
            }
            match title {
                Some(t) => {
                    s.append(" ");
                    s.append(t.as_str());
                },
                None => {},
            }
            s
        },
        CaptureInput::File { source_path, original_name, .. } => match original_name {
            Some(n) => {
                let mut s = n.clone();
                s.append(" ");
                s.append(source_path.as_str());
                s
            },
            None => source_path.clone(),
        },
        CaptureInput::Shot { source, .. } => match source {
            ShotSource::Path { source_path, .. } => source_path.clone(),
            ShotSource::Bytes { .. } => String::new(),
        },
    }
}

/// `s` with each non-empty context field appended, space-separated.
pub open spec fn with_context(s: Seq<char>, ctx: CaptureContext) -> Seq<char> {
    add_search_part(add_search_part(add_search_part(s, ctx.source_app), ctx.source_title), ctx.source_url)
}

/// `s` followed by `extra` when `extra` is a non-empty text.
pub open spec fn add_search_part(s: Seq<char>, extra: Option<String>) -> Seq<char> {
    match extra {
        Some(x) => if x@.len() == 0 {
            s
        } else if s.len() == 0 {
            x@
        } else {
            s + " "@ + x@
        },
        None => s,
    }
}

fn append_search_part(s: &mut String, extra: &Option<String>)
    ensures
        final(s)@ == add_search_part(old(s)@, *extra),
{
    match extra {
        Some(x) => {
            if x.as_str().unicode_len() > 0 {
                if s.as_str().unicode_len() > 0 {
                    s.append(" ");
                }
                s.append(x.as_str());
            }
        },
        None => {},
    }
}

/// The full-text index entry of a new Capture: its indexable text, then
/// the source app, title and url of its context when they are non-empty.
pub fn search_text_with_context(input: &CaptureInput, ctx: &CaptureContext) -> (r: String)
    ensures
        r@ == with_context(searchable_text(*input), *ctx),
{
    let mut s = searchable_text_for_input(input);
    append_search_part(&mut s, &ctx.source_app);
    append_search_part(&mut s, &ctx.source_title);
    append_search_part(&mut s, &ctx.source_url);
    s
}

/// Scanner state of `fts_tokens` after reading `s`: the finished tokens
/// and the one being read.
pub open spec fn fts_tokens_acc(s: Seq<char>) -> (Seq<Seq<char>>, Seq<char>)
    decreases s.len(),
{
    if s.len() == 0 {
        (Seq::empty(), Seq::empty())
    } else {
        let (ts, cur) = fts_tokens_acc(s.drop_last());
        let c = s.last();
        if !char_is_alphanumeric(c) {
            if cur.len() > 0 {
                (ts.push(cur), Seq::empty())
            } else {
                (ts, Seq::empty())
            }
        } else {
            (ts, cur.push(c))
        }
    }
}

/// The maximal runs of alphanumeric characters of `s`.
pub open spec fn fts_tokens(s: Seq<char>) -> Seq<Seq<char>> {
    let (ts, cur) = fts_tokens_acc(s);
    if cur.len() > 0 {
        ts.push(cur)
    } else {
        ts
    }
}

/// A search term is a non-empty run of alphanumeric characters.
pub open spec fn is_search_term(t: Seq<char>) -> bool {
    t.len() > 0 && forall|i: int| 0 <= i < t.len() ==> char_is_alphanumeric(#[trigger] t[i])
}

proof fn lemma_fts_tokens_acc(s: Seq<char>)
    ensures
        forall|k: int| 0 <= k < fts_tokens_acc(s).0.len() ==> is_search_term(#[trigger] fts_tokens_acc(s).0[k]),
        forall|i: int| 0 <= i < fts_tokens_acc(s).1.len() ==> char_is_alphanumeric(#[trigger] fts_tokens_acc(s).1[i]),
    decreases s.len(),
{
    if s.len() > 0 {
        lemma_fts_tokens_acc(s.drop_last());
        let (ts, cur) = fts_tokens_acc(s.drop_last());
        let c = s.last();
        if char_is_alphanumeric(c) {
            assert forall|i: int| 0 <= i < cur.push(c).len() implies char_is_alphanumeric(#[trigger] cur.push(c)[i]) by {
                if i < cur.len() {
                    assert(cur.push(c)[i] == cur[i]);
                }
            }
        } else if cur.len() > 0 {
            assert forall|k: int| 0 <= k < ts.push(cur).len() implies is_search_term(#[trigger] ts.push(cur)[k]) by {
                if k < ts.len() {
                    assert(ts.push(cur)[k] == ts[k]);
                }
            }
        }
    }
}

/// What reaches the full-text index is only search terms: every term of
/// a sanitised query is a non-empty run of alphanumeric characters, so no
/// character of the MATCH syntax (quotes, `:`, `/`, operators) survives.
pub proof fn lemma_fts_tokens_are_terms(s: Seq<char>)
    ensures
        forall|k: int| 0 <= k < fts_tokens(s).len() ==> is_search_term(#[trigger] fts_tokens(s)[k]),
{
    lemma_fts_tokens_acc(s);
    let (ts, cur) = fts_tokens_acc(s);
    if cur.len() > 0 {
        assert forall|k: int| 0 <= k < ts.push(cur).len() implies is_search_term(#[trigger] ts.push(cur)[k]) by {
            if k < ts.len() {
                assert(ts.push(cur)[k] == ts[k]);
            }
        }
    }
}

/// The tokens as prefix queries (`tok*`) joined by spaces.
pub open spec fn fts_expression(ts: Seq<Seq<char>>) -> Seq<char>
    decreases ts.len(),
{
    if ts.len() == 0 {
        Seq::empty()
    } else if ts.len() == 1 {
        ts[0] + "*"@
    } else {
        fts_expression(ts.drop_last()) + " "@ + ts.last() + "*"@
    }
}

/// The safe full-text MATCH expression for a user query: each run of
/// alphanumeric characters becomes a prefix term `tok*`, terms joined by
/// spaces (AND); `None` when the query has no such run.
pub fn build_fts_match(query: &str) -> (r: Option<String>)
    ensures
        match r {
            Some(m) => fts_tokens(query@).len() > 0 && m@ == fts_expression(fts_tokens(query@)),
            None => fts_tokens(query@).len() == 0,
        },
{
    let v = chars_of(query);
    let mut out = String::new();
    let mut count: usize = 0;  // number of finished tokens
    let mut cur = String::new();
    let mut i: usize = 0;
    while i < v.len()
        invariant
            i <= v.len(),
            fts_tokens_acc(v@.take(i as int)).0.len() == count,
            count <= i,
            out@ == fts_expression(fts_tokens_acc(v@.take(i as int)).0),
            cur@ == fts_tokens_acc(v@.take(i as int)).1,
        decreases v.len() - i,
    {
        assert(v@.take(i + 1).drop_last() =~= v@.take(i as int));
        let c = v[i];
        if !is_alphanumeric(c) {
            if cur.as_str().unicode_len() > 0 {
                let ghost ts = fts_tokens_acc(v@.take(i as int)).0;
                if count > 0 {
                    out.append(" ");
                }
                out.append(cur.as_str());
                out.append("*");
                assert(ts.push(cur@).drop_last() =~= ts);
                if count == 0 {
                    assert(out@ =~= fts_expression(ts.push(cur@)));
                } else {
                    assert(out@ =~= fts_expression(ts.push(cur@)));
                }
                count = count + 1;
                cur = String::new();
            }
        } else {
            push_char(&mut cur, c);
        }
        i = i + 1;
    }
    assert(v@.take(v.len() as int) =~= v@);
    if cur.as_str().unicode_len() > 0 {
        let ghost ts = fts_tokens_acc(v@).0;
        if count > 0 {
            out.append(" ");
        }
        out.append(cur.as_str());
        out.append("*");
        assert(ts.push(cur@).drop_last() =~= ts);
        assert(out@ =~= fts_expression(ts.push(cur@)));
        Some(out)
    } else if count > 0 {
        Some(out)
    } else {
        None
    }
}

// ---------------------------------------------------------------------------
// Destination names and routing checks
// ---------------------------------------------------------------------------

/// The color as stored: trimmed, `None` when blank.
pub open spec fn normalized_color(color: Option<Seq<char>>) -> Option<Seq<char>> {
    match color {
        Some(c) => if trim(c).len() == 0 {
            None
        } else {
            Some(trim(c))
        },
        None => None,
    }
}

/// Trims a user-supplied color and drops it when blank.
pub fn normalize_color(color: Option<&str>) -> (r: Option<String>)
    ensures
        r matches Some(c) ==> normalized_color(Some(color->0@)) == Some(c@),
        r is None ==> normalized_color(
            match color {
                Some(c) => Some(c@),
                None => None,
            },
        ) is None,
{
    match color {
        Some(c) => {
            let t = trim_chars(&chars_of(c));
            if t.len() == 0 {
                None
            } else {
                Some(string_of(&t))
            }
        },
        None => None,
    }
}

/// The name a Destination is stored under: the trimmed name, or
/// `InvalidArgument` when it is blank.
pub fn validate_destination_name(name: &str) -> (r: Result<String, StoreError>)
    ensures
        match r {
            Ok(n) => n@ == trim(name@) && n@.len() > 0,
            Err(e) => trim(name@).len() == 0 && e == StoreError::InvalidArgument(
                e->InvalidArgument_0,
            ) && e->InvalidArgument_0@ == "destination name must not be blank"@,
        },
{
    let t = trim_chars(&chars_of(name));
    if t.len() == 0 {
        Err(StoreError::InvalidArgument(String::from_str("destination name must not be blank")))
    } else {
        Ok(string_of(&t))
    }
}

/// Whether a Capture may be Routed to the Destination found under
/// `destination_id`: `NotFound(destination_id)` when there is no such row,
/// `InvalidArgument` when it is soft-deleted.
pub fn check_route_target(destination: &Option<Destination>, destination_id: &str) -> (r: Result<
    (),
    StoreError,
>)
    ensures
        match destination {
            None => r == Err::<(), StoreError>(StoreError::NotFound(r->Err_0->NotFound_0))
                && r->Err_0->NotFound_0@ == destination_id@,
            Some(d) => match d.deleted_at {
                Some(_) => r is Err && r->Err_0 is InvalidArgument && r->Err_0->InvalidArgument_0@
                    == "cannot route to soft-deleted destination "@ + destination_id@,
                None => r is Ok,
            },
        },
{
    match destination {
        None => Err(StoreError::NotFound(String::from_str(destination_id))),
        Some(d) => match &d.deleted_at {
            Some(_) => Err(
                StoreError::InvalidArgument(
                    concat_str("cannot route to soft-deleted destination ", destination_id),
                ),
            ),
            None => Ok(()),
        },
    }
}

/// Different kinds are stored under different names.
pub proof fn lemma_kind_names_distinct(a: CaptureKind, b: CaptureKind)
    ensures
        kind_name(a) == kind_name(b) ==> a == b,
{
    reveal_strlit("Link");
    reveal_strlit("Clip");
    reveal_strlit("Shot");
    reveal_strlit("File");
    reveal_strlit("Note");
    reveal_strlit("Transcription");
    assert(kind_name(a).len() > 0 && kind_name(b).len() > 0);
    if kind_name(a) == kind_name(b) {
        assert(kind_name(a)[0] == kind_name(b)[0]);
        assert(a == b);
    }
}

/// Reading back the name a kind is stored under gives the kind.
pub proof fn lemma_kind_name_round_trip(k: CaptureKind, r: CaptureKind)
    requires
        kind_name(r) == kind_name(k),
    ensures
        r == k,
{
    lemma_kind_names_distinct(k, r);
}

// ---------------------------------------------------------------------------
// Rows
// ---------------------------------------------------------------------------

/// A row of the `captures` table as read from the database, with the
/// payload column decoded from JSON (`Err` with the decoder's message when
/// it is not a payload object).
#[derive(Debug, PartialEq, Eq)]
pub struct CaptureRow {
    pub id: String,
    pub kind: String,
    pub created_at: String,
    pub payload: Result<Payload, String>,
    pub source_app: Option<String>,
    pub starred: i64,
    pub deleted_at: Option<String>,
    pub read_at: Option<String>,
    pub source_title: Option<String>,
    pub source_url: Option<String>,
    pub destination_id: Option<String>,
    pub routed_at: Option<String>,
}

/// The Capture of a row: the kind is read from its name (`Decode` for an
/// unknown name), then the payload (`Decode` with the decoder's message);
/// `starred` is any non-zero value.
pub fn capture_from_row(row: CaptureRow) -> (r: Result<Capture, StoreError>)
    ensures
        match r {
            Ok(c) => kind_name(c.kind) == row.kind@ && row.payload == Ok::<Payload, String>(
                c.payload,
            ) && c.id == row.id && c.created_at == row.created_at && c.source_app
                == row.source_app && c.starred == (row.starred != 0) && c.deleted_at
                == row.deleted_at && c.read_at == row.read_at && c.source_title
                == row.source_title && c.source_url == row.source_url && c.destination_id
                == row.destination_id && c.routed_at == row.routed_at,
            Err(e) => if forall|k: CaptureKind| kind_name(k) != row.kind@ {
                e == StoreError::Decode(e->Decode_0) && e->Decode_0@ == "unknown kind: "@
                    + row.kind@
            } else {
                row.payload == Err::<Payload, String>(e->Decode_0) && e == StoreError::Decode(
                    e->Decode_0,
                )
            },
        },
{
    let kind = match CaptureKind::parse(row.kind.as_str()) {
        Ok(k) => k,
        Err(e) => return Err(e),
    };
    let payload = match row.payload {
        Ok(p) => p,
        Err(m) => return Err(StoreError::Decode(m)),
    };
    Ok(Capture {
        id: row.id,
        kind,
        created_at: row.created_at,
        payload,
        source_app: row.source_app,
        starred: row.starred != 0,
        deleted_at: row.deleted_at,
        read_at: row.read_at,
        source_title: row.source_title,
        source_url: row.source_url,
        destination_id: row.destination_id,
        routed_at: row.routed_at,
    })
}

/// The Capture a save creates: a fresh id and creation time, the kind of
/// the input, its payload, the context it was taken in; not starred, not
/// read, not deleted, in the Inbox.
pub fn new_capture(id: String, created_at: String, input: &CaptureInput, payload: Payload, ctx: CaptureContext) -> (r: Capture)
    ensures
        r.id == id && r.created_at == created_at && r.kind == input_kind(*input) && r.payload
            == payload && r.source_app == ctx.source_app && r.source_title == ctx.source_title
            && r.source_url == ctx.source_url && !r.starred && r.deleted_at is None
            && r.read_at is None && r.destination_id is None && r.routed_at is None,
{
    Capture {
        id,
        kind: input.kind(),
        created_at,
        payload,
        source_app: ctx.source_app,
        starred: false,
        deleted_at: None,
        read_at: None,
        source_title: ctx.source_title,
        source_url: ctx.source_url,
        destination_id: None,
        routed_at: None,
    }
}

// ---------------------------------------------------------------------------
// Outcomes of writes
// ---------------------------------------------------------------------------

/// Why a database write failed: a UNIQUE constraint (the live name of a
/// Destination), or anything else with the database's message.
#[derive(Debug, Clone, PartialEq, Eq)]
pub enum WriteFailure {
    UniqueViolation,
    Other(String),
}

/// A write to one row by id: `NotFound(id)` when no row changed.
pub fn row_changed(changed: usize, id: &str) -> (r: Result<(), StoreError>)
    ensures
        changed == 0 ==> (r matches Err(StoreError::NotFound(m)) && m@ == id@),
        changed > 0 ==> r is Ok,
{
    if changed == 0 {
        Err(StoreError::NotFound(String::from_str(id)))
    } else {
        Ok(())
    }
}

/// The outcome of inserting or renaming a Destination to `name`: a taken
/// name is `DestinationNameConflict(name)`, any other failure `Db`; a
/// rename that changed no row is `NotFound(id)`.
pub fn destination_write_outcome(written: Result<usize, WriteFailure>, id: &str, name: &str) -> (r:
    Result<(), StoreError>)
    ensures
        match written {
            Ok(0) => r matches Err(StoreError::NotFound(m)) && m@ == id@,
            Ok(_) => r is Ok,
            Err(WriteFailure::UniqueViolation) => r matches Err(StoreError::DestinationNameConflict(n))
                && n@ == name@,
            Err(WriteFailure::Other(m)) => r == Err::<(), StoreError>(StoreError::Db(m)),
        },
{
    match written {
        Ok(n) => row_changed(n, id),
        Err(WriteFailure::UniqueViolation) => Err(StoreError::DestinationNameConflict(String::from_str(name))),
        Err(WriteFailure::Other(m)) => Err(StoreError::Db(m)),
    }
}

/// The outcome of soft-deleting a Destination: deleting one that is
/// already deleted changes no row and is not an error; one that does not
/// exist (`exists`, looked up after a write that changed nothing) is
/// `NotFound(id)`.
pub fn destination_delete_outcome(changed: usize, exists: bool, id: &str) -> (r: Result<(), StoreError>)
    ensures
        (changed == 0 && !exists) ==> (r matches Err(StoreError::NotFound(m)) && m@ == id@),
        (changed > 0 || exists) ==> r is Ok,
{
    if changed == 0 && !exists {
        Err(StoreError::NotFound(String::from_str(id)))
    } else {
        Ok(())
    }
}

/// The outcome of restoring a Destination: restoring one that is live
/// changes no row and is not an error, a missing one is `NotFound(id)`;
/// a restore whose name is now held by a live Destination is
/// `DestinationNameConflict` with the restored row's name (`found_name`,
/// looked up after the failure), or its id when that row is gone.
pub fn destination_restore_outcome(
    restored: Result<usize, WriteFailure>,
    exists: bool,
    found_name: Option<String>,
    id: &str,
) -> (r: Result<(), StoreError>)
    ensures
        match restored {
            Ok(0) => if exists {
                r is Ok
            } else {
                r matches Err(StoreError::NotFound(m)) && m@ == id@
            },
            Ok(_) => r is Ok,
            Err(WriteFailure::UniqueViolation) => r matches Err(
                StoreError::DestinationNameConflict(n),
            ) && n@ == match found_name {
                Some(f) => f@,
                None => id@,
            },
            Err(WriteFailure::Other(m)) => r == Err::<(), StoreError>(StoreError::Db(m)),
        },
{
    match restored {
        Ok(n) => destination_delete_outcome(n, exists, id),
        Err(WriteFailure::UniqueViolation) => Err(
            StoreError::DestinationNameConflict(
                match found_name {
                    Some(f) => f,
                    None => String::from_str(id),
                },
            ),
        ),
        Err(WriteFailure::Other(m)) => Err(StoreError::Db(m)),
    }
}

/// The Destination a successful insert created.
pub fn new_destination(
    id: String,
    name: String,
    color: Option<String>,
    created_at: String,
    kind: DestinationKind,
    config: Option<String>,
) -> (r: Destination)
    ensures
        r == (Destination { id, name, color, created_at, deleted_at: None, kind, config }),
{
    Destination { id, name, color, created_at, deleted_at: None, kind, config }
}

// ---------------------------------------------------------------------------
// Paths
// ---------------------------------------------------------------------------

/// `base` joined with the relative component `part` (`PathBuf::push`): a
/// `/` goes between them unless `base` is empty or already ends with one.
pub open spec fn path_join(base: Seq<char>, part: Seq<char>) -> Seq<char> {
    if base.len() == 0 || base.last() == '/' {
        base + part
    } else {
        base + seq!['/'] + part
    }
}

/// Executable `path_join`.
pub fn join_path(base: &str, part: &str) -> (r: String)
    ensures
        r@ == path_join(base@, part@),
{
    let v = chars_of(base);
    let mut s = String::from_str(base);
    if v.len() > 0 && v[v.len() - 1] != '/' {
        crate::text::push_char(&mut s, '/');
    }
    s.append(part);
    s
}

/// The folder of the application's data under the home directory.
pub const APP_SUPPORT_DIR: &'static str = "Library/Application Support/com.koko.quick-capture";

/// The file name of the database.
pub const DB_FILE_NAME: &'static str = "captures.db";

/// Where the database lives: `~/Library/Application Support/
/// com.koko.quick-capture/captures.db`; an `Io` error when the home
/// directory is unknown.
pub fn default_db_path(home: Option<&str>) -> (r: Result<String, StoreError>)
    ensures
        match home {
            Some(h) => r matches Ok(p) && p@ == path_join(path_join(h@, APP_SUPPORT_DIR@), DB_FILE_NAME@),
            None => r matches Err(StoreError::Io(m)) && m@ == "HOME env var not set"@,
        },
{
    match home {
        Some(h) => {
            let dir = join_path(h, APP_SUPPORT_DIR);
            Ok(join_path(dir.as_str(), DB_FILE_NAME))
        },
        None => Err(StoreError::Io(String::from_str("HOME env var not set"))),
    }
}

/// Different Destination kinds are stored under different names, so
/// reading back the name a kind is stored under gives the kind.
pub proof fn lemma_destination_kind_names_distinct(a: DestinationKind, b: DestinationKind)
    ensures
        destination_kind_name(a) == destination_kind_name(b) ==> a == b,
{
    reveal_strlit("label");
    reveal_strlit("kokobrain");
    if destination_kind_name(a) == destination_kind_name(b) {
        assert(destination_kind_name(a)[0] == destination_kind_name(b)[0]);
    }
}

} // verus!
