//! The decisions behind the application's commands: what a Note saves,
//! which clipboard inputs are saved, what a reveal asks of the shell, how
//! a browser's active tab becomes the context of a capture, and the
//! settings the commands read and write. Store access, windows and event
//! emission are done by the application.

use vstd::prelude::*;
use crate::kokobrain::{build_capture_uri, build_error_message, capture_uri, uri_result_view};
use crate::shell::{answer_view, call_view, result_text, Shell, ShellCall};
use crate::store::{
    destination_kind_name, input_kind, payload_for, store_error_message, text_eq, Capture,
    CaptureContext, CaptureInput, CaptureKind, Destination, DestinationKind, Payload,
    ShotSource, StoreError,
};
use crate::text::{chars_of, opt_view, slice_chars, string_of, trim, trim_chars};
use crate::audio::{DeviceType, SelectedDevice};
use crate::wikilink::{folder_error_message, FolderError, PersonEntry};
use crate::transcription::DEFAULT_LANGUAGE;
use crate::recording::texts_view;
use vstd::string::StringExecFns;

verus! {

/// The payload of the `captures:changed` event sent on a mutation: the
/// id of the Capture and what happened to it (`starred`, `deleted`,
/// `routed`, `unrouted`).
pub struct MutationNotice<'a> {
    pub id: &'a str,
    pub kind: &'static str,
}

// ---------------------------------------------------------------------------
// Notes
// ---------------------------------------------------------------------------

/// The input saved for a Note: the text as typed. A text that is empty
/// once trimmed is refused with `note text is empty`.
pub fn note_input(text: &str) -> (r: Result<CaptureInput, String>)
    ensures
        r is Err <==> trim(text@).len() == 0,
        r matches Err(m) ==> m@ == "note text is empty"@,
        r matches Ok(i) ==> i matches CaptureInput::Note { text: t } && t@ == text@,
{
    let trimmed = trim_chars(&chars_of(text));
    if trimmed.len() == 0 {
        return Err(String::from_str("note text is empty"));
    }
    Ok(CaptureInput::Note { text: String::from_str(text) })
}

// ---------------------------------------------------------------------------
// Clipboard duplicates
// ---------------------------------------------------------------------------

/// What makes a stored Capture a duplicate: its kind, tagged 0 to 4 for
/// Clip, Note, Link, File and Shot, with the text, url or source path of
/// its payload. `None` when the payload lacks that field, and for a
/// Transcription, which is never compared.
pub open spec fn capture_key(kind: CaptureKind, p: Payload) -> Option<(int, Seq<char>)> {
    let (tag, field): (int, Option<String>) = match kind {
        CaptureKind::Clip => (0, p.text),
        CaptureKind::Note => (1, p.text),
        CaptureKind::Link => (2, p.url),
        CaptureKind::File => (3, p.source_path),
        CaptureKind::Shot => (4, p.source_path),
        CaptureKind::Transcription => (5, None),
    };
    match field {
        Some(f) => Some((tag, f@)),
        None => None,
    }
}

/// The same key for an input about to be saved; `None` for image bytes,
/// which are never compared.
pub open spec fn input_key(i: CaptureInput) -> Option<(int, Seq<char>)> {
    match i {
        CaptureInput::Clip { text } => Some((0, text@)),
        CaptureInput::Note { text } => Some((1, text@)),
        CaptureInput::Link { url, .. } => Some((2, url@)),
        CaptureInput::File { source_path, .. } => Some((3, source_path@)),
        CaptureInput::Shot { source, .. } => match source {
            ShotSource::Path { source_path, .. } => Some((4, source_path@)),
            ShotSource::Bytes { .. } => None,
        },
    }
}

/// `new` carries the payload of the stored Capture `prev`: same kind and
/// same text (Clip, Note), url (Link) or source path (File, Shot from a
/// path).
pub open spec fn duplicates(prev: Capture, new: CaptureInput) -> bool {
    input_key(new) is Some && capture_key(prev.kind, prev.payload) == input_key(new)
}

/// The Capture saved for an input has the key of the input, whatever blob
/// path it was given.
pub proof fn lemma_saved_capture_key(i: CaptureInput, blob_path: Option<String>)
    ensures
        capture_key(input_kind(i), payload_for(i, blob_path)) == input_key(i),
{
}

/// `o` holds the text `s`.
fn holds_text(o: &Option<String>, s: &str) -> (r: bool)
    ensures
        r == (opt_view(*o) == Some(s@)),
{
    match o {
        Some(t) => text_eq(t.as_str(), s),
        None => false,
    }
}

/// Whether saving `new` would repeat the most recent Capture `prev`.
/// Image bytes are never duplicates.
pub fn is_clipboard_duplicate(prev: &Capture, new: &CaptureInput) -> (r: bool)
    ensures
        r == duplicates(*prev, *new),
{
    match (prev.kind, new) {
        (CaptureKind::Clip, CaptureInput::Clip { text }) => holds_text(&prev.payload.text, text.as_str()),
        (CaptureKind::Note, CaptureInput::Note { text }) => holds_text(&prev.payload.text, text.as_str()),
        (CaptureKind::Link, CaptureInput::Link { url, .. }) => holds_text(&prev.payload.url, url.as_str()),
        (CaptureKind::File, CaptureInput::File { source_path, .. }) => holds_text(
            &prev.payload.source_path,
            source_path.as_str(),
        ),
        (CaptureKind::Shot, CaptureInput::Shot { source: ShotSource::Path { source_path, .. }, .. }) => {
            holds_text(&prev.payload.source_path, source_path.as_str())
        },
        _ => false,
    }
}

/// The inputs of one clipboard read that are saved, in order, given the
/// key of the most recent Capture: an input is skipped when it has the
/// key of the Capture saved just before it.
pub open spec fn inputs_to_save(last: Option<(int, Seq<char>)>, inputs: Seq<CaptureInput>) -> Seq<
    CaptureInput,
>
    decreases inputs.len(),
{
    if inputs.len() == 0 {
        Seq::empty()
    } else {
        let x = inputs[0];
        if input_key(x) is Some && input_key(x) == last {
            inputs_to_save(last, inputs.drop_first())
        } else {
            seq![x] + inputs_to_save(input_key(x), inputs.drop_first())
        }
    }
}

/// The key of an optional most recent Capture.
pub open spec fn latest_key(latest: Option<Capture>) -> Option<(int, Seq<char>)> {
    match latest {
        Some(c) => capture_key(c.kind, c.payload),
        None => None,
    }
}

/// Which of the inputs of one clipboard read are saved, given the most
/// recent Capture: a run of equal payloads saves once, and an input equal
/// to `latest` is not saved again.
pub fn clipboard_inputs_to_save(latest: Option<&Capture>, inputs: Vec<CaptureInput>) -> (r: Vec<
    CaptureInput,
>)
    ensures
        r@ == inputs_to_save(
            match latest {
                Some(c) => capture_key(c.kind, c.payload),
                None => None,
            },
            inputs@,
        ),
{
    let ghost last0 = match latest {
        Some(c) => capture_key(c.kind, c.payload),
        None => None,
    };
    let mut last_key: Option<CaptureInput> = None;
    let mut have_latest: bool = latest.is_some();
    let mut out: Vec<CaptureInput> = Vec::new();
    let mut rest = inputs;
    let ghost mut last: Option<(int, Seq<char>)> = last0;
    while rest.len() > 0
        invariant
            last0 == match latest {
                Some(c) => capture_key(c.kind, c.payload),
                None => None,
            },
            out@ + inputs_to_save(last, rest@) == inputs_to_save(last0, inputs@),
            have_latest ==> last_key is None && latest is Some && last == last0,
            !have_latest ==> match last_key {
                Some(k) => last == input_key(k),
                None => last is None,
            },
        decreases rest.len(),
    {
        let ghost before = rest@;
        let x = rest.remove(0);
        assert(before.drop_first() =~= rest@);
        assert(x == before[0]);
        let dup = if have_latest {
            match latest {
                Some(c) => is_clipboard_duplicate(c, &x),
                None => false,
            }
        } else {
            match &last_key {
                Some(k) => same_key(k, &x),
                None => false,
            }
        };
        if dup {
            assert(inputs_to_save(last, before) == inputs_to_save(last, rest@));
        } else {
            let ghost xv = x;
            assert(inputs_to_save(last, before) =~= seq![xv] + inputs_to_save(input_key(xv), rest@));
            let kept = copy_key(&x);
            out.push(x);
            last_key = Some(kept);
            have_latest = false;
            proof {
                last = input_key(xv);
            }
            assert(out@ + inputs_to_save(last, rest@) =~= inputs_to_save(last0, inputs@));
        }
    }
    out
}

/// An input with the same key as `i` (the text or path that makes the key,
/// and nothing more).
fn copy_key(i: &CaptureInput) -> (r: CaptureInput)
    ensures
        input_key(r) == input_key(*i),
{
    match i {
        CaptureInput::Clip { text } => CaptureInput::Clip { text: text.clone() },
        CaptureInput::Note { text } => CaptureInput::Note { text: text.clone() },
        CaptureInput::Link { url, .. } => CaptureInput::Link {
            url: url.clone(),
            raw_text: String::new(),
            title: None,
        },
        CaptureInput::File { source_path, .. } => CaptureInput::File {
            source_path: source_path.clone(),
            mime: String::new(),
            original_name: None,
        },
        CaptureInput::Shot { source, .. } => match source {
            ShotSource::Path { source_path, .. } => CaptureInput::Shot {
                source: ShotSource::Path { source_path: source_path.clone(), mime: String::new() },
                width: None,
                height: None,
            },
            ShotSource::Bytes { .. } => CaptureInput::Shot {
                source: ShotSource::Bytes { bytes: Vec::new(), mime: String::new() },
                width: None,
                height: None,
            },
        },
    }
}

/// `b` has a key, and it is the key of `a`.
fn same_key(a: &CaptureInput, b: &CaptureInput) -> (r: bool)
    ensures
        r == (input_key(*b) is Some && input_key(*b) == input_key(*a)),
{
    match (a, b) {
        (CaptureInput::Clip { text: x }, CaptureInput::Clip { text: y }) => text_eq(x.as_str(), y.as_str()),
        (CaptureInput::Note { text: x }, CaptureInput::Note { text: y }) => text_eq(x.as_str(), y.as_str()),
        (CaptureInput::Link { url: x, .. }, CaptureInput::Link { url: y, .. }) => text_eq(x.as_str(), y.as_str()),
        (CaptureInput::File { source_path: x, .. }, CaptureInput::File { source_path: y, .. }) => text_eq(
            x.as_str(),
            y.as_str(),
        ),
        (
            CaptureInput::Shot { source: ShotSource::Path { source_path: x, .. }, .. },
            CaptureInput::Shot { source: ShotSource::Path { source_path: y, .. }, .. },
        ) => text_eq(x.as_str(), y.as_str()),
        _ => false,
    }
}

/// No two inputs saved one after the other carry the same payload, and
/// the first one saved does not repeat the most recent Capture.
pub proof fn lemma_no_repeated_save(last: Option<(int, Seq<char>)>, inputs: Seq<CaptureInput>)
    ensures
        forall|i: int|
            #![trigger inputs_to_save(last, inputs)[i]]
            0 <= i < inputs_to_save(last, inputs).len() ==> !(input_key(
                inputs_to_save(last, inputs)[i],
            ) is Some && input_key(inputs_to_save(last, inputs)[i]) == (if i == 0 {
                last
            } else {
                input_key(inputs_to_save(last, inputs)[i - 1])
            })),
    decreases inputs.len(),
{
    if inputs.len() > 0 {
        let x = inputs[0];
        let rest = inputs.drop_first();
        lemma_no_repeated_save(last, rest);
        lemma_no_repeated_save(input_key(x), rest);
        let r = inputs_to_save(last, inputs);
        if input_key(x) is Some && input_key(x) == last {
        } else {
            let t = inputs_to_save(input_key(x), rest);
            assert forall|i: int| 0 <= i < r.len() implies #[trigger] r[i] == r[i] && !(input_key(r[i]) is Some && input_key(r[i])
                == (if i == 0 {
                last
            } else {
                input_key(r[i - 1])
            })) by {
                if i > 0 {
                    assert(r[i] == t[i - 1]);
                    if i > 1 {
                        assert(r[i - 1] == t[i - 2]);
                    }
                }
            }
        }
    }
}

/// The key of the most recent Capture once the inputs of a read are saved
/// behind a most recent Capture of key `last`: that of the last input
/// saved, or `last` when none was.
pub open spec fn key_after_read(last: Option<(int, Seq<char>)>, inputs: Seq<CaptureInput>) -> Option<
    (int, Seq<char>),
> {
    let saved = inputs_to_save(last, inputs);
    if saved.len() > 0 {
        input_key(saved.last())
    } else {
        last
    }
}

/// A read whose inputs all carry the key `k` saves its first input, or
/// nothing when `k` is already the most recent key.
proof fn lemma_one_key_read(last: Option<(int, Seq<char>)>, inputs: Seq<CaptureInput>, k: (int, Seq<char>))
    requires
        forall|i: int| 0 <= i < inputs.len() ==> input_key(#[trigger] inputs[i]) == Some(k),
    ensures
        inputs_to_save(last, inputs) == (if inputs.len() == 0 || last == Some(k) {
            Seq::<CaptureInput>::empty()
        } else {
            seq![inputs[0]]
        }),
    decreases inputs.len(),
{
    if inputs.len() > 0 {
        let rest = inputs.drop_first();
        assert forall|i: int| 0 <= i < rest.len() implies input_key(#[trigger] rest[i]) == Some(k) by {
            assert(rest[i] == inputs[i + 1]);
        }
        assert(input_key(inputs[0]) == Some(k));
        lemma_one_key_read(Some(k), rest, k);
        if last != Some(k) {
            assert(seq![inputs[0]] + Seq::<CaptureInput>::empty() =~= seq![inputs[0]]);
        }
    }
}

/// Reading the same clipboard twice in a row, when everything it holds
/// has one key (one text, one link, one image file), saves nothing the
/// second time.
pub proof fn lemma_second_read_saves_nothing(
    last: Option<(int, Seq<char>)>,
    inputs: Seq<CaptureInput>,
    k: (int, Seq<char>),
)
    requires
        forall|i: int| 0 <= i < inputs.len() ==> input_key(#[trigger] inputs[i]) == Some(k),
    ensures
        inputs_to_save(key_after_read(last, inputs), inputs).len() == 0,
{
    lemma_one_key_read(last, inputs, k);
    if inputs.len() > 0 {
        assert(input_key(inputs[0]) == Some(k));
        lemma_one_key_read(Some(k), inputs, k);
    }
}

// ---------------------------------------------------------------------------
// Destinations
// ---------------------------------------------------------------------------

/// The kind named by the optional `kind` field of a request: `Label` when
/// absent, else the kind with that name, or the message of the store's
/// `InvalidArgument` for an unknown name.
pub fn parse_destination_kind(kind: Option<&str>) -> (r: Result<DestinationKind, String>)
    ensures
        kind is None ==> r == Ok::<DestinationKind, String>(DestinationKind::Label),
        kind matches Some(v) ==> match r {
            Ok(k) => destination_kind_name(k) == v@,
            Err(m) => (forall|k: DestinationKind| destination_kind_name(k) != v@) && m@
                == "invalid argument: "@ + ("unknown destination kind: "@ + v@),
        },
{
    match kind {
        None => Ok(DestinationKind::Label),
        Some(value) => match DestinationKind::parse(value) {
            Ok(k) => Ok(k),
            Err(e) => Err(e.to_message()),
        },
    }
}

/// Routing refuses a deleted Capture, before anything else is looked up.
pub fn check_capture_live(capture: &Capture, capture_id: &str) -> (r: Result<(), String>)
    ensures
        r is Ok <==> capture.deleted_at is None,
        r matches Err(m) ==> m@ == "capture is deleted: "@ + capture_id@,
{
    if capture.deleted_at.is_some() {
        Err(crate::store::concat_str("capture is deleted: ", capture_id))
    } else {
        Ok(())
    }
}

/// The `kokobrain://capture` link sent when routing a Capture to a
/// kokobrain Destination: refused for a deleted Capture, else the link
/// built from the Capture and the Destination, or the message of the
/// build error.
pub fn kokobrain_route_uri(capture: &Capture, destination: &Destination, capture_id: &str) -> (r:
    Result<String, String>)
    ensures
        capture.deleted_at is Some ==> (r matches Err(m) && m@ == "capture is deleted: "@ + capture_id@),
        capture.deleted_at is None ==> match capture_uri(*capture, *destination) {
            Ok(u) => r matches Ok(s) && s@ == u,
            Err(e) => r matches Err(m) && exists|b: crate::kokobrain::BuildError|
                uri_result_view(Err(b)) == Err::<Seq<char>, (int, Seq<char>)>(e) && m@
                    == build_error_message(b),
        },
{
    if capture.deleted_at.is_some() {
        return Err(crate::store::concat_str("capture is deleted: ", capture_id));
    }
    match build_capture_uri(capture, destination) {
        Ok(u) => Ok(u),
        Err(b) => Err(b.to_message()),
    }
}

// ---------------------------------------------------------------------------
// Shell requests
// ---------------------------------------------------------------------------

/// Asks `shell` to open `url` in the default browser; the result is the
/// shell's answer, an error being its message.
pub fn open_link_with<S: Shell + ?Sized>(shell: &mut S, url: &str) -> (r: Result<(), String>)
    ensures
        final(shell).requested() == old(shell).requested().push((0, url@)),
        final(shell).answered().len() == old(shell).answered().len() + 1,
        final(shell).answered().drop_last() == old(shell).answered(),
        result_text(r) == answer_view(final(shell).answered().last()),
{
    match shell.open_in_browser(url) {
        Ok(()) => Ok(()),
        Err(e) => Err(e.to_message()),
    }
}

/// What revealing a Capture asks of the shell: open a Link's url in the
/// browser, reveal a File's source path, reveal a Shot's source path or
/// else open its blob; a Clip, a Note or a Transcription has nothing to
/// reveal.
pub open spec fn reveal_request(c: Capture) -> Result<(int, Seq<char>), Seq<char>> {
    match c.kind {
        CaptureKind::Link => match c.payload.url {
            Some(u) => Ok((0, u@)),
            None => Err("Link capture missing url"@),
        },
        CaptureKind::File => match c.payload.source_path {
            Some(p) => Ok((1, p@)),
            None => Err("File capture missing source_path"@),
        },
        CaptureKind::Shot => match c.payload.source_path {
            Some(p) => Ok((1, p@)),
            None => match c.payload.blob_path {
                Some(b) => Ok((2, b@)),
                None => Err("Shot capture missing both source_path and blob_path"@),
            },
        },
        CaptureKind::Clip => Err("cannot reveal Clip capture"@),
        CaptureKind::Note => Err("cannot reveal Note capture"@),
        CaptureKind::Transcription => Err("cannot reveal Transcription capture"@),
    }
}

/// The shell call that reveals `capture`, or why there is none.
pub fn reveal_call(capture: &Capture) -> (r: Result<ShellCall, String>)
    ensures
        match reveal_request(*capture) {
            Ok(v) => r matches Ok(call) && call_view(call) == v,
            Err(m) => r matches Err(s) && s@ == m,
        },
{
    match capture.kind {
        CaptureKind::Link => match &capture.payload.url {
            Some(u) => Ok(ShellCall::OpenInBrowser(u.clone())),
            None => Err(String::from_str("Link capture missing url")),
        },
        CaptureKind::File => match &capture.payload.source_path {
            Some(p) => Ok(ShellCall::RevealInFinder(p.clone())),
            None => Err(String::from_str("File capture missing source_path")),
        },
        CaptureKind::Shot => match &capture.payload.source_path {
            Some(p) => Ok(ShellCall::RevealInFinder(p.clone())),
            None => match &capture.payload.blob_path {
                Some(b) => Ok(ShellCall::OpenPath(b.clone())),
                None => Err(String::from_str("Shot capture missing both source_path and blob_path")),
            },
        },
        CaptureKind::Clip => Err(String::from_str("cannot reveal Clip capture")),
        CaptureKind::Note => Err(String::from_str("cannot reveal Note capture")),
        CaptureKind::Transcription => Err(String::from_str("cannot reveal Transcription capture")),
    }
}

/// Asks `shell` for one call; an error is the shell's message.
pub fn perform_call<S: Shell + ?Sized>(shell: &mut S, call: &ShellCall) -> (r: Result<(), String>)
    ensures
        final(shell).requested() == old(shell).requested().push(call_view(*call)),
        final(shell).answered().len() == old(shell).answered().len() + 1,
        final(shell).answered().drop_last() == old(shell).answered(),
        result_text(r) == answer_view(final(shell).answered().last()),
{
    let res = match call {
        ShellCall::OpenInBrowser(u) => shell.open_in_browser(u.as_str()),
        ShellCall::RevealInFinder(p) => shell.reveal_in_finder(p.as_str()),
        ShellCall::OpenPath(p) => shell.open_path(p.as_str()),
    };
    match res {
        Ok(()) => Ok(()),
        Err(e) => Err(e.to_message()),
    }
}

/// Reveals `capture` through `shell`: one request when the Capture has
/// something to reveal, none otherwise.
pub fn reveal_capture<S: Shell + ?Sized>(shell: &mut S, capture: &Capture) -> (r: Result<(), String>)
    ensures
        match reveal_request(*capture) {
            Ok(v) => final(shell).requested() == old(shell).requested().push(v)
                && final(shell).answered().len() == old(shell).answered().len() + 1
                && final(shell).answered().drop_last() == old(shell).answered()
                && result_text(r) == answer_view(final(shell).answered().last()),
            Err(m) => final(shell).requested() == old(shell).requested()
                && final(shell).answered() == old(shell).answered() && (r matches Err(s) && s@ == m),
        },
{
    match reveal_call(capture) {
        Ok(call) => perform_call(shell, &call),
        Err(m) => Err(m),
    }
}

// ---------------------------------------------------------------------------
// Settings
// ---------------------------------------------------------------------------

/// A text setting counts only when non-empty: the empty text is how a
/// cleared setting is stored.
pub open spec fn setting_value(raw: Option<String>) -> Option<Seq<char>> {
    match raw {
        Some(s) => if s@.len() > 0 {
            Some(s@)
        } else {
            None
        },
        None => None,
    }
}

/// The value of a text setting (the Wikilink source folder, the
/// microphone, the system-audio device): `None` when never written or
/// cleared.
pub fn configured_setting(raw: Option<String>) -> (r: Option<String>)
    ensures
        opt_view(r) == setting_value(raw),
{
    match raw {
        Some(s) => if s.as_str().is_empty() {
            None
        } else {
            Some(s)
        },
        None => None,
    }
}

/// What a device setting stores for a choice: the name, or the empty text
/// for no choice.
pub fn device_setting_text(name: Option<String>) -> (r: String)
    ensures
        r@ == match name {
            Some(n) => n@,
            None => Seq::empty(),
        },
{
    match name {
        Some(n) => n,
        None => String::new(),
    }
}

/// Whether system audio is recorded: the stored text is `true`.
pub fn sys_audio_enabled(raw: Option<String>) -> (r: bool)
    ensures
        r == (opt_view(raw) == Some("true"@)),
{
    match raw {
        Some(v) => text_eq(v.as_str(), "true"),
        None => false,
    }
}

/// What the system-audio switch stores.
pub fn enabled_setting_text(enabled: bool) -> (r: &'static str)
    ensures
        r@ == (if enabled {
            "true"@
        } else {
            "false"@
        }),
{
    if enabled {
        "true"
    } else {
        "false"
    }
}

/// The transcription language: the stored one, else the default.
pub fn transcription_language(raw: Option<String>) -> (r: String)
    ensures
        r@ == match raw {
            Some(l) => l@,
            None => DEFAULT_LANGUAGE@,
        },
{
    match raw {
        Some(l) => l,
        None => String::from_str(DEFAULT_LANGUAGE),
    }
}

/// The device a recording uses from a device setting: none when the
/// setting is unset or cleared.
pub fn selected_device(raw: Option<String>, device_type: DeviceType) -> (r: Option<SelectedDevice>)
    ensures
        match setting_value(raw) {
            Some(n) => r matches Some(d) && d.name@ == n && d.device_type == device_type,
            None => r is None,
        },
{
    match configured_setting(raw) {
        Some(name) => Some(SelectedDevice { name, device_type }),
        None => None,
    }
}

/// The system-audio device of a recording: the configured one when system
/// audio is enabled, none otherwise.
pub fn system_audio_device(enabled: Option<String>, device: Option<String>) -> (r: Option<
    SelectedDevice,
>)
    ensures
        match (opt_view(enabled) == Some("true"@), setting_value(device)) {
            (true, Some(n)) => r matches Some(d) && d.name@ == n && d.device_type == DeviceType::System,
            _ => r is None,
        },
{
    if sys_audio_enabled(enabled) {
        selected_device(device, DeviceType::System)
    } else {
        None
    }
}

/// The folder a request to set the Wikilink source folder asks for:
/// `None` (and the empty text) clears the setting without a check; any
/// other path is checked and then saved.
pub fn requested_source_folder(path: Option<&str>) -> (r: Option<String>)
    ensures
        match path {
            Some(p) => if p@.len() > 0 {
                r matches Some(q) && q@ == p@
            } else {
                r is None
            },
            None => r is None,
        },
{
    match path {
        Some(p) => if p.is_empty() {
            None
        } else {
            Some(String::from_str(p))
        },
        None => None,
    }
}

/// The people offered by the Composer from a listing of the configured
/// folder: a folder that is gone or is not a directory offers nobody, any
/// other failure is reported.
pub fn people_or_empty(listing: Result<Vec<PersonEntry>, FolderError>) -> (r: Result<
    Vec<PersonEntry>,
    String,
>)
    ensures
        match listing {
            Ok(v) => r matches Ok(w) && w@ == v@,
            Err(FolderError::NotFound) => r matches Ok(w) && w@.len() == 0,
            Err(FolderError::NotADirectory) => r matches Ok(w) && w@.len() == 0,
            Err(e) => r matches Err(m) && m@ == folder_error_message(e),
        },
{
    match listing {
        Ok(v) => Ok(v),
        Err(FolderError::NotFound) => Ok(Vec::new()),
        Err(FolderError::NotADirectory) => Ok(Vec::new()),
        Err(e) => Err(e.to_message()),
    }
}

/// The folder a reveal of the Wikilink source folder opens: refused when
/// none is configured or when it is no longer on disk (`folder_exists`).
pub fn source_folder_to_reveal(folder: Option<&str>, folder_exists: bool) -> (r: Result<String, String>)
    ensures
        match folder {
            None => r matches Err(m) && m@ == "no folder configured"@,
            Some(f) => if !folder_exists {
                r matches Err(m) && m@ == "folder no longer exists on disk"@
            } else {
                r matches Ok(p) && p@ == f@
            },
        },
{
    match folder {
        None => Err(String::from_str("no folder configured")),
        Some(f) => if !folder_exists {
            Err(String::from_str("folder no longer exists on disk"))
        } else {
            Ok(String::from_str(f))
        },
    }
}

/// Reveals the configured Wikilink source folder: one reveal request for
/// the folder `source_folder_to_reveal` picks, none when it refuses.
pub fn reveal_source_folder<S: Shell + ?Sized>(
    shell: &mut S,
    folder: Option<&str>,
    folder_exists: bool,
) -> (r: Result<(), String>)
    ensures
        match folder {
            None => final(shell).requested() == old(shell).requested()
                && final(shell).answered() == old(shell).answered() && (r matches Err(m) && m@
                == "no folder configured"@),
            Some(f) => if !folder_exists {
                final(shell).requested() == old(shell).requested()
                    && final(shell).answered() == old(shell).answered() && (r matches Err(m) && m@
                    == "folder no longer exists on disk"@)
            } else {
                final(shell).requested() == old(shell).requested().push((1, f@))
                    && final(shell).answered().len() == old(shell).answered().len() + 1
                    && final(shell).answered().drop_last() == old(shell).answered()
                    && result_text(r) == answer_view(final(shell).answered().last())
            },
        },
{
    let f = source_folder_to_reveal(folder, folder_exists)?;
    match shell.reveal_in_finder(f.as_str()) {
        Ok(()) => Ok(()),
        Err(e) => Err(e.to_message()),
    }
}

// ---------------------------------------------------------------------------
// Context of a capture
// ---------------------------------------------------------------------------

/// A browser whose active tab can be read by AppleScript.
#[derive(Debug, Clone, Copy, PartialEq, Eq, Structural)]
pub enum Browser {
    /// Chrome, in any of its channels.
    Chrome,
    /// Safari or Safari Technology Preview.
    Safari,
}

/// The browser an app bundle id names.
pub open spec fn browser_of(bundle: Seq<char>) -> Option<Browser> {
    if "com.google.Chrome"@.is_prefix_of(bundle) {
        Some(Browser::Chrome)
    } else if bundle == "com.apple.Safari"@ || bundle == "com.apple.SafariTechnologyPreview"@ {
        Some(Browser::Safari)
    } else {
        None
    }
}

/// The browser an app bundle id names, if any.
pub fn browser_for_bundle(bundle: &str) -> (r: Option<Browser>)
    ensures
        r == browser_of(bundle@),
{
    if crate::text::starts_with_str(bundle, "com.google.Chrome") {
        Some(Browser::Chrome)
    } else if text_eq(bundle, "com.apple.Safari") || text_eq(bundle, "com.apple.SafariTechnologyPreview") {
        Some(Browser::Safari)
    } else {
        None
    }
}

/// The start of the AppleScript that reads a browser's active tab, up to
/// the bundle id.
pub const TAB_SCRIPT_HEAD: &'static str = "tell application id \"";

/// The rest of the Chrome script: the URL, a newline, then the title of
/// the active tab of the front window, or nothing without a window.
pub const CHROME_TAB_SCRIPT_TAIL: &'static str = "\"\n            if (count of windows) = 0 then return \"\"\n            set t to active tab of front window\n            return (URL of t) & \"\n\" & (title of t)\n        end tell";

/// The rest of the Safari script: the URL, a newline, then the name of
/// the front document, or nothing without a document.
pub const SAFARI_TAB_SCRIPT_TAIL: &'static str = "\"\n            if (count of documents) = 0 then return \"\"\n            return (URL of front document) & \"\n\" & (name of front document)\n        end tell";

/// The script that reads the active tab of browser `b` running as
/// `bundle`.
pub open spec fn tab_script_text(b: Browser, bundle: Seq<char>) -> Seq<char> {
    TAB_SCRIPT_HEAD@ + bundle + match b {
        Browser::Chrome => CHROME_TAB_SCRIPT_TAIL@,
        Browser::Safari => SAFARI_TAB_SCRIPT_TAIL@,
    }
}

/// Executable `tab_script_text`.
pub fn active_tab_script(b: Browser, bundle: &str) -> (r: String)
    ensures
        r@ == tab_script_text(b, bundle@),
{
    let mut s = String::from_str(TAB_SCRIPT_HEAD);
    s.append(bundle);
    match b {
        Browser::Chrome => s.append(CHROME_TAB_SCRIPT_TAIL),
        Browser::Safari => s.append(SAFARI_TAB_SCRIPT_TAIL),
    }
    s
}

/// The output of a script: its standard output trimmed, or `None` when
/// the script did not run, failed, or printed only whitespace.
pub open spec fn script_output(raw: Option<Seq<char>>) -> Option<Seq<char>> {
    match raw {
        Some(s) => if trim(s).len() > 0 {
            Some(trim(s))
        } else {
            None
        },
        None => None,
    }
}

/// Executable `script_output`.
pub fn osascript_output(raw: Option<String>) -> (r: Option<String>)
    ensures
        opt_view(r) == script_output(opt_view(raw)),
{
    match raw {
        Some(s) => {
            let t = trim_chars(&chars_of(s.as_str()));
            if t.len() > 0 {
                Some(string_of(&t))
            } else {
                None
            }
        },
        None => None,
    }
}

/// End of the line that starts at `from`: the next `\n`, or the end.
pub open spec fn line_end(s: Seq<char>, from: int) -> int {
    match crate::text::find_char(s, '\n', from) {
        Some(j) => j,
        None => s.len() as int,
    }
}

/// A line as a field: trimmed, `None` when blank.
pub open spec fn line_field(line: Seq<char>) -> Option<Seq<char>> {
    if trim(line).len() > 0 {
        Some(trim(line))
    } else {
        None
    }
}

/// The (title, url) of a two-line `url\ntitle` answer; each is `None`
/// when its line is missing or blank.
pub open spec fn tab_fields(out: Option<Seq<char>>) -> (Option<Seq<char>>, Option<Seq<char>>) {
    match out {
        None => (None, None),
        Some(t) => {
            let e0 = line_end(t, 0);
            let url = line_field(t.take(e0));
            let title = if e0 < t.len() {
                line_field(t.subrange(e0 + 1, line_end(t, e0 + 1)))
            } else {
                None
            };
            (title, url)
        },
    }
}

/// Index of the first `\n` of `v` at or after `from`, or `v.len()`.
fn next_line_end(v: &Vec<char>, from: usize) -> (r: usize)
    requires
        from <= v.len(),
    ensures
        from <= r <= v.len(),
        r == line_end(v@, from as int),
{
    let mut j = from;
    while j < v.len() && v[j] != '\n'
        invariant
            from <= j <= v.len(),
            crate::text::find_char(v@, '\n', from as int) == crate::text::find_char(v@, '\n', j as int),
        decreases v.len() - j,
    {
        j = j + 1;
    }
    proof {
        crate::text::lemma_find_char(v@, '\n', j as int);
    }
    j
}

/// A line of `v` as a field.
fn field_of(v: &Vec<char>, lo: usize, hi: usize) -> (r: Option<String>)
    requires
        lo <= hi <= v.len(),
    ensures
        opt_view(r) == line_field(v@.subrange(lo as int, hi as int)),
{
    let line = slice_chars(v, lo, hi);
    let t = trim_chars(&line);
    if t.len() > 0 {
        Some(string_of(&t))
    } else {
        None
    }
}

/// Splits a browser's `url\ntitle` answer into (title, url).
pub fn parse_url_then_title(out: Option<String>) -> (r: (Option<String>, Option<String>))
    ensures
        (opt_view(r.0), opt_view(r.1)) == tab_fields(opt_view(out)),
{
    let text = match out {
        Some(t) => t,
        None => return (None, None),
    };
    let v = chars_of(text.as_str());
    let e0 = next_line_end(&v, 0);
    assert(v@.take(e0 as int) =~= v@.subrange(0, e0 as int));
    let url = field_of(&v, 0, e0);
    let title = if e0 < v.len() {
        let e1 = next_line_end(&v, e0 + 1);
        field_of(&v, e0 + 1, e1)
    } else {
        None
    };
    (title, url)
}

/// The context of a capture taken while the app `bundle` was in front,
/// given what the active-tab script printed (`None` when no script ran or
/// it failed): the app, and the title and url read from the output.
pub fn context_from_tab(bundle: &str, output: Option<String>) -> (r: CaptureContext)
    ensures
        opt_view(r.source_app) == Some(bundle@),
        (opt_view(r.source_title), opt_view(r.source_url)) == tab_fields(
            script_output(opt_view(output)),
        ),
{
    let (title, url) = parse_url_then_title(osascript_output(output));
    CaptureContext { source_app: Some(String::from_str(bundle)), source_title: title, source_url: url }
}

/// Runs AppleScript. `scripts_run` lists the scripts asked for so far;
/// `answers` lists what each of them answered, in the same order.
pub trait ScriptRunner {
    spec fn scripts_run(&self) -> Seq<Seq<char>>;

    spec fn answers(&self) -> Seq<Option<Seq<char>>>;

    /// The standard output of `osascript -e script`, or `None` when it
    /// could not run or failed.
    fn run_osascript(&mut self, script: &str) -> (r: Option<String>)
        ensures
            final(self).scripts_run() == old(self).scripts_run().push(script@),
            final(self).answers() == old(self).answers().push(opt_view(r)),
    ;
}

/// A script runner that answers every script with the same output and
/// keeps the scripts it was asked to run.
pub struct FakeScriptRunner {
    answer: Option<String>,
    scripts: Vec<String>,
}

impl FakeScriptRunner {
    /// A runner answering `answer`, with no script run yet.
    pub fn new(answer: Option<String>) -> (r: Self)
        ensures
            r.scripts_run().len() == 0,
            r.answers().len() == 0,
            r.answer() == opt_view(answer),
    {
        FakeScriptRunner { answer, scripts: Vec::new() }
    }

    /// What every script is answered.
    pub closed spec fn answer(&self) -> Option<Seq<char>> {
        opt_view(self.answer)
    }

    /// The scripts run so far, oldest first.
    pub fn scripts(&self) -> (r: Vec<String>)
        ensures
            texts_view(r@) == self.scripts_run(),
    {
        let mut r: Vec<String> = Vec::new();
        let mut i: usize = 0;
        while i < self.scripts.len()
            invariant
                i <= self.scripts.len(),
                r.len() == i,
                texts_view(r@) == texts_view(self.scripts@.take(i as int)),
            decreases self.scripts.len() - i,
        {
            let ghost before = r@;
            r.push(self.scripts[i].clone());
            let ghost x = self.scripts@[i as int];
            assert(self.scripts@.take(i + 1) =~= self.scripts@.take(i as int).push(x));
            assert(texts_view(r@) =~= texts_view(before).push(x@));
            assert(texts_view(self.scripts@.take(i + 1)) =~= texts_view(self.scripts@.take(i as int)).push(x@));
            i = i + 1;
        }
        assert(self.scripts@.take(self.scripts.len() as int) =~= self.scripts@);
        r
    }
}

impl ScriptRunner for FakeScriptRunner {
    closed spec fn scripts_run(&self) -> Seq<Seq<char>> {
        texts_view(self.scripts@)
    }

    /// Every script was answered the same.
    closed spec fn answers(&self) -> Seq<Option<Seq<char>>> {
        Seq::new(self.scripts@.len(), |i: int| opt_view(self.answer))
    }

    fn run_osascript(&mut self, script: &str) -> (r: Option<String>)
        ensures
            opt_view(r) == old(self).answer(),
            final(self).answer() == old(self).answer(),
    {
        let ghost before = self.scripts_run();
        let ghost answers_before = self.answers();
        self.scripts.push(String::from_str(script));
        assert(self.scripts_run() =~= before.push(script@));
        assert(self.answers() =~= answers_before.push(opt_view(self.answer)));
        match &self.answer {
            Some(a) => Some(a.clone()),
            None => None,
        }
    }
}

/// The context of a capture taken while the app `bundle_id` was in front:
/// the app, and for Chrome and Safari the title and url of the active tab,
/// read from what the one tab script run answered, split by `tab_fields`.
/// No bundle id gives an empty context.
pub fn resolve_context_for_bundle<R: ScriptRunner + ?Sized>(runner: &mut R, bundle_id: Option<&str>) -> (r:
    CaptureContext)
    ensures
        match bundle_id {
            None => r.source_app is None && r.source_title is None && r.source_url is None
                && final(runner).scripts_run() == old(runner).scripts_run()
                && final(runner).answers() == old(runner).answers(),
            Some(b) => opt_view(r.source_app) == Some(b@) && match browser_of(b@) {
                None => r.source_title is None && r.source_url is None
                    && final(runner).scripts_run() == old(runner).scripts_run()
                    && final(runner).answers() == old(runner).answers(),
                Some(br) => final(runner).scripts_run() == old(runner).scripts_run().push(
                    tab_script_text(br, b@),
                ) && final(runner).answers().len() == old(runner).answers().len() + 1
                    && final(runner).answers().drop_last() == old(runner).answers()
                    && (opt_view(r.source_title), opt_view(r.source_url)) == tab_fields(
                        script_output(final(runner).answers().last()),
                    ),
            },
        },
{
    let b = match bundle_id {
        Some(b) => b,
        None => return CaptureContext { source_app: None, source_title: None, source_url: None },
    };
    let output = match browser_for_bundle(b) {
        Some(browser) => {
            let script = active_tab_script(browser, b);
            runner.run_osascript(script.as_str())
        },
        None => None,
    };
    context_from_tab(b, output)
}

// ---------------------------------------------------------------------------
// The frontmost app before the Composer
// ---------------------------------------------------------------------------

/// The process id of the app that was frontmost when the Composer was
/// summoned, or -1 when none is recorded. The summon, save and dismiss
/// paths share one slot; a caller on several threads holds it behind a
/// lock, which makes `take` one indivisible step.
pub struct PrevFrontmostPid {
    pid: i32,
}

impl View for PrevFrontmostPid {
    type V = i32;

    /// The recorded pid, -1 for none.
    closed spec fn view(&self) -> i32 {
        self.pid
    }
}

impl PrevFrontmostPid {
    /// An empty slot (-1).
    pub fn new() -> (r: Self)
        ensures
            r@ == -1,
    {
        PrevFrontmostPid { pid: -1 }
    }

    /// Records `pid`.
    pub fn store(&mut self, pid: i32)
        ensures
            final(self)@ == pid,
    {
        self.pid = pid;
    }

    /// Reads the recorded pid and empties the slot.
    pub fn take(&mut self) -> (r: i32)
        ensures
            r == old(self)@,
            final(self)@ == -1,
    {
        let pid = self.pid;
        self.pid = -1;
        pid
    }

    /// Reads the recorded pid, leaving it in place.
    pub fn peek(&self) -> (r: i32)
        ensures
            r == self@,
    {
        self.pid
    }
}

/// Whether the frontmost application, `pid`, is one to return to when the
/// composer is dismissed: a real process other than this one.
pub fn should_remember_frontmost(pid: i32, own_pid: i32) -> (r: bool)
    ensures
        r == (pid > 0 && pid != own_pid),
{
    pid > 0 && pid != own_pid
}

/// The application to bring back to the front, from the pid taken out of
/// the slot: none when the slot was empty.
pub fn activation_target(pid: i32) -> (r: Option<i32>)
    ensures
        r == (if pid > 0 { Some(pid) } else { None::<i32> }),
{
    if pid > 0 { Some(pid) } else { None }
}

/// Where focus goes once the composer is hidden.
#[derive(Debug, Clone, Copy, PartialEq, Eq, Structural)]
pub enum DismissFocus {
    /// The inbox is open: it takes the focus.
    Inbox,
    /// The application that was in front before the composer came up.
    PreviousApp,
}

/// Where focus goes once the composer is hidden: to the inbox when it is
/// visible, else back to the previous application.
pub fn dismiss_focus(inbox_visible: bool) -> (r: DismissFocus)
    ensures
        r == (if inbox_visible { DismissFocus::Inbox } else { DismissFocus::PreviousApp }),
{
    if inbox_visible { DismissFocus::Inbox } else { DismissFocus::PreviousApp }
}

} // verus!
