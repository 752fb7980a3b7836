use quick_capture::kokobrain::{build_capture_uri, kebab_case, BuildError};
use quick_capture::store::{Capture, CaptureKind, Destination, DestinationKind, Payload};

fn payload() -> Payload {
    Payload::empty()
}

fn capture(id: &str, kind: CaptureKind, payload: Payload) -> Capture {
    Capture {
        id: id.into(),
        kind,
        created_at: "2026-05-18T12:00:00Z".into(),
        payload,
        source_app: None,
        starred: false,
        deleted_at: None,
        read_at: None,
        source_title: None,
        source_url: None,
        destination_id: None,
        routed_at: None,
    }
}

fn note_capture(text: &str) -> Capture {
    let mut p = payload();
    p.text = Some(text.into());
    capture("01H000000000000000000000NOTE", CaptureKind::Note, p)
}

fn link_capture(url: &str, payload_title: Option<&str>, source_title: Option<&str>) -> Capture {
    let mut p = payload();
    p.url = Some(url.into());
    p.raw_text = Some(url.into());
    p.title = payload_title.map(String::from);
    let mut c = capture("01H000000000000000000000LINK", CaptureKind::Link, p);
    c.source_title = source_title.map(String::from);
    c.source_url = Some(url.to_string());
    c
}

fn shot_capture() -> Capture {
    let mut p = payload();
    p.source_path = Some("/tmp/x.png".into());
    p.mime = Some("image/png".into());
    capture("01H000000000000000000000SHOT", CaptureKind::Shot, p)
}

fn shot_bytes_capture(blob_path: &str, mime: &str) -> Capture {
    let mut p = payload();
    p.blob_path = Some(blob_path.into());
    p.mime = Some(mime.into());
    p.width = Some(800);
    p.height = Some(600);
    capture("01H000000000000000000000SHOB", CaptureKind::Shot, p)
}

fn file_capture(source_path: &str, mime: &str, original_name: &str) -> Capture {
    let mut p = payload();
    p.source_path = Some(source_path.into());
    p.mime = Some(mime.into());
    p.original_name = Some(original_name.into());
    capture("01H000000000000000000000FILE", CaptureKind::File, p)
}

fn with_context(
    mut c: Capture,
    source_app: Option<&str>,
    source_title: Option<&str>,
    source_url: Option<&str>,
) -> Capture {
    c.source_app = source_app.map(String::from);
    c.source_title = source_title.map(String::from);
    c.source_url = source_url.map(String::from);
    c
}

fn clip_capture_with_context(
    text: &str,
    source_app: Option<&str>,
    source_title: Option<&str>,
    source_url: Option<&str>,
) -> Capture {
    let mut p = payload();
    p.text = Some(text.into());
    let c = capture("01H000000000000000000000CLIP", CaptureKind::Clip, p);
    with_context(c, source_app, source_title, source_url)
}

fn note_capture_with_context(
    text: &str,
    source_app: Option<&str>,
    source_title: Option<&str>,
    source_url: Option<&str>,
) -> Capture {
    with_context(note_capture(text), source_app, source_title, source_url)
}

fn kokobrain_dest(name: &str, vault: &str) -> Destination {
    Destination {
        id: "01H000000000000000000000DEST".into(),
        name: name.into(),
        color: None,
        created_at: "2026-05-18T12:00:00Z".into(),
        deleted_at: None,
        kind: DestinationKind::Kokobrain,
        config: Some(format!(r#"{{"vault":"{vault}"}}"#)),
    }
}

fn kokobrain_dest_with_tags(name: &str, vault: &str, tags: &[&str]) -> Destination {
    let quoted: Vec<String> = tags.iter().map(|t| format!("\"{t}\"")).collect();
    let tags_json = format!("[{}]", quoted.join(","));
    Destination {
        id: "01H000000000000000000000DEST".into(),
        name: name.into(),
        color: None,
        created_at: "2026-05-18T12:00:00Z".into(),
        deleted_at: None,
        kind: DestinationKind::Kokobrain,
        config: Some(format!(r#"{{"vault":"{vault}","tags":{tags_json}}}"#)),
    }
}

fn label_dest(name: &str) -> Destination {
    Destination {
        id: "01H000000000000000000000LBL".into(),
        name: name.into(),
        color: None,
        created_at: "2026-05-18T12:00:00Z".into(),
        deleted_at: None,
        kind: DestinationKind::Label,
        config: None,
    }
}

fn parse_pairs(uri: &str) -> Vec<(String, String)> {
    url::form_urlencoded::parse(uri.split('?').nth(1).unwrap().as_bytes())
        .into_owned()
        .collect()
}

fn get_pair<'a>(pairs: &'a [(String, String)], key: &str) -> Option<&'a str> {
    pairs.iter().find(|(k, _)| k == key).map(|(_, v)| v.as_str())
}

#[test]
fn kebab_case_lowercases_and_collapses_separators() {
    assert_eq!(kebab_case("Reading List"), "reading-list");
    assert_eq!(kebab_case("  Reading   List  "), "reading-list");
    assert_eq!(kebab_case("Read/Write Notes!"), "read-write-notes");
    assert_eq!(kebab_case("kokobrain"), "kokobrain");
    assert_eq!(kebab_case("---"), "");
}

#[test]
fn note_payload_becomes_text_param() {
    let cap = note_capture("hello world");
    let dest = kokobrain_dest("Reading List", "Personal");
    let uri = build_capture_uri(&cap, &dest).expect("build");
    assert!(uri.starts_with("kokobrain://capture?"));
    let pairs = parse_pairs(&uri);
    assert_eq!(get_pair(&pairs, "v"), Some("2"));
    assert_eq!(get_pair(&pairs, "kind"), Some("note"));
    assert_eq!(get_pair(&pairs, "vault"), Some("Personal"));
    assert_eq!(get_pair(&pairs, "text"), Some("hello world"));
    assert_eq!(get_pair(&pairs, "tags"), Some("reading-list"));
    assert_eq!(get_pair(&pairs, "captured_at"), Some("2026-05-18T12:00:00Z"));
}

#[test]
fn link_emits_url_and_source_title_as_title() {
    let cap = link_capture("https://example.com/post", Some("Payload Title"), Some("Window Title"));
    let dest = kokobrain_dest("Brain", "Personal");
    let uri = build_capture_uri(&cap, &dest).expect("build");
    let pairs = parse_pairs(&uri);
    assert_eq!(get_pair(&pairs, "kind"), Some("link"));
    assert_eq!(get_pair(&pairs, "url"), Some("https://example.com/post"));
    assert_eq!(get_pair(&pairs, "title"), Some("Window Title"));
}

#[test]
fn link_falls_back_to_payload_title_then_omits_title() {
    let dest = kokobrain_dest("Brain", "Personal");
    let cap = link_capture("https://example.com/post", Some("Payload Title"), None);
    let uri = build_capture_uri(&cap, &dest).expect("build");
    let pairs = parse_pairs(&uri);
    assert_eq!(get_pair(&pairs, "url"), Some("https://example.com/post"));
    assert_eq!(get_pair(&pairs, "title"), Some("Payload Title"));

    let cap = link_capture("https://example.com/post", None, None);
    let uri = build_capture_uri(&cap, &dest).expect("build");
    let pairs = parse_pairs(&uri);
    assert_eq!(get_pair(&pairs, "url"), Some("https://example.com/post"));
    assert_eq!(get_pair(&pairs, "title"), None);
}

#[test]
fn shot_bytes_emits_blob_path_and_mime() {
    let cap = shot_bytes_capture("/var/koko/blobs/01HSHOT.png", "image/png");
    let dest = kokobrain_dest("Brain", "Personal");
    let uri = build_capture_uri(&cap, &dest).expect("build");
    let pairs = parse_pairs(&uri);
    assert_eq!(get_pair(&pairs, "kind"), Some("shot"));
    assert_eq!(get_pair(&pairs, "path"), Some("/var/koko/blobs/01HSHOT.png"));
    assert_eq!(get_pair(&pairs, "mime"), Some("image/png"));
    assert_eq!(get_pair(&pairs, "original_name"), None);
}

#[test]
fn shot_drag_falls_back_to_source_path() {
    let cap = shot_capture();
    let dest = kokobrain_dest("Brain", "Personal");
    let uri = build_capture_uri(&cap, &dest).expect("build");
    let pairs = parse_pairs(&uri);
    assert_eq!(get_pair(&pairs, "kind"), Some("shot"));
    assert_eq!(get_pair(&pairs, "path"), Some("/tmp/x.png"));
    assert_eq!(get_pair(&pairs, "mime"), Some("image/png"));
}

#[test]
fn file_emits_path_mime_and_original_name() {
    let cap = file_capture("/tmp/notes.pdf", "application/pdf", "notes.pdf");
    let dest = kokobrain_dest("Brain", "Personal");
    let uri = build_capture_uri(&cap, &dest).expect("build");
    let pairs = parse_pairs(&uri);
    assert_eq!(get_pair(&pairs, "kind"), Some("file"));
    assert_eq!(get_pair(&pairs, "path"), Some("/tmp/notes.pdf"));
    assert_eq!(get_pair(&pairs, "mime"), Some("application/pdf"));
    assert_eq!(get_pair(&pairs, "original_name"), Some("notes.pdf"));
}

#[test]
fn shot_without_any_path_rejected_as_malformed_payload() {
    let mut cap = shot_capture();
    let mut p = payload();
    p.mime = Some("image/png".into());
    cap.payload = p;
    let dest = kokobrain_dest("Brain", "Personal");
    let err = build_capture_uri(&cap, &dest).expect_err("rejected");
    assert_eq!(err, BuildError::MalformedPayload("path"));
}

#[test]
fn shot_prefers_blob_path_over_source_path() {
    let mut cap = shot_bytes_capture("/var/koko/blobs/x.png", "image/png");
    cap.payload.source_path = Some("/should/be/ignored.png".into());
    let dest = kokobrain_dest("Brain", "Personal");
    let uri = build_capture_uri(&cap, &dest).expect("build");
    let pairs = parse_pairs(&uri);
    assert_eq!(get_pair(&pairs, "path"), Some("/var/koko/blobs/x.png"));
}

#[test]
fn label_destination_rejected() {
    let cap = note_capture("hi");
    let dest = label_dest("Todoist");
    let err = build_capture_uri(&cap, &dest).expect_err("label rejected");
    assert_eq!(err, BuildError::WrongDestinationKind);
}

#[test]
fn missing_or_invalid_config_rejected() {
    let cap = note_capture("hi");
    let mut dest = kokobrain_dest("Brain", "Personal");
    dest.config = None;
    assert_eq!(build_capture_uri(&cap, &dest), Err(BuildError::MissingConfig));

    dest.config = Some("not json".into());
    assert!(matches!(build_capture_uri(&cap, &dest), Err(BuildError::InvalidConfig(_))));

    dest.config = Some(r#"{"vault":""}"#.into());
    assert!(matches!(build_capture_uri(&cap, &dest), Err(BuildError::InvalidConfig(_))));
}

#[test]
fn user_tags_appended_to_destination_name_tag() {
    let cap = note_capture("hello");
    let dest = kokobrain_dest_with_tags("Reading List", "Personal", &["source/quick-capture", "Triage Inbox"]);
    let uri = build_capture_uri(&cap, &dest).expect("build");
    let pairs = parse_pairs(&uri);
    assert_eq!(get_pair(&pairs, "tags"), Some("reading-list,source-quick-capture,triage-inbox"));
}

#[test]
fn duplicate_user_tag_matching_destination_name_is_dropped() {
    let cap = note_capture("hello");
    let dest = kokobrain_dest_with_tags("Reading List", "Personal", &["Reading List", "extra"]);
    let uri = build_capture_uri(&cap, &dest).expect("build");
    let pairs = parse_pairs(&uri);
    assert_eq!(get_pair(&pairs, "tags"), Some("reading-list,extra"));
}

#[test]
fn duplicate_user_tags_are_collapsed_preserving_first_position() {
    let cap = note_capture("hello");
    let dest = kokobrain_dest_with_tags("Brain", "Personal", &["alpha", "beta", "alpha", "gamma", "BETA"]);
    let uri = build_capture_uri(&cap, &dest).expect("build");
    let pairs = parse_pairs(&uri);
    assert_eq!(get_pair(&pairs, "tags"), Some("brain,alpha,beta,gamma"));
}

#[test]
fn destination_name_only_when_no_user_tags() {
    let cap = note_capture("hello");
    let dest = kokobrain_dest("Brain", "Personal");
    let uri = build_capture_uri(&cap, &dest).expect("build");
    assert!(uri.contains("tags=brain"));
}

#[test]
fn empty_kebab_destination_name_falls_back_to_user_tags() {
    let cap = note_capture("hello");
    let dest = kokobrain_dest_with_tags("---", "Personal", &["fallback"]);
    let uri = build_capture_uri(&cap, &dest).expect("build");
    let pairs = parse_pairs(&uri);
    assert_eq!(get_pair(&pairs, "tags"), Some("fallback"));
}

#[test]
fn tags_param_omitted_when_merged_list_is_empty() {
    let cap = note_capture("hello");
    let dest = kokobrain_dest_with_tags("---", "Personal", &["---", "  "]);
    let uri = build_capture_uri(&cap, &dest).expect("build");
    assert!(!uri.contains("tags="), "tags should be omitted, got: {uri}");
}

#[test]
fn invalid_tags_field_rejected() {
    let cap = note_capture("hello");
    let mut dest = kokobrain_dest("Brain", "Personal");
    dest.config = Some(r#"{"vault":"Personal","tags":"not-an-array"}"#.into());
    assert!(matches!(build_capture_uri(&cap, &dest), Err(BuildError::InvalidConfig(_))));

    dest.config = Some(r#"{"vault":"Personal","tags":["ok",42]}"#.into());
    assert!(matches!(build_capture_uri(&cap, &dest), Err(BuildError::InvalidConfig(_))));
}

#[test]
fn link_without_any_title_omits_title_param() {
    let cap = link_capture("https://example.com/post", None, None);
    let dest = kokobrain_dest("Brain", "Personal");
    let uri = build_capture_uri(&cap, &dest).expect("build");
    assert!(!uri.contains("title="), "got: {uri}");
}

#[test]
fn note_capture_never_emits_title_param() {
    let cap = note_capture("hello world");
    let dest = kokobrain_dest("Brain", "Personal");
    let uri = build_capture_uri(&cap, &dest).expect("build");
    assert!(!uri.contains("title="), "got: {uri}");
}

#[test]
fn special_chars_in_text_are_percent_encoded() {
    let cap = note_capture("a & b = c #tag");
    let dest = kokobrain_dest("Brain", "Personal");
    let uri = build_capture_uri(&cap, &dest).expect("build");
    assert!(!uri.contains('#'));
    let pairs = parse_pairs(&uri);
    assert_eq!(get_pair(&pairs, "text"), Some("a & b = c #tag"));
}

#[test]
fn note_with_source_context_emits_source_params() {
    let cap = note_capture_with_context("remember XYZ", Some("com.google.Chrome"), Some("Some Page"), Some("https://example.com"));
    let dest = kokobrain_dest("Brain", "Personal");
    let uri = build_capture_uri(&cap, &dest).expect("build");
    let pairs = parse_pairs(&uri);
    assert_eq!(get_pair(&pairs, "source_app"), Some("com.google.Chrome"));
    assert_eq!(get_pair(&pairs, "source_title"), Some("Some Page"));
    assert_eq!(get_pair(&pairs, "source_url"), Some("https://example.com"));
}

#[test]
fn clip_with_source_context_emits_text_and_source_params() {
    let cap = clip_capture_with_context(
        "Whether I will remain open-minded...",
        Some("com.google.Chrome"),
        Some("Four Notes to My Future Self"),
        Some("https://medium.com/post"),
    );
    let dest = kokobrain_dest("Brain", "Personal");
    let uri = build_capture_uri(&cap, &dest).expect("build");
    let pairs = parse_pairs(&uri);
    assert_eq!(get_pair(&pairs, "kind"), Some("clip"));
    assert_eq!(get_pair(&pairs, "text"), Some("Whether I will remain open-minded..."));
    assert_eq!(get_pair(&pairs, "source_app"), Some("com.google.Chrome"));
    assert_eq!(get_pair(&pairs, "source_title"), Some("Four Notes to My Future Self"));
    assert_eq!(get_pair(&pairs, "source_url"), Some("https://medium.com/post"));
}

#[test]
fn link_omits_source_title_and_source_url() {
    let mut cap = link_capture("https://example.com/post", Some("Payload Title"), Some("Window Title"));
    cap.source_app = Some("com.google.Chrome".into());
    let dest = kokobrain_dest("Brain", "Personal");
    let uri = build_capture_uri(&cap, &dest).expect("build");
    let pairs = parse_pairs(&uri);
    assert_eq!(get_pair(&pairs, "source_app"), Some("com.google.Chrome"));
    assert_eq!(get_pair(&pairs, "source_title"), None);
    assert_eq!(get_pair(&pairs, "source_url"), None);
}

#[test]
fn blank_source_fields_are_omitted() {
    let cap = note_capture_with_context("hi", Some("  "), Some(""), Some("   "));
    let dest = kokobrain_dest("Brain", "Personal");
    let uri = build_capture_uri(&cap, &dest).expect("build");
    let pairs = parse_pairs(&uri);
    assert_eq!(get_pair(&pairs, "source_app"), None);
    assert_eq!(get_pair(&pairs, "source_title"), None);
    assert_eq!(get_pair(&pairs, "source_url"), None);
}

#[test]
fn all_supported_kinds_carry_v2_and_kind_params() {
    let dest = kokobrain_dest("Brain", "Personal");
    let np = parse_pairs(&build_capture_uri(&note_capture("x"), &dest).expect("note"));
    assert_eq!(get_pair(&np, "v"), Some("2"));
    assert_eq!(get_pair(&np, "kind"), Some("note"));
    let cp = parse_pairs(&build_capture_uri(&clip_capture_with_context("x", None, None, None), &dest).expect("clip"));
    assert_eq!(get_pair(&cp, "v"), Some("2"));
    assert_eq!(get_pair(&cp, "kind"), Some("clip"));
    let lp = parse_pairs(&build_capture_uri(&link_capture("https://x.test", None, None), &dest).expect("link"));
    assert_eq!(get_pair(&lp, "v"), Some("2"));
    assert_eq!(get_pair(&lp, "kind"), Some("link"));
}

#[test]
fn link_with_source_title_emits_title_param() {
    let cap = link_capture("https://example.com/post", Some("Payload Title"), Some("Window Title"));
    let dest = kokobrain_dest("Brain", "Personal");
    let uri = build_capture_uri(&cap, &dest).expect("build");
    let pairs = parse_pairs(&uri);
    assert_eq!(get_pair(&pairs, "title"), Some("Window Title"));
}

#[test]
fn link_without_source_title_falls_back_to_payload_title() {
    let cap = link_capture("https://example.com/post", Some("Payload Title"), None);
    let dest = kokobrain_dest("Brain", "Personal");
    let uri = build_capture_uri(&cap, &dest).expect("build");
    let pairs = parse_pairs(&uri);
    assert_eq!(get_pair(&pairs, "title"), Some("Payload Title"));
}

#[test]
fn captured_at_passes_through_from_capture_created_at() {
    let cap = note_capture("hi");
    let dest = kokobrain_dest("Brain", "Personal");
    let uri = build_capture_uri(&cap, &dest).expect("build");
    let pairs = parse_pairs(&uri);
    assert_eq!(get_pair(&pairs, "captured_at"), Some("2026-05-18T12:00:00Z"));
}

#[test]
fn kebab_case_lowercases_ascii_only() {
    assert_eq!(kebab_case("ÉCOLE Notes"), "École-notes");
    assert_eq!(kebab_case("Ação Rápida"), "ação-rápida");
}

#[test]
fn kebab_case_is_idempotent_on_ascii() {
    let once = kebab_case("  --Read/Write  Notes!! 2024 ");
    assert_eq!(once, "read-write-notes-2024");
    assert_eq!(kebab_case(&once), once);
}

#[test]
fn form_encoding_keeps_unreserved_and_escapes_utf8_bytes() {
    let cap = note_capture("é *-._~");
    let dest = kokobrain_dest("Inbox", "Main");
    let uri = build_capture_uri(&cap, &dest).expect("build");
    assert!(uri.contains("text=%C3%A9+*-._%7E"), "{uri}");
}
