use quick_capture::cli::{format_line, parse_args, parse_u32, payload_preview, truncate_single_line, CliError};
use quick_capture::store::{Capture, CaptureKind, Payload};

fn args(v: &[&str]) -> Vec<String> {
    v.iter().map(|s| s.to_string()).collect()
}

fn note(id: &str, text: Option<&str>) -> Capture {
    let mut p = Payload::empty();
    p.text = text.map(String::from);
    Capture {
        id: id.into(),
        kind: CaptureKind::Note,
        created_at: "2026-05-18T12:00:00.000Z".into(),
        payload: p,
        source_app: None,
        starred: false,
        deleted_at: None,
        read_at: None,
        source_title: None,
        source_url: None,
        destination_id: None,
        routed_at: None,
    }
}

#[test]
fn defaults_when_no_arguments() {
    let a = parse_args(&[]).expect("ok");
    assert_eq!(a.limit, 20);
    assert_eq!(a.db, None);
}

#[test]
fn limit_and_db_in_any_order() {
    let a = parse_args(&args(&["--db", "/tmp/x.db", "--limit", "5"])).expect("ok");
    assert_eq!(a.limit, 5);
    assert_eq!(a.db.as_deref(), Some("/tmp/x.db"));
    let a = parse_args(&args(&["--limit", "+7", "--limit", "3"])).expect("ok");
    assert_eq!(a.limit, 3);
}

#[test]
fn bad_arguments_are_reported() {
    assert_eq!(parse_args(&args(&["--limit"])), Err(CliError::BadArgs("--limit requires a value".into())));
    assert_eq!(parse_args(&args(&["--db"])), Err(CliError::BadArgs("--db requires a value".into())));
    assert_eq!(parse_args(&args(&["--limit", "-1"])), Err(CliError::BadArgs("invalid --limit value: -1".into())));
    assert_eq!(parse_args(&args(&["--verbose"])), Err(CliError::BadArgs("unknown argument: --verbose".into())));
}

#[test]
fn u32_parsing_matches_std() {
    for s in ["0", "42", "+42", "4294967295", "4294967296", "", "+", "-0", "1a", "007", " 1"] {
        assert_eq!(parse_u32(s), s.parse::<u32>().ok(), "{s:?}");
    }
}

#[test]
fn previews_escape_and_truncate() {
    assert_eq!(truncate_single_line("a\nb\tc\r", 60), "a\\nb\\tc\\r");
    assert_eq!(truncate_single_line("abcdef", 3), "abc...");
    assert_eq!(truncate_single_line("abc", 3), "abc");
    let long = "x".repeat(61);
    assert_eq!(payload_preview(&note("01H", Some(&long))), format!("{}...", "x".repeat(60)));
    assert_eq!(payload_preview(&note("01H", None)), "");
}

#[test]
fn lines_have_short_id_kind_time_and_preview() {
    let c = note("01HABCDEFGHJKMNPQRSTVWXYZ0", Some("hello\nworld"));
    assert_eq!(format_line(&c), "01HABCDE  Note  2026-05-18T12:00:00.000Z  hello\\nworld");
    let mut l = note("01H", None);
    l.kind = CaptureKind::Link;
    assert_eq!(format_line(&l), "01H  Link  2026-05-18T12:00:00.000Z  Link: ?");
}
