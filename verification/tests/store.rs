use quick_capture::store::{
    Destination, DestinationKind, ShotSource, blob_file_name, build_fts_match, build_payload, check_route_target, extension_for_mime, normalize_color, search_text_with_context, searchable_text_for_input, validate_destination_name,
    capture_from_row, default_db_path, destination_delete_outcome, destination_restore_outcome,
    destination_write_outcome, join_path, new_capture, row_changed, CaptureContext, CaptureInput,
    CaptureKind, CaptureRow, Payload, StoreError, WriteFailure,
};

fn row(kind: &str, payload: Result<Payload, String>, starred: i64) -> CaptureRow {
    CaptureRow {
        id: "01HABC".into(),
        kind: kind.into(),
        created_at: "2026-05-18T12:00:00.000Z".into(),
        payload,
        source_app: Some("com.apple.Notes".into()),
        starred,
        deleted_at: None,
        read_at: None,
        source_title: None,
        source_url: None,
        destination_id: None,
        routed_at: None,
    }
}

#[test]
fn row_decodes_to_capture() {
    let mut p = Payload::empty();
    p.text = Some("hi".into());
    let c = capture_from_row(row("Note", Ok(p.clone()), 1)).expect("capture");
    assert_eq!(c.kind, CaptureKind::Note);
    assert_eq!(c.payload, p);
    assert!(c.starred);
    assert_eq!(c.source_app.as_deref(), Some("com.apple.Notes"));
    let c = capture_from_row(row("Clip", Ok(Payload::empty()), 0)).expect("capture");
    assert!(!c.starred);
}

#[test]
fn row_with_unknown_kind_or_bad_payload_is_a_decode_error() {
    assert_eq!(
        capture_from_row(row("Video", Ok(Payload::empty()), 0)),
        Err(StoreError::Decode("unknown kind: Video".into()))
    );
    assert_eq!(
        capture_from_row(row("Note", Err("expected value".into()), 0)),
        Err(StoreError::Decode("expected value".into()))
    );
    assert_eq!(
        capture_from_row(row("Video", Err("expected value".into()), 0)),
        Err(StoreError::Decode("unknown kind: Video".into()))
    );
}

#[test]
fn new_capture_starts_unread_in_inbox() {
    let input = CaptureInput::Clip { text: "x".into() };
    let mut p = Payload::empty();
    p.text = Some("x".into());
    let ctx = CaptureContext { source_app: Some("app".into()), source_title: Some("t".into()), source_url: None };
    let c = new_capture("01HID".into(), "2026-01-01T00:00:00.000Z".into(), &input, p.clone(), ctx);
    assert_eq!(c.kind, CaptureKind::Clip);
    assert_eq!(c.payload, p);
    assert_eq!(c.source_title.as_deref(), Some("t"));
    assert!(!c.starred && c.deleted_at.is_none() && c.read_at.is_none() && c.destination_id.is_none() && c.routed_at.is_none());
}

#[test]
fn write_outcomes() {
    assert_eq!(row_changed(0, "01H"), Err(StoreError::NotFound("01H".into())));
    assert_eq!(row_changed(1, "01H"), Ok(()));
    assert_eq!(destination_write_outcome(Ok(0), "d1", "Brain"), Err(StoreError::NotFound("d1".into())));
    assert_eq!(destination_write_outcome(Ok(1), "d1", "Brain"), Ok(()));
    assert_eq!(
        destination_write_outcome(Err(WriteFailure::UniqueViolation), "d1", "Brain"),
        Err(StoreError::DestinationNameConflict("Brain".into()))
    );
    assert_eq!(
        destination_write_outcome(Err(WriteFailure::Other("locked".into())), "d1", "Brain"),
        Err(StoreError::Db("locked".into()))
    );
    assert_eq!(destination_delete_outcome(0, true, "d1"), Ok(()));
    assert_eq!(destination_delete_outcome(0, false, "d1"), Err(StoreError::NotFound("d1".into())));
    assert_eq!(destination_restore_outcome(Ok(0), true, None, "d1"), Ok(()));
    assert_eq!(destination_restore_outcome(Ok(0), false, None, "d1"), Err(StoreError::NotFound("d1".into())));
    assert_eq!(
        destination_restore_outcome(Err(WriteFailure::UniqueViolation), true, Some("Brain".into()), "d1"),
        Err(StoreError::DestinationNameConflict("Brain".into()))
    );
    assert_eq!(
        destination_restore_outcome(Err(WriteFailure::UniqueViolation), false, None, "d1"),
        Err(StoreError::DestinationNameConflict("d1".into()))
    );
}

#[test]
fn paths_join_with_one_separator() {
    assert_eq!(join_path("/a", "b"), "/a/b");
    assert_eq!(join_path("/a/", "b"), "/a/b");
    assert_eq!(join_path("", "b"), "b");
    assert_eq!(
        default_db_path(Some("/Users/ana")),
        Ok("/Users/ana/Library/Application Support/com.koko.quick-capture/captures.db".to_string())
    );
    assert_eq!(default_db_path(None), Err(StoreError::Io("HOME env var not set".into())));
}

#[test]
fn kinds_round_trip_through_their_names() {
    for k in [CaptureKind::Link, CaptureKind::Clip, CaptureKind::Shot, CaptureKind::File, CaptureKind::Note, CaptureKind::Transcription] {
        assert_eq!(CaptureKind::parse(k.as_str()), Ok(k));
    }
    assert_eq!(CaptureKind::Link.as_str(), "Link");
}

#[test]
fn blob_extensions_follow_the_mime() {
    assert_eq!(extension_for_mime("image/png"), "png");
    assert_eq!(extension_for_mime("image/jpeg"), "jpg");
    assert_eq!(extension_for_mime("image/gif"), "gif");
    assert_eq!(extension_for_mime("image/webp"), "webp");
    assert_eq!(extension_for_mime("image/heic"), "heic");
    assert_eq!(extension_for_mime("image/tiff"), "tiff");
    assert_eq!(extension_for_mime("application/pdf"), "bin");
    assert_eq!(blob_file_name("01HX", "image/jpeg"), "01HX.jpg");
}

#[test]
fn payloads_per_kind() {
    let p = build_payload(&CaptureInput::Link { url: "https://a.test".into(), raw_text: "a.test".into(), title: Some("A".into()) }, None);
    assert_eq!(p.url.as_deref(), Some("https://a.test"));
    assert_eq!(p.raw_text.as_deref(), Some("a.test"));
    assert_eq!(p.title.as_deref(), Some("A"));
    let shot = CaptureInput::Shot {
        source: ShotSource::Bytes { bytes: vec![1], mime: "image/png".into() },
        width: Some(3),
        height: Some(4),
    };
    let p = build_payload(&shot, Some("/blobs/x.png".into()));
    assert_eq!(p.blob_path.as_deref(), Some("/blobs/x.png"));
    assert_eq!(p.source_path, None);
    assert_eq!((p.width, p.height), (Some(3), Some(4)));
    let file = CaptureInput::File { source_path: "/tmp/a.pdf".into(), mime: "application/pdf".into(), original_name: Some("a.pdf".into()) };
    let p = build_payload(&file, None);
    assert_eq!(p.source_path.as_deref(), Some("/tmp/a.pdf"));
    assert_eq!(p.original_name.as_deref(), Some("a.pdf"));
}

#[test]
fn search_text_per_kind_and_context() {
    let link = CaptureInput::Link { url: "https://a.test".into(), raw_text: "a.test".into(), title: Some("Title".into()) };
    assert_eq!(searchable_text_for_input(&link), "https://a.test a.test Title");
    let same = CaptureInput::Link { url: "https://a.test".into(), raw_text: "https://a.test".into(), title: None };
    assert_eq!(searchable_text_for_input(&same), "https://a.test");
    let file = CaptureInput::File { source_path: "/tmp/a.pdf".into(), mime: "application/pdf".into(), original_name: Some("a.pdf".into()) };
    assert_eq!(searchable_text_for_input(&file), "a.pdf /tmp/a.pdf");
    let bytes = CaptureInput::Shot { source: ShotSource::Bytes { bytes: vec![], mime: "image/png".into() }, width: None, height: None };
    assert_eq!(searchable_text_for_input(&bytes), "");
    let ctx = CaptureContext { source_app: Some("com.google.Chrome".into()), source_title: Some("".into()), source_url: Some("https://b.test".into()) };
    assert_eq!(search_text_with_context(&bytes, &ctx), "com.google.Chrome https://b.test");
    let note = CaptureInput::Note { text: "hello".into() };
    assert_eq!(search_text_with_context(&note, &ctx), "hello com.google.Chrome https://b.test");
}

#[test]
fn fts_queries_are_sanitised() {
    assert_eq!(build_fts_match("hello world"), Some("hello* world*".to_string()));
    assert_eq!(build_fts_match("https://example.com"), Some("https* example* com*".to_string()));
    assert_eq!(build_fts_match("  "), None);
    assert_eq!(build_fts_match("?!"), None);
}

#[test]
fn colors_and_names_are_trimmed() {
    assert_eq!(normalize_color(Some("  teal ")), Some("teal".to_string()));
    assert_eq!(normalize_color(Some("  ")), None);
    assert_eq!(normalize_color(None), None);
    assert_eq!(validate_destination_name("  Reading  "), Ok("Reading".to_string()));
    assert_eq!(
        validate_destination_name("   "),
        Err(StoreError::InvalidArgument("destination name must not be blank".into()))
    );
    assert_eq!(check_route_target(&None, "d9"), Err(StoreError::NotFound("d9".into())));
    let mut d = Destination {
        id: "d1".into(),
        name: "Brain".into(),
        color: None,
        created_at: "t".into(),
        deleted_at: None,
        kind: DestinationKind::Label,
        config: None,
    };
    assert_eq!(check_route_target(&Some(d.clone()), "d1"), Ok(()));
    d.deleted_at = Some("t2".into());
    assert_eq!(
        check_route_target(&Some(d), "d1"),
        Err(StoreError::InvalidArgument("cannot route to soft-deleted destination d1".into()))
    );
}

#[test]
fn store_error_messages() {
    assert_eq!(StoreError::NotFound("x".into()).to_message(), "capture not found: x");
    assert_eq!(StoreError::DestinationNameConflict("B".into()).to_message(), "destination name already in use: B");
    assert_eq!(StoreError::Decode("m".into()).to_message(), "decode error: m");
}
