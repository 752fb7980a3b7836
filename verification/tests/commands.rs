use quick_capture::commands::{
    active_tab_script, browser_for_bundle, clipboard_inputs_to_save, configured_setting,
    device_setting_text, enabled_setting_text, is_clipboard_duplicate, kokobrain_route_uri,
    note_input, open_link_with, osascript_output, parse_destination_kind, parse_url_then_title,
    people_or_empty, requested_source_folder, resolve_context_for_bundle, reveal_call,
    reveal_capture, reveal_source_folder, selected_device, sys_audio_enabled,
    system_audio_device, transcription_language, Browser, FakeScriptRunner, PrevFrontmostPid,
    should_remember_frontmost, activation_target, dismiss_focus, DismissFocus, check_capture_live,
};
use quick_capture::audio::DeviceType;
use quick_capture::shell::{FakeShell, ShellCall};
use quick_capture::store::{
    Capture, CaptureInput, CaptureKind, Destination, DestinationKind, Payload, ShotSource,
};
use quick_capture::wikilink::{FolderError, PersonEntry};

fn capture(kind: CaptureKind, payload: Payload) -> Capture {
    Capture {
        id: "01H000000000000000000000TEST".into(),
        kind,
        created_at: "2026-05-18T12:00:00Z".into(),
        payload,
        source_app: None,
        starred: false,
        deleted_at: None,
        read_at: None,
        source_title: None,
        source_url: None,
        destination_id: None,
        routed_at: None,
    }
}

fn text_capture(kind: CaptureKind, text: &str) -> Capture {
    let mut p = Payload::empty();
    p.text = Some(text.into());
    capture(kind, p)
}

fn link_capture(url: &str) -> Capture {
    let mut p = Payload::empty();
    p.url = Some(url.into());
    p.raw_text = Some(url.into());
    capture(CaptureKind::Link, p)
}

#[test]
fn save_note_rejects_empty_text_and_writes_nothing() {
    assert_eq!(note_input("").unwrap_err(), "note text is empty");
    assert_eq!(note_input("   \n\t").unwrap_err(), "note text is empty");
}

#[test]
fn note_input_keeps_text_as_typed() {
    assert_eq!(note_input("  hi  ").unwrap(), CaptureInput::Note { text: "  hi  ".into() });
}

#[test]
fn is_clipboard_duplicate_matches_same_clip_text() {
    let prev = text_capture(CaptureKind::Clip, "hello");
    assert!(is_clipboard_duplicate(&prev, &CaptureInput::Clip { text: "hello".into() }));
    assert!(!is_clipboard_duplicate(&prev, &CaptureInput::Clip { text: "world".into() }));
}

#[test]
fn is_clipboard_duplicate_is_kind_aware() {
    let prev = text_capture(CaptureKind::Clip, "hello");
    assert!(!is_clipboard_duplicate(&prev, &CaptureInput::Note { text: "hello".into() }));
}

#[test]
fn is_clipboard_duplicate_matches_same_link_url() {
    let prev = link_capture("https://example.com");
    let same = CaptureInput::Link {
        url: "https://example.com".into(),
        raw_text: "example.com".into(),
        title: None,
    };
    let other = CaptureInput::Link { url: "https://other.test".into(), raw_text: "x".into(), title: None };
    assert!(is_clipboard_duplicate(&prev, &same));
    assert!(!is_clipboard_duplicate(&prev, &other));
}

#[test]
fn image_bytes_are_never_duplicates() {
    let mut p = Payload::empty();
    p.blob_path = Some("/blobs/a.png".into());
    p.mime = Some("image/png".into());
    let prev = capture(CaptureKind::Shot, p);
    let input = CaptureInput::Shot {
        source: ShotSource::Bytes { bytes: vec![1, 2], mime: "image/png".into() },
        width: None,
        height: None,
    };
    assert!(!is_clipboard_duplicate(&prev, &input));
}

#[test]
fn path_shot_and_file_compare_source_path() {
    let mut p = Payload::empty();
    p.source_path = Some("/tmp/a.png".into());
    let prev = capture(CaptureKind::Shot, p.clone());
    let shot = CaptureInput::Shot {
        source: ShotSource::Path { source_path: "/tmp/a.png".into(), mime: "image/png".into() },
        width: None,
        height: None,
    };
    assert!(is_clipboard_duplicate(&prev, &shot));
    let file_prev = capture(CaptureKind::File, p);
    let file = CaptureInput::File { source_path: "/tmp/a.png".into(), mime: "image/png".into(), original_name: None };
    assert!(is_clipboard_duplicate(&file_prev, &file));
    assert!(!is_clipboard_duplicate(&prev, &file));
}

#[test]
fn clipboard_plan_skips_repeat_of_latest_and_runs() {
    let latest = text_capture(CaptureKind::Clip, "a");
    let inputs = vec![
        CaptureInput::Clip { text: "a".into() },
        CaptureInput::Clip { text: "b".into() },
        CaptureInput::Clip { text: "b".into() },
        CaptureInput::Note { text: "b".into() },
        CaptureInput::Clip { text: "a".into() },
    ];
    let kept = clipboard_inputs_to_save(Some(&latest), inputs);
    assert_eq!(
        kept,
        vec![
            CaptureInput::Clip { text: "b".into() },
            CaptureInput::Note { text: "b".into() },
            CaptureInput::Clip { text: "a".into() },
        ]
    );
}

#[test]
fn clipboard_plan_without_latest_keeps_first() {
    let inputs = vec![CaptureInput::Clip { text: "a".into() }, CaptureInput::Clip { text: "a".into() }];
    assert_eq!(clipboard_inputs_to_save(None, inputs), vec![CaptureInput::Clip { text: "a".into() }]);
}

#[test]
fn clipboard_plan_keeps_every_image() {
    let img = || CaptureInput::Shot {
        source: ShotSource::Bytes { bytes: vec![7], mime: "image/png".into() },
        width: Some(1),
        height: Some(1),
    };
    assert_eq!(clipboard_inputs_to_save(None, vec![img(), img()]).len(), 2);
}

#[test]
fn parse_destination_kind_defaults_to_label() {
    assert_eq!(parse_destination_kind(None), Ok(DestinationKind::Label));
    assert_eq!(parse_destination_kind(Some("label")), Ok(DestinationKind::Label));
    assert_eq!(parse_destination_kind(Some("kokobrain")), Ok(DestinationKind::Kokobrain));
    assert_eq!(
        parse_destination_kind(Some("todoist")),
        Err("invalid argument: unknown destination kind: todoist".to_string())
    );
}

fn kokobrain_dest() -> Destination {
    Destination {
        id: "01H000000000000000000000DEST".into(),
        name: "Brain".into(),
        color: None,
        created_at: "2026-05-18T12:00:00Z".into(),
        deleted_at: None,
        kind: DestinationKind::Kokobrain,
        config: Some(r#"{"vault":"Personal"}"#.into()),
    }
}

#[test]
fn route_to_kokobrain_rejects_deleted_capture() {
    let mut cap = text_capture(CaptureKind::Note, "hi");
    cap.deleted_at = Some("2026-05-18T13:00:00Z".into());
    assert_eq!(
        kokobrain_route_uri(&cap, &kokobrain_dest(), "01H000000000000000000000TEST"),
        Err("capture is deleted: 01H000000000000000000000TEST".to_string())
    );
}

#[test]
fn route_to_kokobrain_rejects_label_destination() {
    let cap = text_capture(CaptureKind::Note, "hi");
    let mut dest = kokobrain_dest();
    dest.kind = DestinationKind::Label;
    dest.config = None;
    assert_eq!(
        kokobrain_route_uri(&cap, &dest, "x"),
        Err("destination is not a kokobrain destination".to_string())
    );
}

#[test]
fn route_to_kokobrain_builds_uri() {
    let cap = text_capture(CaptureKind::Note, "hi");
    let uri = kokobrain_route_uri(&cap, &kokobrain_dest(), "x").expect("uri");
    assert!(uri.starts_with("kokobrain://capture?v=2&kind=note&vault=Personal&text=hi"));
    assert_eq!(Ok(uri), quick_capture::kokobrain::build_capture_uri(&cap, &kokobrain_dest()));
}

#[test]
fn routing_refuses_a_deleted_capture_first() {
    let mut cap = text_capture(CaptureKind::Note, "hi");
    assert_eq!(check_capture_live(&cap, "x"), Ok(()));
    cap.deleted_at = Some("2026-05-18T13:00:00Z".into());
    assert_eq!(check_capture_live(&cap, "x"), Err("capture is deleted: x".to_string()));
}

#[test]
fn open_link_with_calls_open_in_browser_with_url() {
    let mut shell = FakeShell::new();
    open_link_with(&mut shell, "https://example.com/a").expect("ok");
    assert_eq!(shell.calls(), vec![ShellCall::OpenInBrowser("https://example.com/a".into())]);
}

#[test]
fn reveal_capture_with_routes_link_to_browser() {
    let mut shell = FakeShell::new();
    reveal_capture(&mut shell, &link_capture("https://example.com")).expect("ok");
    assert_eq!(shell.calls(), vec![ShellCall::OpenInBrowser("https://example.com".into())]);
}

#[test]
fn reveal_capture_with_routes_file_to_finder() {
    let mut p = Payload::empty();
    p.source_path = Some("/tmp/notes.pdf".into());
    let mut shell = FakeShell::new();
    reveal_capture(&mut shell, &capture(CaptureKind::File, p)).expect("ok");
    assert_eq!(shell.calls(), vec![ShellCall::RevealInFinder("/tmp/notes.pdf".into())]);
}

#[test]
fn reveal_capture_with_routes_path_shot_to_finder() {
    let mut p = Payload::empty();
    p.source_path = Some("/tmp/x.png".into());
    p.blob_path = Some("/blobs/x.png".into());
    let mut shell = FakeShell::new();
    reveal_capture(&mut shell, &capture(CaptureKind::Shot, p)).expect("ok");
    assert_eq!(shell.calls(), vec![ShellCall::RevealInFinder("/tmp/x.png".into())]);
}

#[test]
fn reveal_capture_with_routes_bytes_shot_to_open_path() {
    let mut p = Payload::empty();
    p.blob_path = Some("/blobs/x.png".into());
    let mut shell = FakeShell::new();
    reveal_capture(&mut shell, &capture(CaptureKind::Shot, p)).expect("ok");
    assert_eq!(shell.calls(), vec![ShellCall::OpenPath("/blobs/x.png".into())]);
}

#[test]
fn reveal_capture_with_rejects_clip_and_note() {
    let mut shell = FakeShell::new();
    assert_eq!(
        reveal_capture(&mut shell, &text_capture(CaptureKind::Clip, "x")),
        Err("cannot reveal Clip capture".to_string())
    );
    assert_eq!(
        reveal_capture(&mut shell, &text_capture(CaptureKind::Note, "x")),
        Err("cannot reveal Note capture".to_string())
    );
    assert!(shell.calls().is_empty());
}

#[test]
fn reveal_reports_missing_fields() {
    assert_eq!(reveal_call(&capture(CaptureKind::Link, Payload::empty())), Err("Link capture missing url".to_string()));
    assert_eq!(reveal_call(&capture(CaptureKind::File, Payload::empty())), Err("File capture missing source_path".to_string()));
    assert_eq!(
        reveal_call(&capture(CaptureKind::Shot, Payload::empty())),
        Err("Shot capture missing both source_path and blob_path".to_string())
    );
}

#[test]
fn settings_values() {
    assert_eq!(configured_setting(None), None);
    assert_eq!(configured_setting(Some(String::new())), None);
    assert_eq!(configured_setting(Some("/notes".into())), Some("/notes".to_string()));
    assert_eq!(device_setting_text(None), "");
    assert_eq!(device_setting_text(Some("Mic".into())), "Mic");
    assert!(sys_audio_enabled(Some("true".into())));
    assert!(!sys_audio_enabled(Some("yes".into())));
    assert!(!sys_audio_enabled(None));
    assert_eq!(enabled_setting_text(true), "true");
    assert_eq!(enabled_setting_text(false), "false");
    assert_eq!(transcription_language(None), "pt");
    assert_eq!(transcription_language(Some("en".into())), "en");
}

#[test]
fn recording_devices_from_settings() {
    let mic = selected_device(Some("USB Mic".into()), DeviceType::Input).expect("mic");
    assert_eq!(mic.name, "USB Mic");
    assert_eq!(mic.device_type, DeviceType::Input);
    assert!(selected_device(Some(String::new()), DeviceType::Input).is_none());
    assert!(system_audio_device(Some("false".into()), Some("BlackHole".into())).is_none());
    let sys = system_audio_device(Some("true".into()), Some("BlackHole".into())).expect("sys");
    assert_eq!(sys.name, "BlackHole");
    assert_eq!(sys.device_type, DeviceType::System);
    assert!(system_audio_device(Some("true".into()), None).is_none());
}

#[test]
fn clear_writes_empty_sentinel_and_get_returns_none() {
    assert_eq!(requested_source_folder(None), None);
    assert_eq!(requested_source_folder(Some("")), None);
    assert_eq!(requested_source_folder(Some("/notes")), Some("/notes".to_string()));
}

#[test]
fn list_people_silently_empty_when_folder_disappears() {
    assert_eq!(people_or_empty(Err(FolderError::NotFound)), Ok(vec![]));
    assert_eq!(people_or_empty(Err(FolderError::NotADirectory)), Ok(vec![]));
    assert_eq!(people_or_empty(Err(FolderError::Io("denied".into()))), Err("io error: denied".to_string()));
    let p = PersonEntry { name: "Ana".into(), path: "/p/Ana.md".into() };
    assert_eq!(people_or_empty(Ok(vec![p.clone()])), Ok(vec![p]));
}

#[test]
fn reveal_source_folder_checks_configuration_and_disk() {
    let mut shell = FakeShell::new();
    assert_eq!(reveal_source_folder(&mut shell, None, true), Err("no folder configured".to_string()));
    assert_eq!(
        reveal_source_folder(&mut shell, Some("/gone"), false),
        Err("folder no longer exists on disk".to_string())
    );
    assert!(shell.calls().is_empty());
    reveal_source_folder(&mut shell, Some("/notes"), true).expect("ok");
    assert_eq!(shell.calls(), vec![ShellCall::RevealInFinder("/notes".into())]);
}

#[test]
fn browsers_are_recognised_by_bundle_id() {
    assert_eq!(browser_for_bundle("com.google.Chrome"), Some(Browser::Chrome));
    assert_eq!(browser_for_bundle("com.google.Chrome.canary"), Some(Browser::Chrome));
    assert_eq!(browser_for_bundle("com.apple.Safari"), Some(Browser::Safari));
    assert_eq!(browser_for_bundle("com.apple.SafariTechnologyPreview"), Some(Browser::Safari));
    assert_eq!(browser_for_bundle("com.apple.SafariX"), None);
    assert_eq!(browser_for_bundle("com.apple.Notes"), None);
}

#[test]
fn tab_scripts_target_the_bundle() {
    let chrome = active_tab_script(Browser::Chrome, "com.google.Chrome");
    let expected_chrome = format!(
        r#"tell application id "{bundle}"
            if (count of windows) = 0 then return ""
            set t to active tab of front window
            return (URL of t) & "
" & (title of t)
        end tell"#,
        bundle = "com.google.Chrome"
    );
    assert_eq!(chrome, expected_chrome);
    let safari = active_tab_script(Browser::Safari, "com.apple.Safari");
    let expected_safari = format!(
        r#"tell application id "{bundle}"
            if (count of documents) = 0 then return ""
            return (URL of front document) & "
" & (name of front document)
        end tell"#,
        bundle = "com.apple.Safari"
    );
    assert_eq!(safari, expected_safari);
}

#[test]
fn url_then_title_splits_lines() {
    assert_eq!(parse_url_then_title(None), (None, None));
    assert_eq!(
        parse_url_then_title(Some("https://a.test\nA Page".into())),
        (Some("A Page".to_string()), Some("https://a.test".to_string()))
    );
    assert_eq!(parse_url_then_title(Some("https://a.test".into())), (None, Some("https://a.test".to_string())));
    assert_eq!(parse_url_then_title(Some("https://a.test\n   ".into())), (None, Some("https://a.test".to_string())));
    assert_eq!(parse_url_then_title(Some("  \nTitle\nextra".into())), (Some("Title".to_string()), None));
    assert_eq!(parse_url_then_title(Some(" u \r\n t \r\n".into())), (Some("t".to_string()), Some("u".to_string())));
}

#[test]
fn osascript_output_is_trimmed() {
    assert_eq!(osascript_output(None), None);
    assert_eq!(osascript_output(Some("  \n".into())), None);
    assert_eq!(osascript_output(Some("\nurl\ntitle\n".into())), Some("url\ntitle".to_string()));
}

#[test]
fn context_of_non_browser_runs_no_script() {
    let mut runner = FakeScriptRunner::new(Some("x\ny".into()));
    let ctx = resolve_context_for_bundle(&mut runner, Some("com.apple.Notes"));
    assert_eq!(ctx.source_app.as_deref(), Some("com.apple.Notes"));
    assert_eq!(ctx.source_title, None);
    assert_eq!(ctx.source_url, None);
    assert!(runner.scripts().is_empty());
}

#[test]
fn context_of_browser_reads_active_tab() {
    let mut runner = FakeScriptRunner::new(Some("https://a.test\nA Page\n".into()));
    let ctx = resolve_context_for_bundle(&mut runner, Some("com.google.Chrome"));
    assert_eq!(ctx.source_app.as_deref(), Some("com.google.Chrome"));
    assert_eq!(ctx.source_title.as_deref(), Some("A Page"));
    assert_eq!(ctx.source_url.as_deref(), Some("https://a.test"));
    assert_eq!(runner.scripts(), vec![active_tab_script(Browser::Chrome, "com.google.Chrome")]);
}

#[test]
fn context_without_bundle_is_empty() {
    let mut runner = FakeScriptRunner::new(None);
    let ctx = resolve_context_for_bundle(&mut runner, None);
    assert_eq!(ctx.source_app, None);
    assert!(runner.scripts().is_empty());
}

#[test]
fn prev_frontmost_pid_take_resets() {
    let mut slot = PrevFrontmostPid::new();
    assert_eq!(slot.peek(), -1);
    slot.store(42);
    assert_eq!(slot.peek(), 42);
    assert_eq!(slot.take(), 42);
    assert_eq!(slot.take(), -1);
}

#[test]
fn frontmost_app_is_remembered_unless_it_is_us_or_invalid() {
    assert!(should_remember_frontmost(412, 99));
    assert!(!should_remember_frontmost(99, 99));
    assert!(!should_remember_frontmost(0, 99));
    assert!(!should_remember_frontmost(-1, 99));
}

#[test]
fn activation_target_skips_empty_slot() {
    let mut slot = PrevFrontmostPid::new();
    assert_eq!(activation_target(slot.take()), None);
    slot.store(321);
    assert_eq!(activation_target(slot.take()), Some(321));
    assert_eq!(activation_target(slot.take()), None);
}

#[test]
fn dismissing_composer_focuses_inbox_only_when_visible() {
    assert_eq!(dismiss_focus(true), DismissFocus::Inbox);
    assert_eq!(dismiss_focus(false), DismissFocus::PreviousApp);
}
