use quick_capture::clipboard::{Clipboard, ClipboardError, ClipboardSnapshot, FakeClipboard, FAKE_ALREADY_READ};


#[test]
fn fake_clipboard_surfaces_text_snapshot() {
    let mut fake = FakeClipboard::with(Ok(ClipboardSnapshot::Text("hello".into())));
    let got = fake.read().expect("fake should return Ok");
    assert_eq!(got, ClipboardSnapshot::Text("hello".into()));
}

#[test]
fn fake_clipboard_surfaces_image_snapshot() {
    let mut fake = FakeClipboard::with(Ok(ClipboardSnapshot::Image {
        bytes: vec![0xDE, 0xAD, 0xBE, 0xEF],
        mime: "image/png".into(),
    }));
    let got = fake.read().expect("fake should return Ok");
    match got {
        ClipboardSnapshot::Image { bytes, mime } => {
            assert_eq!(bytes, vec![0xDE, 0xAD, 0xBE, 0xEF]);
            assert_eq!(mime, "image/png");
        }
        other => panic!("expected Image, got {other:?}"),
    }
}

#[test]
fn fake_clipboard_surfaces_files_snapshot() {
    let paths = vec![String::from("/tmp/a.png"), String::from("/tmp/b.pdf")];
    let mut fake = FakeClipboard::with(Ok(ClipboardSnapshot::Files(paths.clone())));
    let got = fake.read().expect("fake should return Ok");
    assert_eq!(got, ClipboardSnapshot::Files(paths));
}

#[test]
fn fake_clipboard_surfaces_error() {
    let mut fake = FakeClipboard::with(Err(ClipboardError::Empty));
    let err = fake.read().expect_err("fake should return Err");
    assert!(matches!(err, ClipboardError::Empty));
}

#[test]
fn fake_clipboard_is_read_once() {
    let mut fake = FakeClipboard::with(Ok(ClipboardSnapshot::Text("hello".into())));
    assert_eq!(fake.read(), Ok(ClipboardSnapshot::Text("hello".into())));
    assert_eq!(fake.read(), Err(ClipboardError::Backend(FAKE_ALREADY_READ.to_string())));
}
