use quick_capture::clipboard::{
    files_step, image_step, image_to_png_snapshot, text_step, ClipboardError, ClipboardSnapshot,
    PasteboardError,
};

#[test]
fn files_win_when_present() {
    assert_eq!(
        files_step(Ok(vec!["/tmp/a.png".into()])),
        Some(Ok(ClipboardSnapshot::Files(vec!["/tmp/a.png".into()])))
    );
    assert_eq!(files_step(Ok(vec![])), None);
    assert_eq!(files_step(Err(PasteboardError::ContentNotAvailable)), None);
    assert_eq!(
        files_step(Err(PasteboardError::ClipboardNotSupported)),
        Some(Err(ClipboardError::Backend("clipboard not supported".into())))
    );
    assert_eq!(
        files_step(Err(PasteboardError::Other("x11 gone".into()))),
        Some(Err(ClipboardError::Backend("x11 gone".into())))
    );
}

#[test]
fn image_step_encodes_png() {
    let rgba = vec![255u8, 0, 0, 255, 0, 255, 0, 255];
    let snap = image_step(Ok((2, 1, rgba))).expect("image answered").expect("encoded");
    match snap {
        ClipboardSnapshot::Image { bytes, mime } => {
            assert_eq!(mime, "image/png");
            assert_eq!(&bytes[..8], &[0x89, b'P', b'N', b'G', 0x0D, 0x0A, 0x1A, 0x0A]);
        }
        other => panic!("expected image, got {other:?}"),
    }
    assert_eq!(image_step(Err(PasteboardError::ContentNotAvailable)), None);
    assert_eq!(
        image_step(Err(PasteboardError::ConversionFailure("bad".into()))),
        Some(Err(ClipboardError::UnsupportedFormat))
    );
}

#[test]
fn short_pixel_buffer_is_unsupported() {
    assert_eq!(image_to_png_snapshot(2, 2, vec![0; 15]), Err(ClipboardError::UnsupportedFormat));
    assert_eq!(image_to_png_snapshot(usize::MAX, 1, vec![]), Err(ClipboardError::UnsupportedFormat));
}

#[test]
fn text_is_the_last_resort() {
    assert_eq!(text_step(Ok("hi".into())), Ok(ClipboardSnapshot::Text("hi".into())));
    assert_eq!(text_step(Err(PasteboardError::ContentNotAvailable)), Err(ClipboardError::Empty));
    assert_eq!(
        text_step(Err(PasteboardError::ClipboardNotSupported)),
        Err(ClipboardError::Backend("clipboard not supported".into()))
    );
    assert_eq!(text_step(Err(PasteboardError::Other("?".into()))), Err(ClipboardError::UnsupportedFormat));
}
