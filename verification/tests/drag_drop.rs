use quick_capture::drag_drop::{decide_dropped_files, DropError};
use quick_capture::store::{CaptureInput, ShotSource};


#[test]
fn decide_dropped_files_image_mime_path_becomes_shot() {
    let mut out = decide_dropped_files(vec![String::from("/tmp/screenshot.png")])
        .expect("decide");
    assert_eq!(out.len(), 1);
    match out.pop().unwrap() {
        CaptureInput::Shot { source, width, height } => {
            assert!(width.is_none());
            assert!(height.is_none());
            match source {
                ShotSource::Path { source_path, mime } => {
                    assert_eq!(source_path, String::from("/tmp/screenshot.png"));
                    assert_eq!(mime, "image/png");
                }
                ShotSource::Bytes { .. } => panic!("expected Path shot, got Bytes"),
            }
        }
        other => panic!("expected Shot, got {other:?}"),
    }
}

#[test]
fn decide_dropped_files_non_image_mime_path_becomes_file() {
    let mut out = decide_dropped_files(vec![String::from("/tmp/notes.pdf")])
        .expect("decide");
    assert_eq!(out.len(), 1);
    match out.pop().unwrap() {
        CaptureInput::File {
            source_path,
            mime,
            original_name,
        } => {
            assert_eq!(source_path, String::from("/tmp/notes.pdf"));
            assert_eq!(mime, "application/pdf");
            assert_eq!(original_name.as_deref(), Some("notes.pdf"));
        }
        other => panic!("expected File, got {other:?}"),
    }
}

#[test]
fn decide_dropped_files_mixed_list_preserves_order() {
    let outs = decide_dropped_files(vec![
        String::from("/tmp/a.png"),
        String::from("/tmp/b.pdf"),
        String::from("/tmp/c.jpg"),
    ])
    .expect("decide");
    assert_eq!(outs.len(), 3);
    assert!(
        matches!(&outs[0], CaptureInput::Shot { .. }),
        "first must be Shot, got {:?}",
        outs[0]
    );
    assert!(
        matches!(&outs[1], CaptureInput::File { .. }),
        "second must be File, got {:?}",
        outs[1]
    );
    assert!(
        matches!(&outs[2], CaptureInput::Shot { .. }),
        "third must be Shot, got {:?}",
        outs[2]
    );
}

#[test]
fn decide_dropped_files_empty_vec_errors() {
    let err = decide_dropped_files(vec![]).expect_err("empty must error");
    assert!(matches!(err, DropError::Empty));
}
