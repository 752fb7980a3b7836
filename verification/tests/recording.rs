use quick_capture::recording::{
    audio_dir, check_transcription_text, chunk_samples, model_path, models_dir, ChunkedTranscript,
    model_download_path, recording_file_name, check_captured_audio,
};

#[test]
fn chunks_are_merged_with_spaces_and_trimmed() {
    let mut t = ChunkedTranscript::new();
    t.push(" hello".to_string());
    t.push(String::new());
    t.push("world ".to_string());
    assert_eq!(t.merged(), "hello world");
}

#[test]
fn empty_transcript_merges_to_nothing() {
    assert_eq!(ChunkedTranscript::new().merged(), "");
}

#[test]
fn blank_transcription_is_not_saved() {
    assert_eq!(
        check_transcription_text("  \n"),
        Err("Transcription produced no text (silence or noise)".to_string())
    );
    assert_eq!(check_transcription_text("ok"), Ok(()));
}

#[test]
fn model_and_audio_paths() {
    assert_eq!(
        models_dir(Some("/Users/ana/Library/Application Support")),
        "/Users/ana/Library/Application Support/com.koko.quick-capture/models"
    );
    assert_eq!(
        model_path(Some("/data/")),
        "/data/com.koko.quick-capture/models/ggml-large-v3-turbo-q5_0.bin"
    );
    assert_eq!(audio_dir(None), "./com.koko.quick-capture/audio");
}

#[test]
fn chunk_is_twenty_seconds_of_samples() {
    assert_eq!(chunk_samples(48_000), 960_000);
    assert_eq!(chunk_samples(16_000), 320_000);
}

#[test]
fn model_downloads_to_a_temporary_file_beside_it() {
    assert_eq!(
        model_download_path(Some("/data")),
        "/data/com.koko.quick-capture/models/ggml-large-v3-turbo-q5_0.bin.tmp"
    );
    assert_eq!(
        model_download_path(None),
        "./com.koko.quick-capture/models/ggml-large-v3-turbo-q5_0.bin.tmp"
    );
}

#[test]
fn recordings_are_named_by_id() {
    assert_eq!(recording_file_name("01HZX"), "01HZX.wav");
}

#[test]
fn stopping_without_audio_is_an_error() {
    assert_eq!(check_captured_audio(0), Err("No audio captured".to_string()));
    assert_eq!(check_captured_audio(1), Ok(()));
}
