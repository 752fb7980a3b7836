//! Accumulation of the transcript chunks produced while recording, and
//! where the speech model and the recordings are kept. The audio capture,
//! resampling and speech model are run by the application.

use vstd::prelude::*;
use crate::text::{chars_of, join_sp, string_of, trim, trim_chars};
use crate::store::{join_path, path_join};
use vstd::string::StringExecFns;

verus! {

/// The non-empty texts transcribed so far, oldest first.
pub struct ChunkedTranscript {
    texts: Vec<String>,
}

/// The views of a list of strings.
pub open spec fn texts_view(v: Seq<String>) -> Seq<Seq<char>> {
    v.map_values(|s: String| s@)
}

impl ChunkedTranscript {
    /// The texts kept so far.
    pub closed spec fn chunks(&self) -> Seq<Seq<char>> {
        texts_view(self.texts@)
    }

    /// A transcript with no chunk.
    pub fn new() -> (t: Self)
        ensures
            t.chunks().len() == 0,
    {
        ChunkedTranscript { texts: Vec::new() }
    }

    /// Appends a chunk's text; an empty text is ignored.
    pub fn push(&mut self, text: String)
        ensures
            final(self).chunks() == if text@.len() == 0 {
                old(self).chunks()
            } else {
                old(self).chunks().push(text@)
            },
    {
        if text.as_str().unicode_len() > 0 {
            let ghost before = self.chunks();
            let ghost t = text@;
            self.texts.push(text);
            assert(self.chunks() =~= before.push(t));
        }
    }

    /// The chunks joined by single spaces, trimmed.
    pub fn merged(&self) -> (r: String)
        ensures
            r@ == trim(join_sp(self.chunks())),
    {
        let mut joined = String::new();
        let mut i: usize = 0;
        let ghost v = self.chunks();
        while i < self.texts.len()
            invariant
                i <= self.texts.len(),
                v == texts_view(self.texts@),
                joined@ == join_sp(v.take(i as int)),
            decreases self.texts.len() - i,
        {
            assert(v.take(i + 1).drop_last() =~= v.take(i as int));
            if i > 0 {
                crate::text::push_char(&mut joined, ' ');
            }
            joined.append(self.texts[i].as_str());
            if i == 0 {
                assert(joined@ =~= join_sp(v.take(1)));
            } else {
                assert(joined@ =~= join_sp(v.take(i + 1)));
            }
            i = i + 1;
        }
        assert(v.take(self.texts.len() as int) =~= v);
        string_of(&trim_chars(&chars_of(joined.as_str())))
    }
}

/// Why a finished recording is not saved: its transcript is blank.
pub fn check_transcription_text(text: &str) -> (r: Result<(), String>)
    ensures
        r is Ok <==> trim(text@).len() > 0,
        r matches Err(m) ==> m@ == "Transcription produced no text (silence or noise)"@,
{
    if trim_chars(&chars_of(text)).len() == 0 {
        Err(String::from_str("Transcription produced no text (silence or noise)"))
    } else {
        Ok(())
    }
}

/// Why a stopped recording is not transcribed: no audio reached it.
pub fn check_captured_audio(samples: usize) -> (r: Result<(), String>)
    ensures
        r is Ok <==> samples > 0,
        r matches Err(m) ==> m@ == "No audio captured"@,
{
    if samples == 0 {
        Err(String::from_str("No audio captured"))
    } else {
        Ok(())
    }
}

// ---------------------------------------------------------------------------
// Model and recordings on disk
// ---------------------------------------------------------------------------

/// The application's folder under the user data directory.
pub const APP_DIR_NAME: &'static str = "com.koko.quick-capture";

/// The file name of the speech model.
pub const MODEL_FILENAME: &'static str = "ggml-large-v3-turbo-q5_0.bin";

/// Where the speech model is downloaded from.
pub const MODEL_URL: &'static str = "https://huggingface.co/ggerganov/whisper.cpp/resolve/main/ggml-large-v3-turbo-q5_0.bin";

/// Seconds of audio transcribed at a time while recording.
pub const CHUNK_INTERVAL_SECS: u64 = 20;

/// The base folder: the user data directory, or `.` when there is none.
pub open spec fn data_base(data_dir: Option<Seq<char>>) -> Seq<char> {
    match data_dir {
        Some(d) => d,
        None => seq!['.'],
    }
}

/// A folder of the application under the data directory.
pub open spec fn app_subdir(data_dir: Option<Seq<char>>, name: Seq<char>) -> Seq<char> {
    path_join(path_join(data_base(data_dir), APP_DIR_NAME@), name)
}

fn app_dir(data_dir: Option<&str>, name: &str) -> (r: String)
    ensures
        r@ == app_subdir(
            match data_dir {
                Some(d) => Some(d@),
                None => None,
            },
            name@,
        ),
{
    let base = match data_dir {
        Some(d) => String::from_str(d),
        None => String::from_str("."),
    };
    proof {
        reveal_strlit(".");
    }
    let app = join_path(base.as_str(), APP_DIR_NAME);
    join_path(app.as_str(), name)
}

/// The folder the speech model is kept in: `<data>/com.koko.quick-capture/models`.
pub fn models_dir(data_dir: Option<&str>) -> (r: String)
    ensures
        r@ == app_subdir(
            match data_dir {
                Some(d) => Some(d@),
                None => None,
            },
            "models"@,
        ),
{
    app_dir(data_dir, "models")
}

/// The path of the speech model file.
pub fn model_path(data_dir: Option<&str>) -> (r: String)
    ensures
        r@ == path_join(
            app_subdir(
                match data_dir {
                    Some(d) => Some(d@),
                    None => None,
                },
                "models"@,
            ),
            MODEL_FILENAME@,
        ),
{
    let dir = models_dir(data_dir);
    join_path(dir.as_str(), MODEL_FILENAME)
}

/// Where the speech model is written while it downloads: the model's path
/// with `.tmp` behind it, renamed once the download is complete.
pub fn model_download_path(data_dir: Option<&str>) -> (r: String)
    ensures
        r@ == path_join(
            app_subdir(
                match data_dir {
                    Some(d) => Some(d@),
                    None => None,
                },
                "models"@,
            ),
            MODEL_FILENAME@ + ".tmp"@,
        ),
{
    let dir = models_dir(data_dir);
    let mut name = String::from_str(MODEL_FILENAME);
    name.append(".tmp");
    join_path(dir.as_str(), name.as_str())
}

/// The file a finished recording is saved to, in the recordings folder:
/// its id followed by `.wav`.
pub fn recording_file_name(id: &str) -> (r: String)
    ensures
        r@ == id@ + ".wav"@,
{
    let mut name = String::from_str(id);
    name.append(".wav");
    name
}

/// The folder recordings are saved in: `<data>/com.koko.quick-capture/audio`.
pub fn audio_dir(data_dir: Option<&str>) -> (r: String)
    ensures
        r@ == app_subdir(
            match data_dir {
                Some(d) => Some(d@),
                None => None,
            },
            "audio"@,
        ),
{
    app_dir(data_dir, "audio")
}

/// Whether the speech model is on disk, and where it goes.
#[derive(Debug, Clone, PartialEq, Eq)]
pub struct ModelStatus {
    pub downloaded: bool,
    pub path: String,
}

/// Number of samples transcribed at a time at `sample_rate`.
pub fn chunk_samples(sample_rate: u32) -> (r: u64)
    ensures
        r == sample_rate * CHUNK_INTERVAL_SECS,
{
    sample_rate as u64 * CHUNK_INTERVAL_SECS
}

} // verus!
