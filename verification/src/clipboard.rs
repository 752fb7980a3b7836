//! The clipboard seam: what a clipboard read yields, the order in which
//! the system clipboard is asked for files, then an image, then text, how
//! each answer is turned into a snapshot (an image is re-encoded as PNG),
//! and an in-memory clipboard that hands out a fixed result once. The OS
//! pasteboard is queried by the application.

use vstd::prelude::*;

verus! {

/// What a clipboard read returns: text, PNG-encoded image bytes, or the
/// paths of copied files.
#[derive(Debug, Clone, PartialEq, Eq)]
pub enum ClipboardSnapshot {
    Text(String),
    Image { bytes: Vec<u8>, mime: String },
    Files(Vec<String>),
}

/// Why a clipboard read produced no snapshot.
#[derive(Debug, Clone, PartialEq, Eq)]
pub enum ClipboardError {
    /// The clipboard is empty or holds no format that was asked for.
    Empty,
    /// The clipboard holds a format that cannot be decoded.
    UnsupportedFormat,
    /// The OS-level read failed.
    Backend(String),
}

/// The user-facing message of a clipboard error.
pub open spec fn clipboard_error_message(e: ClipboardError) -> Seq<char> {
    match e {
        ClipboardError::Empty => "clipboard is empty"@,
        ClipboardError::UnsupportedFormat => "clipboard holds an unsupported format"@,
        ClipboardError::Backend(m) => "clipboard backend error: "@ + m@,
    }
}

impl ClipboardError {
    /// The user-facing message of the error.
    pub fn to_message(&self) -> (r: String)
        ensures
            r@ == clipboard_error_message(*self),
    {
        match self {
            ClipboardError::Empty => String::from_str("clipboard is empty"),
            ClipboardError::UnsupportedFormat => String::from_str(
                "clipboard holds an unsupported format",
            ),
            ClipboardError::Backend(m) => crate::store::concat_str(
                "clipboard backend error: ",
                m.as_str(),
            ),
        }
    }
}

/// A copy of a list of strings.
pub fn clone_strings(v: &Vec<String>) -> (r: Vec<String>)
    ensures
        r@ == v@,
{
    let mut r: Vec<String> = Vec::new();
    let mut i: usize = 0;
    while i < v.len()
        invariant
            i <= v.len(),
            r@ == v@.take(i as int),
        decreases v.len() - i,
    {
        r.push(v[i].clone());
        i = i + 1;
        assert(r@ =~= v@.take(i as int));
    }
    assert(v@.take(v.len() as int) =~= v@);
    r
}

/// A copy of a byte vector.
pub fn clone_bytes(v: &Vec<u8>) -> (r: Vec<u8>)
    ensures
        r@ == v@,
{
    let mut r: Vec<u8> = Vec::new();
    let mut i: usize = 0;
    while i < v.len()
        invariant
            i <= v.len(),
            r@ == v@.take(i as int),
        decreases v.len() - i,
    {
        r.push(v[i]);
        i = i + 1;
        assert(r@ =~= v@.take(i as int));
    }
    assert(v@.take(v.len() as int) =~= v@);
    r
}

/// The contents of a snapshot as mathematical values.
pub enum SnapshotView {
    Text(Seq<char>),
    Image { bytes: Seq<u8>, mime: Seq<char> },
    Files(Seq<Seq<char>>),
}

impl View for ClipboardSnapshot {
    type V = SnapshotView;

    open spec fn view(&self) -> SnapshotView {
        match self {
            ClipboardSnapshot::Text(s) => SnapshotView::Text(s@),
            ClipboardSnapshot::Image { bytes, mime } => SnapshotView::Image {
                bytes: bytes@,
                mime: mime@,
            },
            ClipboardSnapshot::Files(paths) => SnapshotView::Files(
                paths@.map_values(|p: String| p@),
            ),
        }
    }
}

/// Two read results hold the same snapshot or the same error.
pub open spec fn same_read(
    a: Result<ClipboardSnapshot, ClipboardError>,
    b: Result<ClipboardSnapshot, ClipboardError>,
) -> bool {
    match (a, b) {
        (Ok(x), Ok(y)) => x@ == y@,
        (Err(x), Err(y)) => x == y,
        _ => false,
    }
}

impl ClipboardSnapshot {
    /// A copy of the snapshot.
    pub fn copy(&self) -> (r: ClipboardSnapshot)
        ensures
            r@ == self@,
    {
        match self {
            ClipboardSnapshot::Text(s) => ClipboardSnapshot::Text(s.clone()),
            ClipboardSnapshot::Image { bytes, mime } => ClipboardSnapshot::Image {
                bytes: clone_bytes(bytes),
                mime: mime.clone(),
            },
            ClipboardSnapshot::Files(paths) => {
                let c = clone_strings(paths);
                assert(c@.map_values(|p: String| p@) =~= paths@.map_values(|p: String| p@));
                ClipboardSnapshot::Files(c)
            },
        }
    }
}

impl ClipboardError {
    /// A copy of the error.
    pub fn copy(&self) -> (r: ClipboardError)
        ensures
            r == *self,
    {
        match self {
            ClipboardError::Empty => ClipboardError::Empty,
            ClipboardError::UnsupportedFormat => ClipboardError::UnsupportedFormat,
            ClipboardError::Backend(m) => ClipboardError::Backend(m.clone()),
        }
    }
}

/// A source of clipboard snapshots.
pub trait Clipboard {
    fn read(&mut self) -> Result<ClipboardSnapshot, ClipboardError>;
}

/// What a second read of a [`FakeClipboard`] answers.
pub const FAKE_ALREADY_READ: &'static str = "fake clipboard already read";

/// An in-memory clipboard that hands out the result it was made with on
/// its first read; a later read is a backend error. Used to drive the
/// capture flow without an OS pasteboard.
pub struct FakeClipboard {
    result: Option<Result<ClipboardSnapshot, ClipboardError>>,
}

impl FakeClipboard {
    /// A clipboard whose first read returns `snapshot`.
    pub fn with(snapshot: Result<ClipboardSnapshot, ClipboardError>) -> (c: Self)
        ensures
            c.pending() == Some(snapshot),
    {
        FakeClipboard { result: Some(snapshot) }
    }

    /// The result the next read returns, `None` once it was read.
    pub closed spec fn pending(&self) -> Option<Result<ClipboardSnapshot, ClipboardError>> {
        self.result
    }
}

impl Clipboard for FakeClipboard {
    fn read(&mut self) -> (r: Result<ClipboardSnapshot, ClipboardError>)
        ensures
            final(self).pending() is None,
            match old(self).pending() {
                Some(x) => same_read(r, x),
                None => r matches Err(ClipboardError::Backend(m)) && m@ == FAKE_ALREADY_READ@,
            },
    {
        let mut taken: Option<Result<ClipboardSnapshot, ClipboardError>> = None;
        std::mem::swap(&mut taken, &mut self.result);
        match taken {
            Some(Ok(s)) => Ok(s),
            Some(Err(e)) => Err(e),
            None => Err(ClipboardError::Backend(String::from_str(FAKE_ALREADY_READ))),
        }
    }
}

// ---------------------------------------------------------------------------
// Reading the system clipboard
// ---------------------------------------------------------------------------

/// Why the pasteboard did not answer a request, with the message of the
/// clipboard library for the failures that carry one.
#[derive(Debug, Clone, PartialEq, Eq)]
pub enum PasteboardError {
    /// It holds nothing in the requested format.
    ContentNotAvailable,
    /// This system has no clipboard.
    ClipboardNotSupported,
    /// The content could not be converted to the requested format.
    ConversionFailure(String),
    /// Any other failure.
    Other(String),
}

/// A read result as values: the snapshot, or the error with its message.
pub open spec fn read_view(r: Result<ClipboardSnapshot, ClipboardError>) -> Result<
    SnapshotView,
    (int, Seq<char>),
> {
    match r {
        Ok(s) => Ok(s@),
        Err(ClipboardError::Empty) => Err((0, Seq::empty())),
        Err(ClipboardError::UnsupportedFormat) => Err((1, Seq::empty())),
        Err(ClipboardError::Backend(m)) => Err((2, m@)),
    }
}

/// The backend error of a failed request.
pub open spec fn backend_failure(e: PasteboardError) -> Seq<char> {
    match e {
        PasteboardError::ClipboardNotSupported => "clipboard not supported"@,
        PasteboardError::ConversionFailure(m) => m@,
        PasteboardError::Other(m) => m@,
        PasteboardError::ContentNotAvailable => Seq::empty(),
    }
}

fn backend_error(e: PasteboardError) -> (r: ClipboardError)
    requires
        !(e is ContentNotAvailable),
    ensures
        read_view(Err(r)) == Err::<SnapshotView, (int, Seq<char>)>((2, backend_failure(e))),
{
    match e {
        PasteboardError::ClipboardNotSupported => ClipboardError::Backend(
            String::from_str("clipboard not supported"),
        ),
        PasteboardError::ConversionFailure(m) => ClipboardError::Backend(m),
        PasteboardError::Other(m) => ClipboardError::Backend(m),
        PasteboardError::ContentNotAvailable => ClipboardError::Empty,
    }
}

/// The first step of a read, from the answer to the request for copied
/// files: a non-empty list is the snapshot (files win over the preview
/// image a file copy also publishes); an empty list or nothing available
/// goes on to the image (`None`); a failure is a backend error.
pub fn files_step(answer: Result<Vec<String>, PasteboardError>) -> (r: Option<
    Result<ClipboardSnapshot, ClipboardError>,
>)
    ensures
        match answer {
            Ok(paths) => if paths@.len() > 0 {
                r matches Some(x) && read_view(x) == Ok::<SnapshotView, (int, Seq<char>)>(
                    ClipboardSnapshot::Files(paths)@,
                )
            } else {
                r is None
            },
            Err(PasteboardError::ContentNotAvailable) => r is None,
            Err(e) => r matches Some(x) && read_view(x) == Err::<SnapshotView, (int, Seq<char>)>(
                (2, backend_failure(e)),
            ),
        },
{
    match answer {
        Ok(paths) => if paths.len() > 0 {
            Some(Ok(ClipboardSnapshot::Files(paths)))
        } else {
            None
        },
        Err(PasteboardError::ContentNotAvailable) => None,
        Err(e) => Some(Err(backend_error(e))),
    }
}

/// What encoding an RGBA image as PNG (with the image library) gives for
/// a width, a height and the pixel bytes: the PNG file, or the encoder's
/// message.
pub uninterp spec fn png_encoding(width: u32, height: u32, rgba: Seq<u8>) -> Result<Seq<u8>, Seq<char>>;

/// Encodes an RGBA8 image of `width` x `height` pixels as PNG, with
/// `image::ImageBuffer::from_raw` and `write_to(.., ImageFormat::Png)`.
/// The contract claims that the result is the named encoding of the
/// arguments; that the buffer holds the pixels (`4 * width * height`
/// bytes at least) is required, as `from_raw` refuses less.
#[verifier::external_body]
fn encode_png(width: u32, height: u32, rgba: Vec<u8>) -> (r: Result<Vec<u8>, String>)
    requires
        4 * width * height <= rgba@.len(),
    ensures
        match r {
            Ok(b) => png_encoding(width, height, rgba@) == Ok::<Seq<u8>, Seq<char>>(b@),
            Err(m) => png_encoding(width, height, rgba@) == Err::<Seq<u8>, Seq<char>>(m@),
        },
{
    let buffer: image::ImageBuffer<image::Rgba<u8>, Vec<u8>> = image::ImageBuffer::from_raw(width, height, rgba).expect("buffer holds the pixels");
    let mut bytes: Vec<u8> = Vec::new();
    match buffer.write_to(&mut std::io::Cursor::new(&mut bytes), image::ImageFormat::Png) {
        Ok(()) => Ok(bytes),
        Err(e) => Err(e.to_string()),
    }
}

/// The snapshot of an image of `width` x `height` RGBA8 pixels, as
/// values: `UnsupportedFormat` (1) when a dimension does not fit in a
/// `u32` or the bytes are fewer than the pixels need, else the PNG
/// encoding, or a backend error (2) with the encoder's message.
pub open spec fn png_snapshot(width: usize, height: usize, bytes: Seq<u8>) -> Result<
    SnapshotView,
    (int, Seq<char>),
> {
    if width > u32::MAX || height > u32::MAX || 4 * width * height > bytes.len() {
        Err((1, Seq::empty()))
    } else {
        match png_encoding(width as u32, height as u32, bytes) {
            Ok(png) => Ok(SnapshotView::Image { bytes: png, mime: "image/png"@ }),
            Err(m) => Err((2, "png encode: "@ + m)),
        }
    }
}

/// The snapshot of a clipboard image of `width` x `height` RGBA8 pixels,
/// re-encoded as PNG: `UnsupportedFormat` when a dimension does not fit
/// in a `u32` or the bytes are fewer than the pixels need; a backend
/// error `png encode: <message>` when encoding fails.
pub fn image_to_png_snapshot(width: usize, height: usize, bytes: Vec<u8>) -> (r: Result<
    ClipboardSnapshot,
    ClipboardError,
>)
    ensures
        read_view(r) == png_snapshot(width, height, bytes@),
{
    if width > 0xFFFF_FFFF || height > 0xFFFF_FFFF {
        return Err(ClipboardError::UnsupportedFormat);
    }
    let w = width as u64;
    let h = height as u64;
    assert(4 * w * h <= 4 * 0xFFFF_FFFFu64 * 0xFFFF_FFFFu64) by (nonlinear_arith)
        requires
            w <= 0xFFFF_FFFF,
            h <= 0xFFFF_FFFF,
    ;
    let need: u128 = 4 * (w as u128) * (h as u128);
    if need > bytes.len() as u128 {
        return Err(ClipboardError::UnsupportedFormat);
    }
    match encode_png(width as u32, height as u32, bytes) {
        Ok(png) => Ok(ClipboardSnapshot::Image { bytes: png, mime: String::from_str("image/png") }),
        Err(m) => Err(ClipboardError::Backend(crate::store::concat_str("png encode: ", m.as_str()))),
    }
}

/// The second step of a read, from the answer to the request for an
/// image (width, height, RGBA8 bytes): the image re-encoded as PNG;
/// nothing available goes on to the text (`None`); a conversion failure
/// is `UnsupportedFormat`, any other failure a backend error.
pub fn image_step(answer: Result<(usize, usize, Vec<u8>), PasteboardError>) -> (r: Option<
    Result<ClipboardSnapshot, ClipboardError>,
>)
    ensures
        match answer {
            Ok((w, h, bytes)) => r matches Some(x) && read_view(x) == png_snapshot(w, h, bytes@),
            Err(PasteboardError::ContentNotAvailable) => r is None,
            Err(PasteboardError::ConversionFailure(_)) => r == Some(
                Err::<ClipboardSnapshot, ClipboardError>(ClipboardError::UnsupportedFormat),
            ),
            Err(e) => r matches Some(x) && read_view(x) == Err::<SnapshotView, (int, Seq<char>)>(
                (2, backend_failure(e)),
            ),
        },
{
    match answer {
        Ok((w, h, bytes)) => Some(image_to_png_snapshot(w, h, bytes)),
        Err(PasteboardError::ContentNotAvailable) => None,
        Err(PasteboardError::ConversionFailure(_)) => Some(Err(ClipboardError::UnsupportedFormat)),
        Err(e) => Some(Err(backend_error(e))),
    }
}

/// The last step of a read, from the answer to the request for text: the
/// text; nothing available is `Empty`; no clipboard is a backend error;
/// any other failure is `UnsupportedFormat`.
pub fn text_step(answer: Result<String, PasteboardError>) -> (r: Result<ClipboardSnapshot, ClipboardError>)
    ensures
        match answer {
            Ok(t) => r == Ok::<ClipboardSnapshot, ClipboardError>(ClipboardSnapshot::Text(t)),
            Err(PasteboardError::ContentNotAvailable) => r == Err::<ClipboardSnapshot, ClipboardError>(
                ClipboardError::Empty,
            ),
            Err(PasteboardError::ClipboardNotSupported) => read_view(r) == Err::<
                SnapshotView,
                (int, Seq<char>),
            >((2, "clipboard not supported"@)),
            Err(_) => r == Err::<ClipboardSnapshot, ClipboardError>(ClipboardError::UnsupportedFormat),
        },
{
    match answer {
        Ok(t) => Ok(ClipboardSnapshot::Text(t)),
        Err(PasteboardError::ContentNotAvailable) => Err(ClipboardError::Empty),
        Err(PasteboardError::ClipboardNotSupported) => Err(
            ClipboardError::Backend(String::from_str("clipboard not supported")),
        ),
        Err(_) => Err(ClipboardError::UnsupportedFormat),
    }
}

} // verus!
