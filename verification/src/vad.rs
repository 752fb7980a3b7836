//! Cutting continuous audio into speech segments from the transitions that
//! a voice-activity detector reports.
//!
//! The detector itself, and the resampling of the input to 16 kHz, are run
//! by the application: it feeds the samples in, asks this processor for
//! the next 30 ms chunk, runs the detector on it and hands the transitions
//! it reported back. Positions are counted in samples at 16 kHz, so a
//! millisecond is 16 of them.

use vstd::prelude::*;
use std::collections::VecDeque;
use crate::chunker::{SampleChunker, full_chunks, leftover};

verus! {

/// The sample rate the detector works at.
pub const VAD_SAMPLE_RATE: u32 = 16000;

/// Samples in one chunk handed to the detector: 30 ms at 16 kHz.
pub const VAD_CHUNK_SAMPLES: usize = 480;

/// What the detector reports about a chunk.
pub enum VadTransition<T> {
    /// Speech began `timestamp_ms` milliseconds into the chunk.
    SpeechStart { timestamp_ms: usize },
    /// Speech ended; `samples` are the detector's own copy of it, empty when
    /// it kept none.
    SpeechEnd { start_timestamp_ms: usize, end_timestamp_ms: usize, samples: Vec<T> },
}

/// A stretch of speech: its samples and where it starts and ends, in
/// samples at 16 kHz.
pub struct SpeechSegment<T> {
    pub samples: Vec<T>,
    pub start_sample: u128,
    pub end_sample: u128,
}

/// A speech segment as a mathematical value.
pub struct SegmentModel<T> {
    pub samples: Seq<T>,
    pub start: int,
    pub end: int,
}

/// The state of the processor as a mathematical value.
pub struct VadModel<T> {
    /// Samples heard since the current speech began.
    pub current: Seq<T>,
    /// Segments completed and not yet taken.
    pub segments: Seq<SegmentModel<T>>,
    pub in_speech: bool,
    /// Samples handed to the detector so far.
    pub processed: int,
    /// Where the current speech began.
    pub speech_start: int,
}

impl<T> SpeechSegment<T> {
    pub open spec fn model(&self) -> SegmentModel<T> {
        SegmentModel { samples: self.samples@, start: self.start_sample as int, end: self.end_sample as int }
    }
}

/// The models of a list of segments.
pub open spec fn segments_model<T>(v: Seq<SpeechSegment<T>>) -> Seq<SegmentModel<T>> {
    v.map_values(|s: SpeechSegment<T>| s.model())
}

/// The state after one transition.
pub open spec fn after_transition<T>(m: VadModel<T>, t: VadTransition<T>) -> VadModel<T> {
    match t {
        VadTransition::SpeechStart { timestamp_ms } => VadModel {
            in_speech: true,
            speech_start: m.processed + timestamp_ms * 16,
            current: Seq::empty(),
            ..m
        },
        VadTransition::SpeechEnd { start_timestamp_ms, end_timestamp_ms, samples } => {
            let speech = if samples@.len() > 0 { samples@ } else { m.current };
            VadModel {
                in_speech: false,
                current: Seq::empty(),
                segments: if speech.len() > 0 {
                    m.segments.push(SegmentModel {
                        samples: speech,
                        start: start_timestamp_ms * 16,
                        end: end_timestamp_ms * 16,
                    })
                } else {
                    m.segments
                },
                ..m
            }
        },
    }
}

/// The state after the transitions `ts`, in order.
pub open spec fn after_transitions<T>(m: VadModel<T>, ts: Seq<VadTransition<T>>) -> VadModel<T>
    decreases ts.len(),
{
    if ts.len() == 0 {
        m
    } else {
        after_transition(after_transitions(m, ts.drop_last()), ts.last())
    }
}

/// The state after the detector reported `ts` for `chunk`: the transitions
/// apply in order, then the chunk joins the current speech if speech is
/// going on, and counts as processed.
pub open spec fn after_chunk<T>(m: VadModel<T>, chunk: Seq<T>, ts: Seq<VadTransition<T>>) -> VadModel<T> {
    let n = after_transitions(m, ts);
    VadModel {
        current: if n.in_speech { n.current + chunk } else { n.current },
        processed: n.processed + chunk.len(),
        ..n
    }
}

/// Whether a speech start `timestamp_ms` into a chunk, `processed` samples
/// in, can be placed in a `usize` position.
pub open spec fn start_fits(timestamp_ms: int, processed: int) -> bool {
    timestamp_ms * 16000 <= usize::MAX && processed + timestamp_ms * 16 <= usize::MAX
}

/// Whether every speech start in `ts` can be placed.
pub open spec fn starts_fit<T>(ts: Seq<VadTransition<T>>, processed: int) -> bool {
    forall|i: int|
        0 <= i < ts.len() ==> match #[trigger] ts[i] {
            VadTransition::SpeechStart { timestamp_ms } => start_fits(timestamp_ms as int, processed),
            _ => true,
        }
}

/// The segment that forcing the current speech to end would complete, if any.
pub open spec fn finish_model<T>(m: VadModel<T>) -> VadModel<T> {
    if m.in_speech && m.current.len() > 0 {
        VadModel {
            segments: m.segments.push(SegmentModel { samples: m.current, start: m.speech_start, end: m.processed }),
            current: Seq::empty(),
            in_speech: false,
            ..m
        }
    } else {
        m
    }
}

/// The part of a voice-activity processor that decides: it buffers the
/// 16 kHz samples, hands them out in chunks for the detector, and turns the
/// transitions the detector reports into completed speech segments.
pub struct ContinuousVadProcessor<T> {
    chunker: SampleChunker<T>,
    sample_rate: u32,
    silence: T,
    speech_segments: VecDeque<SpeechSegment<T>>,
    current_speech: Vec<T>,
    in_speech: bool,
    processed_samples: usize,
    speech_start_sample: usize,
}

/// Copies `s` into a new vector.
fn copy_samples<T: Copy>(s: &[T]) -> (r: Vec<T>)
    ensures
        r@ == s@,
{
    let mut r: Vec<T> = Vec::new();
    let mut i: usize = 0;
    while i < s.len()
        invariant
            i <= s.len(),
            r@ == s@.take(i as int),
        decreases s.len() - i,
    {
        r.push(s[i]);
        assert(s@.take(i + 1) =~= s@.take(i as int).push(s@[i as int]));
        i = i + 1;
    }
    assert(s@.take(s.len() as int) =~= s@);
    r
}

impl<T: Copy> ContinuousVadProcessor<T> {
    /// The state as a mathematical value.
    pub closed spec fn model(&self) -> VadModel<T> {
        VadModel {
            current: self.current_speech@,
            segments: segments_model(self.speech_segments@),
            in_speech: self.in_speech,
            processed: self.processed_samples as int,
            speech_start: self.speech_start_sample as int,
        }
    }

    /// The 16 kHz samples waiting to be handed to the detector.
    pub closed spec fn pending(&self) -> Seq<T> {
        self.chunker.pending()
    }

    /// The sample rate of the input.
    pub closed spec fn input_rate(&self) -> u32 {
        self.sample_rate
    }

    /// The value padding the last chunk.
    pub closed spec fn silence_value(&self) -> T {
        self.silence
    }

    pub closed spec fn well_formed(&self) -> bool {
        self.chunker.size() == VAD_CHUNK_SAMPLES
    }

    /// A processor for input at `input_sample_rate`, nothing heard yet;
    /// `silence` pads the last chunk.
    pub fn new(input_sample_rate: u32, silence: T) -> (p: Self)
        ensures
            p.well_formed(),
            p.pending() == Seq::<T>::empty(),
            p.input_rate() == input_sample_rate,
            p.silence_value() == silence,
            p.model() == (VadModel::<T> {
                current: Seq::empty(),
                segments: Seq::empty(),
                in_speech: false,
                processed: 0,
                speech_start: 0,
            }),
    {
        let p = ContinuousVadProcessor {
            chunker: SampleChunker::new(VAD_CHUNK_SAMPLES),
            sample_rate: input_sample_rate,
            silence,
            speech_segments: VecDeque::new(),
            current_speech: Vec::new(),
            in_speech: false,
            processed_samples: 0,
            speech_start_sample: 0,
        };
        assert(segments_model(p.speech_segments@) =~= Seq::<SegmentModel<T>>::empty());
        p
    }

    /// Whether the input must be resampled to 16 kHz before it is pushed.
    pub fn needs_resampling(&self) -> (r: bool)
        ensures
            r == (self.input_rate() != VAD_SAMPLE_RATE),
    {
        self.sample_rate != VAD_SAMPLE_RATE
    }

    /// Whether speech is going on.
    pub fn in_speech(&self) -> (r: bool)
        ensures
            r == self.model().in_speech,
    {
        self.in_speech
    }

    /// The number of samples handed to the detector so far.
    pub fn processed_samples(&self) -> (r: usize)
        ensures
            r == self.model().processed,
    {
        self.processed_samples
    }

    /// Appends 16 kHz samples behind those waiting.
    pub fn push_samples(&mut self, samples: &[T])
        requires
            old(self).well_formed(),
        ensures
            final(self).well_formed(),
            final(self).pending() == old(self).pending() + samples@,
            final(self).model() == old(self).model(),
            final(self).silence_value() == old(self).silence_value(),
            final(self).input_rate() == old(self).input_rate(),
    {
        self.chunker.push(samples);
    }

    /// The next 30 ms chunk for the detector, or `None` while fewer samples
    /// than that wait.
    pub fn next_chunk(&mut self) -> (r: Option<Vec<T>>)
        requires
            old(self).well_formed(),
        ensures
            final(self).well_formed(),
            final(self).model() == old(self).model(),
            final(self).silence_value() == old(self).silence_value(),
            final(self).input_rate() == old(self).input_rate(),
            match r {
                Some(c) => {
                    &&& full_chunks(old(self).pending(), VAD_CHUNK_SAMPLES as nat).len() > 0
                    &&& c@ == full_chunks(old(self).pending(), VAD_CHUNK_SAMPLES as nat)[0]
                    &&& c@.len() == VAD_CHUNK_SAMPLES
                    &&& final(self).pending() == old(self).pending().skip(VAD_CHUNK_SAMPLES as int)
                },
                None => {
                    &&& old(self).pending().len() < VAD_CHUNK_SAMPLES
                    &&& final(self).pending() == old(self).pending()
                },
            },
            leftover(final(self).pending(), VAD_CHUNK_SAMPLES as nat)
                == leftover(old(self).pending(), VAD_CHUNK_SAMPLES as nat),
    {
        self.chunker.next_chunk()
    }

    /// The last, partial chunk: whatever waits, padded with silence to 30 ms,
    /// or `None` when nothing waits.
    pub fn flush_chunk(&mut self) -> (r: Option<Vec<T>>)
        requires
            old(self).well_formed(),
        ensures
            final(self).well_formed(),
            final(self).model() == old(self).model(),
            final(self).pending() == Seq::<T>::empty(),
            final(self).silence_value() == old(self).silence_value(),
            final(self).input_rate() == old(self).input_rate(),
            match r {
                Some(c) => {
                    &&& old(self).pending().len() > 0
                    &&& c@.take(old(self).pending().len() as int) == old(self).pending()
                    &&& c@.len() == if old(self).pending().len() < VAD_CHUNK_SAMPLES {
                        VAD_CHUNK_SAMPLES as int
                    } else {
                        old(self).pending().len() as int
                    }
                    &&& forall|i: int| old(self).pending().len() <= i < c@.len() ==> c@[i] == old(self).silence_value()
                },
                None => old(self).pending().len() == 0,
            },
    {
        if self.chunker.len() == 0 {
            return None;
        }
        let mut padded = self.chunker.take_rest();
        let ghost rest = padded@;
        while padded.len() < VAD_CHUNK_SAMPLES
            invariant
                padded@.len() <= VAD_CHUNK_SAMPLES || padded@.len() == rest.len(),
                padded@.len() >= rest.len(),
                padded@.take(rest.len() as int) == rest,
                forall|i: int| rest.len() <= i < padded@.len() ==> padded@[i] == self.silence,
            decreases VAD_CHUNK_SAMPLES - padded.len(),
        {
            let ghost before = padded@;
            padded.push(self.silence);
            assert(padded@.take(rest.len() as int) =~= before.take(rest.len() as int));
        }
        Some(padded)
    }

    /// Applies the transitions the detector reported for `chunk`, in order;
    /// then the chunk joins the current speech if speech is going on, and
    /// counts as processed.
    pub fn apply_transitions(&mut self, chunk: &[T], transitions: &Vec<VadTransition<T>>)
        requires
            old(self).well_formed(),
            starts_fit(transitions@, old(self).model().processed),
            old(self).model().processed + chunk@.len() <= usize::MAX,
        ensures
            final(self).well_formed(),
            final(self).model() == after_chunk(old(self).model(), chunk@, transitions@),
            final(self).pending() == old(self).pending(),
            final(self).silence_value() == old(self).silence_value(),
            final(self).input_rate() == old(self).input_rate(),
    {
        let ghost m0 = self.model();
        let mut i: usize = 0;
        while i < transitions.len()
            invariant
                i <= transitions.len(),
                self.well_formed(),
                self.model() == after_transitions(m0, transitions@.take(i as int)),
                self.processed_samples == m0.processed,
                starts_fit(transitions@, m0.processed),
                self.pending() == old(self).pending(),
                self.silence == old(self).silence,
                self.sample_rate == old(self).sample_rate,
            decreases transitions.len() - i,
        {
            assert(transitions@.take(i + 1).drop_last() =~= transitions@.take(i as int));
            assert(transitions@.take(i + 1).last() == transitions@[i as int]);
            let ghost before = self.model();
            match &transitions[i] {
                VadTransition::SpeechStart { timestamp_ms } => {
                    assert(start_fits(*timestamp_ms as int, m0.processed));
                    self.in_speech = true;
                    self.speech_start_sample = self.processed_samples + (*timestamp_ms * 16000 / 1000);
                    self.current_speech = Vec::new();
                },
                VadTransition::SpeechEnd { start_timestamp_ms, end_timestamp_ms, samples } => {
                    self.in_speech = false;
                    let speech = if samples.len() > 0 {
                        copy_samples(samples.as_slice())
                    } else {
                        copy_samples(self.current_speech.as_slice())
                    };
                    if speech.len() > 0 {
                        let seg = SpeechSegment {
                            samples: speech,
                            start_sample: (*start_timestamp_ms as u128) * 16,
                            end_sample: (*end_timestamp_ms as u128) * 16,
                        };
                        let ghost old_segs = self.speech_segments@;
                        self.speech_segments.push_back(seg);
                        assert(segments_model(self.speech_segments@) =~= segments_model(old_segs).push(seg.model()));
                    }
                    self.current_speech = Vec::new();
                },
            }
            assert(self.model() =~= after_transition(before, transitions@[i as int]));
            i = i + 1;
        }
        assert(transitions@.take(transitions.len() as int) =~= transitions@);
        if self.in_speech {
            let mut j: usize = 0;
            let ghost cur = self.current_speech@;
            let ghost segs = self.speech_segments@;
            let ghost start = self.speech_start_sample;
            let ghost chunker_before = self.chunker;
            while j < chunk.len()
                invariant
                    j <= chunk.len(),
                    self.current_speech@ == cur + chunk@.take(j as int),
                    self.speech_segments@ == segs,
                    self.speech_start_sample == start,
                    self.in_speech,
                    self.chunker == chunker_before,
                    self.processed_samples == m0.processed,
                    self.silence == old(self).silence,
                    self.sample_rate == old(self).sample_rate,
                decreases chunk.len() - j,
            {
                self.current_speech.push(chunk[j]);
                assert(chunk@.take(j + 1) =~= chunk@.take(j as int).push(chunk@[j as int]));
                j = j + 1;
            }
            assert(chunk@.take(chunk.len() as int) =~= chunk@);
        }
        self.processed_samples = self.processed_samples + chunk.len();
    }

    /// Ends the speech still going on, if any was heard, as a segment from
    /// where it began to the last processed sample.
    pub fn finish_speech(&mut self)
        requires
            old(self).well_formed(),
        ensures
            final(self).well_formed(),
            final(self).model() == finish_model(old(self).model()),
            final(self).pending() == old(self).pending(),
            final(self).silence_value() == old(self).silence_value(),
            final(self).input_rate() == old(self).input_rate(),
    {
        if self.in_speech && self.current_speech.len() > 0 {
            let speech = copy_samples(self.current_speech.as_slice());
            let seg = SpeechSegment {
                samples: speech,
                start_sample: self.speech_start_sample as u128,
                end_sample: self.processed_samples as u128,
            };
            let ghost old_segs = self.speech_segments@;
            self.speech_segments.push_back(seg);
            assert(segments_model(self.speech_segments@) =~= segments_model(old_segs).push(seg.model()));
            self.current_speech = Vec::new();
            self.in_speech = false;
            assert(self.model() =~= finish_model(old(self).model()));
        }
    }

    /// Takes the completed segments, oldest first.
    pub fn take_segments(&mut self) -> (r: Vec<SpeechSegment<T>>)
        requires
            old(self).well_formed(),
        ensures
            final(self).well_formed(),
            segments_model(r@) == old(self).model().segments,
            final(self).model() == (VadModel::<T> { segments: Seq::empty(), ..old(self).model() }),
            final(self).pending() == old(self).pending(),
            final(self).silence_value() == old(self).silence_value(),
            final(self).input_rate() == old(self).input_rate(),
    {
        let mut queue: VecDeque<SpeechSegment<T>> = VecDeque::new();
        std::mem::swap(&mut queue, &mut self.speech_segments);
        assert(segments_model(self.speech_segments@) =~= Seq::<SegmentModel<T>>::empty());
        let ghost all = queue@;
        let mut r: Vec<SpeechSegment<T>> = Vec::new();
        while queue.len() > 0
            invariant
                segments_model(r@ + queue@) == segments_model(all),
            decreases queue@.len(),
        {
            let ghost before_r = r@;
            let ghost before_q = queue@;
            match queue.pop_front() {
                Some(seg) => {
                    r.push(seg);
                    assert(r@ + queue@ =~= before_r + before_q);
                },
                None => {},
            }
        }
        assert(r@ + queue@ =~= r@);
        r
    }
}

} // verus!
