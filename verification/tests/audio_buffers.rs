use quick_capture::chunker::SampleChunker;
use quick_capture::mixer::{needs_system_resampler, AudioMixerRingBuffer, MixerHealth};
use quick_capture::pool::BufferPool;
use quick_capture::vad::{ContinuousVadProcessor, VadTransition, VAD_CHUNK_SAMPLES};

fn soft_clip(sample: f32) -> f32 {
    let abs = sample.abs();
    if abs > 1.0 {
        sample / abs
    } else {
        sample
    }
}

fn mix(m: f32, s: f32) -> f32 {
    soft_clip(m + s)
}

fn drain_all(c: &mut SampleChunker<i32>) -> Vec<Vec<i32>> {
    let mut out = Vec::new();
    while let Some(chunk) = c.next_chunk() {
        out.push(chunk);
    }
    out
}

#[test]
fn chunker_hands_out_full_chunks_in_order() {
    let mut c = SampleChunker::new(4);
    c.push(&[1, 2, 3]);
    assert!(c.next_chunk().is_none());
    c.push(&[4, 5, 6, 7, 8, 9]);
    assert_eq!(c.next_chunk(), Some(vec![1, 2, 3, 4]));
    assert_eq!(c.next_chunk(), Some(vec![5, 6, 7, 8]));
    assert_eq!(c.next_chunk(), None);
    assert_eq!(c.len(), 1);
    assert_eq!(c.take_rest(), vec![9]);
    assert_eq!(c.len(), 0);
}

#[test]
fn chunker_output_does_not_depend_on_how_input_is_split() {
    let audio: Vec<i32> = (0..2500).collect();
    let mut whole = SampleChunker::new(480);
    whole.push(&audio);
    let mut one_pass = drain_all(&mut whole);
    one_pass.push(whole.take_rest());

    let mut pieces = SampleChunker::new(480);
    let mut chunked = Vec::new();
    for piece in audio.chunks(333) {
        pieces.push(piece);
        chunked.extend(drain_all(&mut pieces));
    }
    chunked.push(pieces.take_rest());
    assert_eq!(one_pass, chunked);
    assert_eq!(chunked.len(), 6);
    assert_eq!(chunked[5].len(), 100);
}

#[test]
fn vad_chunks_are_thirty_milliseconds_and_last_one_is_padded() {
    let mut vad = ContinuousVadProcessor::new(16000, 0i16);
    assert!(!vad.needs_resampling());
    vad.push_samples(&vec![7i16; 1000]);
    let first = vad.next_chunk().unwrap();
    let second = vad.next_chunk().unwrap();
    assert_eq!(first.len(), VAD_CHUNK_SAMPLES);
    assert_eq!(second.len(), 480);
    assert!(vad.next_chunk().is_none());
    let last = vad.flush_chunk().unwrap();
    assert_eq!(last.len(), 480);
    assert!(last[..40].iter().all(|&s| s == 7));
    assert!(last[40..].iter().all(|&s| s == 0));
    assert!(vad.flush_chunk().is_none());
}

#[test]
fn vad_resamples_other_rates() {
    let vad = ContinuousVadProcessor::new(48000, 0.0f32);
    assert!(vad.needs_resampling());
}

#[test]
fn vad_speech_end_without_samples_uses_heard_speech() {
    let mut vad = ContinuousVadProcessor::new(16000, 0i16);
    let chunk_a = vec![1i16; 480];
    let chunk_b = vec![2i16; 480];
    vad.apply_transitions(&chunk_a, &vec![VadTransition::SpeechStart { timestamp_ms: 10 }]);
    assert!(vad.in_speech());
    vad.apply_transitions(&chunk_b, &vec![]);
    vad.apply_transitions(
        &vec![3i16; 480],
        &vec![VadTransition::SpeechEnd { start_timestamp_ms: 10, end_timestamp_ms: 60, samples: vec![] }],
    );
    assert!(!vad.in_speech());
    assert_eq!(vad.processed_samples(), 1440);
    let segs = vad.take_segments();
    assert_eq!(segs.len(), 1);
    assert_eq!(segs[0].samples.len(), 960);
    assert_eq!(segs[0].samples[0], 1);
    assert_eq!(segs[0].samples[959], 2);
    assert_eq!(segs[0].start_sample, 160);
    assert_eq!(segs[0].end_sample, 960);
    assert!(vad.take_segments().is_empty());
}

#[test]
fn vad_speech_end_prefers_detector_samples() {
    let mut vad = ContinuousVadProcessor::new(16000, 0i16);
    vad.apply_transitions(&vec![1i16; 480], &vec![VadTransition::SpeechStart { timestamp_ms: 0 }]);
    vad.apply_transitions(
        &vec![1i16; 480],
        &vec![VadTransition::SpeechEnd { start_timestamp_ms: 0, end_timestamp_ms: 30, samples: vec![9i16; 5] }],
    );
    let segs = vad.take_segments();
    assert_eq!(segs.len(), 1);
    assert_eq!(segs[0].samples, vec![9i16; 5]);
    assert_eq!(segs[0].end_sample, 480);
}

#[test]
fn vad_empty_speech_makes_no_segment() {
    let mut vad = ContinuousVadProcessor::new(16000, 0i16);
    vad.apply_transitions(
        &vec![1i16; 480],
        &vec![
            VadTransition::SpeechStart { timestamp_ms: 5 },
            VadTransition::SpeechEnd { start_timestamp_ms: 5, end_timestamp_ms: 20, samples: vec![] },
        ],
    );
    assert!(vad.take_segments().is_empty());
    assert!(!vad.in_speech());
}

#[test]
fn vad_finish_ends_speech_in_progress() {
    let mut vad = ContinuousVadProcessor::new(16000, 0i16);
    vad.apply_transitions(&vec![4i16; 480], &vec![]);
    vad.apply_transitions(&vec![5i16; 480], &vec![VadTransition::SpeechStart { timestamp_ms: 15 }]);
    vad.finish_speech();
    assert!(!vad.in_speech());
    let segs = vad.take_segments();
    assert_eq!(segs.len(), 1);
    assert_eq!(segs[0].samples, vec![5i16; 480]);
    assert_eq!(segs[0].start_sample, 480 + 240);
    assert_eq!(segs[0].end_sample, 960);
}

#[test]
fn vad_finish_without_speech_does_nothing() {
    let mut vad = ContinuousVadProcessor::new(16000, 0i16);
    vad.apply_transitions(&vec![4i16; 480], &vec![]);
    vad.finish_speech();
    assert!(vad.take_segments().is_empty());
}

#[test]
fn mic_only_passthrough() {
    let mut mixer = AudioMixerRingBuffer::new(16000, false, 0.0f32);
    let samples = vec![0.5f32; 9600];
    mixer.push_mic(&samples);
    let out = mixer.extract_mixed(mix).unwrap();
    assert_eq!(out.len(), 9600);
    assert!((out[0] - 0.5).abs() < 1e-6);
}

#[test]
fn mic_only_returns_none_when_insufficient() {
    let mut mixer = AudioMixerRingBuffer::new(16000, false, 0.0f32);
    mixer.push_mic(&vec![0.1; 100]);
    assert!(mixer.extract_mixed(mix).is_none());
}

#[test]
fn equal_signals_sum() {
    let mut mixer = AudioMixerRingBuffer::new(16000, true, 0.0f32);
    let window = (16000.0 * 0.6) as usize;
    mixer.push_mic(&vec![0.3; window]);
    mixer.push_system(&vec![0.2; window]);
    let out = mixer.extract_mixed(mix).unwrap();
    assert_eq!(out.len(), window);
    assert!((out[0] - 0.5).abs() < 1e-6);
}

#[test]
fn soft_clipping_prevents_overflow() {
    let mut mixer = AudioMixerRingBuffer::new(16000, true, 0.0f32);
    let window = (16000.0 * 0.6) as usize;
    mixer.push_mic(&vec![0.8; window]);
    mixer.push_system(&vec![0.8; window]);
    let out = mixer.extract_mixed(mix).unwrap();
    for &s in &out {
        assert!(s.abs() <= 1.0, "sample {} exceeds 1.0", s);
    }
}

#[test]
fn zero_padding_when_system_behind() {
    let mut mixer = AudioMixerRingBuffer::new(16000, true, 0.0f32);
    let window = (16000.0 * 0.6) as usize;
    mixer.push_mic(&vec![0.5; window]);
    let out = mixer.extract_mixed(mix).unwrap();
    assert_eq!(out.len(), window);
    assert!((out[0] - 0.5).abs() < 1e-6);
}

#[test]
fn overflow_trims_oldest() {
    let mut mixer = AudioMixerRingBuffer::new(16000, true, 0.0f32);
    let huge = vec![0.1; mixer.max_buffer_samples() + 5000];
    mixer.push_mic(&huge);
    assert!(mixer.mic_buffered() <= mixer.max_buffer_samples());
}

#[test]
fn drain_remaining_mixes_uneven_buffers() {
    let mut mixer = AudioMixerRingBuffer::new(16000, true, 0.0f32);
    mixer.push_mic(&vec![0.4; 1000]);
    mixer.push_system(&vec![0.3; 500]);
    let out = mixer.drain_remaining(mix);
    assert_eq!(out.len(), 1000);
    assert!((out[0] - 0.7).abs() < 1e-6);
    assert!((out[500] - 0.4).abs() < 1e-6);
}

#[test]
fn health_counters_track_overflow_and_pads() {
    let mut mixer = AudioMixerRingBuffer::new(16000, true, 0.0f32);
    let huge = vec![0.1; mixer.max_buffer_samples() + 5000];
    mixer.push_mic(&huge);
    assert!(mixer.overflow_mic() > 0);
    assert_eq!(mixer.overflow_sys(), 0);

    let window = (16000.0 * 0.6) as usize;
    mixer.push_mic(&vec![0.5; window]);
    let _ = mixer.extract_mixed(mix);
    assert!(mixer.zero_pad_count() > 0);
}

#[test]
fn multiple_windows_extracted_sequentially() {
    let mut mixer = AudioMixerRingBuffer::new(16000, true, 0.0f32);
    let window = (16000.0 * 0.6) as usize;
    mixer.push_mic(&vec![0.1; window * 3]);
    mixer.push_system(&vec![0.2; window * 3]);

    let out1 = mixer.extract_mixed(mix).unwrap();
    let out2 = mixer.extract_mixed(mix).unwrap();
    let out3 = mixer.extract_mixed(mix).unwrap();
    assert_eq!(out1.len(), window);
    assert_eq!(out2.len(), window);
    assert_eq!(out3.len(), window);
    assert!(mixer.extract_mixed(mix).is_none());
}

#[test]
fn same_rate_skips_resampler() {
    assert!(!needs_system_resampler(48000, Some(48000), true));
    assert!(needs_system_resampler(16000, Some(48000), true));
    assert!(!needs_system_resampler(16000, Some(48000), false));
    assert!(!needs_system_resampler(16000, None, true));
}

#[test]
fn bluetooth_windows_are_longer_and_buffers_deeper() {
    let normal = AudioMixerRingBuffer::new(16000, true, 0i16);
    let bt = AudioMixerRingBuffer::with_bluetooth(16000, true, true, 0i16);
    assert_eq!(normal.window_samples(), 9600);
    assert_eq!(normal.max_buffer_samples(), 76800);
    assert_eq!(bt.window_samples(), 12800);
    assert_eq!(bt.max_buffer_samples(), 153600);
    let cd = AudioMixerRingBuffer::new(44100, false, 0i16);
    assert_eq!(cd.window_samples(), 26460);
}

#[test]
fn partial_window_is_padded_with_silence() {
    let mut mixer = AudioMixerRingBuffer::new(10, true, 0i32);
    assert_eq!(mixer.window_samples(), 6);
    mixer.push_mic(&[1, 2, 3, 4, 5, 6, 7]);
    mixer.push_system(&[10, 20]);
    let out = mixer.extract_mixed(|a: i32, b: i32| a + b).unwrap();
    assert_eq!(out, vec![11, 22, 3, 4, 5, 6]);
    assert_eq!(mixer.zero_pad_count(), 0);
    assert_eq!(mixer.mic_buffered(), 1);
    assert_eq!(mixer.sys_buffered(), 0);
}

#[test]
fn taking_health_resets_counters() {
    let mut mixer = AudioMixerRingBuffer::new(10, true, 0i32);
    mixer.push_mic(&vec![1; 60]);
    mixer.push_system(&vec![1; 3]);
    let h: MixerHealth = mixer.take_health();
    assert_eq!(h.overflow_mic, 1);
    assert_eq!(h.mic_fill, 48);
    assert_eq!(h.sys_fill, 3);
    assert!(h.worth_reporting());
    let again = mixer.take_health();
    assert_eq!(again.overflow_mic, 0);
    let mut idle = AudioMixerRingBuffer::new(10, true, 0i32);
    assert!(!idle.take_health().worth_reporting());
}

#[test]
fn checkout_and_return() {
    let mut pool: BufferPool<f32> = BufferPool::new(4, 1024);
    {
        let mut buf = pool.checkout();
        buf.as_mut_vec().extend_from_slice(&[1.0, 2.0, 3.0]);
        assert_eq!(buf.len(), 3);
        pool.give_back(buf);
    }
    let (checkouts, fallbacks) = pool.stats();
    assert_eq!(checkouts, 1);
    assert_eq!(fallbacks, 0);
}

#[test]
fn exhausted_pool_falls_back() {
    let mut pool: BufferPool<f32> = BufferPool::new(2, 64);
    let _a = pool.checkout();
    let _b = pool.checkout();
    let _c = pool.checkout();
    let (checkouts, fallbacks) = pool.stats();
    assert_eq!(checkouts, 2);
    assert_eq!(fallbacks, 1);
}

#[test]
fn returned_buffer_is_cleared() {
    let mut pool: BufferPool<f32> = BufferPool::new(1, 64);
    {
        let mut buf = pool.checkout();
        buf.as_mut_vec().extend_from_slice(&[1.0, 2.0]);
        pool.give_back(buf);
    }
    let buf = pool.checkout();
    assert!(buf.is_empty());
}

#[test]
fn into_vec_takes_ownership() {
    let mut pool: BufferPool<f32> = BufferPool::new(2, 64);
    let mut buf = pool.checkout();
    buf.as_mut_vec().extend_from_slice(&[1.0, 2.0, 3.0]);
    let v = buf.into_vec();
    assert_eq!(v, vec![1.0, 2.0, 3.0]);
}

#[test]
fn full_pool_drops_extra_buffers() {
    let mut pool: BufferPool<u8> = BufferPool::new(1, 8);
    let a = pool.checkout();
    let b = pool.checkout();
    pool.give_back(a);
    pool.give_back(b);
    let _x = pool.checkout();
    let _y = pool.checkout();
    assert_eq!(pool.stats(), (2, 2));
}

#[test]
fn recording_pass_takes_one_chunk_then_the_rest_when_stopped() {
    let mut c = SampleChunker::new(3);
    c.push(&[1, 2, 3, 4, 5, 6, 7]);
    assert_eq!(c.ready_chunks(true), vec![vec![1, 2, 3]]);
    assert_eq!(c.len(), 4);
    assert_eq!(c.ready_chunks(false), vec![vec![4, 5, 6], vec![7]]);
    assert_eq!(c.len(), 0);
    assert!(c.ready_chunks(false).is_empty());
    c.push(&[8]);
    assert!(c.ready_chunks(true).is_empty());
    assert_eq!(c.ready_chunks(false), vec![vec![8]]);
}
