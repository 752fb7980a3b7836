//! Buffering of microphone and system audio and their cutting into mixing
//! windows.
//!
//! Both sources are buffered until a window of audio (600 ms, 800 ms for a
//! Bluetooth microphone) is ready; a source that has fallen behind is
//! padded with silence. A buffer that grows past eight windows (twelve for
//! Bluetooth) drops its oldest samples. How two samples are mixed into one,
//! and the resampling of system audio to the microphone's rate, are the
//! caller's: the mixing is handed in as a function.

use vstd::prelude::*;
use std::collections::VecDeque;
use crate::chunker::take_front;

verus! {

/// Milliseconds of audio in a mixing window.
pub open spec fn window_ms(bluetooth: bool) -> int {
    if bluetooth { 800 } else { 600 }
}

/// How many windows a buffer may hold before it drops its oldest samples.
pub open spec fn buffer_windows(bluetooth: bool) -> int {
    if bluetooth { 12 } else { 8 }
}

/// Samples in a window at `mic_rate`.
pub open spec fn window_len(mic_rate: u32, bluetooth: bool) -> int {
    mic_rate * window_ms(bluetooth) / 1000
}

/// The counter after one more event; it wraps past its largest value.
pub open spec fn bump(c: u32) -> u32 {
    if c == u32::MAX { 0 } else { (c + 1) as u32 }
}

/// The counter after one more event if `happened`.
pub open spec fn bump_if(happened: bool, c: u32) -> u32 {
    if happened { bump(c) } else { c }
}

/// The window taken from a buffer holding `buf`: its first `w` samples,
/// or all of it followed by silence up to `w` samples.
pub open spec fn padded_window<T>(buf: Seq<T>, w: nat, silence: T) -> Seq<T> {
    if buf.len() >= w {
        buf.take(w as int)
    } else {
        buf + Seq::new((w - buf.len()) as nat, |i: int| silence)
    }
}

/// What is left of `buf` after its window is taken.
pub open spec fn after_window<T>(buf: Seq<T>, w: nat) -> Seq<T> {
    if buf.len() >= w { buf.skip(w as int) } else { Seq::empty() }
}

/// The buffer after `samples` arrive: the newest `max` samples of the two
/// together.
pub open spec fn after_push<T>(buf: Seq<T>, samples: Seq<T>, max: nat) -> Seq<T> {
    let all = buf + samples;
    if all.len() > max { all.skip(all.len() - max) } else { all }
}

/// A buffer never holds more than its limit, and what it keeps is the
/// newest audio: the end of what it held followed by what arrived.
pub proof fn lemma_push_keeps_newest<T>(buf: Seq<T>, samples: Seq<T>, max: nat)
    ensures
        after_push(buf, samples, max).len() <= max,
        after_push(buf, samples, max).len() <= buf.len() + samples.len(),
        (buf + samples).len() <= max ==> after_push(buf, samples, max) == buf + samples,
        (buf + samples).skip((buf.len() + samples.len()) - after_push(buf, samples, max).len())
            == after_push(buf, samples, max),
{
    let all = buf + samples;
    if all.len() > max {
        assert(all.skip(all.len() - max).len() == max);
    } else {
        assert(all.skip(0) =~= all);
    }
}

/// Sample `i` of `s`, or silence past its end.
pub open spec fn sample_or<T>(s: Seq<T>, i: int, silence: T) -> T {
    if i < s.len() { s[i] } else { silence }
}

/// Whether system audio must be resampled before it is pushed: it is
/// recorded, its rate is known and differs from the microphone's.
pub open spec fn needs_resampler_spec(mic_rate: u32, sys_rate: Option<u32>, has_system: bool) -> bool {
    match sys_rate {
        Some(sr) => sr != mic_rate && has_system,
        None => false,
    }
}

/// Executable `needs_resampler_spec`.
pub fn needs_system_resampler(mic_rate: u32, sys_rate: Option<u32>, has_system: bool) -> (r: bool)
    ensures
        r == needs_resampler_spec(mic_rate, sys_rate, has_system),
{
    match sys_rate {
        Some(sr) => sr != mic_rate && has_system,
        None => false,
    }
}

/// Counters of a mixer since they were last taken, and how full its
/// buffers are.
pub struct MixerHealth {
    pub mic_fill: usize,
    pub sys_fill: usize,
    pub max_buffer_samples: usize,
    pub overflow_mic: u32,
    pub overflow_sys: u32,
    pub zero_pad_count: u32,
}

impl MixerHealth {
    /// Whether anything happened that is worth reporting: an overflow, a
    /// padded window, or audio waiting in a buffer.
    pub fn worth_reporting(&self) -> (r: bool)
        ensures
            r == (self.overflow_mic > 0 || self.overflow_sys > 0 || self.zero_pad_count > 0
                || self.mic_fill > 0 || self.sys_fill > 0),
    {
        self.overflow_mic > 0 || self.overflow_sys > 0 || self.zero_pad_count > 0 || self.mic_fill > 0
            || self.sys_fill > 0
    }
}

/// The two sources of a mixer.
pub enum Source {
    Mic,
    System,
}

/// Buffers of microphone and system audio, cut into mixing windows.
pub struct AudioMixerRingBuffer<T> {
    mic_buffer: VecDeque<T>,
    sys_buffer: VecDeque<T>,
    window_samples: usize,
    max_buffer_samples: usize,
    has_system: bool,
    silence: T,
    overflow_mic: u32,
    overflow_sys: u32,
    zero_pad_count: u32,
}

/// Appends `samples` to `buf`.
fn extend_back<T: Copy>(buf: &mut VecDeque<T>, samples: &[T])
    ensures
        final(buf)@ == old(buf)@ + samples@,
{
    let ghost before = buf@;
    let mut i: usize = 0;
    while i < samples.len()
        invariant
            i <= samples.len(),
            buf@ == before + samples@.take(i as int),
        decreases samples.len() - i,
    {
        buf.push_back(samples[i]);
        assert(samples@.take(i + 1) =~= samples@.take(i as int).push(samples@[i as int]));
        i = i + 1;
    }
    assert(samples@.take(samples.len() as int) =~= samples@);
}

/// Drops the oldest samples of `buf` beyond the newest `max`; whether any
/// were dropped.
fn trim_front<T>(buf: &mut VecDeque<T>, max: usize) -> (trimmed: bool)
    ensures
        trimmed == (old(buf)@.len() > max),
        final(buf)@ == if old(buf)@.len() > max {
            old(buf)@.skip(old(buf)@.len() - max)
        } else {
            old(buf)@
        },
{
    if buf.len() > max {
        let overflow = buf.len() - max;
        let _ = take_front(buf, overflow);
        true
    } else {
        false
    }
}

/// Takes the window of `w` samples out of `buf`, padding with `silence`.
fn window_from<T: Copy>(buf: &mut VecDeque<T>, w: usize, silence: T) -> (out: Vec<T>)
    ensures
        out@ == padded_window(old(buf)@, w as nat, silence),
        final(buf)@ == after_window(old(buf)@, w as nat),
{
    if buf.len() >= w {
        take_front(buf, w)
    } else {
        let n = buf.len();
        let mut out = take_front(buf, n);
        let ghost head = old(buf)@;
        assert(head.take(n as int) =~= head);
        while out.len() < w
            invariant
                n <= out@.len() <= w,
                n == head.len(),
                out@.take(n as int) == head,
                forall|i: int| n <= i < out@.len() ==> out@[i] == silence,
            decreases w - out.len(),
        {
            let ghost before = out@;
            out.push(silence);
            assert(out@.take(n as int) =~= before.take(n as int));
        }
        assert(out@ =~= padded_window(head, w as nat, silence));
        assert(buf@ =~= Seq::<T>::empty());
        out
    }
}

impl<T: Copy> AudioMixerRingBuffer<T> {
    pub closed spec fn mic(&self) -> Seq<T> {
        self.mic_buffer@
    }

    pub closed spec fn sys(&self) -> Seq<T> {
        self.sys_buffer@
    }

    pub closed spec fn window(&self) -> nat {
        self.window_samples as nat
    }

    pub closed spec fn max_samples(&self) -> nat {
        self.max_buffer_samples as nat
    }

    pub closed spec fn mixes_system(&self) -> bool {
        self.has_system
    }

    pub closed spec fn silence_value(&self) -> T {
        self.silence
    }

    pub closed spec fn counters(&self) -> (u32, u32, u32) {
        (self.overflow_mic, self.overflow_sys, self.zero_pad_count)
    }

    /// Everything but the two buffers and the counters is as in `other`.
    pub open spec fn same_setup(&self, other: &Self) -> bool {
        &&& self.window() == other.window()
        &&& self.max_samples() == other.max_samples()
        &&& self.mixes_system() == other.mixes_system()
        &&& self.silence_value() == other.silence_value()
    }

    /// An empty mixer for a microphone at `mic_rate`, with system audio
    /// when `has_system`; windows of 600 ms, 800 ms for Bluetooth.
    pub fn with_bluetooth(mic_rate: u32, has_system: bool, bluetooth: bool, silence: T) -> (m: Self)
        requires
            window_len(mic_rate, bluetooth) * buffer_windows(bluetooth) <= usize::MAX,
        ensures
            m.window() == window_len(mic_rate, bluetooth),
            m.max_samples() == window_len(mic_rate, bluetooth) * buffer_windows(bluetooth),
            m.mixes_system() == has_system,
            m.silence_value() == silence,
            m.mic() == Seq::<T>::empty(),
            m.sys() == Seq::<T>::empty(),
            m.counters() == (0u32, 0u32, 0u32),
    {
        let window_ms: u64 = if bluetooth { 800 } else { 600 };
        let buffer_mult: u64 = if bluetooth { 12 } else { 8 };
        let window: u64 = (mic_rate as u64) * window_ms / 1000;
        assert(window <= u32::MAX) by (nonlinear_arith)
            requires
                window == (mic_rate as u64) * window_ms / 1000,
                window_ms <= 800,
        ;
        let window_samples = window as usize;
        let max_buffer_samples = (window * buffer_mult) as usize;
        AudioMixerRingBuffer {
            mic_buffer: VecDeque::new(),
            sys_buffer: VecDeque::new(),
            window_samples,
            max_buffer_samples,
            has_system,
            silence,
            overflow_mic: 0,
            overflow_sys: 0,
            zero_pad_count: 0,
        }
    }

    /// `with_bluetooth` for a microphone that is not Bluetooth.
    pub fn new(mic_rate: u32, has_system: bool, silence: T) -> (m: Self)
        requires
            window_len(mic_rate, false) * buffer_windows(false) <= usize::MAX,
        ensures
            m.window() == window_len(mic_rate, false),
            m.max_samples() == window_len(mic_rate, false) * buffer_windows(false),
            m.mixes_system() == has_system,
            m.silence_value() == silence,
            m.mic() == Seq::<T>::empty(),
            m.sys() == Seq::<T>::empty(),
            m.counters() == (0u32, 0u32, 0u32),
    {
        Self::with_bluetooth(mic_rate, has_system, false, silence)
    }

    /// Samples in a window.
    pub fn window_samples(&self) -> (r: usize)
        ensures
            r == self.window(),
    {
        self.window_samples
    }

    /// Samples a buffer may hold.
    pub fn max_buffer_samples(&self) -> (r: usize)
        ensures
            r == self.max_samples(),
    {
        self.max_buffer_samples
    }

    /// Samples waiting in the microphone buffer.
    pub fn mic_buffered(&self) -> (r: usize)
        ensures
            r == self.mic().len(),
    {
        self.mic_buffer.len()
    }

    /// Samples waiting in the system buffer.
    pub fn sys_buffered(&self) -> (r: usize)
        ensures
            r == self.sys().len(),
    {
        self.sys_buffer.len()
    }

    /// Times the microphone buffer overflowed since the counters were taken.
    pub fn overflow_mic(&self) -> (r: u32)
        ensures
            r == self.counters().0,
    {
        self.overflow_mic
    }

    /// Times the system buffer overflowed since the counters were taken.
    pub fn overflow_sys(&self) -> (r: u32)
        ensures
            r == self.counters().1,
    {
        self.overflow_sys
    }

    /// Windows padded entirely with silence since the counters were taken.
    pub fn zero_pad_count(&self) -> (r: u32)
        ensures
            r == self.counters().2,
    {
        self.zero_pad_count
    }

    /// Appends microphone samples; past the limit the oldest are dropped
    /// and the overflow is counted.
    pub fn push_mic(&mut self, samples: &[T])
        ensures
            final(self).same_setup(old(self)),
            final(self).mic() == after_push(old(self).mic(), samples@, old(self).max_samples()),
            final(self).sys() == old(self).sys(),
            final(self).counters() == (
                if old(self).mic().len() + samples@.len() > old(self).max_samples() {
                    bump(old(self).counters().0)
                } else {
                    old(self).counters().0
                },
                old(self).counters().1,
                old(self).counters().2,
            ),
    {
        extend_back(&mut self.mic_buffer, samples);
        if trim_front(&mut self.mic_buffer, self.max_buffer_samples) {
            self.overflow_mic = self.overflow_mic.wrapping_add(1);
        }
    }

    /// Appends system samples, already at the microphone's rate; past the
    /// limit the oldest are dropped and the overflow is counted.
    pub fn push_system(&mut self, samples: &[T])
        ensures
            final(self).same_setup(old(self)),
            final(self).sys() == after_push(old(self).sys(), samples@, old(self).max_samples()),
            final(self).mic() == old(self).mic(),
            final(self).counters() == (
                old(self).counters().0,
                if old(self).sys().len() + samples@.len() > old(self).max_samples() {
                    bump(old(self).counters().1)
                } else {
                    old(self).counters().1
                },
                old(self).counters().2,
            ),
    {
        extend_back(&mut self.sys_buffer, samples);
        if trim_front(&mut self.sys_buffer, self.max_buffer_samples) {
            self.overflow_sys = self.overflow_sys.wrapping_add(1);
        }
    }

    /// Takes the window of one source, padded with silence; a window made
    /// of silence alone is counted.
    fn drain_or_pad(&mut self, source: Source) -> (out: Vec<T>)
        ensures
            final(self).same_setup(old(self)),
            match source {
                Source::Mic => {
                    &&& out@ == padded_window(old(self).mic(), old(self).window(), old(self).silence_value())
                    &&& final(self).mic() == after_window(old(self).mic(), old(self).window())
                    &&& final(self).sys() == old(self).sys()
                    &&& final(self).counters() == (
                        old(self).counters().0,
                        old(self).counters().1,
                        if old(self).mic().len() == 0 { bump(old(self).counters().2) } else { old(self).counters().2 },
                    )
                },
                Source::System => {
                    &&& out@ == padded_window(old(self).sys(), old(self).window(), old(self).silence_value())
                    &&& final(self).sys() == after_window(old(self).sys(), old(self).window())
                    &&& final(self).mic() == old(self).mic()
                    &&& final(self).counters() == (
                        old(self).counters().0,
                        old(self).counters().1,
                        if old(self).sys().len() == 0 { bump(old(self).counters().2) } else { old(self).counters().2 },
                    )
                },
            },
    {
        let empty = match source {
            Source::Mic => self.mic_buffer.len() == 0,
            Source::System => self.sys_buffer.len() == 0,
        };
        if empty {
            self.zero_pad_count = self.zero_pad_count.wrapping_add(1);
        }
        match source {
            Source::Mic => window_from(&mut self.mic_buffer, self.window_samples, self.silence),
            Source::System => window_from(&mut self.sys_buffer, self.window_samples, self.silence),
        }
    }

    /// The next window of audio, or `None` while none is ready. Without
    /// system audio it is the next microphone window as it is. With it, a
    /// window is ready once either source has one; the source behind is
    /// padded with silence, and sample `i` of the result is
    /// `mix(mic[i], sys[i])`.
    pub fn extract_mixed<F: Fn(T, T) -> T>(&mut self, mix: F) -> (r: Option<Vec<T>>)
        requires
            forall|a: T, b: T| call_requires(mix, (a, b)),
        ensures
            final(self).same_setup(old(self)),
            !old(self).mixes_system() ==> match r {
                Some(out) => {
                    &&& old(self).mic().len() >= old(self).window()
                    &&& out@ == old(self).mic().take(old(self).window() as int)
                    &&& final(self).mic() == old(self).mic().skip(old(self).window() as int)
                    &&& final(self).sys() == old(self).sys()
                    &&& final(self).counters() == old(self).counters()
                },
                None => {
                    &&& old(self).mic().len() < old(self).window()
                    &&& final(self).mic() == old(self).mic()
                    &&& final(self).sys() == old(self).sys()
                    &&& final(self).counters() == old(self).counters()
                },
            },
            old(self).mixes_system() ==> match r {
                Some(out) => {
                    let w = old(self).window();
                    let s = old(self).silence_value();
                    &&& old(self).mic().len() >= w || old(self).sys().len() >= w
                    &&& out@.len() == w
                    &&& forall|i: int|
                        0 <= i < w ==> call_ensures(
                            mix,
                            (padded_window(old(self).mic(), w, s)[i], padded_window(old(self).sys(), w, s)[i]),
                            #[trigger] out@[i],
                        )
                    &&& final(self).mic() == after_window(old(self).mic(), w)
                    &&& final(self).sys() == after_window(old(self).sys(), w)
                    &&& final(self).counters() == (
                        old(self).counters().0,
                        old(self).counters().1,
                        bump_if(old(self).sys().len() == 0, bump_if(old(self).mic().len() == 0, old(self).counters().2)),
                    )
                },
                None => {
                    &&& old(self).mic().len() < old(self).window()
                    &&& old(self).sys().len() < old(self).window()
                    &&& final(self).mic() == old(self).mic()
                    &&& final(self).sys() == old(self).sys()
                    &&& final(self).counters() == old(self).counters()
                },
            },
    {
        if !self.has_system {
            if self.mic_buffer.len() >= self.window_samples {
                let mic = take_front(&mut self.mic_buffer, self.window_samples);
                return Some(mic);
            }
            return None;
        }
        if self.mic_buffer.len() < self.window_samples && self.sys_buffer.len() < self.window_samples {
            return None;
        }
        let mic_window = self.drain_or_pad(Source::Mic);
        let sys_window = self.drain_or_pad(Source::System);
        let w = self.window_samples;
        let mut mixed: Vec<T> = Vec::new();
        let mut i: usize = 0;
        while i < w
            invariant
                i <= w,
                mic_window@.len() == w,
                sys_window@.len() == w,
                mixed@.len() == i,
                forall|a: T, b: T| call_requires(mix, (a, b)),
                forall|j: int| 0 <= j < i ==> call_ensures(mix, (mic_window@[j], sys_window@[j]), #[trigger] mixed@[j]),
            decreases w - i,
        {
            let v = mix(mic_window[i], sys_window[i]);
            mixed.push(v);
            i = i + 1;
        }
        Some(mixed)
    }

    /// Takes every sample still buffered. Without system audio these are
    /// the microphone's samples; with it, as many samples as the longer
    /// buffer holds, sample `i` being `mix(mic[i], sys[i])` with silence
    /// past the end of the shorter one.
    pub fn drain_remaining<F: Fn(T, T) -> T>(&mut self, mix: F) -> (r: Vec<T>)
        requires
            forall|a: T, b: T| call_requires(mix, (a, b)),
        ensures
            final(self).same_setup(old(self)),
            final(self).counters() == old(self).counters(),
            final(self).mic() == Seq::<T>::empty(),
            !old(self).mixes_system() ==> r@ == old(self).mic() && final(self).sys() == old(self).sys(),
            old(self).mixes_system() ==> {
                let len = if old(self).mic().len() >= old(self).sys().len() {
                    old(self).mic().len()
                } else {
                    old(self).sys().len()
                };
                &&& r@.len() == len
                &&& forall|i: int|
                    0 <= i < len ==> call_ensures(
                        mix,
                        (
                            sample_or(old(self).mic(), i, old(self).silence_value()),
                            sample_or(old(self).sys(), i, old(self).silence_value()),
                        ),
                        #[trigger] r@[i],
                    )
                &&& final(self).sys() == Seq::<T>::empty()
            },
    {
        if !self.has_system {
            let n = self.mic_buffer.len();
            let r = take_front(&mut self.mic_buffer, n);
            assert(old(self).mic().take(n as int) =~= old(self).mic());
            assert(old(self).mic().skip(n as int) =~= Seq::<T>::empty());
            return r;
        }
        let nm = self.mic_buffer.len();
        let ns = self.sys_buffer.len();
        let len = if nm >= ns { nm } else { ns };
        let mic = take_front(&mut self.mic_buffer, nm);
        let sys = take_front(&mut self.sys_buffer, ns);
        assert(mic@ =~= old(self).mic());
        assert(sys@ =~= old(self).sys());
        assert(self.mic_buffer@ =~= Seq::<T>::empty());
        assert(self.sys_buffer@ =~= Seq::<T>::empty());
        let mut out: Vec<T> = Vec::new();
        let mut i: usize = 0;
        while i < len
            invariant
                i <= len,
                len == if mic@.len() >= sys@.len() { mic@.len() } else { sys@.len() },
                out@.len() == i,
                forall|a: T, b: T| call_requires(mix, (a, b)),
                forall|j: int|
                    0 <= j < i ==> call_ensures(
                        mix,
                        (sample_or(mic@, j, self.silence), sample_or(sys@, j, self.silence)),
                        #[trigger] out@[j],
                    ),
            decreases len - i,
        {
            let m = if i < mic.len() { mic[i] } else { self.silence };
            let s = if i < sys.len() { sys[i] } else { self.silence };
            let v = mix(m, s);
            out.push(v);
            i = i + 1;
        }
        out
    }

    /// The counters and buffer fill, the counters then starting again from
    /// zero.
    pub fn take_health(&mut self) -> (h: MixerHealth)
        ensures
            final(self).same_setup(old(self)),
            final(self).mic() == old(self).mic(),
            final(self).sys() == old(self).sys(),
            final(self).counters() == (0u32, 0u32, 0u32),
            h == (MixerHealth {
                mic_fill: old(self).mic().len() as usize,
                sys_fill: old(self).sys().len() as usize,
                max_buffer_samples: old(self).max_samples() as usize,
                overflow_mic: old(self).counters().0,
                overflow_sys: old(self).counters().1,
                zero_pad_count: old(self).counters().2,
            }),
    {
        let h = MixerHealth {
            mic_fill: self.mic_buffer.len(),
            sys_fill: self.sys_buffer.len(),
            max_buffer_samples: self.max_buffer_samples,
            overflow_mic: self.overflow_mic,
            overflow_sys: self.overflow_sys,
            zero_pad_count: self.zero_pad_count,
        };
        self.overflow_mic = 0;
        self.overflow_sys = 0;
        self.zero_pad_count = 0;
        h
    }
}

} // verus!
