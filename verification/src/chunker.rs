//! Cutting a stream of audio samples into fixed-size chunks.
//!
//! Samples arrive in pieces of any length; a chunk is handed out as soon as
//! enough of them are buffered, and the rest waits for the next piece. How
//! the stream was split into pieces does not change which chunks come out
//! (`lemma_chunks_independent_of_split`).

use vstd::prelude::*;
use std::collections::VecDeque;

verus! {

/// The full chunks of `n` samples that `s` holds, in order.
pub open spec fn full_chunks<T>(s: Seq<T>, n: nat) -> Seq<Seq<T>>
    decreases s.len(),
{
    if n == 0 || s.len() < n {
        Seq::empty()
    } else {
        seq![s.take(n as int)] + full_chunks(s.skip(n as int), n)
    }
}

/// What is left of `s` once its full chunks of `n` samples are cut off.
pub open spec fn leftover<T>(s: Seq<T>, n: nat) -> Seq<T>
    decreases s.len(),
{
    if n == 0 || s.len() < n {
        s
    } else {
        leftover(s.skip(n as int), n)
    }
}

/// The samples of a sequence of chunks, one after the other.
pub open spec fn concat<T>(chunks: Seq<Seq<T>>) -> Seq<T>
    decreases chunks.len(),
{
    if chunks.len() == 0 {
        Seq::empty()
    } else {
        chunks[0] + concat(chunks.drop_first())
    }
}

/// Cutting `x + b` gives the chunks of `x`, then the chunks of what `x`
/// left over followed by `b`; the two leave the same samples over.
pub proof fn lemma_chunks_of_append<T>(x: Seq<T>, b: Seq<T>, n: nat)
    requires
        n > 0,
    ensures
        full_chunks(x + b, n) == full_chunks(x, n) + full_chunks(leftover(x, n) + b, n),
        leftover(x + b, n) == leftover(leftover(x, n) + b, n),
    decreases x.len(),
{
    if x.len() < n {
        assert(full_chunks(x, n) =~= Seq::<Seq<T>>::empty());
        assert(full_chunks(x, n) + full_chunks(leftover(x, n) + b, n) =~= full_chunks(leftover(x, n) + b, n));
    } else {
        let xb = x + b;
        assert(xb.take(n as int) =~= x.take(n as int));
        assert(xb.skip(n as int) =~= x.skip(n as int) + b);
        lemma_chunks_of_append(x.skip(n as int), b, n);
        assert(full_chunks(xb, n) =~= seq![x.take(n as int)] + full_chunks(x.skip(n as int) + b, n));
        assert(full_chunks(x, n) =~= seq![x.take(n as int)] + full_chunks(x.skip(n as int), n));
        assert(full_chunks(xb, n) =~= full_chunks(x, n) + full_chunks(leftover(x, n) + b, n));
    }
}

/// Every chunk holds `n` samples, and the chunks followed by what is left
/// over give back the samples that went in, in order.
pub proof fn lemma_chunks_keep_every_sample<T>(s: Seq<T>, n: nat)
    requires
        n > 0,
    ensures
        concat(full_chunks(s, n)) + leftover(s, n) == s,
        leftover(s, n).len() < n,
        forall|i: int| 0 <= i < full_chunks(s, n).len() ==> (#[trigger] full_chunks(s, n)[i]).len() == n,
    decreases s.len(),
{
    if s.len() >= n {
        lemma_chunks_keep_every_sample(s.skip(n as int), n);
        let rest = full_chunks(s.skip(n as int), n);
        let all = full_chunks(s, n);
        assert(all =~= seq![s.take(n as int)] + rest);
        assert(all.drop_first() =~= rest);
        assert(concat(all) == s.take(n as int) + concat(rest));
        assert(concat(all) + leftover(s, n) =~= s.take(n as int) + (concat(rest) + leftover(s.skip(n as int), n)));
        assert(s =~= s.take(n as int) + s.skip(n as int));
        assert forall|i: int| 0 <= i < all.len() implies (#[trigger] all[i]).len() == n by {
            if i > 0 {
                assert(all[i] == rest[i - 1]);
            }
        }
    } else {
        assert(concat(full_chunks(s, n)) + leftover(s, n) =~= s);
    }
}

/// Feeding `a` and then `b` behind the `pending` samples hands out the
/// same chunks, and leaves the same samples waiting, as feeding `a + b` at
/// once: how the stream is split into pieces does not matter.
pub proof fn lemma_chunks_independent_of_split<T>(pending: Seq<T>, a: Seq<T>, b: Seq<T>, n: nat)
    requires
        n > 0,
    ensures
        full_chunks(pending + a + b, n)
            == full_chunks(pending + a, n) + full_chunks(leftover(pending + a, n) + b, n),
        leftover(pending + a + b, n) == leftover(leftover(pending + a, n) + b, n),
{
    lemma_chunks_of_append(pending + a, b, n);
}

/// The views of a list of chunks.
pub open spec fn chunks_view<T>(v: Seq<Vec<T>>) -> Seq<Seq<T>> {
    v.map_values(|c: Vec<T>| c@)
}

/// The chunks handed out on one pass, from `pending` samples in chunks of
/// `n`, and the samples left waiting.
pub open spec fn ready_spec<T>(pending: Seq<T>, n: nat, recording: bool) -> (Seq<Seq<T>>, Seq<T>) {
    let first: Seq<Seq<T>> = if pending.len() >= n { seq![pending.take(n as int)] } else { Seq::empty() };
    let rest = if pending.len() >= n { pending.skip(n as int) } else { pending };
    if !recording && rest.len() > 0 {
        (first.push(rest), Seq::empty())
    } else if !recording {
        (first, Seq::empty())
    } else {
        (first, rest)
    }
}

/// Moves the first `n` samples of `buf` into a new vector.
pub(crate) fn take_front<T>(buf: &mut VecDeque<T>, n: usize) -> (out: Vec<T>)
    requires
        n <= old(buf)@.len(),
    ensures
        out@ == old(buf)@.take(n as int),
        final(buf)@ == old(buf)@.skip(n as int),
{
    let ghost orig = buf@;
    let mut out: Vec<T> = Vec::new();
    let mut i: usize = 0;
    while i < n
        invariant
            i <= n,
            n <= orig.len(),
            out@ == orig.take(i as int),
            buf@ == orig.skip(i as int),
        decreases n - i,
    {
        let x = buf.pop_front();
        match x {
            Some(v) => {
                out.push(v);
            },
            None => {},
        }
        assert(orig.take(i + 1) =~= orig.take(i as int).push(orig[i as int]));
        assert(orig.skip(i + 1) =~= orig.skip(i as int).subrange(1, orig.skip(i as int).len() as int));
        i = i + 1;
    }
    out
}

/// A buffer of samples that hands them out in chunks of `chunk_size`.
pub struct SampleChunker<T> {
    buffer: VecDeque<T>,
    chunk_size: usize,
}

impl<T: Copy> SampleChunker<T> {
    /// The samples waiting to be handed out, oldest first.
    pub closed spec fn pending(&self) -> Seq<T> {
        self.buffer@
    }

    /// The number of samples in a chunk.
    pub closed spec fn size(&self) -> nat {
        self.chunk_size as nat
    }

    /// An empty buffer handing out chunks of `chunk_size` samples.
    pub fn new(chunk_size: usize) -> (c: Self)
        requires
            chunk_size > 0,
        ensures
            c.pending() == Seq::<T>::empty(),
            c.size() == chunk_size,
    {
        SampleChunker { buffer: VecDeque::new(), chunk_size }
    }

    /// The number of samples in a chunk.
    pub fn chunk_size(&self) -> (r: usize)
        ensures
            r == self.size(),
    {
        self.chunk_size
    }

    /// The number of samples waiting.
    pub fn len(&self) -> (r: usize)
        ensures
            r == self.pending().len(),
    {
        self.buffer.len()
    }

    /// Appends `samples` behind those waiting.
    pub fn push(&mut self, samples: &[T])
        ensures
            final(self).pending() == old(self).pending() + samples@,
            final(self).size() == old(self).size(),
    {
        let ghost before = self.buffer@;
        let mut i: usize = 0;
        while i < samples.len()
            invariant
                i <= samples.len(),
                self.buffer@ == before + samples@.take(i as int),
                self.chunk_size == old(self).chunk_size,
            decreases samples.len() - i,
        {
            self.buffer.push_back(samples[i]);
            assert(samples@.take(i + 1) =~= samples@.take(i as int).push(samples@[i as int]));
            i = i + 1;
        }
        assert(samples@.take(samples.len() as int) =~= samples@);
    }

    /// The next full chunk, taken out of the buffer, or `None` while fewer
    /// than `chunk_size` samples wait.
    pub fn next_chunk(&mut self) -> (r: Option<Vec<T>>)
        requires
            old(self).size() > 0,
        ensures
            final(self).size() == old(self).size(),
            match r {
                Some(c) => {
                    &&& full_chunks(old(self).pending(), old(self).size()).len() > 0
                    &&& c@ == full_chunks(old(self).pending(), old(self).size())[0]
                    &&& final(self).pending() == old(self).pending().skip(old(self).size() as int)
                    &&& full_chunks(final(self).pending(), old(self).size())
                        == full_chunks(old(self).pending(), old(self).size()).drop_first()
                },
                None => {
                    &&& full_chunks(old(self).pending(), old(self).size()).len() == 0
                    &&& final(self).pending() == old(self).pending()
                },
            },
            leftover(final(self).pending(), final(self).size())
                == leftover(old(self).pending(), old(self).size()),
    {
        if self.buffer.len() >= self.chunk_size {
            let ghost s = self.buffer@;
            let ghost n = self.chunk_size as nat;
            let c = take_front(&mut self.buffer, self.chunk_size);
            assert(full_chunks(s, n) =~= seq![s.take(n as int)] + full_chunks(s.skip(n as int), n));
            assert(full_chunks(s, n).drop_first() =~= full_chunks(s.skip(n as int), n));
            Some(c)
        } else {
            None
        }
    }

    /// The chunks to handle on one pass of a loop that stops when recording
    /// does: the next full chunk, if there is one, and, once recording has
    /// stopped, every sample still waiting after it.
    pub fn ready_chunks(&mut self, recording: bool) -> (r: Vec<Vec<T>>)
        requires
            old(self).size() > 0,
        ensures
            final(self).size() == old(self).size(),
            chunks_view(r@) == ready_spec(old(self).pending(), old(self).size(), recording).0,
            final(self).pending() == ready_spec(old(self).pending(), old(self).size(), recording).1,
    {
        let mut ready: Vec<Vec<T>> = Vec::new();
        match self.next_chunk() {
            Some(c) => {
                ready.push(c);
            },
            None => {},
        }
        if !recording && self.buffer.len() > 0 {
            let rest = self.take_rest();
            ready.push(rest);
        }
        let ghost p = old(self).pending();
        let ghost n = old(self).size();
        assert(chunks_view(ready@) =~= ready_spec(p, n, recording).0);
        ready
    }

    /// Takes out every sample still waiting, however few.
    pub fn take_rest(&mut self) -> (r: Vec<T>)
        ensures
            r@ == old(self).pending(),
            final(self).pending() == Seq::<T>::empty(),
            final(self).size() == old(self).size(),
    {
        let n = self.buffer.len();
        let r = take_front(&mut self.buffer, n);
        assert(old(self).pending().take(n as int) =~= old(self).pending());
        assert(old(self).pending().skip(n as int) =~= Seq::<T>::empty());
        r
    }
}

} // verus!
