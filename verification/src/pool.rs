//! A pool of reusable sample buffers, so that the audio path does not
//! allocate on every callback.
//!
//! Checking a buffer out never waits: when the pool is empty a fresh buffer
//! is handed out instead, and counted as a fallback. A buffer given back is
//! cleared first, and kept only while the pool holds fewer buffers than it
//! was made with.

use vstd::prelude::*;
use crate::mixer::bump;

verus! {

/// A buffer checked out of a pool.
pub struct PooledBuffer<T> {
    buf: Vec<T>,
}

impl<T> View for PooledBuffer<T> {
    type V = Seq<T>;

    closed spec fn view(&self) -> Seq<T> {
        self.buf@
    }
}

impl<T> PooledBuffer<T> {
    /// The samples in the buffer.
    pub fn as_slice(&self) -> (r: &[T])
        ensures
            r@ == self@,
    {
        self.buf.as_slice()
    }

    /// The number of samples in the buffer.
    pub fn len(&self) -> (r: usize)
        ensures
            r == self@.len(),
    {
        self.buf.len()
    }

    /// Whether the buffer holds no sample.
    pub fn is_empty(&self) -> (r: bool)
        ensures
            r == (self@.len() == 0),
    {
        self.buf.len() == 0
    }

    /// The buffer itself, to be filled.
    pub fn as_mut_vec(&mut self) -> (r: &mut Vec<T>)
        ensures
            r@ == old(self)@,
            final(self)@ == final(r)@,
    {
        &mut self.buf
    }

    /// The buffer's samples, kept by the caller; the buffer does not go
    /// back to the pool.
    pub fn into_vec(self) -> (r: Vec<T>)
        ensures
            r@ == self@,
    {
        self.buf
    }
}

/// A pool of `count` reusable buffers.
pub struct BufferPool<T> {
    free: Vec<Vec<T>>,
    count: usize,
    checkouts: u32,
    fallbacks: u32,
}

impl<T> BufferPool<T> {
    /// The buffers that can be handed out: all of them empty, no more than
    /// the pool was made with.
    pub closed spec fn well_formed(&self) -> bool {
        &&& self.free@.len() <= self.count
        &&& forall|i: int| 0 <= i < self.free@.len() ==> (#[trigger] self.free@[i])@.len() == 0
    }

    /// The number of buffers waiting in the pool.
    pub closed spec fn available(&self) -> nat {
        self.free@.len()
    }

    /// The number of buffers the pool was made with.
    pub closed spec fn capacity(&self) -> nat {
        self.count as nat
    }

    /// Buffers handed out from the pool, and fresh buffers handed out when
    /// it was empty.
    pub closed spec fn counts(&self) -> (u32, u32) {
        (self.checkouts, self.fallbacks)
    }

    /// A pool of `count` empty buffers, each with room for `capacity`
    /// samples.
    pub fn new(count: usize, capacity: usize) -> (p: Self)
        ensures
            p.well_formed(),
            p.available() == count,
            p.capacity() == count,
            p.counts() == (0u32, 0u32),
    {
        let mut free: Vec<Vec<T>> = Vec::new();
        let mut i: usize = 0;
        while i < count
            invariant
                i <= count,
                free@.len() == i,
                forall|j: int| 0 <= j < i ==> (#[trigger] free@[j])@.len() == 0,
            decreases count - i,
        {
            free.push(Vec::with_capacity(capacity));
            i = i + 1;
        }
        BufferPool { free, count, checkouts: 0, fallbacks: 0 }
    }

    /// An empty buffer: one from the pool, counted as a checkout, or a fresh
    /// one when the pool is empty, counted as a fallback.
    pub fn checkout(&mut self) -> (b: PooledBuffer<T>)
        requires
            old(self).well_formed(),
        ensures
            final(self).well_formed(),
            b@.len() == 0,
            final(self).capacity() == old(self).capacity(),
            old(self).available() > 0 ==> final(self).available() == old(self).available() - 1
                && final(self).counts() == (bump(old(self).counts().0), old(self).counts().1),
            old(self).available() == 0 ==> final(self).available() == 0
                && final(self).counts() == (old(self).counts().0, bump(old(self).counts().1)),
    {
        match self.free.pop() {
            Some(buf) => {
                self.checkouts = self.checkouts.wrapping_add(1);
                PooledBuffer { buf }
            },
            None => {
                self.fallbacks = self.fallbacks.wrapping_add(1);
                PooledBuffer { buf: Vec::new() }
            },
        }
    }

    /// Gives a buffer back: it is cleared, and kept while the pool holds
    /// fewer buffers than it was made with.
    pub fn give_back(&mut self, b: PooledBuffer<T>)
        requires
            old(self).well_formed(),
        ensures
            final(self).well_formed(),
            final(self).capacity() == old(self).capacity(),
            final(self).counts() == old(self).counts(),
            final(self).available() == if old(self).available() < old(self).capacity() {
                old(self).available() + 1
            } else {
                old(self).available()
            },
    {
        let mut buf = b.buf;
        buf.clear();
        if self.free.len() < self.count {
            self.free.push(buf);
        }
    }

    /// Buffers handed out from the pool, and fresh buffers handed out when
    /// it was empty.
    pub fn stats(&self) -> (r: (u32, u32))
        ensures
            r == self.counts(),
    {
        (self.checkouts, self.fallbacks)
    }
}

} // verus!
