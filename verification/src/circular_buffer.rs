//! A circular buffer of `N` slots that can also read back only its most
//! recent elements.

use crate::ring::{retain_last, storage_order, values, Ring};
use vstd::prelude::*;

verus! {

/// The last `N` items that were put, overwriting the oldest once full.
pub struct CircularBuffer<const N: usize, T> {
    ring: Ring<T>,
}

impl<const N: usize, T> CircularBuffer<N, T> {
    #[verifier::type_invariant]
    spec fn inv(self) -> bool {
        self.ring.wf() && self.ring.capacity() == N
    }
}

impl<const N: usize, T> View for CircularBuffer<N, T> {
    type V = Seq<T>;

    /// The contents, oldest first.
    closed spec fn view(&self) -> Seq<T> {
        self.ring@
    }
}

impl<const N: usize, T: Copy> CircularBuffer<N, T> {
    /// The slot that the next `put` writes to: below `N`, and equal to the
    /// number of items held until `N` are held.
    pub closed spec fn cursor(&self) -> nat {
        self.ring.cursor()
    }

    /// An empty buffer.
    pub fn new() -> (buffer: Self)
        requires
            N > 0,
        ensures
            buffer@ == Seq::<T>::empty(),
            buffer.cursor() == 0,
            buffer.cursor() < N,
    {
        CircularBuffer { ring: Ring::new(N) }
    }

    /// Appends `item`; once `N` items are held the oldest one gives way.
    pub fn put(&mut self, item: T)
        ensures
            final(self)@ == retain_last(old(self)@.push(item), N as nat),
            final(self).cursor() == (old(self).cursor() + 1) % (N as nat),
            final(self)@.len() <= N,
            final(self).cursor() < N,
            final(self)@.len() < N ==> final(self).cursor() == final(self)@.len(),
        no_unwind
    {
        proof {
            use_type_invariant(&*self);
        }
        self.ring.store(item);
        proof {
            self.ring.lemma_bounds();
        }
    }

    /// All the contents, oldest first.
    pub fn read_fifo_all(&self) -> (fifo: Vec<&T>)
        ensures
            values(fifo@) == self@,
            self@.len() <= N,
            self.cursor() < N,
            self@.len() < N ==> self.cursor() == self@.len(),
    {
        proof {
            use_type_invariant(self);
            self.ring.lemma_bounds();
        }
        self.ring.read_all()
    }

    /// The `last_n` most recent items, oldest first; all of them when fewer
    /// are held.
    pub fn read_fifo_last_n(&self, last_n: usize) -> (fifo: Vec<&T>)
        requires
            last_n <= N,
        ensures
            values(fifo@) == retain_last(self@, last_n as nat),
            self@.len() <= N,
            self.cursor() < N,
            self@.len() < N ==> self.cursor() == self@.len(),
    {
        proof {
            use_type_invariant(self);
            self.ring.lemma_bounds();
        }
        self.ring.read_last(last_n)
    }

    /// All the contents in slot order: the same items as `read_fifo_all`
    /// gives, rotated so that the most recent `cursor()` of them come first.
    pub fn read_unordered(&self) -> (stored: Vec<&T>)
        ensures
            values(stored@) == storage_order(self@, self.cursor()),
            values(stored@).to_multiset() == self@.to_multiset(),
            self@.len() <= N,
            self.cursor() < N,
            self@.len() < N ==> self.cursor() == self@.len(),
    {
        proof {
            use_type_invariant(self);
            self.ring.lemma_bounds();
            crate::ring::lemma_storage_order_permutes(self@, self.cursor());
        }
        self.ring.read_unordered()
    }
}

} // verus!
