//! The slot store that every circular buffer of this crate is built on, and
//! the sequence model in which their contracts are stated.

use vstd::prelude::*;

verus! {

/// The last `n` elements of `s`, or all of `s` when it holds no more than `n`.
pub open spec fn retain_last<T>(s: Seq<T>, n: nat) -> Seq<T> {
    if s.len() <= n {
        s
    } else {
        s.subrange(s.len() - n, s.len() as int)
    }
}

/// The order in which the slots hold the contents `s` (oldest first) of a
/// buffer whose next write goes to slot `cursor`: the newest `cursor`
/// elements sit in the slots before the cursor, the older ones behind it.
pub open spec fn storage_order<T>(s: Seq<T>, cursor: nat) -> Seq<T>
    recommends
        cursor <= s.len(),
{
    s.subrange(s.len() - cursor, s.len() as int) + s.subrange(0, s.len() - cursor)
}

/// What a buffer of capacity `n` holds, oldest first, once `items` have been
/// written one by one into an empty buffer.
pub open spec fn after_writes<T>(items: Seq<T>, n: nat) -> Seq<T>
    decreases items.len(),
{
    if items.len() == 0 {
        Seq::empty()
    } else {
        retain_last(after_writes(items.drop_last(), n).push(items.last()), n)
    }
}

/// The values behind a sequence of references.
pub open spec fn values<T>(refs: Seq<&T>) -> Seq<T> {
    Seq::new(refs.len(), |i: int| *refs[i])
}

/// Slot `i` counted past the end of `n` slots comes round to the start.
pub open spec fn wrap_index(i: int, n: int) -> int {
    if i >= n {
        i - n
    } else {
        i
    }
}

/// Writing `items` into an empty buffer of capacity `n` leaves the last `n`
/// of them, in the order in which they were written: all of them while no
/// more than `n` were written, and exactly `n` from then on, the earlier ones
/// having given way.
pub proof fn lemma_writes_keep_latest<T>(items: Seq<T>, n: nat)
    ensures
        after_writes(items, n) == retain_last(items, n),
        items.len() >= n ==> after_writes(items, n).len() == n,
        forall|i: int|
            0 <= i < n && items.len() >= n ==> #[trigger] after_writes(items, n)[i] == items[
                items.len() - n + i],
    decreases items.len(),
{
    if items.len() > 0 {
        lemma_writes_keep_latest(items.drop_last(), n);
        assert(retain_last(retain_last(items.drop_last(), n).push(items.last()), n)
            =~= retain_last(items, n));
    }
}

/// Reading the last `k` elements of a buffer of capacity `n >= k` gives the
/// last `k` writes, oldest first, however many writes came before them.
pub proof fn lemma_last_of_latest<T>(items: Seq<T>, n: nat, k: nat)
    requires
        k <= n,
    ensures
        retain_last(after_writes(items, n), k) == retain_last(items, k),
{
    lemma_writes_keep_latest(items, n);
    assert(retain_last(retain_last(items, n), k) =~= retain_last(items, k));
}

/// The slot order is a rearrangement of the contents: both hold the same
/// elements, each as often as the other.
pub proof fn lemma_storage_order_permutes<T>(s: Seq<T>, cursor: nat)
    requires
        cursor <= s.len(),
    ensures
        storage_order(s, cursor).len() == s.len(),
        storage_order(s, cursor).to_multiset() == s.to_multiset(),
{
    let older = s.subrange(0, s.len() - cursor);
    let newer = s.subrange(s.len() - cursor, s.len() as int);
    assert(older + newer =~= s);
    vstd::seq_lib::lemma_multiset_commutative(older, newer);
    vstd::seq_lib::lemma_multiset_commutative(newer, older);
    assert(newer.to_multiset().add(older.to_multiset()) =~= older.to_multiset().add(
        newer.to_multiset(),
    ));
}

/// Stepping a cursor by one slot, modulo the number of slots.
pub proof fn lemma_advance(cursor: int, n: int)
    requires
        0 <= cursor < n,
    ensures
        (cursor + 1) % n == wrap_index(cursor + 1, n),
{
    if cursor + 1 == n {
        vstd::arithmetic::div_mod::lemma_mod_self_0(n);
    } else {
        vstd::arithmetic::div_mod::lemma_small_mod((cursor + 1) as nat, n as nat);
    }
}

/// A fixed number of optional slots, a write cursor, and a count of how often
/// the cursor has come round.
pub struct Ring<T> {
    slots: Vec<Option<T>>,
    write_index: usize,
    loop_count: usize,
}

impl<T> Ring<T> {
    /// There is at least one slot, the cursor names one, and the occupied
    /// slots are all of them once the cursor has come round, and exactly
    /// those before the cursor until then.
    pub closed spec fn wf(&self) -> bool {
        &&& self.slots@.len() > 0
        &&& self.write_index < self.slots@.len()
        &&& self.loop_count > 0 ==> forall|i: int|
            0 <= i < self.slots@.len() ==> (#[trigger] self.slots@[i]) is Some
        &&& self.loop_count == 0 ==> forall|i: int|
            0 <= i < self.slots@.len() ==> ((#[trigger] self.slots@[i]) is Some <==> i
                < self.write_index)
    }

    /// The number of slots.
    pub closed spec fn capacity(&self) -> nat {
        self.slots@.len()
    }

    /// The slot that the next write goes to.
    pub closed spec fn cursor(&self) -> nat {
        self.write_index as nat
    }

    /// The contents, oldest first.
    pub closed spec fn view(&self) -> Seq<T> {
        if self.loop_count > 0 {
            Seq::new(
                self.slots@.len(),
                |i: int|
                    self.slots@[wrap_index(self.write_index + i, self.slots@.len() as int)].unwrap(),
            )
        } else {
            Seq::new(self.write_index as nat, |i: int| self.slots@[i].unwrap())
        }
    }

    /// A well-formed ring never holds more than its capacity, and its cursor
    /// counts the contents until the ring is full.
    pub proof fn lemma_bounds(&self)
        requires
            self.wf(),
        ensures
            self.capacity() > 0,
            self.cursor() < self.capacity(),
            self@.len() <= self.capacity(),
            self@.len() < self.capacity() ==> self.cursor() == self@.len(),
    {
    }

    /// An empty ring of `capacity` slots.
    pub fn new(capacity: usize) -> (ring: Self)
        requires
            capacity > 0,
        ensures
            ring.wf(),
            ring.capacity() == capacity,
            ring.cursor() == 0,
            ring@ == Seq::<T>::empty(),
    {
        let mut slots: Vec<Option<T>> = Vec::new();
        let mut filled: usize = 0;
        while filled < capacity
            invariant
                filled <= capacity,
                slots@.len() == filled,
                forall|i: int| 0 <= i < filled ==> (#[trigger] slots@[i]) is None,
            decreases capacity - filled,
        {
            slots.push(None);
            filled += 1;
        }
        Ring { slots, write_index: 0, loop_count: 0 }
    }

    /// Writes `item` at the cursor and advances it; once every slot is taken
    /// the oldest element gives way.
    pub fn store(&mut self, item: T)
        requires
            old(self).wf(),
        ensures
            final(self).wf(),
            final(self).capacity() == old(self).capacity(),
            final(self)@ == retain_last(old(self)@.push(item), old(self).capacity()),
            final(self).cursor() == (old(self).cursor() + 1) % old(self).capacity(),
        no_unwind
    {
        let n = self.slots.len();
        let w = self.write_index;
        proof {
            lemma_advance(w as int, n as int);
        }
        self.slots[w] = Some(item);
        self.write_index = (w + 1) % n;
        if self.write_index == 0 && self.loop_count < usize::MAX {
            self.loop_count += 1;
        }
        assert(self@ =~= retain_last(old(self)@.push(item), old(self).capacity()));
    }

    /// The `last_n` most recent elements, oldest first: as many of them as the
    /// ring holds. The walk starts `last_n` slots before the cursor and skips
    /// the slots that were never written.
    pub fn read_last(&self, last_n: usize) -> (fifo: Vec<&T>)
        requires
            self.wf(),
            last_n <= self.capacity(),
        ensures
            values(fifo@) == retain_last(self@, last_n as nat),
    {
        let n = self.slots.len();
        let mut fifo: Vec<&T> = Vec::new();
        let mut read_index = if self.write_index >= last_n {
            self.write_index - last_n
        } else {
            n - (last_n - self.write_index)
        };
        let ghost held = self@.len() as int;
        let ghost skipped = if held >= last_n { 0 } else { last_n - held };
        let ghost first = if held >= last_n { held - last_n } else { 0 };
        let mut step: usize = 0;
        while step < last_n
            invariant
                self.wf(),
                n == self.slots@.len(),
                last_n <= n,
                step <= last_n,
                held == self@.len(),
                skipped == if held >= last_n { 0 } else { last_n - held },
                first == if held >= last_n { held - last_n } else { 0 },
                read_index == wrap_index(self.write_index + n - last_n + step, n as int),
                fifo@.len() == if step >= skipped { step - skipped } else { 0 },
                forall|i: int| 0 <= i < fifo@.len() ==> *(#[trigger] fifo@[i]) == self@[first + i],
            decreases last_n - step,
        {
            proof {
                lemma_advance(read_index as int, n as int);
            }
            match &self.slots[read_index] {
                Some(value) => {
                    fifo.push(value);
                },
                None => {},
            }
            read_index = (read_index + 1) % n;
            step += 1;
        }
        assert(values(fifo@) =~= retain_last(self@, last_n as nat));
        fifo
    }

    /// All the contents, oldest first.
    pub fn read_all(&self) -> (fifo: Vec<&T>)
        requires
            self.wf(),
        ensures
            values(fifo@) == self@,
    {
        self.read_last(self.slots.len())
    }

    /// All the contents in slot order.
    pub fn read_unordered(&self) -> (stored: Vec<&T>)
        requires
            self.wf(),
        ensures
            values(stored@) == storage_order(self@, self.cursor()),
    {
        let n = self.slots.len();
        let mut stored: Vec<&T> = Vec::new();
        let mut slot: usize = 0;
        while slot < n
            invariant
                self.wf(),
                n == self.slots@.len(),
                slot <= n,
                stored@.len() == if self.loop_count > 0 || slot <= self.write_index {
                    slot
                } else {
                    self.write_index
                },
                forall|i: int|
                    0 <= i < stored@.len() ==> Some(*(#[trigger] stored@[i])) == self.slots@[i],
            decreases n - slot,
        {
            match &self.slots[slot] {
                Some(value) => {
                    stored.push(value);
                },
                None => {},
            }
            slot += 1;
        }
        assert(values(stored@) =~= storage_order(self@, self.cursor()));
        stored
    }

    /// Whether every slot has been written at least once.
    pub fn is_full(&self) -> (full: bool)
        requires
            self.wf(),
        ensures
            full == (self@.len() == self.capacity()),
    {
        self.loop_count > 0
    }
}

} // verus!
