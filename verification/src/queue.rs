//! A bounded first-in, first-out buffer that forgets its oldest entry when
//! a new one arrives and no slot is free.

use vstd::prelude::*;

verus! {

/// Number of entries a [`Queue`] can hold.
pub const QUEUE_CAPACITY: usize = 10;

/// A ring buffer over a fixed array of optional slots.
///
/// `head` is the slot that `pop` reads, `tail` the slot that `push` writes.
/// The occupied slots are exactly those from `head` up to, not including,
/// `tail`, going round the end of the array; when the two indices meet, the
/// buffer is empty if the slot there is free and full if it is taken.
///
/// The view is the sequence of buffered values, oldest first.
#[derive(Debug)]
pub struct Queue<T> {
    head: usize,
    tail: usize,
    data: [Option<T>; QUEUE_CAPACITY],
}

/// What a queue holds after `value` has been pushed onto one holding
/// `buffered`: the value goes to the back, and where the queue was full the
/// oldest entry is dropped to make room.
pub open spec fn pushed<T>(buffered: Seq<T>, value: T) -> Seq<T> {
    if buffered.len() < QUEUE_CAPACITY {
        buffered.push(value)
    } else {
        buffered.drop_first().push(value)
    }
}

/// What a queue holds after each of `values` has been pushed in turn onto
/// one holding `buffered`.
pub open spec fn pushed_all<T>(buffered: Seq<T>, values: Seq<T>) -> Seq<T>
    decreases values.len(),
{
    if values.len() == 0 {
        buffered
    } else {
        pushed(pushed_all(buffered, values.drop_last()), values.last())
    }
}

/// What one `pop` returns from a queue holding `buffered`.
pub open spec fn front<T>(buffered: Seq<T>) -> Option<T> {
    if buffered.len() > 0 {
        Some(buffered[0])
    } else {
        None
    }
}

/// What a queue holds after one `pop` from one holding `buffered`.
pub open spec fn popped<T>(buffered: Seq<T>) -> Seq<T> {
    if buffered.len() > 0 {
        buffered.drop_first()
    } else {
        buffered
    }
}

/// The results of `count` successive calls of `pop` on a queue holding
/// `buffered`.
pub open spec fn drained<T>(buffered: Seq<T>, count: nat) -> Seq<Option<T>>
    decreases count,
{
    if count == 0 {
        Seq::empty()
    } else {
        seq![front(buffered)] + drained(popped(buffered), (count - 1) as nat)
    }
}

/// Index of the slot that lies `steps` slots after slot `from`, going round
/// the end of the array.
spec fn slot_after(from: int, steps: int) -> int {
    if from + steps < QUEUE_CAPACITY {
        from + steps
    } else {
        from + steps - QUEUE_CAPACITY
    }
}

/// Number of slots to go from slot `from` forward to slot `to`.
spec fn slots_between(from: int, to: int) -> int {
    if to >= from {
        to - from
    } else {
        to + QUEUE_CAPACITY - from
    }
}

impl<T> Queue<T> {
    /// Number of occupied slots.
    pub closed spec fn count(self) -> int {
        if self.head == self.tail {
            if self.data[self.head as int] is Some {
                QUEUE_CAPACITY as int
            } else {
                0
            }
        } else {
            slots_between(self.head as int, self.tail as int)
        }
    }

    /// The invariant of the ring: both indices are in range and the occupied
    /// slots are the `count` slots that start at `head`.
    #[verifier::type_invariant]
    pub closed spec fn wf(self) -> bool {
        &&& self.head < QUEUE_CAPACITY
        &&& self.tail < QUEUE_CAPACITY
        &&& forall|i: int|
            0 <= i < QUEUE_CAPACITY ==> ((#[trigger] self.data[i]) is Some <==> slots_between(
                self.head as int,
                i,
            ) < self.count())
    }

}

impl<T> View for Queue<T> {
    type V = Seq<T>;

    /// The buffered values, oldest first.
    closed spec fn view(&self) -> Seq<T> {
        Seq::new(self.count() as nat, |k: int| self.data[slot_after(self.head as int, k)]->0)
    }
}

impl<T: Copy> Queue<T> {
    /// Creates an empty queue.
    pub fn new() -> (q: Self)
        ensures
            q.wf(),
            q@ == Seq::<T>::empty(),
    {
        let q = Queue { head: 0, tail: 0, data: [None;QUEUE_CAPACITY] };
        assert(q@ =~= Seq::<T>::empty());
        q
    }

    /// Appends `value` at the back. A full queue first gives up its oldest
    /// entry, so the call never fails.
    pub fn push(&mut self, value: T)
        ensures
            final(self).wf(),
            final(self)@ == pushed(old(self)@, value),
    {
        proof {
            use_type_invariant(&*self);
        }
        let full = self.data[self.tail].is_some();
        let head = if full {
            (self.head + 1) % QUEUE_CAPACITY
        } else {
            self.head
        };
        let tail = (self.tail + 1) % QUEUE_CAPACITY;
        let mut data = self.data;
        data[self.tail] = Some(value);
        let after = Queue { head, tail, data };
        proof {
            lemma_push(*self, after, value);
        }
        *self = after;
    }

    /// Removes the oldest entry and returns it, or returns `None` and leaves
    /// the queue as it is when nothing is buffered.
    pub fn pop(&mut self) -> (r: Option<T>)
        ensures
            final(self).wf(),
            r == front(old(self)@),
            final(self)@ == popped(old(self)@),
    {
        proof {
            use_type_invariant(&*self);
            lemma_front(*self);
        }
        let value = self.data[self.head];
        if value.is_none() {
            return None;
        }
        let mut data = self.data;
        data[self.head] = None;
        let head = (self.head + 1) % QUEUE_CAPACITY;
        let after = Queue { head, tail: self.tail, data };
        proof {
            lemma_pop(*self, after);
        }
        *self = after;
        value
    }

    /// Returns the oldest entry without removing it, or `None` when nothing
    /// is buffered.
    pub fn peek(&self) -> (r: Option<T>)
        ensures
            r == front(self@),
    {
        proof {
            use_type_invariant(self);
            lemma_front(*self);
        }
        self.data[self.head]
    }

    /// Number of buffered entries.
    pub fn len(&self) -> (n: usize)
        ensures
            n == self@.len(),
            n <= QUEUE_CAPACITY,
    {
        proof {
            use_type_invariant(self);
        }
        if self.head == self.tail {
            if self.data[self.head].is_some() {
                QUEUE_CAPACITY
            } else {
                0
            }
        } else if self.tail > self.head {
            self.tail - self.head
        } else {
            self.tail + QUEUE_CAPACITY - self.head
        }
    }
}

/// The slot at `head` tells whether anything is buffered, and holds the
/// oldest entry if so.
proof fn lemma_front<T>(q: Queue<T>)
    requires
        q.wf(),
    ensures
        q.data[q.head as int] == front(q@),
        q@.len() == q.count(),
        0 <= q.count() <= QUEUE_CAPACITY,
{
    assert(q.data[q.head as int] is Some <==> slots_between(q.head as int, q.head as int)
        < q.count());
    if q.count() > 0 {
        assert(q@[0] == q.data[slot_after(q.head as int, 0)]->0);
    }
}

/// The ring after a push, against the ring before it.
proof fn lemma_push<T>(before: Queue<T>, after: Queue<T>, value: T)
    requires
        before.wf(),
        after.tail == slot_after(before.tail as int, 1),
        after.head == if before.data[before.tail as int] is Some {
            slot_after(before.head as int, 1)
        } else {
            before.head as int
        },
        after.data@ == before.data@.update(before.tail as int, Some(value)),
    ensures
        after.wf(),
        after@ == pushed(before@, value),
{
    let h = before.head as int;
    let t = before.tail as int;
    let n = before.count();
    lemma_front(before);
    assert(before.data[t] is Some <==> slots_between(h, t) < n);
    let full = before.data[t] is Some;
    assert(full <==> n == QUEUE_CAPACITY);
    assert(after.data[t] == Some(value));
    assert forall|i: int| 0 <= i < QUEUE_CAPACITY && i != t implies #[trigger] after.data[i]
        == before.data[i] by {
        assert(after.data@[i] == before.data@[i]);
    }
    let m = if full {
        QUEUE_CAPACITY as int
    } else {
        n + 1
    };
    assert(after.count() == m);
    assert forall|i: int| 0 <= i < QUEUE_CAPACITY implies ((#[trigger] after.data[i]) is Some
        <==> slots_between(after.head as int, i) < m) by {
        assert(before.data[i] is Some <==> slots_between(h, i) < n);
    }
    let expected = pushed(before@, value);
    assert(after@.len() == expected.len());
    assert forall|k: int| 0 <= k < m implies after@[k] == expected[k] by {
        let s = slot_after(after.head as int, k);
        assert(after@[k] == after.data[s]->0);
        if full {
            if k < m - 1 {
                assert(s == slot_after(h, k + 1));
                assert(before@[k + 1] == before.data[slot_after(h, k + 1)]->0);
                assert(expected[k] == before@[k + 1]);
            } else {
                assert(s == t);
            }
        } else {
            if k < n {
                assert(s == slot_after(h, k));
                assert(before@[k] == before.data[s]->0);
                assert(s != t);
            } else {
                assert(s == t);
            }
        }
    }
    assert(after@ =~= expected);
}

/// The ring after a pop that found an entry, against the ring before it.
proof fn lemma_pop<T>(before: Queue<T>, after: Queue<T>)
    requires
        before.wf(),
        before.data[before.head as int] is Some,
        after.tail == before.tail,
        after.head == slot_after(before.head as int, 1),
        after.data@ == before.data@.update(before.head as int, None),
    ensures
        after.wf(),
        after@ == popped(before@),
{
    let h = before.head as int;
    let n = before.count();
    lemma_front(before);
    assert(after.data[h] == None::<T>);
    assert forall|i: int| 0 <= i < QUEUE_CAPACITY && i != h implies #[trigger] after.data[i]
        == before.data[i] by {
        assert(after.data@[i] == before.data@[i]);
    }
    assert(before.data[after.head as int] is Some <==> slots_between(h, after.head as int) < n);
    assert(after.count() == n - 1);
    assert forall|i: int| 0 <= i < QUEUE_CAPACITY implies ((#[trigger] after.data[i]) is Some
        <==> slots_between(after.head as int, i) < n - 1) by {
        assert(before.data[i] is Some <==> slots_between(h, i) < n);
    }
    let expected = popped(before@);
    assert(after@.len() == expected.len());
    assert forall|k: int| 0 <= k < n - 1 implies after@[k] == expected[k] by {
        let s = slot_after(after.head as int, k);
        assert(after@[k] == after.data[s]->0);
        assert(s == slot_after(h, k + 1));
        assert(s != h);
        assert(before@[k + 1] == before.data[s]->0);
        assert(expected[k] == before@[k + 1]);
    }
    assert(after@ =~= expected);
}

impl<T: Copy> Default for Queue<T> {
    fn default() -> (q: Self)
        ensures
            q.wf(),
            q@ == Seq::<T>::empty(),
    {
        Self::new()
    }
}

/// The values that are still buffered once all of `values` have been pushed
/// onto an empty queue: the newest `QUEUE_CAPACITY` of them, in the order in
/// which they were pushed.
pub open spec fn newest<T>(values: Seq<T>) -> Seq<T> {
    if values.len() <= QUEUE_CAPACITY {
        values
    } else {
        values.subrange(values.len() - QUEUE_CAPACITY, values.len() as int)
    }
}

/// A queue never holds more than `QUEUE_CAPACITY` entries; a push keeps it
/// within that bound, and the value pushed is then its newest entry.
pub proof fn lemma_capacity<T>(q: Queue<T>, value: T)
    requires
        q.wf(),
    ensures
        q@.len() <= QUEUE_CAPACITY,
        pushed(q@, value).len() <= QUEUE_CAPACITY,
        pushed(q@, value).last() == value,
{
}

/// Pushing any number of values onto an empty queue leaves the newest
/// `QUEUE_CAPACITY` of them buffered, oldest first.
pub proof fn lemma_pushed_all_keeps_newest<T>(values: Seq<T>)
    ensures
        pushed_all(Seq::<T>::empty(), values) == newest(values),
    decreases values.len(),
{
    if values.len() > 0 {
        lemma_pushed_all_keeps_newest(values.drop_last());
        assert(pushed(newest(values.drop_last()), values.last()) =~= newest(values));
    }
}

/// Popping `count` times from a queue that holds at least `count` entries
/// returns its first `count` entries in order.
pub proof fn lemma_drained_in_order<T>(buffered: Seq<T>, count: nat)
    requires
        count <= buffered.len(),
    ensures
        drained(buffered, count) == Seq::new(count, |i: int| Some(buffered[i])),
    decreases count,
{
    if count > 0 {
        lemma_drained_in_order(popped(buffered), (count - 1) as nat);
    }
    assert(drained(buffered, count) =~= Seq::new(count, |i: int| Some(buffered[i])));
}

/// First in, first out: after at most `QUEUE_CAPACITY` pushes onto an empty
/// queue, as many pops return the pushed values in the order of the pushes.
pub proof fn lemma_fifo_order<T>(values: Seq<T>)
    requires
        values.len() <= QUEUE_CAPACITY,
    ensures
        drained(pushed_all(Seq::<T>::empty(), values), values.len()) == Seq::new(
            values.len(),
            |i: int| Some(values[i]),
        ),
{
    lemma_pushed_all_keeps_newest(values);
    lemma_drained_in_order(values, values.len());
}

/// Overwrite of the oldest: after one push more than the queue can hold, the
/// first value pushed is gone, and `QUEUE_CAPACITY` pops return the second
/// to the last value in the order of the pushes.
pub proof fn lemma_overwrite_oldest<T>(values: Seq<T>)
    requires
        values.len() == QUEUE_CAPACITY + 1,
    ensures
        drained(pushed_all(Seq::<T>::empty(), values), QUEUE_CAPACITY as nat) == Seq::new(
            QUEUE_CAPACITY as nat,
            |i: int| Some(values[i + 1]),
        ),
        drained(pushed_all(Seq::<T>::empty(), values), QUEUE_CAPACITY as nat + 1).last()
            == None::<T>,
{
    lemma_pushed_all_keeps_newest(values);
    let kept = newest(values);
    lemma_drained_in_order(kept, QUEUE_CAPACITY as nat);
    assert(drained(kept, QUEUE_CAPACITY as nat) =~= Seq::new(
        QUEUE_CAPACITY as nat,
        |i: int| Some(values[i + 1]),
    ));
    lemma_drained_last_of_exhausted(kept);
}

/// One pop more than a queue holds entries returns `None` at the end.
pub proof fn lemma_drained_last_of_exhausted<T>(buffered: Seq<T>)
    ensures
        drained(buffered, buffered.len() + 1).last() == None::<T>,
    decreases buffered.len(),
{
    if buffered.len() > 0 {
        lemma_drained_last_of_exhausted(popped(buffered));
        let rest = drained(popped(buffered), buffered.len());
        assert(rest.len() > 0) by {
            lemma_drained_len(popped(buffered), buffered.len());
        }
        assert((seq![front(buffered)] + rest).last() == rest.last());
    } else {
        assert(drained(popped(buffered), 0) =~= Seq::<Option<T>>::empty());
        assert(drained(buffered, 1) =~= seq![None::<T>]);
    }
}

/// `count` pops give `count` results.
pub proof fn lemma_drained_len<T>(buffered: Seq<T>, count: nat)
    ensures
        drained(buffered, count).len() == count,
    decreases count,
{
    if count > 0 {
        lemma_drained_len(popped(buffered), (count - 1) as nat);
    }
}

} // verus!
