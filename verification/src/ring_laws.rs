//! What holds of a ring over any sequence of uses.
//!
//! A ring hands descriptors on in the order in which it got them as long as
//! no enqueue writes over a descriptor that is still queued. Slots follow
//! the counters modulo `QUEUE_SIZE`, and the counters wrap at 2^16, which
//! `QUEUE_SIZE` does not divide: behind the wrap the slots start again at 0,
//! while the counters before it ran up to slot `wrap_skew() - 1`. So a ring
//! that holds `wrap_skew()` descriptors or more while its counters straddle
//! the wrap meets its own tail. [`RingModel::lemma_tail_slot_free`] says
//! exactly when.

use vstd::prelude::*;
use crate::ring::{slot_of, wrap, RingModel, RingOp, QUEUE_SIZE};

verus! {

/// The slot in which the last counter before the wrap would sit, plus one:
/// 2^16 modulo `QUEUE_SIZE`.
pub open spec fn wrap_skew() -> int {
    0x1_0000int % (QUEUE_SIZE as int)
}

/// The operations that enqueue `descs`, one after the other.
pub open spec fn enqueues<T>(descs: Seq<T>) -> Seq<RingOp<T>> {
    Seq::new(descs.len(), |i: int| RingOp::Enqueue(descs[i]))
}

/// `count` dequeues.
pub open spec fn dequeues<T>(count: nat) -> Seq<RingOp<T>> {
    Seq::new(count, |i: int| RingOp::Dequeue)
}

/// Which queued counter shares its slot with the tail counter of a ring
/// that is not full: none while the counters do not straddle the wrap; behind
/// the wrap the one that lies `wrap_skew()` counters before the tail, if it
/// is queued and the tail has not passed slot `wrap_skew() - 1`.
proof fn lemma_meets_tail(head: int, tail: int, i: int)
    requires
        0 <= head < 0x1_0000,
        0 <= tail < 0x1_0000,
        wrap(tail - head) <= QUEUE_SIZE - 2,
        0 <= i < wrap(tail - head),
    ensures
        slot_of(wrap(head + i)) == slot_of(tail) <==> tail < head && tail < wrap_skew() && i
            == wrap(tail - head) - wrap_skew(),
{
    let counter = head + i;
    if head <= tail {
        assert(wrap(tail - head) == tail - head);
        assert(wrap(counter) == counter);
        lemma_near_counters_differ(counter, tail);
    } else {
        assert(wrap(tail - head) == tail - head + 0x1_0000);
        assert(slot_of(tail) == tail);
        if counter < 0x1_0000 {
            // A queued counter before the wrap: at most `QUEUE_SIZE - 2`
            // below 2^16, so in the last or the last but one round of
            // slots, which begin at 42 * 1536 and at 41 * 1536.
            assert(wrap(counter) == counter);
            assert(counter >= 0x1_0000 - (QUEUE_SIZE - 2));
            if counter < 42 * 1536 {
                assert(slot_of(counter) == counter - 41 * 1536);
            } else {
                assert(slot_of(counter) == counter - 42 * 1536);
            }
        } else {
            // A queued counter behind the wrap lies below the tail.
            assert(wrap(counter) == counter - 0x1_0000);
            assert(slot_of(counter - 0x1_0000) == counter - 0x1_0000);
        }
    }
}

/// Two counters less than `QUEUE_SIZE` apart sit in different slots.
proof fn lemma_near_counters_differ(low: int, high: int)
    requires
        0 <= low < high < low + QUEUE_SIZE,
    ensures
        slot_of(low) != slot_of(high),
{
    assert(QUEUE_SIZE == 1536);
    assert(low == 1536 * (low / 1536) + low % 1536);
    assert(high == 1536 * (high / 1536) + high % 1536);
    if low % 1536 == high % 1536 {
        assert(high - low == 1536 * (high / 1536 - low / 1536));
    }
}

/// Reducing a counter before adding to it changes nothing once the sum is
/// reduced.
proof fn lemma_wrap_add(counter: int, more: int)
    ensures
        wrap(wrap(counter) + more) == wrap(counter + more),
{
}

/// Two sequences that begin alike and are equal end alike.
proof fn lemma_same_front_same_rest<T>(front: Seq<T>, a: Seq<T>, b: Seq<T>)
    ensures
        front + a == front + b ==> a == b,
{
    if front + a == front + b {
        assert(a =~= (front + a).subrange(front.len() as int, (front + a).len() as int));
        assert(b =~= (front + b).subrange(front.len() as int, (front + b).len() as int));
    }
}

impl<T> RingModel<T> {
    /// The ring after `ops`, carried out in order.
    pub open spec fn run(self, ops: Seq<RingOp<T>>) -> Self
        decreases ops.len(),
    {
        if ops.len() == 0 {
            self
        } else {
            self.run(ops.drop_last()).apply(ops.last())
        }
    }

    /// The descriptors that the ring took in along `ops`: those of the
    /// enqueues that it accepted, in order.
    pub open spec fn given(self, ops: Seq<RingOp<T>>) -> Seq<T>
        decreases ops.len(),
    {
        if ops.len() == 0 {
            Seq::empty()
        } else {
            let before = self.run(ops.drop_last());
            match ops.last() {
                RingOp::Enqueue(desc) if !before.is_full() => self.given(ops.drop_last()).push(
                    desc,
                ),
                _ => self.given(ops.drop_last()),
            }
        }
    }

    /// The descriptors that the ring gave out along `ops`: what the
    /// dequeues that it accepted returned, in order.
    pub open spec fn taken(self, ops: Seq<RingOp<T>>) -> Seq<T>
        decreases ops.len(),
    {
        if ops.len() == 0 {
            Seq::empty()
        } else {
            let before = self.run(ops.drop_last());
            match ops.last() {
                RingOp::Dequeue if !before.is_empty() => self.taken(ops.drop_last()).push(
                    before.front(),
                ),
                _ => self.taken(ops.drop_last()),
            }
        }
    }

    /// No enqueue that the ring accepts along `ops` changes a descriptor
    /// that is queued at that time.
    pub open spec fn run_keeps_queued(self, ops: Seq<RingOp<T>>) -> bool
        decreases ops.len(),
    {
        if ops.len() == 0 {
            true
        } else {
            let before = self.run(ops.drop_last());
            &&& self.run_keeps_queued(ops.drop_last())
            &&& match ops.last() {
                RingOp::Enqueue(desc) => before.is_full() || before.write_keeps_queued(desc),
                RingOp::Dequeue => true,
            }
        }
    }

    /// The number of enqueues among `ops`, accepted or not.
    pub open spec fn enqueue_count(ops: Seq<RingOp<T>>) -> nat
        decreases ops.len(),
    {
        if ops.len() == 0 {
            0
        } else {
            Self::enqueue_count(ops.drop_last()) + if ops.last() is Enqueue {
                1nat
            } else {
                0nat
            }
        }
    }

    /// When the slot under the tail counter is free. It is taken exactly
    /// when the counters straddle the wrap, the tail has not yet passed slot
    /// `wrap_skew() - 1`, and `wrap_skew()` descriptors or more are queued.
    /// An enqueue into a free slot keeps every queued descriptor.
    pub proof fn lemma_tail_slot_free(self)
        requires
            self.wf(),
            !self.is_full(),
        ensures
            self.tail_slot_free() <==> !(self.tail < self.head && self.tail < wrap_skew()
                && self.size() >= wrap_skew()),
            self.tail_slot_free() ==> forall|desc: T| self.write_keeps_queued(desc),
    {
        self.lemma_full_at_capacity();
        let size = self.size();
        assert forall|i: int| 0 <= i < size implies (#[trigger] self.slot_at(i) == slot_of(
            self.tail,
        ) <==> self.tail < self.head && self.tail < wrap_skew() && i == size - wrap_skew()) by {
            lemma_meets_tail(self.head, self.tail, i);
        }
        if self.tail < self.head && self.tail < wrap_skew() && size >= wrap_skew() {
            assert(self.slot_at(size - wrap_skew()) == slot_of(self.tail));
        }
    }

    /// Over any sequence of enqueues and dequeues the ring keeps its
    /// invariant, and the number of queued descriptors is the number at the
    /// start, plus those taken in, minus those given out. It is never below
    /// zero and never above `QUEUE_SIZE - 1`: the ring takes nothing in when
    /// full and gives nothing out when empty.
    pub proof fn lemma_run_counts(self, ops: Seq<RingOp<T>>)
        requires
            self.wf(),
        ensures
            self.run(ops).wf(),
            self.run(ops).size() == self.size() + self.given(ops).len() - self.taken(ops).len(),
            0 <= self.run(ops).size() <= QUEUE_SIZE - 1,
        decreases ops.len(),
    {
        self.lemma_full_at_capacity();
        if ops.len() > 0 {
            let earlier = ops.drop_last();
            self.lemma_run_counts(earlier);
            let before = self.run(earlier);
            before.lemma_full_at_capacity();
            match ops.last() {
                RingOp::Enqueue(desc) => {
                    if !before.is_full() {
                        before.lemma_enqueue(desc);
                    }
                },
                RingOp::Dequeue => {
                    if !before.is_empty() {
                        before.lemma_dequeue();
                    }
                },
            }
        }
    }

    /// A ring is a queue: over any sequence of enqueues and dequeues in
    /// which no accepted enqueue writes over a queued descriptor, what was
    /// queued at the start followed by what the ring took in is what the
    /// ring gave out followed by what is queued at the end. Nothing is lost,
    /// nothing comes twice, nothing overtakes.
    pub proof fn lemma_run_is_fifo(self, ops: Seq<RingOp<T>>)
        requires
            self.wf(),
            self.run_keeps_queued(ops),
        ensures
            self.queued() + self.given(ops) == self.taken(ops) + self.run(ops).queued(),
        decreases ops.len(),
    {
        if ops.len() == 0 {
            assert(self.queued() + self.given(ops) =~= self.taken(ops) + self.run(ops).queued());
        } else {
            let earlier = ops.drop_last();
            self.lemma_run_is_fifo(earlier);
            self.lemma_run_counts(earlier);
            let before = self.run(earlier);
            match ops.last() {
                RingOp::Enqueue(desc) => {
                    if !before.is_full() {
                        before.lemma_enqueue(desc);
                        assert(self.queued() + self.given(earlier).push(desc) =~= (self.queued()
                            + self.given(earlier)).push(desc));
                        assert(self.taken(earlier) + before.queued().push(desc) =~= (self.taken(
                            earlier,
                        ) + before.queued()).push(desc));
                    }
                },
                RingOp::Dequeue => {
                    if !before.is_empty() {
                        before.lemma_dequeue();
                        assert(self.taken(earlier).push(before.queued().first())
                            + before.queued().drop_first() =~= self.taken(earlier)
                            + before.queued());
                    }
                },
            }
        }
    }

    /// The first enqueue that writes over a queued descriptor breaks the
    /// order: from then on what went in is no longer what came out followed
    /// by what is queued.
    pub proof fn lemma_overwrite_breaks_order(self, ops: Seq<RingOp<T>>)
        requires
            self.wf(),
            ops.len() > 0,
            self.run_keeps_queued(ops.drop_last()),
            !self.run_keeps_queued(ops),
        ensures
            self.queued() + self.given(ops) != self.taken(ops) + self.run(ops).queued(),
    {
        let earlier = ops.drop_last();
        let before = self.run(earlier);
        assert(ops.last() is Enqueue);
        let desc = ops.last()->Enqueue_0;
        assert(!before.is_full() && !before.write_keeps_queued(desc));
        assert(self.given(ops) == self.given(earlier).push(desc));
        assert(self.taken(ops) == self.taken(earlier));
        assert(self.run(ops) == before.enqueue(desc));
        self.lemma_run_is_fifo(earlier);
        self.lemma_run_counts(earlier);
        let kept = self.taken(earlier);
        let after = before.enqueue(desc).queued();
        let expected = before.queued().push(desc);
        assert(after != expected) by {
            before.lemma_enqueue(desc);
        }
        lemma_same_front_same_rest(kept, after, expected);
        assert(self.queued() + self.given(earlier).push(desc) == kept + expected) by {
            assert(self.queued() + self.given(earlier).push(desc) =~= (self.queued()
                + self.given(earlier)).push(desc));
            assert(kept + expected =~= (kept + before.queued()).push(desc));
        }
    }

    /// While the tail counter stays short of the wrap, every enqueue finds
    /// its slot free: a ring whose counters have room for the enqueues of
    /// `ops` is a queue over `ops`.
    pub proof fn lemma_unwrapped_run_keeps_queued(self, ops: Seq<RingOp<T>>)
        requires
            self.wf(),
            self.head <= self.tail,
            self.tail + Self::enqueue_count(ops) < 0x1_0000,
        ensures
            self.run_keeps_queued(ops),
            self.run(ops).wf(),
            self.run(ops).head <= self.run(ops).tail <= self.tail + Self::enqueue_count(ops),
        decreases ops.len(),
    {
        if ops.len() > 0 {
            let earlier = ops.drop_last();
            self.lemma_unwrapped_run_keeps_queued(earlier);
            let before = self.run(earlier);
            before.lemma_full_at_capacity();
            match ops.last() {
                RingOp::Enqueue(desc) => {
                    if !before.is_full() {
                        before.lemma_tail_slot_free();
                        before.lemma_enqueue(desc);
                    }
                },
                RingOp::Dequeue => {
                    if !before.is_empty() {
                        before.lemma_dequeue();
                    }
                },
            }
        }
    }

    /// An empty ring accepts `QUEUE_SIZE - 1` enqueues in a row, each of
    /// them, and is full exactly after the last. A full ring accepts no
    /// further enqueue.
    pub proof fn lemma_fills_to_capacity(self, descs: Seq<T>)
        requires
            self.wf(),
            self.is_empty(),
            descs.len() <= QUEUE_SIZE - 1,
        ensures
            self.run(enqueues(descs)).wf(),
            self.given(enqueues(descs)) == descs,
            self.run(enqueues(descs)).size() == descs.len(),
            self.run(enqueues(descs)).is_full() <==> descs.len() == QUEUE_SIZE - 1,
            self.run(enqueues(descs)).is_full() ==> forall|desc: T|
                !self.run(enqueues(descs)).accepts(RingOp::Enqueue(desc)),
        decreases descs.len(),
    {
        self.lemma_full_at_capacity();
        let ops = enqueues(descs);
        if descs.len() == 0 {
            assert(self.given(ops) =~= descs);
        } else {
            let earlier = descs.drop_last();
            assert(ops.drop_last() =~= enqueues(earlier));
            self.lemma_fills_to_capacity(earlier);
            let before = self.run(enqueues(earlier));
            before.lemma_full_at_capacity();
            before.lemma_enqueue(descs.last());
            assert(self.given(ops) =~= descs);
        }
        self.run(ops).lemma_full_at_capacity();
    }

    /// After one dequeue, a full ring accepts exactly one further enqueue.
    pub proof fn lemma_full_ring_refills_once(self, desc: T)
        requires
            self.wf(),
            self.is_full(),
        ensures
            self.accepts(RingOp::Dequeue),
            self.dequeue().accepts(RingOp::Enqueue(desc)),
            self.dequeue().enqueue(desc).wf(),
            self.dequeue().enqueue(desc).is_full(),
    {
        self.lemma_full_at_capacity();
        self.lemma_dequeue();
        self.dequeue().lemma_full_at_capacity();
        self.dequeue().lemma_enqueue(desc);
        self.dequeue().enqueue(desc).lemma_full_at_capacity();
    }

    /// As many dequeues as descriptors are queued, or fewer, move the head
    /// on by their number and change nothing else.
    pub proof fn lemma_dequeues_advance_head(self, count: nat)
        requires
            self.wf(),
            count <= self.size(),
        ensures
            self.run(dequeues(count)) == (RingModel { head: wrap(self.head + count), ..self }),
            self.run(dequeues(count)).wf(),
            self.run(dequeues(count)).size() == self.size() - count,
        decreases count,
    {
        let ops = dequeues::<T>(count);
        if count == 0 {
            assert(self.run(ops) == self);
            assert(wrap(self.head + count) == self.head);
        } else {
            let fewer = (count - 1) as nat;
            assert(ops.drop_last() =~= dequeues::<T>(fewer));
            assert(ops.last() == RingOp::<T>::Dequeue);
            self.lemma_dequeues_advance_head(fewer);
            let before = self.run(dequeues(fewer));
            assert(self.run(ops) == before.apply(RingOp::Dequeue));
            assert(!before.is_empty()) by {
                before.lemma_full_at_capacity();
            }
            before.lemma_dequeue();
            lemma_wrap_add(self.head + fewer, 1);
        }
    }

    /// What goes in comes out as it went in: once the descriptors queued
    /// before it are taken, the next dequeue returns exactly the descriptor
    /// that was enqueued. On an empty ring that is the very next dequeue.
    pub proof fn lemma_round_trip(self, desc: T)
        requires
            self.wf(),
            !self.is_full(),
        ensures
            self.enqueue(desc).run(dequeues(self.size() as nat)).accepts(RingOp::Dequeue),
            self.enqueue(desc).run(dequeues(self.size() as nat)).front() == desc,
            self.is_empty() ==> self.enqueue(desc).front() == desc && self.enqueue(
                desc,
            ).dequeue().is_empty(),
    {
        let size = self.size();
        let filled = self.enqueue(desc);
        assert(filled.wf() && filled.size() == size + 1) by {
            self.lemma_enqueue(desc);
        }
        filled.lemma_dequeues_advance_head(size as nat);
        let drained = filled.run(dequeues(size as nat));
        assert(drained.head == self.tail) by {
            lemma_wrap_add(self.tail - self.head, self.head);
        }
        assert(drained.slots == self.slots.update(slot_of(self.tail), desc));
        assert(drained.tail == wrap(self.tail + 1));
        if self.is_empty() {
            assert(size == 0);
            assert(dequeues::<T>(0).len() == 0);
            assert(drained == filled);
        }
    }
}

} // verus!
