//! The descriptor ring: a fixed-capacity circular buffer with a head and a
//! tail counter, filled by one producer and drained by one consumer.
//!
//! The counters only ever grow, modulo 2^16. A counter's descriptor sits in
//! slot `counter mod QUEUE_SIZE`. One slot always stays empty, so that an
//! empty ring (`tail == head`) and a full one can be told apart.

use vstd::prelude::*;
use crate::descriptor::Descriptor;

verus! {

/// The number of slots of a ring. One of them is never used, so a ring holds
/// at most `QUEUE_SIZE - 1` descriptors.
pub const QUEUE_SIZE: usize = 512 * 3;

/// A counter value reduced modulo 2^16, the width of the head and tail
/// counters.
pub open spec fn wrap(counter: int) -> int {
    counter % 0x1_0000
}

/// The slot in which the descriptor of `counter` sits.
pub open spec fn slot_of(counter: int) -> int {
    counter % (QUEUE_SIZE as int)
}

/// One use of a ring: the producer's or the consumer's.
pub enum RingOp<T> {
    Enqueue(T),
    Dequeue,
}

/// The mathematical content of a ring's memory.
#[verifier::ext_equal]
pub struct RingModel<T> {
    /// The counter of the oldest queued descriptor.
    pub head: int,
    /// The counter that the next enqueued descriptor will get.
    pub tail: int,
    /// The flag word that lies between the counters and the slots. No
    /// operation of the ring reads or writes it.
    pub consumer_signalled: int,
    /// The slots, queued or not.
    pub slots: Seq<T>,
}

impl<T> RingModel<T> {
    /// The number of queued descriptors: `tail - head`, modulo 2^16.
    pub open spec fn size(self) -> int {
        wrap(self.tail - self.head)
    }

    /// The ring invariant: both counters are 16-bit values, there are
    /// `QUEUE_SIZE` slots, and at most `QUEUE_SIZE - 1` descriptors are
    /// queued.
    pub open spec fn wf(self) -> bool {
        &&& 0 <= self.head < 0x1_0000
        &&& 0 <= self.tail < 0x1_0000
        &&& 0 <= self.consumer_signalled <= u32::MAX
        &&& self.slots.len() == QUEUE_SIZE
        &&& self.size() <= QUEUE_SIZE - 1
    }

    pub open spec fn is_empty(self) -> bool {
        self.tail == self.head
    }

    pub open spec fn is_full(self) -> bool {
        wrap(self.tail + 1 - self.head) % (QUEUE_SIZE as int) == 0
    }

    /// The slot of the `i`-th queued descriptor, counted from the oldest.
    pub open spec fn slot_at(self, i: int) -> int {
        slot_of(wrap(self.head + i))
    }

    /// The queued descriptors as the consumer will read them, oldest first.
    pub open spec fn queued(self) -> Seq<T> {
        Seq::new(self.size() as nat, |i: int| self.slots[self.slot_at(i)])
    }

    /// What the slot under the head counter holds.
    pub open spec fn front(self) -> T {
        self.slots[slot_of(self.head)]
    }

    /// The ring after the producer has written `desc` into the slot under the
    /// tail counter and advanced the tail.
    pub open spec fn enqueue(self, desc: T) -> Self {
        RingModel {
            tail: wrap(self.tail + 1),
            slots: self.slots.update(slot_of(self.tail), desc),
            ..self
        }
    }

    /// The ring after the consumer has advanced the head.
    pub open spec fn dequeue(self) -> Self {
        RingModel { head: wrap(self.head + 1), ..self }
    }

    /// Whether the ring carries `op` out: an enqueue unless it is full, a
    /// dequeue unless it is empty.
    pub open spec fn accepts(self, op: RingOp<T>) -> bool {
        match op {
            RingOp::Enqueue(_) => !self.is_full(),
            RingOp::Dequeue => !self.is_empty(),
        }
    }

    /// The ring after `op`. An operation that the ring does not accept
    /// leaves it as it is.
    pub open spec fn apply(self, op: RingOp<T>) -> Self {
        match op {
            RingOp::Enqueue(desc) => if self.is_full() {
                self
            } else {
                self.enqueue(desc)
            },
            RingOp::Dequeue => if self.is_empty() {
                self
            } else {
                self.dequeue()
            },
        }
    }

    /// No queued descriptor sits in the slot under the tail counter.
    pub open spec fn tail_slot_free(self) -> bool {
        forall|i: int| 0 <= i < self.size() ==> #[trigger] self.slot_at(i) != slot_of(self.tail)
    }

    /// Writing `desc` into the slot under the tail counter changes no queued
    /// descriptor.
    pub open spec fn write_keeps_queued(self, desc: T) -> bool {
        forall|i: int|
            0 <= i < self.size() && #[trigger] self.slot_at(i) == slot_of(self.tail)
                ==> self.slots[slot_of(self.tail)] == desc
    }
}

impl<T> RingModel<T> {
    /// A well-formed ring reports full exactly when it holds
    /// `QUEUE_SIZE - 1` descriptors, and empty exactly when it holds none.
    pub proof fn lemma_full_at_capacity(self)
        requires
            self.wf(),
        ensures
            self.is_full() <==> self.size() == QUEUE_SIZE - 1,
            self.is_empty() <==> self.size() == 0,
            0 <= self.size() <= QUEUE_SIZE - 1,
    {
        let size = self.size();
        assert(wrap(self.tail + 1 - self.head) == size + 1);
    }
}

impl<T> RingModel<T> {
    /// An enqueue on a ring that is not full adds one descriptor and keeps
    /// the ring well formed. Where the write leaves the queued descriptors
    /// as they were, the new one comes behind them, in their old order.
    pub proof fn lemma_enqueue(self, desc: T)
        requires
            self.wf(),
            !self.is_full(),
        ensures
            self.enqueue(desc).wf(),
            self.enqueue(desc).size() == self.size() + 1,
            self.enqueue(desc).queued().last() == desc,
            self.write_keeps_queued(desc) <==> self.enqueue(desc).queued() == self.queued().push(
                desc,
            ),
    {
        self.lemma_full_at_capacity();
        let after = self.enqueue(desc);
        let size = self.size();
        assert(after.size() == size + 1);
        assert(after.slot_at(size) == slot_of(self.tail));
        assert forall|i: int| 0 <= i < size implies after.slot_at(i) == self.slot_at(i) by {}
        if self.write_keeps_queued(desc) {
            assert(after.queued() =~= self.queued().push(desc));
        }
        if after.queued() == self.queued().push(desc) {
            assert forall|i: int|
                0 <= i < size && #[trigger] self.slot_at(i) == slot_of(self.tail)
                    implies self.slots[slot_of(self.tail)] == desc by {
                assert(after.queued()[i] == self.queued().push(desc)[i]);
            }
        }
    }

    /// A dequeue on a ring that is not empty takes the oldest queued
    /// descriptor, leaves the others in their order and keeps the ring well
    /// formed.
    pub proof fn lemma_dequeue(self)
        requires
            self.wf(),
            !self.is_empty(),
        ensures
            self.dequeue().wf(),
            self.dequeue().size() == self.size() - 1,
            self.front() == self.queued().first(),
            self.dequeue().queued() == self.queued().drop_first(),
    {
        self.lemma_full_at_capacity();
        let after = self.dequeue();
        let size = self.size();
        assert(after.size() == size - 1);
        assert(self.slot_at(0) == slot_of(self.head));
        assert forall|i: int| 0 <= i < size - 1 implies after.slot_at(i) == self.slot_at(
            i + 1,
        ) by {}
        assert(after.queued() =~= self.queued().drop_first());
    }
}

/// A ring as it lies in memory.
#[derive(Copy, Clone, Debug)]
pub struct RawQueue<T = Descriptor> {
    pub tail: u16,
    pub head: u16,
    pub consumer_signalled: u32,
    pub buffers: [T; QUEUE_SIZE],
}

impl<T> View for RawQueue<T> {
    type V = RingModel<T>;

    open spec fn view(&self) -> RingModel<T> {
        RingModel {
            head: self.head as int,
            tail: self.tail as int,
            consumer_signalled: self.consumer_signalled as int,
            slots: self.buffers@,
        }
    }
}

impl<T> RawQueue<T> {
    /// A ring in memory has 16-bit counters and `QUEUE_SIZE` slots by its
    /// types. What it can still break of the ring invariant is the bound on
    /// the number of queued descriptors.
    pub proof fn lemma_wf_is_size_bound(&self)
        ensures
            self@.wf() <==> self@.size() <= QUEUE_SIZE - 1,
    {
    }
}

/// One side's handle on a ring.
pub struct Queue<T = Descriptor> {
    queue: RawQueue<T>,
}

impl<T> View for Queue<T> {
    type V = RingModel<T>;

    closed spec fn view(&self) -> RingModel<T> {
        self.queue@
    }
}

impl<T: Copy> Queue<T> {
    pub fn new(queue: RawQueue<T>) -> (q: Self)
        ensures
            q@ == queue@,
    {
        Self { queue }
    }

    /// The most descriptors that the ring can hold.
    pub fn capacity(&self) -> (cap: usize)
        ensures
            cap == QUEUE_SIZE - 1,
    {
        QUEUE_SIZE - 1
    }

    pub fn tail(&self) -> (tail: u16)
        ensures
            tail == self@.tail,
    {
        self.queue.tail
    }

    pub fn head(&self) -> (head: u16)
        ensures
            head == self@.head,
    {
        self.queue.head
    }

    /// What the slot of `index` holds.
    pub fn buffer(&self, index: u16) -> (desc: T)
        ensures
            desc == self@.slots[slot_of(index as int)],
    {
        let residue = self.residue(index);
        self.queue.buffers[residue]
    }

    pub fn is_empty(&self) -> (empty: bool)
        ensures
            empty == self@.is_empty(),
            self@.wf() ==> (empty <==> self@.size() == 0),
    {
        self.queue.tail.wrapping_sub(self.queue.head) == 0
    }

    pub fn is_full(&self) -> (full: bool)
        ensures
            full == self@.is_full(),
            self@.wf() ==> (full <==> self@.size() == QUEUE_SIZE - 1),
    {
        proof {
            if self@.wf() {
                self@.lemma_full_at_capacity();
            }
        }
        self.queue.tail.wrapping_add(1).wrapping_sub(self.queue.head) % (QUEUE_SIZE as u16) == 0
    }

    pub fn size(&self) -> (size: usize)
        ensures
            size == self@.size(),
    {
        self.queue.tail.wrapping_sub(self.queue.head) as usize
    }

    /// Puts `desc` behind the queued descriptors, unless the ring is full:
    /// then the ring stays as it is and `desc` comes back.
    pub fn enqueue(&mut self, desc: T) -> (res: Result<(), T>)
        ensures
            final(self)@ == old(self)@.apply(RingOp::Enqueue(desc)),
            old(self)@.is_full() ==> res == Err::<(), T>(desc),
            !old(self)@.is_full() ==> res == Ok::<(), T>(()),
            old(self)@.wf() ==> final(self)@.wf(),
            old(self)@.wf() && !old(self)@.is_full() && old(self)@.write_keeps_queued(desc)
                ==> final(self)@.queued() == old(self)@.queued().push(desc),
    {
        if self.is_full() {
            return Err(desc);
        }
        let tail = self.queue.tail;
        let slot = self.residue(tail);
        self.queue.buffers[slot] = desc;
        self.queue.tail = tail.wrapping_add(1);
        proof {
            if old(self)@.wf() {
                old(self)@.lemma_enqueue(desc);
            }
        }
        Ok(())
    }

    /// Takes the oldest queued descriptor, or `None` from an empty ring.
    pub fn dequeue(&mut self) -> (res: Option<T>)
        ensures
            final(self)@ == old(self)@.apply(RingOp::Dequeue),
            old(self)@.is_empty() ==> res.is_none(),
            !old(self)@.is_empty() ==> res == Some(old(self)@.front()),
            old(self)@.wf() ==> final(self)@.wf(),
            old(self)@.wf() && !old(self)@.is_empty() ==> res == Some(old(self)@.queued().first())
                && final(self)@.queued() == old(self)@.queued().drop_first(),
    {
        if self.is_empty() {
            return None;
        }
        let head = self.queue.head;
        let desc = self.buffer(head);
        self.queue.head = head.wrapping_add(1);
        proof {
            if old(self)@.wf() {
                old(self)@.lemma_dequeue();
            }
        }
        Some(desc)
    }

    fn residue(&self, index: u16) -> (slot: usize)
        ensures
            slot == slot_of(index as int),
            slot < QUEUE_SIZE,
    {
        index as usize % QUEUE_SIZE
    }
}

} // verus!
