//! The pair of rings by which two sides pass buffers to and fro.
//!
//! The *free* ring carries descriptors towards the driver: empty buffers to
//! fill on the receive side, filled buffers to send on the transmit side.
//! The *active* ring carries them back once the driver has acted on them.
//! The pair itself ties the two rings by no rule: that a buffer sits in one
//! ring only is the work of those who move the descriptors.

use vstd::prelude::*;
use crate::descriptor::Descriptor;
use crate::ring::{Queue, RawQueue, RingModel};

verus! {

/// The mathematical content of a ring pair.
#[verifier::ext_equal]
pub struct RingPairModel<T> {
    pub free: RingModel<T>,
    pub active: RingModel<T>,
}

impl<T> RingPairModel<T> {
    /// Both rings keep the ring invariant.
    pub open spec fn wf(self) -> bool {
        self.free.wf() && self.active.wf()
    }
}

/// A free ring and an active ring.
pub struct QueueHandle<T = Descriptor> {
    free: Queue<T>,
    active: Queue<T>,
}

impl<T> View for QueueHandle<T> {
    type V = RingPairModel<T>;

    closed spec fn view(&self) -> RingPairModel<T> {
        RingPairModel { free: self.free@, active: self.active@ }
    }
}

impl<T: Copy> QueueHandle<T> {
    pub fn new(free: RawQueue<T>, active: RawQueue<T>) -> (handle: Self)
        ensures
            handle@ == (RingPairModel { free: free@, active: active@ }),
    {
        let free = Queue::new(free);
        let active = Queue::new(active);
        Self { free, active }
    }

    pub fn free(&self) -> (queue: &Queue<T>)
        ensures
            queue@ == self@.free,
    {
        &self.free
    }

    pub fn active(&self) -> (queue: &Queue<T>)
        ensures
            queue@ == self@.active,
    {
        &self.active
    }

    pub fn free_mut(&mut self) -> (queue: &mut Queue<T>)
        ensures
            queue@ == old(self)@.free,
            final(self)@ == (RingPairModel { free: final(queue)@, active: old(self)@.active }),
    {
        &mut self.free
    }

    pub fn active_mut(&mut self) -> (queue: &mut Queue<T>)
        ensures
            queue@ == old(self)@.active,
            final(self)@ == (RingPairModel { free: old(self)@.free, active: final(queue)@ }),
    {
        &mut self.active
    }
}

} // verus!
