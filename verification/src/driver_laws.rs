//! What holds of the driver over any course of events.

use vstd::prelude::*;
use crate::descriptor::Descriptor;
use crate::driver::{ActionModel, DriverModel, EventModel, Stage};

verus! {

/// A course of events, as far as it has run: the driver and the region at
/// its end, and the actions that the driver asked for on the way.
#[verifier::ext_equal]
pub struct Trace {
    pub driver: DriverModel,
    pub region: Seq<u8>,
    pub actions: Seq<ActionModel>,
}

/// The offsets of `descs`, in order: the buffers that they name.
pub open spec fn offsets(descs: Seq<Descriptor>) -> Seq<nat> {
    Seq::new(descs.len(), |i: int| descs[i]@.offset)
}

/// How far into a pass the driver is at `stage`.
pub open spec fn progress(stage: Stage) -> nat {
    match stage {
        Stage::Idle => 0,
        Stage::PollReceive | Stage::Receive | Stage::Recycle(_) => 1,
        Stage::NotifyReceive => 2,
        Stage::PollSend | Stage::Send(_) => 3,
        Stage::NotifyTransmit => 4,
        Stage::AckDevice => 5,
        Stage::AckInterrupt => 6,
    }
}

impl DriverModel {
    /// Whether the driver is in the receive loop.
    pub open spec fn receiving(self) -> bool {
        self.stage is PollReceive || self.stage is Receive || self.stage is Recycle
    }

    /// Whether the driver is in the transmit loop.
    pub open spec fn transmitting(self) -> bool {
        self.stage is PollSend || self.stage is Send
    }

    /// The driver and the region after `events`, with the actions asked for
    /// on the way. A step that ends fatally leaves both as they were and
    /// asks for nothing.
    pub open spec fn run(self, events: Seq<EventModel>, region: Seq<u8>) -> Trace
        decreases events.len(),
    {
        if events.len() == 0 {
            Trace { driver: self, region, actions: Seq::empty() }
        } else {
            let before = self.run(events.drop_last(), region);
            match before.driver.step(events.last(), before.region) {
                Ok(next) => Trace {
                    driver: next.driver,
                    region: next.region,
                    actions: before.actions.push(next.action),
                },
                Err(_) => before,
            }
        }
    }

    /// The receive side has nothing to work with: its free ring is empty,
    /// no received buffer is in the driver's hands, and no signal to the
    /// peer is due for it in this pass. An idle driver whose receive free
    /// ring is empty is starved.
    pub open spec fn starved(self) -> bool {
        &&& self.rx.free.is_empty()
        &&& match self.stage {
            Stage::PollReceive => !self.notify_rx,
            Stage::Receive | Stage::Recycle(_) | Stage::NotifyReceive => false,
            _ => true,
        }
    }

    /// The receive descriptor that the driver holds between taking it from
    /// the free ring and putting it on the active ring, if any.
    pub open spec fn held_rx(self) -> Seq<Descriptor> {
        match self.stage {
            Stage::Recycle(desc) => seq![desc],
            _ => Seq::empty(),
        }
    }

    /// The transmit descriptor that the driver holds, if any.
    pub open spec fn held_tx(self) -> Seq<Descriptor> {
        match self.stage {
            Stage::Send(desc) => seq![desc],
            _ => Seq::empty(),
        }
    }

    /// The buffers of the receive side, by offset: those handed back to the
    /// peer, the one in the driver's hands, and those still free.
    pub open spec fn rx_buffers(self) -> Seq<nat> {
        offsets(self.rx.active.queued() + self.held_rx() + self.rx.free.queued())
    }

    /// The descriptors of the transmit side: those handed back to the peer,
    /// the one in the driver's hands, and those still waiting to be sent.
    pub open spec fn tx_descriptors(self) -> Seq<Descriptor> {
        self.tx.active.queued() + self.held_tx() + self.tx.free.queued()
    }

    /// Whether the descriptor in the driver's hands, if any, can go onto its
    /// active ring without writing over a descriptor queued there.
    pub open spec fn return_keeps_queued(self) -> bool {
        match self.stage {
            Stage::Recycle(desc) => self.rx.active.write_keeps_queued(desc),
            Stage::Send(desc) => self.tx.active.write_keeps_queued(desc),
            _ => true,
        }
    }

    /// With an empty receive free ring the driver never takes a packet from
    /// the device and never signals the peer on the receive channel,
    /// whatever the device says of packets waiting and however often the
    /// driver is woken. The receive rings stay as they are.
    pub proof fn lemma_starved_never_receives(self, events: Seq<EventModel>, region: Seq<u8>)
        requires
            self.starved(),
        ensures
            self.run(events, region).driver.starved(),
            self.run(events, region).driver.rx == self.rx,
            forall|i: int|
                0 <= i < self.run(events, region).actions.len() ==> {
                    &&& #[trigger] self.run(events, region).actions[i] != ActionModel::Receive
                    &&& self.run(events, region).actions[i] != ActionModel::NotifyReceive
                },
        decreases events.len(),
    {
        if events.len() > 0 {
            self.lemma_starved_never_receives(events.drop_last(), region);
        }
    }

    /// A pass drains each side as far as it can. The driver leaves the
    /// receive loop only when the device has no packet ready or the receive
    /// free ring is empty. It goes past the transmit loop only when the
    /// device cannot send or the transmit free ring is empty. So one wakeup
    /// serves all that was queued before it, however many signals ran
    /// together.
    pub proof fn lemma_drains_until_quiet(self, event: EventModel, region: Seq<u8>)
        requires
            self.step(event, region) is Ok,
        ensures
            ({
                let next = self.step(event, region)->Ok_0.driver;
                &&& self.receiving() && !next.receiving() ==> event == EventModel::ReceiveReady(
                    false,
                ) || self.rx.free.is_empty()
                &&& progress(self.stage) < progress(Stage::NotifyTransmit) <= progress(next.stage)
                    ==> event == EventModel::SendReady(false) || next.tx.free.is_empty()
            }),
    {
    }

    /// A pass runs forward. No step leads back to an earlier part of the
    /// pass, and only the last acknowledgement leads to the idle driver. The
    /// driver asks for a signal to the peer exactly on entering the stage
    /// that waits for it, so at most once for each side in a pass, and it
    /// does so exactly when it has put a descriptor on that side's active
    /// ring since the wakeup.
    pub proof fn lemma_pass_runs_forward(self, event: EventModel, region: Seq<u8>)
        requires
            self.step(event, region) is Ok,
        ensures
            ({
                let next = self.step(event, region)->Ok_0;
                &&& next.driver.stage is Idle <==> self.stage is AckInterrupt
                &&& progress(self.stage) <= progress(next.driver.stage) || next.driver.stage is Idle
                &&& next.action == ActionModel::NotifyReceive <==> next.driver.stage
                    is NotifyReceive
                &&& next.action == ActionModel::NotifyTransmit <==> next.driver.stage
                    is NotifyTransmit
                &&& self.receiving() && !next.driver.receiving() ==> (next.driver.stage
                    is NotifyReceive <==> self.notify_rx)
                &&& progress(self.stage) < progress(Stage::NotifyTransmit) <= progress(
                    next.driver.stage,
                ) ==> (next.driver.stage is NotifyTransmit <==> next.driver.notify_tx)
                &&& next.driver.notify_rx != self.notify_rx ==> self.stage is Idle
                    || self.stage is Recycle
                &&& next.driver.notify_tx != self.notify_tx ==> self.stage is Idle
                    || self.stage is Send
            }),
    {
    }

    /// No step breaks the ring invariant.
    pub proof fn lemma_step_keeps_rings_well_formed(self, event: EventModel, region: Seq<u8>)
        requires
            self.wf(),
            self.step(event, region) is Ok,
        ensures
            self.step(event, region)->Ok_0.driver.wf(),
    {
        match (self.stage, event) {
            (Stage::Receive, EventModel::Received(_)) => {
                self.rx.free.lemma_dequeue();
            },
            (Stage::Recycle(desc), EventModel::Recycled) => {
                self.rx.active.lemma_enqueue(desc);
            },
            (Stage::PollSend, EventModel::SendReady(ready)) => {
                if ready {
                    self.tx.free.lemma_dequeue();
                }
            },
            (Stage::Send(desc), EventModel::Sent) => {
                self.tx.active.lemma_enqueue(desc);
            },
            _ => {},
        }
    }

    /// No step loses a buffer, makes one up or lets one overtake another.
    /// On either side the buffers, listed as handed back, in hand and still
    /// free, are the same after a step as before it, as long as the
    /// descriptor in hand can go onto its active ring without writing over
    /// one that is queued there.
    pub proof fn lemma_step_conserves_buffers(self, event: EventModel, region: Seq<u8>)
        requires
            self.wf(),
            self.return_keeps_queued(),
            self.step(event, region) is Ok,
        ensures
            self.step(event, region)->Ok_0.driver.rx_buffers() == self.rx_buffers(),
            self.step(event, region)->Ok_0.driver.tx_descriptors() == self.tx_descriptors(),
    {
        let next = self.step(event, region)->Ok_0.driver;
        match (self.stage, event) {
            (Stage::Receive, EventModel::Received(packet)) => {
                let desc = self.rx.free.front();
                self.rx.free.lemma_dequeue();
                desc.lemma_constructed_views(0, packet.len() as u16);
            },
            (Stage::Recycle(desc), EventModel::Recycled) => {
                self.rx.active.lemma_enqueue(desc);
            },
            (Stage::PollSend, EventModel::SendReady(ready)) => {
                if ready {
                    self.tx.free.lemma_dequeue();
                }
            },
            (Stage::Send(desc), EventModel::Sent) => {
                self.tx.active.lemma_enqueue(desc);
            },
            _ => {},
        }
        assert(next.rx_buffers() =~= self.rx_buffers());
        assert(next.tx_descriptors() =~= self.tx_descriptors());
    }

    /// A received packet lies in the region where the descriptor handed
    /// back for it says, and nothing outside those bytes has changed.
    pub proof fn lemma_received_packet_in_region(self, packet: Seq<u8>, region: Seq<u8>)
        requires
            self.stage is Receive,
            self.step(EventModel::Received(packet), region) is Ok,
        ensures
            ({
                let next = self.step(EventModel::Received(packet), region)->Ok_0;
                &&& next.driver.stage matches Stage::Recycle(desc)
                &&& desc@.offset == self.rx.free.front()@.offset
                &&& desc@.length == packet.len()
                &&& next.region.len() == region.len()
                &&& next.region.subrange(desc@.offset as int, desc@.end() as int) == packet
                &&& forall|i: int|
                    0 <= i < region.len() && !(desc@.offset <= i < desc@.end())
                        ==> next.region[i] == region[i]
            }),
    {
        let front = self.rx.free.front();
        front.lemma_constructed_views(0, packet.len() as u16);
        front.lemma_view_bounds();
        let next = self.step(EventModel::Received(packet), region)->Ok_0;
        let desc = front.with_len(packet.len() as u16);
        assert(next.region.subrange(desc@.offset as int, desc@.end() as int) =~= packet);
    }
}

} // verus!
