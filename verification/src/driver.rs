//! The driver's event handling, as a state machine.
//!
//! A wakeup on any of the driver's three channels starts one pass: the
//! driver drains the receive side, then the transmit side, signals the peer
//! once for each side on which it produced work, and acknowledges the
//! interrupt. The driver itself touches neither the device nor the
//! channels. Each call of [`Driver::step`] takes what the last action
//! brought, moves descriptors and bytes, and answers with the next action
//! for the caller to perform. Between passes the driver is idle, and all
//! that lasts is in the rings.

use vstd::prelude::*;
use crate::descriptor::Descriptor;
use crate::handle::{QueueHandle, RingPairModel};
use crate::region::{copy_in, copy_out, overlay, span_fits};

verus! {

/// The channels of the driver: the one bound to the device's interrupt, and
/// the ones shared with the peer for the receive and the transmit ring pair.
#[derive(Copy, Clone, Debug, PartialEq, Eq, Structural)]
pub struct Channels {
    pub device: usize,
    pub receive: usize,
    pub transmit: usize,
}

/// Why the driver cannot go on. None of these is recovered from: the caller
/// is to stop the process.
#[derive(Copy, Clone, Debug, PartialEq, Eq, Structural)]
pub enum Fatal {
    /// A wakeup came on a channel that is none of the driver's three.
    UnknownChannel,
    /// The event does not answer the action that the driver waits on.
    UnexpectedEvent,
    /// The device reported an error.
    Device,
    /// The interrupt could not be acknowledged on its channel.
    Channel,
    /// A free ring was found empty after the driver had seen a descriptor
    /// in it.
    FreeRingEmpty,
    /// The peer offered a receive buffer shorter than the packet.
    DescriptorTooSmall,
    /// A descriptor names bytes outside the data region.
    SpanOutOfRegion,
    /// An active ring has no room for the descriptor that is due back.
    ActiveRingFull,
}

/// What the driver waits on.
#[derive(Copy, Clone, Debug, PartialEq, Eq, Structural)]
pub enum Stage {
    /// Nothing: the next event is a wakeup.
    Idle,
    /// Whether the device holds a received packet.
    PollReceive,
    /// The next received packet.
    Receive,
    /// The device taking its receive buffer back. The descriptor names the
    /// bytes just filled and is due on the receive active ring.
    Recycle(Descriptor),
    /// The peer being signalled on the receive channel.
    NotifyReceive,
    /// Whether the device can take a packet to send.
    PollSend,
    /// The device taking the packet. The descriptor is due on the transmit
    /// active ring.
    Send(Descriptor),
    /// The peer being signalled on the transmit channel.
    NotifyTransmit,
    /// The device acknowledging its interrupt.
    AckDevice,
    /// The interrupt being acknowledged on the device's channel.
    AckInterrupt,
}

/// What the caller does next on the driver's behalf.
#[derive(Clone, Debug, PartialEq, Eq)]
pub enum Action {
    /// Ask the device whether a received packet is ready.
    PollReceive,
    /// Take the next received packet from the device.
    Receive,
    /// Give the receive buffer back to the device.
    Recycle,
    /// Signal the peer on the receive channel.
    NotifyReceive,
    /// Ask the device whether it can send another packet.
    PollSend,
    /// Get a transmit buffer of this length, fill it with these bytes and
    /// hand it to the device.
    Send(Vec<u8>),
    /// Signal the peer on the transmit channel.
    NotifyTransmit,
    /// Have the device acknowledge its interrupt.
    AckDevice,
    /// Acknowledge the interrupt on the device's channel.
    AckInterrupt,
    /// Nothing is left to do: wait for the next wakeup.
    Wait,
}

/// An [`Action`] with its bytes as a sequence.
pub enum ActionModel {
    PollReceive,
    Receive,
    Recycle,
    NotifyReceive,
    PollSend,
    Send(Seq<u8>),
    NotifyTransmit,
    AckDevice,
    AckInterrupt,
    Wait,
}

impl View for Action {
    type V = ActionModel;

    open spec fn view(&self) -> ActionModel {
        match *self {
            Action::PollReceive => ActionModel::PollReceive,
            Action::Receive => ActionModel::Receive,
            Action::Recycle => ActionModel::Recycle,
            Action::NotifyReceive => ActionModel::NotifyReceive,
            Action::PollSend => ActionModel::PollSend,
            Action::Send(bytes) => ActionModel::Send(bytes@),
            Action::NotifyTransmit => ActionModel::NotifyTransmit,
            Action::AckDevice => ActionModel::AckDevice,
            Action::AckInterrupt => ActionModel::AckInterrupt,
            Action::Wait => ActionModel::Wait,
        }
    }
}

/// What happened outside the driver.
#[derive(Clone, Debug, PartialEq, Eq)]
pub enum Event {
    /// The driver was woken on this channel.
    Notified(usize),
    /// The device's answer to [`Action::PollReceive`].
    ReceiveReady(bool),
    /// The packet that [`Action::Receive`] brought.
    Received(Vec<u8>),
    /// [`Action::Recycle`] is done.
    Recycled,
    /// The device's answer to [`Action::PollSend`].
    SendReady(bool),
    /// [`Action::Send`] is done.
    Sent,
    /// A signal or an acknowledgement is done.
    Completed,
    /// The action failed.
    Failed,
}

/// An [`Event`] with its bytes as a sequence.
pub enum EventModel {
    Notified(usize),
    ReceiveReady(bool),
    Received(Seq<u8>),
    Recycled,
    SendReady(bool),
    Sent,
    Completed,
    Failed,
}

impl View for Event {
    type V = EventModel;

    open spec fn view(&self) -> EventModel {
        match *self {
            Event::Notified(channel) => EventModel::Notified(channel),
            Event::ReceiveReady(ready) => EventModel::ReceiveReady(ready),
            Event::Received(packet) => EventModel::Received(packet@),
            Event::Recycled => EventModel::Recycled,
            Event::SendReady(ready) => EventModel::SendReady(ready),
            Event::Sent => EventModel::Sent,
            Event::Completed => EventModel::Completed,
            Event::Failed => EventModel::Failed,
        }
    }
}

/// The mathematical content of a driver.
#[verifier::ext_equal]
pub struct DriverModel {
    pub channels: Channels,
    /// The receive ring pair.
    pub rx: RingPairModel<Descriptor>,
    /// The transmit ring pair.
    pub tx: RingPairModel<Descriptor>,
    pub stage: Stage,
    /// Whether this pass has put a descriptor on the receive active ring.
    pub notify_rx: bool,
    /// Whether this pass has put a descriptor on the transmit active ring.
    pub notify_tx: bool,
}

/// Where a step leads: the driver and the data region after it, and the
/// action that the driver asks for.
#[verifier::ext_equal]
pub struct Next {
    pub driver: DriverModel,
    pub region: Seq<u8>,
    pub action: ActionModel,
}

impl DriverModel {
    /// All four rings keep the ring invariant.
    pub open spec fn wf(self) -> bool {
        self.rx.wf() && self.tx.wf()
    }

    /// Whether `channel` is one of the driver's three.
    pub open spec fn wakes(self, channel: usize) -> bool {
        ||| channel == self.channels.device
        ||| channel == self.channels.receive
        ||| channel == self.channels.transmit
    }

    /// The driver moves to `stage` and asks for `action`.
    pub open spec fn goes(self, stage: Stage, action: ActionModel, region: Seq<u8>) -> Next {
        Next { driver: DriverModel { stage, ..self }, region, action }
    }

    /// The receive side is drained: the peer is signalled if a descriptor
    /// went back to it, then the transmit side has its turn.
    pub open spec fn receive_drained(self, region: Seq<u8>) -> Next {
        if self.notify_rx {
            self.goes(Stage::NotifyReceive, ActionModel::NotifyReceive, region)
        } else {
            self.transmit_next(region)
        }
    }

    /// The head of the transmit loop: while the peer has packets waiting,
    /// the device is asked whether it can take one.
    pub open spec fn transmit_next(self, region: Seq<u8>) -> Next {
        if self.tx.free.is_empty() {
            self.transmit_drained(region)
        } else {
            self.goes(Stage::PollSend, ActionModel::PollSend, region)
        }
    }

    /// The transmit side is drained: the peer is signalled if a descriptor
    /// went back to it, then the interrupt is acknowledged.
    pub open spec fn transmit_drained(self, region: Seq<u8>) -> Next {
        if self.notify_tx {
            self.goes(Stage::NotifyTransmit, ActionModel::NotifyTransmit, region)
        } else {
            self.goes(Stage::AckDevice, ActionModel::AckDevice, region)
        }
    }

    /// A received packet arrives: the oldest free receive descriptor is
    /// taken, the packet is laid into the region where it points, and the
    /// descriptor, its length now the packet's, is held until the device has
    /// its buffer back.
    pub open spec fn packet_received(self, packet: Seq<u8>, region: Seq<u8>) -> Result<
        Next,
        Fatal,
    > {
        let desc = self.rx.free.front();
        if self.rx.free.is_empty() {
            Err(Fatal::FreeRingEmpty)
        } else if desc@.length < packet.len() {
            Err(Fatal::DescriptorTooSmall)
        } else if !span_fits(desc@.offset, packet.len(), region.len()) {
            Err(Fatal::SpanOutOfRegion)
        } else {
            Ok(
                Next {
                    driver: DriverModel {
                        rx: RingPairModel { free: self.rx.free.dequeue(), active: self.rx.active },
                        stage: Stage::Recycle(desc.with_len(packet.len() as u16)),
                        ..self
                    },
                    region: overlay(region, desc@.offset as int, packet),
                    action: ActionModel::Recycle,
                },
            )
        }
    }

    /// The device has its receive buffer back: the filled descriptor goes
    /// onto the receive active ring, and the receive loop goes round.
    pub open spec fn buffer_recycled(self, desc: Descriptor, region: Seq<u8>) -> Result<
        Next,
        Fatal,
    > {
        if self.rx.active.is_full() {
            Err(Fatal::ActiveRingFull)
        } else {
            Ok(
                Next {
                    driver: DriverModel {
                        rx: RingPairModel {
                            free: self.rx.free,
                            active: self.rx.active.enqueue(desc),
                        },
                        stage: Stage::PollReceive,
                        notify_rx: true,
                        ..self
                    },
                    region,
                    action: ActionModel::PollReceive,
                },
            )
        }
    }

    /// The device can send: the oldest free transmit descriptor is taken and
    /// the bytes that it names are handed out.
    pub open spec fn send_ready(self, region: Seq<u8>) -> Result<Next, Fatal> {
        let desc = self.tx.free.front();
        if self.tx.free.is_empty() {
            Err(Fatal::FreeRingEmpty)
        } else if !desc@.within(region.len()) {
            Err(Fatal::SpanOutOfRegion)
        } else {
            Ok(
                Next {
                    driver: DriverModel {
                        tx: RingPairModel { free: self.tx.free.dequeue(), active: self.tx.active },
                        stage: Stage::Send(desc),
                        ..self
                    },
                    region,
                    action: ActionModel::Send(
                        region.subrange(desc@.offset as int, desc@.end() as int),
                    ),
                },
            )
        }
    }

    /// The device has taken the packet: the descriptor goes onto the
    /// transmit active ring, and the transmit loop goes round.
    pub open spec fn packet_sent(self, desc: Descriptor, region: Seq<u8>) -> Result<Next, Fatal> {
        if self.tx.active.is_full() {
            Err(Fatal::ActiveRingFull)
        } else {
            Ok(
                (DriverModel {
                    tx: RingPairModel { free: self.tx.free, active: self.tx.active.enqueue(desc) },
                    notify_tx: true,
                    ..self
                }).transmit_next(region),
            )
        }
    }

    /// What one step does: where the driver and the region stand after
    /// `event` and which action comes next, or why the driver cannot go on.
    pub open spec fn step(self, event: EventModel, region: Seq<u8>) -> Result<Next, Fatal> {
        match (self.stage, event) {
            (Stage::Idle, EventModel::Notified(channel)) => {
                if self.wakes(channel) {
                    Ok(
                        (DriverModel { notify_rx: false, notify_tx: false, ..self }).goes(
                            Stage::PollReceive,
                            ActionModel::PollReceive,
                            region,
                        ),
                    )
                } else {
                    Err(Fatal::UnknownChannel)
                }
            },
            (Stage::PollReceive, EventModel::ReceiveReady(ready)) => {
                if ready && !self.rx.free.is_empty() {
                    Ok(self.goes(Stage::Receive, ActionModel::Receive, region))
                } else {
                    Ok(self.receive_drained(region))
                }
            },
            (Stage::Receive, EventModel::Received(packet)) => self.packet_received(packet, region),
            (Stage::Recycle(desc), EventModel::Recycled) => self.buffer_recycled(desc, region),
            (Stage::NotifyReceive, EventModel::Completed) => Ok(self.transmit_next(region)),
            (Stage::PollSend, EventModel::SendReady(ready)) => {
                if ready {
                    self.send_ready(region)
                } else {
                    Ok(self.transmit_drained(region))
                }
            },
            (Stage::Send(desc), EventModel::Sent) => self.packet_sent(desc, region),
            (Stage::NotifyTransmit, EventModel::Completed) => Ok(
                self.goes(Stage::AckDevice, ActionModel::AckDevice, region),
            ),
            (Stage::AckDevice, EventModel::Completed) => Ok(
                self.goes(Stage::AckInterrupt, ActionModel::AckInterrupt, region),
            ),
            (Stage::AckInterrupt, EventModel::Completed) => Ok(
                self.goes(Stage::Idle, ActionModel::Wait, region),
            ),
            (Stage::PollReceive, EventModel::Failed)
            | (Stage::Receive, EventModel::Failed)
            | (Stage::Recycle(_), EventModel::Failed)
            | (Stage::PollSend, EventModel::Failed)
            | (Stage::Send(_), EventModel::Failed)
            | (Stage::AckDevice, EventModel::Failed) => Err(Fatal::Device),
            (Stage::AckInterrupt, EventModel::Failed) => Err(Fatal::Channel),
            _ => Err(Fatal::UnexpectedEvent),
        }
    }
}

/// The driver: its channels, its two ring pairs, and where in a pass it
/// stands.
pub struct Driver {
    channels: Channels,
    rx_queue: QueueHandle<Descriptor>,
    tx_queue: QueueHandle<Descriptor>,
    stage: Stage,
    notify_rx: bool,
    notify_tx: bool,
}

impl View for Driver {
    type V = DriverModel;

    closed spec fn view(&self) -> DriverModel {
        DriverModel {
            channels: self.channels,
            rx: self.rx_queue@,
            tx: self.tx_queue@,
            stage: self.stage,
            notify_rx: self.notify_rx,
            notify_tx: self.notify_tx,
        }
    }
}

impl Driver {
    /// An idle driver on these channels and ring pairs.
    pub fn new(
        channels: Channels,
        rx_queue: QueueHandle<Descriptor>,
        tx_queue: QueueHandle<Descriptor>,
    ) -> (driver: Self)
        ensures
            driver@ == (DriverModel {
                channels,
                rx: rx_queue@,
                tx: tx_queue@,
                stage: Stage::Idle,
                notify_rx: false,
                notify_tx: false,
            }),
    {
        Self { channels, rx_queue, tx_queue, stage: Stage::Idle, notify_rx: false, notify_tx: false }
    }

    pub fn channels(&self) -> (channels: Channels)
        ensures
            channels == self@.channels,
    {
        self.channels
    }

    /// What the driver waits on.
    pub fn stage(&self) -> (stage: Stage)
        ensures
            stage == self@.stage,
    {
        self.stage
    }

    /// The receive ring pair.
    pub fn rx_queue(&self) -> (handle: &QueueHandle<Descriptor>)
        ensures
            handle@ == self@.rx,
    {
        &self.rx_queue
    }

    /// The transmit ring pair.
    pub fn tx_queue(&self) -> (handle: &QueueHandle<Descriptor>)
        ensures
            handle@ == self@.tx,
    {
        &self.tx_queue
    }

    /// The receive ring pair, for the peer's side of it.
    pub fn rx_queue_mut(&mut self) -> (handle: &mut QueueHandle<Descriptor>)
        ensures
            handle@ == old(self)@.rx,
            final(self)@ == (DriverModel { rx: final(handle)@, ..old(self)@ }),
    {
        &mut self.rx_queue
    }

    /// The transmit ring pair, for the peer's side of it.
    pub fn tx_queue_mut(&mut self) -> (handle: &mut QueueHandle<Descriptor>)
        ensures
            handle@ == old(self)@.tx,
            final(self)@ == (DriverModel { tx: final(handle)@, ..old(self)@ }),
    {
        &mut self.tx_queue
    }

    /// Takes `event`, the outcome of the action that the driver asked for
    /// last (or a wakeup, when the driver is idle), and answers with the
    /// next action. A fatal answer leaves the driver and the region as they
    /// were.
    pub fn step(&mut self, event: Event, region: &mut [u8]) -> (res: Result<Action, Fatal>)
        ensures
            old(self)@.step(event@, old(region)@) matches Ok(next) ==> res matches Ok(action)
                && action@ == next.action && final(self)@ == next.driver && final(region)@
                == next.region,
            old(self)@.step(event@, old(region)@) matches Err(fatal) ==> res == Err::<
                Action,
                Fatal,
            >(fatal) && final(self)@ == old(self)@ && final(region)@ == old(region)@,
            old(self)@.wf() ==> final(self)@.wf(),
    {
        proof {
            if old(self)@.wf() && old(self)@.step(event@, old(region)@) is Ok {
                old(self)@.lemma_step_keeps_rings_well_formed(event@, old(region)@);
            }
        }
        match self.stage {
            Stage::Idle => match event {
                Event::Notified(channel) => self.on_notified(channel),
                _ => Err(Fatal::UnexpectedEvent),
            },
            Stage::PollReceive => match event {
                Event::ReceiveReady(ready) => {
                    if ready && !self.rx_queue.free().is_empty() {
                        self.stage = Stage::Receive;
                        Ok(Action::Receive)
                    } else {
                        Ok(self.receive_drained())
                    }
                },
                Event::Failed => Err(Fatal::Device),
                _ => Err(Fatal::UnexpectedEvent),
            },
            Stage::Receive => match event {
                Event::Received(packet) => self.on_received(packet.as_slice(), region),
                Event::Failed => Err(Fatal::Device),
                _ => Err(Fatal::UnexpectedEvent),
            },
            Stage::Recycle(desc) => match event {
                Event::Recycled => self.on_recycled(desc),
                Event::Failed => Err(Fatal::Device),
                _ => Err(Fatal::UnexpectedEvent),
            },
            Stage::NotifyReceive => match event {
                Event::Completed => Ok(self.transmit_next()),
                _ => Err(Fatal::UnexpectedEvent),
            },
            Stage::PollSend => match event {
                Event::SendReady(ready) => {
                    if ready {
                        self.on_send_ready(region)
                    } else {
                        Ok(self.transmit_drained())
                    }
                },
                Event::Failed => Err(Fatal::Device),
                _ => Err(Fatal::UnexpectedEvent),
            },
            Stage::Send(desc) => match event {
                Event::Sent => self.on_sent(desc),
                Event::Failed => Err(Fatal::Device),
                _ => Err(Fatal::UnexpectedEvent),
            },
            Stage::NotifyTransmit => match event {
                Event::Completed => {
                    self.stage = Stage::AckDevice;
                    Ok(Action::AckDevice)
                },
                _ => Err(Fatal::UnexpectedEvent),
            },
            Stage::AckDevice => match event {
                Event::Completed => {
                    self.stage = Stage::AckInterrupt;
                    Ok(Action::AckInterrupt)
                },
                Event::Failed => Err(Fatal::Device),
                _ => Err(Fatal::UnexpectedEvent),
            },
            Stage::AckInterrupt => match event {
                Event::Completed => {
                    self.stage = Stage::Idle;
                    Ok(Action::Wait)
                },
                Event::Failed => Err(Fatal::Channel),
                _ => Err(Fatal::UnexpectedEvent),
            },
        }
    }

    fn on_notified(&mut self, channel: usize) -> (res: Result<Action, Fatal>)
        requires
            old(self)@.stage == Stage::Idle,
        ensures
            forall|region: Seq<u8>|
                #[trigger] old(self)@.step(EventModel::Notified(channel), region) matches Ok(next)
                    ==> res matches Ok(action) && action@ == next.action && final(self)@
                    == next.driver,
            forall|region: Seq<u8>|
                #[trigger] old(self)@.step(EventModel::Notified(channel), region) matches Err(
                    fatal,
                ) ==> res == Err::<Action, Fatal>(fatal) && final(self)@ == old(self)@,
    {
        if channel == self.channels.device || channel == self.channels.receive || channel
            == self.channels.transmit {
            self.notify_rx = false;
            self.notify_tx = false;
            self.stage = Stage::PollReceive;
            Ok(Action::PollReceive)
        } else {
            Err(Fatal::UnknownChannel)
        }
    }

    fn receive_drained(&mut self) -> (action: Action)
        ensures
            forall|region: Seq<u8>|
                #[trigger] old(self)@.receive_drained(region) == (Next {
                    driver: final(self)@,
                    region,
                    action: action@,
                }),
    {
        if self.notify_rx {
            self.stage = Stage::NotifyReceive;
            Action::NotifyReceive
        } else {
            self.transmit_next()
        }
    }

    fn transmit_next(&mut self) -> (action: Action)
        ensures
            forall|region: Seq<u8>|
                #[trigger] old(self)@.transmit_next(region) == (Next {
                    driver: final(self)@,
                    region,
                    action: action@,
                }),
    {
        if self.tx_queue.free().is_empty() {
            self.transmit_drained()
        } else {
            self.stage = Stage::PollSend;
            Action::PollSend
        }
    }

    fn transmit_drained(&mut self) -> (action: Action)
        ensures
            forall|region: Seq<u8>|
                #[trigger] old(self)@.transmit_drained(region) == (Next {
                    driver: final(self)@,
                    region,
                    action: action@,
                }),
    {
        if self.notify_tx {
            self.stage = Stage::NotifyTransmit;
            Action::NotifyTransmit
        } else {
            self.stage = Stage::AckDevice;
            Action::AckDevice
        }
    }

    fn on_received(&mut self, packet: &[u8], region: &mut [u8]) -> (res: Result<Action, Fatal>)
        ensures
            old(self)@.packet_received(packet@, old(region)@) matches Ok(next) ==> res matches Ok(
                action,
            ) && action@ == next.action && final(self)@ == next.driver && final(region)@
                == next.region,
            old(self)@.packet_received(packet@, old(region)@) matches Err(fatal) ==> res == Err::<
                Action,
                Fatal,
            >(fatal) && final(self)@ == old(self)@ && final(region)@ == old(region)@,
    {
        if self.rx_queue.free().is_empty() {
            return Err(Fatal::FreeRingEmpty);
        }
        let head = self.rx_queue.free().head();
        let mut desc = self.rx_queue.free().buffer(head);
        if (desc.len() as usize) < packet.len() {
            return Err(Fatal::DescriptorTooSmall);
        }
        if !copy_in(region, desc.io_or_offset(), packet) {
            return Err(Fatal::SpanOutOfRegion);
        }
        let _ = self.rx_queue.free_mut().dequeue();
        desc.set_len(packet.len() as u16);
        self.stage = Stage::Recycle(desc);
        Ok(Action::Recycle)
    }

    fn on_recycled(&mut self, desc: Descriptor) -> (res: Result<Action, Fatal>)
        ensures
            forall|region: Seq<u8>|
                #[trigger] old(self)@.buffer_recycled(desc, region) matches Ok(next)
                    ==> res matches Ok(action) && action@ == next.action && final(self)@
                    == next.driver,
            forall|region: Seq<u8>|
                #[trigger] old(self)@.buffer_recycled(desc, region) matches Err(fatal) ==> res
                    == Err::<Action, Fatal>(fatal) && final(self)@ == old(self)@,
    {
        match self.rx_queue.active_mut().enqueue(desc) {
            Ok(()) => {
                self.notify_rx = true;
                self.stage = Stage::PollReceive;
                Ok(Action::PollReceive)
            },
            Err(_) => Err(Fatal::ActiveRingFull),
        }
    }

    fn on_send_ready(&mut self, region: &[u8]) -> (res: Result<Action, Fatal>)
        ensures
            old(self)@.send_ready(region@) matches Ok(next) ==> res matches Ok(action) && action@
                == next.action && final(self)@ == next.driver,
            old(self)@.send_ready(region@) matches Err(fatal) ==> res == Err::<Action, Fatal>(fatal)
                && final(self)@ == old(self)@,
    {
        if self.tx_queue.free().is_empty() {
            return Err(Fatal::FreeRingEmpty);
        }
        let head = self.tx_queue.free().head();
        let desc = self.tx_queue.free().buffer(head);
        match copy_out(region, desc.io_or_offset(), desc.len() as usize) {
            Some(bytes) => {
                let _ = self.tx_queue.free_mut().dequeue();
                self.stage = Stage::Send(desc);
                Ok(Action::Send(bytes))
            },
            None => Err(Fatal::SpanOutOfRegion),
        }
    }

    fn on_sent(&mut self, desc: Descriptor) -> (res: Result<Action, Fatal>)
        ensures
            forall|region: Seq<u8>|
                #[trigger] old(self)@.packet_sent(desc, region) matches Ok(next) ==> res matches Ok(
                    action,
                ) && action@ == next.action && final(self)@ == next.driver,
            forall|region: Seq<u8>|
                #[trigger] old(self)@.packet_sent(desc, region) matches Err(fatal) ==> res == Err::<
                    Action,
                    Fatal,
                >(fatal) && final(self)@ == old(self)@,
    {
        match self.tx_queue.active_mut().enqueue(desc) {
            Ok(()) => {
                self.notify_tx = true;
                Ok(self.transmit_next())
            },
            Err(_) => Err(Fatal::ActiveRingFull),
        }
    }
}

} // verus!
