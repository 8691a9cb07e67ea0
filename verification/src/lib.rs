//! Descriptor rings for handing packet buffers between a network driver and
//! its multiplexer, and the driver's run-to-completion event handling.

pub mod descriptor;
pub mod driver;
pub mod driver_laws;
pub mod handle;
pub mod region;
pub mod ring;
pub mod ring_laws;

pub use descriptor::{Descriptor, Span};
pub use driver::{Action, Channels, Driver, Event, Fatal, Stage};
pub use handle::{QueueHandle, RingPairModel};
pub use ring::{Queue, RawQueue, RingModel, QUEUE_SIZE};
