//! A single-producer, multiple-consumer ring of records coordinated by
//! monotonically increasing sequence cursors.
pub mod processor;
pub mod ring;
pub mod sequence;
pub mod turbine;

pub use processor::{Batch, EventProcessor};
pub use ring::{RingBuffer, Slot};
pub use turbine::Turbine;
