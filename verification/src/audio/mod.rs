//! Voice audio between the call engine and the sound card: frame queues, mixing, device
//! choice, and the counters that say where frames went missing.

pub mod blocks;
pub mod devices;
pub mod mixer;
pub mod probe;
pub mod ring;
