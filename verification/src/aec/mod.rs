//! Keeping the call's own playout out of the system audio that is shared.

pub mod reference;
pub mod schedule;
