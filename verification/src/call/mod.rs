//! Call control: who may ring this device, which ring becomes a call, and how every call
//! comes to an end.

pub mod accept;
pub mod auth;
pub mod capsule;
pub mod capsule_apply;
pub mod capsule_send;
pub mod directory;
pub mod claim;
pub mod cmd;
pub mod ending;
pub mod engine;
pub mod error;
pub mod group;
pub mod group_control;
pub mod group_end;
pub mod group_offer;
pub mod group_signal;
pub mod handles;
pub mod identity;
pub mod late_offer;
pub mod one_ring;
pub mod outcome;
pub mod reconnect;
pub mod resumed;
pub mod route;
pub mod session;
pub mod signal;
pub mod store;
pub mod store_locked;
pub mod system;
pub mod types;
pub mod unlock;
