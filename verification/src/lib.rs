//! Call control for the messenger's shell.

pub mod aec;
pub mod android_media;
pub mod attr_heal;
pub mod audio;
pub mod bio;
pub mod call;
pub mod names;
pub mod text;
