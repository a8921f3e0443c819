//! Audio output devices and the playback engine's state and decisions.

pub mod device;
pub mod engine;
