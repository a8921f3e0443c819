//! A terminal Quran audio player: catalog, range segmentation, content
//! resolution, playlists, engine decisions and the framing between daemon and
//! client.

pub mod app;
pub mod audio;
pub mod config;
pub mod content;
pub mod daemon;
pub mod domain;
pub mod event;
pub mod media_keys;
pub mod model;
pub mod playback;
pub mod text;
pub mod ui;
