//! Application data models: playlists and per-output download progress.

pub mod output;
pub mod playlist;
