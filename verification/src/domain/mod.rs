//! Quran domain types: the catalog, playback segments, slugs and verse text.

pub mod catalog;
pub mod segment;
pub mod slug;
pub mod verses;
