//! Where audio and verse text live, and what a request still needs.

pub mod downloader;
pub mod resolver;
pub mod verses;
