//! Caption-track tooling: resolving a video identifier, decoding a caption
//! markup into timed segments, and rendering those segments as text.
//!
//! Times are whole milliseconds throughout.

pub mod bindings;
pub mod downloader;
pub mod render;
pub mod text;
pub mod timestamp;
pub mod video_id;
pub mod vtt;
