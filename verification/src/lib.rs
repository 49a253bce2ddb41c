//! Core of a local video-casting helper: parsing HTTP `Range` headers,
//! planning ranged file responses, fingerprinting video files for subtitle
//! lookup, and converting SRT subtitles to WebVTT.
pub mod browse;
pub mod by_metadata;
pub mod by_path;
pub mod common;
pub mod numbers;
pub mod opensubs;
pub mod range;
pub mod text;
pub mod video;
