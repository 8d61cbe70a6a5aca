//! Stream classification and multi-rendition transcode planning for
//! segmented HTTP streaming.
//!
//! The library sorts the streams of a probed container by media type
//! ([`streams`]), holds the operator's pick against the buckets
//! ([`prompt`], [`select`]), builds the encoder invocation of every
//! rendition of a bitrate ladder ([`profile`], [`encoder`]), writes out the
//! master playlist ([`playlist`]) and decides, step by step, which encoder
//! is launched or waited for next ([`jobs`]). It starts no process and
//! touches no file: the caller does, and tells the library what came of it.

pub mod codec;
pub mod encoder;
pub mod jobs;
pub mod playlist;
pub mod profile;
pub mod prompt;
pub mod select;
pub mod streams;
pub mod text;
