//! Audio analysis and sample-accurate trimming for a downloader of music.
//!
//! The library decides what can be counted and compared: how a signal is
//! framed, which lag or key is the strongest, what a waveform shows, which
//! samples of a stream lie inside a window, and how a download is queued and
//! named. Amplitudes and scores are never computed with here; they pass
//! through as bit patterns and are compared by their order.
//!
//! Containers and codecs are symphonia's, the MP3 encoder is LAME's, regular
//! expressions are the regex crate's and random identifiers are the uuid
//! crate's.

pub mod analysis;
pub mod decode;
pub mod download;
pub mod history;
pub mod ieee;
pub mod key;
pub mod loader;
pub mod queue;
pub mod tempo;
pub mod text;
pub mod title;
pub mod transcode;
pub mod trim;
pub mod waveform;
