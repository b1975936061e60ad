//! A music player library: the playback queue and transport state machine,
//! shuffle radio mode, listening statistics, playlists, decoding of catalog
//! API answers and lyrics, request paths, and what each request reports back.
pub mod text;
pub mod types;
pub mod shuffle;
pub mod playback;
pub mod stats;
pub mod lyrics;
pub mod urls;
pub mod catalog;
pub mod playlist;
pub mod queueing;
pub mod peaks;
pub mod progress;
pub mod config;
pub mod acks;
pub mod sanity;
pub mod proxy;
