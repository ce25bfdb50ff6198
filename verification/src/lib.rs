//! Silence detection and removal for recorded speech, with the playback
//! cursor and session state that an editor front end drives.

pub mod audio;
pub mod error;
pub mod job;
pub mod laws;
pub mod pcm;
pub mod segmenter;
pub mod session;
pub mod silence;
