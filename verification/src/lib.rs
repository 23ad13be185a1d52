//! Session logic of a live speech-interpretation client: the subtitle
//! de-duplication, the silence and echo handling of the microphone signal,
//! the lifecycle of a translation session, and transcript export.

pub mod audio;
pub mod config;
pub mod dedup;
pub mod export;
pub mod session;
pub mod slot;
pub mod text;
