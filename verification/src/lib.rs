//! A verified core for a personal audio-playback daemon: the shared playback
//! state and its invariants, the command dispatcher, the audio-worker and
//! monitor state transitions with the track-advance algorithm, and the wire
//! codec for the local request/response protocol.

pub mod codec;
pub mod config;
pub mod daemon;
pub mod dispatch;
pub mod download;
pub mod ipc;
pub mod models;
pub mod monitor;
pub mod search;
pub mod text;
pub mod worker;
