//! Core logic of a small chat-bot: slash-command dispatch, command-catalog
//! registration, per-command invocation counting, and a voice-session state
//! machine. The gateway client that feeds events in and carries responses out
//! lives outside this crate; everything here takes plain values and returns
//! plain values, with contracts stating exactly which response each command
//! produces.

pub mod counter;
pub mod handler;
pub mod dispatch;
pub mod registry;
pub mod text;
pub mod voice;
