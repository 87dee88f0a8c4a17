//! Capture-resource layer of a screen and audio sharing agent.
//!
//! The library holds the decisions of the layer as verified functions on plain
//! values: which display server a session runs, how a capture failure is
//! classified, which capturer a display index maps to, and how one audio
//! stream is shared among subscribers.  Spawning processes, opening devices
//! and locking are left to the caller.

pub mod audio;
pub mod classify;
pub mod registry;
pub mod session;
pub mod split;
pub mod text;
