//! A registry of named client sessions to tool-serving child processes.
//!
//! The registry decides; the caller performs the I/O. Connecting is two steps:
//! `begin_connect` reserves the identifier under the caller's lock, the caller
//! spawns the process and runs the handshake without the lock, and
//! `finish_connect` turns the reservation into a live session or drops it.
pub mod error;
pub mod laws;
pub mod mcp;
