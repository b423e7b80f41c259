//! Verified core of a frame-echo server.
//!
//! A peer sends length-prefixed frames over a byte stream; the server echoes
//! each frame back unchanged and keeps a registry of the addresses of all
//! currently-open connections.  This crate holds the verified logic: the
//! frame codec, the per-connection state machine, the connection registry,
//! and the dispatcher's decisions.  The sockets themselves, and the loop
//! that reads from and writes to them, live outside the library.

pub mod addr;
pub mod codec;
pub mod handler;
pub mod registry;
pub mod server;
