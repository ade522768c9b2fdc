//! A single-threaded chat and WebSocket-upgrade server core: the connection
//! registry, the per-connection state machine, the header accumulator and the
//! handshake computation, with the socket work left to the caller.

pub mod handshake;
pub mod headers;
pub mod text;
pub mod registry;
pub mod messages;
pub mod reactor;
pub mod laws;
pub mod config;
