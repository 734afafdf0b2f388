//! A WebSocket protocol engine: frame codec, per-connection handshake and
//! state machine, and a registry that routes readiness events and outbound
//! messages to the right connection.
//!
//! The engine itself performs no I/O: sockets and the readiness multiplexer
//! live outside. Callers hand raw bytes in and write the returned byte
//! buffers out.

pub mod client;
pub mod frame;
pub mod http;
pub mod interface;
pub mod server;
