//! Relay core: a rendezvous between a firewalled client and a public server.
//!
//! The modules hold the decisions of the relay as plain state machines and
//! codecs; the sockets, timers and tasks that drive them live around the
//! library.
pub mod backoff;
pub mod err;
pub mod config;
pub mod magic;
pub mod heartbeat;
pub mod gateway;
pub mod server;
pub mod client;
pub mod dial;
pub mod active;
pub mod frame;
pub mod websocket;
pub mod stream;
