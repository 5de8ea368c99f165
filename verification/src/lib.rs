//! Core of a FastCGI application backend: the immutable routing table, the
//! per-request view and response model with their wire encodings, and the
//! decision logic of the built-in handlers — the command list, external
//! command execution, and request diagnostics.
//!
//! Everything here is synchronous and verified. The surrounding binary owns
//! the sockets, the task scheduler, the admission semaphore, and the
//! subprocesses; it hands this library plain values and writes back the
//! bytes the library assembles.

pub mod config;
pub mod connection;
pub mod handlers;
pub mod json;
pub mod request;
pub mod response;
pub mod text;
