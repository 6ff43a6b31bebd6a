//! Supervisor for a single external backend server process.
//!
//! The host application starts the backend either as a packaged sidecar
//! executable or by attaching to a development instance on a fixed port,
//! discovers the backend's dynamically chosen port through a handshake line
//! on its standard output, serves that port to pollers, and tears the
//! backend down exactly once when the host window closes.
//!
//! This crate holds the verified logic of that supervisor: the handshake
//! protocol, the shared state and its transitions, the launch-mode decision,
//! the port-query poll loop, and the idempotent shutdown decision. The host
//! process around it performs the actual spawning, stream reading, sleeping
//! and killing, and feeds every observation into these functions as plain
//! values.

pub mod handshake;
pub mod supervisor;
pub mod query;
