//! Orchestration core for a two-player match service: a matchmaking queue,
//! a per-match process allocator with port management, a liveness reaper,
//! a byte-transparent connection router, and a per-worker session gateway.
//!
//! The library holds the decision and bookkeeping logic, fully verified.
//! Network and process I/O (sockets, the shared queue store, the ticket
//! store, spawning worker binaries) stay outside and hand the library plain
//! values.

pub mod allocator;
pub mod digits;
pub mod gateway;
pub mod ids;
pub mod matchmaker;
pub mod ports;
pub mod queue;
pub mod reaper;
pub mod router;
pub mod ticket;
