//! Core of a courier dispatch router.
//!
//! Orders are accepted from ingress, held in a bounded FIFO queue, and
//! assigned by a single engine to the best available courier according to a
//! multi-factor score. All registry state, the queue, the scoring function
//! and the commit rules live here; transports (HTTP, sockets) sit outside
//! and call into this crate with plain values.

pub mod config;
pub mod engine;
pub mod error;
pub mod models;
pub mod scoring;
pub mod state;
pub mod wire;
