//! Core of a small application engine: a guarded run/stop lifecycle, a single
//! drain point for input events, and a pool of workers that execute background
//! jobs, some of them under a uniquely reserved specialization.
//!
//! Threads themselves are owned by the embedding program. This crate holds the
//! channels, the admission rules and the per-instruction behaviour of a worker,
//! and states what each operation does as machine-checked contracts.

pub mod engine;
pub mod error;
pub mod event;
pub mod scheduler;
