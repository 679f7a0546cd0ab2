//! A bounded-buffer event processing pipeline with failure isolation and
//! sliding-window statistics.
//!
//! The crate models the serialized core of a streaming engine: a bounded FIFO
//! buffer with backpressure, a processor registry, a circuit breaker per
//! registered processor, throughput metrics, and per-source sliding-window
//! aggregation with adaptive anomaly scoring. All state transitions are
//! deterministic functions of the current state, the incoming value, and an
//! explicit clock reading, so every operation carries a full functional
//! contract. Concurrency shells (worker tasks, async ingestion) drive these
//! operations from outside while holding exclusive access to the state.

pub mod anomaly;
pub mod breaker;
pub mod buffer;
pub mod engine;
pub mod event;
pub mod metrics;
pub mod processor;
pub mod reading;
pub mod stream;
pub mod window;
