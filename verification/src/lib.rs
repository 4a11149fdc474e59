//! Malstrom: building blocks of a distributed, stateful stream processor.
pub mod decimal;
pub mod types;
pub mod worker_set;
pub mod keyed;
pub mod time;
pub mod stateful;
pub mod sources;
pub mod sinks;
pub mod vec_sink;
pub mod k8s;
pub mod kafka;
pub mod comm;
pub mod snapshot;
pub mod transport;
pub mod operators;
pub mod ttl;
pub mod stateful_sink;
pub mod stream;
