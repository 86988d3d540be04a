//! Decision logic of a bridge between a Geyser gRPC feed and Kafka.
//!
//! The crate holds what the three stages of the bridge decide: how an update
//! becomes a keyed record, how many publishes may be outstanding, which
//! endpoint is tried next, and which consumed messages are republished. The
//! surrounding program performs the network calls and feeds their outcomes
//! back in as events.

pub mod backend;
pub mod decimal;
pub mod dedup;
pub mod digest;
pub mod endpoints;
pub mod fanout;
pub mod hex;
pub mod ingest;
pub mod key;
pub mod latch;
pub mod mode;
pub mod scheduler;
pub mod text;
pub mod update;
