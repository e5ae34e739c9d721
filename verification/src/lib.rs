//! A fleet-telemetry core: machines report throughput readings over an
//! API-key-authenticated channel, while human operators manage machine
//! records, review telemetry history, and leave maintenance comments.
//!
//! The library holds the verified core: token classification, the
//! authorization gate, the partial-update engine, telemetry ingestion,
//! and the ordered queries, all over an in-memory store whose uniqueness
//! invariants stand for the unique-key constraints of a relational
//! storage layer.

pub mod models;
pub mod store;
pub mod auth;
pub mod sorting;
pub mod queries;
pub mod update;
pub mod clock;
pub mod handlers;
