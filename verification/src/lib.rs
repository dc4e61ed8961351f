//! Stateful resource and session layer of a document-database protocol
//! gateway backed by pooled connections to a relational engine.
//!
//! The crate models and verifies the gateway's core bookkeeping: the
//! runtime-mutable configuration store, the connection-pool registry, the
//! per-session transaction state machine, the per-cursor continuation store,
//! and the plan that applies timeout/transaction discipline to a single SQL
//! execution.  All state is kept on plain values; the surrounding process
//! performs the actual network and file I/O and hands the results in.

pub mod config;
pub mod connection;
pub mod connection_pool;
pub mod cursor_store;
pub mod error;
pub mod numeric;
pub mod pool_manager;
pub mod processor;
pub mod registry;
pub mod telemetry;
pub mod transaction_store;
