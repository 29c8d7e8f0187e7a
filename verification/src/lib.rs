//! A durable queue of change requests with leases, bounded retries and dead letters,
//! and what stands around it: the validator of requests, the decisions of the worker
//! that drains the queue, the metrics and diagnostics that are read from its journal,
//! the orchestrator that breaks a task into assignments, and the texts of the
//! dashboard.
//!
//! The queue is a value (`queue::SqliteQueue`) whose operations are functions of their
//! arguments, the time among them. What each operation does is stated over a model of
//! the store (`store::QueueView`); `laws` proves what holds of every run of operations.

pub mod agent;
pub mod apply;
pub mod cast_builder;
pub mod cli;
pub mod coordinator;
pub mod digest;
pub mod doctor;
pub mod exporter;
pub mod fs_watch;
pub mod journal;
pub mod laws;
pub mod metrics;
pub mod models;
pub mod orchestrator;
pub mod order;
pub mod queue;
pub mod request;
pub mod runner;
pub mod schema;
pub mod store;
pub mod text;
pub mod tui;
pub mod validator;
pub mod watcher;
pub mod worker;
