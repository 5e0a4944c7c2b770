//! Core of a PostgreSQL-backed job queue: the schema-scoped SQL text, the
//! queue and job data types, and the state-transition rules (submission with
//! throttling, fetch-and-claim, completion, failure with retry and
//! dead-letter routing, cancel and resume).
//!
//! Everything here is plain computation over plain values. The database
//! round-trips themselves live outside this crate; callers hand the results
//! back in as arguments.

use vstd::prelude::*;

mod client;
pub mod ddl;
pub mod dml;
pub mod engine;
mod error;
mod job;
pub mod proc;
mod queue;
pub mod stmt;
mod text;

pub use client::ClientBuilder;
pub use client::SetupPlan;
pub use client::plan_setup;
pub use error::DecodeError;
pub use error::Error;
pub use error::classify_constraint;
pub use job::Job;
pub use job::JobBuilder;
pub use job::JobOptions;
pub use job::JobDetails;
pub use job::JobState;
pub use queue::Queue;
pub use queue::QueueBuilder;
pub use queue::QueueDetails;
pub use queue::QueuePolicy;
pub use text::decimal_string;
pub use text::str_eq;

verus! {

/// Oldest installed schema version this client can work against.
pub const MINIMUM_SUPPORTED_APP_VERSION: u8 = 23;

/// Schema version written by a fresh install.
pub const CURRENT_APP_VERSION: u8 = 23;

} // verus!
