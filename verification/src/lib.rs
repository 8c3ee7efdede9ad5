//! A verified core for a job-posting monitor: a capped exponential backoff
//! calculator, a deduplicating seen-set with a newline-delimited on-disk
//! codec, per-location grouping of newly seen jobs, and the retry, scheduling
//! and persistence decision logic around them.

pub mod backoff;
pub mod config;
pub mod dedup;
pub mod fetch;
pub mod model;
pub mod notify;
pub mod persist;
pub mod schedule;
pub mod seen_set;
pub mod shutdown;
pub mod text;

pub use backoff::backoff_strategy;
pub use notify::escape_html;
pub use notify::humanize_job_type;
