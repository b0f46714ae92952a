//! Scheduling of recurring and one-off sessions and of who hosts them.
//!
//! Occurrences of a recurrence rule are never stored: every read expands
//! the rule over the window asked for and lays the sparse per-occurrence
//! exceptions over the result.

pub mod api;
pub mod auth;
pub mod calendar;
pub mod coverage;
pub mod ics;
pub mod ids;
pub mod invites;
pub mod materialize;
pub mod notifications;
pub mod occurrences;
pub mod report;
pub mod storage;
pub mod text;
pub mod types;
