//! Verified core of a daily application-usage tracker.
//!
//! The library models a date-indexed store of per-application minute
//! counters with a dynamic set of tracked applications, the aggregation
//! layer that turns sparse rows into dense, gap-filled series with
//! summary statistics, and the state machine of the interactive chart
//! browser.  Persistence, process polling, notification delivery and
//! terminal drawing live outside the library and exchange plain values
//! with it.

pub mod browser;
pub mod dates;
pub mod numfmt;
pub mod report;
pub mod stats;
pub mod store;
pub mod strutil;
pub mod timefmt;
