//! A consolidated, queryable snapshot of a federated social directory.
//!
//! Three independently keyed datasets — account profiles, per-account
//! activity statistics, and directed follow edges — are merged into a
//! single immutable snapshot keyed by each account's external identifier
//! (its handle with a fixed domain suffix). The snapshot store exposes
//! point lookup and atomic whole-snapshot replacement, so a reader always
//! observes exactly one fully built generation.

pub mod data;
pub mod join;
pub mod store;
pub mod utils;
