//! An approximate, time-bucketed cache for weather lookups.
//!
//! Entries are keyed by city, request parameters and a coarse time bucket.
//! Lookups may be served by an entry for the same city whose bucket lies
//! close enough to the query's bucket, so that a paid upstream service is
//! asked as rarely as possible.
pub mod key;
pub mod payload;
pub mod store;
pub mod service;
pub mod laws;
pub mod weather;
