//! Session token lifecycle manager.
//!
//! This crate issues, validates, renews and expires opaque session tokens
//! backed by a key-value token store. The store offers a single concurrency
//! primitive, a compare-and-swap on a record's `modified_at` timestamp, and
//! the manager builds at-most-once renewal, expiry detection and bulk
//! reclamation on top of it.

pub mod api;
pub mod clock;
pub mod config;
pub mod digest;
pub mod headers;
pub mod laws;
pub mod manager;
pub mod records;
pub mod store;
