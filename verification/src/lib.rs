//! Verified core of a page-stats counter service for a personal blog.
//!
//! One `PageStats` record is kept per content slug in a key-value store,
//! serialized as JSON.  This crate holds everything about the service that
//! is plain computation, with proofs: the record type and its counter
//! operations, the storage key scheme, the JSON encoding and its parser
//! (with a round-trip proof), the read-modify-write step of each store
//! operation, the request validation of the HTTP layer, and the small
//! formatting helpers of the browser widget.  The process that actually
//! talks to the store and to HTTP clients performs the I/O and calls into
//! these functions for every decision.

pub mod client;
pub mod decimal;
pub mod json;
pub mod reading_time;
pub mod service;
pub mod stats;
pub mod text;
pub mod widget;
