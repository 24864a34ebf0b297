//! Outbound message delivery: a work queue of mail and SMS records, the
//! lease that lets one dispatch loop at a time work on a queue, the loop
//! itself, a wait bridge for callers that need to know how a delivery ended,
//! and the broadcast that clears named local caches in every process.
//!
//! Apart from one function that reads the clock, nothing here does I/O.
//! Time comes in as a number of seconds, and what goes over the network or
//! to a database is handed in and out as plain values.

pub mod common;
pub mod docs;
pub mod sender;
pub mod user;
pub mod web;
