//! Executors, one per way of delivering a record.

pub mod sender_smtp;
