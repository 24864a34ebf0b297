//! Mail delivery with relays that are bound to applications one by one.

pub mod sender_smtp;
