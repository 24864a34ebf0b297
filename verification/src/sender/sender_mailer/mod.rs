//! The mail channel: enqueueing, cancelling and the names it is reached by.

pub mod sender;
