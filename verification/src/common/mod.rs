//! What every part of the system shares: messages for users, time, the
//! lease over a queue, the dispatch loop and the cache broadcast.

pub mod cache;
pub mod dispatch;
pub mod fluent;
pub mod lease;
pub mod text;
pub mod time;
