//! Local caches and the remote notice that clears them.

pub mod clear;

/// The type tag of the remote notices that clear caches.
pub use clear::REMOTE_NOTIFY_TYPE_CACHE;
