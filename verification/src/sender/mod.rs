//! Mail and SMS delivery: queue records, executors and their configuration.

pub mod adapter;
pub mod mailer;
pub mod message;
pub mod model;
pub mod sender_mailer;
pub mod sms_notify;
pub mod store;
pub mod task;
pub mod wait;
pub mod smtp_config;
