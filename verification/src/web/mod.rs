//! What the handlers of requests take in, and the parts of their work that
//! need neither the network nor the store.

pub mod app;
pub mod dao;
pub mod mailer;
pub mod smser;
