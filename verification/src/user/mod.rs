//! Accounts and the ways to log in to them.

pub mod login_param;
