//! The REST API server's own logic: its errors, its arguments and its registry
//! of running proxies.

pub mod api;
pub mod args;
pub mod error;
pub mod store;
