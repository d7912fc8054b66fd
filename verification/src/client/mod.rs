//! The logic of the API client: where its requests go and what it makes of the
//! answers.

pub mod client;
pub mod error;
pub mod proxy;
