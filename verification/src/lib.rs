//! Core logic of a TCP proxy that injects network faults ("toxics") into the
//! traffic that passes through it, together with the bookkeeping of its REST
//! API server and client.

pub mod buffer;
pub mod client;
pub mod error;
pub mod proxy;
pub mod rng;
pub mod server;
pub mod signal;
pub mod state;
pub mod text;
pub mod toxic;
pub mod toxics;
