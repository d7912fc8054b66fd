//! The decisions that the toxics make about the bytes that pass through them.

pub mod bandwidth;
pub mod latency;
pub mod limit_data;
pub mod slicer;
