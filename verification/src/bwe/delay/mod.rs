//! Delay-based bandwidth estimation.

pub mod aimd_link_capacity;
pub mod control;
pub mod laws;
pub mod rtt_average;
