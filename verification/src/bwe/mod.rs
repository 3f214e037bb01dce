//! Bandwidth estimation.

pub mod app_rate;
pub mod capacity;
pub mod delay;
pub mod laws;
pub mod link_capacity_estimator;
