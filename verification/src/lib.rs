//! Send-side bandwidth estimation and pacing, with the byte buffer that packets are carried in.
//!
//! Rates and times are whole numbers here: a [`bitrate::Bitrate`] counts thousandths of a bit
//! per second, a [`time::Duration`] and a [`time::Instant`] count nanoseconds. Every weighted
//! mean, variance and square root is integer arithmetic with a stated rounding.

pub mod bitrate;
pub mod bwe;
pub mod math;
pub mod pacer;
pub mod rtp;
pub mod shared_bytes;
pub mod time;
