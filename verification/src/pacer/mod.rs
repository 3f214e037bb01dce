//! Pacing of outgoing packets.

pub mod control;
