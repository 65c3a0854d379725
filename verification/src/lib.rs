//! Resource ownership, bus sharing and clock-divider arithmetic for a
//! microcontroller board.
//!
//! The crate hands out each physical peripheral exactly once, lets several
//! device drivers share one two-wire bus one whole transaction at a time, and
//! turns a desired tone frequency into the divider pair of a timer slice.

pub mod bus;
pub mod buzzer;
pub mod divider;
pub mod rate;
pub mod registry;
