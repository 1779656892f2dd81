//! Circular scrolling for Panasonic Let's Note WheelPad touchpads.
//!
//! The library decides what happens to every event that the physical touchpad
//! reports: which contact a gesture follows, which events reach the virtual
//! touchpad, and when the daemon stops. Reading devices, writing to virtual
//! devices and the geometry of the gesture belong to the program around it.

use vstd::prelude::*;

pub mod config;
pub mod error;
pub mod evdev;
pub mod event;
pub mod event_loop;
pub mod float64;
pub mod fsm;
pub mod pattern;
pub mod proxy;
pub mod router;
pub mod runtime;
pub mod search;
pub mod startup;
pub mod text;
pub mod wheel;

verus! {

/// The number of multi-touch slots that are tracked.
pub const MAX_MT_SLOTS: usize = 16;

} // verus!
