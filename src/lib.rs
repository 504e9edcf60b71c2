//! Streaming core for live views of a running flight-simulation mission.
//!
//! Every physical quantity is held as a fixed-point integer counted in
//! billionths of its unit (nano-degrees, nanometres, nanoseconds, ...).
//! The stream engines are pure state machines: a driver feeds them
//! simulator events, poll results and clock readings, and forwards the
//! messages they return to the subscriber.
use vstd::prelude::*;

pub mod model;
pub mod equalish;
pub mod backoff;
pub mod status;
pub mod stream;
pub mod weapon;
pub mod laws;
