//! A fixed-point model of bodies on independent, closed-form elliptical
//! orbits around a shared focus.
//!
//! Coordinates are measured in micro-units (one world unit is 1_000_000),
//! angles in micro-turns (one full revolution is `fp::FULL_TURN` units), and
//! trigonometric values on the milli scale (`fp::TRIG_SCALE`).  Every
//! position a body takes is a closed-form function of the elapsed simulation
//! time and the body's fixed geometry, so ticks can be replayed or computed
//! out of order with identical results.

pub mod fp;
pub mod orbit;
pub mod universe;
