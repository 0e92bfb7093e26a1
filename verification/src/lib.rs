//! A verified controller core for a three-channel indicator light.
//!
//! The crate models the command language, the per-channel blink state
//! machine and the controller's dispatch decisions; the hardware and
//! network edges live outside the library and only exchange plain
//! values with it.

pub mod blinker;
pub mod command;
pub mod controller;
pub mod parse;
