//! An interactive terminal metronome: rhythm grids compiled from compact
//! descriptions, a key-sequence recognizer, and a cooperative tick scheduler.
//!
//! The crate holds the core logic only; audio output, terminal handling and
//! rendering are left to the surrounding application.

pub mod app_state;
pub mod beat_spec;
pub mod config;
pub mod constants;
pub mod controller;
pub mod met_model;
pub mod metronome;
pub mod mode;
pub mod set_model;
pub mod tap_model;

use vstd::prelude::*;

verus! {

/// Errors arising while compiling a rhythm description.
#[derive(Clone, Copy, Debug, PartialEq, Eq, Structural)]
pub enum Error {
    /// A rhythm or cross-rhythm string held this unexpected character.
    ParseError(char),
    /// A rhythm description demanded numbers too large for the machine.
    ArithmeticOverflow,
}

} // verus!
