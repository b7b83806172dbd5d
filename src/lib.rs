//! Timing-window evaluation and input-sequence validation for two arcade
//! games: a rhythm game that grades presses against moving time windows, and
//! a memory game that checks presses against a growing sequence.
//!
//! Time is counted in whole milliseconds of a monotonic clock supplied by the
//! host; all state changes happen through the engines' entry points.

pub mod input;
pub mod timing;
pub mod path;
pub mod engine;
pub mod simon;
pub mod persist;
