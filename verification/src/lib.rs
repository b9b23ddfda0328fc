//! A verified simulation engine for Conway's Game of Life on a toroidal grid.
//!
//! The library holds the grid data structure, the B3/S23 update rule with
//! toroidal neighbor wrapping, cursor navigation, the pattern catalog and
//! stamping logic, the input-event-to-mutation mapping, and the fixed-tick
//! accumulator scheduler. Terminal I/O, event decoding and drawing live in
//! the surrounding application, which talks to this engine in plain values.

pub mod cursor;
pub mod event;
pub mod grid;
pub mod pattern;
mod rng;
pub mod rules;
pub mod state;
pub mod tick;
