//! Seat-occupancy cellular automaton on a rectangular grid.
//!
//! A grid is a flat sequence of cell characters (`L` empty seat, `#` occupied
//! seat, `.` floor) together with a row length. Two neighbour-counting rules
//! (immediate adjacency and line of sight) drive a synchronous step function,
//! which is iterated until the grid reaches a fixed point.

pub mod count;
pub mod grid;
pub mod sim;
