//! Conway's Game of Life on a fixed-size toroidal grid.
//!
//! [`Universe`] owns a row-major buffer of [`Cell`]s together with the
//! configuration that [`Universe::reset`] rewinds to. Every operation is
//! specified against [`Grid`], the mathematical model of a universe:
//!
//! - [`cell`]: the state of one square;
//! - [`grid`]: the model, the addressing of squares, the torus and the rule;
//! - [`universe`]: the executable universe and its contracts;
//! - [`laws`]: what holds of the operations taken together;
//! - [`patterns`]: grids described square by square, and the blinker.

pub mod cell;
pub mod grid;
pub mod laws;
pub mod patterns;
pub mod universe;

pub use cell::Cell;
pub use grid::Grid;
pub use universe::{Universe, DEFAULT_SIZE};
