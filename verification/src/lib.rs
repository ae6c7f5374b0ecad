//! A terminal Minesweeper engine: a grid of cells with bomb placement along a
//! logistic difficulty curve, neighbor counting, flood-fill reveal, and the
//! screen state machine that drives a round from the home menu to game over.
//!
//! The engine is pure with respect to the terminal: it consumes abstract
//! input events and produces the text each screen shows. Reading raw input
//! and writing to the terminal belong to the surrounding program.

pub mod board;
pub mod cell;
pub mod curve;
pub mod event;
pub mod flood;
pub mod machine;
mod rng;
pub mod text;
