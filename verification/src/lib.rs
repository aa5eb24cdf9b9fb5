//! A two-dimensional cellular automaton (Conway's B3/S23 rule) on a toroidal
//! grid, together with an incremental terminal renderer and the state machine
//! that drives them.
//!
//! The crate is organised leaf-first:
//! - [`game`] holds the grid snapshot ([`game::Generation`]), toroidal
//!   addressing and the evolution rule;
//! - [`render`] computes the minimal set of draw operations between two
//!   consecutive generations;
//! - [`app`] is the restart/exit state machine that sequences evolution and
//!   rendering.

pub mod app;
pub mod display;
pub mod game;
pub mod render;
mod rng;

pub use game::Cell;
pub use game::Generation;
pub use game::Position;
