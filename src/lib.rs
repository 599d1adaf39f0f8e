//! Core engine of a falling-block puzzle game: the shape catalog, the
//! playfield grid, the active piece and its collisions, line clearing and
//! scoring, the bag-randomised piece queue, and the decoding of player input.
use vstd::prelude::*;

pub mod tetromino;
pub mod app;
pub mod random;
pub mod handler;
pub mod clap;
pub mod text;
pub mod highscore;

verus! {

} // verus!
