//! Movement core of a 2D tile platformer: merging a level's wall tiles into
//! collision rectangles, tracking what a character touches, and turning input
//! and contact state into velocity commands.

pub mod tiles;
pub mod contact;
pub mod controls;
pub mod movement;
pub mod safety;
