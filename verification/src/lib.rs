//! Simulation core of a single-screen puzzle game played on a brick-offset
//! hexagonal grid: players select and swap adjacent half-hexagon pieces,
//! matching adjacent pieces of identical appearance clears them, and gravity
//! continuously resettles remaining pieces toward the grid's center.

pub mod animation;
pub mod cell;
pub mod cursor;
pub mod game;
pub mod gravity;
pub mod grid;
pub mod layout;
pub mod platform;
pub mod render;
pub mod text;
