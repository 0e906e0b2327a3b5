//! Data model for edge-matching tiling puzzles in the Eternity II family.
//!
//! Square tiles carry one edge value on each of their four sides and are
//! placed on a rectangular grid.  This crate provides the side/rotation
//! algebra, tiles and rotated tile views, puzzle-numbered tile sets, boards
//! with row-major addressing, clues, and the text parsers that build these
//! structures from the flat tile-file and clue-file encodings.

pub mod board;
pub mod e2;
pub mod parse;
pub mod rotation;
pub mod text;
pub mod tiles;
pub mod tileset;
