//! Shifts the geometry of robot-path description files: every waypoint of a
//! path document is translated by a fixed vector derived from a distance and
//! the path's own terminal heading.
//!
//! Coordinates, distances and headings are carried in fixed-point nanounits
//! (`SCALE` steps per unit), so every computation here is exact integer
//! arithmetic with a proved contract. Trigonometry and file handling live
//! with the caller, which hands in the unit-vector components of the
//! effective heading and receives the translated document back.

pub mod config;
pub mod errors;
pub mod geometry;
pub mod json;
pub mod path;
pub mod selector;
pub mod shifter;
pub mod text;
