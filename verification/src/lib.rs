//! Collision and contact resolution for a 2D platformer.
//!
//! One moving character is tested against static, axis-aligned blocks. The
//! world tells which blocks the character overlaps, the tracker tells a new
//! contact from a lasting one, a contact names the side that it blocks, and
//! a blocked side clamps the character's velocity.
//!
//! Lengths are whole numbers of thousandths of a pixel, so that every
//! comparison is exact.

pub mod body;
pub mod character;
pub mod collision;
pub mod containment;
pub mod error;
pub mod event;
pub mod geometry;
pub mod laws;
pub mod map;
pub mod physics;
pub mod screen;
pub mod tick;
pub mod tracker;
pub mod utils;
pub mod world;
