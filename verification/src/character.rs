//! The character and the frames of its animation.

use vstd::prelude::*;
use crate::geometry::{Vector2, UNITS_PER_PIXEL};

verus! {

/// An axis-aligned rectangle on a sprite sheet or on the screen, by its
/// top-left corner and its size.
#[derive(Clone, Copy, Debug, PartialEq, Eq, Structural)]
pub struct Rectangle {
    pub pos: Vector2,
    pub size: Vector2,
}

/// The size of the character.
#[derive(Clone, Copy, Debug, PartialEq, Eq, Structural)]
pub struct Character {
    pub width: i32,
    pub height: i32,
}

/// A frame of the character's animation on the sprite sheet.
#[derive(Clone, Copy, Debug, PartialEq, Eq, Structural)]
pub enum CharacterPosition {
    /// The frame shown while the character stands.
    Start(Rectangle),
    /// The frame shown while the character moves.
    Moving(Rectangle),
}

impl Default for Character {
    /// A character of 50 by 50 pixels.
    fn default() -> (character: Character)
        ensures
            character.width == 50 * UNITS_PER_PIXEL,
            character.height == 50 * UNITS_PER_PIXEL,
    {
        Character { width: 50 * UNITS_PER_PIXEL, height: 50 * UNITS_PER_PIXEL }
    }
}

impl CharacterPosition {
    /// The frame's rectangle on the sprite sheet.
    pub open spec fn spec_rectangle(self) -> Rectangle {
        match self {
            CharacterPosition::Start(rectangle) => rectangle,
            CharacterPosition::Moving(rectangle) => rectangle,
        }
    }

    #[verifier::when_used_as_spec(spec_rectangle)]
    pub fn rectangle(self) -> (rectangle: Rectangle)
        ensures
            rectangle == self.spec_rectangle(),
    {
        match self {
            CharacterPosition::Start(rectangle) => rectangle,
            CharacterPosition::Moving(rectangle) => rectangle,
        }
    }
}

} // verus!
