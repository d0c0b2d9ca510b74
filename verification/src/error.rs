//! The ways in which setting up or querying the collision world can fail.

use vstd::prelude::*;

verus! {

/// A setup mistake, reported at once to the caller. None of these is worth
/// retrying.
#[derive(Clone, Copy, Debug, PartialEq, Eq, Structural)]
pub enum CollisionError {
    /// A second character was registered.
    DuplicateCharacter,
    /// A body id was used that the world never issued.
    UnknownBody,
    /// A shape without positive size was registered.
    DegenerateShape,
}

impl CollisionError {
    /// A short description of the error.
    pub fn message(&self) -> (text: &'static str)
        ensures
            text@ == match *self {
                CollisionError::DuplicateCharacter => "a character is already registered"@,
                CollisionError::UnknownBody => "no body with this id is registered"@,
                CollisionError::DegenerateShape => "a shape needs positive half-extents"@,
            },
    {
        match self {
            CollisionError::DuplicateCharacter => "a character is already registered",
            CollisionError::UnknownBody => "no body with this id is registered",
            CollisionError::DegenerateShape => "a shape needs positive half-extents",
        }
    }
}

} // verus!
