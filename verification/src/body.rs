//! Collision bodies and the handles by which the world names them.

use vstd::prelude::*;
use crate::geometry::{Shape, Transform2, Vector2};

verus! {

/// The handle of a registered body. The world issues each handle once, in
/// the order of registration, and never reuses it.
#[derive(Clone, Copy, Debug, PartialEq, Eq, Structural)]
pub struct BodyId(pub usize);

/// Which bodies a body is tested against.
#[derive(Clone, Copy, Debug, PartialEq, Eq, Structural)]
pub enum CollisionGroup {
    /// The moving actor: tested against every other body.
    Character,
    /// An obstacle: tested against the character only.
    Static,
}

/// A body of the collision world.
#[derive(Debug)]
pub struct CollisionBody {
    pub id: BodyId,
    pub transform: Transform2,
    pub shape: Shape,
    pub group: CollisionGroup,
    pub label: String,
}

/// Whether a pair with these groups is tested at all. Two static bodies
/// never are.
pub open spec fn groups_interact(a: CollisionGroup, b: CollisionGroup) -> bool {
    a == CollisionGroup::Character || b == CollisionGroup::Character
}

/// What a body holds, as mathematical values.
pub struct BodyView {
    pub id: BodyId,
    pub transform: Transform2,
    pub shape: Shape,
    pub group: CollisionGroup,
    pub label: Seq<char>,
}

impl View for CollisionBody {
    type V = BodyView;

    open spec fn view(&self) -> BodyView {
        BodyView {
            id: self.id,
            transform: self.transform,
            shape: self.shape,
            group: self.group,
            label: self.label@,
        }
    }
}

impl BodyView {
    /// The center of the body's box.
    pub open spec fn center(self) -> Vector2 {
        self.transform.position
    }

    /// The half-extent of the body's box.
    pub open spec fn half(self) -> Vector2 {
        self.shape.spec_half_extent()
    }
}

/// Tells whether a pair with these groups is tested.
pub fn interact(a: CollisionGroup, b: CollisionGroup) -> (yes: bool)
    ensures
        yes == groups_interact(a, b),
{
    a == CollisionGroup::Character || b == CollisionGroup::Character
}

} // verus!
