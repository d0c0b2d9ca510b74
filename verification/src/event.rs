//! Contact events: the signal that two bodies touch or have parted.

use vstd::prelude::*;
use crate::body::BodyId;

verus! {

/// The two states of a pair of bodies.
#[derive(Clone, Copy, Debug, PartialEq, Eq, Structural)]
pub enum ContactStatus {
    Started,
    Stopped,
}

/// What one step of the world says about one pair of bodies. The first
/// body is the character, the second the block.
#[derive(Clone, Copy, Debug, PartialEq, Eq, Structural)]
pub enum ContactEvent {
    Started(BodyId, BodyId),
    Stopped(BodyId, BodyId),
}

impl ContactEvent {
    pub open spec fn spec_status(self) -> ContactStatus {
        match self {
            ContactEvent::Started(_, _) => ContactStatus::Started,
            ContactEvent::Stopped(_, _) => ContactStatus::Stopped,
        }
    }

    pub open spec fn spec_first(self) -> BodyId {
        match self {
            ContactEvent::Started(a, _) => a,
            ContactEvent::Stopped(a, _) => a,
        }
    }

    pub open spec fn spec_second(self) -> BodyId {
        match self {
            ContactEvent::Started(_, b) => b,
            ContactEvent::Stopped(_, b) => b,
        }
    }

    /// The pair of bodies that the event is about.
    pub open spec fn pair(self) -> (BodyId, BodyId) {
        (self.spec_first(), self.spec_second())
    }

    /// Whether the event says that the pair touches or that it has parted.
    #[verifier::when_used_as_spec(spec_status)]
    pub fn status(self) -> (s: ContactStatus)
        ensures
            s == self.spec_status(),
    {
        match self {
            ContactEvent::Started(_, _) => ContactStatus::Started,
            ContactEvent::Stopped(_, _) => ContactStatus::Stopped,
        }
    }

    /// The first body of the pair.
    #[verifier::when_used_as_spec(spec_first)]
    pub fn first(self) -> (a: BodyId)
        ensures
            a == self.spec_first(),
    {
        match self {
            ContactEvent::Started(a, _) => a,
            ContactEvent::Stopped(a, _) => a,
        }
    }

    /// The second body of the pair.
    #[verifier::when_used_as_spec(spec_second)]
    pub fn second(self) -> (b: BodyId)
        ensures
            b == self.spec_second(),
    {
        match self {
            ContactEvent::Started(_, b) => b,
            ContactEvent::Stopped(_, b) => b,
        }
    }
}

} // verus!
