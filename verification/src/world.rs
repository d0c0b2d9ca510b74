//! The collision world: the static blocks, the one character, and the
//! contact events between the character and the blocks it overlaps.

use vstd::prelude::*;
use crate::body::{groups_interact, interact, BodyId, BodyView, CollisionBody, CollisionGroup};
use crate::error::CollisionError;
use crate::event::ContactEvent;
use crate::laws::lemma_no_character_no_events;
use crate::geometry::{
    boxes_overlap, overlap, penetration, penetration_of, shared_width, shared_width_of, Shape,
    Transform2, Vector2,
};

verus! {

/// A contact normal: one of the four unit vectors along the axes.
pub type CollisionNormal = Vector2;

/// The unit normal of the contact of box `a` with box `b`, pointing from `b`
/// toward `a`. It lies along the axis on which the boxes reach less deep
/// into each other, and along X when both depths are equal.
pub open spec fn normal_toward(pa: Vector2, ha: Vector2, pb: Vector2, hb: Vector2) -> Vector2 {
    if penetration(pa.x as int, ha.x as int, pb.x as int, hb.x as int) <= penetration(
        pa.y as int,
        ha.y as int,
        pb.y as int,
        hb.y as int,
    ) {
        if pa.x >= pb.x {
            Vector2 { x: 1, y: 0 }
        } else {
            Vector2 { x: -1i32, y: 0 }
        }
    } else {
        if pa.y >= pb.y {
            Vector2 { x: 0, y: 1 }
        } else {
            Vector2 { x: 0, y: -1i32 }
        }
    }
}

/// The length of the edge along which two overlapping boxes touch: the
/// stretch that they share on the axis across the contact normal.
pub open spec fn width_across(pa: Vector2, ha: Vector2, pb: Vector2, hb: Vector2) -> int {
    if penetration(pa.x as int, ha.x as int, pb.x as int, hb.x as int) <= penetration(
        pa.y as int,
        ha.y as int,
        pb.y as int,
        hb.y as int,
    ) {
        shared_width(pa.y as int, ha.y as int, pb.y as int, hb.y as int)
    } else {
        shared_width(pa.x as int, ha.x as int, pb.x as int, hb.x as int)
    }
}

/// What a collision world holds, as mathematical values.
pub struct WorldView {
    /// The bodies in the order of their registration.
    pub bodies: Seq<BodyView>,
    /// For each body, whether the last step found it overlapping the
    /// character.
    pub touching: Seq<bool>,
    /// The character, once it is registered.
    pub character: Option<BodyId>,
}

impl WorldView {
    /// Whether the world has issued this id.
    pub open spec fn knows(self, id: BodyId) -> bool {
        id.0 < self.bodies.len()
    }

    /// The body with this id.
    pub open spec fn body(self, id: BodyId) -> BodyView
        recommends
            self.knows(id),
    {
        self.bodies[id.0 as int]
    }

    /// The invariant of a collision world.
    pub open spec fn wf(self) -> bool {
        &&& self.touching.len() == self.bodies.len()
        &&& forall|i: int|
            0 <= i < self.bodies.len() ==> {
                &&& (#[trigger] self.bodies[i]).id.0 == i
                &&& self.bodies[i].shape.valid()
                &&& (self.bodies[i].group == CollisionGroup::Character <==> self.character
                    == Some(BodyId(i as usize)))
            }
        &&& forall|i: int|
            0 <= i < self.touching.len() && #[trigger] self.touching[i] ==> {
                &&& self.character is Some
                &&& self.character != Some(BodyId(i as usize))
            }
        &&& self.character matches Some(c) ==> self.knows(c)
    }

    /// Whether the pair is tested and its boxes overlap. A body is never in
    /// contact with itself, and two static bodies never are.
    pub open spec fn in_contact(self, a: BodyId, b: BodyId) -> bool {
        &&& self.knows(a)
        &&& self.knows(b)
        &&& a != b
        &&& groups_interact(self.body(a).group, self.body(b).group)
        &&& boxes_overlap(
            self.body(a).center(),
            self.body(a).half(),
            self.body(b).center(),
            self.body(b).half(),
        )
    }

    /// The unit normal of the contact of `a` with `b`, from `b` toward `a`.
    pub open spec fn normal(self, a: BodyId, b: BodyId) -> CollisionNormal {
        normal_toward(
            self.body(a).center(),
            self.body(a).half(),
            self.body(b).center(),
            self.body(b).half(),
        )
    }

    /// The length of the edge along which `a` and `b` touch.
    pub open spec fn contact_width(self, a: BodyId, b: BodyId) -> int {
        width_across(
            self.body(a).center(),
            self.body(a).half(),
            self.body(b).center(),
            self.body(b).half(),
        )
    }

    /// Whether the body at index `i` overlaps the character.
    pub open spec fn touches_character(self, i: int) -> bool {
        match self.character {
            Some(c) => self.in_contact(c, BodyId(i as usize)),
            None => false,
        }
    }

    /// What a step reports of the body at index `i`: that it overlaps the
    /// character, or that it did at the last step and no longer does, or,
    /// where neither holds, nothing.
    pub open spec fn event_at(self, i: int) -> Option<ContactEvent> {
        match self.character {
            Some(c) => if self.touches_character(i) {
                Some(ContactEvent::Started(c, BodyId(i as usize)))
            } else if self.touching[i] {
                Some(ContactEvent::Stopped(c, BodyId(i as usize)))
            } else {
                None
            },
            None => None,
        }
    }

    /// The events that a step reports of the first `n` bodies, in the order
    /// of their registration.
    pub open spec fn events_upto(self, n: nat) -> Seq<ContactEvent>
        decreases n,
    {
        if n == 0 {
            Seq::empty()
        } else {
            let before = self.events_upto((n - 1) as nat);
            match self.event_at(n - 1) {
                Some(e) => before.push(e),
                None => before,
            }
        }
    }

    /// The events that a step reports.
    pub open spec fn step_events(self) -> Seq<ContactEvent> {
        self.events_upto(self.bodies.len())
    }

    /// The world after a step: it remembers which bodies overlap the
    /// character.
    pub open spec fn after_step(self) -> WorldView {
        WorldView {
            touching: Seq::new(self.bodies.len(), |i: int| self.touches_character(i)),
            ..self
        }
    }

    /// The world without bodies.
    pub open spec fn empty() -> WorldView {
        WorldView { bodies: Seq::empty(), touching: Seq::empty(), character: None }
    }

    /// The world with one more body, which has not touched anything yet.
    pub open spec fn with_body(self, body: BodyView) -> WorldView {
        WorldView {
            bodies: self.bodies.push(body),
            touching: self.touching.push(false),
            character: if body.group == CollisionGroup::Character {
                Some(body.id)
            } else {
                self.character
            },
        }
    }

    /// The world with the body `id` moved to `transform`.
    pub open spec fn with_transform(self, id: BodyId, transform: Transform2) -> WorldView
        recommends
            self.knows(id),
    {
        WorldView {
            bodies: self.bodies.update(
                id.0 as int,
                BodyView { transform: transform, ..self.body(id) },
            ),
            ..self
        }
    }
}

/// The collision world. It owns every body; callers hold handles only.
pub struct CollisionWorld {
    bodies: Vec<CollisionBody>,
    touching: Vec<bool>,
    character: Option<BodyId>,
}

impl View for CollisionWorld {
    type V = WorldView;

    closed spec fn view(&self) -> WorldView {
        WorldView {
            bodies: Seq::new(self.bodies@.len(), |i: int| self.bodies@[i]@),
            touching: self.touching@,
            character: self.character,
        }
    }
}

impl CollisionWorld {
    /// A world without bodies.
    pub fn new() -> (world: CollisionWorld)
        ensures
            world@.wf(),
            world@ == WorldView::empty(),
    {
        let world = CollisionWorld { bodies: Vec::new(), touching: Vec::new(), character: None };
        proof {
            assert(world@.bodies =~= Seq::empty());
            assert(world@.touching =~= Seq::empty());
        }
        world
    }

    /// The number of registered bodies.
    pub fn len(&self) -> (n: usize)
        ensures
            n == self@.bodies.len(),
    {
        self.bodies.len()
    }

    /// The handle of the character, once it is registered.
    pub fn character(&self) -> (c: Option<BodyId>)
        ensures
            c == self@.character,
    {
        self.character
    }

    /// The body with this id.
    pub fn body(&self, id: BodyId) -> (r: Result<&CollisionBody, CollisionError>)
        ensures
            match r {
                Ok(body) => self@.knows(id) && body@ == self@.body(id),
                Err(e) => !self@.knows(id) && e == CollisionError::UnknownBody,
            },
    {
        if id.0 < self.bodies.len() {
            Ok(&self.bodies[id.0])
        } else {
            Err(CollisionError::UnknownBody)
        }
    }

    /// Adds a static obstacle and returns its handle. A shape without
    /// positive size is refused, and the world is left as it was.
    pub fn register_static(&mut self, shape: Shape, initial_transform: Transform2, label: String) -> (r:
        Result<BodyId, CollisionError>)
        requires
            old(self)@.wf(),
        ensures
            final(self)@.wf(),
            match r {
                Ok(id) => {
                    &&& shape.valid()
                    &&& id.0 == old(self)@.bodies.len()
                    &&& final(self)@ == old(self)@.with_body(
                        BodyView {
                            id: id,
                            transform: initial_transform,
                            shape: shape,
                            group: CollisionGroup::Static,
                            label: label@,
                        },
                    )
                },
                Err(e) => {
                    &&& !shape.valid()
                    &&& e == CollisionError::DegenerateShape
                    &&& final(self)@ == old(self)@
                },
            },
    {
        if !shape.is_valid() {
            return Err(CollisionError::DegenerateShape);
        }
        let id = BodyId(self.bodies.len());
        let body = CollisionBody {
            id: id,
            transform: initial_transform,
            shape: shape,
            group: CollisionGroup::Static,
            label: label,
        };
        let ghost added = body@;
        self.bodies.push(body);
        self.touching.push(false);
        proof {
            assert(self@.bodies =~= old(self)@.bodies.push(added));
        }
        Ok(id)
    }

    /// Adds the character and returns its handle. A shape without positive
    /// size is refused, and so is a second character; the world is then
    /// left as it was.
    pub fn register_character(
        &mut self,
        shape: Shape,
        initial_transform: Transform2,
        label: String,
    ) -> (r: Result<BodyId, CollisionError>)
        requires
            old(self)@.wf(),
        ensures
            final(self)@.wf(),
            match r {
                Ok(id) => {
                    &&& shape.valid()
                    &&& old(self)@.character is None
                    &&& id.0 == old(self)@.bodies.len()
                    &&& final(self)@ == old(self)@.with_body(
                        BodyView {
                            id: id,
                            transform: initial_transform,
                            shape: shape,
                            group: CollisionGroup::Character,
                            label: label@,
                        },
                    )
                },
                Err(e) => {
                    &&& final(self)@ == old(self)@
                    &&& e == if !shape.valid() {
                        CollisionError::DegenerateShape
                    } else {
                        CollisionError::DuplicateCharacter
                    }
                    &&& !shape.valid() || old(self)@.character is Some
                },
            },
    {
        if !shape.is_valid() {
            return Err(CollisionError::DegenerateShape);
        }
        if self.character.is_some() {
            return Err(CollisionError::DuplicateCharacter);
        }
        let id = BodyId(self.bodies.len());
        let body = CollisionBody {
            id: id,
            transform: initial_transform,
            shape: shape,
            group: CollisionGroup::Character,
            label: label,
        };
        let ghost added = body@;
        self.bodies.push(body);
        self.touching.push(false);
        self.character = Some(id);
        proof {
            assert(self@.bodies =~= old(self)@.bodies.push(added));
        }
        Ok(id)
    }

    /// Moves the character to a new pose, ahead of the next step. Fails
    /// when no character is registered.
    pub fn set_character_transform(&mut self, transform: Transform2) -> (r: Result<
        (),
        CollisionError,
    >)
        requires
            old(self)@.wf(),
        ensures
            final(self)@.wf(),
            match r {
                Ok(_) => {
                    &&& old(self)@.character matches Some(c)
                    &&& final(self)@ == old(self)@.with_transform(c, transform)
                },
                Err(e) => {
                    &&& old(self)@.character is None
                    &&& e == CollisionError::UnknownBody
                    &&& final(self)@ == old(self)@
                },
            },
    {
        match self.character {
            Some(c) => {
                self.bodies[c.0].transform = transform;
                proof {
                    assert(self@.bodies =~= old(self)@.with_transform(c, transform).bodies);
                }
                Ok(())
            },
            None => Err(CollisionError::UnknownBody),
        }
    }

    /// The unit normal of the contact of `a` with `b`, pointing from `b`
    /// toward `a`, and the length of the edge along which they touch; or
    /// `None` when the pair is not in contact. Fails on an id that was
    /// never issued.
    pub fn contact_normal(&self, a: BodyId, b: BodyId) -> (r: Result<
        Option<(CollisionNormal, i64)>,
        CollisionError,
    >)
        ensures
            match r {
                Ok(Some((normal, width))) => {
                    &&& self@.in_contact(a, b)
                    &&& normal == self@.normal(a, b)
                    &&& width == self@.contact_width(a, b)
                },
                Ok(None) => self@.knows(a) && self@.knows(b) && !self@.in_contact(a, b),
                Err(e) => e == CollisionError::UnknownBody && !(self@.knows(a) && self@.knows(b)),
            },
    {
        if a.0 >= self.bodies.len() || b.0 >= self.bodies.len() {
            return Err(CollisionError::UnknownBody);
        }
        let body_a = &self.bodies[a.0];
        let body_b = &self.bodies[b.0];
        let pa = body_a.transform.position;
        let ha = body_a.shape.half_extent();
        let pb = body_b.transform.position;
        let hb = body_b.shape.half_extent();
        if a.0 == b.0 || !interact(body_a.group, body_b.group) || !overlap(pa, ha, pb, hb) {
            return Ok(None);
        }
        let depth_x = penetration_of(pa.x, ha.x, pb.x, hb.x);
        let depth_y = penetration_of(pa.y, ha.y, pb.y, hb.y);
        if depth_x <= depth_y {
            let width = shared_width_of(pa.y, ha.y, pb.y, hb.y);
            if pa.x >= pb.x {
                Ok(Some((Vector2 { x: 1, y: 0 }, width)))
            } else {
                Ok(Some((Vector2 { x: -1, y: 0 }, width)))
            }
        } else {
            let width = shared_width_of(pa.x, ha.x, pb.x, hb.x);
            if pa.y >= pb.y {
                Ok(Some((Vector2 { x: 0, y: 1 }, width)))
            } else {
                Ok(Some((Vector2 { x: 0, y: -1 }, width)))
            }
        }
    }

    /// Tests the character against every static body and reports, in the
    /// order of registration, one event for each body that overlaps it and
    /// one for each body that overlapped it at the last step and no longer
    /// does. Two static bodies are never tested. The world remembers which
    /// bodies overlap the character now.
    pub fn step(&mut self) -> (events: Vec<ContactEvent>)
        requires
            old(self)@.wf(),
        ensures
            final(self)@.wf(),
            events@ == old(self)@.step_events(),
            final(self)@ == old(self)@.after_step(),
    {
        let mut events: Vec<ContactEvent> = Vec::new();
        let ghost before = self@;
        match self.character {
            None => {
                proof {
                    lemma_no_character_no_events(before);
                    assert(events@ =~= before.step_events());
                    assert(self.touching@ =~= before.after_step().touching);
                }
            },
            Some(c) => {
                let pc = self.bodies[c.0].transform.position;
                let hc = self.bodies[c.0].shape.half_extent();
                let n: usize = self.bodies.len();
                let mut i: usize = 0;
                while i < n
                    invariant
                        before.wf(),
                        before.character == Some(c),
                        pc == before.body(c).center(),
                        hc == before.body(c).half(),
                        n == before.bodies.len(),
                        i <= n,
                        self@.bodies == before.bodies,
                        self.character == before.character,
                        self.touching@.len() == n,
                        forall|j: int|
                            0 <= j < i ==> self.touching@[j] == before.touches_character(j),
                        forall|j: int| i <= j < n ==> self.touching@[j] == before.touching[j],
                        events@ == before.events_upto(i as nat),
                    decreases n - i,
                {
                    let hit = i != c.0 && overlap(
                        pc,
                        hc,
                        self.bodies[i].transform.position,
                        self.bodies[i].shape.half_extent(),
                    );
                    proof {
                        assert(before.bodies[c.0 as int].group == CollisionGroup::Character);
                        assert(hit == before.touches_character(i as int));
                    }
                    if hit {
                        events.push(ContactEvent::Started(c, BodyId(i)));
                        self.touching[i] = true;
                    } else if self.touching[i] {
                        events.push(ContactEvent::Stopped(c, BodyId(i)));
                        self.touching[i] = false;
                    }
                    i = i + 1;
                }
                proof {
                    assert(self.touching@ =~= before.after_step().touching);
                }
            },
        }
        events
    }
}

} // verus!
