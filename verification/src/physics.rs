//! The state of the moving character and the step that advances it.

use vstd::prelude::*;
use vstd::arithmetic::div_mod::lemma_div_nonincreasing;
use vstd::arithmetic::div_mod::lemma_div_pos_is_pos;
use crate::body::{BodyId, BodyView, CollisionGroup};
use crate::collision::{Collision, CollisionView};
use crate::error::CollisionError;
use crate::event::{ContactEvent, ContactStatus};
use crate::geometry::{abs, clamp_coord, saturate, Shape, Transform2, Vector2};
use crate::laws::lemma_events_involve_character;
use crate::screen::Settings;
use crate::tracker::{is_transition, record, recorded, reported, ContactTracker, TrackedPairs};
use crate::world::{CollisionNormal, CollisionWorld, WorldView};

verus! {

/// Where an entity is.
#[derive(Clone, Copy, Debug, PartialEq, Eq, Structural)]
pub struct Position(pub Vector2);

/// How far an entity moves in one second.
#[derive(Clone, Copy, Debug, PartialEq, Eq, Structural)]
pub struct Velocity(pub Vector2);

/// A side of the character that is blocked: the character may not move
/// further in that direction. `Right` and `Bottom` are the directions in
/// which x and y grow.
#[derive(Clone, Copy, Debug, PartialEq, Eq, Structural)]
pub enum MovingState {
    Left,
    Right,
    Top,
    Bottom,
}

/// The length of one tick in seconds, as a fraction.
#[derive(Clone, Copy, Debug)]
pub struct DeltaTime {
    numer: u32,
    denom: u32,
}

/// A contact event with what was measured when it was detected.
#[derive(Debug)]
pub struct ContactData {
    pub contact_event: ContactEvent,
    /// The contact normals, each pointing out of the character toward the
    /// block.
    pub collision_normals: Vec<CollisionNormal>,
    /// Where the character was, if the world knows it.
    pub character_position: Option<Position>,
    /// Where the block was, if the world knows it.
    pub block_position: Option<Position>,
}

/// A contact that constrains the character until it stops.
#[derive(Debug)]
pub struct CollisionHandle {
    pub collision_data: ContactData,
    pub character_entity: BodyId,
}

/// What a `ContactData` holds, as mathematical values.
pub struct ContactDataView {
    pub contact_event: ContactEvent,
    pub collision_normals: Seq<CollisionNormal>,
    pub character_position: Option<Position>,
    pub block_position: Option<Position>,
}

impl View for ContactData {
    type V = ContactDataView;

    open spec fn view(&self) -> ContactDataView {
        ContactDataView {
            contact_event: self.contact_event,
            collision_normals: self.collision_normals@,
            character_position: self.character_position,
            block_position: self.block_position,
        }
    }
}

/// What a `CollisionHandle` holds, as mathematical values.
pub struct CollisionHandleView {
    pub collision_data: ContactDataView,
    pub character_entity: BodyId,
}

impl View for CollisionHandle {
    type V = CollisionHandleView;

    open spec fn view(&self) -> CollisionHandleView {
        CollisionHandleView {
            collision_data: self.collision_data@,
            character_entity: self.character_entity,
        }
    }
}

/// The way of one tick along one axis: speed times tick length, rounded
/// toward zero.
pub open spec fn displacement(speed: int, numer: int, denom: int) -> int {
    if speed >= 0 {
        (speed * numer) / denom
    } else {
        -((-speed * numer) / denom)
    }
}

/// The position after one tick at the given velocity. A coordinate that
/// would leave the range of a coordinate stops at its end.
pub open spec fn integrate(position: Vector2, velocity: Vector2, numer: int, denom: int) -> Vector2 {
    Vector2 {
        x: clamp_coord(position.x + displacement(velocity.x as int, numer, denom)) as i32,
        y: clamp_coord(position.y + displacement(velocity.y as int, numer, denom)) as i32,
    }
}

/// A displacement is at most as long as the speed times the tick length,
/// and points the way the speed does.
pub proof fn lemma_displacement_bounds(speed: int, numer: int, denom: int)
    requires
        numer >= 0,
        denom > 0,
    ensures
        speed >= 0 ==> 0 <= displacement(speed, numer, denom) <= speed * numer,
        speed <= 0 ==> speed * numer <= displacement(speed, numer, denom) <= 0,
{
    if speed >= 0 {
        assert(speed * numer >= 0) by (nonlinear_arith)
            requires
                speed >= 0,
                numer >= 0,
        ;
        lemma_div_pos_is_pos(speed * numer, denom);
        lemma_div_nonincreasing(speed * numer, denom);
    } else {
        assert(-speed * numer >= 0 && -speed * numer == -(speed * numer)) by (nonlinear_arith)
            requires
                speed < 0,
                numer >= 0,
        ;
        lemma_div_pos_is_pos(-speed * numer, denom);
        lemma_div_nonincreasing(-speed * numer, denom);
    }
}

impl DeltaTime {
    #[verifier::type_invariant]
    spec fn positive_denominator(self) -> bool {
        self.denom > 0
    }

    /// The numerator of the tick length.
    pub closed spec fn spec_numer(self) -> u32 {
        self.numer
    }

    /// The denominator of the tick length.
    pub closed spec fn spec_denom(self) -> u32 {
        self.denom
    }

    /// A tick of `numer / denom` seconds, or `None` when `denom` is zero.
    pub fn new(numer: u32, denom: u32) -> (delta: Option<DeltaTime>)
        ensures
            match delta {
                Some(d) => denom > 0 && d.spec_numer() == numer && d.spec_denom() == denom,
                None => denom == 0,
            },
    {
        if denom == 0 {
            None
        } else {
            Some(DeltaTime { numer, denom })
        }
    }

    #[verifier::when_used_as_spec(spec_numer)]
    pub fn numer(self) -> (n: u32)
        ensures
            n == self.spec_numer(),
    {
        self.numer
    }

    #[verifier::when_used_as_spec(spec_denom)]
    pub fn denom(self) -> (d: u32)
        ensures
            d == self.spec_denom(),
            d > 0,
    {
        proof {
            use_type_invariant(&self);
        }
        self.denom
    }

    /// The way of one tick along one axis at the given speed.
    pub fn displacement(self, speed: i32) -> (way: i64)
        ensures
            way == displacement(speed as int, self.spec_numer() as int, self.spec_denom() as int),
            abs(way as int) <= abs(speed as int) * self.spec_numer(),
    {
        proof {
            use_type_invariant(&self);
            lemma_displacement_bounds(speed as int, self.numer as int, self.denom as int);
        }
        let n: i64 = self.numer as i64;
        let d: i64 = self.denom as i64;
        let s: i64 = speed as i64;
        if s >= 0 {
            assert(s * n <= 0x7fff_ffff * 0xffff_ffff) by (nonlinear_arith)
                requires
                    0 <= s <= 0x7fff_ffff,
                    0 <= n <= 0xffff_ffff,
            ;
            (s * n) / d
        } else {
            assert(0 <= -s * n <= 0x8000_0000 * 0xffff_ffff) by (nonlinear_arith)
                requires
                    0 < -s <= 0x8000_0000,
                    0 <= n <= 0xffff_ffff,
            ;
            assert(-s * n == -(s * n)) by (nonlinear_arith);
            -((-s * n) / d)
        }
    }
}

impl Default for DeltaTime {
    /// A tick of no length: nothing moves.
    fn default() -> (delta: DeltaTime)
        ensures
            delta.spec_numer() == 0,
            delta.spec_denom() == 1,
    {
        DeltaTime { numer: 0, denom: 1 }
    }
}

impl Position {
    /// The position after one tick at the given velocity.
    pub fn advanced(self, velocity: &Velocity, delta: &DeltaTime) -> (next: Position)
        ensures
            next.0 == integrate(
                self.0,
                velocity.0,
                delta.spec_numer() as int,
                delta.spec_denom() as int,
            ),
    {
        let dx = delta.displacement(velocity.0.x);
        let dy = delta.displacement(velocity.0.y);
        assert(abs(dx as int) <= 0x8000_0000 * 0xffff_ffff) by (nonlinear_arith)
            requires
                abs(dx as int) <= abs(velocity.0.x as int) * delta.spec_numer(),
                abs(velocity.0.x as int) <= 0x8000_0000,
                0 <= delta.spec_numer() <= 0xffff_ffff,
        ;
        assert(abs(dy as int) <= 0x8000_0000 * 0xffff_ffff) by (nonlinear_arith)
            requires
                abs(dy as int) <= abs(velocity.0.y as int) * delta.spec_numer(),
                abs(velocity.0.y as int) <= 0x8000_0000,
                0 <= delta.spec_numer() <= 0xffff_ffff,
        ;
        Position(
            Vector2 { x: saturate(self.0.x as i64 + dx), y: saturate(self.0.y as i64 + dy) },
        )
    }
}

/// The views of a list of collision handles.
pub open spec fn handle_views(handles: Seq<CollisionHandle>) -> Seq<CollisionHandleView> {
    Seq::new(handles.len(), |i: int| handles[i]@)
}

/// The half-extent of a collision box along one axis: the half size of the
/// picture less the margin.
pub open spec fn collision_half(size: int, margin: int) -> i32 {
    clamp_coord(size - margin) as i32
}

/// The collision box of a block. Blocks are square.
pub open spec fn block_shape(settings: Settings) -> Shape {
    Shape::Box {
        half_extent: Vector2 {
            x: collision_half(settings.block_size.0.x as int, settings.margin as int),
            y: collision_half(settings.block_size.0.x as int, settings.margin as int),
        },
    }
}

/// The collision box of the character.
pub open spec fn character_shape(settings: Settings) -> Shape {
    Shape::Box {
        half_extent: Vector2 {
            x: collision_half(settings.character_size.x as int, settings.margin as int),
            y: collision_half(settings.character_size.y as int, settings.margin as int),
        },
    }
}

/// The world with one static body more at each of the positions, in their
/// order.
pub open spec fn with_blocks(
    world: WorldView,
    shape: Shape,
    positions: Seq<Position>,
    label: Seq<char>,
) -> WorldView
    decreases positions.len(),
{
    if positions.len() == 0 {
        world
    } else {
        let before = with_blocks(world, shape, positions.drop_last(), label);
        before.with_body(
            BodyView {
                id: BodyId(before.bodies.len() as usize),
                transform: Transform2 { position: positions.last().0 },
                shape: shape,
                group: CollisionGroup::Static,
                label: label,
            },
        )
    }
}

/// Why a world cannot be set up, if it cannot: a box that is to be
/// registered has no positive size, or the world has a character already
/// and another is to be registered.
pub open spec fn setup_error(
    world: WorldView,
    settings: Settings,
    blocks: Seq<Position>,
    character: Option<Position>,
) -> Option<CollisionError> {
    if (character is Some && !character_shape(settings).valid()) || (blocks.len() > 0
        && !block_shape(settings).valid()) {
        Some(CollisionError::DegenerateShape)
    } else if character is Some && world.character is Some {
        Some(CollisionError::DuplicateCharacter)
    } else {
        None
    }
}

/// The world that is set up: the character comes first, if there is one,
/// then the blocks.
pub open spec fn set_up(
    world: WorldView,
    settings: Settings,
    blocks: Seq<Position>,
    character: Option<Position>,
) -> WorldView {
    let with_character = match character {
        Some(position) => world.with_body(
            BodyView {
                id: BodyId(world.bodies.len() as usize),
                transform: Transform2 { position: position.0 },
                shape: character_shape(settings),
                group: CollisionGroup::Character,
                label: "character"@,
            },
        ),
        None => world,
    };
    with_blocks(with_character, block_shape(settings), blocks, "rect"@)
}

/// The pose at a position.
pub open spec fn pose_at(position: Option<Position>) -> Option<Transform2> {
    match position {
        Some(p) => Some(Transform2 { position: p.0 }),
        None => None,
    }
}

/// Where a body is, if the world knows it.
pub open spec fn position_of(world: WorldView, id: BodyId) -> Option<Position> {
    if world.knows(id) {
        Some(Position(world.body(id).center()))
    } else {
        None
    }
}

/// The contact normals of an event's pair as the world stands: the unit
/// normal that points out of the first body toward the second while the
/// two are in contact, and nothing otherwise.
pub open spec fn normals_of(world: WorldView, event: ContactEvent) -> Seq<CollisionNormal> {
    if world.in_contact(event.spec_second(), event.spec_first()) {
        seq![world.normal(event.spec_second(), event.spec_first())]
    } else {
        Seq::empty()
    }
}

/// An event with what the world measures of its pair.
pub open spec fn contact_data_of(world: WorldView, event: ContactEvent) -> ContactDataView {
    ContactDataView {
        contact_event: event,
        collision_normals: normals_of(world, event),
        character_position: position_of(world, event.spec_first()),
        block_position: position_of(world, event.spec_second()),
    }
}

/// Whether an update steps the world: there is a world, and the handle on
/// record is that of the world's character.
pub open spec fn steps(collision: CollisionView) -> bool {
    &&& collision.world is Some
    &&& collision.character_handle is Some
    &&& collision.world->0.character == collision.character_handle
}

/// The world of a stepping update once the character has been moved, before
/// the step.
pub open spec fn moved_world(collision: CollisionView, position: Position) -> WorldView
    recommends
        steps(collision),
{
    collision.world->0.with_transform(
        collision.character_handle->0,
        Transform2 { position: position.0 },
    )
}

/// The events of an update.
pub open spec fn update_events(collision: CollisionView, position: Position) -> Seq<ContactEvent> {
    if steps(collision) {
        moved_world(collision, position).step_events()
    } else {
        Seq::empty()
    }
}

/// The collision state after an update.
pub open spec fn updated(collision: CollisionView, position: Position) -> CollisionView {
    CollisionView {
        world: if steps(collision) {
            Some(moved_world(collision, position).after_step())
        } else {
            collision.world
        },
        character_position: Some(Transform2 { position: position.0 }),
        ..collision
    }
}

/// What an update returns: each event with what the world measures of its
/// pair.
pub open spec fn update_data(collision: CollisionView, position: Position) -> Seq<ContactDataView> {
    Seq::new(
        update_events(collision, position).len(),
        |i: int|
            contact_data_of(updated(collision, position).world->0, update_events(collision, position)[i]),
    )
}

/// The events of a list of contacts.
pub open spec fn events_of(data: Seq<ContactDataView>) -> Seq<ContactEvent> {
    Seq::new(data.len(), |i: int| data[i].contact_event)
}

/// Whether the contact at index `i` of a list is a start that the tracker
/// reports as a change, the contacts before it being recorded first.
pub open spec fn is_new_contact(pairs: TrackedPairs, data: Seq<ContactDataView>, i: int) -> bool {
    &&& data[i].contact_event.spec_status() == ContactStatus::Started
    &&& reported(pairs, events_of(data), i)
}

/// A handle for each new contact among the first `n` of a list, in their
/// order.
pub open spec fn new_contacts(pairs: TrackedPairs, data: Seq<ContactDataView>, n: nat) -> Seq<
    CollisionHandleView,
>
    decreases n,
{
    if n == 0 {
        Seq::empty()
    } else {
        let before = new_contacts(pairs, data, (n - 1) as nat);
        if is_new_contact(pairs, data, n - 1) {
            before.push(
                CollisionHandleView {
                    collision_data: data[n - 1],
                    character_entity: data[n - 1].contact_event.spec_first(),
                },
            )
        } else {
            before
        }
    }
}

/// The step that moves the character and finds its contacts.
pub struct PhysicsSystem;

impl PhysicsSystem {
    /// A collision state with an empty world.
    pub fn init_collision_world() -> (collision: Collision)
        ensures
            collision.wf(),
            collision@ == (CollisionView {
                world: Some(WorldView::empty()),
                tracker: TrackedPairs::empty(),
                character_handle: None,
                character_position: None,
            }),
    {
        Collision {
            world: Some(CollisionWorld::new()),
            tracker: ContactTracker::new(),
            character_handle: None,
            character_position: None,
        }
    }

    /// Attaches to an event what the world measures of its pair now: the
    /// contact normal, pointing out of the event's first body toward its
    /// second, and where the two bodies are. Fails on an event that names a
    /// body that the world never issued.
    pub fn handle_contact_event(world: &CollisionWorld, event: &ContactEvent) -> (r: Result<
        ContactData,
        CollisionError,
    >)
        ensures
            match r {
                Ok(data) => {
                    &&& world@.knows(event.spec_first())
                    &&& world@.knows(event.spec_second())
                    &&& data@ == contact_data_of(world@, *event)
                },
                Err(e) => {
                    &&& e == CollisionError::UnknownBody
                    &&& !(world@.knows(event.spec_first()) && world@.knows(event.spec_second()))
                },
            },
    {
        let first = event.first();
        let second = event.second();
        let mut collision_normals: Vec<CollisionNormal> = Vec::new();
        match world.contact_normal(second, first) {
            Ok(Some((normal, _))) => {
                collision_normals.push(normal);
            },
            Ok(None) => {},
            Err(e) => {
                return Err(e);
            },
        }
        let character_position = match world.body(first) {
            Ok(body) => Position(body.transform.position),
            Err(e) => {
                return Err(e);
            },
        };
        let block_position = match world.body(second) {
            Ok(body) => Position(body.transform.position),
            Err(e) => {
                return Err(e);
            },
        };
        proof {
            assert(collision_normals@ =~= normals_of(world@, *event));
        }
        Ok(
            ContactData {
                contact_event: *event,
                collision_normals,
                character_position: Some(character_position),
                block_position: Some(block_position),
            },
        )
    }

    /// Registers the character, if there is one, and then a block at each
    /// position, with the collision boxes that the settings give. Nothing
    /// is registered when any of it would be refused, or when there is no
    /// world.
    pub fn setup_handles(
        settings: &Settings,
        block_positions: &Vec<Position>,
        character_position: Option<Position>,
        collision: &mut Collision,
    ) -> (r: Result<(), CollisionError>)
        requires
            old(collision).wf(),
        ensures
            final(collision).wf(),
            match old(collision)@.world {
                None => {
                    &&& r is Ok
                    &&& final(collision)@ == (CollisionView {
                        character_handle: None,
                        character_position: pose_at(character_position),
                        ..old(collision)@
                    })
                },
                Some(world) => match setup_error(
                    world,
                    *settings,
                    block_positions@,
                    character_position,
                ) {
                    Some(e) => r == Err::<(), CollisionError>(e) && final(collision)@ == old(
                        collision,
                    )@,
                    None => {
                        &&& r is Ok
                        &&& final(collision)@ == (CollisionView {
                            world: Some(
                                set_up(world, *settings, block_positions@, character_position),
                            ),
                            character_handle: if character_position is Some {
                                Some(BodyId(world.bodies.len() as usize))
                            } else {
                                None
                            },
                            character_position: pose_at(character_position),
                            ..old(collision)@
                        })
                    },
                },
            },
    {
        let block_half = saturate(settings.block_size.0.x as i64 - settings.margin as i64);
        let rect = Shape::Box { half_extent: Vector2 { x: block_half, y: block_half } };
        let character = Shape::Box {
            half_extent: Vector2 {
                x: saturate(settings.character_size.x as i64 - settings.margin as i64),
                y: saturate(settings.character_size.y as i64 - settings.margin as i64),
            },
        };
        let pose = match character_position {
            Some(position) => Some(Transform2 { position: position.0 }),
            None => None,
        };
        match &mut collision.world {
            None => {
                collision.character_handle = None;
                collision.character_position = pose;
                Ok(())
            },
            Some(world) => {
                let ghost before = world@;
                if (character_position.is_some() && !character.is_valid()) || (block_positions.len()
                    > 0 && !rect.is_valid()) {
                    return Err(CollisionError::DegenerateShape);
                }
                if character_position.is_some() && world.character().is_some() {
                    return Err(CollisionError::DuplicateCharacter);
                }
                let mut handle: Option<BodyId> = None;
                match character_position {
                    Some(position) => {
                        let label: String = "character".to_owned();
                        match world.register_character(
                            character,
                            Transform2 { position: position.0 },
                            label,
                        ) {
                            Ok(id) => {
                                handle = Some(id);
                            },
                            Err(e) => {
                                return Err(e);
                            },
                        }
                    },
                    None => {},
                }
                let ghost with_character = world@;
                let n = block_positions.len();
                let mut i: usize = 0;
                while i < n
                    invariant
                        n == block_positions@.len(),
                        i <= n,
                        n > 0 ==> rect.valid(),
                        world@.wf(),
                        world@ == with_blocks(
                            with_character,
                            rect,
                            block_positions@.take(i as int),
                            "rect"@,
                        ),
                    decreases n - i,
                {
                    proof {
                        let upto = block_positions@.take(i + 1);
                        assert(upto.drop_last() =~= block_positions@.take(i as int));
                        assert(upto.last() == block_positions@[i as int]);
                    }
                    let label: String = "rect".to_owned();
                    match world.register_static(
                        rect,
                        Transform2 { position: block_positions[i].0 },
                        label,
                    ) {
                        Ok(_) => {},
                        Err(e) => {
                            return Err(e);
                        },
                    }
                    i = i + 1;
                }
                proof {
                    assert(block_positions@.take(n as int) =~= block_positions@);
                }
                collision.character_handle = handle;
                collision.character_position = pose;
                Ok(())
            },
        }
    }

    /// Tells whether the event changes the status of its pair since the
    /// pair was last seen, and records the event's status.
    pub fn has_changed(event: ContactEvent, collision: &mut Collision) -> (changed: bool)
        requires
            old(collision).wf(),
        ensures
            final(collision).wf(),
            changed == is_transition(old(collision)@.tracker, event.pair(), event.spec_status()),
            final(collision)@ == (CollisionView {
                tracker: record(old(collision)@.tracker, event),
                ..old(collision)@
            }),
    {
        collision.tracker.has_transitioned(event)
    }

    /// Notes the character's position, moves the character in the world
    /// and steps the world. Returns the step's events, each with what the
    /// world measures of its pair. Without a world, or where the handle on
    /// record is not that of the world's character, the position is noted
    /// and nothing else happens.
    pub fn update_collision(position: &Position, collision: &mut Collision) -> (data: Vec<
        ContactData,
    >)
        requires
            old(collision).wf(),
        ensures
            final(collision).wf(),
            final(collision)@ == updated(old(collision)@, *position),
            data@.len() == update_data(old(collision)@, *position).len(),
            forall|i: int|
                0 <= i < data@.len() ==> (#[trigger] data@[i])@ == update_data(
                    old(collision)@,
                    *position,
                )[i],
    {
        let collision = collision.set_character_position(position);
        let mut data: Vec<ContactData> = Vec::new();
        let handle = collision.character_handle;
        match &mut collision.world {
            Some(world) => {
                if handle.is_some() && world.character() == handle {
                    let moved = world.set_character_transform(Transform2 { position: position.0 });
                    let ghost before_step = world@;
                    let events = world.step();
                    let n = events.len();
                    proof {
                        assert forall|j: int| 0 <= j < n implies {
                            &&& world@.knows((#[trigger] events@[j]).spec_first())
                            &&& world@.knows(events@[j].spec_second())
                        } by {
                            lemma_events_involve_character(before_step, j);
                        }
                    }
                    let mut i: usize = 0;
                    while i < n
                        invariant
                            n == events@.len(),
                            i <= n,
                            data@.len() == i,
                            forall|j: int|
                                0 <= j < n ==> {
                                    &&& world@.knows((#[trigger] events@[j]).spec_first())
                                    &&& world@.knows(events@[j].spec_second())
                                },
                            forall|j: int|
                                0 <= j < i ==> (#[trigger] data@[j])@ == contact_data_of(
                                    world@,
                                    events@[j],
                                ),
                        decreases n - i,
                    {
                        // Every event of a step names bodies of the world, so
                        // the measuring cannot fail here.
                        match Self::handle_contact_event(world, &events[i]) {
                            Ok(measured) => {
                                data.push(measured);
                            },
                            Err(_) => {
                                assert(world@.knows(events@[i as int].spec_first()));
                            },
                        }
                        i = i + 1;
                    }
                }
            },
            None => {},
        }
        data
    }

    /// One tick of the character: it moves by its velocity, the world is
    /// updated, and every event is shown to the tracker. Returns a handle
    /// for each contact that has newly started.
    pub fn run(
        delta: &DeltaTime,
        velocity: &Velocity,
        position: &mut Position,
        collision: &mut Collision,
    ) -> (handles: Vec<CollisionHandle>)
        requires
            old(collision).wf(),
        ensures
            final(collision).wf(),
            final(position).0 == integrate(
                old(position).0,
                velocity.0,
                delta.spec_numer() as int,
                delta.spec_denom() as int,
            ),
            final(collision)@ == (CollisionView {
                tracker: recorded(
                    old(collision)@.tracker,
                    update_events(old(collision)@, *final(position)),
                    update_events(old(collision)@, *final(position)).len(),
                ),
                ..updated(old(collision)@, *final(position))
            }),
            handle_views(handles@) == new_contacts(
                old(collision)@.tracker,
                update_data(old(collision)@, *final(position)),
                update_data(old(collision)@, *final(position)).len(),
            ),
    {
        *position = position.advanced(velocity, delta);
        let ghost before = collision@;
        let ghost expected = update_data(before, *position);
        let data = Self::update_collision(position, collision);
        let ghost views = Seq::new(data@.len(), |i: int| data@[i]@);
        let ghost events = update_events(before, *position);
        assert(views =~= expected);
        assert(events_of(views) =~= events);
        let mut handles: Vec<CollisionHandle> = Vec::new();
        for item in it: data
            invariant
                it.seq() == data@,
                views == Seq::new(data@.len(), |i: int| data@[i]@),
                events == events_of(views),
                collision.wf(),
                collision@ == (CollisionView {
                    tracker: recorded(before.tracker, events, it.index() as nat),
                    ..updated(before, *position)
                }),
                handle_views(handles@) == new_contacts(before.tracker, views, it.index() as nat),
        {
            let ghost held = handle_views(handles@);
            let event = item.contact_event;
            let changed = Self::has_changed(event, collision);
            if changed && event.status() == ContactStatus::Started {
                let ghost view = item@;
                handles.push(
                    CollisionHandle { collision_data: item, character_entity: event.first() },
                );
                assert(handle_views(handles@) =~= held.push(
                    CollisionHandleView {
                        collision_data: view,
                        character_entity: event.spec_first(),
                    },
                ));
            } else {
                assert(handle_views(handles@) =~= held);
            }
        }
        handles
    }
}

} // verus!
