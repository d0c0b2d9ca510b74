//! No tunneling: a character that moves in small steps never gets deep
//! into a block, because the contact that starts when it first overlaps
//! the block holds it back from then on.

use vstd::prelude::*;
use crate::body::{BodyId, CollisionGroup};
use crate::collision::{
    active_handles, all_blocked_sides, blocked_sides_of, is_active,
    lemma_acknowledged_keeps_active, side_of_normal, sides_of_normals, SideStrategy,
};
use crate::event::ContactStatus;
use crate::geometry::{abs, boxes_overlap, penetration, Transform2, Vector2};
use crate::event::ContactEvent;
use crate::laws::{
    lemma_constraint_blocks, lemma_event_source, lemma_first_sighting, lemma_record_last,
    lemma_record_untouched,
};
use crate::physics::{
    contact_data_of, displacement, events_of, integrate, is_new_contact,
    lemma_displacement_bounds, moved_world, new_contacts, steps, update_data, update_events,
    CollisionHandleView, ContactDataView, MovingState, Position,
};
use crate::tick::{held_back, released, ticked, SceneView};
use crate::tracker::{is_transition, recorded, reported, TrackedPairs};
use crate::world::{normal_toward, WorldView};

verus! {

/// How deep two boxes reach into each other: the lesser of their
/// penetrations along the two axes. It is positive exactly when the boxes
/// overlap.
pub open spec fn overlap_depth(pa: Vector2, ha: Vector2, pb: Vector2, hb: Vector2) -> int {
    let along_x = penetration(pa.x as int, ha.x as int, pb.x as int, hb.x as int);
    let along_y = penetration(pa.y as int, ha.y as int, pb.y as int, hb.y as int);
    if along_x <= along_y {
        along_x
    } else {
        along_y
    }
}

/// Whether a contact normal, pointing out of the character toward a block,
/// is that of a shallow contact: the block lies in the direction of the
/// normal, and along the normal's axis the character reaches into the block
/// by at most `margin`.
pub open spec fn holds_back(
    normal: Vector2,
    character: Vector2,
    character_half: Vector2,
    block: Vector2,
    block_half: Vector2,
    margin: int,
) -> bool {
    let along_x = penetration(
        character.x as int,
        character_half.x as int,
        block.x as int,
        block_half.x as int,
    );
    let along_y = penetration(
        character.y as int,
        character_half.y as int,
        block.y as int,
        block_half.y as int,
    );
    if normal == (Vector2 { x: 1, y: 0 }) {
        character.x < block.x && along_x <= margin
    } else if normal == (Vector2 { x: -1i32, y: 0 }) {
        character.x > block.x && along_x <= margin
    } else if normal == (Vector2 { x: 0, y: 1 }) {
        character.y < block.y && along_y <= margin
    } else if normal == (Vector2 { x: 0, y: -1i32 }) {
        character.y > block.y && along_y <= margin
    } else {
        false
    }
}

/// Whether a move from one position to another does not go further in the
/// direction of a contact normal.
pub open spec fn yields_to(normal: Vector2, from: Vector2, to: Vector2) -> bool {
    &&& normal.x > 0 ==> to.x <= from.x
    &&& normal.x < 0 ==> to.x >= from.x
    &&& normal.y > 0 ==> to.y <= from.y
    &&& normal.y < 0 ==> to.y >= from.y
}

/// A contact that starts after a small move is shallow. If the character
/// did not overlap the block, moves by at most `margin` along each axis and
/// then overlaps it, the contact normal is that of a shallow contact.
pub proof fn lemma_fresh_contact_is_shallow(
    from: Vector2,
    to: Vector2,
    character_half: Vector2,
    block: Vector2,
    block_half: Vector2,
    margin: int,
)
    requires
        !boxes_overlap(from, character_half, block, block_half),
        boxes_overlap(to, character_half, block, block_half),
        abs(to.x - from.x) <= margin,
        abs(to.y - from.y) <= margin,
        margin < character_half.x + block_half.x,
        margin < character_half.y + block_half.y,
    ensures
        holds_back(
            normal_toward(block, block_half, to, character_half),
            to,
            character_half,
            block,
            block_half,
            margin,
        ),
{
}

/// A shallow contact stays shallow while the character does not move
/// further in the direction of its normal.
pub proof fn lemma_shallow_contact_lasts(
    normal: Vector2,
    from: Vector2,
    to: Vector2,
    character_half: Vector2,
    block: Vector2,
    block_half: Vector2,
    margin: int,
)
    requires
        holds_back(normal, from, character_half, block, block_half, margin),
        yields_to(normal, from, to),
    ensures
        holds_back(normal, to, character_half, block, block_half, margin),
{
}

/// In a shallow contact the boxes overlap by at most the margin.
pub proof fn lemma_shallow_contact_depth(
    normal: Vector2,
    character: Vector2,
    character_half: Vector2,
    block: Vector2,
    block_half: Vector2,
    margin: int,
)
    requires
        holds_back(normal, character, character_half, block, block_half, margin),
    ensures
        overlap_depth(character, character_half, block, block_half) <= margin,
{
}

/// A tick moves the character the way its velocity points, and by no more
/// than the displacement of the tick.
pub proof fn lemma_integrate_step(position: Vector2, velocity: Vector2, numer: int, denom: int)
    requires
        numer >= 0,
        denom > 0,
    ensures
        ({
            let next = integrate(position, velocity, numer, denom);
            &&& velocity.x <= 0 ==> next.x <= position.x
            &&& velocity.x >= 0 ==> next.x >= position.x
            &&& velocity.y <= 0 ==> next.y <= position.y
            &&& velocity.y >= 0 ==> next.y >= position.y
            &&& abs(next.x - position.x) <= abs(displacement(velocity.x as int, numer, denom))
            &&& abs(next.y - position.y) <= abs(displacement(velocity.y as int, numer, denom))
        }),
{
    lemma_displacement_bounds(velocity.x as int, numer, denom);
    lemma_displacement_bounds(velocity.y as int, numer, denom);
    assert(velocity.x == 0 ==> velocity.x * numer == 0) by (nonlinear_arith);
    assert(velocity.y == 0 ==> velocity.y * numer == 0) by (nonlinear_arith);
}

/// The events that a step reports of the first bodies stand, in the same
/// places, among those that it reports of more bodies.
pub proof fn lemma_events_prefix(world: WorldView, i: nat, n: nat)
    requires
        i <= n,
    ensures
        world.events_upto(i).len() <= world.events_upto(n).len(),
        forall|j: int|
            0 <= j < world.events_upto(i).len() ==> #[trigger] world.events_upto(n)[j]
                == world.events_upto(i)[j],
    decreases n,
{
    if i < n {
        lemma_events_prefix(world, i, (n - 1) as nat);
    }
}

/// The events of a step come in the order of the bodies: each is about the
/// character and one other body, and the later event is about the body that
/// was registered later.
pub proof fn lemma_events_ordered(world: WorldView, n: nat)
    requires
        world.wf(),
        n <= world.bodies.len(),
    ensures
        forall|j: int|
            0 <= j < world.events_upto(n).len() ==> {
                &&& world.character is Some
                &&& (#[trigger] world.events_upto(n)[j]).spec_first() == world.character->0
                &&& world.events_upto(n)[j].spec_second().0 < n
            },
        forall|j1: int, j2: int|
            0 <= j1 < j2 < world.events_upto(n).len() ==> (#[trigger] world.events_upto(
                n,
            )[j1]).spec_second().0 < (#[trigger] world.events_upto(n)[j2]).spec_second().0,
    decreases n,
{
    if n > 0 {
        lemma_events_ordered(world, (n - 1) as nat);
        assert(world.bodies[n - 1].id.0 == n - 1);
        let before = world.events_upto((n - 1) as nat);
        let upto = world.events_upto(n);
        assert forall|j: int| 0 <= j < upto.len() implies {
            &&& world.character is Some
            &&& (#[trigger] upto[j]).spec_first() == world.character->0
            &&& upto[j].spec_second().0 < n
        } by {
            if j < before.len() {
                assert(upto[j] == before[j]);
            } else {
                assert(world.event_at(n - 1) == Some(upto[j]));
            }
        }
        assert forall|j1: int, j2: int| 0 <= j1 < j2 < upto.len() implies (#[trigger] upto[j1]).spec_second().0
            < (#[trigger] upto[j2]).spec_second().0 by {
            assert(upto[j1] == before[j1]);
            if j2 < before.len() {
                assert(upto[j2] == before[j2]);
            } else {
                assert(world.event_at(n - 1) == Some(upto[j2]));
            }
        }
    } else {
        assert(world.events_upto(n).len() == 0);
    }
}

/// Where the event of a body stands among the events of a step: behind the
/// events of the bodies before it.
pub proof fn lemma_event_place(world: WorldView, i: int, n: nat)
    requires
        0 <= i < n,
        world.event_at(i) is Some,
    ensures
        world.events_upto(i as nat).len() < world.events_upto(n).len(),
        world.events_upto(n)[world.events_upto(i as nat).len() as int] == world.event_at(i)->0,
{
    lemma_events_prefix(world, (i + 1) as nat, n);
    let upto = world.events_upto((i + 1) as nat);
    assert(upto == world.events_upto(i as nat).push(world.event_at(i)->0));
    assert(upto[world.events_upto(i as nat).len() as int] == world.event_at(i)->0);
}

/// A body of which a step has nothing to report is in none of its events.
pub proof fn lemma_no_event_of(world: WorldView, i: int, j: int)
    requires
        world.wf(),
        0 <= i < world.bodies.len(),
        world.event_at(i) is None,
        0 <= j < world.step_events().len(),
    ensures
        world.step_events()[j].spec_second().0 != i,
{
    lemma_event_source(world, world.bodies.len(), j);
    let source = choose|source: int|
        0 <= source < world.bodies.len() && world.event_at(source) == Some(
            world.step_events()[j],
        );
    assert(world.bodies[source].id.0 == source);
}

/// What is on record of the character and a body once the events of a step
/// are recorded: the status of the body's event, or, where the step has
/// nothing to report of the body, what was on record before.
pub proof fn lemma_recorded_status(world: WorldView, pairs: TrackedPairs, i: int)
    requires
        world.wf(),
        world.character is Some,
        0 <= i < world.bodies.len(),
    ensures
        ({
            let events = world.step_events();
            let pair = (world.character->0, BodyId(i as usize));
            let after = recorded(pairs, events, events.len());
            match world.event_at(i) {
                Some(e) => after.contains_key(pair) && after[pair] == e.spec_status(),
                None => after.contains_key(pair) == pairs.contains_key(pair) && after[pair]
                    == pairs[pair],
            }
        }),
{
    let events = world.step_events();
    let pair = (world.character->0, BodyId(i as usize));
    assert(world.bodies[i].id.0 == i);
    lemma_events_ordered(world, world.bodies.len());
    match world.event_at(i) {
        Some(e) => {
            lemma_event_place(world, i, world.bodies.len());
            let k = world.events_upto(i as nat).len() as int;
            assert(events[k] == e);
            assert(e.pair() == pair);
            assert forall|j: int| k < j < events.len() implies (#[trigger] events[j]).pair()
                != events[k].pair() by {
                assert(events[k].spec_second().0 < events[j].spec_second().0);
            }
            lemma_record_last(pairs, events, k, events.len());
        },
        None => {
            assert forall|j: int| 0 <= j < events.len() implies (#[trigger] events[j]).pair()
                != pair by {
                lemma_no_event_of(world, i, j);
            }
            lemma_record_untouched(pairs, events, events.len(), pair);
        },
    }
}

/// Whether the event of a body is reported as a change depends on what was
/// on record of the body before the step alone.
pub proof fn lemma_reported_event(world: WorldView, pairs: TrackedPairs, i: int)
    requires
        world.wf(),
        world.character is Some,
        0 <= i < world.bodies.len(),
        world.event_at(i) is Some,
    ensures
        world.events_upto(i as nat).len() < world.step_events().len(),
        world.step_events()[world.events_upto(i as nat).len() as int] == world.event_at(i)->0,
        reported(pairs, world.step_events(), world.events_upto(i as nat).len() as int)
            == is_transition(
            pairs,
            (world.character->0, BodyId(i as usize)),
            (world.event_at(i)->0).spec_status(),
        ),
{
    let events = world.step_events();
    assert(world.bodies[i].id.0 == i);
    lemma_events_ordered(world, world.bodies.len());
    lemma_event_place(world, i, world.bodies.len());
    let k = world.events_upto(i as nat).len() as int;
    assert forall|j: int| 0 <= j < k implies (#[trigger] events[j]).pair() != events[k].pair() by {
        assert(events[j].spec_second().0 < events[k].spec_second().0);
    }
    lemma_first_sighting(pairs, events, k);
}

/// A handle whose contact lasts is among the handles that are kept.
pub proof fn lemma_active_is_kept(
    pairs: TrackedPairs,
    handles: Seq<CollisionHandleView>,
    n: nat,
    k: int,
)
    requires
        0 <= k < n <= handles.len(),
        is_active(pairs, handles[k]),
    ensures
        active_handles(pairs, handles, n).contains(handles[k]),
    decreases n,
{
    let kept = active_handles(pairs, handles, n);
    if k == n - 1 {
        assert(kept[kept.len() - 1] == handles[k]);
    } else {
        lemma_active_is_kept(pairs, handles, (n - 1) as nat, k);
        let before = active_handles(pairs, handles, (n - 1) as nat);
        let at = choose|at: int| 0 <= at < before.len() && before[at] == handles[k];
        assert(kept[at] == handles[k]);
    }
}

/// A contact that is new has a handle among the new handles.
pub proof fn lemma_new_contact_has_handle(
    pairs: TrackedPairs,
    data: Seq<ContactDataView>,
    n: nat,
    k: int,
)
    requires
        0 <= k < n <= data.len(),
        is_new_contact(pairs, data, k),
    ensures
        new_contacts(pairs, data, n).contains(
            CollisionHandleView {
                collision_data: data[k],
                character_entity: data[k].contact_event.spec_first(),
            },
        ),
    decreases n,
{
    let handle = CollisionHandleView {
        collision_data: data[k],
        character_entity: data[k].contact_event.spec_first(),
    };
    let fresh = new_contacts(pairs, data, n);
    if k == n - 1 {
        assert(fresh[fresh.len() - 1] == handle);
    } else {
        lemma_new_contact_has_handle(pairs, data, (n - 1) as nat, k);
        let before = new_contacts(pairs, data, (n - 1) as nat);
        let at = choose|at: int| 0 <= at < before.len() && before[at] == handle;
        assert(fresh[at] == handle);
    }
}

/// A side that one of the handles blocks is among the sides that all of
/// them block.
pub proof fn lemma_side_is_blocked(
    strategy: SideStrategy,
    handles: Seq<CollisionHandleView>,
    n: nat,
    k: int,
    side: MovingState,
)
    requires
        0 <= k < n <= handles.len(),
        blocked_sides_of(strategy, handles[k].collision_data).contains(side),
    ensures
        all_blocked_sides(strategy, handles, n).contains(side),
    decreases n,
{
    let all = all_blocked_sides(strategy, handles, n);
    let before = all_blocked_sides(strategy, handles, (n - 1) as nat);
    let last = blocked_sides_of(strategy, handles[n - 1].collision_data);
    if k == n - 1 {
        let at = choose|at: int| 0 <= at < last.len() && last[at] == side;
        assert(all[before.len() + at] == side);
    } else {
        lemma_side_is_blocked(strategy, handles, (n - 1) as nat, k, side);
        let at = choose|at: int| 0 <= at < before.len() && before[at] == side;
        assert(all[at] == side);
    }
}

/// Whether the record says that a pair touches.
pub open spec fn lasts(pairs: TrackedPairs, pair: (BodyId, BodyId)) -> bool {
    pairs.contains_key(pair) && pairs[pair] == ContactStatus::Started
}

/// Whether a handle is that of a shallow contact of the character with the
/// body at index `i`: it is about this pair, and its one normal is that of
/// a shallow contact as the world stands.
pub open spec fn guards(handle: CollisionHandleView, world: WorldView, i: int, margin: int) -> bool {
    &&& handle.collision_data.contact_event.pair() == (world.character->0, BodyId(i as usize))
    &&& handle.collision_data.collision_normals.len() == 1
    &&& holds_back(
        handle.collision_data.collision_normals[0],
        world.body(world.character->0).center(),
        world.body(world.character->0).half(),
        world.bodies[i].center(),
        world.bodies[i].half(),
        margin,
    )
}

/// What holds of the body at index `i` in a contained scene: the world and
/// the tracker agree on whether it touches the character, and if it does,
/// one of the handles is that of a shallow contact with it.
pub open spec fn guarded(scene: SceneView, i: int, margin: int) -> bool {
    let world = scene.collision.world->0;
    &&& world.touching[i] == world.touches_character(i)
    &&& lasts(scene.collision.tracker, (world.character->0, BodyId(i as usize)))
        == world.touching[i]
    &&& world.touching[i] ==> exists|k: int|
        0 <= k < scene.handles.len() && guards(#[trigger] scene.handles[k], world, i, margin)
}

/// A scene is contained when its world has been stepped where the
/// character stands, and every body that touches the character is held by
/// a handle of a shallow contact.
pub open spec fn contained(scene: SceneView, margin: int) -> bool {
    &&& steps(scene.collision)
    &&& scene.collision.world->0.wf()
    &&& scene.collision.world->0.body(scene.collision.world->0.character->0).center()
        == scene.position.0
    &&& forall|i: int|
        0 <= i < scene.collision.world->0.bodies.len() ==> #[trigger] guarded(scene, i, margin)
}

/// Moving the character leaves the world well formed and every other body
/// as it was.
pub proof fn lemma_moved_world(world: WorldView, transform: Transform2)
    requires
        world.wf(),
        world.character is Some,
    ensures
        ({
            let character = world.character->0;
            let moved = world.with_transform(character, transform);
            &&& moved.wf()
            &&& moved.after_step().wf()
            &&& moved.character == world.character
            &&& moved.touching == world.touching
            &&& moved.bodies.len() == world.bodies.len()
            &&& moved.body(character).center() == transform.position
            &&& moved.body(character).half() == world.body(character).half()
            &&& moved.body(character).group == world.body(character).group
            &&& forall|i: int|
                0 <= i < world.bodies.len() && i != character.0 ==> #[trigger] moved.bodies[i]
                    == world.bodies[i]
        }),
{
    let character = world.character->0;
    let moved = world.with_transform(character, transform);
    assert(world.bodies[character.0 as int].id.0 == character.0);
    assert forall|i: int| 0 <= i < moved.bodies.len() implies {
        &&& (#[trigger] moved.bodies[i]).id.0 == i
        &&& moved.bodies[i].shape.valid()
        &&& (moved.bodies[i].group == CollisionGroup::Character <==> moved.character == Some(
            BodyId(i as usize),
        ))
    } by {
        assert(world.bodies[i].id.0 == i);
    }
    assert forall|i: int|
        0 <= i < moved.after_step().touching.len() && #[trigger] moved.after_step().touching[i] implies {
        &&& moved.after_step().character is Some
        &&& moved.after_step().character != Some(BodyId(i as usize))
    } by {
        assert(moved.touches_character(i));
    }
}

/// In a contained scene no block overlaps the character by more than the
/// margin.
pub proof fn lemma_contained_depth(scene: SceneView, margin: int, i: int)
    requires
        contained(scene, margin),
        margin >= 0,
        0 <= i < scene.collision.world->0.bodies.len(),
        scene.collision.world->0.character != Some(BodyId(i as usize)),
    ensures
        ({
            let world = scene.collision.world->0;
            overlap_depth(
                scene.position.0,
                world.body(world.character->0).half(),
                world.bodies[i].center(),
                world.bodies[i].half(),
            ) <= margin
        }),
{
    let world = scene.collision.world->0;
    let character = world.character->0;
    assert(guarded(scene, i, margin));
    assert(world.bodies[i].id.0 == i);
    assert(world.bodies[character.0 as int].id.0 == character.0);
    if world.touching[i] {
        let k = choose|k: int|
            0 <= k < scene.handles.len() && guards(#[trigger] scene.handles[k], world, i, margin);
        lemma_shallow_contact_depth(
            scene.handles[k].collision_data.collision_normals[0],
            scene.position.0,
            world.body(character).half(),
            world.bodies[i].center(),
            world.bodies[i].half(),
            margin,
        );
    } else {
        assert(!world.touches_character(i));
        assert(!world.in_contact(character, BodyId(i as usize)));
    }
}

/// A scene whose world has just been stepped where the character stands,
/// with nothing touching the character and nothing on record as touching,
/// is contained, whatever the margin.
pub proof fn lemma_start_is_contained(scene: SceneView, margin: int)
    requires
        steps(scene.collision),
        scene.collision.world->0.wf(),
        scene.collision.world->0.body(scene.collision.world->0.character->0).center()
            == scene.position.0,
        forall|i: int|
            0 <= i < scene.collision.world->0.bodies.len() ==> {
                &&& !(#[trigger] scene.collision.world->0.touching[i])
                &&& !scene.collision.world->0.touches_character(i)
            },
        forall|pair: (BodyId, BodyId)| !lasts(scene.collision.tracker, pair),
    ensures
        contained(scene, margin),
{
    assert forall|i: int| 0 <= i < scene.collision.world->0.bodies.len() implies #[trigger] guarded(
        scene,
        i,
        margin,
    ) by {
        assert(!scene.collision.world->0.touching[i]);
    }
}

/// The handle of a pair, with nothing measured: it serves to ask the record
/// about the pair.
spec fn bare_handle(pair: (BodyId, BodyId)) -> CollisionHandleView {
    CollisionHandleView {
        collision_data: ContactDataView {
            contact_event: ContactEvent::Started(pair.0, pair.1),
            collision_normals: Seq::empty(),
            character_position: None,
            block_position: None,
        },
        character_entity: pair.0,
    }
}

/// A handle of a shallow contact blocks the side that its normal points
/// to, so that the velocity that is left does not lead further into the
/// block.
proof fn lemma_guard_yields(
    scene: SceneView,
    velocity: Vector2,
    numer: int,
    denom: int,
    margin: int,
    i: int,
    k: int,
)
    requires
        numer >= 0,
        denom > 0,
        0 <= k < scene.handles.len(),
        guards(scene.handles[k], scene.collision.world->0, i, margin),
    ensures
        yields_to(
            scene.handles[k].collision_data.collision_normals[0],
            scene.position.0,
            integrate(
                scene.position.0,
                held_back(SideStrategy::Normal, scene, velocity),
                numer,
                denom,
            ),
        ),
{
    let normals = scene.handles[k].collision_data.collision_normals;
    let normal = normals[0];
    let sides = all_blocked_sides(SideStrategy::Normal, scene.handles, scene.handles.len());
    let side = side_of_normal(normal)->0;
    assert(normals.drop_last().len() == 0);
    assert(sides_of_normals(normals.drop_last()) =~= Seq::<MovingState>::empty());
    assert(normals.last() == normal);
    let own = sides_of_normals(normals);
    assert(own == Seq::<MovingState>::empty().push(side));
    assert(own[0] == side);
    assert(own.contains(side));
    lemma_side_is_blocked(SideStrategy::Normal, scene.handles, scene.handles.len(), k, side);
    lemma_constraint_blocks(velocity, sides);
    lemma_integrate_step(
        scene.position.0,
        held_back(SideStrategy::Normal, scene, velocity),
        numer,
        denom,
    );
}

/// What a tick leaves of one body of a contained scene.
proof fn lemma_body_stays_guarded(
    scene: SceneView,
    velocity: Vector2,
    numer: int,
    denom: int,
    margin: int,
    i: int,
)
    requires
        contained(scene, margin),
        numer >= 0,
        denom > 0,
        abs(displacement(velocity.x as int, numer, denom)) <= margin,
        abs(displacement(velocity.y as int, numer, denom)) <= margin,
        margin < scene.collision.world->0.body(scene.collision.world->0.character->0).half().x,
        margin < scene.collision.world->0.body(scene.collision.world->0.character->0).half().y,
        0 <= i < scene.collision.world->0.bodies.len(),
    ensures
        guarded(ticked(SideStrategy::Normal, scene, velocity, numer, denom), i, margin),
{
    let world = scene.collision.world->0;
    let character = world.character->0;
    let pair = (character, BodyId(i as usize));
    let before = scene.collision.tracker;
    let handles = scene.handles;
    let speed = held_back(SideStrategy::Normal, scene, velocity);
    let from = scene.position.0;
    let to = integrate(from, speed, numer, denom);
    let position = Position(to);
    let let_go = released(scene);
    let moved = moved_world(let_go, position);
    let events = moved.step_events();
    let stepped = moved.after_step();
    let data = update_data(let_go, position);
    let next = ticked(SideStrategy::Normal, scene, velocity, numer, denom);
    let kept = active_handles(before, handles, handles.len());
    let fresh = new_contacts(let_go.tracker, data, data.len());

    assert(steps(let_go));
    assert(update_events(let_go, position) == events);
    assert(next.collision.world == Some(stepped));
    assert(next.handles == kept + fresh);
    assert(guarded(scene, i, margin));
    assert(world.bodies[i].id.0 == i);
    assert(world.bodies[character.0 as int].id.0 == character.0);
    lemma_moved_world(world, Transform2 { position: to });
    lemma_acknowledged_keeps_active(before, handles, handles.len(), bare_handle(pair));
    assert(lasts(let_go.tracker, pair) == lasts(before, pair));
    lemma_recorded_status(moved, let_go.tracker, i);
    assert(stepped.touching[i] == moved.touches_character(i));
    assert(stepped.touches_character(i) == moved.touches_character(i));

    lemma_constraint_blocks(
        velocity,
        all_blocked_sides(SideStrategy::Normal, handles, handles.len()),
    );
    lemma_displacement_bounds(0, numer, denom);
    lemma_integrate_step(from, speed, numer, denom);
    assert(abs(to.x - from.x) <= margin);
    assert(abs(to.y - from.y) <= margin);

    if moved.touches_character(i) {
        assert(i != character.0);
        assert(moved.bodies[i] == world.bodies[i]);
        assert(moved.event_at(i) == Some(ContactEvent::Started(character, BodyId(i as usize))));
        if world.touching[i] {
            let k = choose|k: int|
                0 <= k < handles.len() && guards(#[trigger] handles[k], world, i, margin);
            assert(is_active(before, handles[k]));
            lemma_active_is_kept(before, handles, handles.len(), k);
            let at = choose|at: int| 0 <= at < kept.len() && kept[at] == handles[k];
            assert(next.handles[at] == handles[k]);
            lemma_guard_yields(scene, velocity, numer, denom, margin, i, k);
            lemma_shallow_contact_lasts(
                handles[k].collision_data.collision_normals[0],
                from,
                to,
                world.body(character).half(),
                world.bodies[i].center(),
                world.bodies[i].half(),
                margin,
            );
            assert(guards(next.handles[at], stepped, i, margin));
        } else {
            assert(!world.touches_character(i));
            assert(!boxes_overlap(
                from,
                world.body(character).half(),
                world.bodies[i].center(),
                world.bodies[i].half(),
            ));
            lemma_reported_event(moved, let_go.tracker, i);
            let k = moved.events_upto(i as nat).len() as int;
            assert(events_of(data) =~= events);
            assert(data[k] == contact_data_of(stepped, events[k]));
            assert(is_new_contact(let_go.tracker, data, k));
            lemma_new_contact_has_handle(let_go.tracker, data, data.len(), k);
            let handle = CollisionHandleView {
                collision_data: data[k],
                character_entity: data[k].contact_event.spec_first(),
            };
            let at = choose|at: int| 0 <= at < fresh.len() && fresh[at] == handle;
            assert(next.handles[kept.len() + at] == handle);
            assert(stepped.in_contact(BodyId(i as usize), character));
            lemma_fresh_contact_is_shallow(
                from,
                to,
                world.body(character).half(),
                world.bodies[i].center(),
                world.bodies[i].half(),
                margin,
            );
            assert(guards(next.handles[kept.len() + at], stepped, i, margin));
        }
    }
}

/// No tunneling: a tick leaves a contained scene contained.
///
/// The velocity that is asked for may be any that moves the character by at
/// most `margin` along each axis in one tick, and `margin` is less than the
/// character's half-extent. The strategy is that of the contact normals.
/// With `lemma_start_is_contained` and `lemma_contained_depth` this says of
/// every trajectory that starts clear of the blocks: tick after tick, no
/// block overlaps the character by more than `margin`.
pub proof fn lemma_tick_keeps_contained(
    scene: SceneView,
    velocity: Vector2,
    numer: int,
    denom: int,
    margin: int,
)
    requires
        contained(scene, margin),
        numer >= 0,
        denom > 0,
        abs(displacement(velocity.x as int, numer, denom)) <= margin,
        abs(displacement(velocity.y as int, numer, denom)) <= margin,
        margin < scene.collision.world->0.body(scene.collision.world->0.character->0).half().x,
        margin < scene.collision.world->0.body(scene.collision.world->0.character->0).half().y,
    ensures
        contained(ticked(SideStrategy::Normal, scene, velocity, numer, denom), margin),
        ticked(SideStrategy::Normal, scene, velocity, numer, denom).collision.world->0.body(
            scene.collision.world->0.character->0,
        ).half() == scene.collision.world->0.body(scene.collision.world->0.character->0).half(),
        ticked(SideStrategy::Normal, scene, velocity, numer, denom).collision.world->0.character
            == scene.collision.world->0.character,
{
    let world = scene.collision.world->0;
    let next = ticked(SideStrategy::Normal, scene, velocity, numer, denom);
    let to = integrate(
        scene.position.0,
        held_back(SideStrategy::Normal, scene, velocity),
        numer,
        denom,
    );
    let let_go = released(scene);
    assert(steps(let_go));
    let moved = moved_world(let_go, Position(to));
    assert(next.collision.world == Some(moved.after_step()));
    lemma_moved_world(world, Transform2 { position: to });
    assert forall|i: int| 0 <= i < next.collision.world->0.bodies.len() implies #[trigger] guarded(
        next,
        i,
        margin,
    ) by {
        lemma_body_stays_guarded(scene, velocity, numer, denom, margin, i);
    }
}

} // verus!
