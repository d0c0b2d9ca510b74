//! One tick of the game: the contacts on hand hold the character back, the
//! character moves, and the world tells which contacts start and stop.

use vstd::prelude::*;
use crate::collision::{
    acknowledged_all, active_handles, all_blocked_sides, constrained, Collision, CollisionSystem,
    CollisionView, SideStrategy,
};
use crate::geometry::Vector2;
use crate::physics::{
    handle_views, integrate, new_contacts, update_data, update_events, updated, CollisionHandle,
    CollisionHandleView, DeltaTime, PhysicsSystem, Position, Velocity,
};
use crate::tracker::recorded;

verus! {

/// What the driver of the game holds between two ticks, as mathematical
/// values.
pub struct SceneView {
    /// The world, the tracker and what is known of the character.
    pub collision: CollisionView,
    /// The contacts that constrain the character.
    pub handles: Seq<CollisionHandleView>,
    /// Where the character is.
    pub position: Position,
}

/// The velocity with which the character moves in a tick: the velocity
/// that is asked for, clamped by the sides that the contacts on hand block.
pub open spec fn held_back(strategy: SideStrategy, scene: SceneView, velocity: Vector2) -> Vector2 {
    constrained(velocity, all_blocked_sides(strategy, scene.handles, scene.handles.len()))
}

/// The collision state once the contacts that have stopped are let go.
pub open spec fn released(scene: SceneView) -> CollisionView {
    CollisionView {
        tracker: acknowledged_all(scene.collision.tracker, scene.handles, scene.handles.len()),
        ..scene.collision
    }
}

/// The scene after one tick at the velocity that is asked for.
pub open spec fn ticked(
    strategy: SideStrategy,
    scene: SceneView,
    velocity: Vector2,
    numer: int,
    denom: int,
) -> SceneView {
    let position = Position(
        integrate(scene.position.0, held_back(strategy, scene, velocity), numer, denom),
    );
    let events = update_events(released(scene), position);
    let data = update_data(released(scene), position);
    SceneView {
        collision: CollisionView {
            tracker: recorded(released(scene).tracker, events, events.len()),
            ..updated(released(scene), position)
        },
        handles: active_handles(scene.collision.tracker, scene.handles, scene.handles.len())
            + new_contacts(released(scene).tracker, data, data.len()),
        position: position,
    }
}

/// Runs one tick: the constraints first, then the movement. The velocity
/// that is asked for is clamped by the contacts on hand; the character
/// moves by what is left of it; the world is stepped at the new position.
/// Returns the contacts that last, followed by those that have newly
/// started.
pub fn tick(
    system: &CollisionSystem,
    delta: &DeltaTime,
    velocity: &mut Velocity,
    position: &mut Position,
    collision: &mut Collision,
    handles: Vec<CollisionHandle>,
) -> (next: Vec<CollisionHandle>)
    requires
        old(collision).wf(),
    ensures
        final(collision).wf(),
        final(velocity).0 == held_back(
            system.strategy,
            SceneView {
                collision: old(collision)@,
                handles: handle_views(handles@),
                position: *old(position),
            },
            old(velocity).0,
        ),
        (SceneView {
            collision: final(collision)@,
            handles: handle_views(next@),
            position: *final(position),
        }) == ticked(
            system.strategy,
            SceneView {
                collision: old(collision)@,
                handles: handle_views(handles@),
                position: *old(position),
            },
            old(velocity).0,
            delta.spec_numer() as int,
            delta.spec_denom() as int,
        ),
{
    let mut next = system.run(handles, velocity, collision);
    let mut started = PhysicsSystem::run(delta, velocity, position, collision);
    let ghost kept = handle_views(next@);
    let ghost fresh = handle_views(started@);
    next.append(&mut started);
    proof {
        assert(handle_views(next@) =~= kept + fresh);
    }
    next
}

} // verus!
