//! From a contact to a constraint on the character's movement: which sides
//! a contact blocks, and how a blocked side clamps the velocity.

use vstd::prelude::*;
use crate::body::BodyId;
use crate::geometry::{abs, Transform2, Vector2};
use crate::event::ContactStatus;
use crate::physics::{
    handle_views, CollisionHandle, CollisionHandleView, ContactData, ContactDataView, MovingState,
    Position, Velocity,
};
use crate::tracker::{acknowledged, ContactTracker, TrackedPairs};
use crate::world::{CollisionNormal, CollisionWorld, WorldView};

verus! {

/// The side that a contact normal blocks. The normal points out of the
/// character toward the block. Where it leans more along X than along Y
/// the block is to the right or to the left; otherwise it is below or
/// above. The zero vector blocks nothing.
pub open spec fn side_of_normal(normal: CollisionNormal) -> Option<MovingState> {
    if normal.x == 0 && normal.y == 0 {
        None
    } else if abs(normal.x as int) > abs(normal.y as int) {
        if normal.x > 0 {
            Some(MovingState::Right)
        } else {
            Some(MovingState::Left)
        }
    } else {
        if normal.y > 0 {
            Some(MovingState::Bottom)
        } else {
            Some(MovingState::Top)
        }
    }
}

/// The sides that a list of contact normals blocks, in the order of the
/// normals.
pub open spec fn sides_of_normals(normals: Seq<CollisionNormal>) -> Seq<MovingState>
    decreases normals.len(),
{
    if normals.len() == 0 {
        Seq::empty()
    } else {
        let before = sides_of_normals(normals.drop_last());
        match side_of_normal(normals.last()) {
            Some(side) => before.push(side),
            None => before,
        }
    }
}

/// Where the character's center lies relative to a square block of the
/// given half size, along one axis: -1 before the block, 1 behind it, 0
/// strictly between its edges, and `None` exactly on an edge.
pub open spec fn zone(center: int, block: int, half_size: int) -> Option<int> {
    if center == block - half_size || center == block + half_size {
        None
    } else if center < block - half_size {
        Some(-1int)
    } else if center > block + half_size {
        Some(1int)
    } else {
        Some(0int)
    }
}

/// The sides that are blocked by the corner-quadrant rule.
///
/// The character's center is placed relative to the block's edges along
/// each axis. Every side is blocked except those on which the character
/// approaches, that is, those that face the block: a character below the
/// block (y grows downward) keeps `Top` free, one to its right keeps `Left`
/// free. A center on the line of an edge, or within the block along both
/// axes, gives no side.
pub open spec fn sides_by_position(character: Vector2, block: Vector2, half_size: int) -> Seq<
    MovingState,
> {
    match (
        zone(character.x as int, block.x as int, half_size),
        zone(character.y as int, block.y as int, half_size),
    ) {
        (Some(zx), Some(zy)) => if zx == 0 && zy == 0 {
            Seq::empty()
        } else {
            let left: Seq<MovingState> = if zx <= 0 {
                seq![MovingState::Left]
            } else {
                Seq::empty()
            };
            let right: Seq<MovingState> = if zx >= 0 {
                seq![MovingState::Right]
            } else {
                Seq::empty()
            };
            let top: Seq<MovingState> = if zy <= 0 {
                seq![MovingState::Top]
            } else {
                Seq::empty()
            };
            let bottom: Seq<MovingState> = if zy >= 0 {
                seq![MovingState::Bottom]
            } else {
                Seq::empty()
            };
            left + right + top + bottom
        },
        _ => Seq::empty(),
    }
}

/// The velocity after one blocked side has clamped it: the component that
/// points into the blocked side becomes zero, movement away from it stays.
pub open spec fn clamped(velocity: Vector2, side: MovingState) -> Vector2 {
    match side {
        MovingState::Left => Vector2 {
            x: if velocity.x >= 0 {
                velocity.x
            } else {
                0
            },
            ..velocity
        },
        MovingState::Right => Vector2 {
            x: if velocity.x <= 0 {
                velocity.x
            } else {
                0
            },
            ..velocity
        },
        MovingState::Top => Vector2 {
            y: if velocity.y >= 0 {
                velocity.y
            } else {
                0
            },
            ..velocity
        },
        MovingState::Bottom => Vector2 {
            y: if velocity.y <= 0 {
                velocity.y
            } else {
                0
            },
            ..velocity
        },
    }
}

/// The velocity after every blocked side of a list has clamped it, one
/// after the other.
pub open spec fn constrained(velocity: Vector2, blocked: Seq<MovingState>) -> Vector2
    decreases blocked.len(),
{
    if blocked.len() == 0 {
        velocity
    } else {
        clamped(constrained(velocity, blocked.drop_last()), blocked.last())
    }
}

/// How contacts are turned into blocked sides.
#[derive(Clone, Copy, Debug, PartialEq, Eq, Structural)]
pub enum SideStrategy {
    /// By the contact normal.
    Normal,
    /// By the position of the character relative to a square block of the
    /// given half size.
    Position { half_size: i32 },
}

/// The sides that a contact blocks under a strategy.
pub open spec fn blocked_sides_of(strategy: SideStrategy, data: ContactDataView) -> Seq<
    MovingState,
> {
    match strategy {
        SideStrategy::Normal => sides_of_normals(data.collision_normals),
        SideStrategy::Position { half_size } => match (
            data.character_position,
            data.block_position,
        ) {
            (Some(character), Some(block)) => sides_by_position(
                character.0,
                block.0,
                half_size as int,
            ),
            _ => Seq::empty(),
        },
    }
}

/// The side that a contact normal blocks, or `None` for the zero vector.
pub fn moving_state_from_collision_normal(collision_normal: &CollisionNormal) -> (side: Option<
    MovingState,
>)
    ensures
        side == side_of_normal(*collision_normal),
{
    let x: i64 = collision_normal.x as i64;
    let y: i64 = collision_normal.y as i64;
    let ax: i64 = if x < 0 {
        -x
    } else {
        x
    };
    let ay: i64 = if y < 0 {
        -y
    } else {
        y
    };
    if x == 0 && y == 0 {
        None
    } else if ax > ay {
        if x > 0 {
            Some(MovingState::Right)
        } else {
            Some(MovingState::Left)
        }
    } else {
        if y > 0 {
            Some(MovingState::Bottom)
        } else {
            Some(MovingState::Top)
        }
    }
}

/// The sides that are blocked by the corner-quadrant rule, in the order
/// `Left`, `Right`, `Top`, `Bottom`.
pub fn moving_states_from_position(character: &Position, block: &Position, half_size: i32) -> (sides:
    Vec<MovingState>)
    ensures
        sides@ == sides_by_position(character.0, block.0, half_size as int),
{
    let mut sides: Vec<MovingState> = Vec::new();
    let cx: i64 = character.0.x as i64;
    let cy: i64 = character.0.y as i64;
    let x_low: i64 = block.0.x as i64 - half_size as i64;
    let x_high: i64 = block.0.x as i64 + half_size as i64;
    let y_low: i64 = block.0.y as i64 - half_size as i64;
    let y_high: i64 = block.0.y as i64 + half_size as i64;
    if cx == x_low || cx == x_high || cy == y_low || cy == y_high {
        return sides;
    }
    let before_x = cx < x_low;
    let behind_x = !before_x && cx > x_high;
    let before_y = cy < y_low;
    let behind_y = !before_y && cy > y_high;
    if !before_x && !behind_x && !before_y && !behind_y {
        return sides;
    }
    let ghost left: Seq<MovingState> = if !behind_x {
        seq![MovingState::Left]
    } else {
        Seq::empty()
    };
    let ghost right: Seq<MovingState> = if !before_x {
        seq![MovingState::Right]
    } else {
        Seq::empty()
    };
    let ghost top: Seq<MovingState> = if !behind_y {
        seq![MovingState::Top]
    } else {
        Seq::empty()
    };
    let ghost bottom: Seq<MovingState> = if !before_y {
        seq![MovingState::Bottom]
    } else {
        Seq::empty()
    };
    if !behind_x {
        sides.push(MovingState::Left);
    }
    assert(sides@ =~= left);
    if !before_x {
        sides.push(MovingState::Right);
    }
    assert(sides@ =~= left + right);
    if !behind_y {
        sides.push(MovingState::Top);
    }
    assert(sides@ =~= left + right + top);
    if !before_y {
        sides.push(MovingState::Bottom);
    }
    assert(sides@ =~= left + right + top + bottom);
    sides
}

/// The sides that a contact blocks under a strategy.
pub fn blocked_sides(strategy: SideStrategy, data: &ContactData) -> (sides: Vec<MovingState>)
    ensures
        sides@ == blocked_sides_of(strategy, data@),
{
    match strategy {
        SideStrategy::Normal => {
            let mut sides: Vec<MovingState> = Vec::new();
            let n = data.collision_normals.len();
            let mut i: usize = 0;
            while i < n
                invariant
                    n == data.collision_normals@.len(),
                    i <= n,
                    sides@ == sides_of_normals(data.collision_normals@.take(i as int)),
                decreases n - i,
            {
                proof {
                    let upto = data.collision_normals@.take(i + 1);
                    assert(upto.drop_last() =~= data.collision_normals@.take(i as int));
                    assert(upto.last() == data.collision_normals@[i as int]);
                }
                match moving_state_from_collision_normal(&data.collision_normals[i]) {
                    Some(side) => {
                        sides.push(side);
                    },
                    None => {},
                }
                i = i + 1;
            }
            proof {
                assert(data.collision_normals@.take(n as int) =~= data.collision_normals@);
            }
            sides
        },
        SideStrategy::Position { half_size } => {
            match (&data.character_position, &data.block_position) {
                (Some(character), Some(block)) => moving_states_from_position(
                    character,
                    block,
                    half_size,
                ),
                _ => Vec::new(),
            }
        },
    }
}

/// Clamps the velocity so that the character does not move further into
/// the blocked side. Movement away from the side stays as it is.
pub fn change_velocity(moving_state: &MovingState, velocity: &mut Velocity)
    ensures
        final(velocity).0 == clamped(old(velocity).0, *moving_state),
{
    match moving_state {
        MovingState::Left => {
            if velocity.0.x < 0 {
                velocity.0.x = 0;
            }
        },
        MovingState::Right => {
            if velocity.0.x > 0 {
                velocity.0.x = 0;
            }
        },
        MovingState::Top => {
            if velocity.0.y < 0 {
                velocity.0.y = 0;
            }
        },
        MovingState::Bottom => {
            if velocity.0.y > 0 {
                velocity.0.y = 0;
            }
        },
    }
}

/// What a game object adds to its collision body.
#[derive(Clone, Copy, Debug)]
pub struct CollisionObjectData {
    pub name: &'static str,
    pub velocity: Option<Vector2>,
    pub position: Option<Vector2>,
    pub character_position: Option<Vector2>,
}

impl CollisionObjectData {
    pub fn new(
        name: &'static str,
        velocity: Option<Vector2>,
        position: Option<Vector2>,
        character_position: Option<Vector2>,
    ) -> (data: CollisionObjectData)
        ensures
            data.name == name,
            data.velocity == velocity,
            data.position == position,
            data.character_position == character_position,
    {
        CollisionObjectData { name, velocity, position, character_position }
    }
}

/// The collision state of one game: the world, the tracker, and what is
/// known of the character. One tick owns it at a time.
pub struct Collision {
    pub world: Option<CollisionWorld>,
    pub tracker: ContactTracker,
    pub character_handle: Option<BodyId>,
    pub character_position: Option<Transform2>,
}

/// What a `Collision` holds, as mathematical values.
pub struct CollisionView {
    pub world: Option<WorldView>,
    pub tracker: TrackedPairs,
    pub character_handle: Option<BodyId>,
    pub character_position: Option<Transform2>,
}

impl View for Collision {
    type V = CollisionView;

    open spec fn view(&self) -> CollisionView {
        CollisionView {
            world: match self.world {
                Some(world) => Some(world@),
                None => None,
            },
            tracker: self.tracker@,
            character_handle: self.character_handle,
            character_position: self.character_position,
        }
    }
}

impl Collision {
    /// The invariant of the collision state: that of its parts.
    pub open spec fn wf(&self) -> bool {
        &&& self.tracker.wf()
        &&& match self.world {
            Some(world) => world@.wf(),
            None => true,
        }
    }

    /// Notes where the character is now. The world learns of it at the
    /// next update.
    pub fn set_character_position(&mut self, position: &Position) -> (this: &mut Self)
        ensures
            this@ == (CollisionView {
                character_position: Some(Transform2 { position: position.0 }),
                ..old(self)@
            }),
            this.wf() == old(self).wf(),
            *final(self) == *final(this),
    {
        self.character_position = Some(Transform2 { position: position.0 });
        self
    }
}

impl Default for Collision {
    /// A collision state without a world.
    fn default() -> (collision: Collision)
        ensures
            collision.wf(),
            collision@ == (CollisionView {
                world: None,
                tracker: TrackedPairs::empty(),
                character_handle: None,
                character_position: None,
            }),
    {
        Collision {
            world: None,
            tracker: ContactTracker::new(),
            character_handle: None,
            character_position: None,
        }
    }
}

/// Applies the blocked sides of one tick to the velocity.
pub struct MovementConstraintApplier;

impl MovementConstraintApplier {
    /// Clamps the velocity by every blocked side. With no side blocked the
    /// velocity stays as it is.
    pub fn apply(velocity: &mut Vector2, blocked: &[MovingState])
        ensures
            *final(velocity) == constrained(*old(velocity), blocked@),
    {
        let n = blocked.len();
        let mut i: usize = 0;
        while i < n
            invariant
                n == blocked@.len(),
                i <= n,
                *velocity == constrained(*old(velocity), blocked@.take(i as int)),
            decreases n - i,
        {
            proof {
                let upto = blocked@.take(i + 1);
                assert(upto.drop_last() =~= blocked@.take(i as int));
                assert(upto.last() == blocked@[i as int]);
            }
            let mut current = Velocity(*velocity);
            change_velocity(&blocked[i], &mut current);
            *velocity = current.0;
            i = i + 1;
        }
        proof {
            assert(blocked@.take(n as int) =~= blocked@);
        }
    }
}

/// The sides that the first `n` handles of a list block, in their order.
pub open spec fn all_blocked_sides(
    strategy: SideStrategy,
    handles: Seq<CollisionHandleView>,
    n: nat,
) -> Seq<MovingState>
    decreases n,
{
    if n == 0 {
        Seq::empty()
    } else {
        all_blocked_sides(strategy, handles, (n - 1) as nat) + blocked_sides_of(
            strategy,
            handles[n - 1].collision_data,
        )
    }
}

/// Whether the tracker's record says that the handle's contact lasts.
pub open spec fn is_active(pairs: TrackedPairs, handle: CollisionHandleView) -> bool {
    &&& pairs.contains_key(handle.collision_data.contact_event.pair())
    &&& pairs[handle.collision_data.contact_event.pair()] == ContactStatus::Started
}

/// Those of the first `n` handles of a list whose contact lasts, in their
/// order.
pub open spec fn active_handles(pairs: TrackedPairs, handles: Seq<CollisionHandleView>, n: nat) -> Seq<
    CollisionHandleView,
>
    decreases n,
{
    if n == 0 {
        Seq::empty()
    } else {
        let before = active_handles(pairs, handles, (n - 1) as nat);
        if is_active(pairs, handles[n - 1]) {
            before.push(handles[n - 1])
        } else {
            before
        }
    }
}

/// The tracker's record after the pairs of the first `n` handles of a list
/// have been acknowledged.
pub open spec fn acknowledged_all(
    pairs: TrackedPairs,
    handles: Seq<CollisionHandleView>,
    n: nat,
) -> TrackedPairs
    decreases n,
{
    if n == 0 {
        pairs
    } else {
        acknowledged(
            acknowledged_all(pairs, handles, (n - 1) as nat),
            handles[n - 1].collision_data.contact_event.pair(),
        )
    }
}

/// Clamping by one list of sides and then by another is clamping by both
/// in a row.
pub proof fn lemma_constrained_append(
    velocity: Vector2,
    first: Seq<MovingState>,
    second: Seq<MovingState>,
)
    ensures
        constrained(constrained(velocity, first), second) == constrained(velocity, first + second),
    decreases second.len(),
{
    if second.len() == 0 {
        assert(first + second =~= first);
    } else {
        lemma_constrained_append(velocity, first, second.drop_last());
        assert((first + second).drop_last() =~= first + second.drop_last());
        assert((first + second).last() == second.last());
    }
}

/// Acknowledging pairs drops stopped records only: a contact lasts after
/// it exactly when it lasted before.
pub proof fn lemma_acknowledged_keeps_active(
    pairs: TrackedPairs,
    handles: Seq<CollisionHandleView>,
    n: nat,
    handle: CollisionHandleView,
)
    ensures
        is_active(acknowledged_all(pairs, handles, n), handle) == is_active(pairs, handle),
    decreases n,
{
    if n > 0 {
        lemma_acknowledged_keeps_active(pairs, handles, (n - 1) as nat, handle);
    }
}

/// The step that holds the character back at the blocks it touches.
#[derive(Clone, Copy, Debug)]
pub struct CollisionSystem {
    /// How contacts are turned into blocked sides.
    pub strategy: SideStrategy,
}

impl CollisionSystem {
    /// One tick of the constraints. The sides that the handles block clamp
    /// the velocity, handle by handle. Then the handles whose contact has
    /// stopped are let go and their pairs acknowledged to the tracker;
    /// those whose contact lasts are returned.
    pub fn run(
        &self,
        handles: Vec<CollisionHandle>,
        velocity: &mut Velocity,
        collision: &mut Collision,
    ) -> (kept: Vec<CollisionHandle>)
        requires
            old(collision).wf(),
        ensures
            final(collision).wf(),
            final(velocity).0 == constrained(
                old(velocity).0,
                all_blocked_sides(self.strategy, handle_views(handles@), handles@.len()),
            ),
            handle_views(kept@) == active_handles(
                old(collision)@.tracker,
                handle_views(handles@),
                handles@.len(),
            ),
            final(collision)@ == (CollisionView {
                tracker: acknowledged_all(
                    old(collision)@.tracker,
                    handle_views(handles@),
                    handles@.len(),
                ),
                ..old(collision)@
            }),
    {
        let ghost views = handle_views(handles@);
        let ghost before = collision@;
        let mut kept: Vec<CollisionHandle> = Vec::new();
        for handle in it: handles
            invariant
                it.seq() == handles@,
                views == handle_views(handles@),
                collision.wf(),
                velocity.0 == constrained(
                    old(velocity).0,
                    all_blocked_sides(self.strategy, views, it.index() as nat),
                ),
                handle_views(kept@) == active_handles(before.tracker, views, it.index() as nat),
                collision@ == (CollisionView {
                    tracker: acknowledged_all(before.tracker, views, it.index() as nat),
                    ..before
                }),
        {
            let ghost held = handle_views(kept@);
            let ghost view = handle@;
            assert(view == views[it.index() as int]);
            let sides = blocked_sides(self.strategy, &handle.collision_data);
            proof {
                lemma_constrained_append(
                    old(velocity).0,
                    all_blocked_sides(self.strategy, views, it.index() as nat),
                    sides@,
                );
                lemma_acknowledged_keeps_active(before.tracker, views, it.index() as nat, view);
            }
            MovementConstraintApplier::apply(&mut velocity.0, sides.as_slice());
            let character = handle.collision_data.contact_event.first();
            let other = handle.collision_data.contact_event.second();
            let status = collision.tracker.status_of(character, other);
            collision.tracker.acknowledge(character, other);
            match status {
                Some(ContactStatus::Started) => {
                    kept.push(handle);
                    assert(handle_views(kept@) =~= held.push(view));
                },
                _ => {
                    assert(handle_views(kept@) =~= held);
                },
            }
        }
        kept
    }
}

} // verus!
