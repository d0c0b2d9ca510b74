//! What holds of the library as a whole, stated over the models that its
//! contracts use and proved once for all inputs.

use vstd::prelude::*;
use crate::body::{BodyId, CollisionGroup};
use crate::collision::{clamped, constrained, sides_by_position};
use crate::event::{ContactEvent, ContactStatus};
use crate::geometry::Vector2;
use crate::physics::MovingState;
use crate::tracker::{is_transition, recorded, reported, TrackedPairs};
use crate::world::WorldView;

verus! {

/// One component of a velocity after clamping, given whether the side
/// toward smaller values and the side toward greater values are blocked:
/// it becomes zero where it points into a blocked side, and stays
/// otherwise.
pub open spec fn constrained_axis(speed: i32, low_blocked: bool, high_blocked: bool) -> i32 {
    if (low_blocked && speed < 0) || (high_blocked && speed > 0) {
        0
    } else {
        speed
    }
}

/// Clamping by a list of blocked sides depends only on which sides are in
/// the list: each component is clamped by the two sides of its axis.
pub proof fn lemma_constrained_by_sides(velocity: Vector2, blocked: Seq<MovingState>)
    ensures
        constrained(velocity, blocked) == (Vector2 {
            x: constrained_axis(
                velocity.x,
                blocked.contains(MovingState::Left),
                blocked.contains(MovingState::Right),
            ),
            y: constrained_axis(
                velocity.y,
                blocked.contains(MovingState::Top),
                blocked.contains(MovingState::Bottom),
            ),
        }),
    decreases blocked.len(),
{
    if blocked.len() > 0 {
        let before = blocked.drop_last();
        let last = blocked.last();
        lemma_constrained_by_sides(velocity, before);
        assert forall|side: MovingState|
            blocked.contains(side) == (before.contains(side) || side == last) by {
            if before.contains(side) {
                let i = choose|i: int| 0 <= i < before.len() && before[i] == side;
                assert(blocked[i] == side);
            }
            if side == last {
                assert(blocked[blocked.len() - 1] == side);
            }
            if blocked.contains(side) {
                let i = choose|i: int| 0 <= i < blocked.len() && blocked[i] == side;
                if i < before.len() {
                    assert(before[i] == side);
                }
            }
        }
    } else {
        assert forall|side: MovingState| !blocked.contains(side) by {}
    }
}

/// Constraint idempotence: applying the same blocked sides twice leaves
/// the velocity as applying them once does.
pub proof fn lemma_constraint_idempotent(velocity: Vector2, blocked: Seq<MovingState>)
    ensures
        constrained(constrained(velocity, blocked), blocked) == constrained(velocity, blocked),
{
    lemma_constrained_by_sides(velocity, blocked);
    lemma_constrained_by_sides(constrained(velocity, blocked), blocked);
}

/// The order of the blocked sides does not matter, nor does it matter how
/// often a side is named: two lists of the same sides clamp alike.
pub proof fn lemma_constraint_order_free(
    velocity: Vector2,
    first: Seq<MovingState>,
    second: Seq<MovingState>,
)
    requires
        forall|side: MovingState| first.contains(side) == second.contains(side),
    ensures
        constrained(velocity, first) == constrained(velocity, second),
{
    lemma_constrained_by_sides(velocity, first);
    lemma_constrained_by_sides(velocity, second);
}

/// After clamping, the velocity does not point into any blocked side, and
/// a component that did not point into a blocked side is as it was.
pub proof fn lemma_constraint_blocks(velocity: Vector2, blocked: Seq<MovingState>)
    ensures
        blocked.contains(MovingState::Left) ==> constrained(velocity, blocked).x >= 0,
        blocked.contains(MovingState::Right) ==> constrained(velocity, blocked).x <= 0,
        blocked.contains(MovingState::Top) ==> constrained(velocity, blocked).y >= 0,
        blocked.contains(MovingState::Bottom) ==> constrained(velocity, blocked).y <= 0,
        constrained(velocity, blocked).x == velocity.x || constrained(velocity, blocked).x == 0,
        constrained(velocity, blocked).y == velocity.y || constrained(velocity, blocked).y == 0,
        blocked.len() == 0 ==> constrained(velocity, blocked) == velocity,
{
    lemma_constrained_by_sides(velocity, blocked);
}

/// Side classification by position, head-on from below: a character whose
/// center is straight under the center of a block, below the block's lower
/// edge (y grows downward), has `Left`, `Right` and `Bottom` blocked and
/// `Top` free.
pub proof fn lemma_head_on_from_below(character: Vector2, block: Vector2, half_size: int)
    requires
        half_size >= 0,
        character.x == block.x,
        character.y > block.y + half_size,
    ensures
        half_size > 0 ==> sides_by_position(character, block, half_size) == seq![
            MovingState::Left,
            MovingState::Right,
            MovingState::Bottom,
        ],
        !sides_by_position(character, block, half_size).contains(MovingState::Top),
{
    let sides = sides_by_position(character, block, half_size);
    if half_size > 0 {
        assert(sides =~= seq![MovingState::Left, MovingState::Right, MovingState::Bottom]);
    } else {
        assert(sides =~= Seq::empty());
    }
}

/// Side classification by position names two or three sides, or none, and
/// never a side on which the character approaches the block.
pub proof fn lemma_position_sides(character: Vector2, block: Vector2, half_size: int)
    requires
        half_size >= 0,
    ensures
        ({
            let n = sides_by_position(character, block, half_size).len();
            n == 0 || n == 2 || n == 3
        }),
        character.x > block.x + half_size ==> !sides_by_position(
            character,
            block,
            half_size,
        ).contains(MovingState::Left),
        character.x < block.x - half_size ==> !sides_by_position(
            character,
            block,
            half_size,
        ).contains(MovingState::Right),
        character.y > block.y + half_size ==> !sides_by_position(
            character,
            block,
            half_size,
        ).contains(MovingState::Top),
        character.y < block.y - half_size ==> !sides_by_position(
            character,
            block,
            half_size,
        ).contains(MovingState::Bottom),
{
}

/// The first event of a pair in a list is reported as a change exactly
/// when it differs from what was on record of the pair before the list.
pub proof fn lemma_first_sighting(pairs: TrackedPairs, events: Seq<ContactEvent>, i: int)
    requires
        0 <= i < events.len(),
        forall|k: int| 0 <= k < i ==> (#[trigger] events[k]).pair() != events[i].pair(),
    ensures
        reported(pairs, events, i) == is_transition(
            pairs,
            events[i].pair(),
            events[i].spec_status(),
        ),
{
    lemma_record_untouched(pairs, events, i as nat, events[i].pair());
}

/// A later event of a pair is reported as a change exactly when its status
/// differs from that of the pair's event before it, whatever is reported of
/// other pairs in between.
pub proof fn lemma_repeat_is_no_transition(
    pairs: TrackedPairs,
    events: Seq<ContactEvent>,
    j: int,
    i: int,
)
    requires
        0 <= j < i < events.len(),
        events[j].pair() == events[i].pair(),
        forall|k: int| j < k < i ==> (#[trigger] events[k]).pair() != events[i].pair(),
    ensures
        reported(pairs, events, i) == (events[j].spec_status() != events[i].spec_status()),
{
    lemma_record_last(pairs, events, j, i as nat);
}

/// Edge-triggering: while a pair goes on to touch, and then parts, the
/// tracker reports one change where the pair first touches and one where it
/// parts, and none in between or after.
///
/// The events are those of one pair, tick after tick: the first `n` say
/// that the pair touches, the rest that it has parted. Before them the pair
/// was not on record as touching.
pub proof fn lemma_edge_triggered(
    pairs: TrackedPairs,
    events: Seq<ContactEvent>,
    pair: (BodyId, BodyId),
    n: int,
)
    requires
        0 < n <= events.len(),
        forall|i: int| 0 <= i < events.len() ==> (#[trigger] events[i]).pair() == pair,
        forall|i: int|
            0 <= i < n ==> (#[trigger] events[i]).spec_status() == ContactStatus::Started,
        forall|i: int|
            n <= i < events.len() ==> (#[trigger] events[i]).spec_status()
                == ContactStatus::Stopped,
        !(pairs.contains_key(pair) && pairs[pair] == ContactStatus::Started),
    ensures
        forall|i: int| 0 <= i < events.len() ==> #[trigger] reported(pairs, events, i) == (i == 0 || i == n),
{
    assert forall|i: int| 0 <= i < events.len() implies #[trigger] reported(pairs, events, i) == (i
        == 0 || i == n) by {
        if i == 0 {
            lemma_first_sighting(pairs, events, 0);
        } else {
            assert(events[i - 1].pair() == events[i].pair());
            lemma_repeat_is_no_transition(pairs, events, i - 1, i);
        }
    }
}

/// A record says nothing new of a pair that none of the recorded events is
/// about.
pub proof fn lemma_record_untouched(
    pairs: TrackedPairs,
    events: Seq<ContactEvent>,
    n: nat,
    pair: (BodyId, BodyId),
)
    requires
        n <= events.len(),
        forall|k: int| 0 <= k < n ==> (#[trigger] events[k]).pair() != pair,
    ensures
        recorded(pairs, events, n).contains_key(pair) == pairs.contains_key(pair),
        recorded(pairs, events, n)[pair] == pairs[pair],
    decreases n,
{
    if n > 0 {
        lemma_record_untouched(pairs, events, (n - 1) as nat, pair);
        assert(events[n - 1].pair() != pair);
    }
}

/// A record holds of a pair the status of the last recorded event about it.
pub proof fn lemma_record_last(pairs: TrackedPairs, events: Seq<ContactEvent>, j: int, n: nat)
    requires
        0 <= j < n <= events.len(),
        forall|k: int| j < k < n ==> (#[trigger] events[k]).pair() != events[j].pair(),
    ensures
        recorded(pairs, events, n).contains_key(events[j].pair()),
        recorded(pairs, events, n)[events[j].pair()] == events[j].spec_status(),
    decreases n,
{
    if n - 1 > j {
        lemma_record_last(pairs, events, j, (n - 1) as nat);
        assert(events[n - 1].pair() != events[j].pair());
    }
}

/// Every event of a step is between the character and a static body: there
/// is a character, the event's first body is the character, and its second
/// body is another, static body that the world knows.
pub proof fn lemma_events_involve_character(world: WorldView, k: int)
    requires
        world.wf(),
        0 <= k < world.step_events().len(),
    ensures
        world.character is Some,
        world.step_events()[k].spec_first() == world.character->0,
        world.knows(world.step_events()[k].spec_second()),
        world.body(world.step_events()[k].spec_first()).group == CollisionGroup::Character,
        world.body(world.step_events()[k].spec_second()).group == CollisionGroup::Static,
{
    lemma_event_source(world, world.bodies.len(), k);
    let i = choose|i: int|
        0 <= i < world.bodies.len() && world.event_at(i) == Some(world.step_events()[k]);
    assert(world.event_at(i) == Some(world.step_events()[k]));
    assert(world.bodies[i].id.0 == i);
    let c = world.character->0;
    assert(world.bodies[c.0 as int].id.0 == c.0);
    if world.touches_character(i) {
    } else {
        assert(world.touching[i]);
    }
}

/// Static-static exemption: no event of a step is about two static bodies,
/// whether they overlap or not. Nor are two static bodies ever in contact.
pub proof fn lemma_static_pairs_exempt(world: WorldView, a: BodyId, b: BodyId, k: int)
    requires
        world.wf(),
        world.knows(a),
        world.knows(b),
        world.body(a).group == CollisionGroup::Static,
        world.body(b).group == CollisionGroup::Static,
        0 <= k < world.step_events().len(),
    ensures
        world.step_events()[k].pair() != (a, b),
        !world.in_contact(a, b),
{
    lemma_events_involve_character(world, k);
}

/// A world without a character reports no event.
pub proof fn lemma_no_character_no_events(world: WorldView)
    requires
        world.character is None,
    ensures
        world.step_events().len() == 0,
{
    lemma_no_character_upto(world, world.bodies.len());
}

proof fn lemma_no_character_upto(world: WorldView, n: nat)
    requires
        world.character is None,
    ensures
        world.events_upto(n).len() == 0,
    decreases n,
{
    if n > 0 {
        lemma_no_character_upto(world, (n - 1) as nat);
    }
}

/// Each of the events that a step reports of the first `n` bodies is the
/// event of one of these bodies.
pub proof fn lemma_event_source(world: WorldView, n: nat, k: int)
    requires
        0 <= k < world.events_upto(n).len(),
    ensures
        exists|i: int| 0 <= i < n && world.event_at(i) == Some(world.events_upto(n)[k]),
    decreases n,
{
    if n > 0 {
        let before = world.events_upto((n - 1) as nat);
        if k < before.len() {
            lemma_event_source(world, (n - 1) as nat, k);
            let i = choose|i: int| 0 <= i < n - 1 && world.event_at(i) == Some(before[k]);
            assert(world.event_at(i) == Some(world.events_upto(n)[k]));
        } else {
            assert(world.event_at(n - 1) == Some(world.events_upto(n)[k]));
        }
    }
}

} // verus!
