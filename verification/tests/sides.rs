use caudices::body::BodyId;
use caudices::collision::{
    blocked_sides, change_velocity, moving_state_from_collision_normal,
    moving_states_from_position, CollisionObjectData, MovementConstraintApplier, SideStrategy,
};
use caudices::event::ContactEvent;
use caudices::geometry::Vector2;
use caudices::physics::{ContactData, MovingState, Position, Velocity};

fn normal(x: i32, y: i32) -> Option<MovingState> {
    moving_state_from_collision_normal(&Vector2::new(x, y))
}

fn by_position(cx: i32, cy: i32, bx: i32, by: i32, half: i32) -> Vec<MovingState> {
    moving_states_from_position(
        &Position(Vector2::new(cx, cy)),
        &Position(Vector2::new(bx, by)),
        half,
    )
}

#[test]
fn unit_normals_name_their_side() {
    assert_eq!(normal(1, 0), Some(MovingState::Right));
    assert_eq!(normal(-1, 0), Some(MovingState::Left));
    assert_eq!(normal(0, 1), Some(MovingState::Bottom));
    assert_eq!(normal(0, -1), Some(MovingState::Top));
}

#[test]
fn slanted_normals_go_by_the_greater_component() {
    assert_eq!(normal(5, 3), Some(MovingState::Right));
    assert_eq!(normal(-5, 3), Some(MovingState::Left));
    assert_eq!(normal(3, 5), Some(MovingState::Bottom));
    assert_eq!(normal(3, -5), Some(MovingState::Top));
    assert_eq!(normal(-5, -4), Some(MovingState::Left));
}

#[test]
fn equal_components_go_by_y() {
    assert_eq!(normal(4, 4), Some(MovingState::Bottom));
    assert_eq!(normal(-4, 4), Some(MovingState::Bottom));
    assert_eq!(normal(4, -4), Some(MovingState::Top));
    assert_eq!(normal(-4, -4), Some(MovingState::Top));
}

#[test]
fn zero_normal_names_no_side() {
    assert_eq!(normal(0, 0), None);
}

#[test]
fn extreme_normals_do_not_overflow() {
    assert_eq!(normal(i32::MIN, i32::MAX), Some(MovingState::Left));
    assert_eq!(normal(i32::MAX, i32::MIN), Some(MovingState::Top));
    assert_eq!(normal(i32::MIN, i32::MIN), Some(MovingState::Top));
}

#[test]
fn head_on_from_below_blocks_all_but_top() {
    assert_eq!(
        by_position(150, 380, 150, 330, 25),
        vec![MovingState::Left, MovingState::Right, MovingState::Bottom]
    );
    assert!(!by_position(150, 356, 150, 330, 25).contains(&MovingState::Top));
}

#[test]
fn head_on_from_the_other_three_sides() {
    assert_eq!(
        by_position(150, 280, 150, 330, 25),
        vec![MovingState::Left, MovingState::Right, MovingState::Top]
    );
    assert_eq!(
        by_position(100, 330, 150, 330, 25),
        vec![MovingState::Left, MovingState::Top, MovingState::Bottom]
    );
    assert_eq!(
        by_position(200, 330, 150, 330, 25),
        vec![MovingState::Right, MovingState::Top, MovingState::Bottom]
    );
}

#[test]
fn corners_block_two_sides() {
    assert_eq!(by_position(100, 280, 150, 330, 25), vec![MovingState::Left, MovingState::Top]);
    assert_eq!(by_position(200, 280, 150, 330, 25), vec![MovingState::Right, MovingState::Top]);
    assert_eq!(by_position(100, 380, 150, 330, 25), vec![MovingState::Left, MovingState::Bottom]);
    assert_eq!(by_position(200, 380, 150, 330, 25), vec![MovingState::Right, MovingState::Bottom]);
}

#[test]
fn center_on_an_edge_or_inside_blocks_nothing() {
    assert_eq!(by_position(125, 330, 150, 330, 25), vec![]);
    assert_eq!(by_position(175, 400, 150, 330, 25), vec![]);
    assert_eq!(by_position(150, 355, 150, 330, 25), vec![]);
    assert_eq!(by_position(10, 305, 150, 330, 25), vec![]);
    assert_eq!(by_position(150, 330, 150, 330, 25), vec![]);
    assert_eq!(by_position(160, 320, 150, 330, 25), vec![]);
}

fn contact(normals: Vec<Vector2>, character: Option<(i32, i32)>, block: Option<(i32, i32)>) -> ContactData {
    ContactData {
        contact_event: ContactEvent::Started(BodyId(0), BodyId(1)),
        collision_normals: normals,
        character_position: character.map(|(x, y)| Position(Vector2::new(x, y))),
        block_position: block.map(|(x, y)| Position(Vector2::new(x, y))),
    }
}

#[test]
fn blocked_sides_by_normal_skip_the_zero_normal() {
    let data = contact(
        vec![Vector2::new(1, 0), Vector2::new(0, 0), Vector2::new(0, -1), Vector2::new(1, 0)],
        Some((150, 380)),
        Some((150, 330)),
    );
    assert_eq!(
        blocked_sides(SideStrategy::Normal, &data),
        vec![MovingState::Right, MovingState::Top, MovingState::Right]
    );
    assert_eq!(blocked_sides(SideStrategy::Normal, &contact(vec![], None, None)), vec![]);
}

#[test]
fn blocked_sides_by_position_need_both_positions() {
    let strategy = SideStrategy::Position { half_size: 25 };
    let data = contact(vec![Vector2::new(1, 0)], Some((150, 380)), Some((150, 330)));
    assert_eq!(
        blocked_sides(strategy, &data),
        vec![MovingState::Left, MovingState::Right, MovingState::Bottom]
    );
    assert_eq!(blocked_sides(strategy, &contact(vec![], None, Some((150, 330)))), vec![]);
    assert_eq!(blocked_sides(strategy, &contact(vec![], Some((150, 380)), None)), vec![]);
}

fn clamp(side: MovingState, x: i32, y: i32) -> Vector2 {
    let mut velocity = Velocity(Vector2::new(x, y));
    change_velocity(&side, &mut velocity);
    velocity.0
}

#[test]
fn each_side_clamps_its_direction_only() {
    assert_eq!(clamp(MovingState::Left, -35, -7), Vector2::new(0, -7));
    assert_eq!(clamp(MovingState::Left, 35, -7), Vector2::new(35, -7));
    assert_eq!(clamp(MovingState::Right, 35, 7), Vector2::new(0, 7));
    assert_eq!(clamp(MovingState::Right, -35, 7), Vector2::new(-35, 7));
    assert_eq!(clamp(MovingState::Top, 3, -35), Vector2::new(3, 0));
    assert_eq!(clamp(MovingState::Top, 3, 35), Vector2::new(3, 35));
    assert_eq!(clamp(MovingState::Bottom, 3, 35), Vector2::new(3, 0));
    assert_eq!(clamp(MovingState::Bottom, 3, -35), Vector2::new(3, -35));
    assert_eq!(clamp(MovingState::Left, 0, 0), Vector2::new(0, 0));
}

fn apply(x: i32, y: i32, blocked: &[MovingState]) -> Vector2 {
    let mut velocity = Vector2::new(x, y);
    MovementConstraintApplier::apply(&mut velocity, blocked);
    velocity
}

#[test]
fn no_blocked_side_leaves_the_velocity() {
    assert_eq!(apply(35, -35, &[]), Vector2::new(35, -35));
}

#[test]
fn blocked_sides_compose() {
    assert_eq!(apply(35, -35, &[MovingState::Right, MovingState::Top]), Vector2::new(0, 0));
    assert_eq!(apply(35, -35, &[MovingState::Left, MovingState::Bottom]), Vector2::new(35, -35));
    assert_eq!(apply(-35, 0, &[MovingState::Left, MovingState::Right]), Vector2::new(0, 0));
    assert_eq!(apply(35, 0, &[MovingState::Left, MovingState::Right]), Vector2::new(0, 0));
}

#[test]
fn applying_twice_is_applying_once() {
    let sets: [&[MovingState]; 4] = [
        &[MovingState::Right],
        &[MovingState::Left, MovingState::Top],
        &[MovingState::Left, MovingState::Right, MovingState::Bottom],
        &[],
    ];
    for blocked in sets {
        for (x, y) in [(35, 35), (-35, 35), (35, -35), (-35, -35), (0, 0)] {
            let once = apply(x, y, blocked);
            assert_eq!(apply(once.x, once.y, blocked), once);
        }
    }
}

#[test]
fn order_of_blocked_sides_does_not_matter() {
    let forward = [MovingState::Left, MovingState::Bottom, MovingState::Right];
    let backward = [MovingState::Right, MovingState::Bottom, MovingState::Left, MovingState::Right];
    for (x, y) in [(35, 35), (-35, 35), (35, -35), (-35, -35)] {
        assert_eq!(apply(x, y, &forward), apply(x, y, &backward));
    }
}

#[test]
fn collision_object_data_keeps_its_fields() {
    let data = CollisionObjectData::new("character", Some(Vector2::new(32, 12)), None, None);
    assert_eq!(data.name, "character");
    assert_eq!(data.velocity, Some(Vector2::new(32, 12)));
    assert_eq!(data.position, None);
    assert_eq!(data.character_position, None);
    let rect = CollisionObjectData::new("rect", None, Some(Vector2::new(1, 2)), Some(Vector2::new(3, 4)));
    assert_eq!(rect.velocity, None);
    assert_eq!(rect.position, Some(Vector2::new(1, 2)));
    assert_eq!(rect.character_position, Some(Vector2::new(3, 4)));
}
