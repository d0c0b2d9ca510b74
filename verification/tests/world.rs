use caudices::body::{BodyId, CollisionGroup};
use caudices::error::CollisionError;
use caudices::event::{ContactEvent, ContactStatus};
use caudices::geometry::{
    overlap, penetration_of, pixels, saturate, shared_width_of, Shape, Transform2, Vector2,
    UNITS_PER_PIXEL,
};
use caudices::world::CollisionWorld;

fn cuboid(half_x: i32, half_y: i32) -> Shape {
    Shape::Box { half_extent: Vector2::new(half_x, half_y) }
}

fn at(x: i32, y: i32) -> Transform2 {
    Transform2::new(Vector2::new(x, y))
}

#[test]
fn handles_are_issued_in_order() {
    let mut world = CollisionWorld::new();
    let a = world.register_static(cuboid(25, 25), at(150, 150), "rect".to_string());
    let b = world.register_character(cuboid(12, 12), at(130, 330), "character".to_string());
    let c = world.register_static(cuboid(25, 25), at(150, 200), "rect".to_string());
    assert_eq!(a, Ok(BodyId(0)));
    assert_eq!(b, Ok(BodyId(1)));
    assert_eq!(c, Ok(BodyId(2)));
    assert_eq!(world.len(), 3);
    assert_eq!(world.character(), Some(BodyId(1)));
}

#[test]
fn registered_body_keeps_what_it_was_given() {
    let mut world = CollisionWorld::new();
    let id = world.register_static(cuboid(25, 30), at(150, 200), "rect".to_string()).unwrap();
    let body = world.body(id).unwrap();
    assert_eq!(body.id, id);
    assert_eq!(body.transform, at(150, 200));
    assert_eq!(body.shape, cuboid(25, 30));
    assert_eq!(body.group, CollisionGroup::Static);
    assert_eq!(body.label, "rect");
}

#[test]
fn second_character_is_refused() {
    let mut world = CollisionWorld::new();
    assert_eq!(
        world.register_character(cuboid(12, 12), at(0, 0), "character".to_string()),
        Ok(BodyId(0))
    );
    assert_eq!(
        world.register_character(cuboid(12, 12), at(5, 5), "other".to_string()),
        Err(CollisionError::DuplicateCharacter)
    );
    assert_eq!(world.len(), 1);
    assert_eq!(world.character(), Some(BodyId(0)));
}

#[test]
fn shape_without_size_is_refused() {
    let mut world = CollisionWorld::new();
    assert_eq!(
        world.register_static(cuboid(0, 25), at(0, 0), "flat".to_string()),
        Err(CollisionError::DegenerateShape)
    );
    assert_eq!(
        world.register_static(cuboid(25, -1), at(0, 0), "inside out".to_string()),
        Err(CollisionError::DegenerateShape)
    );
    assert_eq!(
        world.register_character(Shape::Ball { radius: 0 }, at(0, 0), "dot".to_string()),
        Err(CollisionError::DegenerateShape)
    );
    assert_eq!(world.len(), 0);
    assert_eq!(world.character(), None);
}

#[test]
fn degenerate_shape_is_reported_before_duplicate_character() {
    let mut world = CollisionWorld::new();
    world.register_character(cuboid(12, 12), at(0, 0), "character".to_string()).unwrap();
    assert_eq!(
        world.register_character(cuboid(0, 0), at(0, 0), "other".to_string()),
        Err(CollisionError::DegenerateShape)
    );
}

#[test]
fn unknown_body_is_an_error() {
    let mut world = CollisionWorld::new();
    let block = world.register_static(cuboid(25, 25), at(0, 0), "rect".to_string()).unwrap();
    assert_eq!(world.body(BodyId(7)).err(), Some(CollisionError::UnknownBody));
    assert_eq!(world.contact_normal(block, BodyId(7)), Err(CollisionError::UnknownBody));
    assert_eq!(world.contact_normal(BodyId(7), block), Err(CollisionError::UnknownBody));
    assert_eq!(world.set_character_transform(at(1, 1)), Err(CollisionError::UnknownBody));
}

#[test]
fn error_messages() {
    assert_eq!(CollisionError::DuplicateCharacter.message(), "a character is already registered");
    assert_eq!(CollisionError::UnknownBody.message(), "no body with this id is registered");
    assert_eq!(CollisionError::DegenerateShape.message(), "a shape needs positive half-extents");
}

#[test]
fn overlap_is_strict_along_both_axes() {
    let half_a = Vector2::new(12, 12);
    let half_b = Vector2::new(25, 25);
    let block = Vector2::new(150, 330);
    assert!(overlap(Vector2::new(130, 330), half_a, block, half_b));
    assert!(overlap(Vector2::new(114, 330), half_a, block, half_b));
    assert!(!overlap(Vector2::new(113, 330), half_a, block, half_b));
    assert!(!overlap(Vector2::new(130, 367), half_a, block, half_b));
    assert!(overlap(Vector2::new(130, 366), half_a, block, half_b));
    assert!(!overlap(Vector2::new(187, 293), half_a, block, half_b));
}

#[test]
fn penetration_and_shared_width_values() {
    assert_eq!(penetration_of(130, 12, 150, 25), 17);
    assert_eq!(penetration_of(150, 25, 130, 12), 17);
    assert_eq!(penetration_of(100, 12, 150, 25), -13);
    assert_eq!(penetration_of(i32::MIN, i32::MAX, i32::MAX, i32::MAX), -1);
    assert_eq!(shared_width_of(130, 12, 150, 25), 17);
    assert_eq!(shared_width_of(150, 5, 150, 25), 10);
    assert_eq!(shared_width_of(0, 5, 100, 5), -90);
}

#[test]
fn saturate_and_pixels() {
    assert_eq!(saturate(5), 5);
    assert_eq!(saturate(i64::MAX), i32::MAX);
    assert_eq!(saturate(i64::MIN), i32::MIN);
    assert_eq!(saturate(i32::MAX as i64 + 1), i32::MAX);
    assert_eq!(UNITS_PER_PIXEL, 1000);
    assert_eq!(pixels(35), 35_000);
    assert_eq!(pixels(-35), -35_000);
    assert_eq!(pixels(i16::MAX), 32_767_000);
}

#[test]
fn ball_is_tested_as_its_bounding_box() {
    assert_eq!(Shape::Ball { radius: 7 }.half_extent(), Vector2::new(7, 7));
    assert!(Shape::Ball { radius: 7 }.is_valid());
    assert!(!Shape::Ball { radius: -7 }.is_valid());
    let mut world = CollisionWorld::new();
    let block = world.register_static(Shape::Ball { radius: 10 }, at(0, 0), "b".to_string()).unwrap();
    let character = world.register_character(cuboid(5, 5), at(14, 14), "c".to_string()).unwrap();
    assert_eq!(world.step(), vec![ContactEvent::Started(character, block)]);
}

#[test]
fn overlapping_block_reports_started_each_step() {
    let mut world = CollisionWorld::new();
    let block = world.register_static(cuboid(25, 25), at(150, 330), "rect".to_string()).unwrap();
    let character = world.register_character(cuboid(12, 12), at(130, 330), "c".to_string()).unwrap();
    assert_eq!(world.step(), vec![ContactEvent::Started(character, block)]);
    assert_eq!(world.step(), vec![ContactEvent::Started(character, block)]);
    world.set_character_transform(at(0, 0)).unwrap();
    assert_eq!(world.step(), vec![ContactEvent::Stopped(character, block)]);
    assert_eq!(world.step(), vec![]);
}

#[test]
fn pair_without_overlap_and_without_history_reports_nothing() {
    let mut world = CollisionWorld::new();
    world.register_static(cuboid(25, 25), at(150, 150), "rect".to_string()).unwrap();
    world.register_character(cuboid(12, 12), at(130, 330), "c".to_string()).unwrap();
    assert_eq!(world.step(), vec![]);
    assert_eq!(world.step(), vec![]);
}

#[test]
fn events_come_in_the_order_of_registration() {
    let mut world = CollisionWorld::new();
    let first = world.register_static(cuboid(25, 25), at(150, 330), "rect".to_string()).unwrap();
    let far = world.register_static(cuboid(25, 25), at(900, 900), "rect".to_string()).unwrap();
    let character = world.register_character(cuboid(12, 12), at(130, 330), "c".to_string()).unwrap();
    let last = world.register_static(cuboid(25, 25), at(110, 330), "rect".to_string()).unwrap();
    assert_eq!(
        world.step(),
        vec![ContactEvent::Started(character, first), ContactEvent::Started(character, last)]
    );
    world.set_character_transform(at(900, 880)).unwrap();
    assert_eq!(
        world.step(),
        vec![
            ContactEvent::Stopped(character, first),
            ContactEvent::Started(character, far),
            ContactEvent::Stopped(character, last),
        ]
    );
}

#[test]
fn overlapping_static_bodies_never_report() {
    let mut world = CollisionWorld::new();
    let a = world.register_static(cuboid(25, 25), at(150, 150), "rect".to_string()).unwrap();
    let b = world.register_static(cuboid(25, 25), at(160, 160), "rect".to_string()).unwrap();
    assert_eq!(world.step(), vec![]);
    assert_eq!(world.contact_normal(a, b), Ok(None));
    assert_eq!(world.contact_normal(b, a), Ok(None));
    let character = world.register_character(cuboid(12, 12), at(900, 900), "c".to_string()).unwrap();
    assert_eq!(world.step(), vec![]);
    world.set_character_transform(at(155, 155)).unwrap();
    assert_eq!(
        world.step(),
        vec![ContactEvent::Started(character, a), ContactEvent::Started(character, b)]
    );
    assert_eq!(world.contact_normal(a, b), Ok(None));
}

#[test]
fn world_without_character_reports_nothing() {
    let mut world = CollisionWorld::new();
    world.register_static(cuboid(25, 25), at(0, 0), "rect".to_string()).unwrap();
    assert_eq!(world.step(), vec![]);
}

#[test]
fn contact_normal_points_from_second_toward_first() {
    let mut world = CollisionWorld::new();
    let block = world.register_static(cuboid(25, 25), at(150, 330), "rect".to_string()).unwrap();
    let character = world.register_character(cuboid(12, 12), at(130, 330), "c".to_string()).unwrap();
    // Along X the boxes reach 17 into each other, along Y 37: the normal
    // lies along X, and the edge of contact is the character's height.
    assert_eq!(world.contact_normal(character, block), Ok(Some((Vector2::new(-1, 0), 24))));
    assert_eq!(world.contact_normal(block, character), Ok(Some((Vector2::new(1, 0), 24))));
    world.set_character_transform(at(150, 360)).unwrap();
    assert_eq!(world.contact_normal(character, block), Ok(Some((Vector2::new(0, 1), 24))));
    assert_eq!(world.contact_normal(block, character), Ok(Some((Vector2::new(0, -1), 24))));
}

#[test]
fn contact_normal_prefers_x_on_equal_depth() {
    let mut world = CollisionWorld::new();
    let block = world.register_static(cuboid(25, 25), at(100, 100), "rect".to_string()).unwrap();
    let character = world.register_character(cuboid(12, 12), at(70, 70), "c".to_string()).unwrap();
    // 7 deep along both axes; the shared width across is 7.
    assert_eq!(world.contact_normal(character, block), Ok(Some((Vector2::new(-1, 0), 7))));
}

#[test]
fn contact_normal_of_separate_or_same_bodies_is_none() {
    let mut world = CollisionWorld::new();
    let block = world.register_static(cuboid(25, 25), at(150, 150), "rect".to_string()).unwrap();
    let character = world.register_character(cuboid(12, 12), at(130, 330), "c".to_string()).unwrap();
    assert_eq!(world.contact_normal(character, block), Ok(None));
    assert_eq!(world.contact_normal(character, character), Ok(None));
    assert_eq!(world.contact_normal(block, block), Ok(None));
}

#[test]
fn event_accessors() {
    let started = ContactEvent::Started(BodyId(1), BodyId(2));
    let stopped = ContactEvent::Stopped(BodyId(3), BodyId(4));
    assert_eq!(started.status(), ContactStatus::Started);
    assert_eq!(stopped.status(), ContactStatus::Stopped);
    assert_eq!(started.first(), BodyId(1));
    assert_eq!(started.second(), BodyId(2));
    assert_eq!(stopped.first(), BodyId(3));
    assert_eq!(stopped.second(), BodyId(4));
}
