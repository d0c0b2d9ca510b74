use caudices::character::{Character, CharacterPosition, Rectangle};
use caudices::geometry::Vector2;
use caudices::map::{
    create_base_map_entities, find_current_map, Block, BlockAndPosition, Color, LevelMap, Size,
    Stage, BLOCK_SPACING,
};
use caudices::physics::Position;
use caudices::screen::{DrawState, GameState, ScreenState, Settings};

fn map(level: u16, time: u64) -> LevelMap {
    LevelMap { level, time, blocks_with_position: vec![] }
}

fn state(stage: u16, level: u16) -> ScreenState {
    ScreenState {
        current_stage: stage,
        current_level: level,
        game_state: GameState::Active,
        draw_state: DrawState::Undrawed,
    }
}

fn stages() -> Vec<Stage> {
    vec![
        Stage { stage: 1, maps: vec![map(1, 100), map(2, 200), map(2, 250)] },
        Stage { stage: 2, maps: vec![map(1, 300)] },
        Stage { stage: 1, maps: vec![map(3, 400)] },
    ]
}

#[test]
fn current_map_is_the_first_match() {
    assert_eq!(find_current_map(stages(), &state(1, 1)).unwrap().time, 100);
    assert_eq!(find_current_map(stages(), &state(1, 2)).unwrap().time, 200);
    assert_eq!(find_current_map(stages(), &state(2, 1)).unwrap().time, 300);
}

#[test]
fn current_map_looks_at_the_first_stage_of_its_number_only() {
    assert!(find_current_map(stages(), &state(1, 3)).is_none());
}

#[test]
fn current_map_of_unknown_stage_or_level_is_none() {
    assert!(find_current_map(stages(), &state(3, 1)).is_none());
    assert!(find_current_map(stages(), &state(2, 2)).is_none());
    assert!(find_current_map(vec![], &state(1, 1)).is_none());
}

#[test]
fn current_map_keeps_its_blocks() {
    let block = BlockAndPosition {
        block: Block::default(),
        position: Position(Vector2::new(50_000, 100_000)),
    };
    let stages = vec![Stage {
        stage: 1,
        maps: vec![LevelMap { level: 1, time: 300_000, blocks_with_position: vec![block] }],
    }];
    let found = find_current_map(stages, &ScreenState::default()).unwrap();
    assert_eq!(found.level, 1);
    assert_eq!(found.blocks_with_position, vec![block]);
}

#[test]
fn stage_finds_its_map_of_a_level() {
    let stage = Stage { stage: 1, maps: vec![map(1, 100), map(2, 200), map(2, 250)] };
    assert_eq!(stage.map_of_level(2).unwrap().time, 200);
    assert!(stage.map_of_level(3).is_none());
    assert!(Stage::default().map_of_level(1).is_none());
}

#[test]
fn defaults() {
    assert_eq!(Size::default(), Size { width: 50_000, height: 50_000 });
    assert_eq!(
        Block::default(),
        Block { can_be_moved: false, size: Size { width: 50_000, height: 50_000 }, color: Color::Red }
    );
    let stage = Stage::default();
    assert_eq!(stage.stage, 0);
    assert_eq!(stage.maps.len(), 0);
    assert_eq!(Character::default(), Character { width: 50_000, height: 50_000 });
    assert_eq!(BLOCK_SPACING, 50_000);
}

#[test]
fn character_position_gives_its_rectangle() {
    let rectangle = Rectangle { pos: Vector2::new(0, 12_000), size: Vector2::new(29_000, 21_000) };
    assert_eq!(CharacterPosition::Start(rectangle).rectangle(), rectangle);
    assert_eq!(CharacterPosition::Moving(rectangle).rectangle(), rectangle);
}

#[test]
fn frame_has_eleven_columns_and_nine_rows() {
    let frame = create_base_map_entities(&Settings::new());
    assert_eq!(frame.len(), 40);
    let at = |x: i32, y: i32| Position(Vector2::new(x * 1000, y * 1000));
    // Top and bottom in turn, from the left.
    assert_eq!(frame[0], at(50, 100));
    assert_eq!(frame[1], at(50, 550));
    assert_eq!(frame[2], at(100, 100));
    assert_eq!(frame[3], at(100, 550));
    assert_eq!(frame[20], at(550, 100));
    assert_eq!(frame[21], at(550, 550));
    // Left and right in turn, from the top.
    assert_eq!(frame[22], at(50, 150));
    assert_eq!(frame[23], at(550, 150));
    assert_eq!(frame[24], at(50, 200));
    assert_eq!(frame[38], at(50, 550));
    assert_eq!(frame[39], at(550, 550));
}

#[test]
fn frame_top_row_follows_the_header() {
    let mut settings = Settings::new();
    settings.header_height = 77;
    let frame = create_base_map_entities(&settings);
    for column in 0..11 {
        assert_eq!(frame[2 * column].0.y, 77);
        assert_eq!(frame[2 * column + 1].0.y, 550_000);
        assert_eq!(frame[2 * column].0.x, (column as i32 + 1) * 50_000);
    }
}
