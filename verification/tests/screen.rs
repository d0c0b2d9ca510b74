use caudices::character::{CharacterPosition, Rectangle};
use caudices::geometry::Vector2;
use caudices::map::{Color, LevelMap, Stage};
use caudices::physics::{Position, Velocity};
use caudices::screen::{
    handle_keys_to_change_velocity, start_blocks, start_position, tick_character_animation,
    time_left, BlockSize, ButtonState, DrawState, GameState, KeyStates, ScreenState, Settings,
    DESIRED_FPS, VELOCITY_CHANGE, WINDOW_HEIGHT, WINDOW_WIDTH,
};
use caudices::utils::{color_from_lowercase, de_color, ColorNotFound};

fn rectangle(x: i32) -> Rectangle {
    Rectangle { pos: Vector2::new(x, 12_000), size: Vector2::new(29_000, 21_000) }
}

fn keys(up: ButtonState, down: ButtonState, left: ButtonState, right: ButtonState) -> KeyStates {
    KeyStates { up, down, left, right }
}

const IDLE: ButtonState = ButtonState::NotPressed;

fn after_keys(x: i32, y: i32, keys: KeyStates) -> Vector2 {
    let mut velocity = Velocity(Vector2::new(x, y));
    handle_keys_to_change_velocity(
        &mut velocity,
        &keys,
        &rectangle(0),
        &Settings::new().animation_positions,
    );
    velocity.0
}

#[test]
fn constants() {
    assert_eq!(WINDOW_WIDTH, 600);
    assert_eq!(WINDOW_HEIGHT, 600);
    assert_eq!(DESIRED_FPS, 60);
    assert_eq!(VELOCITY_CHANGE, 35_000);
}

#[test]
fn default_states() {
    assert_eq!(GameState::default(), GameState::Active);
    assert_eq!(
        ScreenState::default(),
        ScreenState {
            current_stage: 1,
            current_level: 1,
            game_state: GameState::Active,
            draw_state: DrawState::Undrawed,
        }
    );
}

#[test]
fn settings_of_the_game() {
    let settings = Settings::new();
    assert_eq!(
        settings.animation_positions,
        vec![
            CharacterPosition::Start(Rectangle {
                pos: Vector2::new(0, 12_000),
                size: Vector2::new(29_000, 21_000),
            }),
            CharacterPosition::Moving(Rectangle {
                pos: Vector2::new(32_000, 12_000),
                size: Vector2::new(28_000, 21_000),
            }),
        ]
    );
    assert_eq!(settings.mali_font_path, "mali/Mali-Regular.ttf");
    assert_eq!(settings.character_sprites_path, "character_sprite_0_white.png");
    assert_eq!(settings.block_asset_path, "50x50.png");
    assert_eq!(settings.stages_json_path, "stages.json");
    assert_eq!(settings.header_height, 100_000);
    assert_eq!(settings.block_size, BlockSize(Vector2::new(25_000, 25_000)));
    assert_eq!(settings.character_size, Vector2::new(14_000, 14_000));
    assert_eq!(settings.margin, 2_000);
}

#[test]
fn start_of_the_game() {
    assert_eq!(start_position(), Position(Vector2::new(130_000, 330_000)));
    assert_eq!(
        start_blocks(),
        vec![Position(Vector2::new(150_000, 150_000)), Position(Vector2::new(150_000, 200_000))]
    );
}

#[test]
fn banner_and_world_by_game_state() {
    assert_eq!(GameState::Active.banner(), None);
    assert_eq!(GameState::Paused.banner(), Some("Paused"));
    assert_eq!(GameState::Over.banner(), Some("Game over"));
    assert!(GameState::Active.shows_world());
    assert!(GameState::Over.shows_world());
    assert!(!GameState::Paused.shows_world());
}

#[test]
fn game_is_over_when_the_time_is_up() {
    let stage = Stage {
        stage: 1,
        maps: vec![
            LevelMap { level: 2, time: 1_000, blocks_with_position: vec![] },
            LevelMap { level: 1, time: 300_999, blocks_with_position: vec![] },
        ],
    };
    let mut state = ScreenState::default();
    state.update(299, &stage);
    assert_eq!(state.game_state, GameState::Active);
    state.update(300, &stage);
    assert_eq!(state.game_state, GameState::Over);
    let mut paused = ScreenState { game_state: GameState::Paused, ..ScreenState::default() };
    paused.update(5, &stage);
    assert_eq!(paused.game_state, GameState::Paused);
    paused.update(301, &stage);
    assert_eq!(paused.game_state, GameState::Over);
}

#[test]
fn stage_without_the_level_leaves_the_game_running() {
    let stage = Stage {
        stage: 1,
        maps: vec![LevelMap { level: 2, time: 1_000, blocks_with_position: vec![] }],
    };
    let mut state = ScreenState::default();
    state.update(u64::MAX, &stage);
    assert_eq!(state, ScreenState::default());
}

#[test]
fn time_left_counts_whole_seconds() {
    let map = LevelMap { level: 1, time: 300_999, blocks_with_position: vec![] };
    assert_eq!(time_left(0, &map), Some(300));
    assert_eq!(time_left(299, &map), Some(1));
    assert_eq!(time_left(300, &map), Some(0));
    assert_eq!(time_left(301, &map), None);
}

#[test]
fn pressed_and_held_keys_set_the_speed() {
    assert_eq!(after_keys(0, 0, keys(ButtonState::Pressed, IDLE, IDLE, IDLE)), Vector2::new(0, -35_000));
    assert_eq!(after_keys(0, 0, keys(IDLE, ButtonState::Held, IDLE, IDLE)), Vector2::new(0, 35_000));
    assert_eq!(after_keys(7, 7, keys(IDLE, IDLE, ButtonState::Pressed, IDLE)), Vector2::new(-35_000, 7));
    assert_eq!(after_keys(7, 7, keys(IDLE, IDLE, IDLE, ButtonState::Held)), Vector2::new(35_000, 7));
}

#[test]
fn later_keys_win_over_earlier_ones() {
    let all = keys(ButtonState::Held, ButtonState::Held, ButtonState::Held, ButtonState::Held);
    assert_eq!(after_keys(0, 0, all), Vector2::new(35_000, 35_000));
}

#[test]
fn released_keys_stop_movement_their_way_only() {
    let up = keys(ButtonState::Released, IDLE, IDLE, IDLE);
    assert_eq!(after_keys(5, -35_000, up), Vector2::new(5, 0));
    assert_eq!(after_keys(5, 35_000, up), Vector2::new(5, 35_000));
    let down = keys(IDLE, ButtonState::Released, IDLE, IDLE);
    assert_eq!(after_keys(5, 35_000, down), Vector2::new(5, 0));
    assert_eq!(after_keys(5, -35_000, down), Vector2::new(5, -35_000));
    let left = keys(IDLE, IDLE, ButtonState::Released, IDLE);
    assert_eq!(after_keys(-35_000, 5, left), Vector2::new(0, 5));
    assert_eq!(after_keys(35_000, 5, left), Vector2::new(35_000, 5));
    let right = keys(IDLE, IDLE, IDLE, ButtonState::Released);
    assert_eq!(after_keys(35_000, 5, right), Vector2::new(0, 5));
    assert_eq!(after_keys(-35_000, 5, right), Vector2::new(-35_000, 5));
}

#[test]
fn idle_keys_change_nothing() {
    assert_eq!(after_keys(12, -34, keys(IDLE, IDLE, IDLE, IDLE)), Vector2::new(12, -34));
}

#[test]
fn animation_ticks_where_the_frame_starts_at_the_same_x() {
    let start = CharacterPosition::Start(rectangle(0));
    let moving = CharacterPosition::Moving(rectangle(32_000));
    assert_eq!(tick_character_animation(&rectangle(0), Some(&start), Some(&moving)), 1);
    assert_eq!(tick_character_animation(&rectangle(32_000), Some(&start), Some(&moving)), 1);
    assert_eq!(tick_character_animation(&rectangle(5), Some(&start), Some(&moving)), 0);
    assert_eq!(tick_character_animation(&rectangle(0), None, None), 0);
    let both = CharacterPosition::Moving(rectangle(0));
    assert_eq!(tick_character_animation(&rectangle(0), Some(&start), Some(&both)), 2);
    // A frame of the wrong kind does not count.
    assert_eq!(tick_character_animation(&rectangle(0), Some(&both), Some(&start)), 0);
}

fn ticks(frame_x: i32, keys: KeyStates, positions: &Vec<CharacterPosition>) -> u8 {
    let mut velocity = Velocity(Vector2::new(0, 0));
    handle_keys_to_change_velocity(&mut velocity, &keys, &rectangle(frame_x), positions)
}

#[test]
fn keys_tick_the_animation() {
    let positions = Settings::new().animation_positions;
    let held = keys(ButtonState::Held, ButtonState::Pressed, IDLE, IDLE);
    assert_eq!(ticks(0, held, &positions), 2);
    assert_eq!(ticks(32_000, held, &positions), 0);
    let released = keys(ButtonState::Released, IDLE, ButtonState::Released, ButtonState::Released);
    assert_eq!(ticks(32_000, released, &positions), 3);
    assert_eq!(ticks(0, released, &positions), 0);
    let mixed = keys(ButtonState::Held, ButtonState::Released, IDLE, ButtonState::Held);
    assert_eq!(ticks(0, mixed, &positions), 2);
    assert_eq!(ticks(0, keys(IDLE, IDLE, IDLE, IDLE), &positions), 0);
}

#[test]
fn moving_frame_is_looked_for_behind_the_standing_frame() {
    let released = keys(ButtonState::Released, IDLE, IDLE, IDLE);
    let held = keys(ButtonState::Held, IDLE, IDLE, IDLE);
    let moving_first = vec![
        CharacterPosition::Moving(rectangle(32_000)),
        CharacterPosition::Start(rectangle(0)),
    ];
    assert_eq!(ticks(32_000, released, &moving_first), 0);
    assert_eq!(ticks(0, held, &moving_first), 1);
    let no_start = vec![CharacterPosition::Moving(rectangle(32_000))];
    assert_eq!(ticks(32_000, released, &no_start), 0);
    assert_eq!(ticks(32_000, held, &no_start), 0);
    let two_moving = vec![
        CharacterPosition::Start(rectangle(0)),
        CharacterPosition::Moving(rectangle(32_000)),
        CharacterPosition::Moving(rectangle(64_000)),
    ];
    assert_eq!(ticks(32_000, released, &two_moving), 1);
    assert_eq!(ticks(64_000, released, &two_moving), 0);
    assert_eq!(ticks(0, released, &vec![]), 0);
}

#[test]
fn colors_by_name() {
    assert_eq!(color_from_lowercase("red"), Ok(Color::Red));
    assert_eq!(color_from_lowercase("green"), Ok(Color::Green));
    assert_eq!(color_from_lowercase("blue"), Ok(Color::Blue));
    assert_eq!(color_from_lowercase("orange"), Ok(Color::Orange));
    assert_eq!(color_from_lowercase("purple"), Ok(Color::Purple));
    assert_eq!(color_from_lowercase("indigo"), Ok(Color::Indigo));
    assert_eq!(color_from_lowercase("Red"), Err(ColorNotFound));
    assert_eq!(color_from_lowercase(""), Err(ColorNotFound));
    assert_eq!(color_from_lowercase("reddish"), Err(ColorNotFound));
}

#[test]
fn colors_whatever_the_case() {
    assert_eq!(de_color("RED"), Ok(Color::Red));
    assert_eq!(de_color("Green"), Ok(Color::Green));
    assert_eq!(de_color("bLuE"), Ok(Color::Blue));
    assert_eq!(de_color("orange"), Ok(Color::Orange));
    assert_eq!(de_color("PURPLE"), Ok(Color::Purple));
    assert_eq!(de_color("Indigo"), Ok(Color::Indigo));
    assert_eq!(de_color("yellow"), Err(ColorNotFound));
    assert_eq!(de_color(" red"), Err(ColorNotFound));
    assert_eq!(ColorNotFound.message(), "Color not found");
}
