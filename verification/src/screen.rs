//! The state of the game screen, its settings, and the rules by which keys
//! and time change them.

use vstd::prelude::*;
use crate::character::{CharacterPosition, Rectangle};
use crate::collision::{change_velocity, clamped};
use crate::geometry::{pixels, Vector2, UNITS_PER_PIXEL};
use crate::map::{map_of_level, LevelMap, LevelMapView, Stage};
use crate::physics::{MovingState, Position, Velocity};

verus! {

/// The width of the window in pixels.
pub const WINDOW_WIDTH: u16 = 600;

/// The height of the window in pixels.
pub const WINDOW_HEIGHT: u16 = 600;

/// How many ticks make a second.
pub const DESIRED_FPS: u32 = 60;

/// The speed that an arrow key gives the character: 35 pixels per second.
pub const VELOCITY_CHANGE: i32 = 35 * UNITS_PER_PIXEL;

/// Whether the game runs.
#[derive(Clone, Copy, Debug, PartialEq, Eq, Structural)]
pub enum GameState {
    Active,
    Paused,
    Over,
}

/// Whether the stages have been put on the screen.
#[derive(Clone, Copy, Debug, PartialEq, Eq, Structural)]
pub enum DrawState {
    Drawed,
    Undrawed,
}

/// Which stage and level is played, and in what state.
#[derive(Clone, Copy, Debug, PartialEq, Eq, Structural)]
pub struct ScreenState {
    pub current_stage: u16,
    pub current_level: u16,
    pub game_state: GameState,
    pub draw_state: DrawState,
}

/// The half size of a block.
#[derive(Clone, Copy, Debug, PartialEq, Eq, Structural)]
pub struct BlockSize(pub Vector2);

/// What the game is set up with.
#[derive(Debug)]
pub struct Settings {
    pub animation_positions: Vec<CharacterPosition>,
    pub mali_font_path: String,
    pub character_sprites_path: String,
    pub block_asset_path: String,
    pub stages_json_path: String,
    /// The height of the header above the playing field.
    pub header_height: i32,
    /// The half size of a block's picture.
    pub block_size: BlockSize,
    /// The half size of the character's picture.
    pub character_size: Vector2,
    /// By how much a collision box is smaller than the picture, on each
    /// side.
    pub margin: i32,
}

/// What a key does at the moment.
#[derive(Clone, Copy, Debug, PartialEq, Eq, Structural)]
pub enum ButtonState {
    Pressed,
    Held,
    Released,
    NotPressed,
}

/// The four arrow keys.
#[derive(Clone, Copy, Debug, PartialEq, Eq, Structural)]
pub enum Key {
    Up,
    Down,
    Left,
    Right,
}

/// What the four arrow keys do at the moment.
#[derive(Clone, Copy, Debug, PartialEq, Eq, Structural)]
pub struct KeyStates {
    pub up: ButtonState,
    pub down: ButtonState,
    pub left: ButtonState,
    pub right: ButtonState,
}

/// Whether a key is down.
pub open spec fn is_down(state: ButtonState) -> bool {
    state == ButtonState::Pressed || state == ButtonState::Held
}

/// The velocity that a key leaves. While it is down, the character moves
/// its way at the speed of the keys. When it is let go, movement its way
/// stops, and movement the other way stays.
pub open spec fn key_velocity(velocity: Vector2, key: Key, state: ButtonState) -> Vector2 {
    if is_down(state) {
        match key {
            Key::Up => Vector2 { y: (-VELOCITY_CHANGE) as i32, ..velocity },
            Key::Down => Vector2 { y: VELOCITY_CHANGE, ..velocity },
            Key::Left => Vector2 { x: (-VELOCITY_CHANGE) as i32, ..velocity },
            Key::Right => Vector2 { x: VELOCITY_CHANGE, ..velocity },
        }
    } else if state == ButtonState::Released {
        match key {
            Key::Up => clamped(velocity, MovingState::Top),
            Key::Down => clamped(velocity, MovingState::Bottom),
            Key::Left => clamped(velocity, MovingState::Left),
            Key::Right => clamped(velocity, MovingState::Right),
        }
    } else {
        velocity
    }
}

/// The velocity that the four keys leave, taken in the order up, down,
/// left, right.
pub open spec fn keys_velocity(velocity: Vector2, keys: KeyStates) -> Vector2 {
    key_velocity(
        key_velocity(
            key_velocity(key_velocity(velocity, Key::Up, keys.up), Key::Down, keys.down),
            Key::Left,
            keys.left,
        ),
        Key::Right,
        keys.right,
    )
}

/// The index of the first standing frame at or after index `from`.
pub open spec fn first_start(positions: Seq<CharacterPosition>, from: int) -> Option<int>
    decreases positions.len() - from,
{
    if from < 0 || from >= positions.len() {
        None
    } else if positions[from] is Start {
        Some(from)
    } else {
        first_start(positions, from + 1)
    }
}

/// The index of the first moving frame at or after index `from`.
pub open spec fn first_moving(positions: Seq<CharacterPosition>, from: int) -> Option<int>
    decreases positions.len() - from,
{
    if from < 0 || from >= positions.len() {
        None
    } else if positions[from] is Moving {
        Some(from)
    } else {
        first_moving(positions, from + 1)
    }
}

/// The standing frame of the animation: the first one of the list.
pub open spec fn start_frame(positions: Seq<CharacterPosition>) -> Option<CharacterPosition> {
    match first_start(positions, 0) {
        Some(i) => Some(positions[i]),
        None => None,
    }
}

/// The moving frame of the animation: the first one that comes after the
/// standing frame. Without a standing frame there is none.
pub open spec fn moving_frame(positions: Seq<CharacterPosition>) -> Option<CharacterPosition> {
    match first_start(positions, 0) {
        Some(i) => match first_moving(positions, i + 1) {
            Some(j) => Some(positions[j]),
            None => None,
        },
        None => None,
    }
}

/// Whether a frame makes the animation advance: it does when it starts at
/// the same x as the frame that is shown.
pub open spec fn frame_ticks(current_frame_area: Rectangle, frame: Option<CharacterPosition>) -> bool {
    match frame {
        Some(f) => f.spec_rectangle().pos.x == current_frame_area.pos.x,
        None => false,
    }
}

/// How often the animation advances for a standing and a moving frame:
/// once for each of them that is of its kind and starts at the same x as
/// the frame that is shown.
pub open spec fn animation_ticks(
    current_frame_area: Rectangle,
    start_position: Option<CharacterPosition>,
    moving_position: Option<CharacterPosition>,
) -> int {
    (if start_position matches Some(CharacterPosition::Start(_)) && frame_ticks(
        current_frame_area,
        start_position,
    ) {
        1int
    } else {
        0int
    }) + (if moving_position matches Some(CharacterPosition::Moving(_)) && frame_ticks(
        current_frame_area,
        moving_position,
    ) {
        1int
    } else {
        0int
    })
}

/// How often the animation advances for one key: for a key that is down,
/// by the standing frame; for a key that is let go, by the moving frame.
pub open spec fn key_ticks(
    current_frame_area: Rectangle,
    positions: Seq<CharacterPosition>,
    state: ButtonState,
) -> int {
    if is_down(state) {
        animation_ticks(current_frame_area, start_frame(positions), None)
    } else if state == ButtonState::Released {
        animation_ticks(current_frame_area, None, moving_frame(positions))
    } else {
        0
    }
}

/// The time limit of a map in whole seconds.
pub open spec fn time_limit(map: LevelMapView) -> int {
    map.time as int / 1000
}

/// The state of the game after the clock has been read: the game is over
/// once the time limit of the current level's map is reached.
pub open spec fn after_clock(state: ScreenState, time_elapsed: u64, maps: Seq<LevelMapView>) -> ScreenState {
    match map_of_level(maps, state.current_level, 0) {
        Some(map) => if time_elapsed >= time_limit(map) {
            ScreenState { game_state: GameState::Over, ..state }
        } else {
            state
        },
        None => state,
    }
}

impl Default for GameState {
    fn default() -> (state: GameState)
        ensures
            state == GameState::Active,
    {
        GameState::Active
    }
}

impl Default for ScreenState {
    /// The first level of the first stage, running, not drawn yet.
    fn default() -> (state: ScreenState)
        ensures
            state == (ScreenState {
                current_stage: 1,
                current_level: 1,
                game_state: GameState::Active,
                draw_state: DrawState::Undrawed,
            }),
    {
        ScreenState {
            current_stage: 1,
            current_level: 1,
            game_state: GameState::Active,
            draw_state: DrawState::Undrawed,
        }
    }
}

impl GameState {
    /// Whether the playing field is drawn: it is unless the game pauses.
    pub fn shows_world(self) -> (shown: bool)
        ensures
            shown == (self != GameState::Paused),
    {
        match self {
            GameState::Paused => false,
            _ => true,
        }
    }

    /// The words that are drawn across the screen, if any.
    pub fn banner(self) -> (text: Option<&'static str>)
        ensures
            match self {
                GameState::Active => text is None,
                GameState::Paused => text is Some && text->0@ == "Paused"@,
                GameState::Over => text is Some && text->0@ == "Game over"@,
            },
    {
        match self {
            GameState::Active => None,
            GameState::Paused => Some("Paused"),
            GameState::Over => Some("Game over"),
        }
    }
}

impl ScreenState {
    /// Reads the clock: the game is over once the time limit of the
    /// current level's map in the stage is reached. A stage without a map
    /// of the current level changes nothing.
    pub fn update(&mut self, time_elapsed: u64, stage: &Stage)
        ensures
            *final(self) == after_clock(*old(self), time_elapsed, stage@.maps),
    {
        match stage.map_of_level(self.current_level) {
            Some(map) => {
                if time_elapsed >= map.time / 1000 {
                    self.game_state = GameState::Over;
                }
            },
            None => {},
        }
    }
}

impl Settings {
    /// The settings of the game: a header of 100 pixels, blocks with a half
    /// size of 25 pixels, a character with a half size of 14 pixels, and a
    /// margin of 2 pixels.
    pub fn new() -> (settings: Settings)
        ensures
            settings.animation_positions@ == seq![
                CharacterPosition::Start(
                    Rectangle {
                        pos: Vector2 { x: 0, y: 12000 },
                        size: Vector2 { x: 29000, y: 21000 },
                    },
                ),
                CharacterPosition::Moving(
                    Rectangle {
                        pos: Vector2 { x: 32000, y: 12000 },
                        size: Vector2 { x: 28000, y: 21000 },
                    },
                ),
            ],
            settings.mali_font_path@ == "mali/Mali-Regular.ttf"@,
            settings.character_sprites_path@ == "character_sprite_0_white.png"@,
            settings.block_asset_path@ == "50x50.png"@,
            settings.stages_json_path@ == "stages.json"@,
            settings.header_height == 100 * UNITS_PER_PIXEL,
            settings.block_size == BlockSize(Vector2 { x: 25000, y: 25000 }),
            settings.character_size == (Vector2 { x: 14000, y: 14000 }),
            settings.margin == 2 * UNITS_PER_PIXEL,
    {
        let mut animation_positions: Vec<CharacterPosition> = Vec::new();
        animation_positions.push(
            CharacterPosition::Start(
                Rectangle {
                    pos: Vector2 { x: pixels(0), y: pixels(12) },
                    size: Vector2 { x: pixels(29), y: pixels(21) },
                },
            ),
        );
        animation_positions.push(
            CharacterPosition::Moving(
                Rectangle {
                    pos: Vector2 { x: pixels(32), y: pixels(12) },
                    size: Vector2 { x: pixels(28), y: pixels(21) },
                },
            ),
        );
        proof {
            assert(animation_positions@ =~= seq![
                CharacterPosition::Start(
                    Rectangle {
                        pos: Vector2 { x: 0, y: 12000 },
                        size: Vector2 { x: 29000, y: 21000 },
                    },
                ),
                CharacterPosition::Moving(
                    Rectangle {
                        pos: Vector2 { x: 32000, y: 12000 },
                        size: Vector2 { x: 28000, y: 21000 },
                    },
                ),
            ]);
        }
        Settings {
            animation_positions,
            mali_font_path: "mali/Mali-Regular.ttf".to_owned(),
            character_sprites_path: "character_sprite_0_white.png".to_owned(),
            block_asset_path: "50x50.png".to_owned(),
            stages_json_path: "stages.json".to_owned(),
            header_height: pixels(100),
            block_size: BlockSize(Vector2 { x: pixels(25), y: pixels(25) }),
            character_size: Vector2 { x: pixels(14), y: pixels(14) },
            margin: pixels(2),
        }
    }
}

/// Where the character starts: at (130, 330) pixels.
pub fn start_position() -> (position: Position)
    ensures
        position == Position(Vector2 { x: 130000, y: 330000 }),
{
    Position(Vector2 { x: pixels(130), y: pixels(330) })
}

/// Where the first blocks stand: at (150, 150) and at (150, 200) pixels.
pub fn start_blocks() -> (blocks: Vec<Position>)
    ensures
        blocks@ == seq![
            Position(Vector2 { x: 150000, y: 150000 }),
            Position(Vector2 { x: 150000, y: 200000 }),
        ],
{
    let mut blocks: Vec<Position> = Vec::new();
    blocks.push(Position(Vector2 { x: pixels(150), y: pixels(150) }));
    blocks.push(Position(Vector2 { x: pixels(150), y: pixels(200) }));
    proof {
        assert(blocks@ =~= seq![
            Position(Vector2 { x: 150000, y: 150000 }),
            Position(Vector2 { x: 150000, y: 200000 }),
        ]);
    }
    blocks
}

/// The seconds that are left of a map's time, or `None` once the time
/// limit has passed.
pub fn time_left(time_elapsed: u64, map: &LevelMap) -> (left: Option<u64>)
    ensures
        match left {
            Some(seconds) => time_elapsed <= time_limit(map@) && seconds == time_limit(map@)
                - time_elapsed,
            None => time_elapsed > time_limit(map@),
        },
{
    let map_time = map.time / 1000;
    if time_elapsed <= map_time {
        Some(map_time - time_elapsed)
    } else {
        None
    }
}

/// How often the animation advances for a standing and a moving frame:
/// once for each of them that is of its kind and starts at the same x as
/// the frame that is shown.
pub fn tick_character_animation(
    current_frame_area: &Rectangle,
    start_position: Option<&CharacterPosition>,
    moving_position: Option<&CharacterPosition>,
) -> (ticks: u8)
    ensures
        ticks == animation_ticks(
            *current_frame_area,
            match start_position {
                Some(p) => Some(*p),
                None => None,
            },
            match moving_position {
                Some(p) => Some(*p),
                None => None,
            },
        ),
{
    let mut ticks: u8 = 0;
    match start_position {
        Some(CharacterPosition::Start(rectangle)) => {
            if current_frame_area.pos.x == rectangle.pos.x {
                ticks = ticks + 1;
            }
        },
        _ => {},
    }
    match moving_position {
        Some(CharacterPosition::Moving(rectangle)) => {
            if current_frame_area.pos.x == rectangle.pos.x {
                ticks = ticks + 1;
            }
        },
        _ => {},
    }
    ticks
}

fn find_start(positions: &Vec<CharacterPosition>) -> (found: Option<usize>)
    ensures
        match found {
            Some(i) => first_start(positions@, 0) == Some(i as int) && i < positions@.len(),
            None => first_start(positions@, 0) is None,
        },
{
    let mut i: usize = 0;
    while i < positions.len()
        invariant
            i <= positions@.len(),
            first_start(positions@, 0) == first_start(positions@, i as int),
        decreases positions@.len() - i,
    {
        match positions[i] {
            CharacterPosition::Start(_) => {
                return Some(i);
            },
            _ => {},
        }
        i = i + 1;
    }
    None
}

fn find_moving(positions: &Vec<CharacterPosition>, from: usize) -> (found: Option<usize>)
    ensures
        match found {
            Some(i) => first_moving(positions@, from as int) == Some(i as int) && i
                < positions@.len(),
            None => first_moving(positions@, from as int) is None,
        },
{
    let mut i: usize = from;
    while i < positions.len()
        invariant
            first_moving(positions@, from as int) == first_moving(positions@, i as int),
        decreases positions@.len() - i,
    {
        match positions[i] {
            CharacterPosition::Moving(_) => {
                return Some(i);
            },
            _ => {},
        }
        i = i + 1;
    }
    None
}

fn apply_key(
    velocity: &mut Velocity,
    key: Key,
    state: ButtonState,
    current_frame_area: &Rectangle,
    start_position: Option<&CharacterPosition>,
    moving_position: Option<&CharacterPosition>,
) -> (ticks: u8)
    ensures
        final(velocity).0 == key_velocity(old(velocity).0, key, state),
        ticks == if is_down(state) {
            animation_ticks(
                *current_frame_area,
                match start_position {
                    Some(p) => Some(*p),
                    None => None,
                },
                None,
            )
        } else if state == ButtonState::Released {
            animation_ticks(
                *current_frame_area,
                None,
                match moving_position {
                    Some(p) => Some(*p),
                    None => None,
                },
            )
        } else {
            0
        },
        ticks <= 1,
{
    match state {
        ButtonState::Pressed | ButtonState::Held => {
            match key {
                Key::Up => {
                    velocity.0.y = -VELOCITY_CHANGE;
                },
                Key::Down => {
                    velocity.0.y = VELOCITY_CHANGE;
                },
                Key::Left => {
                    velocity.0.x = -VELOCITY_CHANGE;
                },
                Key::Right => {
                    velocity.0.x = VELOCITY_CHANGE;
                },
            }
            tick_character_animation(current_frame_area, start_position, None)
        },
        ButtonState::Released => {
            match key {
                Key::Up => change_velocity(&MovingState::Top, velocity),
                Key::Down => change_velocity(&MovingState::Bottom, velocity),
                Key::Left => change_velocity(&MovingState::Left, velocity),
                Key::Right => change_velocity(&MovingState::Right, velocity),
            }
            tick_character_animation(current_frame_area, None, moving_position)
        },
        ButtonState::NotPressed => 0,
    }
}

/// Turns the arrow keys into the character's velocity, key by key in the
/// order up, down, left, right, and tells how often the animation
/// advances.
pub fn handle_keys_to_change_velocity(
    velocity: &mut Velocity,
    keys: &KeyStates,
    current_frame_area: &Rectangle,
    animation_positions: &Vec<CharacterPosition>,
) -> (ticks: u8)
    ensures
        final(velocity).0 == keys_velocity(old(velocity).0, *keys),
        ticks == key_ticks(*current_frame_area, animation_positions@, keys.up) + key_ticks(
            *current_frame_area,
            animation_positions@,
            keys.down,
        ) + key_ticks(*current_frame_area, animation_positions@, keys.left) + key_ticks(
            *current_frame_area,
            animation_positions@,
            keys.right,
        ),
{
    let start_index = find_start(animation_positions);
    let start_position: Option<&CharacterPosition> = match start_index {
        Some(i) => Some(&animation_positions[i]),
        None => None,
    };
    let moving_position: Option<&CharacterPosition> = match start_index {
        Some(i) => {
            assert(i < animation_positions.len());
            match find_moving(animation_positions, i + 1) {
                Some(j) => Some(&animation_positions[j]),
                None => None,
            }
        },
        None => None,
    };
    let up = apply_key(
        velocity,
        Key::Up,
        keys.up,
        current_frame_area,
        start_position,
        moving_position,
    );
    let down = apply_key(
        velocity,
        Key::Down,
        keys.down,
        current_frame_area,
        start_position,
        moving_position,
    );
    let left = apply_key(
        velocity,
        Key::Left,
        keys.left,
        current_frame_area,
        start_position,
        moving_position,
    );
    let right = apply_key(
        velocity,
        Key::Right,
        keys.right,
        current_frame_area,
        start_position,
        moving_position,
    );
    up + down + left + right
}

} // verus!
