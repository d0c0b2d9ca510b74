//! Stages, their maps and blocks, and the frame of blocks around the
//! playing field.

use vstd::prelude::*;
use crate::geometry::{Vector2, UNITS_PER_PIXEL};
use crate::physics::Position;
use crate::screen::{ScreenState, Settings, WINDOW_HEIGHT, WINDOW_WIDTH};

verus! {

/// The size of a block's picture.
#[derive(Clone, Copy, Debug, PartialEq, Eq, Structural)]
pub struct Size {
    pub width: i32,
    pub height: i32,
}

/// The colors that a block can have.
#[derive(Clone, Copy, Debug, PartialEq, Eq, Structural)]
pub enum Color {
    Red,
    Green,
    Blue,
    Orange,
    Purple,
    Indigo,
}

/// A block of a map.
#[derive(Clone, Copy, Debug, PartialEq, Eq, Structural)]
pub struct Block {
    pub can_be_moved: bool,
    pub size: Size,
    pub color: Color,
}

/// A block and where it stands.
#[derive(Clone, Copy, Debug, PartialEq, Eq, Structural)]
pub struct BlockAndPosition {
    pub block: Block,
    pub position: Position,
}

/// One level of a stage: its time limit in milliseconds and its blocks.
#[derive(Clone, Debug)]
pub struct LevelMap {
    pub level: u16,
    pub time: u64,
    pub blocks_with_position: Vec<BlockAndPosition>,
}

/// A stage and the maps of its levels.
#[derive(Clone, Debug)]
pub struct Stage {
    pub stage: u16,
    pub maps: Vec<LevelMap>,
}

/// What a `LevelMap` holds, as mathematical values.
pub struct LevelMapView {
    pub level: u16,
    pub time: u64,
    pub blocks_with_position: Seq<BlockAndPosition>,
}

/// What a `Stage` holds, as mathematical values.
pub struct StageView {
    pub stage: u16,
    pub maps: Seq<LevelMapView>,
}

impl View for LevelMap {
    type V = LevelMapView;

    open spec fn view(&self) -> LevelMapView {
        LevelMapView {
            level: self.level,
            time: self.time,
            blocks_with_position: self.blocks_with_position@,
        }
    }
}

impl View for Stage {
    type V = StageView;

    open spec fn view(&self) -> StageView {
        StageView { stage: self.stage, maps: Seq::new(self.maps@.len(), |i: int| self.maps@[i]@) }
    }
}

/// The views of a list of stages.
pub open spec fn stage_views(stages: Seq<Stage>) -> Seq<StageView> {
    Seq::new(stages.len(), |i: int| stages[i]@)
}

/// The first map at or after index `from` that has the given level.
pub open spec fn map_of_level(maps: Seq<LevelMapView>, level: u16, from: int) -> Option<LevelMapView>
    decreases maps.len() - from,
{
    if from < 0 || from >= maps.len() {
        None
    } else if maps[from].level == level {
        Some(maps[from])
    } else {
        map_of_level(maps, level, from + 1)
    }
}

/// The first stage at or after index `from` that has the given number.
pub open spec fn stage_of_number(stages: Seq<StageView>, number: u16, from: int) -> Option<StageView>
    decreases stages.len() - from,
{
    if from < 0 || from >= stages.len() {
        None
    } else if stages[from].stage == number {
        Some(stages[from])
    } else {
        stage_of_number(stages, number, from + 1)
    }
}

/// The map that is played: in the first stage that has the current number,
/// the first map that has the current level. A stage of that number further
/// on is not looked at.
pub open spec fn current_map(stages: Seq<StageView>, state: ScreenState) -> Option<LevelMapView> {
    match stage_of_number(stages, state.current_stage, 0) {
        Some(stage) => map_of_level(stage.maps, state.current_level, 0),
        None => None,
    }
}

/// The distance between the centers of two neighbouring blocks of the frame:
/// 50 pixels.
pub const BLOCK_SPACING: i32 = 50 * UNITS_PER_PIXEL;

/// How many blocks the top row and the bottom row of the frame have each.
pub open spec fn frame_columns() -> int {
    WINDOW_WIDTH as int / 50 - 1
}

/// How many blocks the left and the right column of the frame have each,
/// below the top row.
pub open spec fn frame_rows() -> int {
    WINDOW_HEIGHT as int / 50 - 3
}

/// The block at index `i` of the frame around the playing field. The rows
/// come first, one block of the top row and one of the bottom row in turn
/// from left to right; then the columns, one block of the left and one of
/// the right in turn from the top down. Blocks stand 50 pixels apart.
pub open spec fn frame_position(header_height: i32, i: int) -> Position {
    let step = BLOCK_SPACING;
    if i < 2 * frame_columns() {
        Position(
            Vector2 {
                x: ((i / 2 + 1) * step) as i32,
                y: if i % 2 == 0 {
                    header_height
                } else {
                    ((WINDOW_HEIGHT - 50) * UNITS_PER_PIXEL) as i32
                },
            },
        )
    } else {
        let k = i - 2 * frame_columns();
        Position(
            Vector2 {
                x: if k % 2 == 0 {
                    step as i32
                } else {
                    ((WINDOW_WIDTH - 50) * UNITS_PER_PIXEL) as i32
                },
                y: ((k / 2 + 3) * step) as i32,
            },
        )
    }
}

/// The frame of blocks around the playing field.
pub open spec fn frame_positions(header_height: i32) -> Seq<Position> {
    Seq::new(
        (2 * frame_columns() + 2 * frame_rows()) as nat,
        |i: int| frame_position(header_height, i),
    )
}

impl Default for Size {
    /// 50 by 50 pixels.
    fn default() -> (size: Size)
        ensures
            size.width == 50 * UNITS_PER_PIXEL,
            size.height == 50 * UNITS_PER_PIXEL,
    {
        Size { width: 50 * UNITS_PER_PIXEL, height: 50 * UNITS_PER_PIXEL }
    }
}

impl Default for Block {
    /// A red block of 50 by 50 pixels that cannot be moved.
    fn default() -> (block: Block)
        ensures
            !block.can_be_moved,
            block.size.width == 50 * UNITS_PER_PIXEL,
            block.size.height == 50 * UNITS_PER_PIXEL,
            block.color == Color::Red,
    {
        Block {
            can_be_moved: false,
            size: Size { width: 50 * UNITS_PER_PIXEL, height: 50 * UNITS_PER_PIXEL },
            color: Color::Red,
        }
    }
}

impl Default for Stage {
    /// Stage 0 without maps.
    fn default() -> (stage: Stage)
        ensures
            stage@ == (StageView { stage: 0, maps: Seq::empty() }),
    {
        let stage = Stage { stage: 0, maps: Vec::new() };
        proof {
            assert(stage@.maps =~= Seq::empty());
        }
        stage
    }
}

impl Stage {
    /// The first map of the stage that has the given level.
    pub fn map_of_level(&self, level: u16) -> (found: Option<&LevelMap>)
        ensures
            match found {
                Some(map) => map_of_level(self@.maps, level, 0) == Some(map@),
                None => map_of_level(self@.maps, level, 0) is None,
            },
    {
        let mut j: usize = 0;
        while j < self.maps.len()
            invariant
                j <= self.maps@.len(),
                map_of_level(self@.maps, level, 0) == map_of_level(self@.maps, level, j as int),
            decreases self.maps@.len() - j,
        {
            if self.maps[j].level == level {
                return Some(&self.maps[j]);
            }
            j = j + 1;
        }
        None
    }
}

/// Finds the map that is played: in the first stage that has the current
/// number, the first map that has the current level.
pub fn find_current_map(stages: Vec<Stage>, state: &ScreenState) -> (found: Option<LevelMap>)
    ensures
        match found {
            Some(map) => current_map(stage_views(stages@), *state) == Some(map@),
            None => current_map(stage_views(stages@), *state) is None,
        },
{
    let ghost views = stage_views(stages@);
    let mut rest = stages;
    let mut i: usize = 0;
    while i < rest.len()
        invariant
            i <= rest@.len(),
            views == stage_views(stages@),
            stage_views(rest@) == views,
            stage_of_number(views, state.current_stage, 0) == stage_of_number(
                views,
                state.current_stage,
                i as int,
            ),
        decreases rest@.len() - i,
    {
        if rest[i].stage == state.current_stage {
            assert(rest@[i as int]@ == views[i as int]);
            let stage = rest.swap_remove(i);
            let ghost map_views = stage@.maps;
            assert(stage_of_number(views, state.current_stage, 0) == Some(stage@));
            let mut maps = stage.maps;
            let mut j: usize = 0;
            while j < maps.len()
                invariant
                    j <= maps@.len(),
                    views == stage_views(stages@),
                    stage_of_number(views, state.current_stage, 0) == Some(stage@),
                    map_views == stage@.maps,
                    map_views.len() == maps@.len(),
                    forall|k: int| 0 <= k < maps@.len() ==> map_views[k] == (#[trigger] maps@[k])@,
                    map_of_level(map_views, state.current_level, 0) == map_of_level(
                        map_views,
                        state.current_level,
                        j as int,
                    ),
                decreases maps@.len() - j,
            {
                if maps[j].level == state.current_level {
                    assert(maps@[j as int]@ == map_views[j as int]);
                    let map = maps.swap_remove(j);
                    assert(map_of_level(map_views, state.current_level, 0) == Some(map@));
                    return Some(map);
                }
                j = j + 1;
            }
            assert(map_of_level(map_views, state.current_level, 0) is None);
            return None;
        }
        i = i + 1;
    }
    None
}

/// The positions of the frame of blocks around the playing field. The top
/// row stands at the height of the header.
pub fn create_base_map_entities(settings: &Settings) -> (positions: Vec<Position>)
    ensures
        positions@ == frame_positions(settings.header_height),
{
    let step: i32 = BLOCK_SPACING;
    let columns: i32 = (WINDOW_WIDTH / 50) as i32 - 1;
    let rows: i32 = (WINDOW_HEIGHT / 50) as i32 - 3;
    let bottom: i32 = (WINDOW_HEIGHT as i32 - 50) * UNITS_PER_PIXEL;
    let right: i32 = (WINDOW_WIDTH as i32 - 50) * UNITS_PER_PIXEL;
    let mut positions: Vec<Position> = Vec::new();
    let mut column: i32 = 0;
    while column < columns
        invariant
            0 <= column <= columns,
            columns == frame_columns(),
            step == BLOCK_SPACING,
            bottom == (WINDOW_HEIGHT - 50) * UNITS_PER_PIXEL,
            positions@.len() == 2 * column,
            forall|i: int|
                0 <= i < positions@.len() ==> positions@[i] == frame_position(
                    settings.header_height,
                    i,
                ),
        decreases columns - column,
    {
        positions.push(Position(Vector2 { x: (column + 1) * step, y: settings.header_height }));
        positions.push(Position(Vector2 { x: (column + 1) * step, y: bottom }));
        column = column + 1;
    }
    let mut row: i32 = 0;
    while row < rows
        invariant
            0 <= row <= rows,
            columns == frame_columns(),
            rows == frame_rows(),
            step == BLOCK_SPACING,
            right == (WINDOW_WIDTH - 50) * UNITS_PER_PIXEL,
            positions@.len() == 2 * columns + 2 * row,
            forall|i: int|
                0 <= i < positions@.len() ==> positions@[i] == frame_position(
                    settings.header_height,
                    i,
                ),
        decreases rows - row,
    {
        positions.push(Position(Vector2 { x: step, y: (row + 3) * step }));
        positions.push(Position(Vector2 { x: right, y: (row + 3) * step }));
        row = row + 1;
    }
    proof {
        assert(positions@ =~= frame_positions(settings.header_height));
    }
    positions
}

} // verus!
