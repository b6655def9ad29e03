//! World objects and their placement from the tiles of a level.

use crate::level::{Level, Tile};
use vstd::prelude::*;

verus! {

/// Lengths per world unit: a length of 1000 is one world unit.
pub const UNIT: i64 = 1000;

/// Scale of every object placed from a level, in hundredths.
pub const LEVEL_SCALE: u32 = 50;

/// Side of a tile at full scale, in world units.
pub const TILE_SIZE: i64 = 128;

/// Distance between the centres of neighbouring tiles: the side of a tile at
/// the level's scale.
pub const TILE_STEP: i64 = 64_000;

/// Column of the grid that lies at x = 0.
pub const CENTER_COL: i64 = 9;

/// Row of the grid that lies at y = 0.
pub const CENTER_ROW: i64 = 5;

/// How far above its tile's centre the player is placed, so that the feet of
/// the sprite stand on the tile: a quarter of the sprite's 256 world units at
/// the level's scale.
pub const SPAWN_LIFT: i64 = 32_000;

/// The largest number of rows, and of tiles in a row, that can be placed.
pub const GRID_LIMIT: usize = 1_000_000_000;

/// Coordinates up to this magnitude can be moved without overflow.
pub const WORLD_LIMIT: i64 = 1_000_000_000_000_000_000;

/// Frame of a ground tile with no ground on either side.
pub const GROUND_ISOLATED: usize = 8;

/// Frame of a ground tile with ground on its right only: the left edge of a run.
pub const GROUND_LEFT_EDGE: usize = 14;

/// Frame of a ground tile with ground on its left only: the right edge of a run.
pub const GROUND_RIGHT_EDGE: usize = 0;

/// Frame of a ground tile with ground on both sides.
pub const GROUND_MIDDLE: usize = 7;

/// First frame of a flag.
pub const FLAG_FRAME: usize = 6;

/// Second frame of a flag.
pub const FLAG_FRAME_ALT: usize = 12;

/// Frame of a power-up.
pub const POWER_UP_FRAME: usize = 37;

/// Frame of the player when the level starts.
pub const PLAYER_FRAME: usize = 0;

/// What a world object is.
#[derive(Clone, Copy, Debug, PartialEq, Eq, Structural)]
pub enum ObjectKind {
    Ground,
    Flag,
    PowerUp,
    Player,
}

/// A positioned object of the world, placed from one tile.
#[derive(Clone, Copy, Debug, PartialEq, Eq, Structural)]
pub struct WorldObject {
    pub kind: ObjectKind,
    /// Centre, in thousandths of a world unit; y grows upwards.
    pub x: i64,
    pub y: i64,
    /// Scale factor in hundredths.
    pub scale: u32,
    /// Index of the frame to draw.
    pub frame: usize,
    /// Set once the object has raised its event; it raises no other.
    pub consumed: bool,
}

impl WorldObject {
    /// The object lies within the coordinates that can be moved.
    pub open spec fn in_range(self) -> bool {
        &&& -WORLD_LIMIT <= self.x <= WORLD_LIMIT
        &&& -WORLD_LIMIT <= self.y <= WORLD_LIMIT
    }
}

/// The tile step is the side of a tile at the level's scale, and the lift of
/// the player is half of it.
pub proof fn lemma_level_lengths()
    ensures
        TILE_STEP * 100 == TILE_SIZE * UNIT * LEVEL_SCALE,
        SPAWN_LIFT * 2 == TILE_STEP,
{
}

/// Where the centre of the tile in column `i` of row `j` lies: the grid is
/// centred on its column 9 and row 5, and row 0 is the top row.
pub open spec fn spec_tile_position(i: int, j: int) -> (int, int) {
    ((i - CENTER_COL) * TILE_STEP, -(j - CENTER_ROW) * TILE_STEP)
}

/// The object that a tile becomes when it is placed at `(x, y)`, where the
/// tile stands in column `i` of `line`. An empty tile becomes none.
pub open spec fn spec_tile_object(tile: Tile, i: int, x: int, y: int, line: Seq<Tile>) -> Option<
    WorldObject,
> {
    match tile {
        Tile::Empty => None,
        Tile::Ground => Some(
            WorldObject {
                kind: ObjectKind::Ground,
                x: x as i64,
                y: y as i64,
                scale: LEVEL_SCALE,
                frame: spec_ground_frame(spec_is_ground(line, i - 1), spec_is_ground(line, i + 1)),
                consumed: false,
            },
        ),
        Tile::Spawn => Some(
            WorldObject {
                kind: ObjectKind::Player,
                x: x as i64,
                y: (y + SPAWN_LIFT) as i64,
                scale: LEVEL_SCALE,
                frame: PLAYER_FRAME,
                consumed: false,
            },
        ),
        Tile::Flag => Some(
            WorldObject {
                kind: ObjectKind::Flag,
                x: x as i64,
                y: y as i64,
                scale: LEVEL_SCALE,
                frame: FLAG_FRAME,
                consumed: false,
            },
        ),
        Tile::PowerUp => Some(
            WorldObject {
                kind: ObjectKind::PowerUp,
                x: x as i64,
                y: y as i64,
                scale: LEVEL_SCALE,
                frame: POWER_UP_FRAME,
                consumed: false,
            },
        ),
    }
}

/// Whether column `i` of `line` exists and holds a ground tile.
pub open spec fn spec_is_ground(line: Seq<Tile>, i: int) -> bool {
    0 <= i < line.len() && line[i] == Tile::Ground
}

/// The frame of a ground tile, chosen by whether it has ground on its left
/// and on its right.
pub open spec fn spec_ground_frame(has_left: bool, has_right: bool) -> usize {
    if has_left {
        if has_right {
            GROUND_MIDDLE
        } else {
            GROUND_RIGHT_EDGE
        }
    } else {
        if has_right {
            GROUND_LEFT_EDGE
        } else {
            GROUND_ISOLATED
        }
    }
}

/// The frame for a ground tile at column `i` of `line`: it depends on nothing
/// but whether the columns `i - 1` and `i + 1` hold ground. A column outside
/// the row counts as holding none.
pub fn ground_tile_index(line: &[Tile], i: usize) -> (frame: usize)
    ensures
        frame == spec_ground_frame(spec_is_ground(line@, i - 1), spec_is_ground(line@, i + 1)),
{
    let has_left = i > 0 && i - 1 < line.len() && line[i - 1] == Tile::Ground;
    let has_right = i < usize::MAX && i + 1 < line.len() && line[i + 1] == Tile::Ground;
    if has_left {
        if has_right {
            GROUND_MIDDLE
        } else {
            GROUND_RIGHT_EDGE
        }
    } else {
        if has_right {
            GROUND_LEFT_EDGE
        } else {
            GROUND_ISOLATED
        }
    }
}

/// The four neighbourhoods of a ground tile get four different frames.
pub proof fn lemma_ground_frames_distinct(l1: bool, r1: bool, l2: bool, r2: bool)
    ensures
        spec_ground_frame(l1, r1) == spec_ground_frame(l2, r2) <==> (l1 == l2 && r1 == r2),
{
}

/// Where the centre of the tile in column `i` of row `j` lies.
pub fn tile_position(i: usize, j: usize) -> (pos: (i64, i64))
    requires
        i <= GRID_LIMIT,
        j <= GRID_LIMIT,
    ensures
        (pos.0 as int, pos.1 as int) == spec_tile_position(i as int, j as int),
{
    let col: i64 = i as i64;
    let row: i64 = j as i64;
    ((col - CENTER_COL) * TILE_STEP, -((row - CENTER_ROW) * TILE_STEP))
}

/// Places one tile at `(x, y)`: a ground tile with the frame that its
/// neighbours in `line` call for, the player lifted onto its tile, a flag or
/// a power-up. An empty tile places nothing.
pub fn display_tile(tile: Tile, i: usize, x: i64, y: i64, line: &[Tile]) -> (object: Option<
    WorldObject,
>)
    requires
        tile == Tile::Spawn ==> y + SPAWN_LIFT <= i64::MAX,
    ensures
        object == spec_tile_object(tile, i as int, x as int, y as int, line@),
{
    match tile {
        Tile::Empty => None,
        Tile::Ground => Some(
            WorldObject {
                kind: ObjectKind::Ground,
                x,
                y,
                scale: LEVEL_SCALE,
                frame: ground_tile_index(line, i),
                consumed: false,
            },
        ),
        Tile::Spawn => Some(
            WorldObject {
                kind: ObjectKind::Player,
                x,
                y: y + SPAWN_LIFT,
                scale: LEVEL_SCALE,
                frame: PLAYER_FRAME,
                consumed: false,
            },
        ),
        Tile::Flag => Some(
            WorldObject {
                kind: ObjectKind::Flag,
                x,
                y,
                scale: LEVEL_SCALE,
                frame: FLAG_FRAME,
                consumed: false,
            },
        ),
        Tile::PowerUp => Some(
            WorldObject {
                kind: ObjectKind::PowerUp,
                x,
                y,
                scale: LEVEL_SCALE,
                frame: POWER_UP_FRAME,
                consumed: false,
            },
        ),
    }
}

/// A grid that can be placed: it has at most `GRID_LIMIT` rows, each of at
/// most `GRID_LIMIT` tiles.
pub open spec fn spec_fits(grid: Seq<Seq<Tile>>) -> bool {
    &&& grid.len() <= GRID_LIMIT
    &&& forall|j: int| 0 <= j < grid.len() ==> (#[trigger] grid[j]).len() <= GRID_LIMIT
}

/// The objects placed from the first `n` tiles of `line`, which is row `j`,
/// from left to right.
pub open spec fn spec_row_objects(line: Seq<Tile>, j: int, n: int) -> Seq<WorldObject>
    decreases n,
{
    if n <= 0 {
        Seq::empty()
    } else {
        let before = spec_row_objects(line, j, n - 1);
        let (x, y) = spec_tile_position(n - 1, j);
        match spec_tile_object(line[n - 1], n - 1, x, y, line) {
            Some(object) => before.push(object),
            None => before,
        }
    }
}

/// The objects placed from the first `m` rows of `grid`: row by row from the
/// top, each row from left to right.
pub open spec fn spec_level_objects(grid: Seq<Seq<Tile>>, m: int) -> Seq<WorldObject>
    decreases m,
{
    if m <= 0 {
        Seq::empty()
    } else {
        spec_level_objects(grid, m - 1) + spec_row_objects(
            grid[m - 1],
            m - 1,
            grid[m - 1].len() as int,
        )
    }
}

/// Every object placed from the first `n` tiles of a row lies in range.
proof fn lemma_row_objects_in_range(line: Seq<Tile>, j: int, n: int)
    requires
        0 <= j <= GRID_LIMIT,
        0 <= n <= line.len() <= GRID_LIMIT,
    ensures
        forall|k: int|
            0 <= k < spec_row_objects(line, j, n).len() ==> (#[trigger] spec_row_objects(
                line,
                j,
                n,
            )[k]).in_range(),
    decreases n,
{
    if n > 0 {
        lemma_row_objects_in_range(line, j, n - 1);
        let before = spec_row_objects(line, j, n - 1);
        let all = spec_row_objects(line, j, n);
        let (x, y) = spec_tile_position(n - 1, j);
        assert(-WORLD_LIMIT + SPAWN_LIFT <= x <= WORLD_LIMIT - SPAWN_LIFT);
        assert(-WORLD_LIMIT + SPAWN_LIFT <= y <= WORLD_LIMIT - SPAWN_LIFT);
        assert forall|k: int| 0 <= k < all.len() implies (#[trigger] all[k]).in_range() by {
            if k < before.len() {
                assert(all[k] == before[k]);
            }
        }
    }
}

/// Every object placed from the first `m` rows of a grid that fits lies in
/// range.
pub proof fn lemma_level_objects_in_range(grid: Seq<Seq<Tile>>, m: int)
    requires
        spec_fits(grid),
        0 <= m <= grid.len(),
    ensures
        forall|k: int|
            0 <= k < spec_level_objects(grid, m).len() ==> (#[trigger] spec_level_objects(
                grid,
                m,
            )[k]).in_range(),
    decreases m,
{
    if m > 0 {
        lemma_level_objects_in_range(grid, m - 1);
        lemma_row_objects_in_range(grid[m - 1], m - 1, grid[m - 1].len() as int);
        let before = spec_level_objects(grid, m - 1);
        let row = spec_row_objects(grid[m - 1], m - 1, grid[m - 1].len() as int);
        let all = spec_level_objects(grid, m);
        assert forall|k: int| 0 <= k < all.len() implies (#[trigger] all[k]).in_range() by {
            if k < before.len() {
                assert(all[k] == before[k]);
            } else {
                assert(all[k] == row[k - before.len()]);
            }
        }
    }
}

impl Level {
    /// Whether the level is small enough to be placed.
    pub fn fits(&self) -> (ok: bool)
        ensures
            ok == spec_fits(self@),
    {
        if self.tiles.len() > GRID_LIMIT {
            return false;
        }
        let mut j: usize = 0;
        while j < self.tiles.len()
            invariant
                j <= self.tiles@.len(),
                forall|k: int| 0 <= k < j ==> (#[trigger] self@[k]).len() <= GRID_LIMIT,
            decreases self.tiles@.len() - j,
        {
            if self.tiles[j].len() > GRID_LIMIT {
                assert(self@[j as int].len() > GRID_LIMIT);
                return false;
            }
            j = j + 1;
        }
        true
    }
}

/// Places every tile of the level: the objects of all rows from the top row
/// down, each row from left to right, every tile at the position of its
/// column and row. The same level always gives the same objects.
pub fn display_level(level: &Level) -> (objects: Vec<WorldObject>)
    requires
        spec_fits(level@),
    ensures
        objects@ == spec_level_objects(level@, level@.len() as int),
{
    let mut objects: Vec<WorldObject> = Vec::new();
    let mut j: usize = 0;
    while j < level.tiles.len()
        invariant
            spec_fits(level@),
            j <= level.tiles@.len(),
            objects@ == spec_level_objects(level@, j as int),
        decreases level.tiles@.len() - j,
    {
        let line: &[Tile] = level.tiles[j].as_slice();
        let ghost done = objects@;
        assert(line@ == level@[j as int]);
        let mut i: usize = 0;
        while i < line.len()
            invariant
                i <= line@.len(),
                line@.len() <= GRID_LIMIT,
                j <= GRID_LIMIT,
                objects@ == done + spec_row_objects(line@, j as int, i as int),
            decreases line@.len() - i,
        {
            let (x, y) = tile_position(i, j);
            match display_tile(line[i], i, x, y, line) {
                Some(object) => {
                    objects.push(object);
                    assert(objects@ =~= done + spec_row_objects(line@, j as int, i + 1));
                },
                None => {},
            }
            i = i + 1;
        }
        j = j + 1;
    }
    objects
}

/// The other frame of a flag: a flag shows its two frames in turn.
pub open spec fn spec_flag_toggle(frame: usize) -> usize {
    if frame == FLAG_FRAME {
        FLAG_FRAME_ALT
    } else {
        FLAG_FRAME
    }
}

/// Switches every flag to its other frame. Nothing but the frames changes.
pub fn animate_level(flags: &mut Vec<WorldObject>)
    ensures
        final(flags)@.len() == old(flags)@.len(),
        forall|i: int|
            0 <= i < old(flags)@.len() ==> #[trigger] final(flags)@[i] == (WorldObject {
                frame: spec_flag_toggle(old(flags)@[i].frame),
                ..old(flags)@[i]
            }),
{
    let mut i: usize = 0;
    while i < flags.len()
        invariant
            flags@.len() == old(flags)@.len(),
            i <= flags@.len(),
            forall|k: int|
                0 <= k < i ==> #[trigger] flags@[k] == (WorldObject {
                    frame: spec_flag_toggle(old(flags)@[k].frame),
                    ..old(flags)@[k]
                }),
            forall|k: int| i <= k < flags@.len() ==> #[trigger] flags@[k] == old(flags)@[k],
        decreases flags@.len() - i,
    {
        let flag: WorldObject = flags[i];
        let frame: usize = if flag.frame == FLAG_FRAME {
            FLAG_FRAME_ALT
        } else {
            FLAG_FRAME
        };
        flags.set(i, WorldObject { frame, ..flag });
        i = i + 1;
    }
}

} // verus!
