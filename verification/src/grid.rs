//! Grid engine: cell-type model and the deterministic arena generator.
//!
//! A grid is a flat array of cell tags, indexed by `y * width + x`. The
//! generator walls off the border and the even-parity interior pillars,
//! clears the cells near the spawn corners, and fills everything else with
//! destructible blocks. It uses no randomness: the same inputs always yield
//! the same cell array.

use vstd::prelude::*;
use vstd::arithmetic::div_mod::{
    lemma_fundamental_div_mod_converse, lemma_multiply_divide_lt,
};
use vstd::arithmetic::mul::lemma_mul_inequality;

verus! {

/// Walkable, holds nothing.
pub const CELL_EMPTY: u8 = 0;
/// Indestructible wall; never changes.
pub const CELL_WALL: u8 = 1;
/// Destructible block; absorbs a blast and may drop loot.
pub const CELL_BLOCK: u8 = 2;
/// An active bomb sits here.
pub const CELL_BOMB: u8 = 3;
/// Transient blast cell; lethal to walk into.
pub const CELL_EXPLOSION: u8 = 4;
/// Currency pickup.
pub const CELL_LOOT: u8 = 5;
/// Stat-bonus pickup; subtype in the parallel powerup array.
pub const CELL_POWERUP: u8 = 6;

/// Powerup subtype: +1 bomb range.
pub const POWERUP_RANGE: u8 = 1;
/// Powerup subtype: +1 bomb capacity.
pub const POWERUP_BOMBS: u8 = 2;
/// Powerup subtype: +1 speed.
pub const POWERUP_SPEED: u8 = 3;

/// Arena width in cells.
pub const GRID_WIDTH: u8 = 13;
/// Arena height in cells.
pub const GRID_HEIGHT: u8 = 11;
/// Total cells of the standard arena.
pub const GRID_CELLS: usize = 143;

/// Manhattan distance between two cells.
pub open spec fn manhattan(x1: int, y1: int, x2: int, y2: int) -> int {
    (if x1 >= x2 { x1 - x2 } else { x2 - x1 }) + (if y1 >= y2 { y1 - y2 } else { y2 - y1 })
}

/// Whether `(x, y)` lies within Manhattan distance 2 of some spawn corner.
pub open spec fn spec_spawn_safe(spawns: Seq<(u8, u8)>, x: int, y: int) -> bool {
    exists|i: int| 0 <= i < spawns.len()
        && manhattan(#[trigger] spawns[i].0 as int, spawns[i].1 as int, x, y) <= 2
}

/// The cell the generator assigns to `(x, y)`: border and even-parity
/// interior cells are walls, spawn-adjacent cells are empty, and every
/// remaining interior cell is a destructible block.
pub open spec fn spec_gen_cell(
    width: int,
    height: int,
    spawns: Seq<(u8, u8)>,
    x: int,
    y: int,
) -> u8 {
    if x == 0 || x == width - 1 || y == 0 || y == height - 1 {
        CELL_WALL
    } else if x % 2 == 0 && y % 2 == 0 {
        CELL_WALL
    } else if spec_spawn_safe(spawns, x, y) {
        CELL_EMPTY
    } else {
        CELL_BLOCK
    }
}

/// Whether `(x, y)` lies within Manhattan distance 2 of some spawn corner.
pub fn is_spawn_safe_zone(spawns: &Vec<(u8, u8)>, x: u8, y: u8) -> (r: bool)
    ensures
        r == spec_spawn_safe(spawns@, x as int, y as int),
{
    let mut i: usize = 0;
    while i < spawns.len()
        invariant
            i <= spawns@.len(),
            forall|j: int| 0 <= j < i ==> manhattan(
                #[trigger] spawns@[j].0 as int,
                spawns@[j].1 as int,
                x as int,
                y as int,
            ) > 2,
        decreases spawns@.len() - i,
    {
        let (sx, sy) = spawns[i];
        let dx: u8 = if x > sx { x - sx } else { sx - x };
        let dy: u8 = if y > sy { y - sy } else { sy - y };
        if dx as u16 + dy as u16 <= 2 {
            return true;
        }
        i += 1;
    }
    false
}

/// Builds the cell array for a `width` x `height` arena with the given spawn
/// corners. Fully deterministic: every cell equals `spec_gen_cell`.
pub fn generate_grid(width: u8, height: u8, spawns: &Vec<(u8, u8)>) -> (cells: Vec<u8>)
    requires
        width >= 1,
        height >= 1,
    ensures
        cells@.len() == (width as int) * (height as int),
        forall|x: int, y: int| 0 <= x < width && 0 <= y < height
            ==> cells@[y * (width as int) + x] == spec_gen_cell(
                width as int,
                height as int,
                spawns@,
                x,
                y,
            ),
{
    proof {
        assert((width as int) * (height as int) <= 255 * 255) by (nonlinear_arith)
            requires width <= 255, height <= 255;
        assert((width as int) * (height as int) >= 1) by (nonlinear_arith)
            requires width >= 1, height >= 1;
    }
    let total: usize = (width as usize) * (height as usize);
    let w: usize = width as usize;
    let mut cells: Vec<u8> = Vec::new();
    let mut idx: usize = 0;
    while idx < total
        invariant
            cells@.len() == idx,
            idx <= total,
            total == (width as int) * (height as int),
            w == width,
            width >= 1,
            height >= 1,
            forall|j: int| 0 <= j < idx ==> cells@[j] == spec_gen_cell(
                width as int,
                height as int,
                spawns@,
                j % (width as int),
                j / (width as int),
            ),
        decreases total - idx,
    {
        let x: u8 = (idx % w) as u8;
        let y: u8 = (idx / w) as u8;
        proof {
            lemma_multiply_divide_lt(idx as int, width as int, height as int);
        }
        let cell: u8 = if x == 0 || x == width - 1 || y == 0 || y == height - 1 {
            CELL_WALL
        } else if x % 2 == 0 && y % 2 == 0 {
            CELL_WALL
        } else if is_spawn_safe_zone(spawns, x, y) {
            CELL_EMPTY
        } else {
            CELL_BLOCK
        };
        cells.push(cell);
        idx += 1;
    }
    proof {
        assert forall|x: int, y: int| 0 <= x < width && 0 <= y < height
            implies cells@[y * (width as int) + x] == spec_gen_cell(
                width as int,
                height as int,
                spawns@,
                x,
                y,
            ) by {
            let wi: int = width as int;
            lemma_mul_inequality(y, height as int - 1, wi);
            assert((height as int - 1) * wi + wi == (height as int) * wi) by (nonlinear_arith);
            assert(y * wi >= 0) by (nonlinear_arith)
                requires y >= 0, wi >= 0;
            lemma_fundamental_div_mod_converse(y * wi + x, wi, y, x);
        }
    }
    cells
}

/// Law: properties of every generated cell. Border cells and even-parity
/// interior cells are always walls; an interior, off-parity cell within
/// Manhattan distance 2 of a spawn corner is always empty, never a wall or a
/// block. (A spawn-adjacent cell that is itself on the border or on an
/// even-parity pillar stays a wall: walls take precedence.)
pub proof fn lemma_generated_cell_properties(
    width: int,
    height: int,
    spawns: Seq<(u8, u8)>,
    x: int,
    y: int,
)
    requires
        0 <= x < width,
        0 <= y < height,
    ensures
        (x == 0 || x == width - 1 || y == 0 || y == height - 1)
            ==> spec_gen_cell(width, height, spawns, x, y) == CELL_WALL,
        (x % 2 == 0 && y % 2 == 0)
            ==> spec_gen_cell(width, height, spawns, x, y) == CELL_WALL,
        (!(x == 0 || x == width - 1 || y == 0 || y == height - 1)
            && !(x % 2 == 0 && y % 2 == 0)
            && spec_spawn_safe(spawns, x, y))
            ==> spec_gen_cell(width, height, spawns, x, y) == CELL_EMPTY,
        spec_gen_cell(width, height, spawns, x, y) == CELL_WALL
            || spec_gen_cell(width, height, spawns, x, y) == CELL_EMPTY
            || spec_gen_cell(width, height, spawns, x, y) == CELL_BLOCK,
{
}

} // verus!
