//! Explosion propagation: detonating a bomb marks its cell and walks the
//! four cardinal rays outward up to the bomb's range, destroying blocks
//! (with a seeded loot roll), chaining into other bombs, and marking
//! everything else as explosion. Walls stop a ray untouched; blocks absorb
//! the blast after being destroyed.
//!
//! The per-cell outcome is pinned by `spec_cell_after_detonation` and
//! `spec_pow_after_detonation`; cells off the four rays, beyond the range,
//! or behind the first wall or block of a ray are proved unchanged.

use vstd::prelude::*;
use crate::errors::DeadmintError;
use crate::entity::{clear_expired_explosions, spec_swept};
use crate::game::{
    lemma_count_active_bounds, lemma_count_active_update, BombSlot, Game, GameView, MAX_BOMBS,
    STATUS_ACTIVE,
};
use crate::grid::{
    CELL_BLOCK, CELL_BOMB, CELL_EMPTY, CELL_EXPLOSION, CELL_LOOT, CELL_POWERUP, CELL_WALL,
    GRID_CELLS, GRID_HEIGHT, GRID_WIDTH,
};

verus! {

/// X offset of a blast direction (0 up, 1 down, 2 left, 3 right).
pub open spec fn dir_dx(d: int) -> int {
    if d == 2 {
        -1
    } else if d == 3 {
        1
    } else {
        0
    }
}

/// Y offset of a blast direction.
pub open spec fn dir_dy(d: int) -> int {
    if d == 0 {
        -1
    } else if d == 1 {
        1
    } else {
        0
    }
}

/// X coordinate `k` steps from the bomb in direction `d`.
pub open spec fn ray_x(bx: int, d: int, k: int) -> int {
    bx + dir_dx(d) * k
}

/// Y coordinate `k` steps from the bomb in direction `d`.
pub open spec fn ray_y(by: int, d: int, k: int) -> int {
    by + dir_dy(d) * k
}

/// Whether a coordinate pair lies inside the arena.
pub open spec fn spec_in_grid(x: int, y: int) -> bool {
    0 <= x < GRID_WIDTH && 0 <= y < GRID_HEIGHT
}

/// Flat index of the cell `k` steps from the bomb in direction `d`.
pub open spec fn ray_idx(bx: int, by: int, d: int, k: int) -> int {
    ray_y(by, d, k) * (GRID_WIDTH as int) + ray_x(bx, d, k)
}

/// Whether a blast passes through a cell and keeps going. Walls, blocks and
/// bombs all stop propagation.
pub open spec fn spec_passes(c: u8) -> bool {
    c != CELL_WALL && c != CELL_BLOCK && c != CELL_BOMB
}

/// Whether the blast reaches distance `k` in direction `d`: every cell at
/// distances `1 .. k-1` is inside the grid and lets the blast pass.
pub open spec fn spec_ray_clear(cells: Seq<u8>, bx: int, by: int, d: int, k: int) -> bool
    decreases k,
{
    k <= 1 || (spec_ray_clear(cells, bx, by, d, k - 1)
        && spec_in_grid(ray_x(bx, d, k - 1), ray_y(by, d, k - 1))
        && spec_passes(cells[ray_idx(bx, by, d, k - 1)]))
}

/// Whether the cell at distance `k` in direction `d` is processed by the
/// blast: within range, reached, and inside the grid.
pub open spec fn spec_affected(
    cells: Seq<u8>,
    bx: int,
    by: int,
    d: int,
    k: int,
    range: int,
) -> bool {
    1 <= k <= range && spec_ray_clear(cells, bx, by, d, k)
        && spec_in_grid(ray_x(bx, d, k), ray_y(by, d, k))
}

/// Once a ray is blocked it stays blocked at every later distance.
pub proof fn lemma_ray_clear_monotone(
    cells: Seq<u8>,
    bx: int,
    by: int,
    d: int,
    k1: int,
    k2: int,
)
    requires
        1 <= k1 <= k2,
        !spec_ray_clear(cells, bx, by, d, k1),
    ensures
        !spec_ray_clear(cells, bx, by, d, k2),
    decreases k2,
{
    if k2 > k1 {
        lemma_ray_clear_monotone(cells, bx, by, d, k1, k2 - 1);
    }
}

/// Seed byte for a loot roll: one byte of the slot counter chosen by the
/// distance, shifted by the cell index, all modulo 256. A weak, predictable
/// generator, acceptable only because the outcome is cosmetic loot flavor.
#[verifier::opaque]
pub open spec fn spec_seed_byte(slot: u64, k: int, cell_idx: int) -> int {
    (((slot >> ((8 * (k % 8)) as u64)) & 0xff) + cell_idx) % 256
}

/// Cell value after the blast processes the cell at distance `k` in
/// direction `d`: a destroyed block rolls loot (under 40), a powerup (under
/// 55) or nothing; walls stay; everything else becomes an explosion. Cells
/// the blast does not reach keep their value.
pub open spec fn spec_blast_cell(
    cells: Seq<u8>,
    bx: int,
    by: int,
    range: int,
    slot: u64,
    d: int,
    k: int,
) -> u8 {
    let i = ray_idx(bx, by, d, k);
    if spec_affected(cells, bx, by, d, k, range) && cells[i] != CELL_WALL {
        if cells[i] == CELL_BLOCK {
            let roll = spec_seed_byte(slot, k, i) % 100;
            if roll < 40 {
                CELL_LOOT
            } else if roll < 55 {
                CELL_POWERUP
            } else {
                CELL_EMPTY
            }
        } else {
            CELL_EXPLOSION
        }
    } else {
        cells[i]
    }
}

/// Powerup subtype after the blast processes the cell at distance `k` in
/// direction `d`: set only where a destroyed block rolls a powerup.
pub open spec fn spec_blast_pow(
    cells: Seq<u8>,
    pows: Seq<u8>,
    bx: int,
    by: int,
    range: int,
    slot: u64,
    d: int,
    k: int,
) -> u8 {
    let i = ray_idx(bx, by, d, k);
    if spec_affected(cells, bx, by, d, k, range) && cells[i] == CELL_BLOCK {
        let seed = spec_seed_byte(slot, k, i);
        let roll = seed % 100;
        if 40 <= roll < 55 {
            (seed % 3 + 1) as u8
        } else {
            pows[i]
        }
    } else {
        pows[i]
    }
}

/// A position on one of the four cardinal rays: its direction and distance.
pub ghost struct RayHit {
    pub d: int,
    pub k: int,
}

/// The direction and distance of a cell relative to the bomb, if the cell
/// lies on one of the four cardinal rays.
pub open spec fn spec_ray_of(bx: int, by: int, x: int, y: int) -> Option<RayHit> {
    if x == bx && (y < by) {
        Some(RayHit { d: 0, k: by - y })
    } else if x == bx && (y > by) {
        Some(RayHit { d: 1, k: y - by })
    } else if y == by && (x < bx) {
        Some(RayHit { d: 2, k: bx - x })
    } else if y == by && (x > bx) {
        Some(RayHit { d: 3, k: x - bx })
    } else {
        None
    }
}

/// Cell value of the whole grid after a detonation at `(bx, by)`: the bomb's
/// own cell becomes an explosion, ray cells transform per `spec_blast_cell`,
/// and every other cell keeps its value.
pub open spec fn spec_cell_after_detonation(
    cells: Seq<u8>,
    bx: int,
    by: int,
    range: int,
    slot: u64,
    i: int,
) -> u8 {
    let x = i % (GRID_WIDTH as int);
    let y = i / (GRID_WIDTH as int);
    if x == bx && y == by {
        CELL_EXPLOSION
    } else {
        match spec_ray_of(bx, by, x, y) {
            Some(dk) => spec_blast_cell(cells, bx, by, range, slot, dk.d, dk.k),
            None => cells[i],
        }
    }
}

/// Powerup subtype of the whole grid after a detonation.
pub open spec fn spec_pow_after_detonation(
    cells: Seq<u8>,
    pows: Seq<u8>,
    bx: int,
    by: int,
    range: int,
    slot: u64,
    i: int,
) -> u8 {
    let x = i % (GRID_WIDTH as int);
    let y = i / (GRID_WIDTH as int);
    if x == bx && y == by {
        pows[i]
    } else {
        match spec_ray_of(bx, by, x, y) {
            Some(dk) => spec_blast_pow(cells, pows, bx, by, range, slot, dk.d, dk.k),
            None => pows[i],
        }
    }
}

/// Whether the detonation marks the cell as an explosion (and reports it for
/// casualty detection): the bomb's own cell, and every reached ray cell that
/// is neither a wall nor a block.
pub open spec fn spec_marked(
    cells: Seq<u8>,
    bx: int,
    by: int,
    range: int,
    i: int,
) -> bool {
    let x = i % (GRID_WIDTH as int);
    let y = i / (GRID_WIDTH as int);
    if x == bx && y == by {
        true
    } else {
        match spec_ray_of(bx, by, x, y) {
            Some(dk) => spec_affected(cells, bx, by, dk.d, dk.k, range)
                && cells[i] != CELL_WALL && cells[i] != CELL_BLOCK,
            None => false,
        }
    }
}

/// A cell on a ray at distance `k`, with direction `d`, has a flat index
/// that maps back to its coordinates.
proof fn lemma_ray_of_inverse(bx: int, by: int, x: int, y: int)
    requires
        spec_in_grid(bx, by),
        spec_in_grid(x, y),
    ensures
        match spec_ray_of(bx, by, x, y) {
            Some(dk) => 0 <= dk.d < 4 && dk.k >= 1
                && ray_x(bx, dk.d, dk.k) == x && ray_y(by, dk.d, dk.k) == y,
            None => true,
        },
{
}

/// A ray position maps back to its own direction and distance, and is never
/// the bomb's own cell.
proof fn lemma_ray_of_position(bx: int, by: int, d: int, k: int)
    requires
        0 <= d < 4,
        k >= 1,
    ensures
        spec_ray_of(bx, by, ray_x(bx, d, k), ray_y(by, d, k)) == Some(RayHit { d: d, k: k }),
        !(ray_x(bx, d, k) == bx && ray_y(by, d, k) == by),
{
}

/// Distinct in-grid coordinate pairs have distinct flat indices.
proof fn lemma_cell_index_distinct(x1: int, y1: int, x2: int, y2: int)
    requires
        spec_in_grid(x1, y1),
        spec_in_grid(x2, y2),
        !(x1 == x2 && y1 == y2),
    ensures
        y1 * (GRID_WIDTH as int) + x1 != y2 * (GRID_WIDTH as int) + x2,
{
    if y1 * (GRID_WIDTH as int) + x1 == y2 * (GRID_WIDTH as int) + x2 {
        assert(y1 == y2);
        assert(x1 == x2);
    }
}

/// Detonates the bomb in slot `bomb_index` at `current_slot`: after the lazy
/// explosion sweep, the bomb slot is retired, the bomb's cell and every
/// reached ray cell up to the bomb's range transform per
/// `spec_cell_after_detonation`, and the indices of all cells now marked as
/// explosion are returned for casualty detection. Cells off the four rays,
/// beyond the range, or behind the first wall or block of a ray keep their
/// value. Fails without any change if the game is not active, the slot index
/// is out of range, the slot is inactive or already detonated, or the fuse
/// has not elapsed.
#[verifier::rlimit(100)]
pub fn detonate_bomb(game: &mut Game, bomb_index: u8, current_slot: u64)
    -> (r: Result<Vec<usize>, DeadmintError>)
    requires
        old(game)@.wf(),
    ensures
        final(game)@.wf(),
        r is Err ==> final(game)@ == old(game)@,
        r == Err::<Vec<usize>, DeadmintError>(DeadmintError::GameNotActive)
            <==> old(game)@.status != STATUS_ACTIVE,
        r == Err::<Vec<usize>, DeadmintError>(DeadmintError::InvalidBombIndex)
            <==> old(game)@.status == STATUS_ACTIVE && bomb_index >= MAX_BOMBS,
        r == Err::<Vec<usize>, DeadmintError>(DeadmintError::BombNotActive)
            <==> old(game)@.status == STATUS_ACTIVE && bomb_index < MAX_BOMBS
                && !old(game)@.bombs[bomb_index as int].active,
        r == Err::<Vec<usize>, DeadmintError>(DeadmintError::BombAlreadyDetonated)
            <==> old(game)@.status == STATUS_ACTIVE && bomb_index < MAX_BOMBS
                && old(game)@.bombs[bomb_index as int].active
                && old(game)@.bombs[bomb_index as int].detonated,
        r == Err::<Vec<usize>, DeadmintError>(DeadmintError::FuseNotExpired)
            <==> old(game)@.status == STATUS_ACTIVE && bomb_index < MAX_BOMBS
                && old(game)@.bombs[bomb_index as int].active
                && !old(game)@.bombs[bomb_index as int].detonated
                && current_slot < old(game)@.bombs[bomb_index as int].placed_at_slot
                    + old(game)@.bombs[bomb_index as int].fuse_slots,
        r is Ok <==> old(game)@.status == STATUS_ACTIVE && bomb_index < MAX_BOMBS
            && old(game)@.bombs[bomb_index as int].active
            && !old(game)@.bombs[bomb_index as int].detonated
            && current_slot >= old(game)@.bombs[bomb_index as int].placed_at_slot
                + old(game)@.bombs[bomb_index as int].fuse_slots,
        r matches Err(e) ==> (e == DeadmintError::GameNotActive
            || e == DeadmintError::InvalidBombIndex || e == DeadmintError::BombNotActive
            || e == DeadmintError::BombAlreadyDetonated || e == DeadmintError::FuseNotExpired),
        r matches Ok(list) ==> ({
            let bomb = old(game)@.bombs[bomb_index as int];
            let bx = bomb.x as int;
            let by = bomb.y as int;
            let range = bomb.range as int;
            let sc = spec_swept(old(game)@.cells, old(game)@.last_detonate_slot, current_slot);
            let sp = old(game)@.powerup_types;
            &&& final(game)@ == (GameView {
                cells: final(game)@.cells,
                powerup_types: final(game)@.powerup_types,
                bombs: old(game)@.bombs.update(bomb_index as int, BombSlot {
                    active: false,
                    detonated: true,
                    ..bomb
                }),
                bomb_count: (old(game)@.bomb_count - 1) as u8,
                last_detonate_slot: current_slot,
                ..old(game)@
            })
            &&& final(game)@.cells.len() == GRID_CELLS
            &&& final(game)@.powerup_types.len() == GRID_CELLS
            &&& forall|i: int| 0 <= i < GRID_CELLS ==> final(game)@.cells[i]
                == spec_cell_after_detonation(sc, bx, by, range, current_slot, i)
            &&& forall|i: int| 0 <= i < GRID_CELLS ==> final(game)@.powerup_types[i]
                == spec_pow_after_detonation(sc, sp, bx, by, range, current_slot, i)
            &&& forall|j: int| 0 <= j < list@.len() ==> #[trigger] list@[j] < GRID_CELLS
                && spec_marked(sc, bx, by, range, list@[j] as int)
            &&& forall|i: int| 0 <= i < GRID_CELLS && spec_marked(sc, bx, by, range, i)
                ==> list@.contains(i as usize)
        }),
{
    if game.status != STATUS_ACTIVE {
        return Err(DeadmintError::GameNotActive);
    }
    if bomb_index as usize >= MAX_BOMBS {
        return Err(DeadmintError::InvalidBombIndex);
    }
    let bi = bomb_index as usize;
    let bomb = game.bombs[bi];
    if !bomb.active {
        return Err(DeadmintError::BombNotActive);
    }
    if bomb.detonated {
        return Err(DeadmintError::BombAlreadyDetonated);
    }
    let fuse_elapsed = match bomb.placed_at_slot.checked_add(bomb.fuse_slots as u64) {
        Some(gate) => current_slot >= gate,
        None => false,
    };
    if !fuse_elapsed {
        return Err(DeadmintError::FuseNotExpired);
    }

    clear_expired_explosions(game, current_slot);
    let ghost sc = game@.cells;
    let ghost sp = game@.powerup_types;

    // Retire the bomb slot and stamp the detonation.
    proof {
        lemma_count_active_update(game.bombs@, bi as int, BombSlot {
            active: false,
            detonated: true,
            ..bomb
        });
        lemma_count_active_bounds(game.bombs@.update(bi as int, BombSlot {
            active: false,
            detonated: true,
            ..bomb
        }));
    }
    game.bombs[bi] = BombSlot {
        active: false,
        owner: bomb.owner,
        x: bomb.x,
        y: bomb.y,
        range: bomb.range,
        fuse_slots: bomb.fuse_slots,
        placed_at_slot: bomb.placed_at_slot,
        detonated: true,
    };
    game.bomb_count = game.bomb_count - 1;
    game.last_detonate_slot = current_slot;

    let bx: usize = bomb.x as usize;
    let by: usize = bomb.y as usize;
    let range: usize = bomb.range as usize;
    let ghost bxi: int = bx as int;
    let ghost byi: int = by as int;
    let ghost rgi: int = range as int;

    let center: usize = by * (GRID_WIDTH as usize) + bx;
    game.cells[center] = CELL_EXPLOSION;
    let mut explosion_cells: Vec<usize> = Vec::new();
    explosion_cells.push(center);

    let ghost g1 = game@;

    proof {
        vstd::arithmetic::div_mod::lemma_fundamental_div_mod_converse(
            center as int, GRID_WIDTH as int, byi, bxi,
        );
        assert(spec_marked(sc, bxi, byi, rgi, center as int));
        assert(explosion_cells@.contains(center)) by {
            assert(explosion_cells@[0] == center);
        }
        assert forall|dd: int, k: int| 0 <= dd < 4 && 1 <= k
            && spec_in_grid(ray_x(bxi, dd, k), ray_y(byi, dd, k))
            implies #[trigger] ray_idx(bxi, byi, dd, k) != center as int
                && 0 <= ray_idx(bxi, byi, dd, k) < GRID_CELLS by {
            lemma_ray_of_position(bxi, byi, dd, k);
            lemma_cell_index_distinct(
                ray_x(bxi, dd, k), ray_y(byi, dd, k), bxi, byi,
            );
        }
    }

    let mut d: usize = 0;
    while d < 4
        invariant
            d <= 4,
            bx < GRID_WIDTH as usize,
            by < GRID_HEIGHT as usize,
            bxi == bx as int,
            byi == by as int,
            rgi == range as int,
            center == by * (GRID_WIDTH as usize) + bx,
            sc.len() == GRID_CELLS,
            sp.len() == GRID_CELLS,
            game.cells@.len() == GRID_CELLS,
            game.powerup_types@.len() == GRID_CELLS,
            game@ == (GameView {
                cells: game@.cells,
                powerup_types: game@.powerup_types,
                ..g1
            }),
            game.cells@[center as int] == CELL_EXPLOSION,
            game.powerup_types@[center as int] == sp[center as int],
            forall|dd: int, k: int| 0 <= dd < 4 && 1 <= k
                && spec_in_grid(ray_x(bxi, dd, k), ray_y(byi, dd, k))
                ==> game.cells@[#[trigger] ray_idx(bxi, byi, dd, k)] == (if dd < d {
                    spec_blast_cell(sc, bxi, byi, rgi, current_slot, dd, k)
                } else {
                    sc[ray_idx(bxi, byi, dd, k)]
                }),
            forall|dd: int, k: int| 0 <= dd < 4 && 1 <= k
                && spec_in_grid(ray_x(bxi, dd, k), ray_y(byi, dd, k))
                ==> game.powerup_types@[#[trigger] ray_idx(bxi, byi, dd, k)] == (if dd < d {
                    spec_blast_pow(sc, sp, bxi, byi, rgi, current_slot, dd, k)
                } else {
                    sp[ray_idx(bxi, byi, dd, k)]
                }),
            forall|i: int| 0 <= i < GRID_CELLS && i != center as int
                && spec_ray_of(bxi, byi, i % (GRID_WIDTH as int), i / (GRID_WIDTH as int)) is None
                ==> game.cells@[i] == sc[i] && game.powerup_types@[i] == sp[i],
            explosion_cells@.contains(center),
            forall|j: int| 0 <= j < explosion_cells@.len() ==> #[trigger] explosion_cells@[j]
                < GRID_CELLS
                && spec_marked(sc, bxi, byi, rgi, explosion_cells@[j] as int),
            forall|dd: int, k: int| 0 <= dd < d && 1 <= k
                && spec_in_grid(ray_x(bxi, dd, k), ray_y(byi, dd, k))
                && spec_affected(sc, bxi, byi, dd, k, rgi)
                && sc[ray_idx(bxi, byi, dd, k)] != CELL_WALL
                && sc[ray_idx(bxi, byi, dd, k)] != CELL_BLOCK
                ==> explosion_cells@.contains(#[trigger] ray_idx(bxi, byi, dd, k) as usize),
        decreases 4 - d,
    {
        let ghost di: int = d as int;
        let mut dist: usize = 1;
        let mut stopped: bool = false;
        while dist <= range && !stopped
            invariant
                d < 4,
                di == d as int,
                1 <= dist,
                dist <= range + 1,
                bx < GRID_WIDTH as usize,
                by < GRID_HEIGHT as usize,
                bxi == bx as int,
                byi == by as int,
                rgi == range as int,
                center == by * (GRID_WIDTH as usize) + bx,
                sc.len() == GRID_CELLS,
                sp.len() == GRID_CELLS,
                game.cells@.len() == GRID_CELLS,
                game.powerup_types@.len() == GRID_CELLS,
                game@ == (GameView {
                    cells: game@.cells,
                    powerup_types: game@.powerup_types,
                    ..g1
                }),
                game.cells@[center as int] == CELL_EXPLOSION,
                game.powerup_types@[center as int] == sp[center as int],
                forall|dd: int, k: int| 0 <= dd < 4 && 1 <= k
                    && spec_in_grid(ray_x(bxi, dd, k), ray_y(byi, dd, k))
                    ==> game.cells@[#[trigger] ray_idx(bxi, byi, dd, k)] == (
                        if dd < di || (dd == di && k < dist) {
                            spec_blast_cell(sc, bxi, byi, rgi, current_slot, dd, k)
                        } else {
                            sc[ray_idx(bxi, byi, dd, k)]
                        }),
                forall|dd: int, k: int| 0 <= dd < 4 && 1 <= k
                    && spec_in_grid(ray_x(bxi, dd, k), ray_y(byi, dd, k))
                    ==> game.powerup_types@[#[trigger] ray_idx(bxi, byi, dd, k)] == (
                        if dd < di || (dd == di && k < dist) {
                            spec_blast_pow(sc, sp, bxi, byi, rgi, current_slot, dd, k)
                        } else {
                            sp[ray_idx(bxi, byi, dd, k)]
                        }),
                forall|i: int| 0 <= i < GRID_CELLS && i != center as int
                    && spec_ray_of(bxi, byi, i % (GRID_WIDTH as int), i / (GRID_WIDTH as int))
                        is None
                    ==> game.cells@[i] == sc[i] && game.powerup_types@[i] == sp[i],
                explosion_cells@.contains(center),
                forall|j: int| 0 <= j < explosion_cells@.len() ==> #[trigger] explosion_cells@[j]
                    < GRID_CELLS
                    && spec_marked(sc, bxi, byi, rgi, explosion_cells@[j] as int),
                forall|dd: int, k: int| (0 <= dd < di || (dd == di && 1 <= k < dist)) && 1 <= k
                    && spec_in_grid(ray_x(bxi, dd, k), ray_y(byi, dd, k))
                    && spec_affected(sc, bxi, byi, dd, k, rgi)
                    && sc[ray_idx(bxi, byi, dd, k)] != CELL_WALL
                    && sc[ray_idx(bxi, byi, dd, k)] != CELL_BLOCK
                    ==> explosion_cells@.contains(#[trigger] ray_idx(bxi, byi, dd, k) as usize),
                !stopped ==> spec_ray_clear(sc, bxi, byi, di, dist as int),
                stopped ==> !spec_ray_clear(sc, bxi, byi, di, dist as int),
            decreases range + 1 - dist,
        {
            let ghost ki: int = dist as int;
            // Compute the position `dist` steps out, or mark it out of bounds.
            let mut oob = false;
            let mut nx: usize = 0;
            let mut ny: usize = 0;
            if d == 0 {
                proof {
                    assert(ray_x(bxi, 0, ki) == bxi && ray_y(byi, 0, ki) == byi - ki);
                }
                if by >= dist {
                    nx = bx;
                    ny = by - dist;
                } else {
                    oob = true;
                }
            } else if d == 1 {
                proof {
                    assert(ray_x(bxi, 1, ki) == bxi && ray_y(byi, 1, ki) == byi + ki);
                }
                if by + dist < GRID_HEIGHT as usize {
                    nx = bx;
                    ny = by + dist;
                } else {
                    oob = true;
                }
            } else if d == 2 {
                proof {
                    assert(ray_x(bxi, 2, ki) == bxi - ki && ray_y(byi, 2, ki) == byi);
                }
                if bx >= dist {
                    nx = bx - dist;
                    ny = by;
                } else {
                    oob = true;
                }
            } else {
                proof {
                    assert(ray_x(bxi, 3, ki) == bxi + ki && ray_y(byi, 3, ki) == byi);
                }
                if bx + dist < GRID_WIDTH as usize {
                    nx = bx + dist;
                    ny = by;
                } else {
                    oob = true;
                }
            }
            proof {
                assert(oob <==> !spec_in_grid(ray_x(bxi, di, ki), ray_y(byi, di, ki)));
                if !oob {
                    assert(nx as int == ray_x(bxi, di, ki));
                    assert(ny as int == ray_y(byi, di, ki));
                }
            }
            if oob {
                stopped = true;
                proof {
                    assert(!spec_ray_clear(sc, bxi, byi, di, ki + 1));
                }
            } else {
                let idx: usize = ny * (GRID_WIDTH as usize) + nx;
                proof {
                    lemma_ray_of_position(bxi, byi, di, ki);
                    assert(idx as int == ray_idx(bxi, byi, di, ki));
                    assert(game.cells@[idx as int] == sc[idx as int]);
                    vstd::arithmetic::div_mod::lemma_fundamental_div_mod_converse(
                        idx as int, GRID_WIDTH as int, ny as int, nx as int,
                    );
                    // The cell being written is distinct from every other
                    // tracked cell: the center, other ray cells, and off-ray
                    // cells.
                    lemma_cell_index_distinct(nx as int, ny as int, bxi, byi);
                    assert(idx != center);
                    assert forall|dd: int, k: int| 0 <= dd < 4 && 1 <= k
                        && spec_in_grid(ray_x(bxi, dd, k), ray_y(byi, dd, k))
                        && !(dd == di && k == ki)
                        implies #[trigger] ray_idx(bxi, byi, dd, k) != idx as int by {
                        lemma_ray_of_position(bxi, byi, dd, k);
                        if ray_x(bxi, dd, k) == ray_x(bxi, di, ki)
                            && ray_y(byi, dd, k) == ray_y(byi, di, ki) {
                            assert(Some(RayHit { d: dd, k: k })
                                == Some(RayHit { d: di, k: ki }));
                            assert(false);
                        } else {
                            lemma_cell_index_distinct(
                                ray_x(bxi, dd, k), ray_y(byi, dd, k),
                                ray_x(bxi, di, ki), ray_y(byi, di, ki),
                            );
                        }
                    }
                }
                let ghost old_list = explosion_cells@;
                let cell = game.cells[idx];
                if cell == CELL_WALL {
                    stopped = true;
                    proof {
                        assert(!spec_ray_clear(sc, bxi, byi, di, ki + 1));
                        assert(spec_blast_cell(sc, bxi, byi, rgi, current_slot, di, ki)
                            == sc[idx as int]);
                        assert(spec_blast_pow(sc, sp, bxi, byi, rgi, current_slot, di, ki)
                            == sp[idx as int]);
                    }
                } else if cell == CELL_BLOCK {
                    let kk: usize = dist % 8;
                    let sh: u64 = 8 * (kk as u64);
                    let byte: u64 = (current_slot >> sh) & 0xff;
                    proof {
                        assert((current_slot >> sh) & 0xff <= 0xff) by (bit_vector);
                    }
                    let seed_val: u64 = (byte + idx as u64) % 256;
                    let roll: u64 = seed_val % 100;
                    proof {
                        reveal(spec_seed_byte);
                        assert(seed_val as int == spec_seed_byte(current_slot, ki, idx as int));
                    }
                    if roll < 40 {
                        game.cells[idx] = CELL_LOOT;
                    } else if roll < 55 {
                        game.cells[idx] = CELL_POWERUP;
                        game.powerup_types[idx] = (seed_val % 3) as u8 + 1;
                    } else {
                        game.cells[idx] = CELL_EMPTY;
                    }
                    stopped = true;
                    proof {
                        assert(!spec_ray_clear(sc, bxi, byi, di, ki + 1));
                        assert(game.cells@[idx as int]
                            == spec_blast_cell(sc, bxi, byi, rgi, current_slot, di, ki));
                        assert(game.powerup_types@[idx as int]
                            == spec_blast_pow(sc, sp, bxi, byi, rgi, current_slot, di, ki));
                    }
                } else if cell == CELL_BOMB {
                    game.cells[idx] = CELL_EXPLOSION;
                    explosion_cells.push(idx);
                    stopped = true;
                    proof {
                        assert(!spec_ray_clear(sc, bxi, byi, di, ki + 1));
                        assert(spec_marked(sc, bxi, byi, rgi, idx as int));
                        assert(explosion_cells@.contains(idx)) by {
                            assert(explosion_cells@.last() == idx);
                        }
                        assert forall|u: usize| old_list.contains(u)
                            implies explosion_cells@.contains(u) by {
                            let j = choose|j: int| 0 <= j < old_list.len()
                                && old_list[j] == u;
                            assert(explosion_cells@[j] == u);
                        }
                    }
                } else {
                    game.cells[idx] = CELL_EXPLOSION;
                    explosion_cells.push(idx);
                    proof {
                        assert(spec_ray_clear(sc, bxi, byi, di, ki + 1));
                        assert(spec_marked(sc, bxi, byi, rgi, idx as int));
                        assert(explosion_cells@.contains(idx)) by {
                            assert(explosion_cells@.last() == idx);
                        }
                        assert forall|u: usize| old_list.contains(u)
                            implies explosion_cells@.contains(u) by {
                            let j = choose|j: int| 0 <= j < old_list.len()
                                && old_list[j] == u;
                            assert(explosion_cells@[j] == u);
                        }
                    }
                }
            }
            dist += 1;
        }
        // Every cell at or beyond the stopping distance keeps its value, so
        // the whole ray now matches the blast transform.
        proof {
            assert forall|k: int| k >= dist
                && spec_in_grid(ray_x(bxi, di, k), ray_y(byi, di, k))
                implies spec_blast_cell(sc, bxi, byi, rgi, current_slot, di, k)
                    == sc[#[trigger] ray_idx(bxi, byi, di, k)]
                    && spec_blast_pow(sc, sp, bxi, byi, rgi, current_slot, di, k)
                        == sp[ray_idx(bxi, byi, di, k)]
                    && !spec_affected(sc, bxi, byi, di, k, rgi) by {
                if stopped {
                    lemma_ray_clear_monotone(sc, bxi, byi, di, dist as int, k);
                }
            }
        }
        d += 1;
    }

    // Convert the per-ray account into the flat per-cell transform.
    proof {
        assert forall|i: int| 0 <= i < GRID_CELLS
            implies game.cells@[i]
                == spec_cell_after_detonation(sc, bxi, byi, rgi, current_slot, i)
                && game.powerup_types@[i]
                    == spec_pow_after_detonation(sc, sp, bxi, byi, rgi, current_slot, i) by {
            let x = i % (GRID_WIDTH as int);
            let y = i / (GRID_WIDTH as int);
            vstd::arithmetic::div_mod::lemma_fundamental_div_mod(i, GRID_WIDTH as int);
            vstd::arithmetic::div_mod::lemma_mod_division_less_than_divisor(i, GRID_WIDTH as int);
            assert(spec_in_grid(x, y));
            if x == bxi && y == byi {
                assert(i == center as int);
            } else {
                match spec_ray_of(bxi, byi, x, y) {
                    Some(dk) => {
                        lemma_ray_of_inverse(bxi, byi, x, y);
                        assert(ray_idx(bxi, byi, dk.d, dk.k) == i);
                    },
                    None => {
                        assert(i != center as int);
                    },
                }
            }
        }
        assert forall|i: int| 0 <= i < GRID_CELLS && spec_marked(sc, bxi, byi, rgi, i)
            implies explosion_cells@.contains(i as usize) by {
            let x = i % (GRID_WIDTH as int);
            let y = i / (GRID_WIDTH as int);
            vstd::arithmetic::div_mod::lemma_fundamental_div_mod(i, GRID_WIDTH as int);
            vstd::arithmetic::div_mod::lemma_mod_division_less_than_divisor(i, GRID_WIDTH as int);
            if x == bxi && y == byi {
                assert(i == center as int);
                assert(explosion_cells@.contains(i as usize));
            } else {
                match spec_ray_of(bxi, byi, x, y) {
                    Some(dk) => {
                        lemma_ray_of_inverse(bxi, byi, x, y);
                        assert(ray_idx(bxi, byi, dk.d, dk.k) == i);
                    },
                    None => {},
                }
            }
        }
    }
    Ok(explosion_cells)
}

/// Law: a detonation never affects cells beyond `range` steps in any
/// direction, and always stops at the first wall or block of a ray. A cell
/// off the four cardinal rays, or farther out than `range`, or behind a cell
/// that stops the blast, keeps its value exactly; a wall is never destroyed.
pub proof fn lemma_detonation_locality(
    cells: Seq<u8>,
    bx: int,
    by: int,
    range: int,
    slot: u64,
    i: int,
)
    requires
        cells.len() == GRID_CELLS,
        0 <= i < GRID_CELLS,
        spec_in_grid(bx, by),
    ensures
        ({
            let x = i % (GRID_WIDTH as int);
            let y = i / (GRID_WIDTH as int);
            let after = spec_cell_after_detonation(cells, bx, by, range, slot, i);
            &&& (!(x == bx && y == by) && spec_ray_of(bx, by, x, y) is None)
                ==> after == cells[i]
            &&& (spec_ray_of(bx, by, x, y) matches Some(dk) && dk.k > range)
                ==> after == cells[i]
            &&& (spec_ray_of(bx, by, x, y) matches Some(dk)
                && !spec_ray_clear(cells, bx, by, dk.d, dk.k))
                ==> after == cells[i]
            &&& (!(x == bx && y == by) && cells[i] == CELL_WALL)
                ==> after == cells[i]
        }),
{
    let x = i % (GRID_WIDTH as int);
    let y = i / (GRID_WIDTH as int);
    vstd::arithmetic::div_mod::lemma_fundamental_div_mod(i, GRID_WIDTH as int);
    vstd::arithmetic::div_mod::lemma_mod_division_less_than_divisor(i, GRID_WIDTH as int);
    if !(x == bx && y == by) {
        match spec_ray_of(bx, by, x, y) {
            Some(dk) => {
                lemma_ray_of_inverse(bx, by, x, y);
                assert(ray_idx(bx, by, dk.d, dk.k) == i);
            },
            None => {},
        }
    }
}

} // verus!
