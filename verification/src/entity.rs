//! Entity state machine: the lazy explosion sweep, player movement with
//! cooldown gating and pickup effects, and bomb placement.
//!
//! Each transition is specified by a functional model (`spec_move_player`,
//! `spec_place_bomb`) that pins the entire outcome, and the executable
//! function is proved equal to it. Failures leave the state untouched: the
//! walkability decision reads expired explosions as empty, but the sweep
//! itself commits only together with a successful move.

use vstd::prelude::*;
use crate::errors::DeadmintError;
use crate::game::{
    count_active, first_free_from, lemma_count_active_lt_if_inactive, lemma_count_active_update,
    BombSlot, Game, GameView, Player, BOMB_FUSE_SLOTS, EXPLOSION_DURATION_SLOTS, LOOT_FLOOR,
    MAX_BOMBS, STATUS_ACTIVE,
};
use crate::grid::{
    CELL_BOMB, CELL_EMPTY, CELL_EXPLOSION, CELL_LOOT, CELL_POWERUP, GRID_CELLS, GRID_HEIGHT,
    GRID_WIDTH, POWERUP_BOMBS, POWERUP_RANGE, POWERUP_SPEED,
};

verus! {

/// A cell an entity may step onto. Walls, blocks and bombs are not walkable.
pub open spec fn spec_walkable(c: u8) -> bool {
    c == CELL_EMPTY || c == CELL_EXPLOSION || c == CELL_LOOT || c == CELL_POWERUP
}

/// Minimum slots between accepted moves: `max(1, 2 - (speed - 1))`.
pub open spec fn spec_min_gap(speed: u8) -> int {
    if speed <= 1 {
        2
    } else {
        1
    }
}

/// Whether the anti-spam cooldown allows a move at `slot`.
pub open spec fn spec_cooldown_ok(p: Player, slot: u64) -> bool {
    p.last_move_slot == 0 || slot >= p.last_move_slot + spec_min_gap(p.speed)
}

/// X coordinate one step in `direction` (0 up, 1 down, 2 left, 3 right).
pub open spec fn spec_target_x(x: u8, direction: u8) -> int {
    if direction == 2 {
        x - 1
    } else if direction == 3 {
        x + 1
    } else {
        x as int
    }
}

/// Y coordinate one step in `direction`.
pub open spec fn spec_target_y(y: u8, direction: u8) -> int {
    if direction == 0 {
        y - 1
    } else if direction == 1 {
        y + 1
    } else {
        y as int
    }
}

/// Whether one step in `direction` stays inside the arena.
pub open spec fn spec_move_in_bounds(p: Player, direction: u8) -> bool {
    if direction == 0 {
        p.y > 0
    } else if direction == 1 {
        p.y < GRID_HEIGHT - 1
    } else if direction == 2 {
        p.x > 0
    } else {
        p.x < GRID_WIDTH - 1
    }
}

/// What the lazy sweep leaves of one cell.
pub open spec fn spec_swept_cell(c: u8) -> u8 {
    if c == CELL_EXPLOSION {
        CELL_EMPTY
    } else {
        c
    }
}

/// Whether explosions from the last detonation have expired by `slot`.
pub open spec fn spec_sweep_due(last_detonate_slot: u64, slot: u64) -> bool {
    last_detonate_slot > 0 && slot > last_detonate_slot + EXPLOSION_DURATION_SLOTS
}

/// The grid after the lazy sweep: expired explosions become empty.
pub open spec fn spec_swept(cells: Seq<u8>, last_detonate_slot: u64, slot: u64) -> Seq<u8> {
    if spec_sweep_due(last_detonate_slot, slot) {
        cells.map_values(|c: u8| spec_swept_cell(c))
    } else {
        cells
    }
}

/// Currency credited for a loot pickup: a fiftieth of the prize pool, but at
/// least the floor amount.
pub open spec fn spec_loot_amount(prize_pool: u64) -> int {
    let base = prize_pool as int / 50;
    if base > LOOT_FLOOR {
        base
    } else {
        LOOT_FLOOR as int
    }
}

/// A player after collecting the powerup of the given subtype: the matching
/// stat rises by one, capped at its own ceiling (range 5, bombs 3, speed 3).
pub open spec fn spec_apply_powerup(p: Player, ptype: u8) -> Player {
    if ptype == POWERUP_RANGE {
        Player { bomb_range: if p.bomb_range + 1 >= 5 { 5 } else { (p.bomb_range + 1) as u8 }, ..p }
    } else if ptype == POWERUP_BOMBS {
        Player { max_bombs: if p.max_bombs + 1 >= 3 { 3 } else { (p.max_bombs + 1) as u8 }, ..p }
    } else if ptype == POWERUP_SPEED {
        Player { speed: if p.speed + 1 >= 3 { 3 } else { (p.speed + 1) as u8 }, ..p }
    } else {
        p
    }
}

/// Functional model of one movement attempt: the game and player after the
/// call, and its result. A rejected move leaves game and player exactly as
/// they were; a committed move also applies the lazy explosion sweep, whose
/// cleared cells the walkability decision already saw as empty.
pub open spec fn spec_move_player(g: GameView, p: Player, direction: u8, slot: u64)
    -> (GameView, Player, Result<(), DeadmintError>)
{
    if g.status != STATUS_ACTIVE {
        (g, p, Err(DeadmintError::GameNotActive))
    } else if !p.alive {
        (g, p, Err(DeadmintError::PlayerNotAlive))
    } else if !spec_cooldown_ok(p, slot) {
        (g, p, Err(DeadmintError::MoveTooFast))
    } else if direction > 3 {
        (g, p, Err(DeadmintError::InvalidDirection))
    } else if !spec_move_in_bounds(p, direction) {
        (g, p, Err(DeadmintError::OutOfBounds))
    } else {
        let sc = spec_swept(g.cells, g.last_detonate_slot, slot);
        let g1 = GameView { cells: sc, ..g };
        let tx = spec_target_x(p.x, direction);
        let ty = spec_target_y(p.y, direction);
        let tidx = ty * (GRID_WIDTH as int) + tx;
        let cell = sc[tidx];
        let moved = Player { x: tx as u8, y: ty as u8, last_move_slot: slot, ..p };
        if cell == CELL_EMPTY {
            (g1, moved, Ok(()))
        } else if cell == CELL_EXPLOSION {
            (g1, Player { alive: false, ..moved }, Ok(()))
        } else if cell == CELL_LOOT {
            if p.collected_sol + spec_loot_amount(g.prize_pool) > u64::MAX {
                (g, p, Err(DeadmintError::MathOverflow))
            } else {
                (
                    GameView { cells: sc.update(tidx, CELL_EMPTY), ..g },
                    Player {
                        collected_sol: (p.collected_sol + spec_loot_amount(g.prize_pool)) as u64,
                        ..moved
                    },
                    Ok(()),
                )
            }
        } else if cell == CELL_POWERUP {
            (
                GameView {
                    cells: sc.update(tidx, CELL_EMPTY),
                    powerup_types: g.powerup_types.update(tidx, 0u8),
                    ..g
                },
                spec_apply_powerup(moved, g.powerup_types[tidx]),
                Ok(()),
            )
        } else {
            (g, p, Err(DeadmintError::CellNotWalkable))
        }
    }
}

/// Clears all explosion cells back to empty once the explosion duration has
/// elapsed since the last detonation; otherwise leaves the grid alone.
pub fn clear_expired_explosions(game: &mut Game, current_slot: u64)
    requires
        old(game)@.wf(),
    ensures
        final(game)@ == (GameView {
            cells: spec_swept(old(game)@.cells, old(game)@.last_detonate_slot, current_slot),
            ..old(game)@
        }),
        final(game)@.wf(),
{
    let due: bool = if game.last_detonate_slot > 0 {
        match game.last_detonate_slot.checked_add(EXPLOSION_DURATION_SLOTS) {
            Some(v) => current_slot > v,
            None => false,
        }
    } else {
        false
    };
    proof {
        assert(due == spec_sweep_due(game.last_detonate_slot, current_slot));
    }
    if due {
        let mut i: usize = 0;
        while i < GRID_CELLS
            invariant
                i <= GRID_CELLS,
                game.cells@.len() == GRID_CELLS,
                game.game_id == old(game).game_id,
                game.authority == old(game).authority,
                game.max_players == old(game).max_players,
                game.current_players == old(game).current_players,
                game.entry_fee == old(game).entry_fee,
                game.prize_pool == old(game).prize_pool,
                game.status == old(game).status,
                game.winner == old(game).winner,
                game.created_at == old(game).created_at,
                game.started_at == old(game).started_at,
                game.round_duration == old(game).round_duration,
                game.platform_fee_bps == old(game).platform_fee_bps,
                game.powerup_types@ == old(game).powerup_types@,
                game.bombs@ == old(game).bombs@,
                game.bomb_count == old(game).bomb_count,
                game.last_detonate_slot == old(game).last_detonate_slot,
                old(game)@.wf(),
                forall|j: int| 0 <= j < i
                    ==> game.cells@[j] == spec_swept_cell(#[trigger] old(game).cells@[j]),
                forall|j: int| i <= j < GRID_CELLS
                    ==> game.cells@[j] == #[trigger] old(game).cells@[j],
            decreases GRID_CELLS - i,
        {
            if game.cells[i] == CELL_EXPLOSION {
                game.cells[i] = CELL_EMPTY;
            }
            i += 1;
        }
        proof {
            assert(game.cells@ =~= old(game).cells@.map_values(|c: u8| spec_swept_cell(c)));
            assert(game@ =~= (GameView {
                cells: spec_swept(old(game)@.cells, old(game)@.last_detonate_slot, current_slot),
                ..old(game)@
            }));
        }
    } else {
        proof {
            assert(game@ =~= (GameView {
                cells: spec_swept(old(game)@.cells, old(game)@.last_detonate_slot, current_slot),
                ..old(game)@
            }));
        }
    }
}

/// Moves a player one cell in `direction` at `current_slot` and runs the
/// lazy explosion sweep together with the committed move. Applies the target
/// cell's effect: empty cells just move, explosions kill (the move still
/// commits), loot credits currency, powerups raise the matching stat; walls,
/// blocks and bombs reject the move with game and player unchanged. The
/// whole outcome equals the functional model `spec_move_player`.
pub fn move_player(game: &mut Game, player: &mut Player, direction: u8, current_slot: u64)
    -> (r: Result<(), DeadmintError>)
    requires
        old(game)@.wf(),
        old(player).wf(),
    ensures
        final(game)@.wf(),
        final(player).wf(),
        (final(game)@, *final(player), r)
            == spec_move_player(old(game)@, *old(player), direction, current_slot),
{
    if game.status != STATUS_ACTIVE {
        return Err(DeadmintError::GameNotActive);
    }
    if !player.alive {
        return Err(DeadmintError::PlayerNotAlive);
    }
    // Anti-spam gate: minimum slot gap derived from the speed stat.
    let gap: u64 = if player.speed <= 1 {
        2
    } else {
        1
    };
    if player.last_move_slot > 0 {
        let allowed = match player.last_move_slot.checked_add(gap) {
            Some(gate) => current_slot >= gate,
            None => false,
        };
        if !allowed {
            return Err(DeadmintError::MoveTooFast);
        }
    }
    if direction > 3 {
        return Err(DeadmintError::InvalidDirection);
    }
    let in_bounds = if direction == 0 {
        player.y > 0
    } else if direction == 1 {
        player.y < GRID_HEIGHT - 1
    } else if direction == 2 {
        player.x > 0
    } else {
        player.x < GRID_WIDTH - 1
    };
    if !in_bounds {
        return Err(DeadmintError::OutOfBounds);
    }
    let new_x: u8 = if direction == 2 {
        player.x - 1
    } else if direction == 3 {
        player.x + 1
    } else {
        player.x
    };
    let new_y: u8 = if direction == 0 {
        player.y - 1
    } else if direction == 1 {
        player.y + 1
    } else {
        player.y
    };
    let idx = game.cell_idx(new_x, new_y);
    // Read the target cell through the sweep: an expired explosion counts as
    // empty for the walkability decision, but the sweep itself commits only
    // together with a successful move.
    let due: bool = if game.last_detonate_slot > 0 {
        match game.last_detonate_slot.checked_add(EXPLOSION_DURATION_SLOTS) {
            Some(v) => current_slot > v,
            None => false,
        }
    } else {
        false
    };
    let raw = game.cells[idx];
    let cell: u8 = if due && raw == CELL_EXPLOSION {
        CELL_EMPTY
    } else {
        raw
    };
    proof {
        assert(due == spec_sweep_due(game.last_detonate_slot, current_slot));
        assert(cell == spec_swept(game@.cells, game@.last_detonate_slot, current_slot)[
            idx as int
        ]);
    }
    if cell == CELL_EMPTY {
        clear_expired_explosions(game, current_slot);
    } else if cell == CELL_EXPLOSION {
        clear_expired_explosions(game, current_slot);
        player.alive = false;
    } else if cell == CELL_LOOT {
        let base = game.prize_pool / 50;
        let loot_amount: u64 = if base > LOOT_FLOOR {
            base
        } else {
            LOOT_FLOOR
        };
        let credited = match player.collected_sol.checked_add(loot_amount) {
            Some(v) => v,
            None => {
                return Err(DeadmintError::MathOverflow);
            },
        };
        clear_expired_explosions(game, current_slot);
        player.collected_sol = credited;
        game.cells[idx] = CELL_EMPTY;
    } else if cell == CELL_POWERUP {
        let ptype = game.powerup_types[idx];
        clear_expired_explosions(game, current_slot);
        if ptype == POWERUP_RANGE {
            if player.bomb_range >= 4 {
                player.bomb_range = 5;
            } else {
                player.bomb_range = player.bomb_range + 1;
            }
        } else if ptype == POWERUP_BOMBS {
            if player.max_bombs >= 2 {
                player.max_bombs = 3;
            } else {
                player.max_bombs = player.max_bombs + 1;
            }
        } else if ptype == POWERUP_SPEED {
            if player.speed >= 2 {
                player.speed = 3;
            } else {
                player.speed = player.speed + 1;
            }
        }
        game.powerup_types[idx] = 0;
        game.cells[idx] = CELL_EMPTY;
    } else {
        // Wall, block or bomb: not walkable, nothing changes.
        return Err(DeadmintError::CellNotWalkable);
    }
    player.x = new_x;
    player.y = new_y;
    player.last_move_slot = current_slot;
    Ok(())
}

/// Law: movement never places an entity on a wall, block or bomb. An
/// accepted move lands on a walkable cell of the swept grid and stamps the
/// move slot; a rejected move leaves both the player's record and the whole
/// game unchanged.
pub proof fn lemma_move_never_lands_on_unwalkable(
    g: GameView,
    p: Player,
    direction: u8,
    slot: u64,
)
    ensures
        ({
            let (g2, p2, r) = spec_move_player(g, p, direction, slot);
            &&& r is Ok ==> spec_walkable(
                spec_swept(g.cells, g.last_detonate_slot, slot)[
                    p2.y * (GRID_WIDTH as int) + p2.x
                ],
            ) && p2.x == spec_target_x(p.x, direction) && p2.y == spec_target_y(p.y, direction)
                && p2.last_move_slot == slot
            &&& r is Err ==> p2 == p && g2 == g
        }),
{
}

/// Functional model of a bomb placement: the game and player after the call,
/// and its result. The bomb takes the first free slot by scan order; the
/// player's cell must be walkable and hazard-free (empty, loot or powerup).
pub open spec fn spec_place_bomb(g: GameView, p: Player, slot: u64)
    -> (GameView, Player, Result<(), DeadmintError>)
{
    if g.status != STATUS_ACTIVE {
        (g, p, Err(DeadmintError::GameNotActive))
    } else if !p.alive {
        (g, p, Err(DeadmintError::PlayerNotAlive))
    } else if p.active_bombs >= p.max_bombs {
        (g, p, Err(DeadmintError::NoBombsAvailable))
    } else {
        let idx = p.y * (GRID_WIDTH as int) + p.x;
        let cell = g.cells[idx];
        if !(cell == CELL_EMPTY || cell == CELL_LOOT || cell == CELL_POWERUP) {
            (g, p, Err(DeadmintError::CellOccupied))
        } else {
            match first_free_from(g.bombs, 0) {
                None => (g, p, Err(DeadmintError::BombSlotsFull)),
                Some(si) => (
                    GameView {
                        cells: g.cells.update(idx, CELL_BOMB),
                        bombs: g.bombs.update(si, BombSlot {
                            active: true,
                            owner: p.authority,
                            x: p.x,
                            y: p.y,
                            range: p.bomb_range,
                            fuse_slots: BOMB_FUSE_SLOTS,
                            placed_at_slot: slot,
                            detonated: false,
                        }),
                        bomb_count: (g.bomb_count + 1) as u8,
                        ..g
                    },
                    Player { active_bombs: (p.active_bombs + 1) as u8, ..p },
                    Ok(()),
                ),
            }
        }
    }
}

/// Places a bomb on the player's current cell: the cell becomes a bomb, the
/// first free bomb slot records position, the player's range stat and the
/// fixed fuse, and both occupancy counters rise by one. Fails without any
/// change if the game is not active, the player is dead or out of bombs, the
/// cell is occupied, or no slot is free. The whole outcome equals the
/// functional model `spec_place_bomb`.
pub fn place_bomb(game: &mut Game, player: &mut Player, current_slot: u64)
    -> (r: Result<(), DeadmintError>)
    requires
        old(game)@.wf(),
        old(player).wf(),
    ensures
        final(game)@.wf(),
        final(player).wf(),
        (final(game)@, *final(player), r)
            == spec_place_bomb(old(game)@, *old(player), current_slot),
{
    if game.status != STATUS_ACTIVE {
        return Err(DeadmintError::GameNotActive);
    }
    if !player.alive {
        return Err(DeadmintError::PlayerNotAlive);
    }
    if player.active_bombs >= player.max_bombs {
        return Err(DeadmintError::NoBombsAvailable);
    }
    let idx = game.cell_idx(player.x, player.y);
    let cell = game.cells[idx];
    if !(cell == CELL_EMPTY || cell == CELL_LOOT || cell == CELL_POWERUP) {
        return Err(DeadmintError::CellOccupied);
    }
    let slot_idx = match game.find_free_bomb_slot() {
        Some(i) => i,
        None => {
            return Err(DeadmintError::BombSlotsFull);
        },
    };
    proof {
        lemma_count_active_lt_if_inactive(game.bombs@, slot_idx as int);
        lemma_count_active_update(game.bombs@, slot_idx as int, BombSlot {
            active: true,
            owner: player.authority,
            x: player.x,
            y: player.y,
            range: player.bomb_range,
            fuse_slots: BOMB_FUSE_SLOTS,
            placed_at_slot: current_slot,
            detonated: false,
        });
    }
    game.cells[idx] = CELL_BOMB;
    game.bombs[slot_idx] = BombSlot {
        active: true,
        owner: player.authority,
        x: player.x,
        y: player.y,
        range: player.bomb_range,
        fuse_slots: BOMB_FUSE_SLOTS,
        placed_at_slot: current_slot,
        detonated: false,
    };
    game.bomb_count = game.bomb_count + 1;
    player.active_bombs = player.active_bombs + 1;
    Ok(())
}

} // verus!
