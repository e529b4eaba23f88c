//! Bomb-arena game state: the match record, player records, bomb slots, and
//! the transitions that create a game and admit players.
//!
//! A `Game` embeds the grid cells, the parallel powerup-subtype array and a
//! fixed arena of bomb slots with explicit occupancy tracking. Players are
//! separate records keyed by an authority id. The host authenticates callers
//! and moves funds; every function here is a pure state transition.

use vstd::prelude::*;
use crate::errors::DeadmintError;
use crate::grid::{generate_grid, spec_gen_cell, GRID_CELLS, GRID_HEIGHT, GRID_WIDTH};

verus! {

/// Waiting for players.
pub const STATUS_LOBBY: u8 = 0;
/// Match running.
pub const STATUS_ACTIVE: u8 = 1;
/// Match over; prize claimable.
pub const STATUS_FINISHED: u8 = 2;
/// Prize paid out.
pub const STATUS_CLAIMED: u8 = 3;

/// Bomb slots per game: 4 players x 3 bombs each.
pub const MAX_BOMBS: usize = 12;
/// Slots an explosion stays on the grid before the lazy sweep clears it.
pub const EXPLOSION_DURATION_SLOTS: u64 = 5;
/// Fuse of a freshly placed bomb, in slots.
pub const BOMB_FUSE_SLOTS: u8 = 8;
/// Smallest currency credit for picking up loot.
pub const LOOT_FLOOR: u64 = 1000;
/// Players a game can hold at most (one per spawn corner).
pub const MAX_PLAYERS: u8 = 4;

/// The four spawn corners, in join order.
pub open spec fn spawn_positions() -> Seq<(u8, u8)> {
    seq![(1u8, 1u8), (11u8, 1u8), (1u8, 9u8), (11u8, 9u8)]
}

/// Spawn corner for the player with the given join index.
pub fn spawn_position(index: u8) -> (p: (u8, u8))
    requires
        index < MAX_PLAYERS,
    ensures
        p == spawn_positions()[index as int],
{
    if index == 0 {
        (1, 1)
    } else if index == 1 {
        (11, 1)
    } else if index == 2 {
        (1, 9)
    } else {
        (11, 9)
    }
}

/// One slot of the fixed bomb arena.
#[derive(Clone, Copy, Debug, PartialEq, Eq, Structural)]
pub struct BombSlot {
    /// Slot in use: bomb placed and not yet detonated.
    pub active: bool,
    /// Authority id of the player who placed it.
    pub owner: u64,
    pub x: u8,
    pub y: u8,
    /// Blast range in cells per direction.
    pub range: u8,
    /// Slots the fuse burns before detonation is allowed.
    pub fuse_slots: u8,
    /// Slot at which the bomb was placed.
    pub placed_at_slot: u64,
    /// Set once, when the bomb goes off.
    pub detonated: bool,
}

impl BombSlot {
    /// An unused slot.
    pub fn inactive() -> (b: BombSlot)
        ensures
            b == (BombSlot {
                active: false,
                owner: 0,
                x: 0,
                y: 0,
                range: 0,
                fuse_slots: 0,
                placed_at_slot: 0,
                detonated: false,
            }),
    {
        BombSlot {
            active: false,
            owner: 0,
            x: 0,
            y: 0,
            range: 0,
            fuse_slots: 0,
            placed_at_slot: 0,
            detonated: false,
        }
    }
}

/// A player of the arena game. All fields are plain values; the record is
/// compared and copied structurally.
#[derive(Clone, Copy, Debug, PartialEq, Eq, Structural)]
pub struct Player {
    /// Authority id the host authenticated for this player.
    pub authority: u64,
    /// Join order, also the spawn-corner index.
    pub player_index: u8,
    pub x: u8,
    pub y: u8,
    pub alive: bool,
    /// Currency collected from loot cells.
    pub collected_sol: u64,
    /// Entry fee this player staked.
    pub wager: u64,
    /// Blast range of bombs this player places.
    pub bomb_range: u8,
    /// How many bombs may be active at once.
    pub max_bombs: u8,
    /// Bombs currently active.
    pub active_bombs: u8,
    /// Movement speed stat; shortens the move cooldown.
    pub speed: u8,
    /// Slot of the last accepted move; 0 means never moved.
    pub last_move_slot: u64,
    pub kills: u8,
}

impl Player {
    /// Position stays inside the standard arena.
    pub open spec fn wf(&self) -> bool {
        &&& self.x < GRID_WIDTH
        &&& self.y < GRID_HEIGHT
    }
}

/// Ghost mirror of a `Game`: the grid arrays as sequences plus the scalar
/// fields. All contracts about games speak of this view.
pub ghost struct GameView {
    pub game_id: u64,
    pub authority: u64,
    pub max_players: u8,
    pub current_players: u8,
    pub entry_fee: u64,
    pub prize_pool: u64,
    pub status: u8,
    pub winner: Option<u64>,
    pub created_at: i64,
    pub started_at: i64,
    pub round_duration: u16,
    pub platform_fee_bps: u16,
    pub cells: Seq<u8>,
    pub powerup_types: Seq<u8>,
    pub bombs: Seq<BombSlot>,
    pub bomb_count: u8,
    pub last_detonate_slot: u64,
}

/// State of one arena match, including its embedded grid and bomb slots.
#[derive(Debug)]
pub struct Game {
    /// Host-chosen identifier of this match.
    pub game_id: u64,
    /// Authority id of the creator.
    pub authority: u64,
    pub max_players: u8,
    pub current_players: u8,
    /// Entry fee each joining player stakes.
    pub entry_fee: u64,
    /// Accumulated entry fees; zeroed once on claim.
    pub prize_pool: u64,
    pub status: u8,
    /// Authority id of the winner, if decided.
    pub winner: Option<u64>,
    pub created_at: i64,
    pub started_at: i64,
    /// Time limit in seconds; 0 means no limit.
    pub round_duration: u16,
    pub platform_fee_bps: u16,
    /// Cell tags, indexed by `y * GRID_WIDTH + x`.
    pub cells: Vec<u8>,
    /// Powerup subtype per cell; meaningful only where the cell is a powerup.
    pub powerup_types: Vec<u8>,
    /// Fixed bomb arena.
    pub bombs: Vec<BombSlot>,
    /// Occupancy of the bomb arena: number of active slots.
    pub bomb_count: u8,
    /// Slot of the most recent detonation; 0 means none yet.
    pub last_detonate_slot: u64,
}

impl View for Game {
    type V = GameView;

    open spec fn view(&self) -> GameView {
        GameView {
            game_id: self.game_id,
            authority: self.authority,
            max_players: self.max_players,
            current_players: self.current_players,
            entry_fee: self.entry_fee,
            prize_pool: self.prize_pool,
            status: self.status,
            winner: self.winner,
            created_at: self.created_at,
            started_at: self.started_at,
            round_duration: self.round_duration,
            platform_fee_bps: self.platform_fee_bps,
            cells: self.cells@,
            powerup_types: self.powerup_types@,
            bombs: self.bombs@,
            bomb_count: self.bomb_count,
            last_detonate_slot: self.last_detonate_slot,
        }
    }
}

/// Number of active slots in a bomb arena.
pub open spec fn count_active(bombs: Seq<BombSlot>) -> int
    decreases bombs.len(),
{
    if bombs.len() == 0 {
        0
    } else {
        count_active(bombs.drop_last()) + if bombs.last().active { 1int } else { 0int }
    }
}

/// An all-inactive arena has no occupancy.
pub proof fn lemma_count_active_all_inactive(bombs: Seq<BombSlot>)
    requires
        forall|i: int| 0 <= i < bombs.len() ==> !(#[trigger] bombs[i]).active,
    ensures
        count_active(bombs) == 0,
    decreases bombs.len(),
{
    if bombs.len() > 0 {
        lemma_count_active_all_inactive(bombs.drop_last());
    }
}

/// Updating one slot moves the occupancy count by the activity difference.
pub proof fn lemma_count_active_update(bombs: Seq<BombSlot>, i: int, b: BombSlot)
    requires
        0 <= i < bombs.len(),
    ensures
        count_active(bombs.update(i, b)) == count_active(bombs)
            - (if bombs[i].active { 1int } else { 0int })
            + (if b.active { 1int } else { 0int }),
    decreases bombs.len(),
{
    let updated = bombs.update(i, b);
    if i == bombs.len() - 1 {
        assert(updated.drop_last() =~= bombs.drop_last());
    } else {
        assert(updated.drop_last() =~= bombs.drop_last().update(i, b));
        lemma_count_active_update(bombs.drop_last(), i, b);
    }
}

/// Occupancy never exceeds the arena size.
pub proof fn lemma_count_active_bounds(bombs: Seq<BombSlot>)
    ensures
        0 <= count_active(bombs) <= bombs.len(),
    decreases bombs.len(),
{
    if bombs.len() > 0 {
        lemma_count_active_bounds(bombs.drop_last());
    }
}

impl GameView {
    /// Well-formedness: the arrays have their fixed sizes, the occupancy
    /// counter matches the active slots, and the configuration respects the
    /// caps the rest of the engine relies on.
    pub open spec fn wf(&self) -> bool {
        &&& self.cells.len() == GRID_CELLS
        &&& self.powerup_types.len() == GRID_CELLS
        &&& self.bombs.len() == MAX_BOMBS
        &&& self.bomb_count as int == count_active(self.bombs)
        &&& self.max_players <= MAX_PLAYERS
        &&& self.platform_fee_bps <= 10_000
        &&& forall|i: int| 0 <= i < self.bombs.len() ==> (#[trigger] self.bombs[i]).active
            ==> self.bombs[i].x < GRID_WIDTH && self.bombs[i].y < GRID_HEIGHT
    }
}

impl Game {
    /// Flat index of the cell at `(x, y)`.
    pub fn cell_idx(&self, x: u8, y: u8) -> (idx: usize)
        requires
            x < GRID_WIDTH,
            y < GRID_HEIGHT,
        ensures
            idx == y * GRID_WIDTH as int + x,
            idx < GRID_CELLS,
    {
        (y as usize) * (GRID_WIDTH as usize) + (x as usize)
    }

    /// First inactive bomb slot by scan order, if any.
    pub fn find_free_bomb_slot(&self) -> (r: Option<usize>)
        requires
            self@.wf(),
        ensures
            match r {
                Some(i) => i < MAX_BOMBS && !self@.bombs[i as int].active
                    && first_free_from(self@.bombs, 0) == Some(i as int)
                    && forall|j: int| 0 <= j < i ==> (#[trigger] self@.bombs[j]).active,
                None => first_free_from(self@.bombs, 0) is None
                    && forall|j: int| 0 <= j < MAX_BOMBS ==> (#[trigger] self@.bombs[j]).active,
            },
    {
        let mut i: usize = 0;
        while i < MAX_BOMBS
            invariant
                i <= MAX_BOMBS,
                self@.wf(),
                first_free_from(self@.bombs, 0) == first_free_from(self@.bombs, i as int),
                forall|j: int| 0 <= j < i ==> (#[trigger] self@.bombs[j]).active,
            decreases MAX_BOMBS - i,
        {
            if !self.bombs[i].active {
                return Some(i);
            }
            i += 1;
        }
        None
    }
}

/// First inactive slot at or after index `i`, by scan order.
pub open spec fn first_free_from(bombs: Seq<BombSlot>, i: int) -> Option<int>
    decreases bombs.len() - i when i <= bombs.len()
{
    if i < 0 || i >= bombs.len() {
        None
    } else if !bombs[i].active {
        Some(i)
    } else {
        first_free_from(bombs, i + 1)
    }
}

/// An arena with an inactive slot has occupancy strictly below its size.
pub proof fn lemma_count_active_lt_if_inactive(bombs: Seq<BombSlot>, i: int)
    requires
        0 <= i < bombs.len(),
        !bombs[i].active,
    ensures
        count_active(bombs) < bombs.len(),
    decreases bombs.len(),
{
    lemma_count_active_bounds(bombs.drop_last());
    if i < bombs.len() - 1 {
        lemma_count_active_lt_if_inactive(bombs.drop_last(), i);
    }
}

/// Creates a fresh game in the lobby state with the standard 13x11 arena:
/// border and even-parity cells walled, spawn corners cleared, everything
/// else destructible blocks; no powerups, no bombs, empty prize pool.
pub fn initialize_game(
    game_id: u64,
    authority: u64,
    entry_fee: u64,
    max_players: u8,
    now: i64,
) -> (g: Game)
    requires
        max_players <= MAX_PLAYERS,
    ensures
        g@.wf(),
        g@.game_id == game_id,
        g@.authority == authority,
        g@.max_players == max_players,
        g@.current_players == 0,
        g@.entry_fee == entry_fee,
        g@.prize_pool == 0,
        g@.status == STATUS_LOBBY,
        g@.winner is None,
        g@.created_at == now,
        g@.started_at == 0,
        g@.round_duration == 0,
        g@.platform_fee_bps == 300,
        g@.bomb_count == 0,
        g@.last_detonate_slot == 0,
        forall|x: int, y: int| 0 <= x < GRID_WIDTH && 0 <= y < GRID_HEIGHT
            ==> g@.cells[y * GRID_WIDTH as int + x] == spec_gen_cell(
                GRID_WIDTH as int,
                GRID_HEIGHT as int,
                spawn_positions(),
                x,
                y,
            ),
        forall|i: int| 0 <= i < GRID_CELLS ==> g@.powerup_types[i] == 0,
        forall|i: int| 0 <= i < MAX_BOMBS ==> !(#[trigger] g@.bombs[i]).active,
{
    let mut spawns: Vec<(u8, u8)> = Vec::new();
    spawns.push((1, 1));
    spawns.push((11, 1));
    spawns.push((1, 9));
    spawns.push((11, 9));
    proof {
        assert(spawns@ =~= spawn_positions());
    }
    let cells = generate_grid(GRID_WIDTH, GRID_HEIGHT, &spawns);
    let powerup_types: Vec<u8> = vec![0u8; GRID_CELLS];
    let bombs: Vec<BombSlot> = vec![BombSlot::inactive(); MAX_BOMBS];
    proof {
        lemma_count_active_all_inactive(bombs@);
    }
    Game {
        game_id,
        authority,
        max_players,
        current_players: 0,
        entry_fee,
        prize_pool: 0,
        status: STATUS_LOBBY,
        winner: None,
        created_at: now,
        started_at: 0,
        round_duration: 0,
        platform_fee_bps: 300,
        cells,
        powerup_types,
        bombs,
        bomb_count: 0,
        last_detonate_slot: 0,
    }
}

/// Admits a player into a lobby game: assigns the next spawn corner and base
/// stats, stakes the entry fee into the prize pool, and starts the match
/// automatically once the last seat fills. Fails without changing anything
/// if the game is not in the lobby, is full, or the prize pool would
/// overflow.
pub fn join_game(game: &mut Game, player_authority: u64, now: i64)
    -> (r: Result<Player, DeadmintError>)
    requires
        old(game)@.wf(),
    ensures
        final(game)@.wf(),
        r is Err ==> final(game)@ == old(game)@,
        r == Err::<Player, DeadmintError>(DeadmintError::GameNotInLobby)
            <==> old(game)@.status != STATUS_LOBBY,
        r == Err::<Player, DeadmintError>(DeadmintError::GameFull)
            <==> old(game)@.status == STATUS_LOBBY
                && old(game)@.current_players >= old(game)@.max_players,
        r == Err::<Player, DeadmintError>(DeadmintError::MathOverflow)
            <==> old(game)@.status == STATUS_LOBBY
                && old(game)@.current_players < old(game)@.max_players
                && old(game)@.prize_pool + old(game)@.entry_fee > u64::MAX,
        r is Ok <==> old(game)@.status == STATUS_LOBBY
            && old(game)@.current_players < old(game)@.max_players
            && old(game)@.prize_pool + old(game)@.entry_fee <= u64::MAX,
        r matches Err(e) ==> (e == DeadmintError::GameNotInLobby
            || e == DeadmintError::GameFull || e == DeadmintError::MathOverflow),
        r matches Ok(p) ==> {
            let idx = old(game)@.current_players as int;
            let auto_start = old(game)@.current_players + 1 == old(game)@.max_players;
            &&& p == Player {
                authority: player_authority,
                player_index: old(game)@.current_players,
                x: spawn_positions()[idx].0,
                y: spawn_positions()[idx].1,
                alive: true,
                collected_sol: 0,
                wager: old(game)@.entry_fee,
                bomb_range: 1,
                max_bombs: 1,
                active_bombs: 0,
                speed: 1,
                last_move_slot: 0,
                kills: 0,
            }
            &&& p.wf()
            &&& final(game)@ == GameView {
                current_players: (old(game)@.current_players + 1) as u8,
                prize_pool: (old(game)@.prize_pool + old(game)@.entry_fee) as u64,
                status: if auto_start { STATUS_ACTIVE } else { STATUS_LOBBY },
                started_at: if auto_start { now } else { old(game)@.started_at },
                ..old(game)@
            }
        },
{
    if game.status != STATUS_LOBBY {
        return Err(DeadmintError::GameNotInLobby);
    }
    if game.current_players >= game.max_players {
        return Err(DeadmintError::GameFull);
    }
    let prize_pool = match game.prize_pool.checked_add(game.entry_fee) {
        Some(v) => v,
        None => {
            return Err(DeadmintError::MathOverflow);
        },
    };
    let idx = game.current_players;
    let (spawn_x, spawn_y) = spawn_position(idx);
    let player = Player {
        authority: player_authority,
        player_index: idx,
        x: spawn_x,
        y: spawn_y,
        alive: true,
        collected_sol: 0,
        wager: game.entry_fee,
        bomb_range: 1,
        max_bombs: 1,
        active_bombs: 0,
        speed: 1,
        last_move_slot: 0,
        kills: 0,
    };
    game.current_players = idx + 1;
    game.prize_pool = prize_pool;
    if game.current_players == game.max_players {
        game.status = STATUS_ACTIVE;
        game.started_at = now;
    }
    proof {
        assert(spawn_positions()[idx as int].0 < GRID_WIDTH);
        assert(spawn_positions()[idx as int].1 < GRID_HEIGHT);
    }
    Ok(player)
}

} // verus!
