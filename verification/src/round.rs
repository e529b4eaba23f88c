//! End-of-round logic: casualty settlement after a detonation, the
//! game-over check, and the winner's prize claim with its fee split.

use vstd::prelude::*;
use crate::errors::DeadmintError;
use crate::game::{Game, GameView, Player, STATUS_ACTIVE, STATUS_CLAIMED, STATUS_FINISHED};
use crate::grid::GRID_WIDTH;
use crate::payout::{fee_split, spec_fee};

verus! {

/// A player after a detonation settles: the bomb owner gets an active-bomb
/// slot back, and any player standing on a marked explosion cell dies.
pub open spec fn spec_settled_player(p: Player, marked: Seq<usize>, bomb_owner: u64) -> Player {
    let p1 = if p.authority == bomb_owner {
        Player {
            active_bombs: if p.active_bombs > 0 {
                (p.active_bombs - 1) as u8
            } else {
                0
            },
            ..p
        }
    } else {
        p
    };
    if p1.alive && marked.contains((p1.y * (GRID_WIDTH as int) + p1.x) as usize) {
        Player { alive: false, ..p1 }
    } else {
        p1
    }
}

/// Whether a cell index appears in a list of marked cells.
fn contains_cell(cells: &Vec<usize>, target: usize) -> (r: bool)
    ensures
        r == cells@.contains(target),
{
    let mut i: usize = 0;
    while i < cells.len()
        invariant
            i <= cells@.len(),
            forall|j: int| 0 <= j < i ==> cells@[j] != target,
        decreases cells@.len() - i,
    {
        if cells[i] == target {
            return true;
        }
        i += 1;
    }
    false
}

/// Applies a detonation's outcome to every player: the bomb owner's
/// active-bomb counter falls by one (never below zero), and every living
/// player standing on a marked explosion cell is killed. Position and all
/// other fields stay untouched.
pub fn settle_players_after_detonation(
    players: &mut Vec<Player>,
    explosion_cells: &Vec<usize>,
    bomb_owner: u64,
)
    requires
        forall|i: int| 0 <= i < old(players)@.len() ==> (#[trigger] old(players)@[i]).wf(),
    ensures
        final(players)@.len() == old(players)@.len(),
        forall|i: int| 0 <= i < old(players)@.len() ==> final(players)@[i]
            == spec_settled_player(#[trigger] old(players)@[i], explosion_cells@, bomb_owner),
        forall|i: int| 0 <= i < final(players)@.len() ==> (#[trigger] final(players)@[i]).wf(),
{
    let n = players.len();
    let mut i: usize = 0;
    while i < n
        invariant
            i <= n,
            n == players@.len(),
            players@.len() == old(players)@.len(),
            forall|j: int| 0 <= j < old(players)@.len() ==> (#[trigger] old(players)@[j]).wf(),
            forall|j: int| i <= j < n ==> players@[j] == #[trigger] old(players)@[j],
            forall|j: int| 0 <= j < i ==> players@[j]
                == spec_settled_player(#[trigger] old(players)@[j], explosion_cells@, bomb_owner),
            forall|j: int| 0 <= j < i ==> (#[trigger] players@[j]).wf(),
        decreases n - i,
    {
        let mut p = players[i];
        if p.authority == bomb_owner {
            if p.active_bombs > 0 {
                p.active_bombs = p.active_bombs - 1;
            }
        }
        if p.alive {
            let pos = (p.y as usize) * (GRID_WIDTH as usize) + (p.x as usize);
            if contains_cell(explosion_cells, pos) {
                p.alive = false;
            }
        }
        proof {
            assert(old(players)@[i as int].wf());
        }
        players[i] = p;
        i += 1;
    }
}

/// Number of living players.
pub open spec fn count_alive(players: Seq<Player>) -> int
    decreases players.len(),
{
    if players.len() == 0 {
        0
    } else {
        count_alive(players.drop_last()) + if players.last().alive { 1int } else { 0int }
    }
}

/// Authority of the living player scanned last, if any player lives.
pub open spec fn last_alive_authority(players: Seq<Player>) -> Option<u64>
    decreases players.len(),
{
    if players.len() == 0 {
        None
    } else if players.last().alive {
        Some(players.last().authority)
    } else {
        last_alive_authority(players.drop_last())
    }
}

/// Whether the round timer has expired: only games with a time limit and a
/// recorded start can time out.
pub open spec fn spec_timed_out(g: GameView, now: i64) -> bool {
    g.round_duration > 0 && g.started_at > 0 && now - g.started_at >= g.round_duration
}

/// Ends an active game once at most one player lives or the round timer has
/// expired: the status becomes finished, and if exactly one player lives,
/// that player is recorded as the winner. Otherwise nothing changes.
/// Timestamps are non-negative unix times, so the timer subtraction cannot
/// overflow.
pub fn check_game_end(game: &mut Game, players: &Vec<Player>, now: i64)
    -> (r: Result<(), DeadmintError>)
    requires
        old(game)@.wf(),
        old(game)@.started_at >= 0,
        now >= 0,
    ensures
        final(game)@.wf(),
        r is Err ==> final(game)@ == old(game)@,
        r == Err::<(), DeadmintError>(DeadmintError::GameNotActive)
            <==> old(game)@.status != STATUS_ACTIVE,
        r is Ok <==> old(game)@.status == STATUS_ACTIVE,
        r is Ok ==> ({
            let over = count_alive(players@) <= 1 || spec_timed_out(old(game)@, now);
            &&& final(game)@ == (GameView {
                status: if over { STATUS_FINISHED } else { old(game)@.status },
                winner: if over && count_alive(players@) == 1 {
                    last_alive_authority(players@)
                } else {
                    old(game)@.winner
                },
                ..old(game)@
            })
        }),
{
    if game.status != STATUS_ACTIVE {
        return Err(DeadmintError::GameNotActive);
    }
    let timed_out = game.round_duration > 0 && game.started_at > 0
        && now - game.started_at >= game.round_duration as i64;

    let mut alive_count: usize = 0;
    let mut last_alive: Option<u64> = None;
    let mut i: usize = 0;
    while i < players.len()
        invariant
            i <= players@.len(),
            alive_count <= i,
            alive_count as int == count_alive(players@.take(i as int)),
            last_alive == last_alive_authority(players@.take(i as int)),
        decreases players@.len() - i,
    {
        let p = players[i];
        proof {
            assert(players@.take(i as int + 1).drop_last() =~= players@.take(i as int));
            assert(players@.take(i as int + 1).last() == players@[i as int]);
        }
        if p.alive {
            alive_count = alive_count + 1;
            last_alive = Some(p.authority);
        }
        i += 1;
    }
    proof {
        assert(players@.take(players@.len() as int) =~= players@);
    }

    if alive_count <= 1 || timed_out {
        game.status = STATUS_FINISHED;
        if alive_count == 1 {
            game.winner = last_alive;
        }
    }
    Ok(())
}

/// Pays the recorded winner: splits the prize pool fee-first at the game's
/// platform fee rate, zeroes the pool exactly once, and closes the game.
/// Returns `(winner_payout, platform_fee)` for the host to transfer. Fails
/// without any change unless the game is finished, a winner is recorded, the
/// pool is unclaimed, and the claiming player is the winner.
pub fn claim_prize(game: &mut Game, player: &Player) -> (r: Result<(u64, u64), DeadmintError>)
    requires
        old(game)@.wf(),
    ensures
        final(game)@.wf(),
        r is Err ==> final(game)@ == old(game)@,
        r == Err::<(u64, u64), DeadmintError>(DeadmintError::GameNotFinished)
            <==> old(game)@.status != STATUS_FINISHED,
        r == Err::<(u64, u64), DeadmintError>(DeadmintError::NoWinner)
            <==> old(game)@.status == STATUS_FINISHED && old(game)@.winner is None,
        r == Err::<(u64, u64), DeadmintError>(DeadmintError::AlreadyClaimed)
            <==> old(game)@.status == STATUS_FINISHED && old(game)@.winner is Some
                && old(game)@.prize_pool == 0,
        r == Err::<(u64, u64), DeadmintError>(DeadmintError::NotWinner)
            <==> old(game)@.status == STATUS_FINISHED && old(game)@.winner is Some
                && old(game)@.prize_pool > 0
                && old(game)@.winner != Some(player.authority),
        r is Ok <==> old(game)@.status == STATUS_FINISHED && old(game)@.winner is Some
            && old(game)@.prize_pool > 0 && old(game)@.winner == Some(player.authority),
        r matches Err(e) ==> (e == DeadmintError::GameNotFinished
            || e == DeadmintError::NoWinner || e == DeadmintError::AlreadyClaimed
            || e == DeadmintError::NotWinner),
        r matches Ok(payout) ==> ({
            let fee = spec_fee(old(game)@.prize_pool as int, old(game)@.platform_fee_bps as int);
            &&& old(game)@.winner == Some(player.authority)
            &&& payout.1 == fee
            &&& payout.0 == old(game)@.prize_pool - fee
            &&& payout.0 + payout.1 == old(game)@.prize_pool
            &&& final(game)@ == (GameView {
                prize_pool: 0u64,
                status: STATUS_CLAIMED,
                ..old(game)@
            })
        }),
{
    if game.status != STATUS_FINISHED {
        return Err(DeadmintError::GameNotFinished);
    }
    let has_winner = match game.winner {
        Some(_) => true,
        None => false,
    };
    if !has_winner {
        return Err(DeadmintError::NoWinner);
    }
    if game.prize_pool == 0 {
        return Err(DeadmintError::AlreadyClaimed);
    }
    let is_winner = match game.winner {
        Some(w) => w == player.authority,
        None => false,
    };
    if !is_winner {
        return Err(DeadmintError::NotWinner);
    }
    let (platform_fee, winner_payout) = fee_split(game.prize_pool, game.platform_fee_bps);
    game.prize_pool = 0;
    game.status = STATUS_CLAIMED;
    Ok((winner_payout, platform_fee))
}

} // verus!
