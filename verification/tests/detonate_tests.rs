use deadmint::errors::DeadmintError;
use deadmint::detonate::detonate_bomb;
use deadmint::entity::place_bomb;
use deadmint::game::{initialize_game, join_game, Game, Player, EXPLOSION_DURATION_SLOTS};
use deadmint::grid::{
    CELL_BLOCK, CELL_BOMB, CELL_EMPTY, CELL_EXPLOSION, CELL_LOOT, CELL_WALL,
};
use deadmint::round::{check_game_end, claim_prize, settle_players_after_detonation};

fn active_two_player_game() -> (Game, Player, Player) {
    let mut game = initialize_game(1, 99, 1_000_000, 2, 0);
    let p1 = join_game(&mut game, 11, 0).unwrap();
    let p2 = join_game(&mut game, 22, 1).unwrap();
    (game, p1, p2)
}

#[test]
fn fuse_must_elapse() {
    // Bomb placed at slot 50 with an 8-slot fuse: detonation at slot 57
    // fails, at slot 58 it succeeds.
    let (mut game, mut p1, _p2) = active_two_player_game();
    place_bomb(&mut game, &mut p1, 50).unwrap();
    assert_eq!(
        detonate_bomb(&mut game, 0, 57),
        Err(DeadmintError::FuseNotExpired)
    );
    assert!(detonate_bomb(&mut game, 0, 58).is_ok());
}

#[test]
fn fuse_scenario_six_slots() {
    // Bomb placed at slot 50 with fuse_slots = 6: detonation attempted at
    // slot 55 fails, at slot 56 it succeeds.
    let (mut game, mut p1, _p2) = active_two_player_game();
    place_bomb(&mut game, &mut p1, 50).unwrap();
    game.bombs[0].fuse_slots = 6;
    assert_eq!(
        detonate_bomb(&mut game, 0, 55),
        Err(DeadmintError::FuseNotExpired)
    );
    assert!(detonate_bomb(&mut game, 0, 56).is_ok());
}

#[test]
fn detonation_errors() {
    let (mut game, mut p1, _p2) = active_two_player_game();
    assert_eq!(
        detonate_bomb(&mut game, 12, 100),
        Err(DeadmintError::InvalidBombIndex)
    );
    assert_eq!(
        detonate_bomb(&mut game, 0, 100),
        Err(DeadmintError::BombNotActive)
    );
    place_bomb(&mut game, &mut p1, 50).unwrap();
    detonate_bomb(&mut game, 0, 58).unwrap();
    assert_eq!(
        detonate_bomb(&mut game, 0, 59),
        Err(DeadmintError::BombNotActive)
    );
}

#[test]
fn blast_marks_cross_and_stops_at_walls() {
    // Bomb at spawn (1,1) with range 1: up and left are border walls, down
    // and right are empty spawn-zone cells.
    let (mut game, mut p1, _p2) = active_two_player_game();
    place_bomb(&mut game, &mut p1, 50).unwrap();
    let cells = detonate_bomb(&mut game, 0, 58).unwrap();
    let idx = |x: usize, y: usize| y * 13 + x;
    assert_eq!(game.cells[idx(1, 1)], CELL_EXPLOSION);
    assert_eq!(game.cells[idx(2, 1)], CELL_EXPLOSION);
    assert_eq!(game.cells[idx(1, 2)], CELL_EXPLOSION);
    assert_eq!(game.cells[idx(0, 1)], CELL_WALL, "wall untouched");
    assert_eq!(game.cells[idx(1, 0)], CELL_WALL, "wall untouched");
    assert!(cells.contains(&idx(1, 1)));
    assert!(cells.contains(&idx(2, 1)));
    assert!(cells.contains(&idx(1, 2)));
    assert_eq!(cells.len(), 3);
    assert_eq!(game.bomb_count, 0);
    assert!(game.bombs[0].detonated);
    assert!(!game.bombs[0].active);
    assert_eq!(game.last_detonate_slot, 58);
}

#[test]
fn blast_never_reaches_beyond_range_or_through_blocks() {
    // Bomb at (1,1) with range 3: the ray right hits empty (2,1), empty
    // (3,1), then the block at (4,1), which absorbs the blast; (5,1) keeps
    // its value. The ray down stops the same way at (1,4).
    let (mut game, mut p1, _p2) = active_two_player_game();
    p1.bomb_range = 3;
    place_bomb(&mut game, &mut p1, 0).unwrap();
    let idx = |x: usize, y: usize| y * 13 + x;
    assert_eq!(game.cells[idx(4, 1)], CELL_BLOCK);
    let before_5_1 = game.cells[idx(5, 1)];
    // Detonate at slot 8. The little-endian bytes of 8 are [8, 0, 0, ...];
    // distance 3 selects byte 3 = 0, so the seed for cell (4,1) (index 17)
    // is (0 + 17) % 256 = 17, and roll 17 < 40 makes the block drop loot.
    let cells = detonate_bomb(&mut game, 0, 8).unwrap();
    assert_eq!(game.cells[idx(2, 1)], CELL_EXPLOSION);
    assert_eq!(game.cells[idx(3, 1)], CELL_EXPLOSION);
    assert_eq!(game.cells[idx(4, 1)], CELL_LOOT, "block absorbed the blast and rolled loot");
    assert_eq!(game.cells[idx(5, 1)], before_5_1, "cell behind the block untouched");
    assert!(!cells.contains(&idx(4, 1)), "destroyed blocks are not explosion cells");
    assert!(!cells.contains(&idx(5, 1)));
}

#[test]
fn chained_bomb_is_marked_and_stops_the_ray() {
    let (mut game, mut p1, mut p2) = active_two_player_game();
    p1.bomb_range = 3;
    place_bomb(&mut game, &mut p1, 0).unwrap();
    // A second bomb two cells to the right at (3,1).
    p2.x = 3;
    p2.y = 1;
    place_bomb(&mut game, &mut p2, 0).unwrap();
    assert_eq!(game.cells[1 * 13 + 3], CELL_BOMB);
    let cells = detonate_bomb(&mut game, 0, 8).unwrap();
    let idx = |x: usize, y: usize| y * 13 + x;
    assert_eq!(game.cells[idx(3, 1)], CELL_EXPLOSION, "chained bomb marked");
    assert!(cells.contains(&idx(3, 1)));
    // The chained bomb's own slot has not detonated yet (chain resolves in a
    // later step).
    assert!(game.bombs[1].active);
    assert!(!game.bombs[1].detonated);
}

#[test]
fn expired_explosions_are_swept_lazily() {
    let (mut game, mut p1, _p2) = active_two_player_game();
    place_bomb(&mut game, &mut p1, 50).unwrap();
    detonate_bomb(&mut game, 0, 58).unwrap();
    assert_eq!(game.cells[1 * 13 + 1], CELL_EXPLOSION);
    assert_eq!(game.cells[1 * 13 + 2], CELL_EXPLOSION);
    let mut p = p1;
    p.x = 3;
    p.y = 1;
    let slot = 58 + EXPLOSION_DURATION_SLOTS + 1;
    // A rejected move changes nothing, sweep included: the expired explosion
    // stays on the grid.
    assert_eq!(
        deadmint::entity::move_player(&mut game, &mut p, 1, slot),
        Err(DeadmintError::CellNotWalkable)
    );
    assert_eq!(game.cells[1 * 13 + 1], CELL_EXPLOSION, "rejected move sweeps nothing");
    // Stepping onto the expired explosion cell counts as walking onto empty
    // ground: the move commits, the player lives, and the sweep clears the
    // whole grid.
    deadmint::entity::move_player(&mut game, &mut p, 2, slot).unwrap();
    assert!(p.alive, "expired explosions no longer kill");
    assert_eq!((p.x, p.y), (2, 1));
    assert_eq!(game.cells[1 * 13 + 1], CELL_EMPTY, "explosion swept with the move");
    assert_eq!(game.cells[1 * 13 + 2], CELL_EMPTY, "explosion swept with the move");
}

#[test]
fn settlement_kills_players_on_marked_cells() {
    let (mut game, mut p1, mut p2) = active_two_player_game();
    place_bomb(&mut game, &mut p1, 50).unwrap();
    // Put the second player right of the bomb.
    p2.x = 2;
    p2.y = 1;
    let cells = detonate_bomb(&mut game, 0, 58).unwrap();
    let mut players = vec![p1, p2];
    settle_players_after_detonation(&mut players, &cells, p1.authority);
    assert!(!players[0].alive, "owner stood on the bomb cell");
    assert!(!players[1].alive, "player in the blast dies");
    assert_eq!(players[0].active_bombs, 0, "owner got the bomb slot back");
}

#[test]
fn game_end_and_prize_claim() {
    let (mut game, p1, mut p2) = active_two_player_game();
    p2.alive = false;
    let players = vec![p1, p2];
    check_game_end(&mut game, &players, 100).unwrap();
    assert_eq!(game.status, deadmint::game::STATUS_FINISHED);
    assert_eq!(game.winner, Some(p1.authority));
    // prize_pool = 2_000_000 at 300 bps: fee 60_000, payout 1_940_000.
    let (payout, fee) = claim_prize(&mut game, &p1).unwrap();
    assert_eq!(fee, 60_000);
    assert_eq!(payout, 1_940_000);
    assert_eq!(game.prize_pool, 0);
    assert_eq!(game.status, deadmint::game::STATUS_CLAIMED);
    assert_eq!(
        claim_prize(&mut game, &p1),
        Err(DeadmintError::GameNotFinished)
    );
}

#[test]
fn claim_prize_rejects_non_winner() {
    let (mut game, p1, mut p2) = active_two_player_game();
    p2.alive = false;
    let players = vec![p1, p2];
    check_game_end(&mut game, &players, 100).unwrap();
    assert_eq!(claim_prize(&mut game, &p2), Err(DeadmintError::NotWinner));
}
