use deadmint::errors::DeadmintError;
use deadmint::entity::{move_player, place_bomb};
use deadmint::game::{initialize_game, join_game, Game, Player, STATUS_ACTIVE, STATUS_LOBBY};
use deadmint::grid::{CELL_BOMB, CELL_EMPTY, CELL_EXPLOSION, CELL_LOOT, CELL_POWERUP};

fn active_two_player_game() -> (Game, Player, Player) {
    let mut game = initialize_game(1, 99, 1_000_000, 2, 1_700_000_000);
    let p1 = join_game(&mut game, 11, 1_700_000_000).unwrap();
    let p2 = join_game(&mut game, 22, 1_700_000_001).unwrap();
    assert_eq!(game.status, STATUS_ACTIVE);
    (game, p1, p2)
}

#[test]
fn initialize_game_starts_in_lobby() {
    let game = initialize_game(7, 42, 5000, 4, 123);
    assert_eq!(game.status, STATUS_LOBBY);
    assert_eq!(game.game_id, 7);
    assert_eq!(game.current_players, 0);
    assert_eq!(game.prize_pool, 0);
    assert_eq!(game.cells.len(), 143);
    assert_eq!(game.bombs.len(), 12);
    assert_eq!(game.bomb_count, 0);
}

#[test]
fn join_assigns_spawn_corners_and_pools_fees() {
    let mut game = initialize_game(1, 99, 1_000_000, 4, 0);
    let p1 = join_game(&mut game, 11, 0).unwrap();
    assert_eq!((p1.x, p1.y), (1, 1));
    assert_eq!(p1.wager, 1_000_000);
    assert!(p1.alive);
    let p2 = join_game(&mut game, 22, 0).unwrap();
    assert_eq!((p2.x, p2.y), (11, 1));
    assert_eq!(game.prize_pool, 2_000_000);
    assert_eq!(game.status, STATUS_LOBBY);
    let _p3 = join_game(&mut game, 33, 0).unwrap();
    let p4 = join_game(&mut game, 44, 5).unwrap();
    assert_eq!((p4.x, p4.y), (11, 9));
    // Auto-start on the last seat.
    assert_eq!(game.status, STATUS_ACTIVE);
    assert_eq!(game.started_at, 5);
    assert_eq!(join_game(&mut game, 55, 6), Err(DeadmintError::GameNotInLobby));
}

#[test]
fn join_rejects_full_lobby() {
    let mut game = initialize_game(1, 99, 0, 1, 0);
    // A single-seat game auto-starts on the first join.
    join_game(&mut game, 11, 0).unwrap();
    assert_eq!(join_game(&mut game, 22, 0), Err(DeadmintError::GameNotInLobby));
    let mut lobby = initialize_game(2, 99, 0, 2, 0);
    lobby.max_players = 0;
    assert_eq!(join_game(&mut lobby, 11, 0), Err(DeadmintError::GameFull));
}

#[test]
fn move_cooldown_by_speed() {
    // Entity at speed 1 moves at slot 100; a second attempt at slot 101
    // fails (minimum gap 2 for speed 1); at slot 102 it succeeds.
    let (mut game, mut p1, _p2) = active_two_player_game();
    assert_eq!(p1.speed, 1);
    move_player(&mut game, &mut p1, 1, 100).unwrap();
    assert_eq!((p1.x, p1.y), (1, 2));
    assert_eq!(p1.last_move_slot, 100);
    assert_eq!(
        move_player(&mut game, &mut p1, 1, 101),
        Err(DeadmintError::MoveTooFast)
    );
    assert_eq!((p1.x, p1.y), (1, 2));
    move_player(&mut game, &mut p1, 1, 102).unwrap();
    assert_eq!((p1.x, p1.y), (1, 3));
}

#[test]
fn move_rejects_walls_blocks_and_bombs() {
    let (mut game, mut p1, _p2) = active_two_player_game();
    // Up from (1,1) is the border wall at (1,0).
    assert_eq!(
        move_player(&mut game, &mut p1, 0, 100),
        Err(DeadmintError::CellNotWalkable)
    );
    assert_eq!((p1.x, p1.y), (1, 1));
    // (1,4) is a destructible block on the standard grid.
    assert_eq!(game.cells[4 * 13 + 1], deadmint::grid::CELL_BLOCK);
    p1.y = 3;
    assert_eq!(
        move_player(&mut game, &mut p1, 1, 100),
        Err(DeadmintError::CellNotWalkable)
    );
    assert_eq!((p1.x, p1.y), (1, 3));
    // A bomb in the way is rejected too.
    game.cells[2 * 13 + 1] = CELL_BOMB;
    assert_eq!(
        move_player(&mut game, &mut p1, 0, 100),
        Err(DeadmintError::CellNotWalkable)
    );
    assert_eq!((p1.x, p1.y), (1, 3));
}

#[test]
fn move_rejects_invalid_direction_and_bounds() {
    let (mut game, mut p1, _p2) = active_two_player_game();
    assert_eq!(
        move_player(&mut game, &mut p1, 4, 100),
        Err(DeadmintError::InvalidDirection)
    );
    p1.x = 1;
    p1.y = 0;
    assert_eq!(
        move_player(&mut game, &mut p1, 0, 100),
        Err(DeadmintError::OutOfBounds)
    );
}

#[test]
fn loot_pickup_credits_share_of_prize_pool() {
    let (mut game, mut p1, _p2) = active_two_player_game();
    // prize_pool = 2_000_000, so loot = max(2_000_000 / 50, 1000) = 40_000.
    game.cells[1 * 13 + 2] = CELL_LOOT;
    move_player(&mut game, &mut p1, 3, 100).unwrap();
    assert_eq!(p1.collected_sol, 40_000);
    assert_eq!(game.cells[1 * 13 + 2], CELL_EMPTY);
}

#[test]
fn loot_pickup_floor_amount() {
    let (mut game, mut p1, _p2) = active_two_player_game();
    game.prize_pool = 10_000; // 10_000 / 50 = 200 < 1000 floor
    game.cells[1 * 13 + 2] = CELL_LOOT;
    move_player(&mut game, &mut p1, 3, 100).unwrap();
    assert_eq!(p1.collected_sol, 1000);
}

#[test]
fn powerup_pickup_caps_stats() {
    let (mut game, mut p1, _p2) = active_two_player_game();
    game.cells[1 * 13 + 2] = CELL_POWERUP;
    game.powerup_types[1 * 13 + 2] = 1; // range
    p1.bomb_range = 5;
    move_player(&mut game, &mut p1, 3, 100).unwrap();
    assert_eq!(p1.bomb_range, 5, "range capped at 5");
    assert_eq!(game.powerup_types[1 * 13 + 2], 0);
    assert_eq!(game.cells[1 * 13 + 2], CELL_EMPTY);

    let (mut game, mut p1, _p2) = active_two_player_game();
    game.cells[1 * 13 + 2] = CELL_POWERUP;
    game.powerup_types[1 * 13 + 2] = 3; // speed
    move_player(&mut game, &mut p1, 3, 100).unwrap();
    assert_eq!(p1.speed, 2);
}

#[test]
fn stepping_into_explosion_kills_but_commits() {
    let (mut game, mut p1, _p2) = active_two_player_game();
    game.cells[1 * 13 + 2] = CELL_EXPLOSION;
    move_player(&mut game, &mut p1, 3, 100).unwrap();
    assert!(!p1.alive);
    assert_eq!((p1.x, p1.y), (2, 1));
    assert_eq!(p1.last_move_slot, 100);
}

#[test]
fn dead_players_cannot_move() {
    let (mut game, mut p1, _p2) = active_two_player_game();
    p1.alive = false;
    assert_eq!(
        move_player(&mut game, &mut p1, 1, 100),
        Err(DeadmintError::PlayerNotAlive)
    );
}

#[test]
fn place_bomb_occupies_cell_and_slot() {
    let (mut game, mut p1, _p2) = active_two_player_game();
    place_bomb(&mut game, &mut p1, 50).unwrap();
    assert_eq!(game.cells[1 * 13 + 1], CELL_BOMB);
    assert_eq!(game.bomb_count, 1);
    assert_eq!(p1.active_bombs, 1);
    let b = game.bombs[0];
    assert!(b.active);
    assert_eq!((b.x, b.y), (1, 1));
    assert_eq!(b.range, 1);
    assert_eq!(b.fuse_slots, 8);
    assert_eq!(b.placed_at_slot, 50);
    assert!(!b.detonated);
    // A second bomb from the same one-bomb player is rejected.
    assert_eq!(
        place_bomb(&mut game, &mut p1, 51),
        Err(DeadmintError::NoBombsAvailable)
    );
}

#[test]
fn place_bomb_rejects_occupied_cell() {
    let (mut game, mut p1, mut p2) = active_two_player_game();
    place_bomb(&mut game, &mut p1, 50).unwrap();
    // Another player standing on the same cell cannot stack a bomb.
    p2.x = 1;
    p2.y = 1;
    assert_eq!(
        place_bomb(&mut game, &mut p2, 51),
        Err(DeadmintError::CellOccupied)
    );
}
