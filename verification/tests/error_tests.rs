use deadmint::detonate::detonate_bomb;
use deadmint::entity::{move_player, place_bomb};
use deadmint::errors::{DeadmintError, ErrorCode};
use deadmint::game::{initialize_game, join_game, BombSlot, STATUS_FINISHED};
use deadmint::grid::CELL_LOOT;
use deadmint::round::claim_prize;
use deadmint::tournament::{
    advance_round, claim_bet_winnings, claim_resurrection, create_tournament,
    initialize_protocol_config, register_fighter, resolve_battle, start_battle, Battle,
    BattleStatus, BetSlip, Fighter, PrizePool, RandomnessInfo,
};

fn config() -> deadmint::tournament::ProtocolConfig {
    initialize_protocol_config(1, 2, 250)
}

fn plain_fighter(tournament: u64, mint: u64) -> Fighter {
    Fighter {
        tournament,
        owner: mint + 1000,
        token_mint: mint,
        token_name: String::from("Fighter"),
        token_symbol: String::from("FTR"),
        hp: 50,
        atk: 50,
        def: 50,
        spd: 50,
        luck: 50,
        seed_index: 0,
        is_alive: true,
        wins: 0,
        deposited_amount: 1,
    }
}

#[test]
fn game_not_active_and_overflow_errors() {
    let mut game = initialize_game(1, 9, 0, 2, 0);
    let mut p = join_game(&mut game, 11, 0).unwrap();
    // Still in the lobby: nothing may move or explode yet.
    assert_eq!(
        move_player(&mut game, &mut p, 1, 10),
        Err(DeadmintError::GameNotActive)
    );
    assert_eq!(
        place_bomb(&mut game, &mut p, 10),
        Err(DeadmintError::GameNotActive)
    );
    assert_eq!(
        detonate_bomb(&mut game, 0, 10),
        Err(DeadmintError::GameNotActive)
    );
    let _ = join_game(&mut game, 22, 0).unwrap();
    // A loot pickup that would overflow the player's balance is rejected
    // whole.
    p.collected_sol = u64::MAX;
    game.cells[1 * 13 + 2] = CELL_LOOT;
    assert_eq!(
        move_player(&mut game, &mut p, 3, 10),
        Err(DeadmintError::MathOverflow)
    );
    assert_eq!(p.collected_sol, u64::MAX);
    assert_eq!((p.x, p.y), (1, 1));
}

#[test]
fn join_overflow_error() {
    let mut game = initialize_game(1, 9, 2, 3, 0);
    game.prize_pool = u64::MAX - 1;
    assert_eq!(join_game(&mut game, 11, 0), Err(DeadmintError::MathOverflow));
}

#[test]
fn bomb_slots_full_and_already_detonated() {
    let mut game = initialize_game(1, 9, 0, 2, 0);
    let mut p = join_game(&mut game, 11, 0).unwrap();
    let _ = join_game(&mut game, 22, 0).unwrap();
    // Fill every slot by hand, keeping the occupancy counter honest.
    for slot in game.bombs.iter_mut() {
        *slot = BombSlot {
            active: true,
            owner: 77,
            x: 3,
            y: 1,
            range: 1,
            fuse_slots: 8,
            placed_at_slot: 0,
            detonated: false,
        };
    }
    game.bomb_count = 12;
    p.max_bombs = 3;
    assert_eq!(
        place_bomb(&mut game, &mut p, 10),
        Err(DeadmintError::BombSlotsFull)
    );
    // A slot marked both active and detonated refuses a second detonation.
    game.bombs[0].detonated = true;
    assert_eq!(
        detonate_bomb(&mut game, 0, 100),
        Err(DeadmintError::BombAlreadyDetonated)
    );
}

#[test]
fn claim_errors_no_winner_and_already_claimed() {
    // Both players dead: the game finishes without a winner.
    let mut game = initialize_game(1, 9, 0, 2, 0);
    let mut p1 = join_game(&mut game, 11, 0).unwrap();
    let mut p2 = join_game(&mut game, 22, 0).unwrap();
    p1.alive = false;
    p2.alive = false;
    deadmint::round::check_game_end(&mut game, &vec![p1, p2], 10).unwrap();
    assert_eq!(game.status, STATUS_FINISHED);
    assert_eq!(claim_prize(&mut game, &p1), Err(DeadmintError::NoWinner));
    // A finished game with a winner but an empty pool was already claimed.
    game.winner = Some(p1.authority);
    assert_eq!(claim_prize(&mut game, &p1), Err(DeadmintError::AlreadyClaimed));
}

#[test]
fn tournament_full_and_symbol_validation() {
    let (mut t, mut pp) = create_tournament(
        String::from("T"), 7, 1, Some(2), Some(0), None, Some(1000), 0, &config(),
    )
    .unwrap();
    for mint in [501u64, 502] {
        register_fighter(
            &mut t, &mut pp, 1, mint, String::from("X"), String::from("S"),
            1, 1, 1, 1, 1, 1, 10,
        )
        .unwrap();
    }
    assert_eq!(
        register_fighter(
            &mut t, &mut pp, 1, 503, String::from("X"), String::from("S"),
            1, 1, 1, 1, 1, 1, 10,
        )
        .unwrap_err(),
        ErrorCode::TournamentFull
    );
    let (mut t2, mut pp2) = create_tournament(
        String::from("T"), 8, 1, Some(2), Some(0), None, Some(1000), 0, &config(),
    )
    .unwrap();
    assert_eq!(
        register_fighter(
            &mut t2, &mut pp2, 1, 504, String::from("X"), String::from("TOOLONGSYMBOL"),
            1, 1, 1, 1, 1, 1, 10,
        )
        .unwrap_err(),
        ErrorCode::InvalidFighterSymbol
    );
}

#[test]
fn battle_state_and_fighter_mismatch_errors() {
    let (mut t, mut pp) = create_tournament(
        String::from("T"), 7, 1, Some(2), Some(0), None, Some(1000), 0, &config(),
    )
    .unwrap();
    let fa = register_fighter(
        &mut t, &mut pp, 1, 501, String::from("A"), String::from("A"),
        1, 1, 1, 1, 1, 1, 10,
    )
    .unwrap();
    let fb = register_fighter(
        &mut t, &mut pp, 1, 502, String::from("B"), String::from("B"),
        1, 1, 1, 1, 1, 1, 10,
    )
    .unwrap();
    let mut battle = start_battle(&mut t, &fa, &fb, 77, 0, 0).unwrap();
    // Resolving before the randomness commit is not possible.
    let rnd = RandomnessInfo { account: 5, seed_slot: 1, revealed: Some([1u8; 32]) };
    assert_eq!(
        resolve_battle(&mut battle, &fa, &fb, &rnd),
        Err(ErrorCode::BattleNotResolvable)
    );
    // A committed battle rejects the wrong fighter records.
    battle.status = BattleStatus::Committed;
    battle.randomness_account = 5;
    battle.commit_slot = 1;
    let stranger = plain_fighter(t.tournament_id, 999);
    assert_eq!(
        resolve_battle(&mut battle, &stranger, &fb, &rnd),
        Err(ErrorCode::FighterMismatch)
    );
    // Advancing the bracket needs a resolved battle.
    let mut w = plain_fighter(t.tournament_id, 501);
    let mut l = plain_fighter(t.tournament_id, 502);
    let unresolved = Battle { status: BattleStatus::BettingOpen, ..battle };
    assert_eq!(
        advance_round(&mut t, &unresolved, &mut w, &mut l),
        Err(ErrorCode::BattleNotResolved)
    );
    let foreign = Battle { tournament: t.tournament_id + 1, ..battle };
    assert_eq!(
        advance_round(&mut t, &foreign, &mut w, &mut l),
        Err(ErrorCode::FighterTournamentMismatch)
    );
    // Claiming a bet on an unresolved battle fails.
    let mut slip = BetSlip { battle: 77, bettor: 9, fighter_backed: 501, amount: 5, claimed: false };
    let unresolved2 = Battle {
        status: BattleStatus::BettingOpen,
        total_bet_a: 5,
        total_bet_b: 0,
        ..battle
    };
    assert_eq!(
        claim_bet_winnings(&unresolved2, &mut slip, &mut pp, 9, 500),
        Err(ErrorCode::BattleNotResolved)
    );
}

#[test]
fn eliminated_and_not_enough_fighters() {
    let (mut t, mut pp) = create_tournament(
        String::from("T"), 7, 1, Some(4), Some(0), None, Some(1000), 0, &config(),
    )
    .unwrap();
    let fa = register_fighter(
        &mut t, &mut pp, 1, 501, String::from("A"), String::from("A"),
        1, 1, 1, 1, 1, 1, 10,
    )
    .unwrap();
    // Only one fighter registered: no battle can start.
    let ghost_opponent = plain_fighter(t.tournament_id, 777);
    assert_eq!(
        start_battle(&mut t, &fa, &ghost_opponent, 1, 0, 0).unwrap_err(),
        ErrorCode::NotEnoughFighters
    );
    // An eliminated fighter cannot enter a battle.
    let mut dead = plain_fighter(t.tournament_id, 778);
    dead.is_alive = false;
    assert_eq!(
        start_battle(&mut t, &fa, &dead, 1, 0, 0).unwrap_err(),
        ErrorCode::FighterEliminated
    );
}

#[test]
fn resurrection_requires_completion_and_the_champion() {
    let (t, mut pp) = create_tournament(
        String::from("T"), 7, 1, Some(2), Some(0), None, Some(1000), 0, &config(),
    )
    .unwrap();
    let champ = plain_fighter(t.tournament_id, 501);
    assert_eq!(
        claim_resurrection(&t, &mut pp, &champ, champ.owner, &config(), 100),
        Err(ErrorCode::TournamentNotComplete)
    );
    let mut done = t;
    done.status = deadmint::tournament::TournamentStatus::Completed;
    done.champion = Some(999);
    assert_eq!(
        claim_resurrection(&done, &mut pp, &champ, champ.owner, &config(), 100),
        Err(ErrorCode::NotChampion)
    );
}

#[test]
fn curve_overflow_is_math_overflow() {
    assert_eq!(
        deadmint::curve::tokens_for_sol(u64::MAX, u64::MAX, u64::MAX, u64::MAX),
        Err(ErrorCode::MathOverflow)
    );
    assert_eq!(
        deadmint::curve::sol_for_tokens(1, u64::MAX, u64::MAX, u64::MAX),
        Err(ErrorCode::MathOverflow)
    );
}
