use deadmint::boss::{
    commit_attack, create_boss, claim_loot, resolve_attack, sell, Boss, BossStatus, HitTier,
    RaidTicket,
};
use deadmint::errors::ErrorCode;
use deadmint::tournament::initialize_protocol_config;

fn standard_boss() -> Boss {
    create_boss(1, 9, String::from("Gorehoof"), 100_000, 20, 1_000, 10, 0, 500).unwrap()
}

fn rnd_with_first_byte(b: u8) -> [u8; 32] {
    let mut r = [0u8; 32];
    r[0] = b;
    r
}

#[test]
fn create_boss_validates_inputs() {
    assert_eq!(
        create_boss(1, 9, String::from(""), 100, 20, 1000, 10, 0, 500).unwrap_err(),
        ErrorCode::InvalidBossName
    );
    assert_eq!(
        create_boss(1, 9, String::from("B"), 100, 81, 1000, 10, 0, 500).unwrap_err(),
        ErrorCode::DefenseTooHigh
    );
    assert_eq!(
        create_boss(1, 9, String::from("B"), 100, 20, 0, 10, 0, 500).unwrap_err(),
        ErrorCode::InvalidBasePrice
    );
    assert_eq!(
        create_boss(1, 9, String::from("B"), 100, 20, 1000, 0, 0, 500).unwrap_err(),
        ErrorCode::InvalidSlope
    );
    assert_eq!(
        create_boss(1, 9, String::from("B"), 100, 20, 1000, 10, 0, 1001).unwrap_err(),
        ErrorCode::SellFeeTooHigh
    );
    let b = standard_boss();
    assert_eq!(b.current_hp, 100_000);
    assert_eq!(b.total_supply, 0);
    assert_eq!(b.status, BossStatus::Alive);
}

#[test]
fn commit_attack_buys_on_the_curve() {
    let mut boss = standard_boss();
    let mut ticket = RaidTicket::new(1, 77);
    // 100_500 lamports at supply 0 buys 73 tokens (see the curve tests).
    let tokens = commit_attack(&mut boss, &mut ticket, 100_500).unwrap();
    assert_eq!(tokens, 73);
    assert_eq!(boss.total_supply, 73);
    assert_eq!(boss.reserve_balance, 100_500);
    assert_eq!(ticket.pending_sol, 100_500);
    assert_eq!(ticket.pending_tokens, 73);
    // A second attack while one is pending is rejected.
    assert_eq!(
        commit_attack(&mut boss, &mut ticket, 1),
        Err(ErrorCode::AttackPending)
    );
    assert_eq!(
        commit_attack(&mut boss, &mut RaidTicket::new(1, 78), 0),
        Err(ErrorCode::ZeroAttackAmount)
    );
}

#[test]
fn strong_hit_scenario() {
    // Boss with max_hp 100_000, defense 20; a purchase yielding 1000 tokens;
    // roll 60 (Strong tier, x150): damage = 1000 * 150 * 80 / 10000 = 1200,
    // HP becomes 98_800.
    let mut boss = standard_boss();
    boss.total_supply = 1000;
    let mut ticket = RaidTicket::new(1, 77);
    ticket.pending_sol = 1;
    ticket.pending_tokens = 1000;
    let outcome = resolve_attack(&mut boss, &mut ticket, &rnd_with_first_byte(60)).unwrap();
    assert_eq!(outcome.tier, HitTier::Strong);
    assert_eq!(outcome.damage, 1200);
    assert_eq!(outcome.actual_damage, 1200);
    assert!(!outcome.is_counter);
    assert!(!outcome.boss_defeated);
    assert_eq!(boss.current_hp, 98_800);
    assert_eq!(boss.total_damage, 1200);
    assert_eq!(ticket.total_damage, 1200);
    assert_eq!(ticket.tokens_held, 1000);
    assert_eq!(ticket.pending_sol, 0);
    assert_eq!(ticket.pending_tokens, 0);
}

#[test]
fn hit_tiers_by_roll() {
    // One resolve per tier boundary; damage scales with the multiplier.
    for (byte, tier, damage) in [
        (0u8, HitTier::Miss, 0u64),
        (5, HitTier::Normal, 800),
        (49, HitTier::Normal, 800),
        (50, HitTier::Strong, 1200),
        (80, HitTier::Crit, 1600),
        (95, HitTier::Mega, 2400),
        (199, HitTier::BossCounter, 800),
    ] {
        let mut boss = standard_boss();
        boss.total_supply = 1000;
        let mut ticket = RaidTicket::new(1, 77);
        ticket.pending_sol = 1;
        ticket.pending_tokens = 1000;
        let outcome = resolve_attack(&mut boss, &mut ticket, &rnd_with_first_byte(byte)).unwrap();
        assert_eq!(outcome.tier, tier, "byte {byte}");
        assert_eq!(outcome.damage, damage, "byte {byte}");
    }
}

#[test]
fn boss_counter_burns_a_tenth() {
    // Roll 99: counter. 1000 pending tokens lose 100; their curve value at
    // supply 1000 is sell_value(1000, 10, 1000, 100) =
    // 100_000 + 10 * 100 * 1899 / 2 = 1_049_500, moved into the loot pool.
    let mut boss = standard_boss();
    boss.total_supply = 1000;
    boss.reserve_balance = 2_000_000;
    let mut ticket = RaidTicket::new(1, 77);
    ticket.pending_sol = 1;
    ticket.pending_tokens = 1000;
    let outcome = resolve_attack(&mut boss, &mut ticket, &rnd_with_first_byte(99)).unwrap();
    assert!(outcome.is_counter);
    assert_eq!(outcome.tokens_credited, 900);
    assert_eq!(ticket.tokens_held, 900);
    assert_eq!(boss.total_supply, 900);
    assert_eq!(boss.loot_pool, 1_049_500);
    assert_eq!(boss.reserve_balance, 2_000_000 - 1_049_500);
}

#[test]
fn boss_defeat_moves_reserve_to_loot() {
    let mut boss = standard_boss();
    boss.current_hp = 1000;
    boss.total_supply = 1000;
    boss.reserve_balance = 555;
    let mut ticket = RaidTicket::new(1, 77);
    ticket.pending_sol = 1;
    ticket.pending_tokens = 1000;
    // Roll 50 (Strong): damage 1200 >= 1000 hp; actual damage capped at 1000.
    let outcome = resolve_attack(&mut boss, &mut ticket, &rnd_with_first_byte(50)).unwrap();
    assert!(outcome.boss_defeated);
    assert_eq!(outcome.damage, 1200);
    assert_eq!(outcome.actual_damage, 1000);
    assert_eq!(boss.current_hp, 0);
    assert_eq!(boss.status, BossStatus::Defeated);
    assert_eq!(boss.reserve_balance, 0);
    assert_eq!(boss.loot_pool, 555);
}

#[test]
fn resolve_without_pending_fails_cleanly() {
    let mut boss = standard_boss();
    let mut ticket = RaidTicket::new(1, 77);
    assert_eq!(
        resolve_attack(&mut boss, &mut ticket, &rnd_with_first_byte(60)),
        Err(ErrorCode::NoPendingAttack)
    );
    assert_eq!(boss.total_damage, 0);
}

#[test]
fn sell_pays_net_of_fee_and_heals() {
    let mut boss = standard_boss();
    boss.total_supply = 100;
    boss.reserve_balance = 100_000;
    boss.current_hp = 50_000;
    let mut ticket = RaidTicket::new(1, 77);
    ticket.tokens_held = 20;
    // gross = sell_value(1000, 10, 100, 10) = 19_450; fee at 500 bps = 972;
    // net = 18_478; heal = 9_725.
    let (net, fee) = sell(&mut boss, &mut ticket, 10).unwrap();
    assert_eq!(fee, 972);
    assert_eq!(net, 18_478);
    assert_eq!(boss.total_supply, 90);
    assert_eq!(boss.reserve_balance, 100_000 - 19_450);
    assert_eq!(boss.loot_pool, 972);
    assert_eq!(boss.current_hp, 50_000 + 9_725);
    assert_eq!(ticket.tokens_held, 10);
    // Selling more than held is rejected.
    assert_eq!(
        sell(&mut boss, &mut ticket, 11),
        Err(ErrorCode::InsufficientTokens)
    );
    assert_eq!(sell(&mut boss, &mut ticket, 0), Err(ErrorCode::ZeroSellAmount));
}

#[test]
fn sell_heal_caps_at_max_hp() {
    let mut boss = standard_boss();
    boss.total_supply = 100;
    boss.current_hp = 99_999;
    let mut ticket = RaidTicket::new(1, 77);
    ticket.tokens_held = 10;
    sell(&mut boss, &mut ticket, 10).unwrap();
    assert_eq!(boss.current_hp, 100_000);
}

#[test]
fn sell_rejects_dead_boss() {
    let mut boss = standard_boss();
    boss.status = BossStatus::Defeated;
    let mut ticket = RaidTicket::new(1, 77);
    ticket.tokens_held = 10;
    assert_eq!(sell(&mut boss, &mut ticket, 5), Err(ErrorCode::BossNotAlive));
}

#[test]
fn loot_claim_shares_by_damage() {
    let config = initialize_protocol_config(1, 2, 250);
    let mut boss = standard_boss();
    boss.status = BossStatus::Defeated;
    boss.loot_pool = 1_000_000;
    boss.total_damage = 4_000;
    let mut ticket = RaidTicket::new(1, 77);
    ticket.total_damage = 1_000;
    // gross = 1_000_000 * 1000 / 4000 = 250_000; protocol fee at 250 bps =
    // 6_250; net = 243_750.
    let (net, fee) = claim_loot(&boss, &mut ticket, &config).unwrap();
    assert_eq!(fee, 6_250);
    assert_eq!(net, 243_750);
    assert!(ticket.claimed);
    assert_eq!(
        claim_loot(&boss, &mut ticket, &config),
        Err(ErrorCode::AlreadyClaimed)
    );
}

#[test]
fn loot_claim_requires_defeat_and_damage() {
    let config = initialize_protocol_config(1, 2, 250);
    let boss = standard_boss();
    let mut ticket = RaidTicket::new(1, 77);
    assert_eq!(
        claim_loot(&boss, &mut ticket, &config),
        Err(ErrorCode::BossStillAlive)
    );
    let mut dead = standard_boss();
    dead.status = BossStatus::Defeated;
    dead.total_damage = 10;
    assert_eq!(
        claim_loot(&dead, &mut ticket, &config),
        Err(ErrorCode::NoDamageDealt)
    );
}
