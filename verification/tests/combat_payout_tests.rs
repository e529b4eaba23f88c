use deadmint::combat::{simulate_combat, CombatWinner};
use deadmint::payout::{fee_split, proportional_share};
use deadmint::tournament::Fighter;

fn fighter(stats: [u8; 5]) -> Fighter {
    Fighter {
        tournament: 1,
        owner: 2,
        token_mint: 3,
        token_name: String::from("Fighter"),
        token_symbol: String::from("FTR"),
        hp: stats[0],
        atk: stats[1],
        def: stats[2],
        spd: stats[3],
        luck: stats[4],
        seed_index: 0,
        is_alive: true,
        wins: 0,
        deposited_amount: 1,
    }
}

#[test]
fn combat_is_deterministic() {
    // Identical inputs always produce the identical winner.
    let a = fighter([80, 90, 40, 70, 30]);
    let b = fighter([60, 50, 80, 20, 60]);
    let mut rnd = [0u8; 32];
    for (i, byte) in rnd.iter_mut().enumerate() {
        *byte = (i as u8).wrapping_mul(37).wrapping_add(11);
    }
    let first = simulate_combat(&a, &b, &rnd);
    for _ in 0..10 {
        assert_eq!(simulate_combat(&a, &b, &rnd), first);
    }
}

#[test]
fn stronger_fighter_wins_a_lopsided_match() {
    // With maximal rolls and no crits or mitigation, A deals its full attack
    // stat each exchange while B deals nothing: A must win.
    let a = fighter([10, 100, 0, 1, 0]);
    let b = fighter([10, 0, 0, 1, 0]);
    let rnd = [255u8; 32]; // crit byte 255 % 100 = 55 >= luck 0: no crits
    assert_eq!(simulate_combat(&a, &b, &rnd), CombatWinner::FighterA);
}

#[test]
fn exact_tie_goes_to_higher_luck() {
    // Zero attack on both sides: pools never move, an exact tie.
    let a = fighter([10, 0, 0, 1, 20]);
    let b = fighter([10, 0, 0, 1, 30]);
    let rnd = [0u8; 32];
    assert_eq!(simulate_combat(&a, &b, &rnd), CombatWinner::FighterB);
    // A luck tie breaks to fighter A.
    let c = fighter([10, 0, 0, 1, 30]);
    assert_eq!(simulate_combat(&c, &b, &rnd), CombatWinner::FighterA);
}

#[test]
fn exact_exchange_arithmetic() {
    // One-sided fight with flat bytes 255: damage per exchange is
    // atk * 255 / 255 = 60, minus def / 3 = 10, so 50 per hit. B's pool is
    // 100; A is faster, so after B drops at the second exchange B never
    // retaliates; A keeps its full pool and wins.
    let a = fighter([10, 60, 0, 9, 0]);
    let b = fighter([10, 0, 30, 1, 0]);
    let rnd = [255u8; 32];
    assert_eq!(simulate_combat(&a, &b, &rnd), CombatWinner::FighterA);
}

#[test]
fn fee_split_exact_and_complementary() {
    // fee + net == total across the whole bps range.
    assert_eq!(fee_split(10_000, 0), (0, 10_000));
    assert_eq!(fee_split(10_000, 300), (300, 9_700));
    assert_eq!(fee_split(10_000, 10_000), (10_000, 0));
    assert_eq!(fee_split(33_333, 333), (1_109, 32_224)); // floor(33_333 * 333 / 10_000)
    for total in [0u64, 1, 999, 123_456_789, u64::MAX] {
        for bps in [0u16, 1, 250, 9_999, 10_000] {
            let (fee, net) = fee_split(total, bps);
            assert_eq!(fee + net, total);
            assert!(fee <= total);
        }
    }
}

#[test]
fn proportional_share_exact_and_bounded() {
    assert_eq!(proportional_share(1_000, 1_000_000, 4_000), 250_000);
    assert_eq!(proportional_share(1, 10, 3), 3); // floor(1 * 10 / 3)
    assert_eq!(proportional_share(3, 10, 3), 10);
    // Shares across participants never exceed the distributable total.
    let amounts = [5u64, 10, 20, 30];
    let pool: u64 = amounts.iter().sum();
    let distributable = 1_000_003u64;
    let total_shares: u64 = amounts
        .iter()
        .map(|&a| proportional_share(a, distributable, pool))
        .sum();
    assert!(total_shares <= distributable);
}
