use deadmint::curve::{isqrt, sol_for_tokens, tokens_for_sol};

#[test]
fn isqrt_exact_values() {
    assert_eq!(isqrt(0), 0);
    assert_eq!(isqrt(1), 1);
    assert_eq!(isqrt(2), 1);
    assert_eq!(isqrt(3), 1);
    assert_eq!(isqrt(4), 2);
    assert_eq!(isqrt(99), 9);
    assert_eq!(isqrt(100), 10);
    assert_eq!(isqrt(10_000), 100);
    assert_eq!(isqrt(u64::MAX as u128), 4_294_967_295);
    assert_eq!(isqrt(u128::MAX), u64::MAX as u128);
}

#[test]
fn buy_quote_from_flat_curve() {
    // base_price 1000, slope 10, supply 0: b = 1000.
    // disc = 1000^2 + 2 * 10 * sol_in. For sol_in = 100_500:
    // disc = 1_000_000 + 2_010_000 = 3_010_000, sqrt = 1734 (1734^2 = 3_006_756).
    // tokens = (1734 - 1000) / 10 = 73.
    assert_eq!(tokens_for_sol(1000, 10, 0, 100_500), Ok(73));
}

#[test]
fn buy_quote_single_token() {
    // Paying exactly the first token's price-sum buys one token.
    // sell_value(1000, 10, 1, 1) = 1 * 1000 + 10 * 1 * (2 * 1 - 1 - 1) / 2 = 1000.
    assert_eq!(tokens_for_sol(1000, 10, 0, 1005), Ok(1));
    assert_eq!(sol_for_tokens(1000, 10, 1, 1), Ok(1000));
}

#[test]
fn buy_quote_zero_lamports_buys_nothing() {
    assert_eq!(tokens_for_sol(1000, 10, 0, 0), Ok(0));
}

#[test]
fn sell_value_closed_form() {
    // sell_value(bp, sl, s, t) = t * bp + sl * t * (2s - t - 1) / 2
    // (1000, 10, 100, 10) = 10_000 + 10 * 10 * 189 / 2 = 10_000 + 9_450 = 19_450.
    assert_eq!(sol_for_tokens(1000, 10, 100, 10), Ok(19_450));
}

#[test]
fn sell_overflow_is_reported() {
    // The payout of selling near-max tokens at near-max supply with a large
    // slope cannot fit in 64 bits.
    assert!(sol_for_tokens(1, u64::MAX, u64::MAX, u64::MAX).is_err());
}

#[test]
fn buy_overflow_is_reported() {
    // b = base_price + slope * supply is astronomically large, so the
    // discriminant exceeds the 128-bit range.
    assert!(tokens_for_sol(u64::MAX, u64::MAX, u64::MAX, u64::MAX).is_err());
}

#[test]
fn round_trip_never_profits() {
    // Buy with sol_in at supply s, then sell the tokens back at supply s + t:
    // the payout never exceeds what was paid.
    let cases: [(u64, u64, u64, u64); 5] = [
        (1000, 10, 0, 100_500),
        (1000, 10, 0, 1_000_000),
        (1, 1, 0, 12_345),
        (1000, 10, 5_000, 777_777_777),
        (123, 7, 999, 1_000_000_000_000),
    ];
    for (bp, sl, s, sol_in) in cases {
        let t = tokens_for_sol(bp, sl, s, sol_in).unwrap();
        if t > 0 {
            let back = sol_for_tokens(bp, sl, s + t, t).unwrap();
            assert!(back <= sol_in, "bought {t} for {sol_in}, sold back for {back}");
        }
    }
}
