//! Payout calculator: fee splits and proportional shares over integer
//! balances and basis points.
//!
//! Every division truncates toward zero; the dust lost to truncation stays
//! with the protocol, so shares can never overdistribute a pool.

use vstd::prelude::*;
use vstd::arithmetic::div_mod::{
    lemma_div_by_multiple, lemma_div_is_ordered, lemma_div_pos_is_pos,
    lemma_fundamental_div_mod, lemma_mod_division_less_than_divisor,
    lemma_multiply_divide_le,
};
use vstd::arithmetic::mul::lemma_mul_inequality;
use crate::BPS_DENOMINATOR;

verus! {

/// Fee taken from `total` at `bps` basis points, truncating down.
pub open spec fn spec_fee(total: int, bps: int) -> int {
    total * bps / (BPS_DENOMINATOR as int)
}

/// Share of `distributable` owed to a participant holding `amount` out of
/// `pool_total`, truncating down.
pub open spec fn spec_share(amount: int, distributable: int, pool_total: int) -> int {
    amount * distributable / pool_total
}

/// Splits `total` into a fee at `bps` basis points and the remainder.
/// Fee first, remainder second; the two always sum back to `total`.
pub fn fee_split(total: u64, bps: u16) -> (r: (u64, u64))
    requires
        bps <= BPS_DENOMINATOR,
    ensures
        r.0 == spec_fee(total as int, bps as int),
        r.1 == total - r.0,
        r.0 + r.1 == total,
        r.0 <= total,
{
    proof {
        assert((total as int) * (bps as int) < 0x1_0000_0000_0000_0000_0000_0000_0000_0000)
            by (nonlinear_arith)
            requires total < 0x1_0000_0000_0000_0000, bps <= 10_000;
    }
    let fee_wide: u128 = (total as u128) * (bps as u128) / (BPS_DENOMINATOR as u128);
    proof {
        lemma_mul_inequality(bps as int, BPS_DENOMINATOR as int, total as int);
        lemma_multiply_divide_le(
            total as int * bps as int,
            BPS_DENOMINATOR as int,
            total as int,
        );
    }
    let fee = fee_wide as u64;
    (fee, total - fee)
}

/// Proportional payout: `amount / pool_total` of `distributable`,
/// truncating down. Never exceeds `distributable`.
pub fn proportional_share(amount: u64, distributable: u64, pool_total: u64) -> (share: u64)
    requires
        pool_total >= 1,
        amount <= pool_total,
    ensures
        share == spec_share(amount as int, distributable as int, pool_total as int),
        share <= distributable,
{
    proof {
        assert((amount as int) * (distributable as int)
            < 0x1_0000_0000_0000_0000_0000_0000_0000_0000)
            by (nonlinear_arith)
            requires
                amount < 0x1_0000_0000_0000_0000,
                distributable < 0x1_0000_0000_0000_0000;
    }
    let share_wide: u128 =
        (amount as u128) * (distributable as u128) / (pool_total as u128);
    proof {
        lemma_mul_inequality(amount as int, pool_total as int, distributable as int);
        lemma_multiply_divide_le(
            amount as int * distributable as int,
            pool_total as int,
            distributable as int,
        );
    }
    share_wide as u64
}

/// Sum of a sequence of amounts.
pub open spec fn sum_amounts(s: Seq<int>) -> int
    decreases s.len(),
{
    if s.len() == 0 {
        0
    } else {
        s[0] + sum_amounts(s.drop_first())
    }
}

/// Sum of the proportional shares owed to each amount in `s`.
pub open spec fn sum_shares(s: Seq<int>, distributable: int, pool_total: int) -> int
    decreases s.len(),
{
    if s.len() == 0 {
        0
    } else {
        spec_share(s[0], distributable, pool_total)
            + sum_shares(s.drop_first(), distributable, pool_total)
    }
}

/// A sum of non-negative amounts is non-negative.
proof fn lemma_sum_amounts_nonneg(s: Seq<int>)
    requires
        forall|i: int| 0 <= i < s.len() ==> s[i] >= 0,
    ensures
        sum_amounts(s) >= 0,
    decreases s.len(),
{
    if s.len() > 0 {
        lemma_sum_amounts_nonneg(s.drop_first());
    }
}

/// Truncating divisions only lose value: the floor of two summands never
/// exceeds the floor of their sum.
pub proof fn lemma_div_sum_le(a: int, b: int, p: int)
    requires
        a >= 0,
        b >= 0,
        p >= 1,
    ensures
        a / p + b / p <= (a + b) / p,
{
    lemma_fundamental_div_mod(a, p);
    lemma_fundamental_div_mod(b, p);
    lemma_mod_division_less_than_divisor(a, p);
    lemma_mod_division_less_than_divisor(b, p);
    assert(p * (a / p + b / p) == p * (a / p) + p * (b / p)) by (nonlinear_arith);
    assert(p * (a / p + b / p) <= a + b);
    lemma_div_is_ordered(p * (a / p + b / p), a + b, p);
    lemma_div_pos_is_pos(a, p);
    lemma_div_pos_is_pos(b, p);
    lemma_div_by_multiple(a / p + b / p, p);
    assert((a / p + b / p) * p == p * (a / p + b / p)) by (nonlinear_arith);
}

/// The shares of a set of participants never exceed `amounts_total * d / p`.
proof fn lemma_sum_shares_le(s: Seq<int>, d: int, p: int)
    requires
        p >= 1,
        d >= 0,
        forall|i: int| 0 <= i < s.len() ==> s[i] >= 0,
    ensures
        sum_shares(s, d, p) <= sum_amounts(s) * d / p,
    decreases s.len(),
{
    if s.len() == 0 {
        assert(0 * d == 0) by (nonlinear_arith);
    } else {
        let rest = s.drop_first();
        assert(forall|i: int| 0 <= i < rest.len() ==> rest[i] >= 0);
        lemma_sum_shares_le(rest, d, p);
        lemma_sum_amounts_nonneg(rest);
        assert(s[0] * d >= 0) by (nonlinear_arith)
            requires s[0] >= 0, d >= 0;
        assert(sum_amounts(rest) * d >= 0) by (nonlinear_arith)
            requires sum_amounts(rest) >= 0, d >= 0;
        lemma_div_sum_le(s[0] * d, sum_amounts(rest) * d, p);
        assert(s[0] * d + sum_amounts(rest) * d == (s[0] + sum_amounts(rest)) * d)
            by (nonlinear_arith);
    }
}

/// Law: proportional shares across all participants sum to at most the
/// distributable total. If each participant holds a non-negative amount and
/// the amounts together do not exceed the pool, then the truncating shares
/// `amount * distributable / pool_total` together never exceed
/// `distributable`.
pub proof fn lemma_shares_never_overdistribute(s: Seq<int>, distributable: int, pool_total: int)
    requires
        pool_total >= 1,
        distributable >= 0,
        forall|i: int| 0 <= i < s.len() ==> s[i] >= 0,
        sum_amounts(s) <= pool_total,
    ensures
        sum_shares(s, distributable, pool_total) <= distributable,
{
    lemma_sum_shares_le(s, distributable, pool_total);
    lemma_sum_amounts_nonneg(s);
    lemma_mul_inequality(sum_amounts(s), pool_total, distributable);
    lemma_multiply_divide_le(
        sum_amounts(s) * distributable,
        pool_total,
        distributable,
    );
}

} // verus!
