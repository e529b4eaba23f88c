//! Bonding-curve engine: integer-only quote math for a linear price curve
//! `price(s) = base_price + slope * s`.
//!
//! Buying solves the quadratic obtained by integrating the price over the
//! purchased range, using an integer square root; selling uses the closed-form
//! discrete price sum. Both truncate down, so value lost to rounding stays
//! with the curve and a buy-then-sell round trip can never profit the trader.

use vstd::prelude::*;
use vstd::arithmetic::div_mod::{
    lemma_div_is_ordered, lemma_div_multiples_vanish, lemma_fundamental_div_mod,
    lemma_mod_division_less_than_divisor,
};
use crate::errors::ErrorCode;

verus! {

/// Discriminant of the buy quadratic: `b^2 + 2 * slope * sol_in` with
/// `b = base_price + slope * supply`.
pub open spec fn spec_disc(base_price: int, slope: int, supply: int, sol_in: int) -> int {
    let b = base_price + slope * supply;
    b * b + 2 * (slope * sol_in)
}

/// Characterizes the token amount returned for `sol_in` lamports: `t` is the
/// largest integer with `(b + slope * t)^2 <= b^2 + 2 * slope * sol_in`,
/// i.e. the integral of the price over `[supply, supply + t]` is at most
/// `sol_in` and one more token would exceed it.
pub open spec fn buy_quote_ok(
    base_price: int,
    slope: int,
    supply: int,
    sol_in: int,
    t: int,
) -> bool {
    let b = base_price + slope * supply;
    let disc = spec_disc(base_price, slope, supply, sol_in);
    &&& 0 <= t
    &&& (b + slope * t) * (b + slope * t) <= disc
    &&& (b + slope * (t + 1)) * (b + slope * (t + 1)) > disc
}

/// Lamports returned for selling `tokens` at outstanding supply `supply`:
/// the discrete sum of prices of tokens `supply - 1` down to
/// `supply - tokens`, truncating the halved product down.
pub open spec fn spec_sell_value(base_price: int, slope: int, supply: int, tokens: int) -> int {
    tokens * base_price + slope * tokens * (2 * supply - tokens - 1) / 2
}

/// Integer square root: the unique `r` with `r^2 <= n < (r + 1)^2`.
pub fn isqrt(n: u128) -> (r: u128)
    ensures
        (r as int) * (r as int) <= n as int,
        ((r as int) + 1) * ((r as int) + 1) > n as int,
        r <= 0xffff_ffff_ffff_ffff,
{
    if n == 0 {
        return 0;
    }
    let mut x: u128 = 0x1_0000_0000_0000_0000;
    proof {
        assert(((x as int) + 1) * ((x as int) + 1) > n as int) by (nonlinear_arith)
            requires
                x == 0x1_0000_0000_0000_0000,
                n < 0x1_0000_0000_0000_0000_0000_0000_0000_0000;
    }
    loop
        invariant_except_break
            1 <= x <= 0x1_0000_0000_0000_0000,
            ((x as int) + 1) * ((x as int) + 1) > n as int,
            n >= 1,
        ensures
            (x as int) * (x as int) <= n as int,
            ((x as int) + 1) * ((x as int) + 1) > n as int,
            x <= 0x1_0000_0000_0000_0000,
        decreases x,
    {
        proof {
            // n < (x + 1)^2 bounds the quotient: n / x <= x + 2.
            assert(n as int <= (x as int) * (x as int) + 2 * (x as int)) by (nonlinear_arith)
                requires ((x as int) + 1) * ((x as int) + 1) > n as int;
            lemma_div_is_ordered(
                n as int,
                (x as int) * (x as int) + 2 * (x as int),
                x as int,
            );
            assert((x as int) * (x as int) + 2 * (x as int) == ((x as int) + 2) * (x as int))
                by (nonlinear_arith);
            lemma_div_multiples_vanish(x as int + 2, x as int);
            assert((x as int) * ((x as int) + 2) == ((x as int) + 2) * (x as int))
                by (nonlinear_arith);
            assert(n as int / (x as int) <= x as int + 2);
        }
        let q: u128 = n / x;
        let y: u128 = (x + q) / 2;
        proof {
            lemma_fundamental_div_mod(n as int, x as int);
            lemma_mod_division_less_than_divisor(n as int, x as int);
            lemma_fundamental_div_mod((x + q) as int, 2);
            lemma_mod_division_less_than_divisor((x + q) as int, 2);
        }
        if y >= x {
            proof {
                // x + q >= 2 * y >= 2 * x forces q >= x, hence n >= q * x >= x^2.
                assert((x as int) * (x as int) <= n as int) by (nonlinear_arith)
                    requires
                        n as int == (x as int) * (n as int / (x as int)) + n as int % (x as int),
                        n as int % (x as int) >= 0,
                        n as int / (x as int) >= x as int,
                        x >= 1;
            }
            break;
        }
        proof {
            let xi: int = x as int;
            let qi: int = n as int / xi;
            let rem: int = n as int % xi;
            let yi: int = y as int;
            // 2 * y + 2 >= x + q + 1 because y = (x + q) / 2.
            assert(2 * yi + 2 >= xi + qi + 1);
            // (x + q + 1)^2 >= 4 * q * x + 4 * x, since (x - q - 1)^2 >= 0.
            assert((xi + qi + 1) * (xi + qi + 1) >= 4 * (qi * xi) + 4 * xi)
                by (nonlinear_arith);
            // 4 * q * x + 4 * x >= 4 * n + 4, since n = q * x + rem, rem <= x - 1.
            assert(4 * (qi * xi) + 4 * xi >= 4 * (n as int) + 4) by {
                assert(n as int == qi * xi + rem);
                assert(rem <= xi - 1);
            }
            // Square both sides and divide by 4.
            assert((2 * yi + 2) * (2 * yi + 2) >= (xi + qi + 1) * (xi + qi + 1))
                by (nonlinear_arith)
                requires 2 * yi + 2 >= xi + qi + 1, xi + qi + 1 >= 0;
            assert((2 * yi + 2) * (2 * yi + 2) == 4 * ((yi + 1) * (yi + 1)))
                by (nonlinear_arith);
            assert((yi + 1) * (yi + 1) > n as int);
            // y >= 1: if x were 1, the quotient would push y to at least x
            // and the loop would have exited instead of continuing.
            assert(xi >= 2) by {
                if xi == 1 {
                    assert(rem == 0);
                    assert(qi == n as int);
                    lemma_div_is_ordered(2, xi + qi, 2);
                    lemma_div_multiples_vanish(1, 2);
                    assert(false);
                }
            };
            lemma_div_is_ordered(2, xi + qi, 2);
            lemma_div_multiples_vanish(1, 2);
            assert(yi >= 1);
        }
        x = y;
    }
    proof {
        assert(x <= 0xffff_ffff_ffff_ffff) by (nonlinear_arith)
            requires
                (x as int) * (x as int) <= n as int,
                n < 0x1_0000_0000_0000_0000_0000_0000_0000_0000,
                x <= 0x1_0000_0000_0000_0000;
    }
    x
}

/// Tokens bought with `sol_in` lamports at outstanding supply
/// `current_supply`: the number of whole tokens whose integrated price fits
/// within `sol_in`, truncating down. Fails exactly when the discriminant of
/// the quote quadratic exceeds the 128-bit range.
pub fn tokens_for_sol(
    base_price: u64,
    slope: u64,
    current_supply: u64,
    sol_in: u64,
) -> (r: Result<u64, ErrorCode>)
    requires
        base_price >= 1,
        slope >= 1,
    ensures
        r is Ok <==> spec_disc(base_price as int, slope as int, current_supply as int, sol_in as int)
            <= 0xffff_ffff_ffff_ffff_ffff_ffff_ffff_ffff,
        r matches Ok(t) ==> buy_quote_ok(
            base_price as int,
            slope as int,
            current_supply as int,
            sol_in as int,
            t as int,
        ),
        r matches Err(e) ==> e == ErrorCode::MathOverflow,
{
    let bp: u128 = base_price as u128;
    let sl: u128 = slope as u128;
    let s: u128 = current_supply as u128;
    let sol: u128 = sol_in as u128;

    let ghost bi0: int = base_price as int;
    let ghost sli0: int = slope as int;
    let ghost si0: int = current_supply as int;
    let ghost soli0: int = sol_in as int;
    let ghost spec_b: int = bi0 + sli0 * si0;
    let ghost spec_d: int = spec_disc(bi0, sli0, si0, soli0);

    proof {
        assert((sl as int) * (s as int) + (bp as int)
            < 0x1_0000_0000_0000_0000_0000_0000_0000_0000) by (nonlinear_arith)
            requires
                sl < 0x1_0000_0000_0000_0000,
                s < 0x1_0000_0000_0000_0000,
                bp < 0x1_0000_0000_0000_0000;
        assert((sl as int) * (sol as int)
            < 0x1_0000_0000_0000_0000_0000_0000_0000_0000) by (nonlinear_arith)
            requires
                sl < 0x1_0000_0000_0000_0000,
                sol < 0x1_0000_0000_0000_0000;
        assert((sl as int) * (s as int) == sli0 * si0);
        assert((sl as int) * (sol as int) == sli0 * soli0);
    }
    let b: u128 = bp + sl * s;
    proof {
        assert(b as int == spec_b);
        assert(spec_b * spec_b >= 0 && spec_b * spec_b == (b as int) * (b as int))
            by (nonlinear_arith)
            requires spec_b == b as int;
    }
    let b_sq = match b.checked_mul(b) {
        Some(v) => v,
        None => {
            proof {
                assert(sli0 * soli0 >= 0) by (nonlinear_arith)
                    requires sli0 >= 0, soli0 >= 0;
                assert(spec_d > 0xffff_ffff_ffff_ffff_ffff_ffff_ffff_ffff);
            }
            return Err(ErrorCode::MathOverflow);
        },
    };
    let two_sl_sol = match (sl * sol).checked_mul(2) {
        Some(v) => v,
        None => {
            proof {
                assert(spec_d > 0xffff_ffff_ffff_ffff_ffff_ffff_ffff_ffff);
            }
            return Err(ErrorCode::MathOverflow);
        },
    };
    let disc = match b_sq.checked_add(two_sl_sol) {
        Some(v) => v,
        None => {
            proof {
                assert(spec_d > 0xffff_ffff_ffff_ffff_ffff_ffff_ffff_ffff);
            }
            return Err(ErrorCode::MathOverflow);
        },
    };
    proof {
        assert(disc as int == spec_d);
    }
    let sqrt_disc: u128 = isqrt(disc);
    proof {
        let bi: int = b as int;
        let ri: int = sqrt_disc as int;
        assert(disc as int >= bi * bi);
        // sqrt_disc >= b because disc >= b^2.
        assert(ri >= bi) by (nonlinear_arith)
            requires
                (ri + 1) * (ri + 1) > disc as int,
                disc as int >= bi * bi,
                bi >= 0,
                ri >= 0;
        lemma_fundamental_div_mod(ri - bi, sl as int);
        lemma_mod_division_less_than_divisor(ri - bi, sl as int);
    }
    let tokens: u128 = (sqrt_disc - b) / sl;
    proof {
        let bi: int = b as int;
        let ri: int = sqrt_disc as int;
        let sli: int = sl as int;
        let ti: int = tokens as int;
        let disci: int = disc as int;
        // slope * tokens <= sqrt_disc - b, so (b + slope * tokens)^2 <= disc.
        assert(sli * ti <= ri - bi && sli * (ti + 1) >= ri - bi + 1) by (nonlinear_arith)
            requires
                ri - bi == sli * ti + ((ri - bi) % sli),
                0 <= (ri - bi) % sli < sli,
                sli >= 1;
        assert((bi + sli * ti) * (bi + sli * ti) <= disci) by (nonlinear_arith)
            requires
                sli * ti <= ri - bi,
                sli * ti >= 0,
                bi >= 0,
                ri * ri <= disci;
        assert((bi + sli * (ti + 1)) * (bi + sli * (ti + 1)) > disci) by (nonlinear_arith)
            requires
                sli * (ti + 1) >= ri - bi + 1,
                bi >= 0,
                ri >= bi,
                (ri + 1) * (ri + 1) > disci;
        // tokens <= sqrt_disc < 2^64, so the cast is lossless.
        lemma_div_is_ordered(ri - bi, ri, sli);
        assert(ri / sli <= ri) by {
            lemma_div_is_ordered_by_denominator_helper(ri, sli);
        }
    }
    Ok(tokens as u64)
}

/// A quotient by a divisor of at least one never exceeds the dividend.
proof fn lemma_div_is_ordered_by_denominator_helper(x: int, d: int)
    requires
        x >= 0,
        d >= 1,
    ensures
        x / d <= x,
{
    lemma_fundamental_div_mod(x, d);
    lemma_mod_division_less_than_divisor(x, d);
    assert(x / d <= x) by (nonlinear_arith)
        requires
            x == d * (x / d) + x % d,
            x % d >= 0,
            d >= 1,
            x >= 0;
}

/// Lamports paid out for selling `tokens` at outstanding supply
/// `current_supply`, truncating down. Fails exactly when the mathematical
/// payout does not fit in 64 bits.
pub fn sol_for_tokens(
    base_price: u64,
    slope: u64,
    current_supply: u64,
    tokens: u64,
) -> (r: Result<u64, ErrorCode>)
    requires
        1 <= tokens,
        tokens <= current_supply,
    ensures
        r is Ok <==> spec_sell_value(
            base_price as int,
            slope as int,
            current_supply as int,
            tokens as int,
        ) <= 0xffff_ffff_ffff_ffff,
        r matches Ok(v) ==> v == spec_sell_value(
            base_price as int,
            slope as int,
            current_supply as int,
            tokens as int,
        ),
        r matches Err(e) ==> e == ErrorCode::MathOverflow,
{
    let bp: u128 = base_price as u128;
    let sl: u128 = slope as u128;
    let s: u128 = current_supply as u128;
    let t: u128 = tokens as u128;

    proof {
        assert((t as int) * (bp as int) < 0x1_0000_0000_0000_0000_0000_0000_0000_0000
            && (sl as int) * (t as int) < 0x1_0000_0000_0000_0000_0000_0000_0000_0000)
            by (nonlinear_arith)
            requires
                t < 0x1_0000_0000_0000_0000,
                bp < 0x1_0000_0000_0000_0000,
                sl < 0x1_0000_0000_0000_0000;
    }
    let base_part: u128 = t * bp;
    let span: u128 = 2 * s - t - 1;
    let slope_part_double = match (sl * t).checked_mul(span) {
        Some(v) => v,
        None => {
            proof {
                lemma_sell_value_overflow(
                    bp as int, sl as int, s as int, t as int,
                );
            }
            return Err(ErrorCode::MathOverflow);
        },
    };
    let slope_part: u128 = slope_part_double / 2;
    let total = match base_part.checked_add(slope_part) {
        Some(v) => v,
        None => {
            proof {
                lemma_div_is_ordered_by_denominator_helper(slope_part_double as int, 2);
            }
            return Err(ErrorCode::MathOverflow);
        },
    };
    if total > 0xffff_ffff_ffff_ffffu128 {
        return Err(ErrorCode::MathOverflow);
    }
    Ok(total as u64)
}

/// If the doubled slope part of the sell formula overflows 128 bits, the
/// total payout exceeds 64 bits.
proof fn lemma_sell_value_overflow(bp: int, sl: int, s: int, t: int)
    requires
        0 <= bp,
        0 <= sl,
        1 <= t <= s,
        sl * t * (2 * s - t - 1) > 0xffff_ffff_ffff_ffff_ffff_ffff_ffff_ffff,
    ensures
        spec_sell_value(bp, sl, s, t) > 0xffff_ffff_ffff_ffff,
{
    let p: int = sl * t * (2 * s - t - 1);
    lemma_div_is_ordered(2 * 0xffff_ffff_ffff_ffff as int + 2, p, 2);
    assert((2 * 0xffff_ffff_ffff_ffff + 2) / 2 == 0xffff_ffff_ffff_ffff + 1);
    assert(t * bp >= 0) by (nonlinear_arith)
        requires t >= 0, bp >= 0;
}

/// Law: a buy-then-sell round trip never profits the trader. If `t` tokens
/// were quoted for `sol_in` lamports at supply `supply`, then selling those
/// `t` tokens back at the increased supply `supply + t` returns at most
/// `sol_in`.
pub proof fn lemma_round_trip_never_profits(
    base_price: int,
    slope: int,
    supply: int,
    sol_in: int,
    t: int,
)
    requires
        base_price >= 1,
        slope >= 1,
        supply >= 0,
        sol_in >= 0,
        buy_quote_ok(base_price, slope, supply, sol_in, t),
    ensures
        spec_sell_value(base_price, slope, supply + t, t) <= sol_in,
{
    let b: int = base_price + slope * supply;
    let p: int = slope * t * (2 * (supply + t) - t - 1);
    // The halved product is exact: p is even.
    let k: int = half_of_even_product(slope, supply, t);
    assert(p == 2 * k);
    lemma_div_multiples_vanish(k, 2);
    assert(p / 2 == k);
    // 2 * sell = 2 * t * base_price + p = 2 * t * b + slope * t^2 - slope * t.
    assert(2 * (t * base_price) + p == 2 * t * b + slope * (t * t) - slope * t)
        by (nonlinear_arith)
        requires
            b == base_price + slope * supply,
            p == slope * t * (2 * (supply + t) - t - 1);
    // From the quote bound: 2 * t * b + slope * t^2 <= 2 * sol_in.
    assert(2 * t * b + slope * (t * t) <= 2 * sol_in) by (nonlinear_arith)
        requires
            slope >= 1,
            t >= 0,
            b >= 1,
            (b + slope * t) * (b + slope * t) <= b * b + 2 * (slope * sol_in);
    assert(slope * t >= 0) by (nonlinear_arith)
        requires slope >= 0, t >= 0;
    assert(2 * spec_sell_value(base_price, slope, supply + t, t) <= 2 * sol_in);
}

/// Witness that `slope * t * (2 * (supply + t) - t - 1)` is even: returns its
/// exact half.
proof fn half_of_even_product(slope: int, supply: int, t: int) -> (k: int)
    requires
        t >= 0,
    ensures
        slope * t * (2 * (supply + t) - t - 1) == 2 * k,
{
    let span: int = 2 * (supply + t) - t - 1;
    lemma_fundamental_div_mod(t, 2);
    lemma_mod_division_less_than_divisor(t, 2);
    if t % 2 == 0 {
        let h: int = t / 2;
        assert(slope * t * span == 2 * (slope * h * span)) by (nonlinear_arith)
            requires t == 2 * h;
        slope * (t / 2) * span
    } else {
        // t odd makes span = 2 * supply + t - 1 even.
        let h: int = supply + (t - 1) / 2;
        lemma_fundamental_div_mod(t - 1, 2);
        lemma_mod_division_less_than_divisor(t - 1, 2);
        assert((t - 1) % 2 == 0) by {
            assert(t % 2 == 1);
        }
        assert(span == 2 * h) by (nonlinear_arith)
            requires t - 1 == 2 * ((t - 1) / 2), h == supply + (t - 1) / 2,
                span == 2 * (supply + t) - t - 1;
        assert(slope * t * span == 2 * (slope * t * h)) by (nonlinear_arith)
            requires span == 2 * h;
        slope * t * h
    }
}

/// The buy quote is unique: at most one token count satisfies both bounds of
/// `buy_quote_ok` for given curve parameters and payment.
pub proof fn lemma_buy_quote_unique(
    base_price: int,
    slope: int,
    supply: int,
    sol_in: int,
    t1: int,
    t2: int,
)
    requires
        base_price >= 1,
        slope >= 1,
        supply >= 0,
        sol_in >= 0,
        buy_quote_ok(base_price, slope, supply, sol_in, t1),
        buy_quote_ok(base_price, slope, supply, sol_in, t2),
    ensures
        t1 == t2,
{
    let b = base_price + slope * supply;
    let disc = spec_disc(base_price, slope, supply, sol_in);
    if t1 < t2 {
        assert(false) by (nonlinear_arith)
            requires
                slope >= 1,
                b >= 1,
                0 <= t1,
                t1 + 1 <= t2,
                (b + slope * (t1 + 1)) * (b + slope * (t1 + 1)) > disc,
                (b + slope * t2) * (b + slope * t2) <= disc;
    }
    if t2 < t1 {
        assert(false) by (nonlinear_arith)
            requires
                slope >= 1,
                b >= 1,
                0 <= t2,
                t2 + 1 <= t1,
                (b + slope * (t2 + 1)) * (b + slope * (t2 + 1)) > disc,
                (b + slope * t1) * (b + slope * t1) <= disc;
    }
}

} // verus!
