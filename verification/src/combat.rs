//! Combat resolver: a randomness-seeded exchange simulation between two
//! fighters, consuming a 32-byte verified-random value supplied by the host.
//!
//! The whole fight is a pure function of the two fighters' stats and the
//! random bytes: `spec_combat_winner` pins the winner, and the executable
//! simulation is proved equal to it, so identical inputs always produce the
//! identical outcome.

use vstd::prelude::*;
use vstd::arithmetic::div_mod::{lemma_div_is_ordered, lemma_div_pos_is_pos, lemma_multiply_divide_le};
use crate::tournament::Fighter;

verus! {

/// Number of exchanges a fight runs at most.
pub const COMBAT_ROUNDS: usize = 10;

/// Which fighter won a simulated battle.
#[derive(Clone, Copy, Debug, PartialEq, Eq, Structural)]
pub enum CombatWinner {
    FighterA,
    FighterB,
}

/// Hit-point pools of the two fighters during a fight.
pub ghost struct HpPair {
    pub a: int,
    pub b: int,
}

/// Raw damage of one strike: `atk * roll / 255`, raised by half again on a
/// crit (the crit byte modulo 100 falling below the attacker's luck).
pub open spec fn spec_strike_damage(atk: u8, luck: u8, roll: u8, crit: u8) -> int {
    let base = atk * roll / 255;
    if crit % 100 < luck {
        base * 3 / 2
    } else {
        base
    }
}

/// Damage after the defender's mitigation: a third of the defense stat,
/// saturating at zero.
pub open spec fn spec_reduced_damage(dmg: int, def: u8) -> int {
    if dmg > def / 3 {
        dmg - def / 3
    } else {
        0
    }
}

/// One exchange: fighter A strikes; if A is faster and B just dropped to
/// zero, B's retaliation is skipped, otherwise B strikes back. Exchange `i`
/// draws its bytes from the pool at indices `3i`, `3i+1`, `3i+2` and
/// `3i+16`, each modulo 32.
pub open spec fn spec_exchange(a: Fighter, b: Fighter, rnd: Seq<u8>, i: int, hp: HpPair)
    -> HpPair
{
    let r0 = rnd[(3 * i) % 32];
    let r1 = rnd[(3 * i + 1) % 32];
    let crit_a = rnd[(3 * i + 2) % 32];
    let crit_b = rnd[(3 * i + 16) % 32];
    let dmg_a = spec_reduced_damage(spec_strike_damage(a.atk, a.luck, r0, crit_a), b.def);
    let hp_b1 = hp.b - dmg_a;
    if a.spd > b.spd && hp_b1 <= 0 {
        HpPair { a: hp.a, b: hp_b1 }
    } else {
        let dmg_b = spec_reduced_damage(spec_strike_damage(b.atk, b.luck, r1, crit_b), a.def);
        HpPair { a: hp.a - dmg_b, b: hp_b1 }
    }
}

/// Hit-point pools after the first `n` exchanges, starting from ten times
/// each hp stat. An exchange where either pool is already empty changes
/// nothing.
pub open spec fn spec_combat_state(a: Fighter, b: Fighter, rnd: Seq<u8>, n: nat) -> HpPair
    decreases n,
{
    if n == 0 {
        HpPair { a: a.hp * 10, b: b.hp * 10 }
    } else {
        let prev = spec_combat_state(a, b, rnd, (n - 1) as nat);
        if prev.a <= 0 || prev.b <= 0 {
            prev
        } else {
            spec_exchange(a, b, rnd, n - 1, prev)
        }
    }
}

/// The winner of a fight: whoever keeps the higher pool after ten exchanges;
/// an exact tie goes to the higher-luck fighter, and fighter A wins a
/// luck tie.
pub open spec fn spec_combat_winner(a: Fighter, b: Fighter, rnd: Seq<u8>) -> CombatWinner {
    let hp = spec_combat_state(a, b, rnd, 10);
    if hp.a > hp.b {
        CombatWinner::FighterA
    } else if hp.b > hp.a {
        CombatWinner::FighterB
    } else if a.luck >= b.luck {
        CombatWinner::FighterA
    } else {
        CombatWinner::FighterB
    }
}

/// One strike deals between 0 and 382 damage, whatever the stats and bytes.
proof fn lemma_strike_damage_bounds(atk: u8, luck: u8, roll: u8, crit: u8)
    ensures
        0 <= spec_strike_damage(atk, luck, roll, crit) <= 382,
{
    assert((atk as int) * (roll as int) <= 65025) by (nonlinear_arith)
        requires atk <= 255, roll <= 255;
    lemma_multiply_divide_le(atk as int * roll as int, 255, 255);
    lemma_div_pos_is_pos(atk as int * roll as int, 255);
    let base = atk as int * roll as int / 255;
    lemma_div_is_ordered(base * 3, 765, 2);
    lemma_div_pos_is_pos(base * 3, 2);
}

/// Mitigated damage stays within the strike's own bounds.
proof fn lemma_reduced_damage_bounds(dmg: int, def: u8)
    requires
        0 <= dmg,
    ensures
        0 <= spec_reduced_damage(dmg, def) <= dmg,
{
}

/// Once a pool is empty, later exchanges change nothing.
proof fn lemma_combat_state_fixpoint(a: Fighter, b: Fighter, rnd: Seq<u8>, n1: nat, n2: nat)
    requires
        n1 <= n2,
        spec_combat_state(a, b, rnd, n1).a <= 0 || spec_combat_state(a, b, rnd, n1).b <= 0,
    ensures
        spec_combat_state(a, b, rnd, n2) == spec_combat_state(a, b, rnd, n1),
    decreases n2,
{
    if n2 > n1 {
        lemma_combat_state_fixpoint(a, b, rnd, n1, (n2 - 1) as nat);
    }
}

/// Hit-point pools never rise, and never fall below ten exchanges of maximal
/// damage, so the 16-bit pools cannot overflow.
proof fn lemma_combat_state_bounds(a: Fighter, b: Fighter, rnd: Seq<u8>, n: nat)
    requires
        n <= 10,
    ensures
        spec_combat_state(a, b, rnd, n).a <= a.hp * 10,
        spec_combat_state(a, b, rnd, n).b <= b.hp * 10,
        spec_combat_state(a, b, rnd, n).a >= -400,
        spec_combat_state(a, b, rnd, n).b >= -400,
    decreases n,
{
    if n > 0 {
        lemma_combat_state_bounds(a, b, rnd, (n - 1) as nat);
        let prev = spec_combat_state(a, b, rnd, (n - 1) as nat);
        if prev.a > 0 && prev.b > 0 {
            let i = n - 1;
            lemma_strike_damage_bounds(a.atk, a.luck, rnd[(3 * i) % 32], rnd[(3 * i + 2) % 32]);
            lemma_strike_damage_bounds(b.atk, b.luck, rnd[(3 * i + 1) % 32], rnd[(3 * i + 16) % 32]);
            lemma_reduced_damage_bounds(
                spec_strike_damage(a.atk, a.luck, rnd[(3 * i) % 32], rnd[(3 * i + 2) % 32]),
                b.def,
            );
            lemma_reduced_damage_bounds(
                spec_strike_damage(b.atk, b.luck, rnd[(3 * i + 1) % 32], rnd[(3 * i + 16) % 32]),
                a.def,
            );
        }
    }
}

/// Runs the stat-weighted exchange simulation on the 32 random bytes and
/// returns the winner. The outcome is a pure function of the two fighters'
/// stats and the bytes: it equals `spec_combat_winner` exactly, so identical
/// inputs always yield the identical winner.
pub fn simulate_combat(a: &Fighter, b: &Fighter, random_value: &[u8; 32]) -> (w: CombatWinner)
    ensures
        w == spec_combat_winner(*a, *b, random_value@),
{
    let mut hp_a: i16 = a.hp as i16 * 10;
    let mut hp_b: i16 = b.hp as i16 * 10;

    let mut i: usize = 0;
    while i < COMBAT_ROUNDS
        invariant_except_break
            i <= COMBAT_ROUNDS,
            random_value@.len() == 32,
            hp_a as int == spec_combat_state(*a, *b, random_value@, i as nat).a,
            hp_b as int == spec_combat_state(*a, *b, random_value@, i as nat).b,
        ensures
            hp_a as int == spec_combat_state(*a, *b, random_value@, 10).a,
            hp_b as int == spec_combat_state(*a, *b, random_value@, 10).b,
        decreases COMBAT_ROUNDS - i,
    {
        if hp_a <= 0 || hp_b <= 0 {
            proof {
                lemma_combat_state_fixpoint(*a, *b, random_value@, i as nat, 10);
            }
            break;
        }
        proof {
            lemma_combat_state_bounds(*a, *b, random_value@, i as nat);
        }
        let r0 = random_value[(i * 3) % 32] as u16;
        let r1 = random_value[(i * 3 + 1) % 32] as u16;
        let crit = random_value[(i * 3 + 2) % 32] as u16;

        // Fighter A strikes.
        proof {
            assert((a.atk as int) * (r0 as int) <= 65025) by (nonlinear_arith)
                requires a.atk <= 255, r0 <= 255;
            lemma_multiply_divide_le(a.atk as int * r0 as int, 255, 255);
            lemma_div_pos_is_pos(a.atk as int * r0 as int, 255);
            lemma_div_is_ordered((a.atk as int * r0 as int / 255) * 3, 765, 2);
            lemma_div_pos_is_pos((a.atk as int * r0 as int / 255) * 3, 2);
        }
        let mut dmg_a = (a.atk as u16 * r0) / 255;
        if crit % 100 < a.luck as u16 {
            dmg_a = dmg_a * 3 / 2;
        }
        let reduced_a = dmg_a.saturating_sub(b.def as u16 / 3);
        hp_b = hp_b - reduced_a as i16;

        // Speed advantage: if A is faster and B just fell, B does not strike.
        if a.spd > b.spd && hp_b <= 0 {
            proof {
                assert(hp_b as int == spec_combat_state(
                    *a, *b, random_value@, (i + 1) as nat).b);
                lemma_combat_state_fixpoint(*a, *b, random_value@, (i + 1) as nat, 10);
            }
            break;
        }

        // Fighter B strikes back.
        let r_b = random_value[(i * 3 + 16) % 32] as u16;
        proof {
            assert((b.atk as int) * (r1 as int) <= 65025) by (nonlinear_arith)
                requires b.atk <= 255, r1 <= 255;
            lemma_multiply_divide_le(b.atk as int * r1 as int, 255, 255);
            lemma_div_pos_is_pos(b.atk as int * r1 as int, 255);
            lemma_div_is_ordered((b.atk as int * r1 as int / 255) * 3, 765, 2);
            lemma_div_pos_is_pos((b.atk as int * r1 as int / 255) * 3, 2);
        }
        let mut dmg_b = (b.atk as u16 * r1) / 255;
        if r_b % 100 < b.luck as u16 {
            dmg_b = dmg_b * 3 / 2;
        }
        let reduced_b = dmg_b.saturating_sub(a.def as u16 / 3);
        hp_a = hp_a - reduced_b as i16;

        i += 1;
    }

    if hp_a > hp_b {
        CombatWinner::FighterA
    } else if hp_b > hp_a {
        CombatWinner::FighterB
    } else if a.luck >= b.luck {
        CombatWinner::FighterA
    } else {
        CombatWinner::FighterB
    }
}

} // verus!
