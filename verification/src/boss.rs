//! Boss-raid minigame: attackers buy virtual tokens on the boss's bonding
//! curve, a verified-random byte resolves each attack into a hit tier and
//! damage, tokens can be sold back to the curve (healing the boss), and the
//! loot pool is shared by damage dealt once the boss falls.
//!
//! Randomness follows the two-phase protocol: `commit_attack` freezes the
//! purchase on the raid ticket (at most one pending attack per ticket), and
//! `resolve_attack` consumes the delivered randomness exactly once, failing
//! cleanly when nothing is pending.

use vstd::prelude::*;
use vstd::string::StrSliceExecFns;
use crate::curve::{buy_quote_ok, sol_for_tokens, spec_disc, spec_sell_value, tokens_for_sol};
use crate::errors::ErrorCode;
use crate::payout::{fee_split, proportional_share, spec_fee, spec_share};
use crate::tournament::ProtocolConfig;

verus! {

/// Longest boss name, in characters.
pub const MAX_BOSS_NAME: usize = 32;
/// Largest allowed defense stat; keeps every boss killable.
pub const MAX_DEFENSE: u8 = 80;
/// Largest allowed sell fee (10%).
pub const MAX_SELL_FEE_BPS: u16 = 1_000;
/// Token share lost to the loot pool on a boss counter (10%).
pub const COUNTER_TOKEN_LOSS_BPS: u64 = 1_000;

/// Roll below this is a miss.
pub const HIT_MISS_UPPER: u8 = 5;
/// Roll below this (and at least the miss bound) is a normal hit.
pub const HIT_NORMAL_UPPER: u8 = 50;
/// Roll below this is a strong hit.
pub const HIT_STRONG_UPPER: u8 = 80;
/// Roll below this is a critical hit.
pub const HIT_CRIT_UPPER: u8 = 95;
/// Roll below this is a mega crit; at or above, the boss counters.
pub const HIT_MEGA_UPPER: u8 = 99;

/// Outcome tier of one attack roll.
#[derive(Clone, Copy, Debug, PartialEq, Eq, Structural)]
pub enum HitTier {
    Miss,
    Normal,
    Strong,
    Crit,
    Mega,
    BossCounter,
}

/// Whether the boss still stands.
#[derive(Clone, Copy, Debug, PartialEq, Eq, Structural)]
pub enum BossStatus {
    Alive,
    Defeated,
}

/// Tier of a roll in `[0, 100)`: fixed thresholds 5/50/80/95/99.
pub open spec fn spec_hit_tier(roll: int) -> HitTier {
    if roll < HIT_MISS_UPPER {
        HitTier::Miss
    } else if roll < HIT_NORMAL_UPPER {
        HitTier::Normal
    } else if roll < HIT_STRONG_UPPER {
        HitTier::Strong
    } else if roll < HIT_CRIT_UPPER {
        HitTier::Crit
    } else if roll < HIT_MEGA_UPPER {
        HitTier::Mega
    } else {
        HitTier::BossCounter
    }
}

/// Damage multiplier of a tier, in hundredths.
pub open spec fn spec_tier_multiplier(tier: HitTier) -> int {
    match tier {
        HitTier::Miss => 0,
        HitTier::Normal => 100,
        HitTier::Strong => 150,
        HitTier::Crit => 200,
        HitTier::Mega => 300,
        HitTier::BossCounter => 100,
    }
}

/// Damage dealt by an attack: `tokens * multiplier * (100 - defense)`,
/// scaled back down by the two hundred-denominators, truncating.
pub open spec fn spec_attack_damage(tokens: int, tier: HitTier, defense: int) -> int {
    tokens * spec_tier_multiplier(tier) * (100 - defense) / 10_000
}

/// One raider's record against one boss: token balance, damage dealt, and
/// the single pending attack awaiting randomness, if any.
#[derive(Clone, Copy, Debug, PartialEq, Eq, Structural)]
pub struct RaidTicket {
    /// Boss id this ticket belongs to.
    pub boss: u64,
    /// Authority id of the raider.
    pub player: u64,
    /// Virtual token balance.
    pub tokens_held: u64,
    /// Cumulative damage dealt to the boss.
    pub total_damage: u64,
    /// Lamports committed in the pending attack; 0 means none pending.
    pub pending_sol: u64,
    /// Tokens the pending attack will credit once resolved.
    pub pending_tokens: u64,
    /// Loot claimed.
    pub claimed: bool,
}

impl RaidTicket {
    /// A fresh ticket with no balance, damage or pending attack.
    pub fn new(boss: u64, player: u64) -> (t: RaidTicket)
        ensures
            t == (RaidTicket {
                boss,
                player,
                tokens_held: 0,
                total_damage: 0,
                pending_sol: 0,
                pending_tokens: 0,
                claimed: false,
            }),
    {
        RaidTicket {
            boss,
            player,
            tokens_held: 0,
            total_damage: 0,
            pending_sol: 0,
            pending_tokens: 0,
            claimed: false,
        }
    }
}

/// Ghost mirror of a `Boss`: the name as a character sequence plus the
/// scalar fields.
pub ghost struct BossView {
    pub id: u64,
    pub creator: u64,
    pub name: Seq<char>,
    pub max_hp: u64,
    pub current_hp: u64,
    pub defense: u8,
    pub status: BossStatus,
    pub base_price: u64,
    pub slope: u64,
    pub total_supply: u64,
    pub reserve_balance: u64,
    pub loot_pool: u64,
    pub total_damage: u64,
    pub attack_fee_bps: u16,
    pub sell_fee_bps: u16,
}

/// A raid boss: an HP pool, a defense stat, and a linear bonding curve whose
/// reserve backs the outstanding virtual tokens.
#[derive(Debug)]
pub struct Boss {
    /// Host-chosen identifier.
    pub id: u64,
    /// Authority id of the creator.
    pub creator: u64,
    /// Display name, 1-32 characters.
    pub name: String,
    pub max_hp: u64,
    pub current_hp: u64,
    /// Mitigation stat on the 0-80 scale.
    pub defense: u8,
    pub status: BossStatus,
    /// Lamports per token at zero supply.
    pub base_price: u64,
    /// Lamport price increase per outstanding token.
    pub slope: u64,
    /// Virtual tokens outstanding.
    pub total_supply: u64,
    /// Lamports backing the curve.
    pub reserve_balance: u64,
    /// Lamports accumulated for the loot share-out.
    pub loot_pool: u64,
    /// Total damage dealt by all raiders.
    pub total_damage: u64,
    /// Fee on buys, in basis points.
    pub attack_fee_bps: u16,
    /// Fee on sells, in basis points; accrues to the loot pool.
    pub sell_fee_bps: u16,
}

impl View for Boss {
    type V = BossView;

    open spec fn view(&self) -> BossView {
        BossView {
            id: self.id,
            creator: self.creator,
            name: self.name@,
            max_hp: self.max_hp,
            current_hp: self.current_hp,
            defense: self.defense,
            status: self.status,
            base_price: self.base_price,
            slope: self.slope,
            total_supply: self.total_supply,
            reserve_balance: self.reserve_balance,
            loot_pool: self.loot_pool,
            total_damage: self.total_damage,
            attack_fee_bps: self.attack_fee_bps,
            sell_fee_bps: self.sell_fee_bps,
        }
    }
}

impl BossView {
    /// Well-formedness: a positive curve, a killable defense stat, a capped
    /// sell fee, and hit points within the maximum.
    pub open spec fn wf(&self) -> bool {
        &&& self.base_price >= 1
        &&& self.slope >= 1
        &&& self.defense <= MAX_DEFENSE
        &&& self.sell_fee_bps <= MAX_SELL_FEE_BPS
        &&& self.current_hp <= self.max_hp
    }
}

/// Creates a boss at full health with an empty curve: the name, defense,
/// curve parameters and sell fee are validated, supply and reserve start at
/// zero.
pub fn create_boss(
    id: u64,
    creator: u64,
    name: String,
    max_hp: u64,
    defense: u8,
    base_price: u64,
    slope: u64,
    attack_fee_bps: u16,
    sell_fee_bps: u16,
) -> (r: Result<Boss, ErrorCode>)
    ensures
        r == Err::<Boss, ErrorCode>(ErrorCode::InvalidBossName)
            <==> !(1 <= name@.len() <= MAX_BOSS_NAME),
        r == Err::<Boss, ErrorCode>(ErrorCode::DefenseTooHigh)
            <==> 1 <= name@.len() <= MAX_BOSS_NAME && defense > MAX_DEFENSE,
        r == Err::<Boss, ErrorCode>(ErrorCode::InvalidBasePrice)
            <==> 1 <= name@.len() <= MAX_BOSS_NAME && defense <= MAX_DEFENSE && base_price == 0,
        r == Err::<Boss, ErrorCode>(ErrorCode::InvalidSlope)
            <==> 1 <= name@.len() <= MAX_BOSS_NAME && defense <= MAX_DEFENSE && base_price > 0
                && slope == 0,
        r == Err::<Boss, ErrorCode>(ErrorCode::SellFeeTooHigh)
            <==> 1 <= name@.len() <= MAX_BOSS_NAME && defense <= MAX_DEFENSE && base_price > 0
                && slope > 0 && sell_fee_bps > MAX_SELL_FEE_BPS,
        r is Ok <==> 1 <= name@.len() <= MAX_BOSS_NAME && defense <= MAX_DEFENSE
            && base_price > 0 && slope > 0 && sell_fee_bps <= MAX_SELL_FEE_BPS,
        r matches Err(e) ==> (e == ErrorCode::InvalidBossName || e == ErrorCode::DefenseTooHigh
            || e == ErrorCode::InvalidBasePrice || e == ErrorCode::InvalidSlope
            || e == ErrorCode::SellFeeTooHigh),
        r matches Ok(b) ==> b@ == (BossView {
            id,
            creator,
            name: name@,
            max_hp,
            current_hp: max_hp,
            defense,
            status: BossStatus::Alive,
            base_price,
            slope,
            total_supply: 0,
            reserve_balance: 0,
            loot_pool: 0,
            total_damage: 0,
            attack_fee_bps,
            sell_fee_bps,
        }) && b@.wf(),
{
    let name_len = name.as_str().unicode_len();
    if name_len == 0 || name_len > MAX_BOSS_NAME {
        return Err(ErrorCode::InvalidBossName);
    }
    if defense > MAX_DEFENSE {
        return Err(ErrorCode::DefenseTooHigh);
    }
    if base_price == 0 {
        return Err(ErrorCode::InvalidBasePrice);
    }
    if slope == 0 {
        return Err(ErrorCode::InvalidSlope);
    }
    if sell_fee_bps > MAX_SELL_FEE_BPS {
        return Err(ErrorCode::SellFeeTooHigh);
    }
    Ok(Boss {
        id,
        creator,
        name,
        max_hp,
        current_hp: max_hp,
        defense,
        status: BossStatus::Alive,
        base_price,
        slope,
        total_supply: 0,
        reserve_balance: 0,
        loot_pool: 0,
        total_damage: 0,
        attack_fee_bps,
        sell_fee_bps,
    })
}

/// Commits an attack: quotes tokens for the staked lamports on the bonding
/// curve, moves supply and reserve up together, and freezes the purchase on
/// the ticket as the single pending attack awaiting randomness. Fails
/// without any change if the boss is dead, the stake is zero, an attack is
/// already pending, or the curve math overflows.
pub fn commit_attack(boss: &mut Boss, ticket: &mut RaidTicket, sol_amount: u64)
    -> (r: Result<u64, ErrorCode>)
    requires
        old(boss)@.wf(),
        old(ticket).boss == old(boss)@.id,
    ensures
        final(boss)@.wf(),
        r is Err ==> final(boss)@ == old(boss)@ && *final(ticket) == *old(ticket),
        r == Err::<u64, ErrorCode>(ErrorCode::BossNotAlive)
            <==> old(boss)@.status != BossStatus::Alive,
        r == Err::<u64, ErrorCode>(ErrorCode::ZeroAttackAmount)
            <==> old(boss)@.status == BossStatus::Alive && sol_amount == 0,
        r == Err::<u64, ErrorCode>(ErrorCode::AttackPending)
            <==> old(boss)@.status == BossStatus::Alive && sol_amount > 0
                && old(ticket).pending_sol > 0,
        r matches Ok(tokens) ==> ({
            &&& buy_quote_ok(
                old(boss)@.base_price as int,
                old(boss)@.slope as int,
                old(boss)@.total_supply as int,
                sol_amount as int,
                tokens as int,
            )
            &&& final(boss)@ == (BossView {
                total_supply: (old(boss)@.total_supply + tokens) as u64,
                reserve_balance: (old(boss)@.reserve_balance + sol_amount) as u64,
                ..old(boss)@
            })
            &&& *final(ticket) == (RaidTicket {
                pending_sol: sol_amount,
                pending_tokens: tokens,
                ..*old(ticket)
            })
            &&& final(ticket).pending_tokens <= final(boss)@.total_supply
        }),
        r == Err::<u64, ErrorCode>(ErrorCode::MathOverflow)
            ==> old(boss)@.status == BossStatus::Alive && sol_amount > 0
                && old(ticket).pending_sol == 0,
        r is Ok <==> old(boss)@.status == BossStatus::Alive && sol_amount > 0
            && old(ticket).pending_sol == 0
            && old(boss)@.reserve_balance + sol_amount <= u64::MAX
            && spec_disc(
                old(boss)@.base_price as int,
                old(boss)@.slope as int,
                old(boss)@.total_supply as int,
                sol_amount as int,
            ) <= 0xffff_ffff_ffff_ffff_ffff_ffff_ffff_ffff
            && (forall|t: int| #[trigger] buy_quote_ok(
                old(boss)@.base_price as int,
                old(boss)@.slope as int,
                old(boss)@.total_supply as int,
                sol_amount as int,
                t,
            ) ==> old(boss)@.total_supply + t <= u64::MAX),
{
    if !matches!(boss.status, BossStatus::Alive) {
        return Err(ErrorCode::BossNotAlive);
    }
    if sol_amount == 0 {
        return Err(ErrorCode::ZeroAttackAmount);
    }
    if ticket.pending_sol > 0 {
        return Err(ErrorCode::AttackPending);
    }
    let tokens = match tokens_for_sol(boss.base_price, boss.slope, boss.total_supply, sol_amount) {
        Ok(t) => t,
        Err(e) => {
            return Err(e);
        },
    };
    let new_supply = match boss.total_supply.checked_add(tokens) {
        Some(v) => v,
        None => {
            return Err(ErrorCode::MathOverflow);
        },
    };
    let new_reserve = match boss.reserve_balance.checked_add(sol_amount) {
        Some(v) => v,
        None => {
            proof {
                assert forall|t: int| buy_quote_ok(
                    boss@.base_price as int,
                    boss@.slope as int,
                    old(boss)@.total_supply as int,
                    sol_amount as int,
                    t,
                ) implies old(boss)@.total_supply + t <= u64::MAX by {
                    crate::curve::lemma_buy_quote_unique(
                        boss@.base_price as int,
                        boss@.slope as int,
                        old(boss)@.total_supply as int,
                        sol_amount as int,
                        t,
                        tokens as int,
                    );
                }
            }
            return Err(ErrorCode::MathOverflow);
        },
    };
    proof {
        assert forall|t: int| buy_quote_ok(
            boss@.base_price as int,
            boss@.slope as int,
            old(boss)@.total_supply as int,
            sol_amount as int,
            t,
        ) implies old(boss)@.total_supply + t <= u64::MAX by {
            crate::curve::lemma_buy_quote_unique(
                boss@.base_price as int,
                boss@.slope as int,
                old(boss)@.total_supply as int,
                sol_amount as int,
                t,
                tokens as int,
            );
        }
    }
    boss.total_supply = new_supply;
    boss.reserve_balance = new_reserve;
    ticket.pending_sol = sol_amount;
    ticket.pending_tokens = tokens;
    Ok(tokens)
}

/// Sells tokens back to the curve: the gross value is quoted at the current
/// supply, the sell fee accrues to the loot pool, supply and reserve move
/// down together, and the boss heals by half the gross value, capped at its
/// maximum. Returns `(net_payout, fee)`. Fails without any change if the
/// boss is dead, the amount is zero or exceeds the holding, or the math
/// overflows. Token holdings never exceed the outstanding supply, so the
/// quote is always well-defined.
pub fn sell(boss: &mut Boss, ticket: &mut RaidTicket, token_amount: u64)
    -> (r: Result<(u64, u64), ErrorCode>)
    requires
        old(boss)@.wf(),
        old(ticket).boss == old(boss)@.id,
        old(ticket).tokens_held <= old(boss)@.total_supply,
    ensures
        final(boss)@.wf(),
        r is Err ==> final(boss)@ == old(boss)@ && *final(ticket) == *old(ticket),
        r == Err::<(u64, u64), ErrorCode>(ErrorCode::BossNotAlive)
            <==> old(boss)@.status != BossStatus::Alive,
        r == Err::<(u64, u64), ErrorCode>(ErrorCode::ZeroSellAmount)
            <==> old(boss)@.status == BossStatus::Alive && token_amount == 0,
        r == Err::<(u64, u64), ErrorCode>(ErrorCode::InsufficientTokens)
            <==> old(boss)@.status == BossStatus::Alive && token_amount > 0
                && token_amount > old(ticket).tokens_held,
        r matches Ok(amounts) ==> ({
            let gross = spec_sell_value(
                old(boss)@.base_price as int,
                old(boss)@.slope as int,
                old(boss)@.total_supply as int,
                token_amount as int,
            );
            let fee = spec_fee(gross, old(boss)@.sell_fee_bps as int);
            let heal = gross / 2;
            &&& gross <= u64::MAX
            &&& amounts.0 == gross - fee
            &&& amounts.1 == fee
            &&& final(boss)@ == (BossView {
                total_supply: (old(boss)@.total_supply - token_amount) as u64,
                reserve_balance: if old(boss)@.reserve_balance >= gross {
                    (old(boss)@.reserve_balance - gross) as u64
                } else {
                    0u64
                },
                loot_pool: (old(boss)@.loot_pool + fee) as u64,
                current_hp: if old(boss)@.current_hp + heal >= old(boss)@.max_hp {
                    old(boss)@.max_hp
                } else {
                    (old(boss)@.current_hp + heal) as u64
                },
                ..old(boss)@
            })
            &&& *final(ticket) == (RaidTicket {
                tokens_held: (old(ticket).tokens_held - token_amount) as u64,
                ..*old(ticket)
            })
        }),
        r is Ok <==> ({
            let gross = spec_sell_value(
                old(boss)@.base_price as int,
                old(boss)@.slope as int,
                old(boss)@.total_supply as int,
                token_amount as int,
            );
            &&& old(boss)@.status == BossStatus::Alive
            &&& token_amount > 0
            &&& token_amount <= old(ticket).tokens_held
            &&& gross <= u64::MAX
            &&& old(boss)@.loot_pool + spec_fee(gross, old(boss)@.sell_fee_bps as int) <= u64::MAX
        }),
{
    if !matches!(boss.status, BossStatus::Alive) {
        return Err(ErrorCode::BossNotAlive);
    }
    if token_amount == 0 {
        return Err(ErrorCode::ZeroSellAmount);
    }
    if token_amount > ticket.tokens_held {
        return Err(ErrorCode::InsufficientTokens);
    }
    let gross = match sol_for_tokens(boss.base_price, boss.slope, boss.total_supply, token_amount)
    {
        Ok(v) => v,
        Err(e) => {
            return Err(e);
        },
    };
    let (fee, net) = fee_split(gross, boss.sell_fee_bps);
    let new_loot = match boss.loot_pool.checked_add(fee) {
        Some(v) => v,
        None => {
            return Err(ErrorCode::MathOverflow);
        },
    };
    boss.total_supply = boss.total_supply - token_amount;
    boss.reserve_balance = boss.reserve_balance.saturating_sub(gross);
    boss.loot_pool = new_loot;
    let heal = gross / 2;
    let healed = boss.current_hp.saturating_add(heal);
    boss.current_hp = if healed >= boss.max_hp {
        boss.max_hp
    } else {
        healed
    };
    ticket.tokens_held = ticket.tokens_held - token_amount;
    Ok((net, fee))
}

/// Everything one resolved attack decides: the tier rolled, the damage
/// figures, the tokens credited after any counter-burn, and whether the boss
/// fell.
#[derive(Clone, Copy, Debug, PartialEq, Eq, Structural)]
pub struct AttackOutcome {
    pub tier: HitTier,
    /// Damage the roll produced.
    pub damage: u64,
    /// Damage actually applied, capped at the boss's remaining hit points.
    pub actual_damage: u64,
    /// Tokens credited to the raider after any counter-burn.
    pub tokens_credited: u64,
    /// The boss countered: a tenth of the purchase burned into the loot pool.
    pub is_counter: bool,
    /// The boss's hit points reached zero.
    pub boss_defeated: bool,
}

/// Functional model of resolving a pending attack with a 32-byte random
/// value: the boss and ticket after the call, and its result. The first
/// random byte modulo 100 picks the hit tier; a boss counter burns a tenth
/// of the purchased tokens, moving their curve value into the loot pool; the
/// attack's damage is capped at the remaining hit points, and a boss at zero
/// is permanently defeated, its reserve folded into the loot pool. Any
/// overflow fails before a single field changes.
pub open spec fn spec_resolve_attack(b: BossView, t: RaidTicket, rnd: Seq<u8>)
    -> (BossView, RaidTicket, Result<AttackOutcome, ErrorCode>)
{
    if t.pending_sol == 0 {
        (b, t, Err(ErrorCode::NoPendingAttack))
    } else {
        let roll = rnd[0] % 100;
        let tier = spec_hit_tier(roll as int);
        let tokens = t.pending_tokens as int;
        let damage = spec_attack_damage(tokens, tier, b.defense as int);
        let is_counter = tier == HitTier::BossCounter;
        let loss = if is_counter { tokens * (COUNTER_TOKEN_LOSS_BPS as int) / 10_000 } else { 0 };
        let credited = tokens - loss;
        let lost_sol = if loss > 0 {
            spec_sell_value(b.base_price as int, b.slope as int, b.total_supply as int, loss)
        } else {
            0
        };
        if damage > u64::MAX {
            (b, t, Err(ErrorCode::MathOverflow))
        } else if loss > 0 && lost_sol > u64::MAX {
            (b, t, Err(ErrorCode::MathOverflow))
        } else {
            let actual = if damage <= b.current_hp { damage } else { b.current_hp as int };
            if b.total_damage + actual > u64::MAX {
                (b, t, Err(ErrorCode::MathOverflow))
            } else if t.total_damage + actual > u64::MAX {
                (b, t, Err(ErrorCode::MathOverflow))
            } else if t.tokens_held + credited > u64::MAX {
                (b, t, Err(ErrorCode::MathOverflow))
            } else if b.loot_pool + lost_sol > u64::MAX {
                (b, t, Err(ErrorCode::MathOverflow))
            } else {
                let new_hp = (b.current_hp - actual) as u64;
                let supply1 = (b.total_supply - loss) as u64;
                let reserve1 = if b.reserve_balance >= lost_sol {
                    (b.reserve_balance - lost_sol) as u64
                } else {
                    0u64
                };
                let loot1 = (b.loot_pool + lost_sol) as u64;
                let defeated = new_hp == 0;
                if defeated && loot1 + reserve1 > u64::MAX {
                    (b, t, Err(ErrorCode::MathOverflow))
                } else {
                    let b2 = BossView {
                        current_hp: new_hp,
                        total_damage: (b.total_damage + actual) as u64,
                        total_supply: supply1,
                        reserve_balance: if defeated { 0u64 } else { reserve1 },
                        loot_pool: if defeated { (loot1 + reserve1) as u64 } else { loot1 },
                        status: if defeated { BossStatus::Defeated } else { b.status },
                        ..b
                    };
                    let t2 = RaidTicket {
                        tokens_held: (t.tokens_held + credited) as u64,
                        total_damage: (t.total_damage + actual) as u64,
                        pending_sol: 0u64,
                        pending_tokens: 0u64,
                        ..t
                    };
                    let outcome = AttackOutcome {
                        tier,
                        damage: damage as u64,
                        actual_damage: actual as u64,
                        tokens_credited: credited as u64,
                        is_counter,
                        boss_defeated: defeated,
                    };
                    (b2, t2, Ok(outcome))
                }
            }
        }
    }
}

/// Resolves the pending attack on a ticket with the delivered 32-byte random
/// value, exactly as the functional model `spec_resolve_attack` says: the
/// roll picks the hit tier, the damage (capped at the remaining hit points)
/// accrues to boss and ticket, the purchased tokens are credited (minus the
/// counter-burn, whose curve value moves to the loot pool), the pending
/// request clears, and a boss dropping to zero is permanently defeated.
/// Fails cleanly when no attack is pending, and before any state change on
/// overflow.
pub fn resolve_attack(boss: &mut Boss, ticket: &mut RaidTicket, randomness: &[u8; 32])
    -> (r: Result<AttackOutcome, ErrorCode>)
    requires
        old(boss)@.wf(),
        old(ticket).boss == old(boss)@.id,
        old(ticket).pending_tokens <= old(boss)@.total_supply,
    ensures
        final(boss)@.wf(),
        (final(boss)@, *final(ticket), r)
            == spec_resolve_attack(old(boss)@, *old(ticket), randomness@),
{
    if ticket.pending_sol == 0 {
        return Err(ErrorCode::NoPendingAttack);
    }
    let roll = randomness[0] % 100;
    let tier = if roll < HIT_MISS_UPPER {
        HitTier::Miss
    } else if roll < HIT_NORMAL_UPPER {
        HitTier::Normal
    } else if roll < HIT_STRONG_UPPER {
        HitTier::Strong
    } else if roll < HIT_CRIT_UPPER {
        HitTier::Crit
    } else if roll < HIT_MEGA_UPPER {
        HitTier::Mega
    } else {
        HitTier::BossCounter
    };
    let multiplier: u64 = match tier {
        HitTier::Miss => 0,
        HitTier::Normal => 100,
        HitTier::Strong => 150,
        HitTier::Crit => 200,
        HitTier::Mega => 300,
        HitTier::BossCounter => 100,
    };
    let tokens = ticket.pending_tokens;
    proof {
        assert((tokens as int) * (multiplier as int) <= (tokens as int) * 300) by (nonlinear_arith)
            requires multiplier <= 300, tokens >= 0;
        assert((tokens as int) * 300 * 100 < 0x1_0000_0000_0000_0000_0000_0000_0000_0000)
            by (nonlinear_arith)
            requires tokens < 0x1_0000_0000_0000_0000;
        assert((tokens as int) * (multiplier as int) * ((100 - boss.defense) as int)
            <= (tokens as int) * 300 * 100) by (nonlinear_arith)
            requires
                0 <= (tokens as int) * (multiplier as int) <= (tokens as int) * 300,
                multiplier <= 300,
                boss.defense <= 80,
                tokens >= 0;
        assert((tokens as int) * (multiplier as int) >= 0) by (nonlinear_arith)
            requires tokens >= 0, multiplier >= 0;
        assert((tokens as int) * (multiplier as int) * ((100 - boss.defense) as int) >= 0)
            by (nonlinear_arith)
            requires (tokens as int) * (multiplier as int) >= 0, boss.defense <= 80;
    }
    let damage_wide: u128 =
        (tokens as u128) * (multiplier as u128) * ((100 - boss.defense) as u128) / 10_000;
    if damage_wide > u64::MAX as u128 {
        return Err(ErrorCode::MathOverflow);
    }
    let damage = damage_wide as u64;

    let is_counter = matches!(tier, HitTier::BossCounter);
    let loss_wide: u128 = if is_counter {
        (tokens as u128) * (COUNTER_TOKEN_LOSS_BPS as u128) / 10_000
    } else {
        0
    };
    proof {
        if is_counter {
            assert((tokens as int) * (COUNTER_TOKEN_LOSS_BPS as int)
                <= (tokens as int) * 10_000) by (nonlinear_arith)
                requires tokens >= 0;
            vstd::arithmetic::div_mod::lemma_multiply_divide_le(
                (tokens as int) * (COUNTER_TOKEN_LOSS_BPS as int), 10_000, tokens as int,
            );
            vstd::arithmetic::div_mod::lemma_div_pos_is_pos(
                (tokens as int) * (COUNTER_TOKEN_LOSS_BPS as int), 10_000,
            );
        }
    }
    let loss = loss_wide as u64;
    let credited = tokens - loss;
    let lost_sol: u64 = if loss > 0 {
        match sol_for_tokens(boss.base_price, boss.slope, boss.total_supply, loss) {
            Ok(v) => v,
            Err(e) => {
                return Err(e);
            },
        }
    } else {
        0
    };
    let actual = if damage <= boss.current_hp {
        damage
    } else {
        boss.current_hp
    };
    let new_boss_damage = match boss.total_damage.checked_add(actual) {
        Some(v) => v,
        None => {
            return Err(ErrorCode::MathOverflow);
        },
    };
    let new_ticket_damage = match ticket.total_damage.checked_add(actual) {
        Some(v) => v,
        None => {
            return Err(ErrorCode::MathOverflow);
        },
    };
    let new_held = match ticket.tokens_held.checked_add(credited) {
        Some(v) => v,
        None => {
            return Err(ErrorCode::MathOverflow);
        },
    };
    let loot1 = match boss.loot_pool.checked_add(lost_sol) {
        Some(v) => v,
        None => {
            return Err(ErrorCode::MathOverflow);
        },
    };
    let new_hp = boss.current_hp - actual;
    let supply1 = boss.total_supply - loss;
    let reserve1 = boss.reserve_balance.saturating_sub(lost_sol);
    let defeated = new_hp == 0;
    let final_loot: u64;
    let final_reserve: u64;
    if defeated {
        final_loot = match loot1.checked_add(reserve1) {
            Some(v) => v,
            None => {
                return Err(ErrorCode::MathOverflow);
            },
        };
        final_reserve = 0;
    } else {
        final_loot = loot1;
        final_reserve = reserve1;
    }
    boss.current_hp = new_hp;
    boss.total_damage = new_boss_damage;
    boss.total_supply = supply1;
    boss.reserve_balance = final_reserve;
    boss.loot_pool = final_loot;
    if defeated {
        boss.status = BossStatus::Defeated;
    }
    ticket.tokens_held = new_held;
    ticket.total_damage = new_ticket_damage;
    ticket.pending_sol = 0;
    ticket.pending_tokens = 0;
    Ok(AttackOutcome {
        tier,
        damage,
        actual_damage: actual,
        tokens_credited: credited,
        is_counter,
        boss_defeated: defeated,
    })
}

/// Shares the loot pool of a defeated boss: the raider's proportional share
/// by damage dealt, minus the protocol fee, claimable exactly once per
/// ticket. Returns `(net_share, protocol_fee)`. The ticket's damage is part
/// of the boss's total, so the share never exceeds the pool.
pub fn claim_loot(boss: &Boss, ticket: &mut RaidTicket, protocol_config: &ProtocolConfig)
    -> (r: Result<(u64, u64), ErrorCode>)
    requires
        old(ticket).boss == boss@.id,
        old(ticket).total_damage <= boss@.total_damage,
        protocol_config.protocol_fee_bps <= 10_000,
    ensures
        r is Err ==> *final(ticket) == *old(ticket),
        r == Err::<(u64, u64), ErrorCode>(ErrorCode::BossStillAlive)
            <==> boss@.status != BossStatus::Defeated,
        r == Err::<(u64, u64), ErrorCode>(ErrorCode::AlreadyClaimed)
            <==> boss@.status == BossStatus::Defeated && old(ticket).claimed,
        r == Err::<(u64, u64), ErrorCode>(ErrorCode::NoDamageDealt)
            <==> boss@.status == BossStatus::Defeated && !old(ticket).claimed
                && old(ticket).total_damage == 0,
        r is Ok <==> boss@.status == BossStatus::Defeated && !old(ticket).claimed
            && old(ticket).total_damage > 0,
        r matches Err(e) ==> (e == ErrorCode::BossStillAlive || e == ErrorCode::AlreadyClaimed
            || e == ErrorCode::NoDamageDealt),
        r matches Ok(amounts) ==> ({
            let gross = spec_share(
                old(ticket).total_damage as int,
                boss@.loot_pool as int,
                boss@.total_damage as int,
            );
            let fee = spec_fee(gross, protocol_config.protocol_fee_bps as int);
            &&& amounts.0 == gross - fee
            &&& amounts.1 == fee
            &&& amounts.0 + amounts.1 == gross
            &&& gross <= boss@.loot_pool
            &&& *final(ticket) == (RaidTicket { claimed: true, ..*old(ticket) })
        }),
{
    if !matches!(boss.status, BossStatus::Defeated) {
        return Err(ErrorCode::BossStillAlive);
    }
    if ticket.claimed {
        return Err(ErrorCode::AlreadyClaimed);
    }
    if ticket.total_damage == 0 {
        return Err(ErrorCode::NoDamageDealt);
    }
    let gross_share = proportional_share(ticket.total_damage, boss.loot_pool, boss.total_damage);
    let (protocol_fee, net_share) = fee_split(gross_share, protocol_config.protocol_fee_bps);
    ticket.claimed = true;
    Ok((net_share, protocol_fee))
}

} // verus!
