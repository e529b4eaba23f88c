//! Tournament engine: fighter registration, single-elimination battles
//! resolved by verified randomness, per-battle betting, and the prize-pool
//! claims. Randomness follows a two-phase commit/reveal protocol: a battle
//! first records which randomness record it committed to, and can only be
//! resolved by the revealed value of that same record.

use vstd::prelude::*;
use vstd::string::StrSliceExecFns;
use crate::combat::{simulate_combat, spec_combat_winner, CombatWinner};
use crate::errors::ErrorCode;
use crate::payout::{fee_split, proportional_share, spec_fee, spec_share};

verus! {

/// Default bracket size.
pub const DEFAULT_MAX_FIGHTERS: u8 = 8;
/// Smallest field a tournament can start with.
pub const DEFAULT_MIN_FIGHTERS: u8 = 2;
/// Default entry fee in lamports (0.05 SOL).
pub const DEFAULT_ENTRY_FEE: u64 = 50_000_000;
/// Largest allowed entry fee in lamports (10 SOL).
pub const MAX_ENTRY_FEE: u64 = 10_000_000_000;
/// Default creator fee (5%).
pub const DEFAULT_CREATOR_FEE_BPS: u16 = 500;
/// Largest allowed creator fee (10%).
pub const MAX_CREATOR_FEE_BPS: u16 = 1_000;
/// Default registration window in seconds (24 hours).
pub const DEFAULT_REGISTRATION_WINDOW: i64 = 86_400;
/// Default tip for the account that cranks battles.
pub const DEFAULT_CRANKER_TIP: u64 = 0;
/// Default betting window in slots (about a minute).
pub const DEFAULT_BETTING_WINDOW_SLOTS: u64 = 150;
/// Longest tournament name, in characters.
pub const MAX_TOURNAMENT_NAME: usize = 32;
/// Largest allowed protocol fee (10%).
pub const MAX_PROTOCOL_FEE_BPS: u16 = 1_000;

/// Lifecycle of a tournament.
#[derive(Clone, Copy, Debug, PartialEq, Eq, Structural)]
pub enum TournamentStatus {
    /// Accepting fighters.
    Registration,
    /// Battles happening.
    InProgress,
    /// Champion crowned.
    Completed,
    /// Not enough fighters by the deadline.
    Cancelled,
}

/// Lifecycle of a battle.
#[derive(Clone, Copy, Debug, PartialEq, Eq, Structural)]
pub enum BattleStatus {
    /// Waiting for fighters.
    Pending,
    /// Accepting bets.
    BettingOpen,
    /// Randomness committed; bets closed.
    Committed,
    /// Outcome determined.
    Resolved,
}

/// Protocol-wide configuration: an explicitly passed record, never ambient
/// state.
#[derive(Clone, Copy, Debug, PartialEq, Eq, Structural)]
pub struct ProtocolConfig {
    /// Authority id allowed to update the config.
    pub admin: u64,
    /// Account id that receives protocol fees.
    pub treasury: u64,
    /// Protocol cut from prize pools, in basis points.
    pub protocol_fee_bps: u16,
    /// Kill switch: pauses tournament and boss creation.
    pub is_active: bool,
}

/// Creates the protocol configuration record.
pub fn initialize_protocol_config(admin: u64, treasury: u64, protocol_fee_bps: u16)
    -> (c: ProtocolConfig)
    requires
        protocol_fee_bps <= MAX_PROTOCOL_FEE_BPS,
    ensures
        c == (ProtocolConfig { admin, treasury, protocol_fee_bps, is_active: true }),
{
    ProtocolConfig { admin, treasury, protocol_fee_bps, is_active: true }
}

/// Per-tournament escrow record tracking the fee breakdown and claims.
#[derive(Clone, Copy, Debug, PartialEq, Eq, Structural)]
pub struct PrizePool {
    /// Back-reference to the parent tournament.
    pub tournament: u64,
    /// Lamports accumulated from fighter entry fees.
    pub total_entry_fees: u64,
    /// Lamports accumulated from betting rake.
    pub total_betting_rake: u64,
    /// Whether the tournament creator took their cut.
    pub creator_claimed: bool,
    /// Whether the protocol treasury took their cut.
    pub protocol_claimed: bool,
    /// Whether the champion claimed the prize.
    pub champion_claimed: bool,
}

impl PrizePool {
    /// Total lamports held in this escrow.
    pub fn total(&self) -> (t: u64)
        requires
            self.total_entry_fees + self.total_betting_rake <= u64::MAX,
        ensures
            t == self.total_entry_fees + self.total_betting_rake,
    {
        self.total_entry_fees + self.total_betting_rake
    }
}

/// One bettor's stake on one battle.
#[derive(Clone, Copy, Debug, PartialEq, Eq, Structural)]
pub struct BetSlip {
    /// Battle id this bet belongs to.
    pub battle: u64,
    /// Authority id of the bettor.
    pub bettor: u64,
    /// Token mint of the fighter backed.
    pub fighter_backed: u64,
    pub amount: u64,
    pub claimed: bool,
}

/// A registered fighter: five capped stats and its tournament bookkeeping.
/// The token mint id is the fighter's identity.
#[derive(Debug)]
pub struct Fighter {
    /// Tournament id this fighter belongs to.
    pub tournament: u64,
    /// Authority id of the registering owner.
    pub owner: u64,
    /// Identity: the mint of the token the fighter represents.
    pub token_mint: u64,
    pub token_name: String,
    pub token_symbol: String,
    pub hp: u8,
    pub atk: u8,
    pub def: u8,
    pub spd: u8,
    pub luck: u8,
    /// Bracket position, by registration order.
    pub seed_index: u8,
    /// Still in the tournament.
    pub is_alive: bool,
    pub wins: u8,
    /// Tokens deposited into escrow at registration.
    pub deposited_amount: u64,
}

impl Fighter {
    /// Stats stay on the 0-100 scale.
    pub open spec fn wf(&self) -> bool {
        self.hp <= 100 && self.atk <= 100 && self.def <= 100 && self.spd <= 100
            && self.luck <= 100
    }
}

/// One match of a tournament bracket.
#[derive(Clone, Copy, Debug, PartialEq, Eq, Structural)]
pub struct Battle {
    /// Host-chosen identifier of this battle record.
    pub battle_id: u64,
    /// Tournament id this battle belongs to.
    pub tournament: u64,
    pub round: u8,
    pub match_index: u8,
    /// Token mint of the first fighter.
    pub fighter_a: u64,
    /// Token mint of the second fighter.
    pub fighter_b: u64,
    /// Token mint of the winner, once resolved.
    pub winner: Option<u64>,
    pub status: BattleStatus,
    /// Id of the randomness record committed to.
    pub randomness_account: u64,
    /// Slot the committed randomness was seeded at.
    pub commit_slot: u64,
    /// Lamports bet on fighter A.
    pub total_bet_a: u64,
    /// Lamports bet on fighter B.
    pub total_bet_b: u64,
    pub total_bettors: u16,
}

/// What the engine reads of an oracle randomness record: its identity, the
/// slot its seed was committed at, and the revealed 32-byte value once the
/// oracle has revealed it.
#[derive(Clone, Copy, Debug)]
pub struct RandomnessInfo {
    /// Identity of the randomness record.
    pub account: u64,
    /// Slot the seed was committed at.
    pub seed_slot: u64,
    /// The revealed value, if the oracle has revealed it.
    pub revealed: Option<[u8; 32]>,
}

/// Creates a tournament and its empty prize-pool escrow. Optional settings
/// fall back to the protocol defaults; the bracket must be a power of two
/// between 2 and 32, the fees must respect their caps, and the protocol must
/// not be paused.
pub fn create_tournament(
    name: String,
    tournament_id: u64,
    creator: u64,
    max_fighters: Option<u8>,
    entry_fee: Option<u64>,
    creator_fee_bps: Option<u16>,
    registration_seconds: Option<i64>,
    now: i64,
    protocol_config: &ProtocolConfig,
) -> (r: Result<(Tournament, PrizePool), ErrorCode>)
    ensures
        r == Err::<(Tournament, PrizePool), ErrorCode>(ErrorCode::InvalidTournamentName)
            <==> !(1 <= name@.len() <= MAX_TOURNAMENT_NAME),
        r is Ok <==> ({
            let max = if max_fighters is Some { max_fighters->Some_0 } else { DEFAULT_MAX_FIGHTERS };
            let fee = if entry_fee is Some { entry_fee->Some_0 } else { DEFAULT_ENTRY_FEE };
            let cbps = if creator_fee_bps is Some { creator_fee_bps->Some_0 } else {
                DEFAULT_CREATOR_FEE_BPS
            };
            let window = if registration_seconds is Some { registration_seconds->Some_0 } else {
                DEFAULT_REGISTRATION_WINDOW
            };
            &&& 1 <= name@.len() <= MAX_TOURNAMENT_NAME
            &&& (max == 2 || max == 4 || max == 8 || max == 16 || max == 32)
            &&& fee <= MAX_ENTRY_FEE
            &&& cbps <= MAX_CREATOR_FEE_BPS
            &&& protocol_config.is_active
            &&& i64::MIN <= now + window <= i64::MAX
        }),
        r matches Ok(tp) ==> ({
            let max = if max_fighters is Some { max_fighters->Some_0 } else { DEFAULT_MAX_FIGHTERS };
            let fee = if entry_fee is Some { entry_fee->Some_0 } else { DEFAULT_ENTRY_FEE };
            let cbps = if creator_fee_bps is Some { creator_fee_bps->Some_0 } else {
                DEFAULT_CREATOR_FEE_BPS
            };
            let window = if registration_seconds is Some { registration_seconds->Some_0 } else {
                DEFAULT_REGISTRATION_WINDOW
            };
            &&& (max == 2 || max == 4 || max == 8 || max == 16 || max == 32)
            &&& fee <= MAX_ENTRY_FEE
            &&& cbps <= MAX_CREATOR_FEE_BPS
            &&& protocol_config.is_active
            &&& tp.0.name@ == name@
            &&& tp.0.creator == creator
            &&& tp.0.tournament_id == tournament_id
            &&& tp.0.status == TournamentStatus::Registration
            &&& tp.0.registered_fighters == 0
            &&& tp.0.current_round == 0
            &&& tp.0.current_match == 0
            &&& tp.0.champion is None
            &&& tp.0.max_fighters == max
            &&& tp.0.min_fighters == DEFAULT_MIN_FIGHTERS
            &&& tp.0.entry_fee == fee
            &&& tp.0.creator_fee_bps == cbps
            &&& tp.0.cranker_tip == DEFAULT_CRANKER_TIP
            &&& tp.0.registration_deadline == now + window
            &&& tp.0.betting_window_slots == DEFAULT_BETTING_WINDOW_SLOTS
            &&& tp.0.created_at == now
            &&& tp.1 == (PrizePool {
                tournament: tournament_id,
                total_entry_fees: 0,
                total_betting_rake: 0,
                creator_claimed: false,
                protocol_claimed: false,
                champion_claimed: false,
            })
        }),
        r is Err ==> (r == Err::<(Tournament, PrizePool), ErrorCode>(ErrorCode::InvalidTournamentName)
            || r == Err::<(Tournament, PrizePool), ErrorCode>(ErrorCode::InvalidBracketSize)
            || r == Err::<(Tournament, PrizePool), ErrorCode>(ErrorCode::EntryFeeTooHigh)
            || r == Err::<(Tournament, PrizePool), ErrorCode>(ErrorCode::CreatorFeeTooHigh)
            || r == Err::<(Tournament, PrizePool), ErrorCode>(ErrorCode::ProtocolPaused)
            || r == Err::<(Tournament, PrizePool), ErrorCode>(ErrorCode::MathOverflow)),
{
    let name_len = name.as_str().unicode_len();
    if name_len == 0 || name_len > MAX_TOURNAMENT_NAME {
        return Err(ErrorCode::InvalidTournamentName);
    }
    let max = match max_fighters {
        Some(m) => m,
        None => DEFAULT_MAX_FIGHTERS,
    };
    if !(max == 2 || max == 4 || max == 8 || max == 16 || max == 32) {
        return Err(ErrorCode::InvalidBracketSize);
    }
    let fee = match entry_fee {
        Some(f) => f,
        None => DEFAULT_ENTRY_FEE,
    };
    if fee > MAX_ENTRY_FEE {
        return Err(ErrorCode::EntryFeeTooHigh);
    }
    let creator_bps = match creator_fee_bps {
        Some(c) => c,
        None => DEFAULT_CREATOR_FEE_BPS,
    };
    if creator_bps > MAX_CREATOR_FEE_BPS {
        return Err(ErrorCode::CreatorFeeTooHigh);
    }
    if !protocol_config.is_active {
        return Err(ErrorCode::ProtocolPaused);
    }
    let reg_window = match registration_seconds {
        Some(w) => w,
        None => DEFAULT_REGISTRATION_WINDOW,
    };
    let deadline = match now.checked_add(reg_window) {
        Some(d) => d,
        None => {
            return Err(ErrorCode::MathOverflow);
        },
    };
    let tournament = Tournament {
        name,
        creator,
        tournament_id,
        status: TournamentStatus::Registration,
        registered_fighters: 0,
        current_round: 0,
        current_match: 0,
        champion: None,
        max_fighters: max,
        min_fighters: DEFAULT_MIN_FIGHTERS,
        entry_fee: fee,
        creator_fee_bps: creator_bps,
        cranker_tip: DEFAULT_CRANKER_TIP,
        registration_deadline: deadline,
        betting_window_slots: DEFAULT_BETTING_WINDOW_SLOTS,
        created_at: now,
    };
    let prize_pool = PrizePool {
        tournament: tournament_id,
        total_entry_fees: 0,
        total_betting_rake: 0,
        creator_claimed: false,
        protocol_claimed: false,
        champion_claimed: false,
    };
    Ok((tournament, prize_pool))
}

/// One tournament's identity, progression and configuration.
#[derive(Debug)]
pub struct Tournament {
    /// Display name, 1-32 characters.
    pub name: String,
    /// Authority id of the creator.
    pub creator: u64,
    pub tournament_id: u64,
    pub status: TournamentStatus,
    pub registered_fighters: u8,
    pub current_round: u8,
    pub current_match: u8,
    /// Token mint of the champion, once crowned.
    pub champion: Option<u64>,
    /// Bracket size: a power of two between 2 and 32.
    pub max_fighters: u8,
    pub min_fighters: u8,
    /// Entry fee each fighter stakes, in lamports.
    pub entry_fee: u64,
    /// Creator's cut of the prize pool, in basis points.
    pub creator_fee_bps: u16,
    /// Tip for the account that cranks battles.
    pub cranker_tip: u64,
    /// Unix time registration closes.
    pub registration_deadline: i64,
    /// Betting window per battle, in slots.
    pub betting_window_slots: u64,
    pub created_at: i64,
}

/// Ghost mirror of a `Tournament`: the name as a character sequence plus the
/// scalar fields.
pub ghost struct TournamentView {
    pub name: Seq<char>,
    pub creator: u64,
    pub tournament_id: u64,
    pub status: TournamentStatus,
    pub registered_fighters: u8,
    pub current_round: u8,
    pub current_match: u8,
    pub champion: Option<u64>,
    pub max_fighters: u8,
    pub min_fighters: u8,
    pub entry_fee: u64,
    pub creator_fee_bps: u16,
    pub cranker_tip: u64,
    pub registration_deadline: i64,
    pub betting_window_slots: u64,
    pub created_at: i64,
}

impl View for Tournament {
    type V = TournamentView;

    open spec fn view(&self) -> TournamentView {
        TournamentView {
            name: self.name@,
            creator: self.creator,
            tournament_id: self.tournament_id,
            status: self.status,
            registered_fighters: self.registered_fighters,
            current_round: self.current_round,
            current_match: self.current_match,
            champion: self.champion,
            max_fighters: self.max_fighters,
            min_fighters: self.min_fighters,
            entry_fee: self.entry_fee,
            creator_fee_bps: self.creator_fee_bps,
            cranker_tip: self.cranker_tip,
            registration_deadline: self.registration_deadline,
            betting_window_slots: self.betting_window_slots,
            created_at: self.created_at,
        }
    }
}

/// Ghost mirror of a `Fighter`: the names as character sequences plus the
/// scalar fields.
pub ghost struct FighterView {
    pub tournament: u64,
    pub owner: u64,
    pub token_mint: u64,
    pub token_name: Seq<char>,
    pub token_symbol: Seq<char>,
    pub hp: u8,
    pub atk: u8,
    pub def: u8,
    pub spd: u8,
    pub luck: u8,
    pub seed_index: u8,
    pub is_alive: bool,
    pub wins: u8,
    pub deposited_amount: u64,
}

impl View for Fighter {
    type V = FighterView;

    open spec fn view(&self) -> FighterView {
        FighterView {
            tournament: self.tournament,
            owner: self.owner,
            token_mint: self.token_mint,
            token_name: self.token_name@,
            token_symbol: self.token_symbol@,
            hp: self.hp,
            atk: self.atk,
            def: self.def,
            spd: self.spd,
            luck: self.luck,
            seed_index: self.seed_index,
            is_alive: self.is_alive,
            wins: self.wins,
            deposited_amount: self.deposited_amount,
        }
    }
}

/// Validation cascade for a fighter registration, in check order. `None`
/// means the registration is accepted.
pub open spec fn spec_register_check(
    t: TournamentView,
    pool_fees: u64,
    name: Seq<char>,
    symbol: Seq<char>,
    hp: u8,
    atk: u8,
    def: u8,
    spd: u8,
    luck: u8,
    deposit_amount: u64,
    now: i64,
) -> Option<ErrorCode> {
    if t.status != TournamentStatus::Registration {
        Some(ErrorCode::RegistrationClosed)
    } else if t.registered_fighters >= t.max_fighters {
        Some(ErrorCode::TournamentFull)
    } else if now >= t.registration_deadline {
        Some(ErrorCode::RegistrationClosed)
    } else if !(1 <= name.len() <= 32) {
        Some(ErrorCode::InvalidFighterName)
    } else if !(1 <= symbol.len() <= 10) {
        Some(ErrorCode::InvalidFighterSymbol)
    } else if !(hp <= 100 && atk <= 100 && def <= 100 && spd <= 100 && luck <= 100) {
        Some(ErrorCode::InvalidStats)
    } else if deposit_amount == 0 {
        Some(ErrorCode::ZeroDeposit)
    } else if pool_fees + t.entry_fee > u64::MAX {
        Some(ErrorCode::MathOverflow)
    } else {
        None
    }
}

/// Registers a fighter into an open tournament: validates the names, the
/// 0-100 stat caps and the deposit, stakes the entry fee into the prize
/// pool, and seats the fighter at the next seed index. Fails without any
/// change when a validation rejects.
pub fn register_fighter(
    t: &mut Tournament,
    prize_pool: &mut PrizePool,
    owner: u64,
    token_mint: u64,
    token_name: String,
    token_symbol: String,
    hp: u8,
    atk: u8,
    def: u8,
    spd: u8,
    luck: u8,
    deposit_amount: u64,
    now: i64,
) -> (r: Result<Fighter, ErrorCode>)
    ensures
        ({
            let check = spec_register_check(
                old(t)@, old(prize_pool).total_entry_fees, token_name@, token_symbol@,
                hp, atk, def, spd, luck, deposit_amount, now,
            );
            &&& (r is Err <==> check is Some)
            &&& (r matches Err(e) ==> check == Some(e))
            &&& (r is Err ==> final(t)@ == old(t)@ && *final(prize_pool) == *old(prize_pool))
            &&& (r matches Ok(f) ==> {
                &&& f@ == (FighterView {
                    tournament: old(t)@.tournament_id,
                    owner: owner,
                    token_mint: token_mint,
                    token_name: token_name@,
                    token_symbol: token_symbol@,
                    hp, atk, def, spd, luck,
                    seed_index: old(t)@.registered_fighters,
                    is_alive: true,
                    wins: 0,
                    deposited_amount: deposit_amount,
                })
                &&& f@.hp <= 100 && f@.atk <= 100 && f@.def <= 100 && f@.spd <= 100
                    && f@.luck <= 100
                &&& final(t)@ == (TournamentView {
                    registered_fighters: (old(t)@.registered_fighters + 1) as u8,
                    ..old(t)@
                })
                &&& *final(prize_pool) == (PrizePool {
                    total_entry_fees: (old(prize_pool).total_entry_fees
                        + old(t)@.entry_fee) as u64,
                    ..*old(prize_pool)
                })
            })
        }),
{
    if !matches!(t.status, TournamentStatus::Registration) {
        return Err(ErrorCode::RegistrationClosed);
    }
    if t.registered_fighters >= t.max_fighters {
        return Err(ErrorCode::TournamentFull);
    }
    if now >= t.registration_deadline {
        return Err(ErrorCode::RegistrationClosed);
    }
    let name_len = token_name.as_str().unicode_len();
    if name_len == 0 || name_len > 32 {
        return Err(ErrorCode::InvalidFighterName);
    }
    let symbol_len = token_symbol.as_str().unicode_len();
    if symbol_len == 0 || symbol_len > 10 {
        return Err(ErrorCode::InvalidFighterSymbol);
    }
    if !(hp <= 100 && atk <= 100 && def <= 100 && spd <= 100 && luck <= 100) {
        return Err(ErrorCode::InvalidStats);
    }
    if deposit_amount == 0 {
        return Err(ErrorCode::ZeroDeposit);
    }
    let new_fees = match prize_pool.total_entry_fees.checked_add(t.entry_fee) {
        Some(v) => v,
        None => {
            return Err(ErrorCode::MathOverflow);
        },
    };
    prize_pool.total_entry_fees = new_fees;
    let fighter = Fighter {
        tournament: t.tournament_id,
        owner,
        token_mint,
        token_name,
        token_symbol,
        hp,
        atk,
        def,
        spd,
        luck,
        seed_index: t.registered_fighters,
        is_alive: true,
        wins: 0,
        deposited_amount: deposit_amount,
    };
    t.registered_fighters = t.registered_fighters + 1;
    Ok(fighter)
}

/// Validation cascade for starting a battle, in check order, evaluated
/// against the tournament state after a possible registration-to-in-progress
/// transition.
pub open spec fn spec_start_battle_check(
    t: TournamentView,
    fa: FighterView,
    fb: FighterView,
    round: u8,
) -> Option<ErrorCode> {
    if !(t.status == TournamentStatus::Registration || t.status == TournamentStatus::InProgress) {
        Some(ErrorCode::TournamentNotActive)
    } else if fa.tournament != t.tournament_id || fb.tournament != t.tournament_id {
        Some(ErrorCode::FighterTournamentMismatch)
    } else if !fa.is_alive || !fb.is_alive {
        Some(ErrorCode::FighterEliminated)
    } else if fa.token_mint == fb.token_mint {
        Some(ErrorCode::SameFighter)
    } else if t.status == TournamentStatus::Registration
        && t.registered_fighters < t.min_fighters {
        Some(ErrorCode::NotEnoughFighters)
    } else if round != (if t.status == TournamentStatus::Registration { 0u8 } else {
        t.current_round
    }) {
        Some(ErrorCode::InvalidRound)
    } else if (if t.status == TournamentStatus::Registration { 0u8 } else { t.current_match })
        == u8::MAX {
        Some(ErrorCode::MathOverflow)
    } else {
        None
    }
}

/// Opens a battle between two living fighters of this tournament. The first
/// battle moves the tournament from registration to in-progress and resets
/// its progression counters; the round must match the tournament's current
/// round. The new battle opens for betting.
pub fn start_battle(
    t: &mut Tournament,
    fighter_a: &Fighter,
    fighter_b: &Fighter,
    battle_id: u64,
    round: u8,
    match_index: u8,
) -> (r: Result<Battle, ErrorCode>)
    ensures
        ({
            let check = spec_start_battle_check(old(t)@, fighter_a@, fighter_b@, round);
            &&& (r is Err <==> check is Some)
            &&& (r matches Err(e) ==> check == Some(e))
            &&& (r is Err ==> final(t)@ == old(t)@)
            &&& (r matches Ok(b) ==> {
                let was_reg = old(t)@.status == TournamentStatus::Registration;
                let match0 = if was_reg { 0u8 } else { old(t)@.current_match };
                &&& b == (Battle {
                    battle_id,
                    tournament: old(t)@.tournament_id,
                    round,
                    match_index,
                    fighter_a: fighter_a@.token_mint,
                    fighter_b: fighter_b@.token_mint,
                    winner: None,
                    status: BattleStatus::BettingOpen,
                    randomness_account: 0,
                    commit_slot: 0,
                    total_bet_a: 0,
                    total_bet_b: 0,
                    total_bettors: 0,
                })
                &&& final(t)@ == (TournamentView {
                    status: TournamentStatus::InProgress,
                    current_round: if was_reg { 0u8 } else { old(t)@.current_round },
                    current_match: (match0 + 1) as u8,
                    ..old(t)@
                })
            })
        }),
{
    let active = matches!(t.status, TournamentStatus::Registration)
        || matches!(t.status, TournamentStatus::InProgress);
    if !active {
        return Err(ErrorCode::TournamentNotActive);
    }
    if fighter_a.tournament != t.tournament_id || fighter_b.tournament != t.tournament_id {
        return Err(ErrorCode::FighterTournamentMismatch);
    }
    if !fighter_a.is_alive || !fighter_b.is_alive {
        return Err(ErrorCode::FighterEliminated);
    }
    if fighter_a.token_mint == fighter_b.token_mint {
        return Err(ErrorCode::SameFighter);
    }
    let was_registration = matches!(t.status, TournamentStatus::Registration);
    if was_registration && t.registered_fighters < t.min_fighters {
        return Err(ErrorCode::NotEnoughFighters);
    }
    let current_round = if was_registration {
        0
    } else {
        t.current_round
    };
    if round != current_round {
        return Err(ErrorCode::InvalidRound);
    }
    let current_match = if was_registration {
        0
    } else {
        t.current_match
    };
    let next_match = match current_match.checked_add(1) {
        Some(v) => v,
        None => {
            return Err(ErrorCode::MathOverflow);
        },
    };
    t.status = TournamentStatus::InProgress;
    t.current_round = current_round;
    t.current_match = next_match;
    Ok(Battle {
        battle_id,
        tournament: t.tournament_id,
        round,
        match_index,
        fighter_a: fighter_a.token_mint,
        fighter_b: fighter_b.token_mint,
        winner: None,
        status: BattleStatus::BettingOpen,
        randomness_account: 0,
        commit_slot: 0,
        total_bet_a: 0,
        total_bet_b: 0,
        total_bettors: 0,
    })
}

/// Stakes a bet on one side of a battle while betting is open. The side's
/// total and the bettor count rise; the returned slip records the backed
/// fighter's mint.
pub fn place_bet(battle: &mut Battle, bettor: u64, amount: u64, backing_fighter_a: bool)
    -> (r: Result<BetSlip, ErrorCode>)
    ensures
        r is Err ==> *final(battle) == *old(battle),
        r == Err::<BetSlip, ErrorCode>(ErrorCode::BettingClosed)
            <==> old(battle).status != BattleStatus::BettingOpen,
        r == Err::<BetSlip, ErrorCode>(ErrorCode::InvalidBetAmount)
            <==> old(battle).status == BattleStatus::BettingOpen && amount == 0,
        r == Err::<BetSlip, ErrorCode>(ErrorCode::MathOverflow)
            <==> old(battle).status == BattleStatus::BettingOpen && amount > 0
                && ((backing_fighter_a && old(battle).total_bet_a + amount > u64::MAX)
                    || (!backing_fighter_a && old(battle).total_bet_b + amount > u64::MAX)
                    || old(battle).total_bettors + 1 > u16::MAX),
        r is Ok <==> old(battle).status == BattleStatus::BettingOpen && amount > 0
            && (if backing_fighter_a {
                old(battle).total_bet_a + amount <= u64::MAX
            } else {
                old(battle).total_bet_b + amount <= u64::MAX
            })
            && old(battle).total_bettors + 1 <= u16::MAX,
        r matches Err(e) ==> (e == ErrorCode::BettingClosed || e == ErrorCode::InvalidBetAmount
            || e == ErrorCode::MathOverflow),
        r matches Ok(slip) ==> ({
            &&& slip == (BetSlip {
                battle: old(battle).battle_id,
                bettor,
                fighter_backed: if backing_fighter_a { old(battle).fighter_a } else {
                    old(battle).fighter_b
                },
                amount,
                claimed: false,
            })
            &&& *final(battle) == (Battle {
                total_bet_a: if backing_fighter_a { (old(battle).total_bet_a + amount) as u64 }
                    else { old(battle).total_bet_a },
                total_bet_b: if backing_fighter_a { old(battle).total_bet_b } else {
                    (old(battle).total_bet_b + amount) as u64
                },
                total_bettors: (old(battle).total_bettors + 1) as u16,
                ..*old(battle)
            })
        }),
{
    if !matches!(battle.status, BattleStatus::BettingOpen) {
        return Err(ErrorCode::BettingClosed);
    }
    if amount == 0 {
        return Err(ErrorCode::InvalidBetAmount);
    }
    let new_a: u64;
    let new_b: u64;
    if backing_fighter_a {
        new_a = match battle.total_bet_a.checked_add(amount) {
            Some(v) => v,
            None => {
                return Err(ErrorCode::MathOverflow);
            },
        };
        new_b = battle.total_bet_b;
    } else {
        new_a = battle.total_bet_a;
        new_b = match battle.total_bet_b.checked_add(amount) {
            Some(v) => v,
            None => {
                return Err(ErrorCode::MathOverflow);
            },
        };
    }
    let new_bettors = match battle.total_bettors.checked_add(1) {
        Some(v) => v,
        None => {
            return Err(ErrorCode::MathOverflow);
        },
    };
    let slip = BetSlip {
        battle: battle.battle_id,
        bettor,
        fighter_backed: if backing_fighter_a {
            battle.fighter_a
        } else {
            battle.fighter_b
        },
        amount,
        claimed: false,
    };
    battle.total_bet_a = new_a;
    battle.total_bet_b = new_b;
    battle.total_bettors = new_bettors;
    Ok(slip)
}

/// Closes betting by committing to a fresh, still-unrevealed randomness
/// record: the record must be seeded at the immediately preceding slot and
/// must not have revealed a value yet. The battle remembers the record's
/// identity and seed slot for the resolve step.
pub fn commit_battle(battle: &mut Battle, randomness: &RandomnessInfo, current_slot: u64)
    -> (r: Result<(), ErrorCode>)
    ensures
        r is Err ==> *final(battle) == *old(battle),
        r == Err::<(), ErrorCode>(ErrorCode::BettingClosed)
            <==> old(battle).status != BattleStatus::BettingOpen,
        r == Err::<(), ErrorCode>(ErrorCode::RandomnessExpired)
            <==> old(battle).status == BattleStatus::BettingOpen
                && randomness.seed_slot != current_slot - 1,
        r == Err::<(), ErrorCode>(ErrorCode::RandomnessAlreadyRevealed)
            <==> old(battle).status == BattleStatus::BettingOpen
                && randomness.seed_slot == current_slot - 1
                && randomness.revealed is Some,
        r is Ok <==> old(battle).status == BattleStatus::BettingOpen
            && randomness.seed_slot == current_slot - 1
            && randomness.revealed is None,
        r matches Err(e) ==> (e == ErrorCode::BettingClosed || e == ErrorCode::RandomnessExpired
            || e == ErrorCode::RandomnessAlreadyRevealed),
        r is Ok ==> *final(battle) == (Battle {
            status: BattleStatus::Committed,
            randomness_account: randomness.account,
            commit_slot: randomness.seed_slot,
            ..*old(battle)
        }),
{
    if !matches!(battle.status, BattleStatus::BettingOpen) {
        return Err(ErrorCode::BettingClosed);
    }
    let fresh = current_slot >= 1 && randomness.seed_slot == current_slot - 1;
    proof {
        if current_slot == 0 {
            assert(randomness.seed_slot != current_slot - 1);
        }
    }
    if !fresh {
        return Err(ErrorCode::RandomnessExpired);
    }
    if matches!(randomness.revealed, Some(_)) {
        return Err(ErrorCode::RandomnessAlreadyRevealed);
    }
    battle.status = BattleStatus::Committed;
    battle.randomness_account = randomness.account;
    battle.commit_slot = randomness.seed_slot;
    Ok(())
}

/// Resolves a committed battle with the revealed randomness of the committed
/// record: the record identity and seed slot must match the commit, and a
/// revealed value must be present. The combat simulation decides the winner,
/// which the battle records; the winner's token mint is returned.
pub fn resolve_battle(
    battle: &mut Battle,
    fighter_a: &Fighter,
    fighter_b: &Fighter,
    randomness: &RandomnessInfo,
) -> (r: Result<u64, ErrorCode>)
    ensures
        r is Err ==> *final(battle) == *old(battle),
        r == Err::<u64, ErrorCode>(ErrorCode::BattleNotResolvable)
            <==> old(battle).status != BattleStatus::Committed,
        r == Err::<u64, ErrorCode>(ErrorCode::FighterMismatch)
            <==> old(battle).status == BattleStatus::Committed
                && !(fighter_a@.token_mint == old(battle).fighter_a
                    && fighter_b@.token_mint == old(battle).fighter_b),
        r == Err::<u64, ErrorCode>(ErrorCode::RandomnessMismatch)
            <==> old(battle).status == BattleStatus::Committed
                && fighter_a@.token_mint == old(battle).fighter_a
                && fighter_b@.token_mint == old(battle).fighter_b
                && randomness.account != old(battle).randomness_account,
        r == Err::<u64, ErrorCode>(ErrorCode::RandomnessExpired)
            <==> old(battle).status == BattleStatus::Committed
                && fighter_a@.token_mint == old(battle).fighter_a
                && fighter_b@.token_mint == old(battle).fighter_b
                && randomness.account == old(battle).randomness_account
                && randomness.seed_slot != old(battle).commit_slot,
        r == Err::<u64, ErrorCode>(ErrorCode::RandomnessNotResolved)
            <==> old(battle).status == BattleStatus::Committed
                && fighter_a@.token_mint == old(battle).fighter_a
                && fighter_b@.token_mint == old(battle).fighter_b
                && randomness.account == old(battle).randomness_account
                && randomness.seed_slot == old(battle).commit_slot
                && randomness.revealed is None,
        r is Ok <==> old(battle).status == BattleStatus::Committed
            && fighter_a@.token_mint == old(battle).fighter_a
            && fighter_b@.token_mint == old(battle).fighter_b
            && randomness.account == old(battle).randomness_account
            && randomness.seed_slot == old(battle).commit_slot
            && randomness.revealed is Some,
        r matches Err(e) ==> (e == ErrorCode::BattleNotResolvable
            || e == ErrorCode::FighterMismatch || e == ErrorCode::RandomnessMismatch
            || e == ErrorCode::RandomnessExpired || e == ErrorCode::RandomnessNotResolved),
        r matches Ok(winner) ==> ({
            let value = randomness.revealed->Some_0;
            let w = if spec_combat_winner(*fighter_a, *fighter_b, value@)
                == CombatWinner::FighterA {
                old(battle).fighter_a
            } else {
                old(battle).fighter_b
            };
            &&& winner == w
            &&& *final(battle) == (Battle {
                winner: Some(w),
                status: BattleStatus::Resolved,
                ..*old(battle)
            })
        }),
{
    if !matches!(battle.status, BattleStatus::Committed) {
        return Err(ErrorCode::BattleNotResolvable);
    }
    if !(fighter_a.token_mint == battle.fighter_a && fighter_b.token_mint == battle.fighter_b) {
        return Err(ErrorCode::FighterMismatch);
    }
    if randomness.account != battle.randomness_account {
        return Err(ErrorCode::RandomnessMismatch);
    }
    if randomness.seed_slot != battle.commit_slot {
        return Err(ErrorCode::RandomnessExpired);
    }
    let value = match randomness.revealed {
        Some(v) => v,
        None => {
            return Err(ErrorCode::RandomnessNotResolved);
        },
    };
    let outcome = simulate_combat(fighter_a, fighter_b, &value);
    let winner_mint = match outcome {
        CombatWinner::FighterA => battle.fighter_a,
        CombatWinner::FighterB => battle.fighter_b,
    };
    battle.winner = Some(winner_mint);
    battle.status = BattleStatus::Resolved;
    Ok(winner_mint)
}

/// Rounds needed to crown a champion of a bracket: the base-2 logarithm of
/// the field size, rounded down.
pub open spec fn spec_log2(n: int) -> int
    decreases n,
{
    if n <= 1 {
        0
    } else {
        1 + spec_log2(n / 2)
    }
}

/// Rounds needed to crown a champion: `log2(max_fighters)`.
pub fn total_rounds(max_fighters: u8) -> (rounds: u8)
    ensures
        rounds == spec_log2(max_fighters as int),
        rounds <= 8,
{
    proof {
        lemma_log2_bound(max_fighters as int);
    }
    let mut n: u8 = max_fighters;
    let mut rounds: u8 = 0;
    while n > 1
        invariant
            rounds + spec_log2(n as int) == spec_log2(max_fighters as int),
            spec_log2(n as int) >= 0,
            spec_log2(max_fighters as int) <= 8,
            rounds <= 8,
        decreases n,
    {
        proof {
            lemma_log2_bound(n as int / 2);
        }
        n = n / 2;
        rounds = rounds + 1;
    }
    rounds
}

/// The base-2 logarithm is never negative.
proof fn lemma_log2_nonneg(n: int)
    ensures
        spec_log2(n) >= 0,
    decreases (if n >= 0 { n } else { 0 }),
{
    if n > 1 {
        lemma_log2_nonneg(n / 2);
    }
}

/// The base-2 logarithm is monotone.
proof fn lemma_log2_monotone(n1: int, n2: int)
    requires
        n1 <= n2,
    ensures
        spec_log2(n1) <= spec_log2(n2),
    decreases (if n2 >= 0 { n2 } else { 0 }),
{
    if n1 > 1 {
        vstd::arithmetic::div_mod::lemma_div_is_ordered(n1, n2, 2);
        lemma_log2_monotone(n1 / 2, n2 / 2);
    } else {
        lemma_log2_nonneg(n2);
    }
}

/// The base-2 logarithm of a byte-sized count is at most 8.
proof fn lemma_log2_bound(n: int)
    requires
        n <= 255,
    ensures
        spec_log2(n) <= 8,
        spec_log2(n) >= 0,
{
    lemma_log2_nonneg(n);
    lemma_log2_monotone(n, 255);
    assert(spec_log2(1) == 0);
    assert(spec_log2(3) == 1);
    assert(spec_log2(7) == 2);
    assert(spec_log2(15) == 3);
    assert(spec_log2(31) == 4);
    assert(spec_log2(63) == 5);
    assert(spec_log2(127) == 6);
    assert(spec_log2(255) == 7);
}

/// Records a resolved battle's outcome in the bracket: the winner gains a
/// win, the loser is eliminated, and once the winner has collected
/// `log2(max_fighters)` wins it is crowned champion and the tournament
/// completes. Returns whether a champion was crowned.
pub fn advance_round(
    t: &mut Tournament,
    battle: &Battle,
    winner: &mut Fighter,
    loser: &mut Fighter,
) -> (r: Result<bool, ErrorCode>)
    ensures
        r is Err ==> final(t)@ == old(t)@ && final(winner)@ == old(winner)@
            && final(loser)@ == old(loser)@,
        r == Err::<bool, ErrorCode>(ErrorCode::TournamentNotActive)
            <==> old(t)@.status != TournamentStatus::InProgress,
        r == Err::<bool, ErrorCode>(ErrorCode::FighterTournamentMismatch)
            <==> old(t)@.status == TournamentStatus::InProgress
                && battle.tournament != old(t)@.tournament_id,
        r == Err::<bool, ErrorCode>(ErrorCode::BattleNotResolved)
            <==> old(t)@.status == TournamentStatus::InProgress
                && battle.tournament == old(t)@.tournament_id
                && battle.status != BattleStatus::Resolved,
        r == Err::<bool, ErrorCode>(ErrorCode::FighterMismatch)
            <==> old(t)@.status == TournamentStatus::InProgress
                && battle.tournament == old(t)@.tournament_id
                && battle.status == BattleStatus::Resolved
                && !(battle.winner == Some(old(winner)@.token_mint)
                    && (old(loser)@.token_mint == battle.fighter_a
                        || old(loser)@.token_mint == battle.fighter_b)
                    && battle.winner != Some(old(loser)@.token_mint)),
        r == Err::<bool, ErrorCode>(ErrorCode::MathOverflow)
            <==> old(t)@.status == TournamentStatus::InProgress
                && battle.tournament == old(t)@.tournament_id
                && battle.status == BattleStatus::Resolved
                && battle.winner == Some(old(winner)@.token_mint)
                && (old(loser)@.token_mint == battle.fighter_a
                    || old(loser)@.token_mint == battle.fighter_b)
                && battle.winner != Some(old(loser)@.token_mint)
                && old(winner)@.wins == u8::MAX,
        r is Ok <==> old(t)@.status == TournamentStatus::InProgress
            && battle.tournament == old(t)@.tournament_id
            && battle.status == BattleStatus::Resolved
            && battle.winner == Some(old(winner)@.token_mint)
            && (old(loser)@.token_mint == battle.fighter_a
                || old(loser)@.token_mint == battle.fighter_b)
            && battle.winner != Some(old(loser)@.token_mint)
            && old(winner)@.wins < u8::MAX,
        r matches Err(e) ==> (e == ErrorCode::TournamentNotActive
            || e == ErrorCode::FighterTournamentMismatch || e == ErrorCode::BattleNotResolved
            || e == ErrorCode::FighterMismatch || e == ErrorCode::MathOverflow),
        r matches Ok(crowned) ==> ({
            let new_wins = old(winner)@.wins + 1;
            &&& crowned == (new_wins >= spec_log2(old(t)@.max_fighters as int))
            &&& final(winner)@ == (FighterView { wins: new_wins as u8, ..old(winner)@ })
            &&& final(loser)@ == (FighterView { is_alive: false, ..old(loser)@ })
            &&& final(t)@ == (TournamentView {
                champion: if crowned { Some(old(winner)@.token_mint) } else { old(t)@.champion },
                status: if crowned { TournamentStatus::Completed } else { old(t)@.status },
                ..old(t)@
            })
        }),
{
    if !matches!(t.status, TournamentStatus::InProgress) {
        return Err(ErrorCode::TournamentNotActive);
    }
    if battle.tournament != t.tournament_id {
        return Err(ErrorCode::FighterTournamentMismatch);
    }
    if !matches!(battle.status, BattleStatus::Resolved) {
        return Err(ErrorCode::BattleNotResolved);
    }
    let winner_matches = match battle.winner {
        Some(w) => w == winner.token_mint,
        None => false,
    };
    let loser_in_battle = loser.token_mint == battle.fighter_a
        || loser.token_mint == battle.fighter_b;
    let loser_not_winner = match battle.winner {
        Some(w) => w != loser.token_mint,
        None => true,
    };
    if !(winner_matches && loser_in_battle && loser_not_winner) {
        return Err(ErrorCode::FighterMismatch);
    }
    let new_wins = match winner.wins.checked_add(1) {
        Some(v) => v,
        None => {
            return Err(ErrorCode::MathOverflow);
        },
    };
    winner.wins = new_wins;
    loser.is_alive = false;
    let rounds_needed = total_rounds(t.max_fighters);
    let crowned = new_wins >= rounds_needed;
    if crowned {
        t.champion = Some(winner.token_mint);
        t.status = TournamentStatus::Completed;
    }
    Ok(crowned)
}

/// Pays a winning bet: the pooled bets minus the rake are shared across the
/// winning side in proportion to each stake, and the bettor's share of the
/// rake accrues to the tournament prize pool. Returns
/// `(payout, rake_share)`. The slip must have been produced by `place_bet`
/// against this battle, so its stake is part of the winning side's total.
pub fn claim_bet_winnings(
    battle: &Battle,
    bet_slip: &mut BetSlip,
    prize_pool: &mut PrizePool,
    bettor: u64,
    rake_bps: u16,
) -> (r: Result<(u64, u64), ErrorCode>)
    requires
        rake_bps <= 10_000,
        old(bet_slip).amount >= 1,
        old(bet_slip).amount <= (if old(bet_slip).fighter_backed == battle.fighter_a {
            battle.total_bet_a
        } else {
            battle.total_bet_b
        }),
        battle.total_bet_a + battle.total_bet_b <= u64::MAX,
    ensures
        r is Err ==> *final(bet_slip) == *old(bet_slip)
            && *final(prize_pool) == *old(prize_pool),
        r == Err::<(u64, u64), ErrorCode>(ErrorCode::BattleNotResolved)
            <==> battle.status != BattleStatus::Resolved,
        r == Err::<(u64, u64), ErrorCode>(ErrorCode::FighterMismatch)
            <==> battle.status == BattleStatus::Resolved
                && old(bet_slip).battle != battle.battle_id,
        r == Err::<(u64, u64), ErrorCode>(ErrorCode::Unauthorized)
            <==> battle.status == BattleStatus::Resolved
                && old(bet_slip).battle == battle.battle_id
                && old(bet_slip).bettor != bettor,
        r == Err::<(u64, u64), ErrorCode>(ErrorCode::AlreadyClaimed)
            <==> battle.status == BattleStatus::Resolved
                && old(bet_slip).battle == battle.battle_id
                && old(bet_slip).bettor == bettor
                && old(bet_slip).claimed,
        r == Err::<(u64, u64), ErrorCode>(ErrorCode::BetLost)
            <==> battle.status == BattleStatus::Resolved
                && old(bet_slip).battle == battle.battle_id
                && old(bet_slip).bettor == bettor
                && !old(bet_slip).claimed
                && Some(old(bet_slip).fighter_backed) != battle.winner,
        r is Ok <==> battle.status == BattleStatus::Resolved
            && old(bet_slip).battle == battle.battle_id
            && old(bet_slip).bettor == bettor
            && !old(bet_slip).claimed
            && Some(old(bet_slip).fighter_backed) == battle.winner
            && old(prize_pool).total_betting_rake + spec_share(
                old(bet_slip).amount as int,
                spec_fee(battle.total_bet_a + battle.total_bet_b, rake_bps as int),
                if old(bet_slip).fighter_backed == battle.fighter_a {
                    battle.total_bet_a as int
                } else {
                    battle.total_bet_b as int
                },
            ) <= u64::MAX,
        r matches Err(e) ==> (e == ErrorCode::BattleNotResolved
            || e == ErrorCode::FighterMismatch || e == ErrorCode::Unauthorized
            || e == ErrorCode::AlreadyClaimed || e == ErrorCode::BetLost
            || e == ErrorCode::MathOverflow),
        r matches Ok(amounts) ==> ({
            let total_pool = battle.total_bet_a + battle.total_bet_b;
            let rake = spec_fee(total_pool, rake_bps as int);
            let payout_pool = total_pool - rake;
            let winning_side = if old(bet_slip).fighter_backed == battle.fighter_a {
                battle.total_bet_a as int
            } else {
                battle.total_bet_b as int
            };
            &&& winning_side > 0
            &&& amounts.0 == spec_share(old(bet_slip).amount as int, payout_pool, winning_side)
            &&& amounts.1 == spec_share(old(bet_slip).amount as int, rake, winning_side)
            &&& *final(bet_slip) == (BetSlip { claimed: true, ..*old(bet_slip) })
            &&& *final(prize_pool) == (PrizePool {
                total_betting_rake: (old(prize_pool).total_betting_rake + amounts.1) as u64,
                ..*old(prize_pool)
            })
        }),
        r == Err::<(u64, u64), ErrorCode>(ErrorCode::MathOverflow)
            <==> battle.status == BattleStatus::Resolved
                && old(bet_slip).battle == battle.battle_id
                && old(bet_slip).bettor == bettor
                && !old(bet_slip).claimed
                && Some(old(bet_slip).fighter_backed) == battle.winner
                && old(prize_pool).total_betting_rake + spec_share(
                    old(bet_slip).amount as int,
                    spec_fee(battle.total_bet_a + battle.total_bet_b, rake_bps as int),
                    if old(bet_slip).fighter_backed == battle.fighter_a {
                        battle.total_bet_a as int
                    } else {
                        battle.total_bet_b as int
                    },
                ) > u64::MAX,
{
    if !matches!(battle.status, BattleStatus::Resolved) {
        return Err(ErrorCode::BattleNotResolved);
    }
    if bet_slip.battle != battle.battle_id {
        return Err(ErrorCode::FighterMismatch);
    }
    if bet_slip.bettor != bettor {
        return Err(ErrorCode::Unauthorized);
    }
    if bet_slip.claimed {
        return Err(ErrorCode::AlreadyClaimed);
    }
    let won = match battle.winner {
        Some(w) => w == bet_slip.fighter_backed,
        None => false,
    };
    if !won {
        return Err(ErrorCode::BetLost);
    }
    let total_pool = battle.total_bet_a + battle.total_bet_b;
    let (rake, payout_pool) = fee_split(total_pool, rake_bps);
    let winning_side_total = if bet_slip.fighter_backed == battle.fighter_a {
        battle.total_bet_a
    } else {
        battle.total_bet_b
    };
    // The slip's own stake is part of the winning side, so the side total is
    // positive: a winning bet always has a payout denominator.
    assert(winning_side_total >= bet_slip.amount);
    let payout = proportional_share(bet_slip.amount, payout_pool, winning_side_total);
    let rake_share = proportional_share(bet_slip.amount, rake, winning_side_total);
    let new_rake_total = match prize_pool.total_betting_rake.checked_add(rake_share) {
        Some(v) => v,
        None => {
            return Err(ErrorCode::MathOverflow);
        },
    };
    bet_slip.claimed = true;
    prize_pool.total_betting_rake = new_rake_total;
    Ok((payout, rake_share))
}

/// Distributes a completed tournament's prize balance: the protocol and
/// creator fees come off first, and the champion's owner takes the
/// remainder; the three parts always sum back to the distributable balance.
/// Returns `(champion_prize, protocol_fee, creator_fee)`. A zero balance
/// just marks the champion claim done.
pub fn claim_resurrection(
    t: &Tournament,
    prize_pool: &mut PrizePool,
    champion_fighter: &Fighter,
    claimer: u64,
    protocol_config: &ProtocolConfig,
    distributable: u64,
) -> (r: Result<(u64, u64, u64), ErrorCode>)
    requires
        old(prize_pool).tournament == t@.tournament_id,
        champion_fighter@.tournament == t@.tournament_id,
        protocol_config.protocol_fee_bps <= MAX_PROTOCOL_FEE_BPS,
        t@.creator_fee_bps <= MAX_CREATOR_FEE_BPS,
    ensures
        r is Err ==> *final(prize_pool) == *old(prize_pool),
        r == Err::<(u64, u64, u64), ErrorCode>(ErrorCode::TournamentNotComplete)
            <==> t@.status != TournamentStatus::Completed,
        r == Err::<(u64, u64, u64), ErrorCode>(ErrorCode::AlreadyClaimed)
            <==> t@.status == TournamentStatus::Completed && old(prize_pool).champion_claimed,
        r == Err::<(u64, u64, u64), ErrorCode>(ErrorCode::NotChampion)
            <==> t@.status == TournamentStatus::Completed && !old(prize_pool).champion_claimed
                && Some(champion_fighter@.token_mint) != t@.champion,
        r == Err::<(u64, u64, u64), ErrorCode>(ErrorCode::Unauthorized)
            <==> t@.status == TournamentStatus::Completed && !old(prize_pool).champion_claimed
                && Some(champion_fighter@.token_mint) == t@.champion
                && champion_fighter@.owner != claimer,
        r is Ok <==> t@.status == TournamentStatus::Completed
            && !old(prize_pool).champion_claimed
            && Some(champion_fighter@.token_mint) == t@.champion
            && champion_fighter@.owner == claimer,
        r matches Err(e) ==> (e == ErrorCode::TournamentNotComplete
            || e == ErrorCode::AlreadyClaimed || e == ErrorCode::NotChampion
            || e == ErrorCode::Unauthorized),
        r matches Ok(parts) ==> ({
            let pf = spec_fee(distributable as int, protocol_config.protocol_fee_bps as int);
            let cf = spec_fee(distributable as int, t@.creator_fee_bps as int);
            &&& (distributable == 0 ==> parts == (0u64, 0u64, 0u64)
                && *final(prize_pool) == (PrizePool {
                    champion_claimed: true,
                    ..*old(prize_pool)
                }))
            &&& (distributable > 0 ==> {
                &&& parts.1 == pf
                &&& parts.2 == cf
                &&& parts.0 == distributable - pf - cf
                &&& parts.0 + parts.1 + parts.2 == distributable
                &&& *final(prize_pool) == (PrizePool {
                    champion_claimed: true,
                    protocol_claimed: true,
                    creator_claimed: true,
                    ..*old(prize_pool)
                })
            })
        }),
{
    if !matches!(t.status, TournamentStatus::Completed) {
        return Err(ErrorCode::TournamentNotComplete);
    }
    if prize_pool.champion_claimed {
        return Err(ErrorCode::AlreadyClaimed);
    }
    let is_champion = match t.champion {
        Some(c) => c == champion_fighter.token_mint,
        None => false,
    };
    if !is_champion {
        return Err(ErrorCode::NotChampion);
    }
    if champion_fighter.owner != claimer {
        return Err(ErrorCode::Unauthorized);
    }
    if distributable == 0 {
        prize_pool.champion_claimed = true;
        return Ok((0, 0, 0));
    }
    let (protocol_fee, _rest1) = fee_split(distributable, protocol_config.protocol_fee_bps);
    let (creator_fee, _rest2) = fee_split(distributable, t.creator_fee_bps);
    proof {
        lemma_fee_parts_bounded(
            distributable as int,
            protocol_config.protocol_fee_bps as int,
            t.creator_fee_bps as int,
        );
    }
    let champion_prize = distributable - protocol_fee - creator_fee;
    prize_pool.champion_claimed = true;
    prize_pool.protocol_claimed = true;
    prize_pool.creator_claimed = true;
    Ok((champion_prize, protocol_fee, creator_fee))
}

/// Two fees of at most half the denominator each never exceed the whole.
proof fn lemma_fee_parts_bounded(total: int, bps1: int, bps2: int)
    requires
        total >= 0,
        bps1 >= 0,
        bps2 >= 0,
        bps1 + bps2 <= 10_000,
    ensures
        spec_fee(total, bps1) + spec_fee(total, bps2) <= total,
        spec_fee(total, bps1) >= 0,
        spec_fee(total, bps2) >= 0,
{
    vstd::arithmetic::div_mod::lemma_div_pos_is_pos(total * bps1, 10_000);
    vstd::arithmetic::div_mod::lemma_div_pos_is_pos(total * bps2, 10_000);
    assert(total * bps1 >= 0 && total * bps2 >= 0) by (nonlinear_arith)
        requires total >= 0, bps1 >= 0, bps2 >= 0;
    crate::payout::lemma_div_sum_le(total * bps1, total * bps2, 10_000);
    assert(total * bps1 + total * bps2 == total * (bps1 + bps2)) by (nonlinear_arith);
    vstd::arithmetic::mul::lemma_mul_inequality(bps1 + bps2, 10_000, total);
    assert(total * (bps1 + bps2) == (bps1 + bps2) * total) by (nonlinear_arith);
    vstd::arithmetic::div_mod::lemma_div_is_ordered(
        total * (bps1 + bps2), 10_000 * total, 10_000,
    );
    vstd::arithmetic::div_mod::lemma_div_multiples_vanish(total, 10_000);
}

} // verus!
