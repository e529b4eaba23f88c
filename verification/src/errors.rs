//! Typed failure values for every engine operation.
//!
//! All engine functions signal failure by returning one of these errors
//! without mutating any state; the host maps them onto its own error channel.

use vstd::prelude::*;

verus! {

/// Errors of the bomb-arena game engine.
#[derive(Clone, Copy, Debug, PartialEq, Eq, Structural)]
pub enum DeadmintError {
    /// Game is not in lobby state.
    GameNotInLobby,
    /// Game is not active.
    GameNotActive,
    /// Game is not finished.
    GameNotFinished,
    /// Game is full.
    GameFull,
    /// Player is not alive.
    PlayerNotAlive,
    /// Direction tag is not one of the four cardinal directions.
    InvalidDirection,
    /// Target cell is a wall, block or bomb.
    CellNotWalkable,
    /// Move would leave the grid.
    OutOfBounds,
    /// Move submitted before the speed cooldown elapsed.
    MoveTooFast,
    /// Player already has the maximum number of active bombs.
    NoBombsAvailable,
    /// Current cell already holds a bomb or is otherwise occupied.
    CellOccupied,
    /// Every bomb slot of the game is in use.
    BombSlotsFull,
    /// Bomb index is outside the bomb-slot array.
    InvalidBombIndex,
    /// Bomb slot is not active.
    BombNotActive,
    /// Bomb was already detonated.
    BombAlreadyDetonated,
    /// Fuse has not expired yet.
    FuseNotExpired,
    /// No winner recorded for this game.
    NoWinner,
    /// Caller is not the recorded winner.
    NotWinner,
    /// Prize was already claimed.
    AlreadyClaimed,
    /// Arithmetic overflow in fee or balance math.
    MathOverflow,
}

/// Errors of the tournament and boss-raid engines.
#[derive(Clone, Copy, Debug, PartialEq, Eq, Structural)]
pub enum ErrorCode {
    /// Tournament name must be 1-32 characters.
    InvalidTournamentName,
    /// Bracket size must be 2, 4, 8, 16, or 32.
    InvalidBracketSize,
    /// Entry fee exceeds the maximum.
    EntryFeeTooHigh,
    /// Creator fee exceeds the maximum.
    CreatorFeeTooHigh,
    /// Protocol is paused.
    ProtocolPaused,
    /// Registration is closed.
    RegistrationClosed,
    /// Tournament is full.
    TournamentFull,
    /// Fighter name must be 1-32 characters.
    InvalidFighterName,
    /// Fighter symbol must be 1-10 characters.
    InvalidFighterSymbol,
    /// Stats must be 0-100.
    InvalidStats,
    /// Deposit amount must be greater than 0.
    ZeroDeposit,
    /// Tournament is not active.
    TournamentNotActive,
    /// Fighter does not belong to this tournament.
    FighterTournamentMismatch,
    /// Fighter has been eliminated.
    FighterEliminated,
    /// Cannot battle a fighter against itself.
    SameFighter,
    /// Not enough fighters to start.
    NotEnoughFighters,
    /// Round does not match the tournament's current round.
    InvalidRound,
    /// Betting is closed for this battle.
    BettingClosed,
    /// Bet amount must be greater than 0.
    InvalidBetAmount,
    /// Battle cannot be resolved in its current state.
    BattleNotResolvable,
    /// Battle outcome has not been determined yet.
    BattleNotResolved,
    /// Fighter record does not match the battle.
    FighterMismatch,
    /// The backed fighter lost; nothing to claim.
    BetLost,
    /// Caller does not own the record it is claiming for.
    Unauthorized,
    /// Randomness is not from the immediately preceding slot.
    RandomnessExpired,
    /// Randomness already revealed; cannot commit against it.
    RandomnessAlreadyRevealed,
    /// Randomness record does not match the committed one.
    RandomnessMismatch,
    /// Randomness not yet revealed by the oracle.
    RandomnessNotResolved,
    /// Tournament has not completed.
    TournamentNotComplete,
    /// Caller is not the champion.
    NotChampion,
    /// Boss is not alive.
    BossNotAlive,
    /// Boss is still alive; loot cannot be claimed.
    BossStillAlive,
    /// Boss name must be 1-32 characters.
    InvalidBossName,
    /// Defense exceeds the maximum.
    DefenseTooHigh,
    /// Base price must be greater than 0.
    InvalidBasePrice,
    /// Slope must be greater than 0.
    InvalidSlope,
    /// Sell fee exceeds the maximum.
    SellFeeTooHigh,
    /// Attack amount must be greater than 0.
    ZeroAttackAmount,
    /// An attack is already pending for this ticket.
    AttackPending,
    /// No attack is pending for this ticket.
    NoPendingAttack,
    /// Sell amount must be greater than 0.
    ZeroSellAmount,
    /// Ticket holds fewer tokens than requested.
    InsufficientTokens,
    /// Loot or prize was already claimed.
    AlreadyClaimed,
    /// No damage recorded on this ticket.
    NoDamageDealt,
    /// Arithmetic overflow in curve or fee math.
    MathOverflow,
}

} // verus!
