//! Deterministic game-state engine for a grid-based bomb arena, a stat-based
//! fighter tournament with betting, and a boss-raid bonding-curve minigame.
//!
//! All state lives in explicit structs; every transition is a pure function of
//! the current state plus primitive inputs (a slot counter, a timestamp, or a
//! 32-byte verified-random value supplied by the host). The host is
//! responsible for loading state, authenticating callers, moving funds, and
//! persisting the returned state; the engine never performs I/O.

pub mod boss;
pub mod combat;
pub mod curve;
pub mod detonate;
pub mod entity;
pub mod errors;
pub mod game;
pub mod grid;
pub mod payout;
pub mod round;
pub mod tournament;

use vstd::prelude::*;

verus! {

/// Basis-point denominator: 10_000 bps == 100%.
pub const BPS_DENOMINATOR: u64 = 10_000;

} // verus!
