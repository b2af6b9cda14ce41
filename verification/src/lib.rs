//! Core simulation engine for a small creature-collection auto-battler:
//! stochastic stat generation, genetic combination of creatures, a
//! difficulty controller, a tick-driven battle engine, and a statistics
//! tracker. All quantities are fixed-point integers carrying three decimal
//! places (thousandths), so one world unit or one stat point is 1000.

use vstd::prelude::*;

pub mod battle;
pub mod creature;
pub mod rng;
pub mod roster;
pub mod rounds;
pub mod statistics;

verus! {

/// The terminal outcome of a battle.
#[derive(Clone, Copy, Debug, PartialEq, Eq, Structural)]
pub enum GameResult {
    Victory,
    Defeat,
}

/// Outcome events emitted by core operations, for external subscribers
/// (statistics, presentation) to consume.
#[derive(Clone, Copy, Debug, PartialEq, Eq, Structural)]
pub enum GameEvent {
    /// Some roster entry's population count changed.
    PopulationChanged,
    /// A fresh creature joined the roster, under this generation id (its
    /// full stat block is read off the roster entry itself).
    CreatureCreated { generation: u64 },
    /// A combat agent took damage; the index refers to the battle's agents.
    DamageTaken { target: usize },
    /// A combat agent died, at this position (fixed-point world
    /// coordinates), on the given side.
    CreatureDied { is_enemy: bool, x: i64, y: i64 },
    /// A battle ended in victory and the round advanced.
    RoundOver,
    /// Two creatures were combined into offspring.
    CreatureCombined,
    /// A fresh run started.
    GameStarted,
    /// The run ended.
    GameEnded,
    /// A battle reached a terminal state.
    BattleResolved { result: GameResult },
}

/// Clamp `v` into `[lo, hi]`.
pub open spec fn clamp_spec(v: int, lo: int, hi: int) -> int {
    if v < lo {
        lo
    } else if v > hi {
        hi
    } else {
        v
    }
}

/// Clamp a value into an inclusive range.
pub fn clamp_i64(v: i64, lo: i64, hi: i64) -> (r: i64)
    requires
        lo <= hi,
    ensures
        r == clamp_spec(v as int, lo as int, hi as int),
        lo <= r <= hi,
{
    if v < lo {
        lo
    } else if v > hi {
        hi
    } else {
        v
    }
}

} // verus!
