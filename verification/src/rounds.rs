//! Round counting and the difficulty controller.
//!
//! `Difficulty` keeps three running means — enemy tier, enemy group count,
//! and enemy population multiplier — that grow by fixed increments after
//! every won battle. At enemy-generation time each is sampled through a
//! normal distribution centered on its mean (the caller supplies the
//! scaled standard-normal draw) and floored at a minimum. Everything is
//! fixed-point thousandths.

use vstd::prelude::*;

use crate::creature::NORMAL_SAMPLE_LIMIT;
use crate::creature::SCALE;
use crate::creature::normal_shift;
use crate::GameEvent;
use crate::GameResult;

verus! {

/// The round counter: starts at 1, increments after each won battle,
/// resets to 1 on game-over.
#[derive(Clone, Copy, Debug, PartialEq, Eq, Structural)]
pub struct Round(pub u32);

impl Default for Round {
    fn default() -> (r: Round)
        ensures
            r.0 == 1,
    {
        Round(1)
    }
}

pub const MIN_ENEMY_TIER: i64 = 1_000;

pub const MIN_ENEMY_COUNT: i64 = 1_000;

pub const MIN_ENEMY_POP_MULT: i64 = 500;

pub const ENEMY_TIER_INC: i64 = 500;

pub const ENEMY_COUNT_INC: i64 = 500;

pub const ENEMY_POP_INC: i64 = 250;

pub const ENEMY_TIER_STD_DEV: i64 = 1_000;

pub const ENEMY_COUNT_STD_DEV: i64 = 500;

pub const ENEMY_POP_MULT_STD_DEV: i64 = 300;

/// A ceiling on the running means, far beyond reachable play (it would take
/// two million won rounds); it only keeps the sampling arithmetic in range.
pub const DIFFICULTY_MEAN_CEILING: i64 = 1_000_000_000;

/// Enemy generation parameters, escalating round over round.
#[derive(Clone, Copy, Debug)]
pub struct Difficulty {
    pub enemy_tier_mean: i64,
    pub enemy_count_mean: i64,
    pub enemy_pop_mult_mean: i64,
}

/// One difficulty sample: a normal draw centered on `mean` (the scaled
/// standard-normal sample `z` spread by `std_dev`), floored at `min`.
pub open spec fn difficulty_sample(mean: int, std_dev: int, min: int, z: int) -> int {
    let raw = normal_shift(mean, std_dev, z);
    if raw < min {
        min
    } else {
        raw
    }
}

pub open spec fn difficulty_wf(d: Difficulty) -> bool {
    &&& MIN_ENEMY_TIER <= d.enemy_tier_mean <= DIFFICULTY_MEAN_CEILING
    &&& MIN_ENEMY_COUNT <= d.enemy_count_mean <= DIFFICULTY_MEAN_CEILING
    &&& MIN_ENEMY_POP_MULT <= d.enemy_pop_mult_mean <= DIFFICULTY_MEAN_CEILING
}

impl Default for Difficulty {
    fn default() -> (r: Difficulty)
        ensures
            difficulty_wf(r),
            r.enemy_tier_mean == 1_000,
            r.enemy_count_mean == 1_000,
            r.enemy_pop_mult_mean == 1_000,
    {
        Difficulty { enemy_tier_mean: 1_000, enemy_count_mean: 1_000, enemy_pop_mult_mean: 1_000 }
    }
}

impl Difficulty {
    /// Raise every running mean by its fixed increment (called once per won
    /// battle). The ceiling is unreachable in play and only bounds the
    /// arithmetic.
    pub fn inc_difficulty(&mut self)
        requires
            difficulty_wf(*old(self)),
        ensures
            difficulty_wf(*final(self)),
            final(self).enemy_tier_mean == inc_capped(old(self).enemy_tier_mean as int, ENEMY_TIER_INC as int),
            final(self).enemy_count_mean == inc_capped(old(self).enemy_count_mean as int, ENEMY_COUNT_INC as int),
            final(self).enemy_pop_mult_mean == inc_capped(old(self).enemy_pop_mult_mean as int, ENEMY_POP_INC as int),
    {
        self.enemy_tier_mean = add_capped(self.enemy_tier_mean, ENEMY_TIER_INC);
        self.enemy_count_mean = add_capped(self.enemy_count_mean, ENEMY_COUNT_INC);
        self.enemy_pop_mult_mean = add_capped(self.enemy_pop_mult_mean, ENEMY_POP_INC);
    }

    /// Sample the enemy tier for one generation pass: the tier mean spread
    /// by a normal draw, floored at the minimum, in whole tiers, saturating
    /// at the widest integer a tier byte holds.
    pub fn enemy_tier(&self, z: i64) -> (r: u8)
        requires
            difficulty_wf(*self),
            -NORMAL_SAMPLE_LIMIT <= z <= NORMAL_SAMPLE_LIMIT,
        ensures
            r as int == whole_or_255(
                difficulty_sample(
                    self.enemy_tier_mean as int,
                    ENEMY_TIER_STD_DEV as int,
                    MIN_ENEMY_TIER as int,
                    z as int,
                ),
            ),
            1 <= r,
    {
        let v = sample_floored(self.enemy_tier_mean, ENEMY_TIER_STD_DEV, MIN_ENEMY_TIER, z);
        let t = v / SCALE;
        if t > 255 {
            255
        } else {
            t as u8
        }
    }

    /// Sample how many enemy creature templates this battle generates.
    pub fn enemy_count(&self, z: i64) -> (r: u8)
        requires
            difficulty_wf(*self),
            -NORMAL_SAMPLE_LIMIT <= z <= NORMAL_SAMPLE_LIMIT,
        ensures
            r as int == whole_or_255(
                difficulty_sample(
                    self.enemy_count_mean as int,
                    ENEMY_COUNT_STD_DEV as int,
                    MIN_ENEMY_COUNT as int,
                    z as int,
                ),
            ),
            1 <= r,
    {
        let v = sample_floored(self.enemy_count_mean, ENEMY_COUNT_STD_DEV, MIN_ENEMY_COUNT, z);
        let c = v / SCALE;
        if c > 255 {
            255
        } else {
            c as u8
        }
    }

    /// Sample the population multiplier (fixed-point thousandths) for one
    /// enemy template.
    pub fn enemy_pop_mult(&self, z: i64) -> (r: i64)
        requires
            difficulty_wf(*self),
            -NORMAL_SAMPLE_LIMIT <= z <= NORMAL_SAMPLE_LIMIT,
        ensures
            r == difficulty_sample(
                self.enemy_pop_mult_mean as int,
                ENEMY_POP_MULT_STD_DEV as int,
                MIN_ENEMY_POP_MULT as int,
                z as int,
            ),
            r >= MIN_ENEMY_POP_MULT,
    {
        sample_floored(self.enemy_pop_mult_mean, ENEMY_POP_MULT_STD_DEV, MIN_ENEMY_POP_MULT, z)
    }
}

/// A mean after one increment, held below the arithmetic ceiling.
pub open spec fn inc_capped(mean: int, inc: int) -> int {
    if mean + inc > DIFFICULTY_MEAN_CEILING {
        DIFFICULTY_MEAN_CEILING as int
    } else {
        mean + inc
    }
}

/// The number of whole units in a sample, saturating at a byte's maximum.
pub open spec fn whole_or_255(v: int) -> int {
    if v / (SCALE as int) > 255 {
        255
    } else {
        v / (SCALE as int)
    }
}

fn add_capped(mean: i64, inc: i64) -> (r: i64)
    requires
        0 <= mean <= DIFFICULTY_MEAN_CEILING,
        0 <= inc <= 1_000,
    ensures
        r == inc_capped(mean as int, inc as int),
{
    if mean + inc > DIFFICULTY_MEAN_CEILING {
        DIFFICULTY_MEAN_CEILING
    } else {
        mean + inc
    }
}

fn sample_floored(mean: i64, std_dev: i64, min: i64, z: i64) -> (r: i64)
    requires
        0 <= min <= mean <= DIFFICULTY_MEAN_CEILING,
        0 <= std_dev <= 1_000,
        -NORMAL_SAMPLE_LIMIT <= z <= NORMAL_SAMPLE_LIMIT,
    ensures
        r == difficulty_sample(mean as int, std_dev as int, min as int, z as int),
        min <= r,
{
    let z_mag = if z >= 0 { z } else { -z };
    assert(0 <= z_mag * std_dev <= 1_000_000_000_000) by (nonlinear_arith)
        requires
            0 <= z_mag <= 1_000_000_000,
            0 <= std_dev <= 1_000,
    ;
    let offset = z_mag * std_dev / SCALE;
    let raw = if z >= 0 { mean + offset } else { mean - offset };
    if raw < min {
        min
    } else {
        raw
    }
}

/// Settle a finished battle's outcome against the run state: a victory
/// advances the round counter and the difficulty means by exactly their
/// fixed increments and announces the round as over; a defeat leaves both
/// untouched and announces the run as ended.
pub fn finish_round(
    result: GameResult,
    round: &mut Round,
    difficulty: &mut Difficulty,
    events: &mut Vec<GameEvent>,
)
    requires
        difficulty_wf(*old(difficulty)),
        old(round).0 < u32::MAX,
    ensures
        difficulty_wf(*final(difficulty)),
        result == GameResult::Victory ==> {
            &&& final(round).0 == old(round).0 + 1
            &&& final(difficulty).enemy_tier_mean == inc_capped(
                old(difficulty).enemy_tier_mean as int,
                ENEMY_TIER_INC as int,
            )
            &&& final(difficulty).enemy_count_mean == inc_capped(
                old(difficulty).enemy_count_mean as int,
                ENEMY_COUNT_INC as int,
            )
            &&& final(difficulty).enemy_pop_mult_mean == inc_capped(
                old(difficulty).enemy_pop_mult_mean as int,
                ENEMY_POP_INC as int,
            )
            &&& final(events)@ == old(events)@.push(GameEvent::RoundOver)
        },
        result == GameResult::Defeat ==> {
            &&& *final(round) == *old(round)
            &&& *final(difficulty) == *old(difficulty)
            &&& final(events)@ == old(events)@.push(GameEvent::GameEnded)
        },
{
    match result {
        GameResult::Victory => {
            round.0 = round.0 + 1;
            difficulty.inc_difficulty();
            events.push(GameEvent::RoundOver);
        },
        GameResult::Defeat => {
            events.push(GameEvent::GameEnded);
        },
    }
}

/// Start a fresh run: round and difficulty return to their initial values
/// and the start of the run is announced.
pub fn start_run(round: &mut Round, difficulty: &mut Difficulty, events: &mut Vec<GameEvent>)
    ensures
        final(round).0 == 1,
        difficulty_wf(*final(difficulty)),
        final(difficulty).enemy_tier_mean == 1_000,
        final(difficulty).enemy_count_mean == 1_000,
        final(difficulty).enemy_pop_mult_mean == 1_000,
        final(events)@ == old(events)@.push(GameEvent::GameStarted),
{
    *round = Round::default();
    *difficulty = Difficulty::default();
    events.push(GameEvent::GameStarted);
}

} // verus!
