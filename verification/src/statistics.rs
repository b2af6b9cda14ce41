//! Run statistics: a passive aggregator driven by the events the core
//! operations emit. It counts survived rounds, kills, deaths and
//! combinations and accumulates elapsed time; a game-start event resets it,
//! a game-end event freezes it.

use vstd::prelude::*;

use crate::GameEvent;

verus! {

/// Aggregated statistics of the current run.
#[derive(Clone, Copy, Debug, PartialEq, Eq, Structural)]
pub struct GameStatistics {
    pub is_game_on: bool,
    pub elapsed_ms: u64,
    pub survived_rounds: u64,
    pub ally_kills: u64,
    pub ally_deaths: u64,
    pub combination_count: u64,
}

impl Default for GameStatistics {
    fn default() -> (r: GameStatistics)
        ensures
            r == fresh_statistics(),
    {
        GameStatistics {
            is_game_on: false,
            elapsed_ms: 0,
            survived_rounds: 0,
            ally_kills: 0,
            ally_deaths: 0,
            combination_count: 0,
        }
    }
}

/// All counters at zero, no run in progress.
pub open spec fn fresh_statistics() -> GameStatistics {
    GameStatistics {
        is_game_on: false,
        elapsed_ms: 0,
        survived_rounds: 0,
        ally_kills: 0,
        ally_deaths: 0,
        combination_count: 0,
    }
}

pub open spec fn is_started(e: GameEvent) -> bool {
    e == GameEvent::GameStarted
}

pub open spec fn is_ended(e: GameEvent) -> bool {
    e == GameEvent::GameEnded
}

pub open spec fn is_round_over(e: GameEvent) -> bool {
    e == GameEvent::RoundOver
}

pub open spec fn is_enemy_death(e: GameEvent) -> bool {
    match e {
        GameEvent::CreatureDied { is_enemy, .. } => is_enemy,
        _ => false,
    }
}

pub open spec fn is_ally_death(e: GameEvent) -> bool {
    match e {
        GameEvent::CreatureDied { is_enemy, .. } => !is_enemy,
        _ => false,
    }
}

pub open spec fn is_combined(e: GameEvent) -> bool {
    e == GameEvent::CreatureCombined
}

/// How many events of a batch satisfy `pred`.
pub open spec fn count_events(s: Seq<GameEvent>, pred: spec_fn(GameEvent) -> bool) -> nat
    decreases s.len(),
{
    if s.len() == 0 {
        0
    } else {
        count_events(s.drop_last(), pred) + if pred(s.last()) {
            1nat
        } else {
            0nat
        }
    }
}

pub open spec fn started_count(s: Seq<GameEvent>) -> nat {
    count_events(s, |e: GameEvent| is_started(e))
}

pub open spec fn ended_count(s: Seq<GameEvent>) -> nat {
    count_events(s, |e: GameEvent| is_ended(e))
}

pub open spec fn round_over_count(s: Seq<GameEvent>) -> nat {
    count_events(s, |e: GameEvent| is_round_over(e))
}

pub open spec fn enemy_death_count(s: Seq<GameEvent>) -> nat {
    count_events(s, |e: GameEvent| is_enemy_death(e))
}

pub open spec fn ally_death_count(s: Seq<GameEvent>) -> nat {
    count_events(s, |e: GameEvent| is_ally_death(e))
}

pub open spec fn combined_count(s: Seq<GameEvent>) -> nat {
    count_events(s, |e: GameEvent| is_combined(e))
}

/// Whether a run is in progress after a batch of events: a game-end event
/// overrides everything, a game-start event turns the run on, otherwise the
/// old state stands.
pub open spec fn game_on_after(was_on: bool, s: Seq<GameEvent>) -> bool {
    if ended_count(s) > 0 {
        false
    } else if started_count(s) > 0 {
        true
    } else {
        was_on
    }
}

/// The statistics a batch of events starts from: reset by a game-start
/// event, otherwise the old statistics.
pub open spec fn statistics_base(old_stats: GameStatistics, s: Seq<GameEvent>) -> GameStatistics {
    if started_count(s) > 0 {
        fresh_statistics()
    } else {
        old_stats
    }
}

/// Fold one batch of events, plus `dt_ms` elapsed milliseconds, into the
/// statistics. A game-start event in the batch resets everything first; a
/// game-end event freezes the tracker; while the run is on, each round-over,
/// death and combination event bumps its counter — ally kills count exactly
/// the enemy-side deaths, ally deaths exactly the ally-side deaths.
pub fn update_statistics(stats: &mut GameStatistics, events: &Vec<GameEvent>, dt_ms: u64)
    requires
        old(stats).elapsed_ms + dt_ms <= u64::MAX,
        old(stats).survived_rounds + events@.len() <= u64::MAX,
        old(stats).ally_kills + events@.len() <= u64::MAX,
        old(stats).ally_deaths + events@.len() <= u64::MAX,
        old(stats).combination_count + events@.len() <= u64::MAX,
    ensures
        ({
            let base = statistics_base(*old(stats), events@);
            let on = game_on_after(old(stats).is_game_on, events@);
            &&& final(stats).is_game_on == on
            &&& final(stats).elapsed_ms == base.elapsed_ms + if on {
                dt_ms as int
            } else {
                0
            }
            &&& final(stats).survived_rounds == base.survived_rounds + if on {
                round_over_count(events@)
            } else {
                0
            }
            &&& final(stats).ally_kills == base.ally_kills + if on {
                enemy_death_count(events@)
            } else {
                0
            }
            &&& final(stats).ally_deaths == base.ally_deaths + if on {
                ally_death_count(events@)
            } else {
                0
            }
            &&& final(stats).combination_count == base.combination_count + if on {
                combined_count(events@)
            } else {
                0
            }
        }),
{
    let len = events.len();
    let mut started = false;
    let mut ended = false;
    let mut k: usize = 0;
    while k < len
        invariant
            len == events@.len(),
            k <= len,
            started == (started_count(events@.take(k as int)) > 0),
            ended == (ended_count(events@.take(k as int)) > 0),
        decreases len - k,
    {
        proof {
            assert(events@.take(k as int + 1).drop_last() =~= events@.take(k as int));
        }
        match events[k] {
            GameEvent::GameStarted => {
                started = true;
            },
            GameEvent::GameEnded => {
                ended = true;
            },
            _ => {},
        }
        k = k + 1;
    }
    proof {
        assert(events@.take(len as int) =~= events@);
    }
    if started {
        *stats = GameStatistics::default();
        stats.is_game_on = true;
    }
    if ended {
        stats.is_game_on = false;
    }
    if !stats.is_game_on {
        return ;
    }
    stats.elapsed_ms = stats.elapsed_ms + dt_ms;
    let ghost base = statistics_base(*old(stats), events@);
    let mut k: usize = 0;
    while k < len
        invariant
            len == events@.len(),
            k <= len,
            stats.is_game_on,
            stats.elapsed_ms == base.elapsed_ms + dt_ms,
            stats.survived_rounds == base.survived_rounds + round_over_count(
                events@.take(k as int),
            ),
            stats.ally_kills == base.ally_kills + enemy_death_count(events@.take(k as int)),
            stats.ally_deaths == base.ally_deaths + ally_death_count(events@.take(k as int)),
            stats.combination_count == base.combination_count + combined_count(
                events@.take(k as int),
            ),
            base.survived_rounds + events@.len() <= u64::MAX,
            base.ally_kills + events@.len() <= u64::MAX,
            base.ally_deaths + events@.len() <= u64::MAX,
            base.combination_count + events@.len() <= u64::MAX,
        decreases len - k,
    {
        proof {
            assert(events@.take(k as int + 1).drop_last() =~= events@.take(k as int));
            lemma_count_bounded(events@.take(k as int));
        }
        match events[k] {
            GameEvent::RoundOver => {
                stats.survived_rounds = stats.survived_rounds + 1;
            },
            GameEvent::CreatureDied { is_enemy, .. } => {
                if is_enemy {
                    stats.ally_kills = stats.ally_kills + 1;
                } else {
                    stats.ally_deaths = stats.ally_deaths + 1;
                }
            },
            GameEvent::CreatureCombined => {
                stats.combination_count = stats.combination_count + 1;
            },
            _ => {},
        }
        k = k + 1;
    }
    proof {
        assert(events@.take(len as int) =~= events@);
    }
}

/// No category can count more events than the batch holds.
proof fn lemma_count_bounded(s: Seq<GameEvent>)
    ensures
        round_over_count(s) <= s.len(),
        enemy_death_count(s) <= s.len(),
        ally_death_count(s) <= s.len(),
        combined_count(s) <= s.len(),
    decreases s.len(),
{
    if s.len() > 0 {
        lemma_count_bounded(s.drop_last());
    }
}

} // verus!
