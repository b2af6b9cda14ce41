//! The battle engine: a tick-driven melee simulation run to a terminal
//! outcome.
//!
//! A battle spawns one combat agent per population unit of every
//! participating roster template, allies on the left half of the arena and
//! enemies mirrored on the right. Each tick every live agent acquires its
//! nearest opposing agent by squared distance, walks toward it while out of
//! melee reach, recovers cooldown and stamina, attacks when in reach with
//! its cooldown elapsed (choosing uniformly among the abilities it can
//! afford), and dies when its hit points reach zero — decrementing its
//! template's population by exactly one. The battle resolves as soon as a
//! side has no live agents; an empty ally side is checked first, so a
//! simultaneous wipeout is a defeat.
//!
//! Positions are fixed-point thousandths of a world unit; time is in
//! milliseconds.

use vstd::prelude::*;

use crate::creature::CreatureStats;
use crate::creature::PhysicalAbility;
use crate::creature::MIN_MOVEMENT_SPEED;
use crate::creature::MIN_STAMINA;
use crate::creature::MIN_STAMINA_REGEN;
use crate::creature::MIN_PHYS_DMG;
use crate::creature::MIN_PHYS_STAMINA_COST;
use crate::creature::MIN_PHYS_COOLDOWN;
use crate::creature::stats_within;
use crate::creature::generate_creature;
use crate::creature::stats_match;
use crate::creature::scaled_population;
use crate::creature::CREATURE_DRAWS;
use crate::roster::PopulationSize;
use crate::roster::Roster;
use crate::roster::roster_wf;
use crate::rng::GameRng;
use crate::rng::NormalSource;
use crate::rounds::Difficulty;
use crate::rounds::difficulty_wf;
use crate::rounds::difficulty_sample;
use crate::rounds::whole_or_255;
use crate::rounds::ENEMY_TIER_STD_DEV;
use crate::rounds::ENEMY_COUNT_STD_DEV;
use crate::rounds::ENEMY_POP_MULT_STD_DEV;
use crate::rounds::MIN_ENEMY_TIER;
use crate::rounds::MIN_ENEMY_COUNT;
use crate::rounds::MIN_ENEMY_POP_MULT;
use crate::GameEvent;
use crate::GameResult;

verus! {

/// Melee reach in fixed-point world units (32 units).
pub const MELEE_DISTANCE: i64 = 32_000;

/// Squared melee reach, the per-tick comparison threshold.
pub const MELEE_DISTANCE_SQUARED: i64 = 32_000 * 32_000;

/// Arena width and height (1280 x 720 world units, fixed-point).
pub const ARENA_WIDTH: i64 = 1_280_000;

pub const ARENA_HEIGHT: i64 = 720_000;

/// Coordinate bound on agents: far outside the arena, it only keeps the
/// distance arithmetic within machine range.
pub const POSITION_LIMIT: i64 = 1_000_000_000;

/// Per-stat bound required of battle participants (machine limit; every
/// generated stat is far below it).
pub const BATTLE_STAT_LIMIT: i64 = 1_000_000_000;

/// Most combat agents a battle may hold (machine limit).
pub const AGENT_LIMIT: usize = 1_000_000;

/// Longest accepted tick, one second.
pub const MAX_TICK_MS: i64 = 1_000;

/// One roster template participating in a battle: its stat block, its
/// remaining population, and the side it fights on.
#[derive(Clone, Copy, Debug)]
pub struct BattleTemplate {
    pub stats: CreatureStats,
    pub population: PopulationSize,
    pub is_enemy: bool,
}

/// One combat agent: a back-reference to its template (by index), an
/// immutable snapshot of the template's movement, regeneration, stamina
/// ceiling and abilities, and its mutable combat state.
#[derive(Clone, Copy, Debug)]
pub struct Agent {
    pub template: usize,
    pub is_enemy: bool,
    pub x: i64,
    pub y: i64,
    pub movement_speed: i64,
    pub stamina_regen: i64,
    pub max_stamina: i64,
    pub physical_abilities: [PhysicalAbility; 3],
    pub hp: i64,
    pub stamina: i64,
    pub cooldown: i64,
}

/// Where a battle stands.
#[derive(Clone, Copy, Debug, PartialEq, Eq, Structural)]
pub enum BattleState {
    Running,
    Resolved(GameResult),
}

/// A running battle.
#[derive(Debug)]
pub struct Battle {
    pub templates: Vec<BattleTemplate>,
    pub agents: Vec<Agent>,
    pub state: BattleState,
}

/// The structural bounds on one agent: a valid template index, snapshot
/// stats within the battle's machine range, stamina within its ceiling, and
/// a position within the coordinate bound.
pub open spec fn agent_bounds(a: Agent, n_templates: int) -> bool {
    &&& a.template < n_templates
    &&& agent_phys_bounds(a)
}

/// The numeric bounds alone, template index aside.
pub open spec fn agent_phys_bounds(a: Agent) -> bool {
    &&& MIN_MOVEMENT_SPEED <= a.movement_speed <= BATTLE_STAT_LIMIT
    &&& MIN_STAMINA_REGEN <= a.stamina_regen <= BATTLE_STAT_LIMIT
    &&& MIN_STAMINA <= a.max_stamina <= BATTLE_STAT_LIMIT
    &&& 0 <= a.stamina <= a.max_stamina
    &&& 0 <= a.cooldown <= BATTLE_STAT_LIMIT
    &&& a.hp <= BATTLE_STAT_LIMIT
    &&& -POSITION_LIMIT <= a.x <= POSITION_LIMIT
    &&& -POSITION_LIMIT <= a.y <= POSITION_LIMIT
    &&& forall|k: int|
        0 <= k < 3 ==> {
            let ab = #[trigger] a.physical_abilities@[k];
            &&& MIN_PHYS_STAMINA_COST <= ab.stamina_cost <= BATTLE_STAT_LIMIT
            &&& MIN_PHYS_DMG <= ab.damage <= BATTLE_STAT_LIMIT
            &&& MIN_PHYS_COOLDOWN <= ab.global_cooldown <= BATTLE_STAT_LIMIT
        }
}

/// An agent that is still alive.
pub open spec fn agent_alive(a: Agent) -> bool {
    a.hp > 0
}

/// How many agents reference template `t`.
pub open spec fn count_for(agents: Seq<Agent>, t: int) -> nat
    decreases agents.len(),
{
    if agents.len() == 0 {
        0
    } else {
        count_for(agents.drop_last(), t) + if agents.last().template == t {
            1nat
        } else {
            0nat
        }
    }
}

/// How many agents fight on the given side.
pub open spec fn side_count(agents: Seq<Agent>, enemy: bool) -> nat
    decreases agents.len(),
{
    if agents.len() == 0 {
        0
    } else {
        side_count(agents.drop_last(), enemy) + if agents.last().is_enemy == enemy {
            1nat
        } else {
            0nat
        }
    }
}

/// The battle invariant, holding between ticks: every agent is alive and
/// within bounds, fights on its template's side, and every template's
/// population equals the number of live agents that reference it.
pub open spec fn battle_wf(b: Battle) -> bool {
    &&& b.agents@.len() <= AGENT_LIMIT
    &&& forall|i: int|
        0 <= i < b.agents@.len() ==> {
            let a = #[trigger] b.agents@[i];
            &&& agent_bounds(a, b.templates@.len() as int)
            &&& agent_alive(a)
            &&& a.is_enemy == b.templates@[a.template as int].is_enemy
        }
    &&& forall|t: int|
        0 <= t < b.templates@.len() ==> #[trigger] b.templates@[t].population.0 == count_for(
            b.agents@,
            t,
        )
}

/// The squared Euclidean distance between two points.
pub open spec fn dist2(x1: int, y1: int, x2: int, y2: int) -> int {
    (x1 - x2) * (x1 - x2) + (y1 - y2) * (y1 - y2)
}

/// Squared distance between two agents' positions.
fn dist_squared(a: &Agent, b: &Agent) -> (r: i64)
    requires
        -POSITION_LIMIT <= a.x <= POSITION_LIMIT,
        -POSITION_LIMIT <= a.y <= POSITION_LIMIT,
        -POSITION_LIMIT <= b.x <= POSITION_LIMIT,
        -POSITION_LIMIT <= b.y <= POSITION_LIMIT,
    ensures
        r == dist2(a.x as int, a.y as int, b.x as int, b.y as int),
        r >= 0,
{
    let dx = a.x - b.x;
    let dy = a.y - b.y;
    assert(0 <= dx * dx <= 4_000_000_000_000_000_000 && 0 <= dy * dy
        <= 4_000_000_000_000_000_000) by (nonlinear_arith)
        requires
            -2_000_000_000 <= dx <= 2_000_000_000,
            -2_000_000_000 <= dy <= 2_000_000_000,
    ;
    dx * dx + dy * dy
}

/// Agent `j` is the target agent `i` acquires: on the opposing side, at
/// least as near as every opposing agent, and the first such by index (ties
/// break by iteration order).
pub open spec fn is_nearest_opponent(agents: Seq<Agent>, i: int, j: int) -> bool {
    let d = dist2(agents[i].x as int, agents[i].y as int, agents[j].x as int, agents[j].y as int);
    &&& 0 <= j < agents.len()
    &&& agents[j].is_enemy != agents[i].is_enemy
    &&& forall|k: int|
        0 <= k < agents.len() && #[trigger] agents[k].is_enemy != agents[i].is_enemy ==> d
            <= dist2(
            agents[i].x as int,
            agents[i].y as int,
            agents[k].x as int,
            agents[k].y as int,
        )
    &&& forall|k: int|
        0 <= k < j && #[trigger] agents[k].is_enemy != agents[i].is_enemy ==> d < dist2(
            agents[i].x as int,
            agents[i].y as int,
            agents[k].x as int,
            agents[k].y as int,
        )
}

/// Find the nearest opposing agent of agent `i`, by squared distance, ties
/// broken by iteration order; `None` exactly when no opponent remains.
pub fn find_nearest_enemy(agents: &Vec<Agent>, i: usize) -> (r: Option<usize>)
    requires
        i < agents@.len(),
        forall|k: int|
            0 <= k < agents@.len() ==> {
                let a = #[trigger] agents@[k];
                -POSITION_LIMIT <= a.x <= POSITION_LIMIT && -POSITION_LIMIT <= a.y
                    <= POSITION_LIMIT
            },
    ensures
        r is None <==> (forall|k: int|
            0 <= k < agents@.len() ==> #[trigger] agents@[k].is_enemy == agents@[i as int].is_enemy),
        r is Some ==> is_nearest_opponent(agents@, i as int, r->Some_0 as int),
{
    let me = agents[i];
    let mut best: Option<usize> = None;
    let mut best_d: i64 = 0;
    let n = agents.len();
    let mut j: usize = 0;
    while j < n
        invariant
            n == agents@.len(),
            i < n,
            j <= n,
            me == agents@[i as int],
            forall|k: int|
                0 <= k < agents@.len() ==> {
                    let a = #[trigger] agents@[k];
                    -POSITION_LIMIT <= a.x <= POSITION_LIMIT && -POSITION_LIMIT <= a.y
                        <= POSITION_LIMIT
                },
            best is None <==> (forall|k: int|
                0 <= k < j ==> #[trigger] agents@[k].is_enemy == me.is_enemy),
            best is Some ==> {
                let b = best->Some_0 as int;
                &&& 0 <= b < j
                &&& agents@[b].is_enemy != me.is_enemy
                &&& best_d == dist2(
                    me.x as int,
                    me.y as int,
                    agents@[b].x as int,
                    agents@[b].y as int,
                )
                &&& forall|k: int|
                    0 <= k < j && #[trigger] agents@[k].is_enemy != me.is_enemy ==> best_d
                        <= dist2(
                        me.x as int,
                        me.y as int,
                        agents@[k].x as int,
                        agents@[k].y as int,
                    )
                &&& forall|k: int|
                    0 <= k < b && #[trigger] agents@[k].is_enemy != me.is_enemy ==> best_d < dist2(
                        me.x as int,
                        me.y as int,
                        agents@[k].x as int,
                        agents@[k].y as int,
                    )
            },
        decreases n - j,
    {
        let other = agents[j];
        if other.is_enemy != me.is_enemy {
            let d = dist_squared(&me, &other);
            match best {
                None => {
                    best = Some(j);
                    best_d = d;
                },
                Some(_) => {
                    if d < best_d {
                        best = Some(j);
                        best_d = d;
                    }
                },
            }
        }
        j = j + 1;
    }
    best
}

/// The integer square root: the largest `r` with `r * r <= n`.
pub open spec fn sqrt_floor(n: nat) -> nat
    decreases n,
{
    if n == 0 {
        0
    } else {
        let r = sqrt_floor((n - 1) as nat);
        if (r + 1) * (r + 1) <= n {
            r + 1
        } else {
            r
        }
    }
}

/// `sqrt_floor` is characterized by its two bounds.
pub proof fn lemma_sqrt_floor_bounds(n: nat)
    ensures
        sqrt_floor(n) * sqrt_floor(n) <= n,
        n < (sqrt_floor(n) + 1) * (sqrt_floor(n) + 1),
    decreases n,
{
    if n > 0 {
        lemma_sqrt_floor_bounds((n - 1) as nat);
        let r = sqrt_floor((n - 1) as nat);
        assert(r * r <= n - 1 && n - 1 < (r + 1) * (r + 1));
        if (r + 1) * (r + 1) <= n {
            assert(sqrt_floor(n) == r + 1);
            assert(n == (r + 1) * (r + 1));
            let s = sqrt_floor(n);
            assert(n < (s + 1) * (s + 1)) by (nonlinear_arith)
                requires
                    s == r + 1,
                    n == (r + 1) * (r + 1),
            ;
        } else {
            assert(sqrt_floor(n) == r);
            assert(r * r <= n);
            let s = sqrt_floor(n);
            assert(n < (s + 1) * (s + 1)) by (nonlinear_arith)
                requires
                    s == r,
                    n < (r + 1) * (r + 1),
            ;
        }
    } else {
        assert(sqrt_floor(0) == 0);
        let s = sqrt_floor(n);
        assert(n < (s + 1) * (s + 1)) by (nonlinear_arith)
            requires
                n == 0,
                s == 0,
        ;
    }
}

/// Any `r` within the two bounds is the square root.
pub proof fn lemma_sqrt_floor_unique(n: nat, r: nat)
    requires
        r * r <= n,
        n < (r + 1) * (r + 1),
    ensures
        r == sqrt_floor(n),
{
    lemma_sqrt_floor_bounds(n);
    let s = sqrt_floor(n);
    assert(r == s) by (nonlinear_arith)
        requires
            r * r <= n,
            n < (r + 1) * (r + 1),
            s * s <= n,
            n < (s + 1) * (s + 1),
    ;
}

/// Compute the integer square root by bisection.
pub fn isqrt(n: i64) -> (r: i64)
    requires
        n >= 0,
    ensures
        r as nat == sqrt_floor(n as nat),
        0 <= r <= 3_037_000_499,
        r * r <= n,
        n < (r + 1) * (r + 1),
{
    proof {
        lemma_sqrt_floor_bounds(n as nat);
    }
    if n == 0 {
        return 0;
    }
    let mut lo: i64 = 0;
    let mut hi: i64 = 3_037_000_500;
    assert(n < hi * hi) by (nonlinear_arith)
        requires
            hi == 3_037_000_500,
            n <= 0x7fff_ffff_ffff_ffff,
    ;
    while lo + 1 < hi
        invariant
            0 <= lo < hi <= 3_037_000_500,
            lo * lo <= n,
            n < hi * hi,
        decreases hi - lo,
    {
        let mid = lo + (hi - lo) / 2;
        assert(lo < mid < hi);
        assert(mid * mid <= 3_037_000_499i64 * 3_037_000_499) by (nonlinear_arith)
            requires
                0 < mid <= 3_037_000_499,
        ;
        if mid * mid <= n {
            lo = mid;
        } else {
            hi = mid;
        }
    }
    proof {
        lemma_sqrt_floor_unique(n as nat, lo as nat);
    }
    lo
}

/// How far an agent walks in one tick (fixed-point units).
pub open spec fn step_length(speed: int, dt: int) -> int {
    speed * dt / 1000
}

/// One coordinate after walking `step` along the straight line toward the
/// target, whose direction has length `dist`: the coordinate moves by its
/// share `|target - p| * step / dist` of the step, held within the
/// coordinate bound.
pub open spec fn approach(p: int, target: int, dist: int, step: int) -> int {
    let moved = if target >= p {
        p + (target - p) * step / dist
    } else {
        p - (p - target) * step / dist
    };
    crate::clamp_spec(moved, -POSITION_LIMIT as int, POSITION_LIMIT as int)
}

/// The position of an agent after one movement step toward `(tx, ty)`: it
/// walks `speed * dt / 1000` units along the straight line to the target
/// (standing still when already exactly there). Walking can overshoot the
/// target, as the step is not capped at the remaining distance.
pub open spec fn moved_x(x: int, y: int, tx: int, ty: int, speed: int, dt: int) -> int {
    let d2 = dist2(x, y, tx, ty);
    if d2 == 0 {
        x
    } else {
        approach(x, tx, sqrt_floor(d2 as nat) as int, step_length(speed, dt))
    }
}

pub open spec fn moved_y(x: int, y: int, tx: int, ty: int, speed: int, dt: int) -> int {
    let d2 = dist2(x, y, tx, ty);
    if d2 == 0 {
        y
    } else {
        approach(y, ty, sqrt_floor(d2 as nat) as int, step_length(speed, dt))
    }
}

/// Walk one coordinate toward its target.
fn approach_coord(p: i64, target: i64, dist: i64, step: i64) -> (r: i64)
    requires
        -POSITION_LIMIT <= p <= POSITION_LIMIT,
        -POSITION_LIMIT <= target <= POSITION_LIMIT,
        1 <= dist <= 3_037_000_499,
        0 <= step <= 1_000_000_000,
    ensures
        r == approach(p as int, target as int, dist as int, step as int),
        -POSITION_LIMIT <= r <= POSITION_LIMIT,
{
    let delta = if target >= p {
        target - p
    } else {
        p - target
    };
    assert(0 <= delta * step <= 2_000_000_000_000_000_000) by (nonlinear_arith)
        requires
            0 <= delta <= 2_000_000_000,
            0 <= step <= 1_000_000_000,
    ;
    let share = delta * step / dist;
    assert(0 <= share <= 2_000_000_000_000_000_000);
    let moved = if target >= p {
        if p <= POSITION_LIMIT - share {
            p + share
        } else {
            POSITION_LIMIT
        }
    } else {
        if p >= (-POSITION_LIMIT) + share {
            p - share
        } else {
            -POSITION_LIMIT
        }
    };
    assert(moved == crate::clamp_spec(
        if target >= p {
            p as int + (target - p) * step / (dist as int)
        } else {
            p as int - (p - target) * step / (dist as int)
        },
        -POSITION_LIMIT as int,
        POSITION_LIMIT as int,
    ));
    moved
}

/// The immutable snapshot of an agent is unchanged.
pub open spec fn same_snapshot(o: Agent, n: Agent) -> bool {
    &&& n.template == o.template
    &&& n.is_enemy == o.is_enemy
    &&& n.movement_speed == o.movement_speed
    &&& n.stamina_regen == o.stamina_regen
    &&& n.max_stamina == o.max_stamina
    &&& n.physical_abilities == o.physical_abilities
}

pub open spec fn same_position(o: Agent, n: Agent) -> bool {
    n.x == o.x && n.y == o.y
}

pub open spec fn same_combat_state(o: Agent, n: Agent) -> bool {
    n.hp == o.hp && n.stamina == o.stamina && n.cooldown == o.cooldown
}

/// What one agent knows of its nearest opponent at targeting time: the
/// opponent's index and last-known position, and the squared distance to it.
#[derive(Clone, Copy, Debug)]
pub struct Targeting {
    pub target: usize,
    pub dist_squared: i64,
    pub x: i64,
    pub y: i64,
}

/// The targeting record agent `i` acquires, if any.
pub open spec fn targeting_ok(agents: Seq<Agent>, i: int, t: Option<Targeting>) -> bool {
    &&& t is None <==> (forall|k: int|
        0 <= k < agents.len() ==> #[trigger] agents[k].is_enemy == agents[i].is_enemy)
    &&& t is Some ==> {
        let tg = t->Some_0;
        &&& is_nearest_opponent(agents, i, tg.target as int)
        &&& tg.dist_squared == dist2(
            agents[i].x as int,
            agents[i].y as int,
            agents[tg.target as int].x as int,
            agents[tg.target as int].y as int,
        )
        &&& tg.x == agents[tg.target as int].x
        &&& tg.y == agents[tg.target as int].y
    }
}

/// Recompute every agent's nearest opposing agent, in one pass over the
/// current positions.
pub fn compute_targets(agents: &Vec<Agent>) -> (r: Vec<Option<Targeting>>)
    requires
        forall|k: int| 0 <= k < agents@.len() ==> agent_phys_bounds(#[trigger] agents@[k]),
    ensures
        r@.len() == agents@.len(),
        forall|i: int| 0 <= i < agents@.len() ==> targeting_ok(agents@, i, #[trigger] r@[i]),
{
    let n = agents.len();
    let mut targets: Vec<Option<Targeting>> = Vec::new();
    let mut i: usize = 0;
    while i < n
        invariant
            n == agents@.len(),
            i <= n,
            targets@.len() == i,
            forall|k: int| 0 <= k < agents@.len() ==> agent_phys_bounds(#[trigger] agents@[k]),
            forall|j: int| 0 <= j < i ==> targeting_ok(agents@, j, #[trigger] targets@[j]),
        decreases n - i,
    {
        match find_nearest_enemy(agents, i) {
            None => {
                targets.push(None);
            },
            Some(j) => {
                let me = agents[i];
                let other = agents[j];
                let d = dist_squared(&me, &other);
                targets.push(Some(Targeting { target: j, dist_squared: d, x: other.x, y: other.y }));
            },
        }
        i = i + 1;
    }
    targets
}

/// Whether an agent walks this tick: it has a target and is out of melee
/// reach of it.
pub open spec fn moves_this_tick(t: Option<Targeting>) -> bool {
    t is Some && t->Some_0.dist_squared > MELEE_DISTANCE_SQUARED
}

/// Walk every out-of-reach agent toward its target's last-known position at
/// its movement speed; agents in reach, or without an opponent, hold
/// position. Nothing but positions changes.
#[verifier::rlimit(60)]
pub fn go_to_nearest_enemy(agents: &mut Vec<Agent>, targets: &Vec<Option<Targeting>>, dt_ms: i64)
    requires
        targets@.len() == old(agents)@.len(),
        1 <= dt_ms <= MAX_TICK_MS,
        forall|k: int| 0 <= k < old(agents)@.len() ==> agent_phys_bounds(#[trigger] old(agents)@[k]),
        forall|k: int|
            0 <= k < targets@.len() && #[trigger] targets@[k] is Some ==> {
                let tg = targets@[k]->Some_0;
                -POSITION_LIMIT <= tg.x <= POSITION_LIMIT && -POSITION_LIMIT <= tg.y
                    <= POSITION_LIMIT
            },
    ensures
        final(agents)@.len() == old(agents)@.len(),
        forall|i: int|
            0 <= i < old(agents)@.len() ==> {
                let o = #[trigger] old(agents)@[i];
                let m = final(agents)@[i];
                &&& same_snapshot(o, m)
                &&& same_combat_state(o, m)
                &&& agent_phys_bounds(m)
                &&& if moves_this_tick(targets@[i]) {
                    let tg = targets@[i]->Some_0;
                    &&& m.x == moved_x(
                        o.x as int,
                        o.y as int,
                        tg.x as int,
                        tg.y as int,
                        o.movement_speed as int,
                        dt_ms as int,
                    )
                    &&& m.y == moved_y(
                        o.x as int,
                        o.y as int,
                        tg.x as int,
                        tg.y as int,
                        o.movement_speed as int,
                        dt_ms as int,
                    )
                } else {
                    same_position(o, m)
                }
            },
{
    let n = agents.len();
    let mut i: usize = 0;
    while i < n
        invariant
            n == old(agents)@.len(),
            agents@.len() == n,
            targets@.len() == n,
            i <= n,
            1 <= dt_ms <= MAX_TICK_MS,
            forall|k: int|
                0 <= k < targets@.len() && #[trigger] targets@[k] is Some ==> {
                    let tg = targets@[k]->Some_0;
                    -POSITION_LIMIT <= tg.x <= POSITION_LIMIT && -POSITION_LIMIT <= tg.y
                        <= POSITION_LIMIT
                },
            forall|k: int| i <= k < n ==> #[trigger] agents@[k] == old(agents)@[k],
            forall|k: int| 0 <= k < n ==> agent_phys_bounds(#[trigger] old(agents)@[k]),
            forall|k: int|
                0 <= k < i ==> {
                    let o = #[trigger] old(agents)@[k];
                    let m = agents@[k];
                    &&& same_snapshot(o, m)
                    &&& same_combat_state(o, m)
                    &&& agent_phys_bounds(m)
                    &&& if moves_this_tick(targets@[k]) {
                        let tg = targets@[k]->Some_0;
                        &&& m.x == moved_x(
                            o.x as int,
                            o.y as int,
                            tg.x as int,
                            tg.y as int,
                            o.movement_speed as int,
                            dt_ms as int,
                        )
                        &&& m.y == moved_y(
                            o.x as int,
                            o.y as int,
                            tg.x as int,
                            tg.y as int,
                            o.movement_speed as int,
                            dt_ms as int,
                        )
                    } else {
                        same_position(o, m)
                    }
                },
        decreases n - i,
    {
        let moved = match targets[i] {
            Some(tg) => {
                if tg.dist_squared > MELEE_DISTANCE_SQUARED {
                    Some(tg)
                } else {
                    None
                }
            },
            None => None,
        };
        if let Some(tg) = moved {
            let me = agents[i];
            let d2 = dist_squared(&me, &Agent { x: tg.x, y: tg.y, ..me });
            if d2 != 0 {
                let dist = isqrt(d2);
                assert(dist >= 1) by (nonlinear_arith)
                    requires
                        d2 >= 1,
                        dist >= 0,
                        d2 < (dist + 1) * (dist + 1),
                ;
                assert(0 <= me.movement_speed * dt_ms <= 1_000_000_000_000) by (nonlinear_arith)
                    requires
                        0 <= me.movement_speed <= 1_000_000_000,
                        0 <= dt_ms <= 1_000,
                ;
                let step = me.movement_speed * dt_ms / 1000;
                let nx = approach_coord(me.x, tg.x, dist, step);
                let ny = approach_coord(me.y, tg.y, dist, step);
                let a = &mut agents[i];
                a.x = nx;
                a.y = ny;
            }
        }
        i = i + 1;
    }
}

/// An agent's cooldown after `dt` elapsed milliseconds: lowered, floored at
/// zero.
pub open spec fn recovered_cooldown(cooldown: int, dt: int) -> int {
    if cooldown - dt < 0 {
        0
    } else {
        cooldown - dt
    }
}

/// An agent's stamina after `dt` elapsed milliseconds: raised by its
/// regeneration rate, capped at its snapshotted maximum.
pub open spec fn recovered_stamina(stamina: int, regen: int, max_stamina: int, dt: int) -> int {
    let v = stamina + regen * dt / 1000;
    if v > max_stamina {
        max_stamina
    } else {
        v
    }
}

/// Let every agent recover: cooldowns fall toward zero, stamina regenerates
/// toward its maximum. Nothing else changes.
pub fn stats_recovery(agents: &mut Vec<Agent>, dt_ms: i64)
    requires
        1 <= dt_ms <= MAX_TICK_MS,
        forall|k: int| 0 <= k < old(agents)@.len() ==> agent_phys_bounds(#[trigger] old(agents)@[k]),
    ensures
        final(agents)@.len() == old(agents)@.len(),
        forall|i: int|
            0 <= i < old(agents)@.len() ==> {
                let o = #[trigger] old(agents)@[i];
                let m = final(agents)@[i];
                &&& same_snapshot(o, m)
                &&& same_position(o, m)
                &&& m.hp == o.hp
                &&& agent_phys_bounds(m)
                &&& m.cooldown == recovered_cooldown(o.cooldown as int, dt_ms as int)
                &&& m.stamina == recovered_stamina(
                    o.stamina as int,
                    o.stamina_regen as int,
                    o.max_stamina as int,
                    dt_ms as int,
                )
            },
{
    let n = agents.len();
    let mut i: usize = 0;
    while i < n
        invariant
            n == old(agents)@.len(),
            agents@.len() == n,
            i <= n,
            1 <= dt_ms <= MAX_TICK_MS,
            forall|k: int| i <= k < n ==> #[trigger] agents@[k] == old(agents)@[k],
            forall|k: int| 0 <= k < n ==> agent_phys_bounds(#[trigger] old(agents)@[k]),
            forall|k: int|
                0 <= k < i ==> {
                    let o = #[trigger] old(agents)@[k];
                    let m = agents@[k];
                    &&& same_snapshot(o, m)
                    &&& same_position(o, m)
                    &&& m.hp == o.hp
                    &&& agent_phys_bounds(m)
                    &&& m.cooldown == recovered_cooldown(o.cooldown as int, dt_ms as int)
                    &&& m.stamina == recovered_stamina(
                        o.stamina as int,
                        o.stamina_regen as int,
                        o.max_stamina as int,
                        dt_ms as int,
                    )
                },
        decreases n - i,
    {
        let me = agents[i];
        assert(0 <= me.stamina_regen * dt_ms <= 1_000_000_000_000) by (nonlinear_arith)
            requires
                0 <= me.stamina_regen <= 1_000_000_000,
                0 <= dt_ms <= 1_000,
        ;
        let gained = me.stamina_regen * dt_ms / 1000;
        let new_stamina = if me.stamina + gained > me.max_stamina {
            me.max_stamina
        } else {
            me.stamina + gained
        };
        let new_cooldown = if me.cooldown < dt_ms {
            0
        } else {
            me.cooldown - dt_ms
        };
        let a = &mut agents[i];
        a.stamina = new_stamina;
        a.cooldown = new_cooldown;
        i = i + 1;
    }
}

/// Whether agent `a` can pay for its ability in slot `k` right now.
pub open spec fn can_afford(a: Agent, k: int) -> bool {
    a.physical_abilities@[k].stamina_cost <= a.stamina
}

/// Whether any ability is affordable.
pub open spec fn has_affordable(a: Agent) -> bool {
    exists|k: int| 0 <= k < 3 && can_afford(a, k)
}

/// Whether an agent strikes this tick: a target within melee reach, an
/// elapsed cooldown, and at least one affordable ability.
pub open spec fn attack_gate(a: Agent, t: Option<Targeting>) -> bool {
    &&& t is Some
    &&& t->Some_0.dist_squared <= MELEE_DISTANCE_SQUARED
    &&& a.cooldown == 0
    &&& has_affordable(a)
}

/// One resolved blow: who struck, with which ability slot, and whom.
#[derive(Clone, Copy, Debug, PartialEq, Eq, Structural)]
pub struct Strike {
    pub attacker: usize,
    pub slot: usize,
    pub target: usize,
}

/// The agents after one strike lands: the attacker pays the ability's
/// stamina price and takes on its cooldown, and the target loses the
/// ability's damage in hit points.
#[verifier::opaque]
pub open spec fn strike_result(agents: Seq<Agent>, s: Strike) -> Seq<Agent> {
    let a = agents[s.attacker as int];
    let ability = a.physical_abilities@[s.slot as int];
    let paid = Agent {
        stamina: (a.stamina - ability.stamina_cost) as i64,
        cooldown: ability.global_cooldown,
        ..a
    };
    let mid = agents.update(s.attacker as int, paid);
    let t = mid[s.target as int];
    let struck = Agent { hp: (t.hp - ability.damage) as i64, ..t };
    mid.update(s.target as int, struck)
}

/// The agents after a sequence of strikes, applied in order.
#[verifier::opaque]
pub open spec fn apply_strikes(agents: Seq<Agent>, strikes: Seq<Strike>) -> Seq<Agent>
    decreases strikes.len(),
{
    if strikes.len() == 0 {
        agents
    } else {
        strike_result(apply_strikes(agents, strikes.drop_last()), strikes.last())
    }
}

/// The damage announcements a strike sequence emits: one per strike,
/// carrying the struck agent's index, in strike order.
#[verifier::opaque]
pub open spec fn damage_events(strikes: Seq<Strike>) -> Seq<GameEvent>
    decreases strikes.len(),
{
    if strikes.len() == 0 {
        Seq::empty()
    } else {
        damage_events(strikes.drop_last()).push(
            GameEvent::DamageTaken { target: strikes.last().target },
        )
    }
}

/// A strike the attack phase may produce: its attacker's gate was open at
/// the start of the phase, the slot was affordable then, and the blow went
/// to the attacker's acquired target.
pub open spec fn strike_valid(
    agents: Seq<Agent>,
    targets: Seq<Option<Targeting>>,
    s: Strike,
) -> bool {
    &&& s.attacker < agents.len()
    &&& s.target < agents.len()
    &&& s.slot < 3
    &&& attack_gate(agents[s.attacker as int], targets[s.attacker as int])
    &&& can_afford(agents[s.attacker as int], s.slot as int)
    &&& targets[s.attacker as int]->Some_0.target == s.target
}

/// What an attack costs its attacker: the stamina price of one affordable
/// ability, and that ability's cooldown.
pub open spec fn attack_spent(o: Agent, n: Agent) -> bool {
    exists|k: int|
        0 <= k < 3 && #[trigger] can_afford(o, k) && n.stamina == o.stamina
            - o.physical_abilities@[k].stamina_cost && n.cooldown
            == o.physical_abilities@[k].global_cooldown
}

/// Resolve attacks, in agent order: every agent whose gate is open picks
/// uniformly at random among the abilities it can afford, pays its stamina
/// cost, takes on its cooldown, and deals its damage to the agent's target.
/// Hit points only fall, an agent nobody targets keeps its hit points, and
/// agents whose gate is closed spend nothing.
#[verifier::rlimit(100)]
pub fn attack_enemy(
    agents: &mut Vec<Agent>,
    targets: &Vec<Option<Targeting>>,
    rng: &mut GameRng,
    events: &mut Vec<GameEvent>,
) -> (strikes: Vec<Strike>)
    requires
        targets@.len() == old(agents)@.len(),
        old(agents)@.len() <= AGENT_LIMIT,
        forall|k: int| 0 <= k < old(agents)@.len() ==> agent_phys_bounds(#[trigger] old(agents)@[k]),
        forall|k: int| 0 <= k < old(agents)@.len() ==> #[trigger] old(agents)@[k].hp >= 0,
        forall|k: int|
            0 <= k < targets@.len() && #[trigger] targets@[k] is Some ==> targets@[k]->Some_0.target
                < old(agents)@.len(),
    ensures
        final(agents)@.len() == old(agents)@.len(),
        forall|i: int|
            0 <= i < old(agents)@.len() ==> {
                let o = #[trigger] old(agents)@[i];
                let m = final(agents)@[i];
                &&& same_snapshot(o, m)
                &&& same_position(o, m)
                &&& if attack_gate(o, targets@[i]) {
                    attack_spent(o, m)
                } else {
                    m.stamina == o.stamina && m.cooldown == o.cooldown
                }
            },
        forall|j: int|
            0 <= j < old(agents)@.len() ==> {
                let o = #[trigger] old(agents)@[j];
                let m = final(agents)@[j];
                &&& m.hp <= o.hp
                &&& m.hp >= o.hp - (old(agents)@.len() as int) * (BATTLE_STAT_LIMIT as int)
            },
        forall|j: int|
            0 <= j < old(agents)@.len() && (forall|i: int|
                0 <= i < old(agents)@.len() && #[trigger] attack_gate(old(agents)@[i], targets@[i])
                    ==> targets@[i]->Some_0.target != j) ==> final(agents)@[j].hp == #[trigger] old(agents)@[j].hp,
        final(events)@ == old(events)@ + damage_events(strikes@),
        final(agents)@ == apply_strikes(old(agents)@, strikes@),
        forall|si: int|
            0 <= si < strikes@.len() ==> strike_valid(old(agents)@, targets@, #[trigger] strikes@[si]),
        forall|si: int, sj: int|
            0 <= si < sj < strikes@.len() ==> strikes@[si].attacker < strikes@[sj].attacker,
        forall|i: int|
            0 <= i < old(agents)@.len() ==> (attack_gate(#[trigger] old(agents)@[i], targets@[i])
                <==> exists|si: int|
                0 <= si < strikes@.len() && (#[trigger] strikes@[si]).attacker == i),
{
    let mut strikes: Vec<Strike> = Vec::new();
    proof {
        reveal(strike_result);
        reveal_with_fuel(apply_strikes, 1);
        reveal_with_fuel(damage_events, 1);
    }
    let n = agents.len();
    let mut i: usize = 0;
    while i < n
        invariant
            n == old(agents)@.len(),
            agents@.len() == n,
            targets@.len() == n,
            n <= AGENT_LIMIT,
            i <= n,
            forall|k: int| 0 <= k < n ==> agent_phys_bounds(#[trigger] old(agents)@[k]),
            forall|k: int| 0 <= k < n ==> #[trigger] old(agents)@[k].hp >= 0,
            forall|k: int|
                0 <= k < n && #[trigger] targets@[k] is Some ==> targets@[k]->Some_0.target < n,
            forall|k: int|
                0 <= k < n ==> {
                    let o = #[trigger] old(agents)@[k];
                    let m = agents@[k];
                    &&& same_snapshot(o, m)
                    &&& same_position(o, m)
                    &&& m.stamina <= o.stamina
                    &&& m.cooldown >= 0
                },
            forall|k: int|
                i <= k < n ==> #[trigger] agents@[k].stamina == old(agents)@[k].stamina
                    && agents@[k].cooldown == old(agents)@[k].cooldown,
            forall|k: int|
                0 <= k < i ==> {
                    let o = #[trigger] old(agents)@[k];
                    let m = agents@[k];
                    if attack_gate(o, targets@[k]) {
                        attack_spent(o, m)
                    } else {
                        m.stamina == o.stamina && m.cooldown == o.cooldown
                    }
                },
            forall|j: int|
                0 <= j < n ==> {
                    let o = #[trigger] old(agents)@[j];
                    let m = agents@[j];
                    &&& m.hp <= o.hp
                    &&& m.hp >= o.hp - (i as int) * (BATTLE_STAT_LIMIT as int)
                },
            forall|j: int|
                0 <= j < n && (forall|k: int|
                    0 <= k < i && #[trigger] attack_gate(old(agents)@[k], targets@[k])
                        ==> targets@[k]->Some_0.target != j) ==> agents@[j].hp == #[trigger] old(agents)@[j].hp,
            events@ == old(events)@ + damage_events(strikes@),
            agents@ == apply_strikes(old(agents)@, strikes@),
            forall|si: int|
                0 <= si < strikes@.len() ==> strike_valid(
                    old(agents)@,
                    targets@,
                    #[trigger] strikes@[si],
                ) && strikes@[si].attacker < i,
            forall|si: int, sj: int|
                0 <= si < sj < strikes@.len() ==> strikes@[si].attacker < strikes@[sj].attacker,
            forall|k: int|
                0 <= k < i ==> (attack_gate(#[trigger] old(agents)@[k], targets@[k])
                    <==> exists|si: int|
                    0 <= si < strikes@.len() && (#[trigger] strikes@[si]).attacker == k),
        decreases n - i,
    {
        let ghost pre = agents@;
        let ghost strikes_pre = strikes@;
        proof {
            reveal(strike_result);
            reveal_with_fuel(apply_strikes, 1);
            reveal_with_fuel(damage_events, 1);
        }
        let in_reach = match targets[i] {
            Some(tg) => {
                if tg.dist_squared <= MELEE_DISTANCE_SQUARED {
                    Some(tg)
                } else {
                    None
                }
            },
            None => None,
        };
        if in_reach.is_none() {
            assert(!attack_gate(old(agents)@[i as int], targets@[i as int]));
        }
        if let Some(tg) = in_reach {
            let me = agents[i];
            if me.cooldown != 0 {
                assert(!attack_gate(old(agents)@[i as int], targets@[i as int]));
            }
            if me.cooldown == 0 {
                let mut affordable: Vec<usize> = Vec::new();
                let mut k: usize = 0;
                while k < 3
                    invariant
                        k <= 3,
                        forall|x: int|
                            0 <= x < affordable@.len() ==> 0 <= #[trigger] affordable@[x] < 3
                                && can_afford(me, affordable@[x] as int),
                        affordable@.len() <= k,
                        affordable@.len() == 0 ==> forall|x: int|
                            0 <= x < k ==> !can_afford(me, x),
                    decreases 3 - k,
                {
                    if me.physical_abilities[k].stamina_cost <= me.stamina {
                        affordable.push(k);
                    }
                    k = k + 1;
                }
                if affordable.len() > 0 {
                    let pick = rng.gen_range_i64(0, affordable.len() as i64 - 1);
                    let slot = affordable[pick as usize];
                    let ability = me.physical_abilities[slot];
                    proof {
                        assert(me.physical_abilities@[slot as int] == ability);
                        assert(me.physical_abilities == old(agents)@[i as int].physical_abilities);
                        assert(can_afford(old(agents)@[i as int], slot as int));
                        assert(MIN_PHYS_DMG <= old(agents)@[i as int].physical_abilities@[
                            slot as int].damage <= BATTLE_STAT_LIMIT);
                        assert(ability.damage == old(agents)@[i as int].physical_abilities@[
                            slot as int].damage);
                    }
                    {
                        let a = &mut agents[i];
                        a.stamina = me.stamina - ability.stamina_cost;
                        a.cooldown = ability.global_cooldown;
                    }
                    assert(attack_spent(old(agents)@[i as int], agents@[i as int]));
                    let target = tg.target;
                    let target_hp = agents[target].hp;
                    proof {
                        assert(0 <= (i as int) * (BATTLE_STAT_LIMIT as int) <= (n as int) * (
                        BATTLE_STAT_LIMIT as int) && (i as int + 1) * (BATTLE_STAT_LIMIT as int)
                            == (i as int) * (BATTLE_STAT_LIMIT as int) + BATTLE_STAT_LIMIT && (
                        n as int) * (BATTLE_STAT_LIMIT as int) <= 1_000_000_000_000_000)
                            by (nonlinear_arith)
                            requires
                                0 <= i as int <= n as int,
                                n <= 1_000_000,
                                BATTLE_STAT_LIMIT == 1_000_000_000,
                        ;
                    }
                    proof {
                        assert(target_hp >= old(agents)@[target as int].hp - (i as int) * (
                        BATTLE_STAT_LIMIT as int));
                        assert(target_hp >= -1_000_000_000_000_000);
                    }
                    {
                        let t = &mut agents[target];
                        t.hp = target_hp - ability.damage;
                    }
                    events.push(GameEvent::DamageTaken { target });
                    let strike = Strike { attacker: i, slot, target };
                    strikes.push(strike);
                    proof {
                        assert(events@ =~= old(events)@ + damage_events(strikes_pre).push(
                            GameEvent::DamageTaken { target: strike.target },
                        ));
                        assert(attack_gate(old(agents)@[i as int], targets@[i as int]));
                        assert(forall|j: int|
                            0 <= j < n && j != target ==> agents@[j].hp == pre[j].hp);
                        assert(can_afford(old(agents)@[i as int], slot as int));
                        assert(strike_valid(old(agents)@, targets@, strike));
                        assert(strikes@.drop_last() =~= strikes_pre);
                        assert(strikes@.last() == strike);
                        assert(agents@ =~= strike_result(pre, strike));
                        assert(agents@ == apply_strikes(old(agents)@, strikes@));
                    }
                } else {
                    assert(forall|x: int| 0 <= x < 3 ==> !can_afford(me, x));
                    assert forall|x: int| 0 <= x < 3 implies !can_afford(
                        old(agents)@[i as int],
                        x,
                    ) by {
                        assert(!can_afford(me, x));
                        assert(me.stamina == old(agents)@[i as int].stamina);
                        assert(me.physical_abilities == old(agents)@[i as int].physical_abilities);
                        assert(me.physical_abilities@[x] == old(agents)@[i as int].physical_abilities@[x]);
                    }
                    assert(!attack_gate(old(agents)@[i as int], targets@[i as int]));
                }
            }
        }
        proof {
            assert((i as int) * (BATTLE_STAT_LIMIT as int) <= (i as int + 1) * (
            BATTLE_STAT_LIMIT as int)) by (nonlinear_arith)
                requires
                    i as int >= 0,
                    BATTLE_STAT_LIMIT > 0,
            ;
        }
        i = i + 1;
    }
    strikes
}

/// The agents that survive a death pass: those with hit points left, in
/// order.
pub open spec fn retained_agents(s: Seq<Agent>) -> Seq<Agent> {
    s.filter(|a: Agent| agent_alive(a))
}

/// The death announcements one death pass emits: one per dead agent, in
/// agent order, carrying the side the agent fought on.
pub open spec fn died_events(s: Seq<Agent>) -> Seq<GameEvent>
    decreases s.len(),
{
    if s.len() == 0 {
        Seq::empty()
    } else {
        let rest = died_events(s.drop_last());
        if !agent_alive(s.last()) {
            rest.push(
                GameEvent::CreatureDied { is_enemy: s.last().is_enemy, x: s.last().x, y: s.last().y },
            )
        } else {
            rest
        }
    }
}

/// A prefix never holds more agents of a template than the whole.
proof fn lemma_count_for_take_le(s: Seq<Agent>, j: int, t: int)
    requires
        0 <= j <= s.len(),
    ensures
        count_for(s.take(j), t) <= count_for(s, t),
    decreases s.len() - j,
{
    if j == s.len() {
        assert(s.take(j) =~= s);
    } else {
        lemma_count_for_take_le(s, j + 1, t);
        assert(s.take(j + 1).drop_last() =~= s.take(j));
    }
}

/// Process deaths: every agent with no hit points left is removed, its
/// template's population falls by exactly one, and its death is announced.
/// Survivors keep their order and values; template stat blocks and sides
/// are untouched.
pub fn death_system(
    templates: &mut Vec<BattleTemplate>,
    agents: &mut Vec<Agent>,
    events: &mut Vec<GameEvent>,
)
    requires
        forall|k: int|
            0 <= k < old(agents)@.len() ==> #[trigger] old(agents)@[k].template < old(
                templates,
            )@.len(),
        forall|t: int|
            0 <= t < old(templates)@.len() ==> #[trigger] old(templates)@[t].population.0
                == count_for(old(agents)@, t),
    ensures
        final(agents)@ == retained_agents(old(agents)@),
        final(templates)@.len() == old(templates)@.len(),
        forall|t: int|
            0 <= t < old(templates)@.len() ==> {
                let o = #[trigger] old(templates)@[t];
                let m = final(templates)@[t];
                &&& m.stats == o.stats
                &&& m.is_enemy == o.is_enemy
                &&& m.population.0 == count_for(final(agents)@, t)
            },
        final(events)@ == old(events)@ + died_events(old(agents)@),
{
    let n = agents.len();
    let mut kept: Vec<Agent> = Vec::new();
    let mut k: usize = 0;
    while k < n
        invariant
            n == old(agents)@.len(),
            *agents == *old(agents),
            k <= n,
            forall|j: int|
                0 <= j < n ==> #[trigger] old(agents)@[j].template < old(templates)@.len(),
            forall|t: int|
                0 <= t < old(templates)@.len() ==> #[trigger] old(templates)@[t].population.0
                    == count_for(old(agents)@, t),
            templates@.len() == old(templates)@.len(),
            kept@ == retained_agents(agents@.take(k as int)),
            forall|t: int|
                0 <= t < templates@.len() ==> {
                    let o = old(templates)@[t];
                    let m = #[trigger] templates@[t];
                    &&& m.stats == o.stats
                    &&& m.is_enemy == o.is_enemy
                    &&& m.population.0 == count_for(kept@, t) + count_for(old(agents)@, t)
                        - count_for(old(agents)@.take(k as int), t)
                },
            events@ == old(events)@ + died_events(agents@.take(k as int)),
        decreases n - k,
    {
        let ghost prefix = agents@.take(k as int);
        let ghost next_prefix = agents@.take(k as int + 1);
        let a = agents[k];
        proof {
            reveal_with_fuel(Seq::<_>::filter, 3);
            assert(next_prefix.drop_last() =~= prefix);
            assert(next_prefix.last() == a);
            assert(retained_agents(next_prefix) == if agent_alive(next_prefix.last()) {
                retained_agents(prefix).push(next_prefix.last())
            } else {
                retained_agents(prefix)
            });
            assert(count_for(next_prefix, a.template as int) == count_for(
                prefix,
                a.template as int,
            ) + 1);
            assert(forall|t: int|
                t != a.template ==> count_for(next_prefix, t) == count_for(prefix, t));
            lemma_count_for_take_le(agents@, k as int + 1, a.template as int);
        }
        if a.hp <= 0 {
            let t = a.template;
            let pop = templates[t].population.0;
            proof {
                assert(t < templates@.len());
                assert(templates@[t as int].population.0 == count_for(kept@, t as int) + count_for(
                    old(agents)@,
                    t as int,
                ) - count_for(old(agents)@.take(k as int), t as int));
                assert(count_for(old(agents)@.take(k as int + 1), t as int) <= count_for(
                    old(agents)@,
                    t as int,
                ));
                assert(!agent_alive(next_prefix.last()));
                assert(retained_agents(next_prefix) =~= retained_agents(prefix));
            }
            assert(pop >= 1);
            {
                let tm = &mut templates[t];
                tm.population = PopulationSize(pop - 1);
            }
            events.push(GameEvent::CreatureDied { is_enemy: a.is_enemy, x: a.x, y: a.y });
            proof {
                assert(events@ =~= old(events)@ + died_events(next_prefix));
            }
        } else {
            kept.push(a);
            proof {
                reveal_with_fuel(Seq::<_>::filter, 2);
                assert(agent_alive(next_prefix.last()));
                assert(retained_agents(next_prefix) == if agent_alive(next_prefix.last()) {
                    retained_agents(prefix).push(next_prefix.last())
                } else {
                    retained_agents(prefix)
                });
                assert(kept@ == retained_agents(prefix).push(a));
                assert(retained_agents(prefix).push(a).drop_last() =~= retained_agents(prefix));
                assert(retained_agents(prefix).push(a).last() == a);
                assert(count_for(retained_agents(prefix).push(a), a.template as int) == count_for(
                    retained_agents(prefix),
                    a.template as int,
                ) + 1);
                assert(forall|t: int|
                    t != a.template ==> count_for(retained_agents(prefix).push(a), t) == count_for(
                        retained_agents(prefix),
                        t,
                    ));
            }
        }
        k = k + 1;
    }
    proof {
        assert(agents@.take(n as int) =~= agents@);
    }
    *agents = kept;
}

/// The outcome a battle has reached, read off the live agents: no ally left
/// is a defeat — checked first, so a simultaneous wipeout of both sides is
/// a defeat — and otherwise no enemy left is a victory.
pub open spec fn battle_outcome(agents: Seq<Agent>) -> Option<GameResult> {
    if side_count(agents, false) == 0 {
        Some(GameResult::Defeat)
    } else if side_count(agents, true) == 0 {
        Some(GameResult::Victory)
    } else {
        None
    }
}

/// A battle with no agents at all resolves immediately, and to a defeat:
/// the empty ally side is checked before the empty enemy side.
pub proof fn lemma_empty_battle_is_defeat(agents: Seq<Agent>)
    requires
        agents.len() == 0,
    ensures
        battle_outcome(agents) == Some(GameResult::Defeat),
{
}

/// Count the live agents of one side.
fn count_side(agents: &Vec<Agent>, enemy: bool) -> (r: usize)
    ensures
        r == side_count(agents@, enemy),
{
    let n = agents.len();
    let mut count: usize = 0;
    let mut k: usize = 0;
    while k < n
        invariant
            n == agents@.len(),
            k <= n,
            count == side_count(agents@.take(k as int), enemy),
            count <= k,
        decreases n - k,
    {
        proof {
            assert(agents@.take(k as int + 1).drop_last() =~= agents@.take(k as int));
        }
        if agents[k].is_enemy == enemy {
            count = count + 1;
        }
        k = k + 1;
    }
    proof {
        assert(agents@.take(n as int) =~= agents@);
    }
    count
}

/// An agent consistent with a template list: a valid index, in-range
/// stats, and fighting on its template's side.
pub open spec fn agent_ok(a: Agent, templates: Seq<BattleTemplate>) -> bool {
    &&& agent_bounds(a, templates.len() as int)
    &&& a.is_enemy == templates[a.template as int].is_enemy
}

/// Counting by template or by side is insensitive to everything but the
/// `template` and `is_enemy` fields.
proof fn lemma_counts_by_fields(s1: Seq<Agent>, s2: Seq<Agent>, t: int, enemy: bool)
    requires
        s1.len() == s2.len(),
        forall|i: int|
            0 <= i < s1.len() ==> #[trigger] s1[i].template == s2[i].template && s1[i].is_enemy
                == s2[i].is_enemy,
    ensures
        count_for(s1, t) == count_for(s2, t),
        side_count(s1, enemy) == side_count(s2, enemy),
    decreases s1.len(),
{
    if s1.len() > 0 {
        assert(forall|i: int|
            0 <= i < s1.drop_last().len() ==> #[trigger] s1.drop_last()[i].template
                == s2.drop_last()[i].template && s1.drop_last()[i].is_enemy
                == s2.drop_last()[i].is_enemy);
        lemma_counts_by_fields(s1.drop_last(), s2.drop_last(), t, enemy);
    }
}

/// Every property that holds of all agents holds of the survivors, which
/// are in addition alive; and there are no more survivors than agents.
proof fn lemma_retained_ok(s: Seq<Agent>, templates: Seq<BattleTemplate>)
    requires
        forall|j: int| 0 <= j < s.len() ==> agent_ok(#[trigger] s[j], templates),
    ensures
        retained_agents(s).len() <= s.len(),
        forall|i: int|
            0 <= i < retained_agents(s).len() ==> agent_ok(#[trigger] retained_agents(s)[i], templates)
                && agent_alive(retained_agents(s)[i]),
    decreases s.len(),
{
    reveal_with_fuel(Seq::<_>::filter, 2);
    if s.len() > 0 {
        assert(forall|j: int| 0 <= j < s.drop_last().len() ==> agent_ok(#[trigger] s.drop_last()[j], templates));
        lemma_retained_ok(s.drop_last(), templates);
        let rest = retained_agents(s.drop_last());
        if agent_alive(s.last()) {
            assert(retained_agents(s) == rest.push(s.last()));
        } else {
            assert(retained_agents(s) == rest);
        }
    }
}

/// Check whether the battle has reached a terminal state, and record it:
/// no ally left is a defeat (checked first, so a simultaneous wipeout is a
/// defeat); otherwise no enemy left is a victory; otherwise the battle runs
/// on. A terminal state is announced once, here.
pub fn handle_battle_over(battle: &mut Battle, events: &mut Vec<GameEvent>)
    requires
        old(battle).state == BattleState::Running,
    ensures
        final(battle).templates == old(battle).templates,
        final(battle).agents == old(battle).agents,
        final(battle).state == (match battle_outcome(old(battle).agents@) {
            Some(r) => BattleState::Resolved(r),
            None => BattleState::Running,
        }),
        final(events)@ == (match battle_outcome(old(battle).agents@) {
            Some(r) => old(events)@.push(GameEvent::BattleResolved { result: r }),
            None => old(events)@,
        }),
{
    let allies = count_side(&battle.agents, false);
    if allies == 0 {
        battle.state = BattleState::Resolved(GameResult::Defeat);
        events.push(GameEvent::BattleResolved { result: GameResult::Defeat });
        return ;
    }
    let enemies = count_side(&battle.agents, true);
    if enemies == 0 {
        battle.state = BattleState::Resolved(GameResult::Victory);
        events.push(GameEvent::BattleResolved { result: GameResult::Victory });
    }
}

/// Total population over a list of battle templates.
pub open spec fn total_population(templates: Seq<BattleTemplate>) -> nat
    decreases templates.len(),
{
    if templates.len() == 0 {
        0
    } else {
        total_population(templates.drop_last()) + templates.last().population.0 as nat
    }
}

/// Widest template list and per-template population a battle setup accepts
/// (machine limits; their product stays within the agent limit).
pub const TEMPLATE_LIMIT: usize = 1_000;

pub const TEMPLATE_POPULATION_LIMIT: u32 = 1_000;

proof fn lemma_total_population_bounded(templates: Seq<BattleTemplate>, cap: nat)
    requires
        forall|t: int| 0 <= t < templates.len() ==> #[trigger] templates[t].population.0 <= cap,
    ensures
        total_population(templates) <= templates.len() * cap,
    decreases templates.len(),
{
    if templates.len() > 0 {
        assert(forall|t: int|
            0 <= t < templates.drop_last().len() ==> #[trigger] templates.drop_last()[t].population.0
                <= cap);
        lemma_total_population_bounded(templates.drop_last(), cap);
        assert((templates.len() - 1) * cap + cap == templates.len() * cap) by (nonlinear_arith);
    }
}

/// The stat block a battle requires of a participant: within the battle's
/// numeric range, with hit points to spawn alive. Weaker than the
/// generator's invariant — hit points in particular have no floor here, so
/// a hand-built wave of frail creatures is admissible.
pub open spec fn battle_ready(stats: CreatureStats) -> bool {
    &&& stats_within(stats, BATTLE_STAT_LIMIT as int)
    &&& stats.movement_speed >= MIN_MOVEMENT_SPEED
    &&& stats.stamina >= MIN_STAMINA
    &&& stats.stamina_regen >= MIN_STAMINA_REGEN
    &&& stats.hp >= 1
    &&& stats.physical_abilities@.len() == 3
    &&& forall|k: int|
        0 <= k < 3 ==> {
            let a = #[trigger] stats.physical_abilities@[k];
            &&& a.stamina_cost >= MIN_PHYS_STAMINA_COST
            &&& a.damage >= MIN_PHYS_DMG
            &&& a.global_cooldown >= MIN_PHYS_COOLDOWN
        }
}

/// An agent freshly spawned from its template: full hit points and stamina,
/// no cooldown, the template's snapshot, a position on its side of the
/// arena (allies on the left half, enemies mirrored on the right).
pub open spec fn spawned_from(a: Agent, t: int, templates: Seq<BattleTemplate>) -> bool {
    let stats = templates[t].stats;
    &&& a.template == t
    &&& a.is_enemy == templates[t].is_enemy
    &&& a.movement_speed == stats.movement_speed
    &&& a.stamina_regen == stats.stamina_regen
    &&& a.max_stamina == stats.stamina
    &&& a.physical_abilities == stats.physical_abilities
    &&& a.hp == stats.hp
    &&& a.stamina == stats.stamina
    &&& a.cooldown == 0
    &&& if templates[t].is_enemy {
        213_334 <= a.x <= 640_000
    } else {
        -640_000 <= a.x <= -213_334
    }
    &&& -360_000 <= a.y <= 359_999
}

/// A template list a battle accepts: few enough templates, each with
/// in-range stats and population.
pub open spec fn templates_ready(templates: Seq<BattleTemplate>) -> bool {
    &&& templates.len() <= TEMPLATE_LIMIT
    &&& forall|t: int|
        0 <= t < templates.len() ==> battle_ready(#[trigger] templates[t].stats)
            && templates[t].population.0 <= TEMPLATE_POPULATION_LIMIT
}

impl Battle {
    /// Set a battle up: for every template, spawn one agent per population
    /// unit at a random position on that side's half of the arena, with
    /// full hit points and stamina and no cooldown.
    #[verifier::rlimit(60)]
    pub fn new(templates: Vec<BattleTemplate>, rng: &mut GameRng) -> (r: Battle)
        requires
            templates_ready(templates@),
        ensures
            battle_wf(r),
            r.state == BattleState::Running,
            r.templates@ == templates@,
            forall|i: int|
                0 <= i < r.agents@.len() ==> spawned_from(
                    #[trigger] r.agents@[i],
                    r.agents@[i].template as int,
                    templates@,
                ),
    {
        let n = templates.len();
        let mut agents: Vec<Agent> = Vec::new();
        proof {
            assert forall|u: int| 0 <= u < templates@.len() implies #[trigger] templates@[u].population.0
                <= TEMPLATE_POPULATION_LIMIT as nat by {
                assert(battle_ready(templates@[u].stats));
            }
            lemma_total_population_bounded(templates@, TEMPLATE_POPULATION_LIMIT as nat);
            assert(templates@.len() * (TEMPLATE_POPULATION_LIMIT as nat) <= 1_000_000)
                by (nonlinear_arith)
                requires
                    templates@.len() <= 1_000,
                    TEMPLATE_POPULATION_LIMIT == 1_000u32,
            ;
        }
        let mut t: usize = 0;
        while t < n
            invariant
                n == templates@.len(),
                t <= n,
                n <= TEMPLATE_LIMIT,
                forall|u: int|
                    0 <= u < n ==> battle_ready(#[trigger] templates@[u].stats)
                        && templates@[u].population.0 <= TEMPLATE_POPULATION_LIMIT,
                agents@.len() == total_population(templates@.take(t as int)),
                total_population(templates@) <= 1_000_000,
                forall|u: int| 0 <= u < t ==> count_for(agents@, u) == #[trigger] templates@[u].population.0,
                forall|u: int| t <= u < n ==> count_for(agents@, u) == 0,
                forall|i: int|
                    0 <= i < agents@.len() ==> (#[trigger] agents@[i]).template < t && spawned_from(
                        agents@[i],
                        agents@[i].template as int,
                        templates@,
                    ),
            decreases n - t,
        {
            let ghost prefix_total = total_population(templates@.take(t as int));
            proof {
                assert(templates@.take(t as int + 1).drop_last() =~= templates@.take(t as int));
                lemma_total_population_take_le(templates@, t as int + 1);
            }
            let template = templates[t];
            let pop = template.population.0;
            let mut j: u32 = 0;
            while j < pop
                invariant
                    n == templates@.len(),
                    t < n,
                    n <= TEMPLATE_LIMIT,
                    j <= pop,
                    template == templates@[t as int],
                    pop == template.population.0,
                    forall|u: int|
                        0 <= u < n ==> battle_ready(#[trigger] templates@[u].stats)
                            && templates@[u].population.0 <= TEMPLATE_POPULATION_LIMIT,
                    agents@.len() == prefix_total + j,
                    prefix_total + pop <= total_population(templates@),
                    total_population(templates@) <= 1_000_000,
                    forall|u: int|
                        0 <= u < t ==> count_for(agents@, u) == #[trigger] templates@[u].population.0,
                    count_for(agents@, t as int) == j,
                    forall|u: int| t < u < n ==> count_for(agents@, u) == 0,
                    forall|i: int|
                        0 <= i < agents@.len() ==> (#[trigger] agents@[i]).template <= t
                            && spawned_from(agents@[i], agents@[i].template as int, templates@),
                decreases pop - j,
            {
                let x_left = rng.gen_range_i64(-(ARENA_WIDTH / 2), -(ARENA_WIDTH / 6) - 1);
                let x = if template.is_enemy {
                    -x_left
                } else {
                    x_left
                };
                let y = rng.gen_range_i64(-(ARENA_HEIGHT / 2), ARENA_HEIGHT / 2 - 1);
                let agent = Agent {
                    template: t,
                    is_enemy: template.is_enemy,
                    x,
                    y,
                    movement_speed: template.stats.movement_speed,
                    stamina_regen: template.stats.stamina_regen,
                    max_stamina: template.stats.stamina,
                    physical_abilities: template.stats.physical_abilities,
                    hp: template.stats.hp,
                    stamina: template.stats.stamina,
                    cooldown: 0,
                };
                let ghost before = agents@;
                agents.push(agent);
                proof {
                    assert(agents@.drop_last() =~= before);
                    assert(forall|u: int| count_for(agents@, u) == count_for(before, u) + if u == t {
                        1int
                    } else {
                        0int
                    });
                }
                j = j + 1;
            }
            proof {
                assert(total_population(templates@.take(t as int + 1)) == prefix_total + pop);
            }
            t = t + 1;
        }
        proof {
            assert(templates@.take(n as int) =~= templates@);
        }
        Battle { templates, agents, state: BattleState::Running }
    }
}

/// A prefix never holds more population than the whole.
proof fn lemma_total_population_take_le(templates: Seq<BattleTemplate>, j: int)
    requires
        0 <= j <= templates.len(),
    ensures
        total_population(templates.take(j)) <= total_population(templates),
    decreases templates.len() - j,
{
    if j == templates.len() {
        assert(templates.take(j) =~= templates);
    } else {
        lemma_total_population_take_le(templates, j + 1);
        assert(templates.take(j + 1).drop_last() =~= templates.take(j));
    }
}

/// An agent after its movement step: toward its acquired target's
/// last-known position when out of melee reach, else holding position.
#[verifier::opaque]
pub open spec fn moved_agent(a: Agent, t: Option<Targeting>, dt: int) -> Agent {
    if moves_this_tick(t) {
        let tg = t->Some_0;
        Agent {
            x: moved_x(
                a.x as int,
                a.y as int,
                tg.x as int,
                tg.y as int,
                a.movement_speed as int,
                dt,
            ) as i64,
            y: moved_y(
                a.x as int,
                a.y as int,
                tg.x as int,
                tg.y as int,
                a.movement_speed as int,
                dt,
            ) as i64,
            ..a
        }
    } else {
        a
    }
}

/// All agents after the movement phase.
#[verifier::opaque]
pub open spec fn moved_agents(agents: Seq<Agent>, targets: Seq<Option<Targeting>>, dt: int) -> Seq<
    Agent,
> {
    Seq::new(agents.len(), |i: int| moved_agent(agents[i], targets[i], dt))
}

/// An agent after the recovery phase: cooldown lowered toward zero, stamina
/// regenerated toward its maximum.
#[verifier::opaque]
pub open spec fn recovered_agent(a: Agent, dt: int) -> Agent {
    Agent {
        cooldown: recovered_cooldown(a.cooldown as int, dt) as i64,
        stamina: recovered_stamina(
            a.stamina as int,
            a.stamina_regen as int,
            a.max_stamina as int,
            dt,
        ) as i64,
        ..a
    }
}

/// All agents after the recovery phase.
#[verifier::opaque]
pub open spec fn recovered_agents(agents: Seq<Agent>, dt: int) -> Seq<Agent> {
    Seq::new(agents.len(), |i: int| recovered_agent(agents[i], dt))
}

/// A strike sequence the attack phase may produce on the staged agents:
/// every strike valid there, attackers in strictly increasing order, and
/// exactly one strike per agent whose gate is open.
#[verifier::opaque]
pub open spec fn strikes_complete(
    agents: Seq<Agent>,
    targets: Seq<Option<Targeting>>,
    strikes: Seq<Strike>,
) -> bool {
    &&& forall|si: int|
        0 <= si < strikes.len() ==> strike_valid(agents, targets, #[trigger] strikes[si])
    &&& forall|si: int, sj: int|
        0 <= si < sj < strikes.len() ==> strikes[si].attacker < strikes[sj].attacker
    &&& forall|i: int|
        0 <= i < agents.len() ==> (attack_gate(#[trigger] agents[i], targets[i]) <==> exists|si: int|
            0 <= si < strikes.len() && (#[trigger] strikes[si]).attacker == i)
}

/// The announcement the battle-over check emits: the resolution, once, when
/// the live agents decide the battle.
#[verifier::opaque]
pub open spec fn resolution_events(agents: Seq<Agent>) -> Seq<GameEvent> {
    match battle_outcome(agents) {
        Some(r) => Seq::empty().push(GameEvent::BattleResolved { result: r }),
        None => Seq::empty(),
    }
}

/// One full tick, phase by phase: `targets` is the targeting read off the
/// old agents (`targeting_ok` pins it to the nearest opponents); every
/// out-of-reach agent walks its movement step; everyone recovers; `strikes`
/// — one per agent whose attack gate is then open, the ability choice being
/// the tick's only randomness — land in agent order; the dead are removed;
/// and the events follow in phase order: damage, deaths, resolution.
#[verifier::opaque]
pub open spec fn tick_relation(
    agents0: Seq<Agent>,
    agents1: Seq<Agent>,
    events0: Seq<GameEvent>,
    events1: Seq<GameEvent>,
    targets: Seq<Option<Targeting>>,
    strikes: Seq<Strike>,
    dt: int,
) -> bool {
    let staged = recovered_agents(moved_agents(agents0, targets, dt), dt);
    let fought = apply_strikes(staged, strikes);
    &&& targets.len() == agents0.len()
    &&& forall|i: int| 0 <= i < agents0.len() ==> targeting_ok(agents0, i, #[trigger] targets[i])
    &&& strikes_complete(staged, targets, strikes)
    &&& agents1 == retained_agents(fought)
    &&& events1 == events0 + damage_events(strikes) + died_events(fought) + resolution_events(
        retained_agents(fought),
    )
}

/// The battles reachable in exactly `n` ticks: a chain of `n` tick
/// relations from the starting agents and event log to the final ones.
#[verifier::opaque]
pub open spec fn ticks_reachable(
    agents0: Seq<Agent>,
    events0: Seq<GameEvent>,
    agents1: Seq<Agent>,
    events1: Seq<GameEvent>,
    dt: int,
    n: nat,
) -> bool
    decreases n,
{
    if n == 0 {
        agents1 == agents0 && events1 == events0
    } else {
        exists|
            mid_agents: Seq<Agent>,
            mid_events: Seq<GameEvent>,
            targets: Seq<Option<Targeting>>,
            strikes: Seq<Strike>,
        |
            ticks_reachable(agents0, events0, mid_agents, mid_events, dt, (n - 1) as nat)
                && #[trigger] tick_relation(
                mid_agents,
                agents1,
                mid_events,
                events1,
                targets,
                strikes,
                dt,
            )
    }
}

impl Battle {
    /// Run one simulation tick, in the fixed phase order: targeting,
    /// movement, recovery, attack resolution, death processing, and the
    /// battle-over check. The battle invariant is preserved, every
    /// template's stat block and side are untouched, the state afterwards
    /// reflects exactly the outcome read off the surviving agents, and the
    /// whole pass is pinned by `tick_relation`: the final agents and the
    /// appended events are the phase-by-phase image of the old ones, the
    /// only freedom being which affordable ability each open-gated attacker
    /// drew.
    #[verifier::rlimit(100)]
    pub fn tick(&mut self, rng: &mut GameRng, dt_ms: i64, events: &mut Vec<GameEvent>)
        requires
            battle_wf(*old(self)),
            old(self).state == BattleState::Running,
            1 <= dt_ms <= MAX_TICK_MS,
        ensures
            battle_wf(*final(self)),
            final(self).templates@.len() == old(self).templates@.len(),
            forall|t: int|
                0 <= t < old(self).templates@.len() ==> {
                    let m = #[trigger] final(self).templates@[t];
                    m.stats == old(self).templates@[t].stats && m.is_enemy == old(
                        self,
                    ).templates@[t].is_enemy
                },
            final(self).agents@.len() <= old(self).agents@.len(),
            final(self).state == (match battle_outcome(final(self).agents@) {
                Some(r) => BattleState::Resolved(r),
                None => BattleState::Running,
            }),
            old(events)@.is_prefix_of(final(events)@),
            exists|targets: Seq<Option<Targeting>>, strikes: Seq<Strike>|
                #[trigger] tick_relation(
                    old(self).agents@,
                    final(self).agents@,
                    old(events)@,
                    final(events)@,
                    targets,
                    strikes,
                    dt_ms as int,
                ),
    {
        let ghost agents0 = self.agents@;
        let ghost templates0 = self.templates@;
        let ghost events0 = events@;
        proof {
            assert(forall|k: int| 0 <= k < agents0.len() ==> agent_phys_bounds(#[trigger] agents0[k]));
        }
        let targets = compute_targets(&self.agents);
        proof {
            assert forall|k: int|
                0 <= k < targets@.len() && #[trigger] targets@[k] is Some implies {
                let tg = targets@[k]->Some_0;
                &&& tg.target < agents0.len()
                &&& -POSITION_LIMIT <= tg.x <= POSITION_LIMIT
                &&& -POSITION_LIMIT <= tg.y <= POSITION_LIMIT
            } by {
                assert(targeting_ok(agents0, k, targets@[k]));
            }
        }
        go_to_nearest_enemy(&mut self.agents, &targets, dt_ms);
        let ghost agents1 = self.agents@;
        proof {
            assert forall|k: int| 0 <= k < agents1.len() implies agent_phys_bounds(
                #[trigger] agents1[k],
            ) by {
                assert(same_snapshot(agents0[k], agents1[k]));
            }
        }
        stats_recovery(&mut self.agents, dt_ms);
        let ghost agents2 = self.agents@;
        proof {
            assert forall|k: int| 0 <= k < agents2.len() implies agent_phys_bounds(
                #[trigger] agents2[k],
            ) && agents2[k].hp == agents0[k].hp by {
                assert(same_snapshot(agents1[k], agents2[k]));
                assert(agents1[k].hp == agents0[k].hp);
            }
        }
        let strikes = attack_enemy(&mut self.agents, &targets, rng, events);
        let ghost agents3 = self.agents@;
        let ghost events1 = events@;
        proof {
            assert forall|j: int| 0 <= j < agents3.len() implies agent_ok(
                #[trigger] agents3[j],
                templates0,
            ) by {
                assert(agent_ok(agents0[j], templates0));
                assert(same_snapshot(agents0[j], agents1[j]));
                assert(same_snapshot(agents1[j], agents2[j]));
                assert(same_snapshot(agents2[j], agents3[j]));
            }
            assert forall|t: int| 0 <= t < templates0.len() implies #[trigger] templates0[t].population.0
                == count_for(agents3, t) by {
                assert(forall|i: int|
                    0 <= i < agents0.len() ==> #[trigger] agents0[i].template == agents3[i].template
                        && agents0[i].is_enemy == agents3[i].is_enemy);
                lemma_counts_by_fields(agents0, agents3, t, false);
            }
        }
        death_system(&mut self.templates, &mut self.agents, events);
        let ghost agents4 = self.agents@;
        let ghost events2 = events@;
        proof {
            lemma_retained_ok(agents3, templates0);
            assert forall|i: int| 0 <= i < agents4.len() implies {
                let a = #[trigger] agents4[i];
                &&& agent_bounds(a, self.templates@.len() as int)
                &&& agent_alive(a)
                &&& a.is_enemy == self.templates@[a.template as int].is_enemy
            } by {
                assert(agent_ok(agents4[i], templates0));
            }
            assert(agents4.len() <= agents3.len());
            assert(agents3.len() == agents0.len());
            assert(self.agents@.len() <= AGENT_LIMIT);
            assert forall|t: int|
                0 <= t < self.templates@.len() implies #[trigger] self.templates@[t].population.0
                == count_for(self.agents@, t) by {
                assert(templates0[t].population.0 <= u32::MAX);
            }
            assert forall|t: int|
                0 <= t < self.templates@.len() implies #[trigger] self.templates@[t].stats
                == templates0[t].stats && self.templates@[t].is_enemy == templates0[t].is_enemy by {
                assert(templates0[t].population.0 <= u32::MAX);
            }
            assert(events0.is_prefix_of(events1));
            assert(events2 == events1 + died_events(agents3));
            assert(events1.is_prefix_of(events2)) by {
                assert(events2.subrange(0, events1.len() as int) =~= events1);
            }
            assert(events0.is_prefix_of(events2)) by {
                assert(events2.subrange(0, events0.len() as int) =~= events1.subrange(
                    0,
                    events0.len() as int,
                ));
            }
        }
        handle_battle_over(self, events);
        proof {
            assert(events2.is_prefix_of(events@)) by {
                assert(events@.subrange(0, events2.len() as int) =~= events2);
            }
            assert(events0.is_prefix_of(events@)) by {
                assert(events@.subrange(0, events0.len() as int) =~= events2.subrange(
                    0,
                    events0.len() as int,
                ));
            }
            // The tick relation, witnessed by the computed targeting and
            // the strikes the attack phase reported.
            reveal(moved_agent);
            reveal(moved_agents);
            reveal(recovered_agent);
            reveal(recovered_agents);
            reveal(strikes_complete);
            reveal(resolution_events);
            reveal(tick_relation);
            assert forall|k: int| 0 <= k < agents1.len() implies #[trigger] agents1[k]
                == moved_agent(agents0[k], targets@[k], dt_ms as int) by {
                assert(same_snapshot(agents0[k], agents1[k]));
                assert(same_combat_state(agents0[k], agents1[k]));
            }
            assert(agents1 =~= moved_agents(agents0, targets@, dt_ms as int));
            assert forall|k: int| 0 <= k < agents2.len() implies #[trigger] agents2[k]
                == recovered_agent(agents1[k], dt_ms as int) by {
                assert(same_snapshot(agents1[k], agents2[k]));
                assert(same_position(agents1[k], agents2[k]));
            }
            assert(agents2 =~= recovered_agents(agents1, dt_ms as int));
            assert(strikes_complete(agents2, targets@, strikes@));
            assert(agents3 == apply_strikes(agents2, strikes@));
            assert(agents4 == retained_agents(agents3));
            let ghost resolution = resolution_events(agents4);
            assert(events@ == events2 + resolution) by {
                match battle_outcome(agents4) {
                    Some(r) => {
                        assert(events@ =~= events2 + Seq::empty().push(
                            GameEvent::BattleResolved { result: r },
                        ));
                    },
                    None => {
                        assert(events@ =~= events2 + Seq::<GameEvent>::empty());
                    },
                }
            }
            assert(events@ =~= events0 + damage_events(strikes@) + died_events(agents3)
                + resolution);
            assert(tick_relation(
                agents0,
                self.agents@,
                events0,
                events@,
                targets@,
                strikes@,
                dt_ms as int,
            ));
        }
    }

    /// Run the battle for at most `max_ticks` ticks of `dt_ms` milliseconds
    /// each, stopping as soon as it resolves. Starting from a running
    /// battle with a tick budget, the returned state reflects exactly the
    /// outcome the surviving agents decide — still `Running` only when the
    /// budget ran out before either side was wiped out.
    pub fn run_battle(
        &mut self,
        rng: &mut GameRng,
        dt_ms: i64,
        max_ticks: u32,
        events: &mut Vec<GameEvent>,
    ) -> (r: BattleState)
        requires
            battle_wf(*old(self)),
            1 <= dt_ms <= MAX_TICK_MS,
        ensures
            battle_wf(*final(self)),
            r == final(self).state,
            old(events)@.is_prefix_of(final(events)@),
            final(self).agents@.len() <= old(self).agents@.len(),
            old(self).state == BattleState::Running && max_ticks > 0 ==> final(self).state == (
            match battle_outcome(final(self).agents@) {
                Some(outcome) => BattleState::Resolved(outcome),
                None => BattleState::Running,
            }),
            r == BattleState::Running && old(self).state == BattleState::Running ==> (
            battle_outcome(final(self).agents@) is None || max_ticks == 0),
            old(self).state == BattleState::Running ==> exists|n: nat|
                n <= max_ticks && #[trigger] ticks_reachable(
                    old(self).agents@,
                    old(events)@,
                    final(self).agents@,
                    final(events)@,
                    dt_ms as int,
                    n,
                ) && (final(self).state == BattleState::Running ==> n == max_ticks),
    {
        let ghost agents_start = self.agents@;
        let ghost events0 = events@;
        proof {
            reveal_with_fuel(ticks_reachable, 1);
            assert(ticks_reachable(agents_start, events0, self.agents@, events@, dt_ms as int, 0));
        }
        let mut ticks: u32 = 0;
        while ticks < max_ticks && self.state == BattleState::Running
            invariant
                battle_wf(*self),
                1 <= dt_ms <= MAX_TICK_MS,
                ticks <= max_ticks,
                events0.is_prefix_of(events@),
                self.agents@.len() <= old(self).agents@.len(),
                ticks == 0 ==> self.state == old(self).state,
                old(self).state == BattleState::Running && ticks > 0 ==> self.state == (
                match battle_outcome(self.agents@) {
                    Some(outcome) => BattleState::Resolved(outcome),
                    None => BattleState::Running,
                }),
                ticks_reachable(agents_start, events0, self.agents@, events@, dt_ms as int, ticks as nat),
            decreases max_ticks - ticks,
        {
            let ghost before_agents = self.agents@;
            let ghost before = events@;
            self.tick(rng, dt_ms, events);
            proof {
                assert(events0.is_prefix_of(events@)) by {
                    assert(events@.subrange(0, events0.len() as int) =~= before.subrange(
                        0,
                        events0.len() as int,
                    ));
                }
                let (tg, st) = choose|tg: Seq<Option<Targeting>>, st: Seq<Strike>|
                    tick_relation(before_agents, self.agents@, before, events@, tg, st, dt_ms as int);
                assert(ticks_reachable(
                    agents_start,
                    events0,
                    self.agents@,
                    events@,
                    dt_ms as int,
                    (ticks + 1) as nat,
                )) by {
                    reveal_with_fuel(ticks_reachable, 1);
                    assert(ticks_reachable(
                        agents_start,
                        events0,
                        before_agents,
                        before,
                        dt_ms as int,
                        ticks as nat,
                    ) && tick_relation(
                        before_agents,
                        self.agents@,
                        before,
                        events@,
                        tg,
                        st,
                        dt_ms as int,
                    ));
                }
            }
            ticks = ticks + 1;
        }
        proof {
            assert(ticks_reachable(
                agents_start,
                events0,
                self.agents@,
                events@,
                dt_ms as int,
                ticks as nat,
            ));
        }
        self.state
    }
}

/// Carry a finished battle's population counts back to the roster whose
/// entries seeded the battle's leading templates: entry `i` takes template
/// `i`'s remaining population; stat blocks are untouched.
pub fn apply_battle_results(roster: &mut crate::roster::Roster, battle: &Battle)
    requires
        crate::roster::roster_wf(*old(roster)),
        old(roster).entries@.len() <= battle.templates@.len(),
    ensures
        crate::roster::roster_wf(*final(roster)),
        final(roster).entries@.len() == old(roster).entries@.len(),
        final(roster).generation == old(roster).generation,
        forall|i: int|
            0 <= i < old(roster).entries@.len() ==> {
                let e = #[trigger] final(roster).entries@[i];
                e.stats == old(roster).entries@[i].stats && e.population
                    == battle.templates@[i].population
            },
{
    let n = roster.entries.len();
    let mut i: usize = 0;
    while i < n
        invariant
            n == roster.entries@.len(),
            n == old(roster).entries@.len(),
            n <= battle.templates@.len(),
            i <= n,
            crate::roster::roster_wf(*old(roster)),
            roster.generation == old(roster).generation,
            forall|k: int| i <= k < n ==> #[trigger] roster.entries@[k] == old(roster).entries@[k],
            forall|k: int|
                0 <= k < i ==> {
                    let e = #[trigger] roster.entries@[k];
                    e.stats == old(roster).entries@[k].stats && e.population
                        == battle.templates@[k].population
                },
        decreases n - i,
    {
        let pop = battle.templates[i].population.0;
        let entry = &mut roster.entries[i];
        entry.population = PopulationSize(pop);
        i = i + 1;
    }
}

/// Normal draws one enemy template consumes: its tier, its population
/// multiplier, and a full creature generation.
pub const ENEMY_DRAWS: usize = 15;

/// Cap on the sampled enemy population multiplier (66 times), so that one
/// enemy template's population provably stays within the battle's
/// per-template limit. Reached only after hundreds of won rounds.
pub const ENEMY_POP_MULT_CAP: i64 = 66_000;

/// The tier one enemy is generated at, from its tier draw: the difficulty
/// sample in whole tiers, held within the generator's accepted band.
pub open spec fn enemy_tier_of(d: Difficulty, z: int) -> int {
    let t = whole_or_255(
        difficulty_sample(
            d.enemy_tier_mean as int,
            ENEMY_TIER_STD_DEV as int,
            MIN_ENEMY_TIER as int,
            z,
        ),
    );
    if t > 10 {
        10
    } else {
        t
    }
}

/// The population multiplier one enemy is generated with, from its draw.
pub open spec fn enemy_pop_mult_of(d: Difficulty, z: int) -> int {
    let m = difficulty_sample(
        d.enemy_pop_mult_mean as int,
        ENEMY_POP_MULT_STD_DEV as int,
        MIN_ENEMY_POP_MULT as int,
        z,
    );
    if m > ENEMY_POP_MULT_CAP {
        ENEMY_POP_MULT_CAP as int
    } else {
        m
    }
}

/// How many enemy templates one generation pass produces, from the first
/// draw of the batch.
pub open spec fn enemy_count_of(d: Difficulty, z: int) -> int {
    whole_or_255(
        difficulty_sample(
            d.enemy_count_mean as int,
            ENEMY_COUNT_STD_DEV as int,
            MIN_ENEMY_COUNT as int,
            z,
        ),
    )
}

/// One enemy template generated from its fifteen draws: tier from the
/// first, population multiplier from the second, the stat block from the
/// remaining thirteen; generation id zero, since enemies are ephemeral.
pub open spec fn enemy_template_match(tpl: BattleTemplate, d: Difficulty, zs: Seq<i64>) -> bool {
    &&& tpl.is_enemy
    &&& stats_match(tpl.stats, enemy_tier_of(d, zs[0] as int), zs.skip(2), 0)
    &&& exists|u: int|
        5 <= u <= 15 && tpl.population.0 == #[trigger] scaled_population(
            u,
            enemy_pop_mult_of(d, zs[1] as int),
        )
    &&& tpl.population.0 <= 990
    &&& battle_ready(tpl.stats)
}

/// Generate this battle's enemy side: the difficulty controller's count
/// sample says how many templates, and each is generated fresh at a sampled
/// tier with a sampled population multiplier. Returns `None`, consuming
/// nothing, exactly when the sample store cannot cover the whole pass.
pub fn generate_enemy_creatures(
    difficulty: &Difficulty,
    rng: &mut GameRng,
    ns: &mut NormalSource,
) -> (r: Option<Vec<BattleTemplate>>)
    requires
        difficulty_wf(*difficulty),
        old(ns).wf(),
    ensures
        final(ns).wf(),
        r is None ==> final(ns).pending() == old(ns).pending(),
        r is None <==> (old(ns).pending().len() == 0 || old(ns).pending().len() < 1 + (
        ENEMY_DRAWS as int) * enemy_count_of(*difficulty, old(ns).pending()[0] as int)),
        r is Some ==> {
            let templates = r->Some_0;
            let count = enemy_count_of(*difficulty, old(ns).pending()[0] as int);
            &&& templates@.len() == count
            &&& 1 <= count <= 255
            &&& forall|k: int|
                0 <= k < count ==> enemy_template_match(
                    #[trigger] templates@[k],
                    *difficulty,
                    old(ns).pending().subrange(
                        1 + (ENEMY_DRAWS as int) * k,
                        1 + (ENEMY_DRAWS as int) * (k + 1),
                    ),
                )
            &&& final(ns).pending() == old(ns).pending().skip(1 + (ENEMY_DRAWS as int) * count)
        },
{
    if ns.remaining() == 0 {
        return None;
    }
    let zc = ns.peek();
    let count = difficulty.enemy_count(zc);
    let needed = 1 + ENEMY_DRAWS * (count as usize);
    if ns.remaining() < needed {
        return None;
    }
    let _ = ns.take();
    let ghost all = old(ns).pending();
    let mut templates: Vec<BattleTemplate> = Vec::new();
    let mut k: usize = 0;
    while k < count as usize
        invariant
            difficulty_wf(*difficulty),
            ns.wf(),
            k <= count as usize,
            1 <= count,
            count as int == enemy_count_of(*difficulty, all[0] as int),
            all == old(ns).pending(),
            all.len() >= 1 + (ENEMY_DRAWS as int) * (count as int),
            ns.pending() == all.skip(1 + (ENEMY_DRAWS as int) * (k as int)),
            templates@.len() == k,
            forall|j: int|
                0 <= j < k ==> enemy_template_match(
                    #[trigger] templates@[j],
                    *difficulty,
                    all.subrange(1 + (ENEMY_DRAWS as int) * j, 1 + (ENEMY_DRAWS as int) * (j + 1)),
                ),
        decreases count as usize - k,
    {
        proof {
            assert((ENEMY_DRAWS as int) * (k as int) + ENEMY_DRAWS == (ENEMY_DRAWS as int) * (
            k as int + 1) && (ENEMY_DRAWS as int) * (k as int + 1) <= (ENEMY_DRAWS as int) * (
            count as int)) by (nonlinear_arith)
                requires
                    0 <= (k as int) && (k as int) < (count as int),
            ;
        }
        let ghost batch = all.subrange(
            1 + (ENEMY_DRAWS as int) * (k as int),
            1 + (ENEMY_DRAWS as int) * (k as int + 1),
        );
        let zt = ns.take();
        let zm = ns.take();
        proof {
            assert(zt == batch[0] && zm == batch[1]);
        }
        let tier_raw = difficulty.enemy_tier(zt);
        let tier = if tier_raw > 10 {
            10
        } else {
            tier_raw
        };
        let mult_raw = difficulty.enemy_pop_mult(zm);
        let mult = if mult_raw > ENEMY_POP_MULT_CAP {
            ENEMY_POP_MULT_CAP
        } else {
            mult_raw
        };
        proof {
            assert(tier as int == enemy_tier_of(*difficulty, batch[0] as int));
            assert(mult as int == enemy_pop_mult_of(*difficulty, batch[1] as int));
        }
        assert(ns.pending().len() >= CREATURE_DRAWS) by {
            assert((ENEMY_DRAWS as int) * (count as int) - (ENEMY_DRAWS as int) * (k as int)
                >= ENEMY_DRAWS) by (nonlinear_arith)
                requires
                    0 <= (k as int) && (k as int) < (count as int),
            ;
        }
        let (stats, pop) = generate_creature(rng, ns, tier, 0, mult).unwrap();
        proof {
            assert(stats_match(stats, tier as int, batch.skip(2), 0)) by {
                assert(all.skip(1 + (ENEMY_DRAWS as int) * (k as int)).skip(2) =~= all.skip(
                    3 + (ENEMY_DRAWS as int) * (k as int),
                ));
                assert(batch.skip(2) =~= all.subrange(
                    3 + (ENEMY_DRAWS as int) * (k as int),
                    1 + (ENEMY_DRAWS as int) * (k as int + 1),
                ));
                assert(all.skip(1 + (ENEMY_DRAWS as int) * (k as int)).skip(2).take(13int)
                    =~= batch.skip(2));
                assert(stats_match(
                    stats,
                    tier as int,
                    all.skip(1 + (ENEMY_DRAWS as int) * (k as int)).skip(2),
                    0,
                ));
                lemma_stats_match_prefix(
                    stats,
                    tier as int,
                    all.skip(1 + (ENEMY_DRAWS as int) * (k as int)).skip(2),
                    0,
                );
            }
            assert(ns.pending() =~= all.skip(1 + (ENEMY_DRAWS as int) * (k as int + 1)));
        }
        let pop_final = if pop > 990 {
            990
        } else {
            pop
        };
        proof {
            assert(pop <= 990) by (nonlinear_arith)
                requires
                    exists|u: int|
                        5 <= u <= 15 && pop == #[trigger] scaled_population(u, mult as int),
                    0 <= mult <= 66_000,
            ;
        }
        templates.push(
            BattleTemplate { stats, population: PopulationSize(pop_final), is_enemy: true },
        );
        k = k + 1;
    }
    Some(templates)
}

/// A stat block's generation reads only a prefix of the draw store, so any
/// extension of the draws generates the same block.
pub proof fn lemma_stats_match_prefix(
    stats: CreatureStats,
    tier: int,
    zs: Seq<i64>,
    generation: u64,
)
    requires
        zs.len() >= 13,
        stats_match(stats, tier, zs, generation),
    ensures
        stats_match(stats, tier, zs.take(13int), generation),
{
    assert(forall|i: int| 0 <= i < 13 ==> zs.take(13int)[i] == zs[i]);
}

/// Check one stat block against the battle's numeric range.
fn stats_in_battle_range(stats: &CreatureStats) -> (r: bool)
    ensures
        r == stats_within(*stats, BATTLE_STAT_LIMIT as int),
{
    if !(stats.movement_speed <= BATTLE_STAT_LIMIT && stats.hp <= BATTLE_STAT_LIMIT
        && stats.stamina <= BATTLE_STAT_LIMIT && stats.stamina_regen <= BATTLE_STAT_LIMIT) {
        return false;
    }
    let mut k: usize = 0;
    let n = stats.physical_abilities.len();
    while k < n
        invariant
            n == stats.physical_abilities@.len(),
            k <= n,
            stats.movement_speed <= BATTLE_STAT_LIMIT,
            stats.hp <= BATTLE_STAT_LIMIT,
            stats.stamina <= BATTLE_STAT_LIMIT,
            stats.stamina_regen <= BATTLE_STAT_LIMIT,
            forall|i: int|
                0 <= i < k ==> {
                    let a = #[trigger] stats.physical_abilities@[i];
                    a.stamina_cost <= BATTLE_STAT_LIMIT && a.damage <= BATTLE_STAT_LIMIT
                        && a.global_cooldown <= BATTLE_STAT_LIMIT
                },
        decreases n - k,
    {
        let a = stats.physical_abilities[k];
        if !(a.stamina_cost <= BATTLE_STAT_LIMIT && a.damage <= BATTLE_STAT_LIMIT
            && a.global_cooldown <= BATTLE_STAT_LIMIT) {
            return false;
        }
        k = k + 1;
    }
    true
}

/// Whether a roster can enter battle against the given enemy wave: few
/// enough templates in all, and every entry's stats and population within
/// the battle's machine range.
pub open spec fn battle_admissible(roster: Roster, enemies: Seq<BattleTemplate>) -> bool {
    &&& roster.entries@.len() + enemies.len() <= TEMPLATE_LIMIT
    &&& forall|i: int|
        0 <= i < roster.entries@.len() ==> {
            let e = #[trigger] roster.entries@[i];
            stats_within(e.stats, BATTLE_STAT_LIMIT as int) && e.population.0
                <= TEMPLATE_POPULATION_LIMIT
        }
}

/// Start a battle between the roster's creatures (the allies, templates
/// `0..roster.entries.len()` in order) and a generated enemy wave. Returns
/// `None` exactly when the machine-range checks fail: too many templates in
/// all, or a roster entry with a stat or population out of range.
pub fn try_start_battle(
    roster: &Roster,
    enemies: &Vec<BattleTemplate>,
    rng: &mut GameRng,
) -> (r: Option<Battle>)
    requires
        roster_wf(*roster),
        forall|k: int|
            0 <= k < enemies@.len() ==> {
                let e = #[trigger] enemies@[k];
                e.is_enemy && battle_ready(e.stats) && e.population.0 <= TEMPLATE_POPULATION_LIMIT
            },
    ensures
        r is Some <==> battle_admissible(*roster, enemies@),
        r is Some ==> {
            let b = r->Some_0;
            &&& battle_wf(b)
            &&& b.state == BattleState::Running
            &&& b.templates@.len() == roster.entries@.len() + enemies@.len()
            &&& forall|i: int|
                0 <= i < roster.entries@.len() ==> {
                    let t = #[trigger] b.templates@[i];
                    t.stats == roster.entries@[i].stats && t.population == roster.entries@[i].population
                        && !t.is_enemy
                }
            &&& forall|i: int|
                0 <= i < enemies@.len() ==> #[trigger] b.templates@[roster.entries@.len() + i]
                    == enemies@[i]
        },
{
    let n_allies = roster.entries.len();
    let n_enemies = enemies.len();
    if n_allies > TEMPLATE_LIMIT || n_enemies > TEMPLATE_LIMIT - n_allies {
        assert(!battle_admissible(*roster, enemies@));
        return None;
    }
    let mut templates: Vec<BattleTemplate> = Vec::new();
    let mut i: usize = 0;
    while i < n_allies
        invariant
            roster_wf(*roster),
            n_allies == roster.entries@.len(),
            i <= n_allies,
            templates@.len() == i,
            forall|k: int|
                0 <= k < i ==> {
                    let t = #[trigger] templates@[k];
                    let e = roster.entries@[k];
                    &&& t.stats == e.stats
                    &&& t.population == e.population
                    &&& !t.is_enemy
                    &&& battle_ready(t.stats)
                    &&& t.population.0 <= TEMPLATE_POPULATION_LIMIT
                },
        decreases n_allies - i,
    {
        let entry = roster.entries[i];
        if !stats_in_battle_range(&entry.stats) || entry.population.0 > TEMPLATE_POPULATION_LIMIT {
            proof {
                assert(entry == roster.entries@[i as int]);
                assert(!(stats_within(roster.entries@[i as int].stats, BATTLE_STAT_LIMIT as int)
                    && roster.entries@[i as int].population.0 <= TEMPLATE_POPULATION_LIMIT));
                assert(!battle_admissible(*roster, enemies@));
            }
            return None;
        }
        templates.push(
            BattleTemplate { stats: entry.stats, population: entry.population, is_enemy: false },
        );
        i = i + 1;
    }
    let mut j: usize = 0;
    while j < n_enemies
        invariant
            n_allies == roster.entries@.len(),
            n_enemies == enemies@.len(),
            j <= n_enemies,
            templates@.len() == n_allies + j,
            n_allies + n_enemies <= TEMPLATE_LIMIT,
            forall|k: int|
                0 <= k < enemies@.len() ==> {
                    let e = #[trigger] enemies@[k];
                    e.is_enemy && battle_ready(e.stats) && e.population.0
                        <= TEMPLATE_POPULATION_LIMIT
                },
            forall|k: int|
                0 <= k < n_allies ==> {
                    let t = #[trigger] templates@[k];
                    let e = roster.entries@[k];
                    &&& t.stats == e.stats
                    &&& t.population == e.population
                    &&& !t.is_enemy
                    &&& battle_ready(t.stats)
                    &&& t.population.0 <= TEMPLATE_POPULATION_LIMIT
                },
            forall|k: int|
                0 <= k < j ==> #[trigger] templates@[n_allies + k] == enemies@[k],
        decreases n_enemies - j,
    {
        templates.push(enemies[j]);
        j = j + 1;
    }
    proof {
        assert forall|t: int| 0 <= t < templates@.len() implies battle_ready(
            #[trigger] templates@[t].stats,
        ) && templates@[t].population.0 <= TEMPLATE_POPULATION_LIMIT by {
            if t >= n_allies {
                let k = t - n_allies;
                assert(templates@[n_allies + k] == enemies@[k]);
                assert(n_allies + k == t);
                assert(battle_ready(enemies@[k].stats));
            } else {
                assert(templates@[t].stats == roster.entries@[t].stats);
            }
        }
        assert forall|i: int| 0 <= i < roster.entries@.len() implies {
            let e = #[trigger] roster.entries@[i];
            stats_within(e.stats, BATTLE_STAT_LIMIT as int) && e.population.0
                <= TEMPLATE_POPULATION_LIMIT
        } by {
            assert(templates@[i].stats == roster.entries@[i].stats);
            assert(battle_ready(templates@[i].stats));
            assert(templates@[i].population == roster.entries@[i].population);
        }
        assert(battle_admissible(*roster, enemies@));
        assert(templates_ready(templates@));
    }
    let battle = Battle::new(templates, rng);
    Some(battle)
}

} // verus!
