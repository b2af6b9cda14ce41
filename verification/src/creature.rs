//! Creature stat blocks and the tiered stochastic stat generator.
//!
//! A stat is drawn by splitting its `[min, max]` range into ten equal-width
//! tiers, centering a normal distribution on the chosen tier's subrange
//! center (standard deviation a quarter of the subrange width), and clamping
//! the sample back into `[min, max]`. A stat where a lower number is better
//! (ability cooldown) is generated inverted: the clamped sample is reflected
//! across the range.
//!
//! The normal draws themselves come from outside the library: callers supply
//! standard-normal samples scaled by 1000 (see `NormalSource` below), and
//! every function here is an exact integer function of those samples.

use vstd::prelude::*;

use crate::clamp_spec;
use crate::clamp_i64;
use crate::rng::GameRng;
use crate::rng::NormalSource;

verus! {

/// Number of equal-width tiers a stat range is split into.
pub const NUM_TIERS: i64 = 10;

/// Fixed-point scale: 1000 fixed-point steps per unit.
pub const SCALE: i64 = 1000;

pub const MIN_MOVEMENT_SPEED: i64 = 100_000;

pub const MAX_MOVEMENT_SPEED: i64 = 500_000;

pub const MIN_HP: i64 = 50_000;

pub const MAX_HP: i64 = 250_000;

pub const MIN_STAMINA: i64 = 50_000;

pub const MAX_STAMINA: i64 = 250_000;

pub const MIN_STAMINA_REGEN: i64 = 1_000;

pub const MAX_STAMINA_REGEN: i64 = 25_000;

pub const MIN_PHYS_DMG: i64 = 5_000;

pub const MAX_PHYS_DMG: i64 = 20_000;

pub const MIN_PHYS_STAMINA_COST: i64 = 10_000;

pub const MAX_PHYS_STAMINA_COST: i64 = 50_000;

pub const MIN_PHYS_COOLDOWN: i64 = 500;

pub const MAX_PHYS_COOLDOWN: i64 = 2_000;

/// Largest magnitude accepted for a scaled standard-normal sample; a real
/// draw scaled by 1000 is a few thousand, so this is a machine-limit guard
/// only.
pub const NORMAL_SAMPLE_LIMIT: i64 = 1_000_000_000;

/// The subrange width of one tier.
pub open spec fn tier_width(min: int, max: int) -> int {
    (max - min) / (NUM_TIERS as int)
}

/// The center of the given tier's subrange: `min + (tier - 1/2) * width`.
pub open spec fn tier_center(min: int, max: int, tier: int) -> int {
    min + (2 * tier - 1) * tier_width(min, max) / 2
}

/// The standard deviation used for a stat draw: a quarter subrange.
pub open spec fn tier_std_dev(min: int, max: int) -> int {
    tier_width(min, max) / 4
}

/// Offset a center by a scaled standard-normal sample `z`: the magnitude of
/// the offset is `|z| * std_dev / 1000`, rounded toward zero.
pub open spec fn normal_shift(center: int, std_dev: int, z: int) -> int {
    if z >= 0 {
        center + z * std_dev / (SCALE as int)
    } else {
        center - (-z) * std_dev / (SCALE as int)
    }
}

/// The generated value of one stat: the tier-centered sample clamped into
/// `[min, max]`, reflected across the range when `inverse` is set.
pub open spec fn stat_value_spec(min: int, max: int, tier: int, z: int, inverse: bool) -> int {
    let raw = normal_shift(tier_center(min, max, tier), tier_std_dev(min, max), z);
    let clamped = clamp_spec(raw, min, max);
    if inverse {
        max - (clamped - min)
    } else {
        clamped
    }
}

/// Generate one bounded stat from a tier and a scaled standard-normal
/// sample `z`. The result is always within `[min, max]`; with `inverse`
/// set a higher tier tends toward the low end of the range.
pub fn generate_stat_value(min: i64, max: i64, tier: u8, z: i64, inverse: bool) -> (r: i64)
    requires
        0 <= min < max <= 1_000_000_000,
        1 <= tier <= 10,
        -NORMAL_SAMPLE_LIMIT <= z <= NORMAL_SAMPLE_LIMIT,
    ensures
        r == stat_value_spec(min as int, max as int, tier as int, z as int, inverse),
        min <= r <= max,
{
    let width = (max - min) / NUM_TIERS;
    assert(0 <= width <= 100_000_000);
    let tier_factor = 2 * (tier as i64) - 1;
    assert(1 <= tier_factor <= 19);
    assert(tier_factor * width <= 1_900_000_000 && 0 <= tier_factor * width) by (nonlinear_arith)
        requires
            1 <= tier_factor <= 19,
            0 <= width <= 100_000_000,
    ;
    let center = min + tier_factor * width / 2;
    let std_dev = width / 4;
    let z_mag = if z >= 0 { z } else { -z };
    assert(0 <= z_mag * std_dev <= 25_000_000_000_000_000) by (nonlinear_arith)
        requires
            0 <= z_mag <= 1_000_000_000,
            0 <= std_dev <= 25_000_000,
    ;
    let offset = z_mag * std_dev / SCALE;
    let raw = if z >= 0 { center + offset } else { center - offset };
    let clamped = clamp_i64(raw, min, max);
    if inverse {
        max - (clamped - min)
    } else {
        clamped
    }
}

/// Inverse generation is a reflection: for the same underlying draw, the
/// inverted stat is the plain stat reflected across `[min, max]`.
pub proof fn lemma_stat_value_inverse(min: int, max: int, tier: int, z: int)
    ensures
        stat_value_spec(min, max, tier, z, true) == max - (stat_value_spec(
            min,
            max,
            tier,
            z,
            false,
        ) - min),
{
}

/// The three fixed ability slots every creature carries, in order.
#[derive(Clone, Copy, Debug, PartialEq, Eq, Structural)]
pub enum AbilityKind {
    Bite,
    Punch,
    Kick,
}

impl AbilityKind {
    /// The display name of the slot.
    pub fn label(&self) -> (r: String) {
        match self {
            AbilityKind::Bite => "Bite".to_string(),
            AbilityKind::Punch => "Punch".to_string(),
            AbilityKind::Kick => "Kick".to_string(),
        }
    }
}

/// One melee ability: its stamina price, the damage it deals, and the
/// cooldown it imposes on its user. Fixed-point thousandths; the cooldown
/// is in milliseconds.
#[derive(Clone, Copy, Debug, PartialEq, Eq, Structural)]
pub struct PhysicalAbility {
    pub name: AbilityKind,
    pub stamina_cost: i64,
    pub damage: i64,
    pub global_cooldown: i64,
}

/// A ceiling far above every declared stat maximum. Mutation floors a stat
/// at its minimum but deliberately does not clamp it at its maximum, so a
/// stat can drift upward across many combinations; this ceiling bounds the
/// drift only so that the fixed-point arithmetic provably stays in range.
pub const STAT_CEILING: i64 = 1_000_000_000_000;

pub open spec fn ability_wf(a: PhysicalAbility) -> bool {
    &&& MIN_PHYS_STAMINA_COST <= a.stamina_cost <= STAT_CEILING
    &&& MIN_PHYS_DMG <= a.damage <= STAT_CEILING
    &&& MIN_PHYS_COOLDOWN <= a.global_cooldown <= STAT_CEILING
}

/// A creature's stat block. `stamina` is the maximum (current stamina at
/// generation equals the maximum); `generation` is a monotonically
/// increasing lineage counter used only to order roster display.
#[derive(Clone, Copy, Debug)]
pub struct CreatureStats {
    pub movement_speed: i64,
    pub hp: i64,
    pub stamina: i64,
    pub stamina_regen: i64,
    pub generation: u64,
    pub physical_abilities: [PhysicalAbility; 3],
}

/// The structural invariant of a stat block: exactly three abilities, and
/// every numeric stat at or above its declared minimum (generation and
/// combination also stay below the declared maximum, but mutation may
/// exceed it — only the floor is invariant).
pub open spec fn stats_wf(s: CreatureStats) -> bool {
    &&& MIN_MOVEMENT_SPEED <= s.movement_speed <= STAT_CEILING
    &&& MIN_HP <= s.hp <= STAT_CEILING
    &&& MIN_STAMINA <= s.stamina <= STAT_CEILING
    &&& MIN_STAMINA_REGEN <= s.stamina_regen <= STAT_CEILING
    &&& s.physical_abilities@.len() == 3
    &&& forall|i: int| 0 <= i < 3 ==> ability_wf(#[trigger] s.physical_abilities@[i])
    &&& s.physical_abilities@[0].name == AbilityKind::Bite
    &&& s.physical_abilities@[1].name == AbilityKind::Punch
    &&& s.physical_abilities@[2].name == AbilityKind::Kick
}

/// Every numeric stat of `s` is at most `cap`.
pub open spec fn stats_within(s: CreatureStats, cap: int) -> bool {
    &&& s.movement_speed <= cap
    &&& s.hp <= cap
    &&& s.stamina <= cap
    &&& s.stamina_regen <= cap
    &&& forall|i: int|
        0 <= i < s.physical_abilities@.len() ==> {
            let a = #[trigger] s.physical_abilities@[i];
            a.stamina_cost <= cap && a.damage <= cap && a.global_cooldown <= cap
        }
}

/// An ability generated from tier `tier` and the three draws `zc, zd, zg`
/// (cost, damage, cooldown; the cooldown inverted so that a higher tier
/// means a shorter cooldown).
pub open spec fn ability_match(a: PhysicalAbility, name: AbilityKind, tier: int, zc: int, zd: int, zg: int) -> bool {
    &&& a.name == name
    &&& a.stamina_cost == stat_value_spec(
        MIN_PHYS_STAMINA_COST as int,
        MAX_PHYS_STAMINA_COST as int,
        tier,
        zc,
        false,
    )
    &&& a.damage == stat_value_spec(MIN_PHYS_DMG as int, MAX_PHYS_DMG as int, tier, zd, false)
    &&& a.global_cooldown == stat_value_spec(
        MIN_PHYS_COOLDOWN as int,
        MAX_PHYS_COOLDOWN as int,
        tier,
        zg,
        true,
    )
}

/// A stat block generated from tier `tier` and the thirteen draws `zs`, in
/// the fixed order: movement speed, hp, stamina, stamina regen, then for
/// each ability slot its cost, damage and cooldown.
pub open spec fn stats_match(s: CreatureStats, tier: int, zs: Seq<i64>, generation: u64) -> bool {
    &&& s.movement_speed == stat_value_spec(
        MIN_MOVEMENT_SPEED as int,
        MAX_MOVEMENT_SPEED as int,
        tier,
        zs[0] as int,
        false,
    )
    &&& s.hp == stat_value_spec(MIN_HP as int, MAX_HP as int, tier, zs[1] as int, false)
    &&& s.stamina == stat_value_spec(
        MIN_STAMINA as int,
        MAX_STAMINA as int,
        tier,
        zs[2] as int,
        false,
    )
    &&& s.stamina_regen == stat_value_spec(
        MIN_STAMINA_REGEN as int,
        MAX_STAMINA_REGEN as int,
        tier,
        zs[3] as int,
        false,
    )
    &&& s.generation == generation
    &&& s.physical_abilities@.len() == 3
    &&& ability_match(
        s.physical_abilities@[0],
        AbilityKind::Bite,
        tier,
        zs[4] as int,
        zs[5] as int,
        zs[6] as int,
    )
    &&& ability_match(
        s.physical_abilities@[1],
        AbilityKind::Punch,
        tier,
        zs[7] as int,
        zs[8] as int,
        zs[9] as int,
    )
    &&& ability_match(
        s.physical_abilities@[2],
        AbilityKind::Kick,
        tier,
        zs[10] as int,
        zs[11] as int,
        zs[12] as int,
    )
}

/// Generate one ability for slot `name` from three normal draws.
pub fn generate_physical_ability(name: AbilityKind, tier: u8, ns: &mut NormalSource) -> (r:
    PhysicalAbility)
    requires
        1 <= tier <= 10,
        old(ns).wf(),
        old(ns).pending().len() >= 3,
    ensures
        final(ns).wf(),
        final(ns).pending() == old(ns).pending().skip(3),
        ability_match(
            r,
            name,
            tier as int,
            old(ns).pending()[0] as int,
            old(ns).pending()[1] as int,
            old(ns).pending()[2] as int,
        ),
        ability_wf(r),
{
    let zc = ns.take();
    let zd = ns.take();
    let zg = ns.take();
    let r = PhysicalAbility {
        name,
        stamina_cost: generate_stat_value(MIN_PHYS_STAMINA_COST, MAX_PHYS_STAMINA_COST, tier, zc, false),
        damage: generate_stat_value(MIN_PHYS_DMG, MAX_PHYS_DMG, tier, zd, false),
        global_cooldown: generate_stat_value(MIN_PHYS_COOLDOWN, MAX_PHYS_COOLDOWN, tier, zg, true),
    };
    assert(final(ns).pending() =~= old(ns).pending().skip(3));
    r
}

/// Number of normal draws one full creature generation consumes.
pub const CREATURE_DRAWS: usize = 13;

pub const MIN_POPULATION: i64 = 5;

pub const MAX_POPULATION: i64 = 15;

/// Largest accepted population multiplier (scaled by 1000, so 1000 times).
pub const POP_MULT_LIMIT: i64 = 1_000_000;

/// The population a uniform draw `u` yields under multiplier `mult`
/// (fixed-point thousandths), truncated to a whole count.
pub open spec fn scaled_population(u: int, mult: int) -> int {
    u * mult / (SCALE as int)
}

/// Generate a full creature: one stat draw per scalar stat and three per
/// ability slot, all driven by one tier, plus an independent uniform draw
/// for the population count in `[MIN_POPULATION, MAX_POPULATION]`, scaled
/// by `pop_multiplier` (fixed-point thousandths) and truncated.
///
/// Returns the stat block and the population; `None` exactly when fewer
/// than `CREATURE_DRAWS` normal samples are left, with nothing consumed.
pub fn generate_creature(
    rng: &mut GameRng,
    ns: &mut NormalSource,
    tier: u8,
    generation: u64,
    pop_multiplier: i64,
) -> (r: Option<(CreatureStats, u32)>)
    requires
        1 <= tier <= 10,
        0 <= pop_multiplier <= POP_MULT_LIMIT,
        old(ns).wf(),
    ensures
        final(ns).wf(),
        r is None <==> old(ns).pending().len() < CREATURE_DRAWS,
        r is None ==> final(ns).pending() == old(ns).pending(),
        r is Some ==> {
            let (stats, pop) = r->Some_0;
            &&& final(ns).pending() == old(ns).pending().skip(CREATURE_DRAWS as int)
            &&& stats_match(stats, tier as int, old(ns).pending(), generation)
            &&& stats_wf(stats)
            &&& stats_within(stats, 1_000_000_000)
            &&& exists|u: int|
                MIN_POPULATION <= u <= MAX_POPULATION && pop == #[trigger] scaled_population(
                    u,
                    pop_multiplier as int,
                )
            &&& pop <= 15_000
        },
{
    if ns.remaining() < CREATURE_DRAWS {
        return None;
    }
    let z_ms = ns.take();
    let z_hp = ns.take();
    let z_st = ns.take();
    let z_rg = ns.take();
    let stats = CreatureStats {
        movement_speed: generate_stat_value(MIN_MOVEMENT_SPEED, MAX_MOVEMENT_SPEED, tier, z_ms, false),
        hp: generate_stat_value(MIN_HP, MAX_HP, tier, z_hp, false),
        stamina: generate_stat_value(MIN_STAMINA, MAX_STAMINA, tier, z_st, false),
        stamina_regen: generate_stat_value(MIN_STAMINA_REGEN, MAX_STAMINA_REGEN, tier, z_rg, false),
        generation,
        physical_abilities: {
            let bite = generate_physical_ability(AbilityKind::Bite, tier, ns);
            let punch = generate_physical_ability(AbilityKind::Punch, tier, ns);
            let kick = generate_physical_ability(AbilityKind::Kick, tier, ns);
            [bite, punch, kick]
        },
    };
    let draw = rng.gen_range_i64(MIN_POPULATION, MAX_POPULATION);
    assert(0 <= draw * pop_multiplier <= 15_000_000) by (nonlinear_arith)
        requires
            5 <= draw <= 15,
            0 <= pop_multiplier <= 1_000_000,
    ;
    let pop_i = draw * pop_multiplier / SCALE;
    let pop = pop_i as u32;
    assert(pop as int == scaled_population(draw as int, pop_multiplier as int));
    assert(final(ns).pending() =~= old(ns).pending().skip(CREATURE_DRAWS as int));
    Some((stats, pop))
}

/// Denominator of the per-field mutation chance: each field mutates with
/// probability one in four.
pub const MUTATION_CHANCE_IN: i64 = 4;

/// The largest mutation step of a stat bounded by `[min, max]`: one and a
/// half tier widths, `1.5 * (max - min) / 10`.
pub open spec fn delta_max(min: int, max: int) -> int {
    3 * (max - min) / 20
}

/// The value of a stat after one mutation step `delta`: floored at the
/// stat's declared minimum (never clamped at its maximum — an upward step
/// past the maximum sticks), capped only at the arithmetic ceiling.
pub open spec fn mutation_step(value: int, lo: int, delta: int) -> int {
    clamp_spec(value + delta, lo, STAT_CEILING as int)
}

/// How a mutated field relates to its old value: still at or above the
/// declared minimum, and within one largest mutation step of the old value.
pub open spec fn mutated_field(oldv: int, newv: int, lo: int, dmax: int) -> bool {
    &&& lo <= newv <= STAT_CEILING
    &&& oldv - dmax <= newv <= oldv + dmax
}

/// An ability after mutation: same slot, each numeric field a mutated
/// field of the old one.
pub open spec fn ability_mutated(o: PhysicalAbility, n: PhysicalAbility) -> bool {
    &&& n.name == o.name
    &&& mutated_field(
        o.stamina_cost as int,
        n.stamina_cost as int,
        MIN_PHYS_STAMINA_COST as int,
        delta_max(MIN_PHYS_STAMINA_COST as int, MAX_PHYS_STAMINA_COST as int),
    )
    &&& mutated_field(
        o.damage as int,
        n.damage as int,
        MIN_PHYS_DMG as int,
        delta_max(MIN_PHYS_DMG as int, MAX_PHYS_DMG as int),
    )
    &&& mutated_field(
        o.global_cooldown as int,
        n.global_cooldown as int,
        MIN_PHYS_COOLDOWN as int,
        delta_max(MIN_PHYS_COOLDOWN as int, MAX_PHYS_COOLDOWN as int),
    )
}

/// A whole stat block after mutation: generation and slot names unchanged,
/// every numeric field a mutated field of the old one.
pub open spec fn stats_mutated(o: CreatureStats, n: CreatureStats) -> bool {
    &&& n.generation == o.generation
    &&& mutated_field(
        o.movement_speed as int,
        n.movement_speed as int,
        MIN_MOVEMENT_SPEED as int,
        delta_max(MIN_MOVEMENT_SPEED as int, MAX_MOVEMENT_SPEED as int),
    )
    &&& mutated_field(o.hp as int, n.hp as int, MIN_HP as int, delta_max(MIN_HP as int, MAX_HP as int))
    &&& mutated_field(
        o.stamina as int,
        n.stamina as int,
        MIN_STAMINA as int,
        delta_max(MIN_STAMINA as int, MAX_STAMINA as int),
    )
    &&& mutated_field(
        o.stamina_regen as int,
        n.stamina_regen as int,
        MIN_STAMINA_REGEN as int,
        delta_max(MIN_STAMINA_REGEN as int, MAX_STAMINA_REGEN as int),
    )
    &&& n.physical_abilities@.len() == o.physical_abilities@.len()
    &&& forall|i: int|
        0 <= i < o.physical_abilities@.len() ==> ability_mutated(
            #[trigger] o.physical_abilities@[i],
            n.physical_abilities@[i],
        )
}

/// Apply one mutation step to a single field value.
pub fn apply_mutation(value: i64, lo: i64, delta: i64) -> (r: i64)
    requires
        0 <= lo <= value <= STAT_CEILING,
        -200_000_000 <= delta <= 200_000_000,
    ensures
        r == mutation_step(value as int, lo as int, delta as int),
{
    clamp_i64(value + delta, lo, STAT_CEILING)
}

/// With probability one in four, move the field by a uniform step of at
/// most one and a half tier widths, floored at `min`.
fn mutate_field(value: i64, min: i64, max: i64, rng: &mut GameRng) -> (r: i64)
    requires
        0 <= min < max <= 1_000_000_000,
        min <= value <= STAT_CEILING,
    ensures
        mutated_field(value as int, r as int, min as int, delta_max(min as int, max as int)),
{
    let dmax = 3 * (max - min) / 20;
    assert(dmax == delta_max(min as int, max as int));
    let roll = rng.gen_range_i64(0, MUTATION_CHANCE_IN - 1);
    if roll == 0 {
        let delta = rng.gen_range_i64(-dmax, dmax);
        apply_mutation(value, min, delta)
    } else {
        value
    }
}

/// Mutate one ability: each numeric field independently, the slot kept.
fn mutate_ability(a: PhysicalAbility, rng: &mut GameRng) -> (r: PhysicalAbility)
    requires
        ability_wf(a),
    ensures
        ability_wf(r),
        ability_mutated(a, r),
{
    PhysicalAbility {
        name: a.name,
        stamina_cost: mutate_field(a.stamina_cost, MIN_PHYS_STAMINA_COST, MAX_PHYS_STAMINA_COST, rng),
        damage: mutate_field(a.damage, MIN_PHYS_DMG, MAX_PHYS_DMG, rng),
        global_cooldown: mutate_field(a.global_cooldown, MIN_PHYS_COOLDOWN, MAX_PHYS_COOLDOWN, rng),
    }
}

/// Inherit one ability slot whole from one parent or the other, by an
/// unbiased coin flip.
fn inherit_ability(a: PhysicalAbility, b: PhysicalAbility, rng: &mut GameRng) -> (r: PhysicalAbility)
    ensures
        r == a || r == b,
{
    if rng.gen_range_i64(0, 1) == 1 {
        a
    } else {
        b
    }
}

impl CreatureStats {
    /// Mutate every numeric field independently: with probability one in
    /// four per field, add a uniform step of at most one and a half tier
    /// widths, floored at the field's declared minimum but not clamped at
    /// its maximum.
    pub fn mutate(&mut self, rng: &mut GameRng)
        requires
            stats_wf(*old(self)),
        ensures
            stats_wf(*final(self)),
            stats_mutated(*old(self), *final(self)),
    {
        self.movement_speed = mutate_field(self.movement_speed, MIN_MOVEMENT_SPEED, MAX_MOVEMENT_SPEED, rng);
        self.hp = mutate_field(self.hp, MIN_HP, MAX_HP, rng);
        self.stamina = mutate_field(self.stamina, MIN_STAMINA, MAX_STAMINA, rng);
        self.stamina_regen = mutate_field(self.stamina_regen, MIN_STAMINA_REGEN, MAX_STAMINA_REGEN, rng);
        let m0 = mutate_ability(self.physical_abilities[0], rng);
        let m1 = mutate_ability(self.physical_abilities[1], rng);
        let m2 = mutate_ability(self.physical_abilities[2], rng);
        self.physical_abilities = [m0, m1, m2];
    }
}

/// How a combined (child) stat block relates to its parents: each scalar
/// field, and each ability slot as a whole, is inherited from one parent or
/// the other and then mutated.
pub open spec fn stats_combined(child: CreatureStats, p1: CreatureStats, p2: CreatureStats) -> bool {
    &&& combined_scalar(
        child.movement_speed as int,
        p1.movement_speed as int,
        p2.movement_speed as int,
        MIN_MOVEMENT_SPEED as int,
        delta_max(MIN_MOVEMENT_SPEED as int, MAX_MOVEMENT_SPEED as int),
    )
    &&& combined_scalar(
        child.hp as int,
        p1.hp as int,
        p2.hp as int,
        MIN_HP as int,
        delta_max(MIN_HP as int, MAX_HP as int),
    )
    &&& combined_scalar(
        child.stamina as int,
        p1.stamina as int,
        p2.stamina as int,
        MIN_STAMINA as int,
        delta_max(MIN_STAMINA as int, MAX_STAMINA as int),
    )
    &&& combined_scalar(
        child.stamina_regen as int,
        p1.stamina_regen as int,
        p2.stamina_regen as int,
        MIN_STAMINA_REGEN as int,
        delta_max(MIN_STAMINA_REGEN as int, MAX_STAMINA_REGEN as int),
    )
    &&& child.physical_abilities@.len() == 3
    &&& forall|i: int|
        0 <= i < 3 ==> ability_mutated(#[trigger] p1.physical_abilities@[i], child.physical_abilities@[i])
            || ability_mutated(#[trigger] p2.physical_abilities@[i], child.physical_abilities@[i])
}

/// A child scalar field: a mutated field of one parent's value or the
/// other's.
pub open spec fn combined_scalar(n: int, a: int, b: int, lo: int, dmax: int) -> bool {
    mutated_field(a, n, lo, dmax) || mutated_field(b, n, lo, dmax)
}

/// Merge two parent stat blocks into a child: every scalar stat and every
/// ability slot (as a whole) is inherited from a parent chosen by an
/// unbiased coin flip, the child is stamped with generation id
/// `generation`, and the result is mutated.
pub fn combine_stats(
    p1: &CreatureStats,
    p2: &CreatureStats,
    generation: u64,
    rng: &mut GameRng,
) -> (r: CreatureStats)
    requires
        stats_wf(*p1),
        stats_wf(*p2),
    ensures
        stats_wf(r),
        r.generation == generation,
        stats_combined(r, *p1, *p2),
{
    let a0 = inherit_ability(p1.physical_abilities[0], p2.physical_abilities[0], rng);
    let a1 = inherit_ability(p1.physical_abilities[1], p2.physical_abilities[1], rng);
    let a2 = inherit_ability(p1.physical_abilities[2], p2.physical_abilities[2], rng);
    let abilities = [a0, a1, a2];
    let mut child = CreatureStats {
        movement_speed: if rng.gen_range_i64(0, 1) == 1 {
            p1.movement_speed
        } else {
            p2.movement_speed
        },
        hp: if rng.gen_range_i64(0, 1) == 1 {
            p1.hp
        } else {
            p2.hp
        },
        stamina: if rng.gen_range_i64(0, 1) == 1 {
            p1.stamina
        } else {
            p2.stamina
        },
        stamina_regen: if rng.gen_range_i64(0, 1) == 1 {
            p1.stamina_regen
        } else {
            p2.stamina_regen
        },
        generation,
        physical_abilities: abilities,
    };
    child.mutate(rng);
    child
}

} // verus!
