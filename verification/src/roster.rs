//! The persistent creature roster: stat blocks with population counts and
//! the global generation counter, plus the operations that reshape it —
//! genetic combination of two entries, removal of emptied entries, and the
//! population growth that follows a won round.

use vstd::prelude::*;

use crate::creature::CreatureStats;
use crate::creature::combine_stats;
use crate::creature::generate_creature;
use crate::creature::scaled_population;
use crate::creature::stats_combined;
use crate::creature::stats_match;
use crate::creature::stats_wf;
use crate::creature::CREATURE_DRAWS;
use crate::rng::GameRng;
use crate::rng::NormalSource;
use crate::rounds::Round;
use crate::GameEvent;

verus! {

/// How many individuals a roster entry represents; zero marks the entry
/// for removal.
#[derive(Clone, Copy, Debug, PartialEq, Eq, Structural)]
pub struct PopulationSize(pub u32);

/// The global lineage counter: the next generation id to hand out. Ids are
/// unique and increasing, never reused.
#[derive(Clone, Copy, Debug, PartialEq, Eq, Structural)]
pub struct CreatureGeneration(pub u64);

/// One roster entry: a stat block and the population it represents.
#[derive(Clone, Copy, Debug)]
pub struct RosterEntry {
    pub stats: CreatureStats,
    pub population: PopulationSize,
}

/// The player's creature collection.
#[derive(Debug)]
pub struct Roster {
    pub entries: Vec<RosterEntry>,
    pub generation: CreatureGeneration,
}

/// Roster invariant: every entry is a well-formed stat block whose
/// generation id was handed out before the counter's current value.
pub open spec fn roster_wf(r: Roster) -> bool {
    forall|i: int|
        0 <= i < r.entries@.len() ==> {
            let e = #[trigger] r.entries@[i];
            stats_wf(e.stats) && e.stats.generation < r.generation.0
        }
}

impl Roster {
    /// An empty roster with the counter at zero.
    pub fn new() -> (r: Roster)
        ensures
            roster_wf(r),
            r.entries@.len() == 0,
            r.generation.0 == 0,
    {
        Roster { entries: Vec::new(), generation: CreatureGeneration(0) }
    }

    /// Add a creature, stamping it with the next generation id.
    pub fn add(&mut self, stats: CreatureStats, population: u32)
        requires
            roster_wf(*old(self)),
            stats_wf(stats),
            stats.generation == old(self).generation.0,
            old(self).generation.0 < u64::MAX,
        ensures
            roster_wf(*final(self)),
            final(self).entries@ == old(self).entries@.push(
                RosterEntry { stats, population: PopulationSize(population) },
            ),
            final(self).generation.0 == old(self).generation.0 + 1,
    {
        self.entries.push(RosterEntry { stats, population: PopulationSize(population) });
        self.generation = CreatureGeneration(self.generation.0 + 1);
    }
}

/// Combine the entries at `first` and `second`: each parent gives up
/// `amount` of its population, and a child whose stats are inherited
/// per-trait and mutated joins the roster with population `2 * amount`
/// (children are born in pairs) under a fresh, strictly larger generation
/// id.
///
/// Declined — `false`, with no state changed — exactly when either parent's
/// population is below `amount`.
pub fn combine_creatures(
    roster: &mut Roster,
    first: usize,
    second: usize,
    amount: u32,
    rng: &mut GameRng,
    events: &mut Vec<GameEvent>,
) -> (r: bool)
    requires
        roster_wf(*old(roster)),
        first < old(roster).entries@.len(),
        second < old(roster).entries@.len(),
        first != second,
        amount <= u32::MAX / 2,
        old(roster).generation.0 < u64::MAX,
    ensures
        roster_wf(*final(roster)),
        r <==> (old(roster).entries@[first as int].population.0 >= amount && old(
            roster,
        ).entries@[second as int].population.0 >= amount),
        !r ==> *final(roster) == *old(roster) && *final(events) == *old(events),
        r ==> {
            let child = final(roster).entries@.last();
            &&& final(roster).entries@.len() == old(roster).entries@.len() + 1
            &&& final(roster).entries@[first as int].population.0 == old(
                roster,
            ).entries@[first as int].population.0 - amount
            &&& final(roster).entries@[second as int].population.0 == old(
                roster,
            ).entries@[second as int].population.0 - amount
            &&& final(roster).entries@[first as int].stats == old(
                roster,
            ).entries@[first as int].stats
            &&& final(roster).entries@[second as int].stats == old(
                roster,
            ).entries@[second as int].stats
            &&& forall|k: int|
                0 <= k < old(roster).entries@.len() && k != first && k != second
                    ==> final(roster).entries@[k] == #[trigger] old(roster).entries@[k]
            &&& child.population.0 == 2 * amount
            &&& child.stats.physical_abilities@.len() == 3
            &&& child.stats.generation == old(roster).generation.0
            &&& child.stats.generation > old(roster).entries@[first as int].stats.generation
            &&& child.stats.generation > old(roster).entries@[second as int].stats.generation
            &&& stats_combined(
                child.stats,
                old(roster).entries@[first as int].stats,
                old(roster).entries@[second as int].stats,
            )
            &&& final(roster).generation.0 == old(roster).generation.0 + 1
            &&& final(events)@ == old(events)@.push(GameEvent::CreatureCombined).push(
                GameEvent::PopulationChanged,
            )
        },
{
    let pop1 = entry_population(roster, first);
    let pop2 = entry_population(roster, second);
    if pop1 < amount || pop2 < amount {
        return false;
    }
    let child_stats = combine_stats(
        &roster.entries[first].stats,
        &roster.entries[second].stats,
        roster.generation.0,
        rng,
    );
    set_population(roster, first, pop1 - amount);
    set_population(roster, second, pop2 - amount);
    roster.entries.push(
        RosterEntry { stats: child_stats, population: PopulationSize(2 * amount) },
    );
    roster.generation = CreatureGeneration(roster.generation.0 + 1);
    events.push(GameEvent::CreatureCombined);
    events.push(GameEvent::PopulationChanged);
    true
}

/// Read an entry's population.
fn entry_population(roster: &Roster, i: usize) -> (r: u32)
    requires
        i < roster.entries@.len(),
    ensures
        r == roster.entries@[i as int].population.0,
{
    roster.entries[i].population.0
}

/// Overwrite an entry's population, leaving its stats alone.
fn set_population(roster: &mut Roster, i: usize, population: u32)
    requires
        i < old(roster).entries@.len(),
    ensures
        final(roster).entries@ == old(roster).entries@.update(
            i as int,
            RosterEntry {
                stats: old(roster).entries@[i as int].stats,
                population: PopulationSize(population),
            },
        ),
        final(roster).generation == old(roster).generation,
{
    let entry = &mut roster.entries[i];
    entry.population = PopulationSize(population);
}

/// The predicate that keeps a roster entry alive: some population left.
pub open spec fn has_population(e: RosterEntry) -> bool {
    e.population.0 > 0
}

/// The entries that survive a cleanup pass: those with population left, in
/// their order.
pub open spec fn retained_entries(s: Seq<RosterEntry>) -> Seq<RosterEntry> {
    s.filter(|e: RosterEntry| has_population(e))
}

/// Remove every entry whose population has reached zero, keeping the order
/// of the rest.
pub fn delete_empty_creatures(roster: &mut Roster)
    requires
        roster_wf(*old(roster)),
    ensures
        roster_wf(*final(roster)),
        final(roster).entries@ == retained_entries(old(roster).entries@),
        final(roster).generation == old(roster).generation,
{
    let mut kept: Vec<RosterEntry> = Vec::new();
    let mut k: usize = 0;
    let len = roster.entries.len();
    while k < len
        invariant
            roster_wf(*old(roster)),
            *roster == *old(roster),
            len == roster.entries@.len(),
            k <= len,
            kept@ == retained_entries(roster.entries@.take(k as int)),
            forall|i: int|
                0 <= i < kept@.len() ==> stats_wf(#[trigger] kept@[i].stats)
                    && kept@[i].stats.generation < roster.generation.0,
        decreases len - k,
    {
        let ghost prefix = roster.entries@.take(k as int);
        let ghost next_prefix = roster.entries@.take(k as int + 1);
        proof {
            reveal_with_fuel(Seq::<_>::filter, 2);
            assert(next_prefix.drop_last() =~= prefix);
            assert(next_prefix.last() == roster.entries@[k as int]);
            assert(retained_entries(next_prefix) == if has_population(next_prefix.last()) {
                retained_entries(prefix).push(next_prefix.last())
            } else {
                retained_entries(prefix)
            });
        }
        if roster.entries[k].population.0 > 0 {
            let entry = roster.entries[k];
            kept.push(entry);
        }
        k = k + 1;
    }
    assert(roster.entries@.take(len as int) =~= roster.entries@);
    roster.entries = kept;
}

/// The population an entry holds after a won round: half again as much,
/// truncated, saturating at the counter's ceiling.
pub open spec fn grown_population(p: int) -> int {
    if 3 * p / 2 > u32::MAX {
        u32::MAX as int
    } else {
        3 * p / 2
    }
}

/// After a won round the roster breeds: every entry's population grows by
/// half, truncated.
pub fn breed_creatures(roster: &mut Roster)
    requires
        roster_wf(*old(roster)),
    ensures
        roster_wf(*final(roster)),
        final(roster).entries@.len() == old(roster).entries@.len(),
        forall|i: int|
            0 <= i < old(roster).entries@.len() ==> {
                let e = #[trigger] final(roster).entries@[i];
                &&& e.stats == old(roster).entries@[i].stats
                &&& e.population.0 == grown_population(old(roster).entries@[i].population.0 as int)
            },
        final(roster).generation == old(roster).generation,
{
    let len = roster.entries.len();
    let mut k: usize = 0;
    while k < len
        invariant
            roster_wf(*old(roster)),
            len == roster.entries@.len(),
            k <= len,
            roster.generation == old(roster).generation,
            forall|i: int|
                k <= i < len ==> roster.entries@[i] == #[trigger] old(roster).entries@[i],
            forall|i: int|
                0 <= i < k ==> {
                    let e = #[trigger] roster.entries@[i];
                    &&& e.stats == old(roster).entries@[i].stats
                    &&& e.population.0 == grown_population(
                        old(roster).entries@[i].population.0 as int,
                    )
                },
        decreases len - k,
    {
        let p = roster.entries[k].population.0;
        let grown64 = p as u64 * 3 / 2;
        let grown = if grown64 > u32::MAX as u64 {
            u32::MAX
        } else {
            grown64 as u32
        };
        set_population(roster, k, grown);
        k = k + 1;
    }
}

/// Population multiplier for freshly granted creatures (1.2 times,
/// fixed-point thousandths).
pub const GRANT_POP_MULT: i64 = 1_200;

/// How many fresh creatures the player is granted on entering the manager
/// in the given round: one extra in the very first round, and one in every
/// odd round.
pub open spec fn granted_creatures(round: int) -> int {
    (if round == 1 {
        1int
    } else {
        0int
    }) + (if round % 2 == 1 {
        1int
    } else {
        0int
    })
}

/// The announcements a grant emits: one creature-created event per fresh
/// creature, carrying its generation id, in grant order.
pub open spec fn created_events(first_generation: u64, count: int) -> Seq<GameEvent> {
    Seq::new(
        count as nat,
        |i: int| GameEvent::CreatureCreated { generation: (first_generation + i) as u64 },
    )
}

/// A roster entry freshly granted: generated at some tier from one to
/// three, from the given thirteen draws, with a population of five to
/// fifteen scaled by the grant multiplier.
pub open spec fn granted_entry(e: RosterEntry, zs: Seq<i64>, generation: u64) -> bool {
    &&& exists|tier: int|
        1 <= tier <= 3 && #[trigger] stats_match(e.stats, tier, zs, generation)
    &&& exists|u: int|
        5 <= u <= 15 && e.population.0 == #[trigger] scaled_population(u, GRANT_POP_MULT as int)
}

/// Grant the round's fresh creatures: each is generated at a uniformly
/// drawn tier from one to three and joins the roster under the next
/// generation id. Declined — `false`, with nothing changed — exactly when
/// the sample store cannot cover the whole grant.
pub fn generate_new_creature(
    roster: &mut Roster,
    round: &Round,
    rng: &mut GameRng,
    ns: &mut NormalSource,
    events: &mut Vec<GameEvent>,
) -> (r: bool)
    requires
        roster_wf(*old(roster)),
        old(roster).generation.0 <= u64::MAX - 2,
        old(ns).wf(),
    ensures
        roster_wf(*final(roster)),
        final(ns).wf(),
        r <==> old(ns).pending().len() >= (CREATURE_DRAWS as int) * granted_creatures(
            round.0 as int,
        ),
        !r ==> *final(roster) == *old(roster) && final(ns).pending() == old(ns).pending()
            && *final(events) == *old(events),
        r ==> {
            let count = granted_creatures(round.0 as int);
            &&& final(roster).entries@.len() == old(roster).entries@.len() + count
            &&& forall|k: int|
                0 <= k < old(roster).entries@.len() ==> #[trigger] final(roster).entries@[k] == old(
                    roster,
                ).entries@[k]
            &&& forall|j: int|
                0 <= j < count ==> granted_entry(
                    #[trigger] final(roster).entries@[old(roster).entries@.len() + j],
                    old(ns).pending().subrange(
                        (CREATURE_DRAWS as int) * j,
                        (CREATURE_DRAWS as int) * (j + 1),
                    ),
                    (old(roster).generation.0 + j) as u64,
                )
            &&& final(roster).generation.0 == old(roster).generation.0 + count
            &&& final(ns).pending() == old(ns).pending().skip((CREATURE_DRAWS as int) * count)
            &&& final(events)@ == old(events)@ + created_events(old(roster).generation.0, count)
        },
{
    let mut count: usize = 0;
    if round.0 == 1 {
        count = count + 1;
    }
    if round.0 % 2 == 1 {
        count = count + 1;
    }
    assert(count as int == granted_creatures(round.0 as int));
    if ns.remaining() < CREATURE_DRAWS * count {
        return false;
    }
    proof {
        assert(events@ =~= events@ + created_events(roster.generation.0, 0));
    }
    let ghost all = old(ns).pending();
    let mut j: usize = 0;
    while j < count
        invariant
            roster_wf(*roster),
            ns.wf(),
            j <= count,
            count <= 2,
            all == old(ns).pending(),
            all.len() >= (CREATURE_DRAWS as int) * (count as int),
            ns.pending() == all.skip((CREATURE_DRAWS as int) * (j as int)),
            roster.generation.0 == old(roster).generation.0 + j,
            old(roster).generation.0 <= u64::MAX - 2,
            roster.entries@.len() == old(roster).entries@.len() + j,
            forall|k: int|
                0 <= k < old(roster).entries@.len() ==> #[trigger] roster.entries@[k] == old(
                    roster,
                ).entries@[k],
            forall|i: int|
                0 <= i < j ==> granted_entry(
                    #[trigger] roster.entries@[old(roster).entries@.len() + i],
                    all.subrange((CREATURE_DRAWS as int) * i, (CREATURE_DRAWS as int) * (i + 1)),
                    (old(roster).generation.0 + i) as u64,
                ),
            events@ == old(events)@ + created_events(old(roster).generation.0, j as int),
        decreases count - j,
    {
        let ghost batch = all.subrange(
            (CREATURE_DRAWS as int) * (j as int),
            (CREATURE_DRAWS as int) * (j as int + 1),
        );
        let tier = rng.gen_range_i64(1, 3);
        proof {
            assert(ns.pending().len() >= CREATURE_DRAWS);
            assert(batch =~= ns.pending().take(CREATURE_DRAWS as int));
        }
        let (stats, pop) = generate_creature(
            rng,
            ns,
            tier as u8,
            roster.generation.0,
            GRANT_POP_MULT,
        ).unwrap();
        proof {
            assert(stats_match(stats, tier as int, batch, roster.generation.0)) by {
                crate::battle::lemma_stats_match_prefix(
                    stats,
                    tier as int,
                    all.skip((CREATURE_DRAWS as int) * (j as int)),
                    roster.generation.0,
                );
                assert(all.skip((CREATURE_DRAWS as int) * (j as int)).take(CREATURE_DRAWS as int)
                    =~= batch);
            }
            assert(ns.pending() =~= all.skip((CREATURE_DRAWS as int) * (j as int + 1)));
        }
        roster.add(stats, pop);
        events.push(GameEvent::CreatureCreated { generation: (roster.generation.0 - 1) });
        proof {
            assert(granted_entry(
                roster.entries@.last(),
                batch,
                (old(roster).generation.0 + j) as u64,
            ));
            assert(events@ =~= old(events)@ + created_events(
                old(roster).generation.0,
                j as int + 1,
            ));
        }
        j = j + 1;
    }
    true
}

} // verus!
