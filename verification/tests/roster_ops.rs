use creature_battle::creature::AbilityKind;
use creature_battle::creature::CreatureStats;
use creature_battle::creature::PhysicalAbility;
use creature_battle::rng::GameRng;
use creature_battle::rng::NormalSource;
use creature_battle::roster::combine_creatures;
use creature_battle::roster::delete_empty_creatures;
use creature_battle::roster::generate_new_creature;
use creature_battle::roster::breed_creatures;
use creature_battle::roster::Roster;
use creature_battle::rounds::Round;
use creature_battle::GameEvent;

fn make_stats(generation: u64) -> CreatureStats {
    CreatureStats {
        movement_speed: 250_000,
        hp: 120_000,
        stamina: 100_000,
        stamina_regen: 9_000,
        generation,
        physical_abilities: [
            PhysicalAbility {
                name: AbilityKind::Bite,
                stamina_cost: 15_000,
                damage: 10_000,
                global_cooldown: 800,
            },
            PhysicalAbility {
                name: AbilityKind::Punch,
                stamina_cost: 25_000,
                damage: 15_000,
                global_cooldown: 1_500,
            },
            PhysicalAbility {
                name: AbilityKind::Kick,
                stamina_cost: 35_000,
                damage: 19_000,
                global_cooldown: 600,
            },
        ],
    }
}

fn roster_of_two() -> Roster {
    let mut roster = Roster::new();
    roster.add(make_stats(0), 10);
    roster.add(make_stats(1), 6);
    roster
}

#[test]
fn combination_breeds_a_pair_per_unit_given() {
    let mut roster = roster_of_two();
    let mut rng = GameRng::from_seed(4);
    let mut events: Vec<GameEvent> = Vec::new();
    let ok = combine_creatures(&mut roster, 0, 1, 3, &mut rng, &mut events);
    assert!(ok);
    assert_eq!(roster.entries.len(), 3);
    assert_eq!(roster.entries[0].population.0, 7);
    assert_eq!(roster.entries[1].population.0, 3);
    // Children are born in pairs: population is twice the amount given up.
    assert_eq!(roster.entries[2].population.0, 6);
    let child = &roster.entries[2].stats;
    assert_eq!(child.physical_abilities.len(), 3);
    // The child's generation id is strictly greater than both parents'.
    assert!(child.generation > roster.entries[0].stats.generation);
    assert!(child.generation > roster.entries[1].stats.generation);
    assert_eq!(child.generation, 2);
    assert_eq!(roster.generation.0, 3);
    assert_eq!(
        events,
        vec![GameEvent::CreatureCombined, GameEvent::PopulationChanged],
    );
}

#[test]
fn combination_declined_changes_nothing() {
    let mut roster = roster_of_two();
    let mut rng = GameRng::from_seed(4);
    let mut events: Vec<GameEvent> = Vec::new();
    // Entry 1 only has population 6: asking 7 from each is declined.
    let ok = combine_creatures(&mut roster, 0, 1, 7, &mut rng, &mut events);
    assert!(!ok);
    assert_eq!(roster.entries.len(), 2);
    assert_eq!(roster.entries[0].population.0, 10);
    assert_eq!(roster.entries[1].population.0, 6);
    assert_eq!(roster.generation.0, 2);
    assert!(events.is_empty());
}

#[test]
fn combination_declined_when_first_parent_short() {
    let mut roster = Roster::new();
    roster.add(make_stats(0), 2);
    roster.add(make_stats(1), 50);
    let mut rng = GameRng::from_seed(4);
    let mut events: Vec<GameEvent> = Vec::new();
    assert!(!combine_creatures(&mut roster, 0, 1, 5, &mut rng, &mut events));
    assert_eq!(roster.entries[0].population.0, 2);
    assert_eq!(roster.entries[1].population.0, 50);
}

#[test]
fn empty_entries_are_removed_in_order() {
    let mut roster = Roster::new();
    roster.add(make_stats(0), 4);
    roster.add(make_stats(1), 0);
    roster.add(make_stats(2), 9);
    roster.add(make_stats(3), 0);
    delete_empty_creatures(&mut roster);
    assert_eq!(roster.entries.len(), 2);
    assert_eq!(roster.entries[0].population.0, 4);
    assert_eq!(roster.entries[0].stats.generation, 0);
    assert_eq!(roster.entries[1].population.0, 9);
    assert_eq!(roster.entries[1].stats.generation, 2);
}

#[test]
fn populations_grow_by_half_after_a_won_round() {
    let mut roster = Roster::new();
    roster.add(make_stats(0), 7);
    roster.add(make_stats(1), 1);
    roster.add(make_stats(2), 0);
    roster.add(make_stats(3), 4);
    breed_creatures(&mut roster);
    assert_eq!(roster.entries[0].population.0, 10);
    assert_eq!(roster.entries[1].population.0, 1);
    assert_eq!(roster.entries[2].population.0, 0);
    assert_eq!(roster.entries[3].population.0, 6);
}

#[test]
fn first_round_grants_two_creatures() {
    let mut roster = Roster::new();
    let mut rng = GameRng::from_seed(8);
    let mut ns = NormalSource::new(vec![0; 26]);
    let mut events: Vec<GameEvent> = Vec::new();
    let ok = generate_new_creature(&mut roster, &Round(1), &mut rng, &mut ns, &mut events);
    assert!(ok);
    assert_eq!(roster.entries.len(), 2);
    assert_eq!(roster.entries[0].stats.generation, 0);
    assert_eq!(roster.entries[1].stats.generation, 1);
    assert_eq!(roster.generation.0, 2);
    assert_eq!(ns.remaining(), 0);
    // One creature-created announcement per grant, in generation order.
    assert_eq!(
        events,
        vec![
            GameEvent::CreatureCreated { generation: 0 },
            GameEvent::CreatureCreated { generation: 1 },
        ],
    );
    for e in roster.entries.iter() {
        // Granted at 1.2 times a draw of 5..=15: 6..=18.
        assert!(e.population.0 >= 6 && e.population.0 <= 18);
    }
}

#[test]
fn odd_rounds_grant_one_even_rounds_none() {
    let mut roster = Roster::new();
    let mut rng = GameRng::from_seed(8);
    let mut ns = NormalSource::new(vec![0; 13]);
    let mut events: Vec<GameEvent> = Vec::new();
    assert!(generate_new_creature(&mut roster, &Round(3), &mut rng, &mut ns, &mut events));
    assert_eq!(roster.entries.len(), 1);
    assert_eq!(events.len(), 1);

    let mut ns = NormalSource::new(vec![]);
    let mut events: Vec<GameEvent> = Vec::new();
    assert!(generate_new_creature(&mut roster, &Round(2), &mut rng, &mut ns, &mut events));
    assert_eq!(roster.entries.len(), 1);
    assert!(events.is_empty());
}

#[test]
fn grant_declined_without_enough_samples() {
    let mut roster = Roster::new();
    let mut rng = GameRng::from_seed(8);
    let mut ns = NormalSource::new(vec![0; 25]);
    let mut events: Vec<GameEvent> = Vec::new();
    assert!(!generate_new_creature(&mut roster, &Round(1), &mut rng, &mut ns, &mut events));
    assert_eq!(roster.entries.len(), 0);
    assert_eq!(ns.remaining(), 25);
    assert!(events.is_empty());
}

#[test]
fn growth_saturates_at_the_counter_ceiling() {
    let mut roster = Roster::new();
    roster.add(make_stats(0), u32::MAX);
    breed_creatures(&mut roster);
    assert_eq!(roster.entries[0].population.0, u32::MAX);
}

#[test]
fn cleanup_of_an_empty_roster_is_a_no_op() {
    let mut roster = Roster::new();
    delete_empty_creatures(&mut roster);
    assert!(roster.entries.is_empty());
    assert_eq!(roster.generation.0, 0);
}
