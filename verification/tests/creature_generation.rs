use creature_battle::creature::apply_mutation;
use creature_battle::creature::combine_stats;
use creature_battle::creature::generate_creature;
use creature_battle::creature::generate_stat_value;
use creature_battle::creature::AbilityKind;
use creature_battle::creature::CreatureStats;
use creature_battle::creature::PhysicalAbility;
use creature_battle::creature::MAX_HP;
use creature_battle::creature::MIN_HP;
use creature_battle::creature::MIN_MOVEMENT_SPEED;
use creature_battle::creature::MIN_PHYS_COOLDOWN;
use creature_battle::creature::MIN_PHYS_DMG;
use creature_battle::creature::MIN_PHYS_STAMINA_COST;
use creature_battle::creature::MIN_STAMINA;
use creature_battle::creature::MIN_STAMINA_REGEN;
use creature_battle::rng::GameRng;
use creature_battle::rng::NormalSource;

fn sample_stats() -> CreatureStats {
    CreatureStats {
        movement_speed: 300_000,
        hp: 150_000,
        stamina: 150_000,
        stamina_regen: 13_000,
        generation: 0,
        physical_abilities: [
            PhysicalAbility {
                name: AbilityKind::Bite,
                stamina_cost: 30_000,
                damage: 12_000,
                global_cooldown: 1_200,
            },
            PhysicalAbility {
                name: AbilityKind::Punch,
                stamina_cost: 20_000,
                damage: 8_000,
                global_cooldown: 900,
            },
            PhysicalAbility {
                name: AbilityKind::Kick,
                stamina_cost: 40_000,
                damage: 18_000,
                global_cooldown: 1_800,
            },
        ],
    }
}

#[test]
fn generate_creature_uses_thirteen_draws_in_order() {
    let zs: Vec<i64> = (0..13).map(|i| (i as i64 - 6) * 500).collect();
    let mut ns = NormalSource::new(zs.clone());
    let mut rng = GameRng::from_seed(1);
    let (stats, _pop) = generate_creature(&mut rng, &mut ns, 4, 17, 1_000).unwrap();
    assert_eq!(ns.remaining(), 0);
    assert_eq!(stats.generation, 17);
    assert_eq!(stats.movement_speed, generate_stat_value(100_000, 500_000, 4, zs[0], false));
    assert_eq!(stats.hp, generate_stat_value(50_000, 250_000, 4, zs[1], false));
    assert_eq!(stats.stamina, generate_stat_value(50_000, 250_000, 4, zs[2], false));
    assert_eq!(stats.stamina_regen, generate_stat_value(1_000, 25_000, 4, zs[3], false));
    let bite = stats.physical_abilities[0];
    assert!(matches!(bite.name, AbilityKind::Bite));
    assert_eq!(bite.stamina_cost, generate_stat_value(10_000, 50_000, 4, zs[4], false));
    assert_eq!(bite.damage, generate_stat_value(5_000, 20_000, 4, zs[5], false));
    assert_eq!(bite.global_cooldown, generate_stat_value(500, 2_000, 4, zs[6], true));
    assert!(matches!(stats.physical_abilities[1].name, AbilityKind::Punch));
    assert!(matches!(stats.physical_abilities[2].name, AbilityKind::Kick));
}

#[test]
fn generate_creature_population_scales_with_multiplier() {
    let mut ns = NormalSource::new(vec![0; 13]);
    let mut rng = GameRng::from_seed(5);
    let (_, pop) = generate_creature(&mut rng, &mut ns, 1, 0, 1_000).unwrap();
    assert!(pop >= 5 && pop <= 15);

    let mut ns = NormalSource::new(vec![0; 13]);
    let mut rng = GameRng::from_seed(5);
    let (_, pop) = generate_creature(&mut rng, &mut ns, 1, 0, 0).unwrap();
    assert_eq!(pop, 0);

    let mut ns = NormalSource::new(vec![0; 13]);
    let mut rng = GameRng::from_seed(5);
    let (_, pop) = generate_creature(&mut rng, &mut ns, 1, 0, 2_000).unwrap();
    assert!(pop >= 10 && pop <= 30 && pop % 2 == 0);
}

#[test]
fn generate_creature_declines_short_sample_store() {
    let mut ns = NormalSource::new(vec![0; 12]);
    let mut rng = GameRng::from_seed(5);
    assert!(generate_creature(&mut rng, &mut ns, 1, 0, 1_000).is_none());
    assert_eq!(ns.remaining(), 12);
}

#[test]
fn higher_tier_means_shorter_cooldown() {
    // With the same centered draw, tier 10 gives a shorter (better)
    // cooldown than tier 1, because cooldown generation is inverted.
    let low = generate_stat_value(MIN_PHYS_COOLDOWN, 2_000, 1, 0, true);
    let high = generate_stat_value(MIN_PHYS_COOLDOWN, 2_000, 10, 0, true);
    assert!(high < low);
}

#[test]
fn mutation_floors_at_minimum() {
    assert_eq!(apply_mutation(50_000, 50_000, -30_000), 50_000);
    assert_eq!(apply_mutation(51_000, 50_000, -30_000), 50_000);
    assert_eq!(apply_mutation(80_000, 50_000, -10_000), 70_000);
}

#[test]
fn mutation_may_exceed_declared_maximum() {
    // The documented edge case: mutation floors at the minimum but does
    // not clamp at the maximum.
    let v = apply_mutation(MAX_HP, MIN_HP, 30_000);
    assert_eq!(v, MAX_HP + 30_000);
    assert!(v > MAX_HP);
}

#[test]
fn mutate_keeps_floors_and_slots() {
    let mut rng = GameRng::from_seed(11);
    let mut stats = sample_stats();
    for _ in 0..200 {
        stats.mutate(&mut rng);
        assert!(stats.movement_speed >= MIN_MOVEMENT_SPEED);
        assert!(stats.hp >= MIN_HP);
        assert!(stats.stamina >= MIN_STAMINA);
        assert!(stats.stamina_regen >= MIN_STAMINA_REGEN);
        assert!(matches!(stats.physical_abilities[0].name, AbilityKind::Bite));
        assert!(matches!(stats.physical_abilities[1].name, AbilityKind::Punch));
        assert!(matches!(stats.physical_abilities[2].name, AbilityKind::Kick));
        for a in stats.physical_abilities.iter() {
            assert!(a.stamina_cost >= MIN_PHYS_STAMINA_COST);
            assert!(a.damage >= MIN_PHYS_DMG);
            assert!(a.global_cooldown >= MIN_PHYS_COOLDOWN);
        }
        assert_eq!(stats.generation, 0);
    }
}

#[test]
fn combined_child_inherits_within_mutation_reach() {
    let mut rng = GameRng::from_seed(21);
    let mut p2 = sample_stats();
    p2.movement_speed = 400_000;
    p2.hp = 90_000;
    let p1 = sample_stats();
    for _ in 0..50 {
        let child = combine_stats(&p1, &p2, 7, &mut rng);
        assert_eq!(child.generation, 7);
        assert_eq!(child.physical_abilities.len(), 3);
        // Movement: inherited from 300 or 400, then mutated by at most 60.
        assert!(
            (child.movement_speed - p1.movement_speed).abs() <= 60_000
                || (child.movement_speed - p2.movement_speed).abs() <= 60_000
        );
        // Hp: inherited from 150 or 90, mutated by at most 30.
        assert!((child.hp - p1.hp).abs() <= 30_000 || (child.hp - p2.hp).abs() <= 30_000);
    }
}

#[test]
fn ability_labels_read_back() {
    assert_eq!(AbilityKind::Bite.label(), "Bite");
    assert_eq!(AbilityKind::Punch.label(), "Punch");
    assert_eq!(AbilityKind::Kick.label(), "Kick");
}
