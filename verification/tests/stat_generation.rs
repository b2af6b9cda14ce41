use creature_battle::creature::generate_stat_value;
use creature_battle::creature::MAX_HP;
use creature_battle::creature::MAX_MOVEMENT_SPEED;
use creature_battle::creature::MIN_HP;
use creature_battle::creature::MIN_MOVEMENT_SPEED;
use creature_battle::creature::MIN_PHYS_COOLDOWN;
use creature_battle::creature::MAX_PHYS_COOLDOWN;
use creature_battle::rng::GameRng;
use creature_battle::rng::NormalSource;
use rand::SeedableRng;
use rand_distr::Distribution;

#[test]
fn stat_value_at_tier_center() {
    // Tier 1 of [100, 500]: width 40, center 100 + 0.5 * 40 = 120.
    let v = generate_stat_value(MIN_MOVEMENT_SPEED, MAX_MOVEMENT_SPEED, 1, 0, false);
    assert_eq!(v, 120_000);
    // Tier 10: center 100 + 9.5 * 40 = 480.
    let v = generate_stat_value(MIN_MOVEMENT_SPEED, MAX_MOVEMENT_SPEED, 10, 0, false);
    assert_eq!(v, 480_000);
}

#[test]
fn stat_value_offsets_by_sample() {
    // Tier 1 of [50, 250]: width 20, center 60, std dev 5.
    // z = +2000 (two sigma) moves the value up by 10.
    let v = generate_stat_value(MIN_HP, MAX_HP, 1, 2_000, false);
    assert_eq!(v, 70_000);
    let v = generate_stat_value(MIN_HP, MAX_HP, 1, -2_000, false);
    assert_eq!(v, 50_000);
}

#[test]
fn stat_value_clamps_to_bounds() {
    let v = generate_stat_value(MIN_HP, MAX_HP, 5, 1_000_000_000, false);
    assert_eq!(v, MAX_HP);
    let v = generate_stat_value(MIN_HP, MAX_HP, 5, -1_000_000_000, false);
    assert_eq!(v, MIN_HP);
}

#[test]
fn inverse_generation_is_reflection() {
    for &z in &[-5_000i64, -1_234, 0, 777, 3_000] {
        for tier in 1u8..=10 {
            let plain = generate_stat_value(MIN_PHYS_COOLDOWN, MAX_PHYS_COOLDOWN, tier, z, false);
            let inverse = generate_stat_value(MIN_PHYS_COOLDOWN, MAX_PHYS_COOLDOWN, tier, z, true);
            assert_eq!(inverse, MAX_PHYS_COOLDOWN - (plain - MIN_PHYS_COOLDOWN));
        }
    }
}

#[test]
fn stat_value_stays_in_bounds_over_many_samples() {
    let mut rng = rand::rngs::StdRng::seed_from_u64(7);
    let normal = rand_distr::Normal::new(0.0f64, 1.0).unwrap();
    let bounds: [(i64, i64); 4] = [
        (100_000, 500_000),
        (50_000, 250_000),
        (1_000, 25_000),
        (500, 2_000),
    ];
    for i in 0..10_000 {
        let z = (normal.sample(&mut rng) * 1000.0) as i64;
        let tier = (i % 10 + 1) as u8;
        for &(lo, hi) in bounds.iter() {
            let v = generate_stat_value(lo, hi, tier, z, false);
            assert!(v >= lo && v <= hi);
            let v = generate_stat_value(lo, hi, tier, z, true);
            assert!(v >= lo && v <= hi);
        }
    }
}

#[test]
fn normal_source_hands_samples_out_in_order() {
    let mut ns = NormalSource::new(vec![5, -7, 123]);
    assert_eq!(ns.remaining(), 3);
    assert_eq!(ns.peek(), 5);
    assert_eq!(ns.take(), 5);
    assert_eq!(ns.take(), -7);
    assert_eq!(ns.take(), 123);
    assert_eq!(ns.remaining(), 0);
}

#[test]
fn normal_source_clamps_wild_samples() {
    let mut ns = NormalSource::new(vec![i64::MAX, i64::MIN]);
    assert_eq!(ns.take(), 1_000_000_000);
    assert_eq!(ns.take(), -1_000_000_000);
}

#[test]
fn game_rng_is_deterministic_per_seed() {
    let mut a = GameRng::from_seed(99);
    let mut b = GameRng::from_seed(99);
    for _ in 0..50 {
        assert_eq!(a.gen_range_i64(-1000, 1000), b.gen_range_i64(-1000, 1000));
    }
}

#[test]
fn game_rng_respects_range() {
    let mut rng = GameRng::from_seed(3);
    for _ in 0..1000 {
        let v = rng.gen_range_i64(5, 15);
        assert!(v >= 5 && v <= 15);
    }
}
