use creature_battle::rounds::finish_round;
use creature_battle::rounds::start_run;
use creature_battle::rounds::Difficulty;
use creature_battle::rounds::Round;
use creature_battle::GameEvent;
use creature_battle::GameResult;

#[test]
fn round_starts_at_one() {
    assert_eq!(Round::default().0, 1);
}

#[test]
fn difficulty_starts_at_unit_means() {
    let d = Difficulty::default();
    assert_eq!(d.enemy_tier_mean, 1_000);
    assert_eq!(d.enemy_count_mean, 1_000);
    assert_eq!(d.enemy_pop_mult_mean, 1_000);
}

#[test]
fn victory_advances_round_and_difficulty_once() {
    let mut round = Round::default();
    let mut difficulty = Difficulty::default();
    let mut events: Vec<GameEvent> = Vec::new();
    finish_round(GameResult::Victory, &mut round, &mut difficulty, &mut events);
    assert_eq!(round.0, 2);
    assert_eq!(difficulty.enemy_tier_mean, 1_500);
    assert_eq!(difficulty.enemy_count_mean, 1_500);
    assert_eq!(difficulty.enemy_pop_mult_mean, 1_250);
    assert_eq!(events, vec![GameEvent::RoundOver]);
    finish_round(GameResult::Victory, &mut round, &mut difficulty, &mut events);
    assert_eq!(round.0, 3);
    assert_eq!(difficulty.enemy_tier_mean, 2_000);
    assert_eq!(difficulty.enemy_pop_mult_mean, 1_500);
}

#[test]
fn defeat_changes_neither_round_nor_difficulty() {
    let mut round = Round(5);
    let mut difficulty = Difficulty {
        enemy_tier_mean: 3_000,
        enemy_count_mean: 2_500,
        enemy_pop_mult_mean: 1_750,
    };
    let mut events: Vec<GameEvent> = Vec::new();
    finish_round(GameResult::Defeat, &mut round, &mut difficulty, &mut events);
    assert_eq!(round.0, 5);
    assert_eq!(difficulty.enemy_tier_mean, 3_000);
    assert_eq!(difficulty.enemy_count_mean, 2_500);
    assert_eq!(difficulty.enemy_pop_mult_mean, 1_750);
    assert_eq!(events, vec![GameEvent::GameEnded]);
}

#[test]
fn enemy_samples_center_on_the_means() {
    let d = Difficulty {
        enemy_tier_mean: 5_000,
        enemy_count_mean: 3_000,
        enemy_pop_mult_mean: 1_000,
    };
    assert_eq!(d.enemy_tier(0), 5);
    assert_eq!(d.enemy_count(0), 3);
    assert_eq!(d.enemy_pop_mult(0), 1_000);
}

#[test]
fn enemy_samples_spread_and_floor() {
    let d = Difficulty {
        enemy_tier_mean: 5_000,
        enemy_count_mean: 3_000,
        enemy_pop_mult_mean: 1_000,
    };
    // Tier: std dev 1.0, so z = +2000 adds two tiers.
    assert_eq!(d.enemy_tier(2_000), 7);
    // A wildly negative draw floors at the minimum of one tier.
    assert_eq!(d.enemy_tier(-1_000_000_000), 1);
    // Count: std dev 0.5, so z = +2000 adds one.
    assert_eq!(d.enemy_count(2_000), 4);
    assert_eq!(d.enemy_count(-1_000_000_000), 1);
    // Population multiplier: std dev 0.3, z = +1000 adds 0.3.
    assert_eq!(d.enemy_pop_mult(1_000), 1_300);
    // Floors at 0.5.
    assert_eq!(d.enemy_pop_mult(-1_000_000_000), 500);
}

#[test]
fn starting_a_run_resets_everything() {
    let mut round = Round(9);
    let mut difficulty = Difficulty {
        enemy_tier_mean: 9_000,
        enemy_count_mean: 9_000,
        enemy_pop_mult_mean: 9_000,
    };
    let mut events: Vec<GameEvent> = Vec::new();
    start_run(&mut round, &mut difficulty, &mut events);
    assert_eq!(round.0, 1);
    assert_eq!(difficulty.enemy_tier_mean, 1_000);
    assert_eq!(difficulty.enemy_count_mean, 1_000);
    assert_eq!(difficulty.enemy_pop_mult_mean, 1_000);
    assert_eq!(events, vec![GameEvent::GameStarted]);
}
