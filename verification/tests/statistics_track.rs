use creature_battle::statistics::update_statistics;
use creature_battle::statistics::GameStatistics;
use creature_battle::GameEvent;

#[test]
fn nothing_accumulates_before_a_run_starts() {
    let mut stats = GameStatistics::default();
    let events = vec![
        GameEvent::RoundOver,
        GameEvent::CreatureDied { is_enemy: true, x: 0, y: 0 },
        GameEvent::CreatureCombined,
    ];
    update_statistics(&mut stats, &events, 100);
    assert!(!stats.is_game_on);
    assert_eq!(stats.elapsed_ms, 0);
    assert_eq!(stats.survived_rounds, 0);
    assert_eq!(stats.ally_kills, 0);
    assert_eq!(stats.combination_count, 0);
}

#[test]
fn kills_count_enemy_deaths_and_deaths_count_ally_deaths() {
    let mut stats = GameStatistics::default();
    update_statistics(&mut stats, &vec![GameEvent::GameStarted], 0);
    assert!(stats.is_game_on);
    let events = vec![
        GameEvent::CreatureDied { is_enemy: true, x: 0, y: 0 },
        GameEvent::CreatureDied { is_enemy: false, x: 0, y: 0 },
        GameEvent::CreatureDied { is_enemy: true, x: 0, y: 0 },
        GameEvent::DamageTaken { target: 0 },
        GameEvent::RoundOver,
        GameEvent::CreatureCombined,
        GameEvent::CreatureCombined,
    ];
    update_statistics(&mut stats, &events, 16);
    assert_eq!(stats.ally_kills, 2);
    assert_eq!(stats.ally_deaths, 1);
    assert_eq!(stats.survived_rounds, 1);
    assert_eq!(stats.combination_count, 2);
    assert_eq!(stats.elapsed_ms, 16);
}

#[test]
fn game_start_resets_the_counters() {
    let mut stats = GameStatistics {
        is_game_on: true,
        elapsed_ms: 900,
        survived_rounds: 4,
        ally_kills: 11,
        ally_deaths: 3,
        combination_count: 2,
    };
    update_statistics(&mut stats, &vec![GameEvent::GameStarted], 50);
    assert!(stats.is_game_on);
    assert_eq!(stats.ally_kills, 0);
    assert_eq!(stats.ally_deaths, 0);
    assert_eq!(stats.survived_rounds, 0);
    assert_eq!(stats.combination_count, 0);
    assert_eq!(stats.elapsed_ms, 50);
}

#[test]
fn game_end_freezes_the_tracker() {
    let mut stats = GameStatistics::default();
    update_statistics(&mut stats, &vec![GameEvent::GameStarted], 0);
    update_statistics(&mut stats, &vec![GameEvent::CreatureDied { is_enemy: true, x: 0, y: 0 }], 10);
    assert_eq!(stats.ally_kills, 1);
    update_statistics(&mut stats, &vec![GameEvent::GameEnded], 10);
    assert!(!stats.is_game_on);
    // Frozen: later batches change nothing.
    update_statistics(&mut stats, &vec![GameEvent::CreatureDied { is_enemy: true, x: 0, y: 0 }], 10);
    assert_eq!(stats.ally_kills, 1);
    assert_eq!(stats.elapsed_ms, 10);
}

#[test]
fn start_and_end_in_one_batch_leave_the_run_off() {
    let mut stats = GameStatistics::default();
    let events = vec![
        GameEvent::GameStarted,
        GameEvent::RoundOver,
        GameEvent::GameEnded,
    ];
    update_statistics(&mut stats, &events, 10);
    assert!(!stats.is_game_on);
    assert_eq!(stats.survived_rounds, 0);
}
