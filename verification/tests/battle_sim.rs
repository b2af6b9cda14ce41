use creature_battle::battle::apply_battle_results;
use creature_battle::battle::attack_enemy;
use creature_battle::battle::compute_targets;
use creature_battle::battle::death_system;
use creature_battle::battle::find_nearest_enemy;
use creature_battle::battle::generate_enemy_creatures;
use creature_battle::battle::go_to_nearest_enemy;
use creature_battle::battle::isqrt;
use creature_battle::battle::stats_recovery;
use creature_battle::battle::try_start_battle;
use creature_battle::battle::Agent;
use creature_battle::battle::Battle;
use creature_battle::battle::BattleState;
use creature_battle::battle::BattleTemplate;
use creature_battle::creature::AbilityKind;
use creature_battle::creature::CreatureStats;
use creature_battle::creature::PhysicalAbility;
use creature_battle::rng::GameRng;
use creature_battle::rng::NormalSource;
use creature_battle::roster::PopulationSize;
use creature_battle::roster::Roster;
use creature_battle::rounds::Difficulty;
use creature_battle::statistics::update_statistics;
use creature_battle::statistics::GameStatistics;
use creature_battle::GameEvent;
use creature_battle::GameResult;

fn fighter_stats(hp: i64, damage: i64) -> CreatureStats {
    let ability = |name: AbilityKind| PhysicalAbility {
        name,
        stamina_cost: 10_000,
        damage,
        global_cooldown: 500,
    };
    CreatureStats {
        movement_speed: 100_000,
        hp,
        stamina: 250_000,
        stamina_regen: 25_000,
        generation: 0,
        physical_abilities: [
            ability(AbilityKind::Bite),
            ability(AbilityKind::Punch),
            ability(AbilityKind::Kick),
        ],
    }
}

fn make_agent(template: usize, is_enemy: bool, x: i64, y: i64, hp: i64) -> Agent {
    Agent {
        template,
        is_enemy,
        x,
        y,
        movement_speed: 100_000,
        stamina_regen: 25_000,
        max_stamina: 250_000,
        physical_abilities: fighter_stats(hp, 10_000).physical_abilities,
        hp,
        stamina: 250_000,
        cooldown: 0,
    }
}

#[test]
fn empty_battle_resolves_immediately_to_defeat() {
    let mut rng = GameRng::from_seed(1);
    let mut battle = Battle::new(Vec::new(), &mut rng);
    assert!(matches!(battle.state, BattleState::Running));
    let mut events: Vec<GameEvent> = Vec::new();
    battle.tick(&mut rng, 16, &mut events);
    assert!(matches!(battle.state, BattleState::Resolved(GameResult::Defeat)));
    assert_eq!(
        events,
        vec![GameEvent::BattleResolved { result: GameResult::Defeat }],
    );
}

#[test]
fn enemies_without_allies_still_mean_defeat() {
    let mut rng = GameRng::from_seed(1);
    let templates = vec![BattleTemplate {
        stats: fighter_stats(100_000, 10_000),
        population: PopulationSize(3),
        is_enemy: true,
    }];
    let mut battle = Battle::new(templates, &mut rng);
    let mut events: Vec<GameEvent> = Vec::new();
    let outcome = battle.run_battle(&mut rng, 16, 10, &mut events);
    assert!(matches!(outcome, BattleState::Resolved(GameResult::Defeat)));
}

#[test]
fn allies_without_enemies_mean_victory() {
    let mut rng = GameRng::from_seed(1);
    let templates = vec![BattleTemplate {
        stats: fighter_stats(100_000, 10_000),
        population: PopulationSize(2),
        is_enemy: false,
    }];
    let mut battle = Battle::new(templates, &mut rng);
    let mut events: Vec<GameEvent> = Vec::new();
    let outcome = battle.run_battle(&mut rng, 16, 10, &mut events);
    assert!(matches!(outcome, BattleState::Resolved(GameResult::Victory)));
}

#[test]
fn one_on_one_battle_resolves_to_victory() {
    // One sturdy ally hitting for 20 against one frail enemy with 10 hp:
    // the ally closes in, lands one blow, and wins; its own roster entry
    // keeps its population while the enemy's falls by one.
    let mut rng = GameRng::from_seed(42);
    let templates = vec![
        BattleTemplate {
            stats: fighter_stats(50_000, 20_000),
            population: PopulationSize(1),
            is_enemy: false,
        },
        BattleTemplate {
            stats: fighter_stats(10_000, 5_000),
            population: PopulationSize(1),
            is_enemy: true,
        },
    ];
    let mut battle = Battle::new(templates, &mut rng);
    let mut events: Vec<GameEvent> = Vec::new();
    let outcome = battle.run_battle(&mut rng, 16, 100_000, &mut events);
    assert!(matches!(outcome, BattleState::Resolved(GameResult::Victory)));
    assert_eq!(battle.templates[0].population.0, 1);
    assert_eq!(battle.templates[1].population.0, 0);

    // The run's statistics see exactly one ally kill and no ally death.
    let mut stats = GameStatistics::default();
    update_statistics(&mut stats, &vec![GameEvent::GameStarted], 0);
    update_statistics(&mut stats, &events, 16);
    assert_eq!(stats.ally_kills, 1);
    assert_eq!(stats.ally_deaths, 0);
}

#[test]
fn nearest_opponent_breaks_ties_by_order() {
    let agents = vec![
        make_agent(0, false, 0, 0, 50_000),
        make_agent(1, true, 100_000, 0, 50_000),
        make_agent(1, true, -100_000, 0, 50_000),
        make_agent(1, true, 50_000, 0, 50_000),
    ];
    // Agent 3 is nearest; agents 1 and 2 tie behind it.
    assert_eq!(find_nearest_enemy(&agents, 0), Some(3));
    let agents = vec![
        make_agent(0, false, 0, 0, 50_000),
        make_agent(1, true, 100_000, 0, 50_000),
        make_agent(1, true, -100_000, 0, 50_000),
    ];
    // A tie keeps the first by iteration order.
    assert_eq!(find_nearest_enemy(&agents, 0), Some(1));
    let allies_only = vec![
        make_agent(0, false, 0, 0, 50_000),
        make_agent(0, false, 5_000, 0, 50_000),
    ];
    assert_eq!(find_nearest_enemy(&allies_only, 0), None);
}

#[test]
fn recovery_lowers_cooldown_and_refills_stamina() {
    let mut a = make_agent(0, false, 0, 0, 50_000);
    a.cooldown = 100;
    a.stamina = 10_000;
    let mut agents = vec![a];
    stats_recovery(&mut agents, 16);
    assert_eq!(agents[0].cooldown, 84);
    // Regen 25 per second: 16 ms add 0.4.
    assert_eq!(agents[0].stamina, 10_400);
    // Stamina caps at the snapshotted maximum, cooldown floors at zero.
    agents[0].stamina = 249_900;
    agents[0].cooldown = 10;
    stats_recovery(&mut agents, 16);
    assert_eq!(agents[0].cooldown, 0);
    assert_eq!(agents[0].stamina, 250_000);
}

#[test]
fn attack_spends_stamina_and_damages_the_target() {
    let mut agents = vec![
        make_agent(0, false, 0, 0, 50_000),
        make_agent(1, true, 10_000, 0, 50_000),
    ];
    let targets = compute_targets(&agents);
    let mut rng = GameRng::from_seed(9);
    let mut events: Vec<GameEvent> = Vec::new();
    attack_enemy(&mut agents, &targets, &mut rng, &mut events);
    // Both are in melee reach with cooldown zero, so both strike; every
    // ability costs 10 and deals 10.
    assert_eq!(agents[0].stamina, 240_000);
    assert_eq!(agents[0].cooldown, 500);
    assert_eq!(agents[0].hp, 40_000);
    assert_eq!(agents[1].stamina, 240_000);
    assert_eq!(agents[1].hp, 40_000);
    assert_eq!(events.len(), 2);
}

#[test]
fn attack_waits_for_cooldown_and_reach() {
    let mut agents = vec![
        make_agent(0, false, 0, 0, 50_000),
        make_agent(1, true, 500_000, 0, 50_000),
    ];
    let targets = compute_targets(&agents);
    let mut rng = GameRng::from_seed(9);
    let mut events: Vec<GameEvent> = Vec::new();
    // Out of reach: nobody strikes.
    attack_enemy(&mut agents, &targets, &mut rng, &mut events);
    assert_eq!(agents[0].hp, 50_000);
    assert_eq!(agents[1].hp, 50_000);
    assert!(events.is_empty());

    let mut agents = vec![
        make_agent(0, false, 0, 0, 50_000),
        make_agent(1, true, 10_000, 0, 50_000),
    ];
    agents[0].cooldown = 200;
    let targets = compute_targets(&agents);
    attack_enemy(&mut agents, &targets, &mut rng, &mut events);
    // Only the enemy, whose cooldown is elapsed, strikes.
    assert_eq!(agents[0].hp, 40_000);
    assert_eq!(agents[1].hp, 50_000);
    assert_eq!(agents[0].stamina, 250_000);
}

#[test]
fn death_removes_agents_and_decrements_population() {
    let mut templates = vec![
        BattleTemplate {
            stats: fighter_stats(50_000, 10_000),
            population: PopulationSize(2),
            is_enemy: false,
        },
        BattleTemplate {
            stats: fighter_stats(50_000, 10_000),
            population: PopulationSize(1),
            is_enemy: true,
        },
    ];
    let mut agents = vec![
        make_agent(0, false, 0, 0, 50_000),
        make_agent(0, false, 10_000, 0, 0),
        make_agent(1, true, 50_000, 0, -3_000),
    ];
    let mut events: Vec<GameEvent> = Vec::new();
    death_system(&mut templates, &mut agents, &mut events);
    assert_eq!(agents.len(), 1);
    assert_eq!(agents[0].template, 0);
    assert_eq!(templates[0].population.0, 1);
    assert_eq!(templates[1].population.0, 0);
    // One announcement per death, carrying the side and the position.
    assert_eq!(
        events,
        vec![
            GameEvent::CreatureDied { is_enemy: false, x: 10_000, y: 0 },
            GameEvent::CreatureDied { is_enemy: true, x: 50_000, y: 0 },
        ],
    );
}

#[test]
fn enemy_wave_follows_the_difficulty_samples() {
    let difficulty = Difficulty::default();
    let mut rng = GameRng::from_seed(2);
    // Centered draws: count 1, tier 1, multiplier 1.0.
    let mut ns = NormalSource::new(vec![0; 16]);
    let wave = generate_enemy_creatures(&difficulty, &mut rng, &mut ns).unwrap();
    assert_eq!(wave.len(), 1);
    assert!(wave[0].is_enemy);
    assert!(wave[0].population.0 >= 5 && wave[0].population.0 <= 15);
    assert_eq!(ns.remaining(), 0);
}

#[test]
fn enemy_wave_declines_a_short_sample_store() {
    let difficulty = Difficulty::default();
    let mut rng = GameRng::from_seed(2);
    let mut ns = NormalSource::new(vec![0; 15]);
    assert!(generate_enemy_creatures(&difficulty, &mut rng, &mut ns).is_none());
    assert_eq!(ns.remaining(), 15);
    let mut ns = NormalSource::new(Vec::new());
    assert!(generate_enemy_creatures(&difficulty, &mut rng, &mut ns).is_none());
}

#[test]
fn battle_results_flow_back_to_the_roster() {
    let mut roster = Roster::new();
    roster.add(fighter_stats(100_000, 10_000), 4);
    roster.add(fighter_stats(100_000, 10_000), 7);
    let mut rng = GameRng::from_seed(6);
    let enemies = vec![BattleTemplate {
        stats: fighter_stats(10_000, 5_000),
        population: PopulationSize(1),
        is_enemy: true,
    }];
    let mut battle = try_start_battle(&roster, &enemies, &mut rng).unwrap();
    assert_eq!(battle.templates.len(), 3);
    let mut events: Vec<GameEvent> = Vec::new();
    let outcome = battle.run_battle(&mut rng, 16, 100_000, &mut events);
    assert!(matches!(outcome, BattleState::Resolved(GameResult::Victory)));
    apply_battle_results(&mut roster, &battle);
    // Eleven allies against one frail enemy: the wave dies, and at most a
    // couple of allies can have fallen to its one blow per cooldown.
    assert_eq!(
        roster.entries[0].population.0 + roster.entries[1].population.0,
        battle.templates[0].population.0 + battle.templates[1].population.0,
    );
}

#[test]
fn oversized_roster_population_is_rejected() {
    let mut roster = Roster::new();
    roster.add(fighter_stats(100_000, 10_000), 2_000);
    let mut rng = GameRng::from_seed(6);
    assert!(try_start_battle(&roster, &Vec::new(), &mut rng).is_none());
}

#[test]
fn integer_square_root_brackets_its_input() {
    for &n in &[0i64, 1, 2, 3, 4, 15, 16, 1_024_000_000, 9_000_000_000_000_000_000] {
        let r = isqrt(n);
        assert!(r * r <= n);
        assert!((r + 1).checked_mul(r + 1).map_or(true, |sq| sq > n));
    }
    assert_eq!(isqrt(1_024_000_000), 32_000);
}

#[test]
fn movement_walks_straight_at_speed() {
    // Speed 100 units per second, one full second: the ally covers exactly
    // the 100 units to its target and lands on it.
    let mut agents = vec![
        make_agent(0, false, 0, 0, 50_000),
        make_agent(1, true, 100_000, 0, 50_000),
    ];
    let targets = compute_targets(&agents);
    go_to_nearest_enemy(&mut agents, &targets, 1_000);
    assert_eq!(agents[0].x, 100_000);
    assert_eq!(agents[0].y, 0);
    // The enemy walked the same stretch the other way, using the ally's
    // position from targeting time.
    assert_eq!(agents[1].x, 0);

    // Half a second covers half the stretch.
    let mut agents = vec![
        make_agent(0, false, 0, 0, 50_000),
        make_agent(1, true, 100_000, 0, 50_000),
    ];
    let targets = compute_targets(&agents);
    go_to_nearest_enemy(&mut agents, &targets, 500);
    assert_eq!(agents[0].x, 50_000);

    // Inside melee reach nobody moves.
    let mut agents = vec![
        make_agent(0, false, 0, 0, 50_000),
        make_agent(1, true, 20_000, 0, 50_000),
    ];
    let targets = compute_targets(&agents);
    go_to_nearest_enemy(&mut agents, &targets, 1_000);
    assert_eq!(agents[0].x, 0);
    assert_eq!(agents[1].x, 20_000);
}

#[test]
fn attack_reports_its_strikes() {
    let mut agents = vec![
        make_agent(0, false, 0, 0, 50_000),
        make_agent(1, true, 10_000, 0, 50_000),
        make_agent(1, true, 400_000, 0, 50_000),
    ];
    let targets = compute_targets(&agents);
    let mut rng = GameRng::from_seed(13);
    let mut events: Vec<GameEvent> = Vec::new();
    let strikes = attack_enemy(&mut agents, &targets, &mut rng, &mut events);
    // The two agents in reach strike, in agent order; the far one does not.
    // The emitted events mirror the strikes one for one.
    assert_eq!(strikes.len(), 2);
    assert_eq!(
        events,
        vec![
            GameEvent::DamageTaken { target: strikes[0].target },
            GameEvent::DamageTaken { target: strikes[1].target },
        ],
    );
    assert_eq!(strikes[0].attacker, 0);
    assert_eq!(strikes[0].target, 1);
    assert!(strikes[0].slot < 3);
    assert_eq!(strikes[1].attacker, 1);
    assert_eq!(strikes[1].target, 0);
    assert_eq!(agents[2].hp, 50_000);
    assert_eq!(agents[2].stamina, 250_000);
}

#[test]
fn one_tick_runs_all_phases_in_order() {
    // Two agents already in melee reach: both strike, the frail enemy dies,
    // and the battle resolves — all within one tick, with the events in
    // phase order: damage, death (with position), resolution.
    let templates = vec![
        BattleTemplate {
            stats: fighter_stats(50_000, 10_000),
            population: PopulationSize(1),
            is_enemy: false,
        },
        BattleTemplate {
            stats: fighter_stats(10_000, 10_000),
            population: PopulationSize(1),
            is_enemy: true,
        },
    ];
    let agents = vec![
        make_agent(0, false, 0, 0, 50_000),
        make_agent(1, true, 10_000, 0, 10_000),
    ];
    let mut battle = Battle { templates, agents, state: BattleState::Running };
    let mut rng = GameRng::from_seed(7);
    let mut events: Vec<GameEvent> = Vec::new();
    battle.tick(&mut rng, 16, &mut events);
    assert!(matches!(battle.state, BattleState::Resolved(GameResult::Victory)));
    assert_eq!(battle.agents.len(), 1);
    assert!(!battle.agents[0].is_enemy);
    // The ally took the dying enemy's blow, paid for its own, and now waits
    // out its cooldown; in reach, nobody moved.
    assert_eq!(battle.agents[0].hp, 40_000);
    assert_eq!(battle.agents[0].stamina, 240_000);
    assert_eq!(battle.agents[0].cooldown, 500);
    assert_eq!(battle.agents[0].x, 0);
    assert_eq!(battle.templates[0].population.0, 1);
    assert_eq!(battle.templates[1].population.0, 0);
    assert_eq!(
        events,
        vec![
            GameEvent::DamageTaken { target: 1 },
            GameEvent::DamageTaken { target: 0 },
            GameEvent::CreatureDied { is_enemy: true, x: 10_000, y: 0 },
            GameEvent::BattleResolved { result: GameResult::Victory },
        ],
    );
}
