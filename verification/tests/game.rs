use fuzz_envs::game::{
    action_mask, apply_poison, is_dead, summarize, BevyAction, BevyEnv, BevyOracle,
    BevyTranslator, TickFault, Vitals, WorldCommand, FRAME_STACK,
};
use fuzz_envs::outcome::OracleStatus;

#[test]
fn translate_reads_three_heads() {
    let t = BevyTranslator;
    assert_eq!(t.translate(&[0, 3, 4]), BevyAction::SpawnEmpty);
    assert_eq!(t.translate(&[1, 3, 4]), BevyAction::Despawn(3));
    assert_eq!(t.translate(&[2, 1, 6]), BevyAction::AddHealth(1, 9999));
    assert_eq!(t.translate(&[3, 0, 10]), BevyAction::AddPoison(0, 99));
    assert_eq!(t.translate(&[9, 0, 1]), BevyAction::RunSchedule);
}

#[test]
fn temporal_bug_is_reached_by_the_poison_cycles() {
    // Poison 99, health 9999: two cycles leave health 9831 under poison 79.
    let t1 = apply_poison(9999, 99);
    assert_eq!((t1.health, t1.poison, t1.fault), (9910, 89, None));
    let t2 = apply_poison(t1.health, t1.poison);
    assert_eq!((t2.health, t2.poison, t2.fault), (9831, 79, None));
    // Health is overwritten with 99; the next cycle lands on 30 and 69.
    let t3 = apply_poison(99, t2.poison);
    assert_eq!((t3.health, t3.poison), (30, 69));
    assert_eq!(t3.fault, Some(TickFault::Meltdown));
}

#[test]
fn spent_poison_stays_and_heals_negative() {
    let t = apply_poison(50, 0);
    assert_eq!((t.health, t.poison, t.fault), (50, 0, None));
    let u = apply_poison(50, -10);
    assert_eq!((u.health, u.poison, u.fault), (60, -10, None));
    let w = apply_poison(50, 5);
    assert_eq!((w.health, w.poison, w.fault), (55, -5, None));
}

#[test]
fn overflowing_health_stops_the_cycle() {
    let t = apply_poison(i32::MAX, -10);
    assert_eq!(t.health, i32::MAX);
    assert_eq!(t.poison, -10);
    assert_eq!(t.fault, Some(TickFault::Overflow));
}

#[test]
fn death_check() {
    assert!(is_dead(0));
    assert!(is_dead(-5));
    assert!(!is_dead(1));
}

#[test]
fn summary_counts_totals_and_flags() {
    let creatures = [
        Vitals { health: Some(9999), poison: Some(99) },
        Vitals { health: Some(30), poison: None },
        Vitals { health: None, poison: Some(-10) },
    ];
    let f = summarize(&creatures);
    assert_eq!(f.alive, 3);
    assert_eq!(f.total_health, 10029);
    assert_eq!(f.total_poison, 89);
    // pool: [10, -10, 42, 99, 141, 0, 9999]
    assert_eq!(f.health_flags, [false, false, false, false, false, true, true]);
    assert_eq!(f.poison_flags, [false, true, false, true, false, true, false]);
    let e = summarize(&[]);
    assert_eq!(e.alive, 0);
    assert_eq!(e.health_flags, [false; 7]);
}

#[test]
fn masks_follow_the_alive_count() {
    assert_eq!(
        action_mask(0),
        vec![vec![true, false, false, false, true], vec![true, false, false, false, false], vec![]]
    );
    assert_eq!(
        action_mask(2),
        vec![vec![true; 5], vec![true, true, false, false, false], vec![]]
    );
    assert_eq!(action_mask(9), vec![vec![true; 5], vec![true; 5], vec![]]);
}

#[test]
fn plan_resolves_indices_and_rejects_missing_creatures() {
    let mut env = BevyEnv::new();
    assert_eq!(env.plan(&BevyAction::Despawn(0)), None);
    assert_eq!(env.plan(&BevyAction::SpawnEmpty), Some(WorldCommand::SpawnEmpty));
    env.record_spawn(77);
    env.record_spawn(78);
    assert_eq!(env.plan(&BevyAction::AddPoison(1, 99)), Some(WorldCommand::InsertPoison(78, 99)));
    assert_eq!(env.plan(&BevyAction::AddHealth(0, 10)), Some(WorldCommand::InsertHealth(77, 10)));
    assert_eq!(env.plan(&BevyAction::Despawn(2)), None);
    assert_eq!(env.plan(&BevyAction::RunSchedule), Some(WorldCommand::RunSchedule));
    env.sync_alive_entities(vec![78]);
    assert_eq!(env.plan(&BevyAction::Despawn(0)), Some(WorldCommand::Despawn(78)));
    assert_eq!(env.get_action_mask()[1], vec![true, false, false, false, false]);
}

#[test]
fn frames_roll_and_reset_counts_episodes() {
    let mut env = BevyEnv::new();
    assert_eq!(env.get_state().len(), FRAME_STACK);
    let creature = [Vitals { health: Some(42), poison: Some(10) }];
    let res = env.finish_step(false, &creature, true);
    assert!(res.is_invalid);
    assert_eq!(res.next_state.len(), FRAME_STACK);
    assert_eq!(res.next_state[FRAME_STACK - 1].total_health, 42);
    assert_eq!(res.next_state[0].alive, 0);
    env.finish_step(true, &creature, false);
    assert!(env.last_step_crashed);
    assert_eq!(env.get_state()[FRAME_STACK - 2].total_poison, 10);
    let oracle = BevyOracle;
    assert_eq!(oracle.judge(&mut env, false), OracleStatus::Violated);
    env.reset();
    assert_eq!(env.current_episode, 1);
    assert!(!env.last_step_crashed);
    assert!(env.alive_entities.is_empty());
    assert!(env.get_state().iter().all(|f| f.alive == 0 && f.total_health == 0));
    assert_eq!(oracle.judge(&mut env, true), OracleStatus::Invalid);
    assert_eq!(oracle.judge(&mut env, false), OracleStatus::Hold);
}
