use fuzz_envs::alchemist;
use fuzz_envs::marauder::{AlchemyAction, AlchemyEnv, AlchemyOracle, AlchemyTranslator};
use fuzz_envs::outcome::OracleStatus;

fn sorted(p: [usize; 3]) -> [usize; 3] {
    let mut q = p;
    q.sort();
    q
}

#[test]
fn new_lab_has_shuffled_slots() {
    let env = AlchemyEnv::new();
    assert_eq!(env.flasks, [0, 0, 0]);
    assert!(!env.last_step_crashed);
    assert_eq!(sorted(env.permutation), [0, 1, 2]);
}

#[test]
fn resets_deal_new_slot_orders() {
    let mut env = AlchemyEnv::new();
    let mut seen_other = false;
    for _ in 0..200 {
        env.reset();
        assert_eq!(sorted(env.permutation), [0, 1, 2]);
        if env.permutation != [0, 1, 2] {
            seen_other = true;
        }
    }
    assert!(seen_other);
}

#[test]
fn state_moves_blocks_to_their_slots() {
    let env = AlchemyEnv { flasks: [9999, 2, 1], permutation: [2, 0, 1], last_step_crashed: false };
    let plain = alchemist::AlchemyEnv { flasks: [9999, 2, 1], last_step_crashed: false }.get_state();
    let s = env.get_state();
    assert_eq!(s.len(), 18);
    for i in 0..3 {
        for b in 0..6 {
            assert_eq!(s[6 * env.permutation[i] + b], plain[6 * i + b]);
        }
    }
}

#[test]
fn marauder_reactions_match_the_alchemist() {
    let t = AlchemyTranslator;
    assert_eq!(t.translate(&[1, 0, 1]), AlchemyAction::Transfer(0, 1));
    let mut env = AlchemyEnv::new();
    let perm = env.permutation;
    env.step(&AlchemyAction::Intake(99));
    env.step(&AlchemyAction::Transfer(0, 1));
    env.step(&AlchemyAction::Catalyze(1));
    env.step(&AlchemyAction::Intake(42));
    env.step(&AlchemyAction::Transfer(0, 2));
    env.step(&AlchemyAction::Catalyze(2));
    env.step(&AlchemyAction::Intake(9999));
    assert_eq!(env.permutation, perm);
    let res = env.step(&AlchemyAction::Transmute);
    assert!(env.last_step_crashed);
    assert!(!res.is_invalid);
    assert_eq!(res.next_state, env.get_state());
    let oracle = AlchemyOracle;
    assert_eq!(oracle.judge(&mut env, true), OracleStatus::Violated);
}

#[test]
fn marauder_oracle_ignores_invalid_steps() {
    let mut env = AlchemyEnv::new();
    let oracle = AlchemyOracle;
    assert_eq!(oracle.judge(&mut env, true), OracleStatus::Hold);
}

#[test]
fn failed_marauder_step_empties_flasks() {
    let mut env = AlchemyEnv { flasks: [0, 0, 42], permutation: [0, 1, 2], last_step_crashed: false };
    env.step(&AlchemyAction::Transmute);
    assert_eq!(env.flasks, [0, 0, 0]);
    assert_eq!(sorted(env.permutation), [0, 1, 2]);
    assert_eq!(env.get_action_mask(), vec![vec![true; 4], vec![true; 6], vec![true; 6]]);
}

#[test]
fn marauder_can_step_checks_the_slot_table() {
    let env = AlchemyEnv { flasks: [0, 0, 0], permutation: [0, 1, 5], last_step_crashed: false };
    assert!(!env.can_step(&AlchemyAction::Transmute));
    let ok = AlchemyEnv { flasks: [0, 0, 0], permutation: [1, 1, 2], last_step_crashed: false };
    assert!(ok.can_step(&AlchemyAction::Transmute));
    assert!(!ok.can_step(&AlchemyAction::Catalyze(3)));
}

#[test]
fn a_slot_shown_by_no_flask_stays_dark() {
    let env = AlchemyEnv { flasks: [9999, 0, 0], permutation: [1, 1, 2], last_step_crashed: false };
    let s = env.get_state();
    assert_eq!(&s[0..6], &[false; 6]);
    assert_eq!(&s[6..12], &[false; 6]);
}
