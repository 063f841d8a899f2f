use fuzz_envs::alchemist::{
    apply_reaction, fingerprint, AlchemyAction, AlchemyEnv, AlchemyOracle, AlchemyTranslator,
    VALUE_POOL,
};
use fuzz_envs::outcome::OracleStatus;

fn bits(v: &[u8]) -> Vec<bool> {
    v.iter().map(|b| *b == 1).collect()
}

#[test]
fn translate_picks_each_reaction() {
    let t = AlchemyTranslator;
    assert_eq!(t.translate(&[0, 1]), AlchemyAction::Intake(99));
    assert_eq!(t.translate(&[4, 5]), AlchemyAction::Intake(9999));
    assert_eq!(t.translate(&[1, 4, 2]), AlchemyAction::Transfer(1, 2));
    assert_eq!(t.translate(&[2, 5]), AlchemyAction::Catalyze(2));
    assert_eq!(t.translate(&[3]), AlchemyAction::Transmute);
    assert_eq!(t.translate(&[7, 0, 0]), AlchemyAction::Transmute);
    assert_eq!(VALUE_POOL, [42, 99, 9999]);
}

#[test]
fn new_lab_is_empty() {
    let env = AlchemyEnv::new();
    assert_eq!(env.flasks, [0, 0, 0]);
    assert!(!env.last_step_crashed);
    assert_eq!(env.get_state(), vec![false; 18]);
}

#[test]
fn fingerprint_values() {
    assert_eq!(fingerprint(0), 0);
    assert_eq!(fingerprint(42), 4112056851);
    assert_eq!(fingerprint(99), 796139527);
    assert_eq!(fingerprint(9999), 3100287125);
    assert_eq!(fingerprint(-42), fingerprint(42));
}

#[test]
fn state_shows_six_bits_per_flask() {
    let env = AlchemyEnv { flasks: [9999, 2, 1], last_step_crashed: false };
    let mut expected = bits(&[1, 0, 1, 0, 1, 0]);
    expected.extend(bits(&[0, 0, 1, 1, 0, 0]));
    expected.extend(bits(&[0, 1, 1, 0, 0, 0]));
    assert_eq!(env.get_state(), expected);
}

#[test]
fn reactions_succeed_and_fail() {
    let mut f = [0, 0, 0];
    assert!(apply_reaction(&mut f, &AlchemyAction::Intake(42)));
    assert_eq!(f, [42, 0, 0]);
    assert!(!apply_reaction(&mut f, &AlchemyAction::Intake(99)));
    assert_eq!(f, [42, 0, 0]);
    assert!(apply_reaction(&mut f, &AlchemyAction::Transfer(0, 2)));
    assert_eq!(f, [0, 0, 42]);
    assert!(!apply_reaction(&mut f, &AlchemyAction::Transfer(1, 2)));
    assert!(!apply_reaction(&mut f, &AlchemyAction::Transfer(2, 2)));
    assert!(apply_reaction(&mut f, &AlchemyAction::Catalyze(2)));
    assert_eq!(f, [0, 0, 1]);
    assert!(!apply_reaction(&mut f, &AlchemyAction::Catalyze(2)));
    assert!(!apply_reaction(&mut f, &AlchemyAction::Transmute));
}

#[test]
fn catalyze_needs_empty_right_neighbour() {
    let mut f = [0, 99, 5];
    assert!(!apply_reaction(&mut f, &AlchemyAction::Catalyze(1)));
    let mut g = [0, 99, 0];
    assert!(apply_reaction(&mut g, &AlchemyAction::Catalyze(1)));
    assert_eq!(g, [0, 2, 0]);
    let mut h = [42, 0, 7];
    assert!(apply_reaction(&mut h, &AlchemyAction::Catalyze(0)));
    assert_eq!(h, [1, 0, 7]);
    let mut w = [7, 0, 99];
    assert!(!apply_reaction(&mut w, &AlchemyAction::Catalyze(2)));
}

#[test]
fn failed_step_resets_the_lab() {
    let mut env = AlchemyEnv { flasks: [42, 0, 0], last_step_crashed: true };
    let res = env.step(&AlchemyAction::Intake(99));
    assert_eq!(env.flasks, [0, 0, 0]);
    assert!(!env.last_step_crashed);
    assert!(!res.is_invalid);
    assert_eq!(res.next_state, vec![false; 18]);
}

#[test]
fn transfer_round_trip_restores_flasks() {
    let mut env = AlchemyEnv { flasks: [0, 99, 0], last_step_crashed: false };
    env.step(&AlchemyAction::Transfer(1, 2));
    assert_eq!(env.flasks, [0, 0, 99]);
    env.step(&AlchemyAction::Transfer(2, 1));
    assert_eq!(env.flasks, [0, 99, 0]);
}

#[test]
fn winning_sequence_melts_the_core() {
    let mut env = AlchemyEnv::new();
    let plan = [
        AlchemyAction::Intake(99),
        AlchemyAction::Transfer(0, 1),
        AlchemyAction::Catalyze(1),
        AlchemyAction::Intake(42),
        AlchemyAction::Transfer(0, 2),
        AlchemyAction::Catalyze(2),
        AlchemyAction::Intake(9999),
    ];
    for a in plan.iter() {
        env.step(a);
        assert!(!env.last_step_crashed);
    }
    assert_eq!(env.flasks, [9999, 2, 1]);
    let oracle = AlchemyOracle;
    assert_eq!(oracle.judge(&mut env, false), OracleStatus::Hold);
    env.step(&AlchemyAction::Transmute);
    assert!(env.last_step_crashed);
    assert_eq!(env.flasks, [9999, 2, 1]);
    assert_eq!(oracle.judge(&mut env, false), OracleStatus::Violated);
    // A later working reaction leaves the flag raised; a failing one clears it.
    env.step(&AlchemyAction::Transmute);
    assert!(env.last_step_crashed);
    env.step(&AlchemyAction::Transfer(0, 1));
    assert_eq!(env.flasks, [0, 0, 0]);
    assert!(!env.last_step_crashed);
}

#[test]
fn oracle_reports_invalid_and_hold() {
    let mut env = AlchemyEnv::new();
    let oracle = AlchemyOracle;
    assert_eq!(oracle.judge(&mut env, true), OracleStatus::Invalid);
    assert_eq!(oracle.judge(&mut env, false), OracleStatus::Hold);
    env.last_step_crashed = true;
    assert_eq!(oracle.judge(&mut env, true), OracleStatus::Violated);
}

#[test]
fn masks_are_open() {
    let env = AlchemyEnv::new();
    assert_eq!(env.get_action_mask(), vec![vec![true; 4], vec![true; 6], vec![true; 6]]);
}

#[test]
fn can_step_rejects_missing_flasks_and_min_values() {
    let env = AlchemyEnv::new();
    assert!(env.can_step(&AlchemyAction::Transfer(0, 2)));
    assert!(!env.can_step(&AlchemyAction::Transfer(0, 3)));
    assert!(!env.can_step(&AlchemyAction::Catalyze(5)));
    assert!(!env.can_step(&AlchemyAction::Intake(i32::MIN)));
    let full = AlchemyEnv { flasks: [7, 0, 0], last_step_crashed: false };
    assert!(full.can_step(&AlchemyAction::Intake(i32::MIN)));
    let odd = AlchemyEnv { flasks: [0, i32::MIN, 0], last_step_crashed: false };
    assert!(!odd.can_step(&AlchemyAction::Intake(5)));
    assert!(odd.can_step(&AlchemyAction::Transmute));
}
