use rand_pcg::Pcg64Mcg;
use stoc::{BirthAndDeathProbabilities, ContinuousMarkovProcess, MarkovQueueProbabilities};

#[test]
fn new_process_starts_at_time_zero() {
    let process = ContinuousMarkovProcess::new(MarkovQueueProbabilities::new(3, 4, 1), 7);
    assert_eq!(process.state(), 7);
    assert_eq!(process.time(), 0);
    assert!(!process.is_absorbed());
}

#[test]
fn transition_moves_state_and_time() {
    let mut process = ContinuousMarkovProcess::new(MarkovQueueProbabilities::new(3, 4, 1), 7);
    process.advance(Some((8, 25)));
    assert_eq!(process.state(), 8);
    assert_eq!(process.time(), 25);
    assert!(!process.is_absorbed());
    process.advance(Some((7, 5)));
    assert_eq!(process.state(), 7);
    assert_eq!(process.time(), 30);
}

#[test]
fn no_transition_absorbs_in_place() {
    let mut process = ContinuousMarkovProcess::new(MarkovQueueProbabilities::new(3, 4, 1), 7);
    process.advance(Some((8, 25)));
    process.advance(None);
    assert!(process.is_absorbed());
    assert_eq!(process.state(), 8);
    assert_eq!(process.time(), 25);
}

#[test]
fn absorbed_process_ignores_transitions() {
    let mut process = ContinuousMarkovProcess::new(MarkovQueueProbabilities::new(3, 4, 1), 7);
    process.advance(None);
    process.advance(Some((1, 99)));
    process.advance(None);
    assert!(process.is_absorbed());
    assert_eq!(process.state(), 7);
    assert_eq!(process.time(), 0);
}

#[test]
fn time_may_reach_the_last_tick() {
    let mut process = ContinuousMarkovProcess::new(MarkovQueueProbabilities::new(3, 4, 1), 0);
    process.advance(Some((1, u64::MAX - 1)));
    process.advance(Some((2, 1)));
    assert_eq!(process.time(), u64::MAX);
}

#[test]
fn step_moves_by_one_and_time_never_falls() {
    let mut rng = Pcg64Mcg::new(31);
    let mut process = ContinuousMarkovProcess::new(MarkovQueueProbabilities::new(3, 4, 2), 0);
    for _ in 0..1_000 {
        let state = process.state();
        let time = process.time();
        process.step(&mut rng, 700);
        let moved = process.state();
        assert!(moved == state + 1 || moved + 1 == state);
        assert!(process.time() >= time);
        assert!(!process.is_absorbed());
    }
}

#[test]
fn step_adds_unit_wait_over_total_rate() {
    let mut rng = Pcg64Mcg::new(32);
    let mut process = ContinuousMarkovProcess::new(MarkovQueueProbabilities::new(3, 4, 2), 0);
    process.step(&mut rng, 700);
    assert_eq!(process.state(), 1);
    assert_eq!(process.time(), 233);
    process.step(&mut rng, 700);
    assert_eq!(process.time(), 333);
}

#[test]
fn process_hands_out_its_model() {
    let process = ContinuousMarkovProcess::new(MarkovQueueProbabilities::new(3, 4, 2), 0);
    assert_eq!(process.transitions().probability_tuple(5), (3, 8));
}

#[test]
fn copy_of_process_goes_its_own_way() {
    let mut process = ContinuousMarkovProcess::new(MarkovQueueProbabilities::new(3, 4, 1), 7);
    process.advance(Some((8, 25)));
    let mut copy = process.clone();
    copy.advance(None);
    assert!(copy.is_absorbed());
    assert_eq!(copy.state(), 8);
    assert_eq!(copy.time(), 25);
    assert!(!process.is_absorbed());
}

#[test]
fn process_is_ready_while_the_time_has_room() {
    let mut process = ContinuousMarkovProcess::new(MarkovQueueProbabilities::new(3, 4, 1), 0);
    assert!(process.ready(u64::MAX));
    process.advance(Some((1, 10)));
    assert!(process.ready(u64::MAX - 10));
    assert!(!process.ready(u64::MAX - 9));
    process.advance(None);
    assert!(process.ready(u64::MAX));
}

#[test]
fn process_is_not_ready_in_a_state_that_its_model_refuses() {
    let process = ContinuousMarkovProcess::new(MarkovQueueProbabilities::new(3, 4, 1), u64::MAX);
    assert!(!process.ready(0));
}
