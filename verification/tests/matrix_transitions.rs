use rand::Rng;
use rand_pcg::Pcg64Mcg;
use stoc::{ContinuousMarkovProcess, ContinuousMarkovTransitions, MatrixTransitions, RateMatrix};

/// A generator of four states: 0 and 1 lead to 2, 2 leads to 3, and 3 leads
/// back to 0 or 1.
fn repair_shop() -> MatrixTransitions {
    let rates = RateMatrix::from_shape_vec(
        4,
        4,
        vec![
            -1, 0, 1, 0, //
            0, -10, 10, 0, //
            0, 0, -33, 33, //
            3, 30, 0, -33,
        ],
    )
    .unwrap();
    MatrixTransitions::new(rates)
}

/// State 1 has no way out.
fn with_dead_end() -> MatrixTransitions {
    let rates = RateMatrix::from_shape_vec(
        3,
        3,
        vec![
            -5, 5, 0, //
            0, 0, 0, //
            2, 2, -4,
        ],
    )
    .unwrap();
    MatrixTransitions::new(rates)
}

#[test]
fn copy_of_model_answers_alike() {
    let model = repair_shop();
    let copy = model.clone();
    assert_eq!(copy.dimension(), 4);
    for state in 0..4 {
        assert_eq!(copy.total_rate(state), model.total_rate(state));
        for draw in 0..40 {
            assert_eq!(copy.next_state(state, draw), model.next_state(state, draw));
        }
    }
    assert_eq!(copy.next_state(3, 3), Some(1));
}

#[test]
fn model_has_one_state_per_row() {
    assert_eq!(repair_shop().dimension(), 4);
}

#[test]
fn total_rate_is_minus_the_diagonal() {
    let model = repair_shop();
    assert_eq!(model.total_rate(0), 1);
    assert_eq!(model.total_rate(1), 10);
    assert_eq!(model.total_rate(2), 33);
    assert_eq!(model.total_rate(3), 33);
}

#[test]
fn total_rate_of_the_least_diagonal() {
    let rates = RateMatrix::from_shape_vec(1, 1, vec![i64::MIN]).unwrap();
    let model = MatrixTransitions::new(rates);
    assert_eq!(model.total_rate(0), 9_223_372_036_854_775_808);
}

#[test]
fn draw_selects_first_column_above_it() {
    let model = repair_shop();
    // Row 3 accumulates to 3, 33, 33, 33.
    assert_eq!(model.next_state(3, 0), Some(0));
    assert_eq!(model.next_state(3, 2), Some(0));
    assert_eq!(model.next_state(3, 3), Some(1));
    assert_eq!(model.next_state(3, 32), Some(1));
    // Row 0 accumulates to 0, 0, 1, 1.
    assert_eq!(model.next_state(0, 0), Some(2));
    // Row 2 accumulates to 0, 0, 0, 33.
    assert_eq!(model.next_state(2, 0), Some(3));
    assert_eq!(model.next_state(2, 32), Some(3));
}

#[test]
fn draw_above_every_entry_selects_last_column() {
    let model = repair_shop();
    assert_eq!(model.next_state(3, 33), Some(3));
    assert_eq!(model.next_state(0, 1), Some(3));
    assert_eq!(model.next_state(0, u64::MAX), Some(3));
}

#[test]
fn diagonal_is_never_counted() {
    // The diagonal does not match the other rates: it still only gives the
    // total rate.
    let rates = RateMatrix::from_shape_vec(2, 2, vec![-7, 2, 4, -9]).unwrap();
    let model = MatrixTransitions::new(rates);
    assert_eq!(model.total_rate(0), 7);
    // Row 0 accumulates to 0, 2.
    assert_eq!(model.next_state(0, 0), Some(1));
    assert_eq!(model.next_state(0, 1), Some(1));
    assert_eq!(model.next_state(0, 2), Some(1));
    // Row 1 accumulates to 4, 4.
    assert_eq!(model.next_state(1, 3), Some(0));
    assert_eq!(model.next_state(1, 4), Some(1));
}

#[test]
fn row_of_zero_total_rate_is_kept() {
    // The second row has a zero diagonal and is left as it stands, whatever
    // else it holds: no transition leaves it.
    let rates = RateMatrix::from_shape_vec(2, 2, vec![-1, 1, 6, 0]).unwrap();
    let model = MatrixTransitions::new(rates);
    assert_eq!(model.total_rate(1), 0);
    assert_eq!(model.next_state(1, 0), None);
    assert_eq!(model.next_state(1, 5), None);
}

#[test]
fn state_of_zero_total_rate_has_no_successor() {
    let model = with_dead_end();
    assert_eq!(model.next_state(1, 0), None);
    let mut rng = Pcg64Mcg::new(11);
    assert_eq!(model.next_transition(1, &mut rng, 1_000), None);
}

#[test]
fn state_past_the_last_has_no_successor() {
    let model = repair_shop();
    assert_eq!(model.next_state(4, 0), None);
    let mut rng = Pcg64Mcg::new(12);
    assert_eq!(model.next_transition(4, &mut rng, 1_000), None);
}

#[test]
fn matrix_waits_unit_wait_over_total_rate() {
    let model = repair_shop();
    let mut rng = Pcg64Mcg::new(13);
    assert_eq!(model.next_transition(0, &mut rng, 1_000), Some((2, 1_000)));
    assert_eq!(model.next_transition(2, &mut rng, 1_000), Some((3, 30)));
    assert_eq!(model.next_transition(2, &mut rng, 32), Some((3, 0)));
}

#[test]
fn transitions_follow_positive_rates_only() {
    let model = repair_shop();
    let mut rng = Pcg64Mcg::new(14);
    let mut to_zero = 0u32;
    let mut to_one = 0u32;
    for _ in 0..11_000 {
        let (to_state, elapsed) = model.next_transition(3, &mut rng, 3_300).unwrap();
        assert_eq!(elapsed, 100);
        match to_state {
            0 => to_zero += 1,
            1 => to_one += 1,
            other => panic!("state 3 led to state {}", other),
        }
    }
    // One move in eleven goes to state 0.
    assert!(800 < to_zero && to_zero < 1_200, "{} moves to state 0", to_zero);
    assert_eq!(to_zero + to_one, 11_000);
}

#[test]
fn process_is_absorbed_in_a_dead_end_and_stays() {
    let mut rng = Pcg64Mcg::new(15);
    let mut process = ContinuousMarkovProcess::new(with_dead_end(), 0);
    process.step(&mut rng, 500);
    assert_eq!(process.state(), 1);
    assert_eq!(process.time(), 100);
    assert!(!process.is_absorbed());
    process.step(&mut rng, 500);
    assert!(process.is_absorbed());
    assert_eq!(process.state(), 1);
    assert_eq!(process.time(), 100);
    for _ in 0..10 {
        process.step(&mut rng, 500);
        assert!(process.is_absorbed());
        assert_eq!(process.state(), 1);
        assert_eq!(process.time(), 100);
    }
}

#[test]
fn long_run_matches_stationary_distribution() {
    // The stationary distribution of the repair shop is 3/8, 3/8, 1/8, 1/8.
    let expected = [0.375, 0.375, 0.125, 0.125];
    let ticks_per_unit = 1.0e9;
    let mut rng = Pcg64Mcg::new(16);
    let mut process = ContinuousMarkovProcess::new(repair_shop(), 0);
    let mut spent = [0u64; 4];
    for _ in 0..400_000 {
        let state = process.state();
        let before = process.time();
        let unit: f64 = rng.sample(rand_distr::Exp1);
        process.step(&mut rng, (unit * ticks_per_unit) as u64);
        spent[state as usize] += process.time() - before;
    }
    assert!(!process.is_absorbed());
    let total = process.time() as f64;
    for state in 0..4 {
        let share = spent[state] as f64 / total;
        assert!(
            (share - expected[state]).abs() < 0.01,
            "state {} holds {} of the time",
            state,
            share
        );
    }
}

#[test]
fn model_accepts_states_up_to_their_number() {
    let model = repair_shop();
    for state in 0..=4 {
        assert!(model.accepts(state));
    }
    assert!(!model.accepts(5));
    assert!(!model.accepts(u64::MAX));
}

#[test]
fn model_refuses_state_of_negative_total_rate() {
    let rates = RateMatrix::from_shape_vec(2, 2, vec![3, 1, 1, -1]).unwrap();
    let model = MatrixTransitions::new(rates);
    assert_eq!(model.total_rate(0), -3);
    assert!(!model.accepts(0));
    assert!(model.accepts(1));
    assert!(model.accepts(2));
}
