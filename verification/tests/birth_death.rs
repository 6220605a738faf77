use rand_pcg::Pcg64Mcg;
use stoc::birth_death::birth_death_step;
use stoc::{BirthAndDeathProbabilities, ContinuousMarkovTransitions, MarkovQueueProbabilities};

#[test]
fn empty_queue_serves_nobody() {
    let queue = MarkovQueueProbabilities::new(12, 10, 2);
    assert_eq!(queue.probability_tuple(0), (12, 0));
}

#[test]
fn service_grows_with_busy_units() {
    let queue = MarkovQueueProbabilities::new(12, 10, 2);
    assert_eq!(queue.probability_tuple(1), (12, 10));
    assert_eq!(queue.probability_tuple(2), (12, 20));
}

#[test]
fn service_stops_growing_beyond_the_pool() {
    let queue = MarkovQueueProbabilities::new(12, 10, 2);
    assert_eq!(queue.probability_tuple(3), (12, 20));
    assert_eq!(queue.probability_tuple(u64::MAX), (12, 20));
}

#[test]
fn queue_without_units_only_grows() {
    let queue = MarkovQueueProbabilities::new(5, 7, 0);
    assert_eq!(queue.probability_tuple(0), (5, 0));
    assert_eq!(queue.probability_tuple(9), (5, 0));
}

#[test]
fn largest_rates_are_kept() {
    let queue = MarkovQueueProbabilities::new(1, u64::MAX - 1, 1);
    assert_eq!(queue.probability_tuple(4), (1, u64::MAX - 1));
}

#[test]
fn draw_below_birth_rate_is_a_birth() {
    assert_eq!(birth_death_step(5, 12, 20, 0), 6);
    assert_eq!(birth_death_step(5, 12, 20, 11), 6);
}

#[test]
fn draw_from_birth_rate_on_is_a_death() {
    assert_eq!(birth_death_step(5, 12, 20, 12), 4);
    assert_eq!(birth_death_step(5, 12, 20, 31), 4);
}

#[test]
fn birth_is_certain_from_empty_queue() {
    let queue = MarkovQueueProbabilities::new(12, 20, 1);
    let mut rng = Pcg64Mcg::new(21);
    for _ in 0..10_000 {
        let (to_state, _) = queue.next_transition(0, &mut rng, 1_000).unwrap();
        assert_eq!(to_state, 1);
    }
}

#[test]
fn birth_and_death_share_the_moves_by_their_rates() {
    let queue = MarkovQueueProbabilities::new(12, 20, 1);
    let mut rng = Pcg64Mcg::new(22);
    let mut births = 0u32;
    for _ in 0..32_000 {
        let (to_state, _) = queue.next_transition(7, &mut rng, 1_000).unwrap();
        assert!(to_state == 6 || to_state == 8);
        if to_state == 8 {
            births += 1;
        }
    }
    // Twelve moves in thirty-two are births.
    assert!(11_400 < births && births < 12_600, "{} births", births);
}

#[test]
fn queue_waits_unit_wait_over_total_rate() {
    let queue = MarkovQueueProbabilities::new(12, 20, 1);
    let mut rng = Pcg64Mcg::new(23);
    let (_, elapsed) = queue.next_transition(1, &mut rng, 3_200).unwrap();
    assert_eq!(elapsed, 100);
    let (_, elapsed) = queue.next_transition(0, &mut rng, 3_200).unwrap();
    assert_eq!(elapsed, 266);
    let (_, elapsed) = queue.next_transition(0, &mut rng, 11).unwrap();
    assert_eq!(elapsed, 0);
}

#[test]
fn rates_have_to_be_positive_and_in_range() {
    assert!(MarkovQueueProbabilities::accepts_rates(12, 10, 2));
    assert!(MarkovQueueProbabilities::accepts_rates(1, 1, 0));
    assert!(!MarkovQueueProbabilities::accepts_rates(0, 10, 2));
    assert!(!MarkovQueueProbabilities::accepts_rates(12, 0, 2));
    assert!(MarkovQueueProbabilities::accepts_rates(1, u64::MAX - 1, 1));
    assert!(!MarkovQueueProbabilities::accepts_rates(2, u64::MAX - 1, 1));
    assert!(!MarkovQueueProbabilities::accepts_rates(1, u64::MAX, 2));
}

#[test]
fn queue_accepts_every_state_but_the_largest() {
    let queue = MarkovQueueProbabilities::new(12, 10, 2);
    assert!(queue.accepts(0));
    assert!(queue.accepts(1));
    assert!(queue.accepts(u64::MAX - 1));
    assert!(!queue.accepts(u64::MAX));
}
