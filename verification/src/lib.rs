//! A Monte Carlo harness for continuous-time Markov processes, in exact
//! integer arithmetic.
//!
//! Rates are whole multiples of a rate quantum that the caller chooses, and
//! time is counted in whole ticks. A transition is decided by an integer draw
//! below the total outgoing rate of the current state; the waiting time is a
//! unit-rate exponential draw, supplied by the caller in ticks, divided by
//! that total rate.
//!
//! - [`numbers`]: the factorial.
//! - [`generator`]: the pseudo-random generator that drives every trial.
//! - [`sample`]: values that can be averaged, and their mean.
//! - [`grid`]: the rectangular table of integers behind a rate matrix.
//! - [`rate_matrix`]: the table of transition rates that a caller supplies.
//! - [`birth_death`]: rate models in which a state moves up or down by one.
//! - [`matrix_transitions`]: rate models given by a full generator matrix.
//! - [`transitions`]: what the process asks of a rate model.
//! - [`process`]: the process that steps a rate model through time.
//! - [`runner`]: many trials of one experiment, spread over workers.
//! - [`harness`]: an experiment run beside its theoretical prediction.

pub mod numbers;
pub mod generator;
pub mod sample;
pub mod grid;
pub mod rate_matrix;
pub mod transitions;
pub mod birth_death;
pub mod matrix_transitions;
pub mod process;
pub mod runner;
pub mod harness;

pub use birth_death::{BirthAndDeathProbabilities, MarkovQueueProbabilities};
pub use generator::ExperimentRng;
pub use harness::{test_theory, TestTheoryResult};
pub use matrix_transitions::MatrixTransitions;
pub use numbers::factorial;
pub use process::ContinuousMarkovProcess;
pub use rate_matrix::{RateMatrix, ShapeMismatch};
pub use runner::run_experiment;
pub use sample::{mean, Sample};
pub use transitions::ContinuousMarkovTransitions;
