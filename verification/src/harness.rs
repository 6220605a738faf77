use vstd::prelude::*;
use std::time::Duration;
use std::time::Instant;
use crate::generator::{generator_after, outputs_of, seeded_generator, ExperimentRng};
use crate::runner::{
    all_answers,
    all_outcomes,
    always_callable,
    joined,
    run_experiment,
    trials_per_worker,
    trials_run,
};
use crate::sample::{can_average, mean_of, Sample};

verus! {

#[verifier::external_type_specification]
#[verifier::external_body]
pub struct ExInstant(Instant);

/// Calls `Instant::now` of std. Nothing is claimed of the moment that it
/// returns.
#[verifier::external_body]
fn now() -> Instant {
    Instant::now()
}

/// Calls `saturating_duration_since` of std: the time from `start` to `end`.
/// Nothing is claimed of its length.
#[verifier::external_body]
fn time_between(start: Instant, end: Instant) -> Duration {
    end.saturating_duration_since(start)
}

/// `clone` of a `Duration` returns the duration that it was called on.
pub assume_specification[ <Duration as Clone>::clone ](duration: &Duration) -> (copy: Duration)
    ensures
        copy == *duration,
;

/// What one run of the harness found: the prediction, the mean of the
/// trials, and how long both took.
#[derive(Debug, Clone, Copy)]
pub struct TestTheoryResult<S: Sample> {
    theoretical_result: S,
    empirical_mean: S,
    time_elapsed: Duration,
}

impl<S: Sample> TestTheoryResult<S> {
    /// The prediction.
    pub closed spec fn theoretical_result(&self) -> S {
        self.theoretical_result
    }

    /// The mean of the trials.
    pub closed spec fn empirical_mean(&self) -> S {
        self.empirical_mean
    }

    /// The time that the run took.
    pub closed spec fn elapsed(&self) -> Duration {
        self.time_elapsed
    }

    /// The prediction and the mean of the trials, in this order.
    pub fn parts(&self) -> (parts: (&S, &S))
        ensures
            *parts.0 == self.theoretical_result(),
            *parts.1 == self.empirical_mean(),
    {
        (&self.theoretical_result, &self.empirical_mean)
    }

    /// The time that the run took.
    pub fn time_elapsed(&self) -> (elapsed: Duration)
        ensures
            elapsed == self.elapsed(),
    {
        self.time_elapsed
    }
}

/// Runs `experiment` as `run_experiment` does, works out the prediction of
/// `theory` for the same parameters, and times the two together. The mean is
/// what `run_experiment` returns, and the prediction what `theory` returns;
/// nothing is claimed of the time.
pub fn test_theory<P, E, S, T>(
    experiment: E,
    theory: T,
    parameters: &P,
    samples: u32,
    max_threads: u32,
    rng: &mut ExperimentRng,
) -> (result: TestTheoryResult<S>)
    where
        P: Sync,
        E: Fn(&P, &mut ExperimentRng) -> S + Sync + Send,
        S: Sample,
        T: Fn(&P) -> S,
    requires
        0 < max_threads <= samples,
        always_callable(experiment, parameters),
        call_requires(theory, (parameters,)),
        forall|trials: Seq<S>|
            trials.len() == trials_run(samples, max_threads) && all_outcomes(
                experiment,
                parameters,
                trials,
            ) ==> can_average(trials),
    ensures
        call_ensures(theory, (parameters,), result.theoretical_result()),
        exists|calls: Seq<Seq<&mut ExperimentRng>>, batches: Seq<Seq<S>>|
            {
                &&& batches.len() == max_threads
                &&& #[trigger] all_answers(
                    experiment,
                    parameters,
                    calls,
                    batches,
                    trials_per_worker(samples, max_threads),
                )
                &&& forall|j: int|
                    0 <= j < max_threads ==> *(#[trigger] calls[j])[0] == seeded_generator(
                        outputs_of(*old(rng), max_threads as nat)[j],
                    )
                &&& forall|j: int, k: int|
                    0 <= j < max_threads && 0 < k < trials_per_worker(samples, max_threads)
                        ==> *(#[trigger] calls[j][k]) == *final(calls[j][k - 1])
                &&& joined(batches).len() == trials_run(samples, max_threads)
                &&& all_outcomes(experiment, parameters, joined(batches))
                &&& S::exact() ==> result.empirical_mean() == mean_of(joined(batches))
            },
        *final(rng) == generator_after(*old(rng), max_threads as nat),
{
    let start_time = now();
    let empirical_mean = run_experiment(experiment, parameters, samples, max_threads, rng);
    let theoretical_result = theory(parameters);
    let end_time = now();
    TestTheoryResult {
        theoretical_result,
        empirical_mean,
        time_elapsed: time_between(start_time, end_time),
    }
}

} // verus!
