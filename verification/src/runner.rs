use vstd::prelude::*;
use rayon::iter::IntoParallelIterator;
use rayon::iter::ParallelIterator;
use crate::generator::{
    generator_after,
    generator_from_seed,
    lemma_one_more_output,
    next_seed,
    outputs_of,
    seeded_generator,
    ExperimentRng,
};
use crate::sample::{can_average, mean, mean_of, Sample};

verus! {

/// Whether `experiment` may be called on `parameters` with any generator.
pub open spec fn always_callable<P, E: Fn(&P, &mut ExperimentRng) -> S, S>(
    experiment: E,
    parameters: &P,
) -> bool {
    forall|rng: &mut ExperimentRng| call_requires(experiment, (parameters, rng))
}

/// Whether `sample` is a value that `experiment` may return on `parameters`.
pub open spec fn is_outcome<P, E: Fn(&P, &mut ExperimentRng) -> S, S>(
    experiment: E,
    parameters: &P,
    sample: S,
) -> bool {
    exists|rng: &mut ExperimentRng| call_ensures(experiment, (parameters, rng), sample)
}

/// Whether each of `samples` is a value that `experiment` may return on
/// `parameters`.
pub open spec fn all_outcomes<P, E: Fn(&P, &mut ExperimentRng) -> S, S>(
    experiment: E,
    parameters: &P,
    samples: Seq<S>,
) -> bool {
    forall|k: int| 0 <= k < samples.len() ==> is_outcome(experiment, parameters, #[trigger] samples[k])
}

/// Whether `batch` holds, in order, what `experiment` returned on each of
/// `calls`. A call stands for the generator that was lent to the experiment:
/// as it was handed in, and as it came back.
pub open spec fn answers<P, E: Fn(&P, &mut ExperimentRng) -> S, S>(
    experiment: E,
    parameters: &P,
    calls: Seq<&mut ExperimentRng>,
    batch: Seq<S>,
) -> bool {
    &&& calls.len() == batch.len()
    &&& forall|k: int|
        0 <= k < batch.len() ==> call_ensures(experiment, (parameters, #[trigger] calls[k]), batch[k])
}

/// Whether each of `batches` is `each` long and holds what `experiment`
/// returned on the calls of its worker.
pub open spec fn all_answers<P, E: Fn(&P, &mut ExperimentRng) -> S, S>(
    experiment: E,
    parameters: &P,
    calls: Seq<Seq<&mut ExperimentRng>>,
    batches: Seq<Seq<S>>,
    each: nat,
) -> bool {
    &&& calls.len() == batches.len()
    &&& forall|j: int|
        0 <= j < batches.len() ==> (#[trigger] batches[j]).len() == each && answers(
            experiment,
            parameters,
            calls[j],
            batches[j],
        )
}

/// What the experiment returned on some calls are values that it may return.
pub proof fn lemma_answers_are_outcomes<P, E: Fn(&P, &mut ExperimentRng) -> S, S>(
    experiment: E,
    parameters: &P,
    calls: Seq<&mut ExperimentRng>,
    batch: Seq<S>,
)
    requires
        answers(experiment, parameters, calls, batch),
    ensures
        all_outcomes(experiment, parameters, batch),
{
    assert forall|k: int| 0 <= k < batch.len() implies is_outcome(
        experiment,
        parameters,
        #[trigger] batch[k],
    ) by {
        assert(call_ensures(experiment, (parameters, calls[k]), batch[k]));
    }
}

/// The number of trials that each worker runs: the whole part of the samples
/// over the workers. What is left over is not run.
pub open spec fn trials_per_worker(num_samples: u32, max_threads: u32) -> nat {
    (num_samples as nat) / (max_threads as nat)
}

/// The number of trials that all workers run together.
pub open spec fn trials_run(num_samples: u32, max_threads: u32) -> nat {
    (max_threads as nat) * trials_per_worker(num_samples, max_threads)
}

/// The batches, one after the other.
pub open spec fn joined<S>(batches: Seq<Seq<S>>) -> Seq<S>
    decreases batches.len(),
{
    if batches.len() == 0 {
        Seq::empty()
    } else {
        joined(batches.drop_last()) + batches.last()
    }
}

/// As many batches of one length hold that length times their number.
pub proof fn lemma_joined_len<S>(batches: Seq<Seq<S>>, each: nat)
    requires
        forall|j: int| 0 <= j < batches.len() ==> (#[trigger] batches[j]).len() == each,
    ensures
        joined(batches).len() == batches.len() * each,
    decreases batches.len(),
{
    if batches.len() > 0 {
        lemma_joined_len(batches.drop_last(), each);
        assert(batches.len() * each == (batches.len() - 1) * each + each) by (nonlinear_arith);
    } else {
        assert(batches.len() * each == 0) by (nonlinear_arith)
            requires
                batches.len() == 0,
        ;
    }
}

/// One seed for each worker, drawn from the root generator one after the
/// other: the seeds are a function of the root generator and the number of
/// workers, and so is the generator that is left.
pub fn draw_seeds(rng: &mut ExperimentRng, max_threads: u32) -> (seeds: Vec<u64>)
    ensures
        seeds@.len() == max_threads,
        seeds@ == outputs_of(*old(rng), max_threads as nat),
        *final(rng) == generator_after(*old(rng), max_threads as nat),
{
    let mut seeds: Vec<u64> = Vec::new();
    let mut k: u32 = 0;
    while k < max_threads
        invariant
            k <= max_threads,
            seeds@.len() == k,
            seeds@ == outputs_of(*old(rng), k as nat),
            *rng == generator_after(*old(rng), k as nat),
        decreases max_threads - k,
    {
        proof {
            lemma_one_more_output(*old(rng), k as nat);
        }
        let seed = next_seed(rng);
        seeds.push(seed);
        k += 1;
    }
    seeds
}

/// The work of one worker: a generator made from `seed`, and `trials` calls
/// of the experiment on it, one after the other. The first call gets the
/// generator of the seed, and each later one the generator as the call
/// before it left it.
pub fn run_worker<P, E, S>(experiment: &E, parameters: &P, seed: u64, trials: u32) -> (batch: Vec<S>)
    where E: Fn(&P, &mut ExperimentRng) -> S
    requires
        always_callable(*experiment, parameters),
    ensures
        batch@.len() == trials,
        all_outcomes(*experiment, parameters, batch@),
        exists|calls: Seq<&mut ExperimentRng>|
            {
                &&& #[trigger] answers(*experiment, parameters, calls, batch@)
                &&& trials > 0 ==> *calls[0] == seeded_generator(seed)
                &&& forall|k: int| 0 < k < trials ==> *(#[trigger] calls[k]) == *final(calls[k - 1])
            },
{
    let mut rng = generator_from_seed(seed);
    let mut batch: Vec<S> = Vec::new();
    let mut k: u32 = 0;
    assert(answers(*experiment, parameters, Seq::<&mut ExperimentRng>::empty(), batch@));
    while k < trials
        invariant
            k <= trials,
            batch@.len() == k,
            always_callable(*experiment, parameters),
            k == 0 ==> rng == seeded_generator(seed),
            exists|calls: Seq<&mut ExperimentRng>|
                {
                    &&& #[trigger] answers(*experiment, parameters, calls, batch@)
                    &&& k > 0 ==> *calls[0] == seeded_generator(seed) && rng == *final(calls[k - 1])
                    &&& forall|i: int| 0 < i < k ==> *(#[trigger] calls[i]) == *final(calls[i - 1])
                },
        decreases trials - k,
    {
        let ghost start = rng;
        let ghost earlier = batch@;
        let sample = experiment(parameters, &mut rng);
        batch.push(sample);
        proof {
            let calls = choose|calls: Seq<&mut ExperimentRng>|
                {
                    &&& #[trigger] answers(*experiment, parameters, calls, earlier)
                    &&& k > 0 ==> *calls[0] == seeded_generator(seed) && start == *final(calls[k - 1])
                    &&& forall|i: int| 0 < i < k ==> *(#[trigger] calls[i]) == *final(calls[i - 1])
                };
            let call = choose|call: &mut ExperimentRng|
                *call == start && *final(call) == rng && #[trigger] call_ensures(
                    *experiment,
                    (parameters, call),
                    sample,
                );
            let longer = calls.push(call);
            assert forall|i: int| 0 <= i < batch@.len() implies call_ensures(
                *experiment,
                (parameters, #[trigger] longer[i]),
                batch@[i],
            ) by {
                if i < k {
                    assert(longer[i] == calls[i]);
                    assert(batch@[i] == earlier[i]);
                }
            }
            assert(answers(*experiment, parameters, longer, batch@));
            assert forall|i: int| 0 < i < k + 1 implies *(#[trigger] longer[i]) == *final(
                longer[i - 1]) by {
                if i < k {
                    assert(longer[i] == calls[i]);
                    assert(longer[i - 1] == calls[i - 1]);
                }
            }
        }
        k += 1;
    }
    proof {
        let calls = choose|calls: Seq<&mut ExperimentRng>|
            #[trigger] answers(*experiment, parameters, calls, batch@);
        lemma_answers_are_outcomes(*experiment, parameters, calls, batch@);
    }
    batch
}

/// Runs one worker for each seed on the thread pool of `rayon`, by
/// `into_par_iter`, `map` and `collect`: every seed is handed to
/// `run_worker` once, and the batches come back in the order of the seeds.
/// Each batch is what `run_worker` returns for its seed.
#[verifier::external_body]
fn run_workers<P, E, S>(experiment: &E, parameters: &P, seeds: Vec<u64>, trials: u32) -> (batches: Vec<
    Vec<S>,
>)
    where P: Sync, E: Fn(&P, &mut ExperimentRng) -> S + Sync + Send, S: Send
    requires
        always_callable(*experiment, parameters),
    ensures
        batches@.len() == seeds@.len(),
        forall|j: int|
            0 <= j < batches@.len() ==> {
                &&& (#[trigger] batches@[j])@.len() == trials
                &&& all_outcomes(*experiment, parameters, batches@[j]@)
                &&& exists|calls: Seq<&mut ExperimentRng>|
                    {
                        &&& #[trigger] answers(*experiment, parameters, calls, batches@[j]@)
                        &&& trials > 0 ==> *calls[0] == seeded_generator(seeds@[j])
                        &&& forall|k: int|
                            0 < k < trials ==> *(#[trigger] calls[k]) == *final(calls[k - 1])
                    }
            },
{
    seeds.into_par_iter().map(|seed| run_worker(experiment, parameters, seed, trials)).collect()
}

/// The mean of the trials of one worker for each of `seeds`, `trials` to a
/// worker.
///
/// Each worker makes its own generator from its seed and calls the
/// experiment on it trial after trial: the first call gets the generator of
/// the seed, and each later one the generator as the call before it left it.
/// The samples are averaged worker by worker in the order of the seeds, each
/// worker's in the order of its trials. Where the samples are exact, the
/// result is their mean.
pub fn run_from_seeds<P, E, S>(experiment: &E, parameters: &P, seeds: Vec<u64>, trials: u32) -> (mean: S)
    where P: Sync, E: Fn(&P, &mut ExperimentRng) -> S + Sync + Send, S: Sample
    requires
        seeds@.len() > 0,
        trials > 0,
        always_callable(*experiment, parameters),
        forall|samples: Seq<S>|
            samples.len() == seeds@.len() * trials && all_outcomes(*experiment, parameters, samples)
                ==> can_average(samples),
    ensures
        exists|calls: Seq<Seq<&mut ExperimentRng>>, batches: Seq<Seq<S>>|
            {
                &&& batches.len() == seeds@.len()
                &&& #[trigger] all_answers(*experiment, parameters, calls, batches, trials as nat)
                &&& forall|j: int|
                    0 <= j < seeds@.len() ==> *(#[trigger] calls[j])[0] == seeded_generator(
                        seeds@[j],
                    )
                &&& forall|j: int, k: int|
                    0 <= j < seeds@.len() && 0 < k < trials ==> *(#[trigger] calls[j][k]) == *final(
                        calls[j][k - 1])
                &&& joined(batches).len() == seeds@.len() * trials
                &&& all_outcomes(*experiment, parameters, joined(batches))
                &&& S::exact() ==> mean == mean_of(joined(batches))
            },
{
    let ghost drawn = seeds@;
    let mut batches = run_workers(experiment, parameters, seeds, trials);
    let ghost run = batches@.map_values(|batch: Vec<S>| batch@);
    proof {
        assert forall|i: int| 0 <= i < run.len() implies (#[trigger] run[i]).len() == trials
            && all_outcomes(*experiment, parameters, run[i]) by {
            assert(batches@[i]@.len() == trials);
        }
        let calls = Seq::new(
            run.len(),
            |j: int|
                choose|calls: Seq<&mut ExperimentRng>|
                    {
                        &&& #[trigger] answers(*experiment, parameters, calls, run[j])
                        &&& *calls[0] == seeded_generator(drawn[j])
                        &&& forall|k: int|
                            0 < k < trials ==> *(#[trigger] calls[k]) == *final(calls[k - 1])
                    },
        );
        assert forall|j: int| 0 <= j < run.len() implies {
            &&& answers(*experiment, parameters, #[trigger] calls[j], run[j])
            &&& *calls[j][0] == seeded_generator(drawn[j])
            &&& forall|k: int| 0 < k < trials ==> *(#[trigger] calls[j][k]) == *final(calls[j][k - 1])
        } by {
            assert(batches@[j]@.len() == trials);
        }
        assert(all_answers(*experiment, parameters, calls, run, trials as nat));
    }
    let mut total: Vec<S> = Vec::new();
    let mut j: usize = 0;
    while j < batches.len()
        invariant
            j <= batches@.len(),
            batches@.len() == run.len(),
            forall|i: int| j <= i < run.len() ==> (#[trigger] batches@[i])@ == run[i],
            forall|i: int|
                0 <= i < run.len() ==> (#[trigger] run[i]).len() == trials && all_outcomes(
                    *experiment,
                    parameters,
                    run[i],
                ),
            total@ == joined(run.take(j as int)),
            all_outcomes(*experiment, parameters, total@),
        decreases batches@.len() - j,
    {
        proof {
            assert(run.take(j + 1).drop_last() =~= run.take(j as int));
            assert(run.take(j + 1).last() == run[j as int]);
        }
        let mut batch: Vec<S> = Vec::new();
        std::mem::swap(&mut batch, &mut batches[j]);
        total.append(&mut batch);
        j += 1;
    }
    proof {
        assert(run.take(j as int) =~= run);
        lemma_joined_len(run, trials as nat);
        assert(total@.len() > 0) by (nonlinear_arith)
            requires
                total@.len() == run.len() * (trials as nat),
                run.len() > 0,
                trials > 0,
        ;
    }
    mean(&total)
}

/// The mean of many trials of `experiment`, spread over `max_threads`
/// workers.
///
/// Each worker runs the whole part of `num_samples` over `max_threads`
/// trials; what is left over is not run. The seeds of the workers are drawn
/// from `rng` before any trial starts, one after the other; the rest is done
/// as `run_from_seeds` does it.
pub fn run_experiment<P, E, S>(
    experiment: E,
    parameters: &P,
    num_samples: u32,
    max_threads: u32,
    rng: &mut ExperimentRng,
) -> (mean: S)
    where P: Sync, E: Fn(&P, &mut ExperimentRng) -> S + Sync + Send, S: Sample
    requires
        0 < max_threads <= num_samples,
        always_callable(experiment, parameters),
        forall|samples: Seq<S>|
            samples.len() == trials_run(num_samples, max_threads) && all_outcomes(
                experiment,
                parameters,
                samples,
            ) ==> can_average(samples),
    ensures
        *final(rng) == generator_after(*old(rng), max_threads as nat),
        exists|calls: Seq<Seq<&mut ExperimentRng>>, batches: Seq<Seq<S>>|
            {
                &&& batches.len() == max_threads
                &&& #[trigger] all_answers(
                    experiment,
                    parameters,
                    calls,
                    batches,
                    trials_per_worker(num_samples, max_threads),
                )
                &&& forall|j: int|
                    0 <= j < max_threads ==> *(#[trigger] calls[j])[0] == seeded_generator(
                        outputs_of(*old(rng), max_threads as nat)[j],
                    )
                &&& forall|j: int, k: int|
                    0 <= j < max_threads && 0 < k < trials_per_worker(num_samples, max_threads)
                        ==> *(#[trigger] calls[j][k]) == *final(calls[j][k - 1])
                &&& joined(batches).len() == trials_run(num_samples, max_threads)
                &&& all_outcomes(experiment, parameters, joined(batches))
                &&& S::exact() ==> mean == mean_of(joined(batches))
            },
{
    let num_samples_per_thread = num_samples / max_threads;
    assert(num_samples_per_thread >= 1) by (nonlinear_arith)
        requires
            0 < max_threads <= num_samples,
            num_samples_per_thread == num_samples / max_threads,
    ;
    let seeds = draw_seeds(rng, max_threads);
    run_from_seeds(&experiment, parameters, seeds, num_samples_per_thread)
}

/// A worker is repeatable where its experiment is: two workers that start
/// from the same generator and run as many trials of an experiment whose
/// answer and whose use of the generator depend on nothing but the
/// parameters and the generator, get the same samples.
pub proof fn lemma_equal_starts_give_equal_batches<P, E: Fn(&P, &mut ExperimentRng) -> S, S>(
    experiment: E,
    parameters: &P,
    start: ExperimentRng,
    first_calls: Seq<&mut ExperimentRng>,
    first: Seq<S>,
    second_calls: Seq<&mut ExperimentRng>,
    second: Seq<S>,
)
    requires
        forall|one: &mut ExperimentRng, other: &mut ExperimentRng, sample: S, twin: S|
            *one == *other && #[trigger] call_ensures(experiment, (parameters, one), sample)
                && #[trigger] call_ensures(experiment, (parameters, other), twin) ==> sample == twin
                && *final(one) == *final(other),
        first.len() == second.len(),
        answers(experiment, parameters, first_calls, first),
        answers(experiment, parameters, second_calls, second),
        first.len() > 0 ==> *first_calls[0] == start && *second_calls[0] == start,
        forall|k: int|
            0 < k < first.len() ==> *(#[trigger] first_calls[k]) == *final(first_calls[k - 1]),
        forall|k: int|
            0 < k < first.len() ==> *(#[trigger] second_calls[k]) == *final(second_calls[k - 1]),
    ensures
        first == second,
{
    assert forall|k: int| 0 <= k < first.len() implies first[k] == second[k] by {
        lemma_equal_starts_agree_at(
            experiment,
            parameters,
            start,
            first_calls,
            first,
            second_calls,
            second,
            k,
        );
    }
    assert(first =~= second);
}

proof fn lemma_equal_starts_agree_at<P, E: Fn(&P, &mut ExperimentRng) -> S, S>(
    experiment: E,
    parameters: &P,
    start: ExperimentRng,
    first_calls: Seq<&mut ExperimentRng>,
    first: Seq<S>,
    second_calls: Seq<&mut ExperimentRng>,
    second: Seq<S>,
    at: int,
)
    requires
        forall|one: &mut ExperimentRng, other: &mut ExperimentRng, sample: S, twin: S|
            *one == *other && #[trigger] call_ensures(experiment, (parameters, one), sample)
                && #[trigger] call_ensures(experiment, (parameters, other), twin) ==> sample == twin
                && *final(one) == *final(other),
        first.len() == second.len(),
        answers(experiment, parameters, first_calls, first),
        answers(experiment, parameters, second_calls, second),
        first.len() > 0 ==> *first_calls[0] == start && *second_calls[0] == start,
        forall|k: int|
            0 < k < first.len() ==> *(#[trigger] first_calls[k]) == *final(first_calls[k - 1]),
        forall|k: int|
            0 < k < first.len() ==> *(#[trigger] second_calls[k]) == *final(second_calls[k - 1]),
        0 <= at < first.len(),
    ensures
        first[at] == second[at],
        *first_calls[at] == *second_calls[at],
        *final(first_calls[at]) == *final(second_calls[at]),
    decreases at,
{
    if at > 0 {
        lemma_equal_starts_agree_at(
            experiment,
            parameters,
            start,
            first_calls,
            first,
            second_calls,
            second,
            at - 1,
        );
    }
    assert(call_ensures(experiment, (parameters, first_calls[at]), first[at]));
    assert(call_ensures(experiment, (parameters, second_calls[at]), second[at]));
}

/// A run is repeatable where its experiment is: two runs whose workers start
/// from the same generators and run as many trials of an experiment whose
/// answer and whose use of the generator depend on nothing but the
/// parameters and the generator, get the same samples, and so the same mean.
pub proof fn lemma_equal_runs_agree<P, E: Fn(&P, &mut ExperimentRng) -> S, S: Sample>(
    experiment: E,
    parameters: &P,
    starts: Seq<ExperimentRng>,
    each: nat,
    first_calls: Seq<Seq<&mut ExperimentRng>>,
    first: Seq<Seq<S>>,
    second_calls: Seq<Seq<&mut ExperimentRng>>,
    second: Seq<Seq<S>>,
)
    requires
        forall|one: &mut ExperimentRng, other: &mut ExperimentRng, sample: S, twin: S|
            *one == *other && #[trigger] call_ensures(experiment, (parameters, one), sample)
                && #[trigger] call_ensures(experiment, (parameters, other), twin) ==> sample == twin
                && *final(one) == *final(other),
        each > 0,
        first.len() == starts.len(),
        second.len() == starts.len(),
        all_answers(experiment, parameters, first_calls, first, each),
        all_answers(experiment, parameters, second_calls, second, each),
        forall|j: int| 0 <= j < starts.len() ==> *(#[trigger] first_calls[j])[0] == starts[j],
        forall|j: int| 0 <= j < starts.len() ==> *(#[trigger] second_calls[j])[0] == starts[j],
        forall|j: int, k: int|
            0 <= j < starts.len() && 0 < k < each ==> *(#[trigger] first_calls[j][k]) == *final(
                first_calls[j][k - 1]),
        forall|j: int, k: int|
            0 <= j < starts.len() && 0 < k < each ==> *(#[trigger] second_calls[j][k]) == *final(
                second_calls[j][k - 1]),
    ensures
        first == second,
        mean_of(joined(first)) == mean_of(joined(second)),
{
    assert forall|j: int| 0 <= j < starts.len() implies first[j] == second[j] by {
        assert(first[j].len() == each && second[j].len() == each);
        lemma_equal_starts_give_equal_batches(
            experiment,
            parameters,
            starts[j],
            first_calls[j],
            first[j],
            second_calls[j],
            second[j],
        );
    }
    assert(first =~= second);
}

} // verus!
