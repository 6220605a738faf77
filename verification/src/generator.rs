use vstd::prelude::*;

verus! {

#[verifier::external_type_specification]
#[verifier::external_body]
pub struct ExMcg128Xsl64(rand_pcg::Mcg128Xsl64);

/// The generator that drives every trial: the 128-bit multiplicative
/// congruential generator of `rand_pcg`.
///
/// It is a deterministic generator. All that it will ever hand out is fixed
/// by its state, and two generators are the same where their states are.
pub type ExperimentRng = rand_pcg::Mcg128Xsl64;

/// The generator that `seed_from_u64` of `rand_core` makes of `seed`.
pub uninterp spec fn seeded_generator(seed: u64) -> rand_pcg::Mcg128Xsl64;

/// What `next_u64` does to a generator: the number that it hands out, and
/// the generator that it leaves behind.
pub uninterp spec fn next_output(rng: rand_pcg::Mcg128Xsl64) -> (u64, rand_pcg::Mcg128Xsl64);

/// The first `count` numbers that a generator hands out, in order.
pub open spec fn outputs_of(rng: ExperimentRng, count: nat) -> Seq<u64>
    decreases count,
{
    if count == 0 {
        Seq::empty()
    } else {
        seq![next_output(rng).0] + outputs_of(next_output(rng).1, (count - 1) as nat)
    }
}

/// The generator that is left after `count` numbers were handed out.
pub open spec fn generator_after(rng: ExperimentRng, count: nat) -> ExperimentRng
    decreases count,
{
    if count == 0 {
        rng
    } else {
        generator_after(next_output(rng).1, (count - 1) as nat)
    }
}

/// Taking one more number appends it to the outputs and moves the generator
/// one step further.
pub proof fn lemma_one_more_output(rng: ExperimentRng, count: nat)
    ensures
        outputs_of(rng, count + 1) == outputs_of(rng, count).push(
            next_output(generator_after(rng, count)).0,
        ),
        generator_after(rng, count + 1) == next_output(generator_after(rng, count)).1,
        outputs_of(rng, count).len() == count,
    decreases count,
{
    let rest = next_output(rng).1;
    if count == 0 {
        assert(outputs_of(rest, 0) == Seq::<u64>::empty());
        assert(generator_after(rest, 0) == rest);
        assert(outputs_of(rng, 1) =~= Seq::<u64>::empty().push(next_output(rng).0));
    } else {
        lemma_one_more_output(rest, (count - 1) as nat);
        assert(generator_after(rng, count + 1) == generator_after(rest, count));
        assert(outputs_of(rng, count + 1) =~= outputs_of(rng, count).push(
            next_output(generator_after(rng, count)).0,
        ));
    }
}

/// Calls `seed_from_u64` of `rand_core` for the generator, which fills the
/// state from the seed by a fixed recurrence: the result is a function of the
/// seed alone.
#[verifier::external_body]
pub(crate) fn generator_from_seed(seed: u64) -> (rng: ExperimentRng)
    ensures
        rng == seeded_generator(seed),
{
    rand::SeedableRng::seed_from_u64(seed)
}

/// Calls `next_u64` of `rand_core` on the generator, which multiplies the
/// state by a constant and hands out a permutation of it: the number handed
/// out and the generator left behind are functions of the generator before
/// the call.
#[verifier::external_body]
pub(crate) fn next_seed(rng: &mut ExperimentRng) -> (seed: u64)
    ensures
        seed == next_output(*old(rng)).0,
        *final(rng) == next_output(*old(rng)).1,
{
    rand::RngCore::next_u64(rng)
}

/// Calls `gen_range` of `rand` on the half-open range from zero to `bound`.
/// The draw lies in that range; nothing else is claimed of it, nor of the
/// generator that is left.
#[verifier::external_body]
pub(crate) fn uniform_below(rng: &mut ExperimentRng, bound: u64) -> (draw: u64)
    requires
        bound > 0,
    ensures
        draw < bound,
{
    rand::Rng::gen_range(rng, 0..bound)
}

} // verus!
