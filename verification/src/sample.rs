use vstd::prelude::*;

verus! {

/// A value that can be averaged: two of them can be added, and one can be
/// divided by a positive count.
///
/// An implementation whose arithmetic is exact says so in `exact`, and says
/// in `combined` and `averaged` what its operations return. Of one that
/// leaves them as they are, such as one that rounds, nothing is claimed.
pub trait Sample: Sized + Send + Sync {
    /// Whether `combined` and `averaged` say what the operations return.
    open spec fn exact() -> bool {
        false
    }

    /// Whether the sum of `self` and `other` can be formed.
    open spec fn can_combine(&self, other: &Self) -> bool {
        true
    }

    /// The sum of `self` and `other`.
    open spec fn combined(&self, other: &Self) -> Self {
        arbitrary()
    }

    /// `self` divided by `count`.
    open spec fn averaged(&self, count: nat) -> Self {
        arbitrary()
    }

    /// The sum of `self` and `other`.
    fn combine(&self, other: &Self) -> (sum: Self)
        requires
            self.can_combine(other),
        ensures
            Self::exact() ==> sum == self.combined(other),
    ;

    /// `self` divided by `count`.
    fn average(&self, count: usize) -> (share: Self)
        requires
            count > 0,
        ensures
            Self::exact() ==> share == self.averaged(count as nat),
    ;
}

/// The sum of `values`, formed from left to right. It is meant for a
/// sequence that is not empty.
pub open spec fn sum_of<S: Sample>(values: Seq<S>) -> S
    recommends
        values.len() > 0,
    decreases values.len(),
{
    if values.len() <= 1 {
        values[0]
    } else {
        sum_of(values.drop_last()).combined(&values.last())
    }
}

/// Whether every addition that `sum_of` makes on `values` can be formed.
pub open spec fn summable<S: Sample>(values: Seq<S>) -> bool
    decreases values.len(),
{
    if values.len() <= 1 {
        true
    } else {
        summable(values.drop_last()) && sum_of(values.drop_last()).can_combine(&values.last())
    }
}

/// Whether any two samples can be added.
pub open spec fn always_summable<S: Sample>() -> bool {
    forall|one: S, other: S| #[trigger] one.can_combine(&other)
}

/// The mean of `values`: their sum divided by their number.
pub open spec fn mean_of<S: Sample>(values: Seq<S>) -> S
    recommends
        values.len() > 0,
{
    sum_of(values).averaged(values.len())
}

/// Every prefix of a summable sequence is summable.
pub proof fn lemma_prefix_is_summable<S: Sample>(values: Seq<S>, len: int)
    requires
        summable(values),
        0 <= len <= values.len(),
    ensures
        summable(values.take(len)),
    decreases values.len(),
{
    if len == values.len() {
        assert(values.take(len) =~= values);
    } else if values.len() <= 1 {
    } else {
        lemma_prefix_is_summable(values.drop_last(), len);
        assert(values.drop_last().take(len) =~= values.take(len));
    }
}

/// Whether the additions that the mean of `values` takes can be formed: where
/// the samples are exact, those that `sum_of` makes; where they are not, any.
pub open spec fn can_average<S: Sample>(values: Seq<S>) -> bool {
    if S::exact() {
        summable(values)
    } else {
        always_summable::<S>()
    }
}

/// The mean of `values`: their sum, formed from left to right, divided by
/// their number.
pub fn mean<S: Sample>(values: &Vec<S>) -> (mean: S)
    requires
        values.len() > 0,
        can_average(values@),
    ensures
        S::exact() ==> mean == mean_of(values@),
{
    if values.len() == 1 {
        return values[0].average(1);
    }
    proof {
        if S::exact() {
            lemma_prefix_is_summable(values@, 2);
            assert(values@.take(2).drop_last() =~= values@.take(1));
        }
    }
    let mut sum = values[0].combine(&values[1]);
    let mut k: usize = 2;
    while k < values.len()
        invariant
            2 <= k <= values.len(),
            can_average(values@),
            S::exact() ==> sum == sum_of(values@.take(k as int)),
        decreases values.len() - k,
    {
        proof {
            if S::exact() {
                lemma_prefix_is_summable(values@, k + 1);
                assert(values@.take(k + 1).drop_last() =~= values@.take(k as int));
            }
        }
        sum = sum.combine(&values[k]);
        k += 1;
    }
    assert(values@.take(k as int) =~= values@);
    sum.average(values.len())
}

/// Whole numbers up to a bound can be summed where as many times the bound
/// fit in sixty-four bits, and their sum is at most that product.
pub proof fn lemma_small_values_are_summable(values: Seq<u64>, bound: u64)
    requires
        forall|k: int| 0 <= k < values.len() ==> #[trigger] values[k] <= bound,
        values.len() * bound <= u64::MAX,
    ensures
        summable(values),
        values.len() > 0 ==> sum_of(values) <= values.len() * bound,
    decreases values.len(),
{
    if values.len() > 1 {
        let front = values.drop_last();
        assert(front.len() * bound + bound == values.len() * bound) by (nonlinear_arith)
            requires
                front.len() + 1 == values.len(),
        ;
        assert(front.len() * bound >= 0) by (nonlinear_arith);
        lemma_small_values_are_summable(front, bound);
        assert(values.last() <= bound);
    } else if values.len() == 1 {
        assert(values[0] <= bound);
        assert(values.len() * bound == bound) by (nonlinear_arith)
            requires
                values.len() == 1,
        ;
    }
}

/// Whole numbers are exact samples: their sum is the sum, which has to fit in
/// sixty-four bits, and their share is the whole part of the quotient.
impl Sample for u64 {
    open spec fn exact() -> bool {
        true
    }

    open spec fn can_combine(&self, other: &Self) -> bool {
        *self + *other <= u64::MAX
    }

    open spec fn combined(&self, other: &Self) -> Self {
        (*self + *other) as u64
    }

    open spec fn averaged(&self, count: nat) -> Self {
        (*self as nat / count) as u64
    }

    fn combine(&self, other: &Self) -> (sum: Self) {
        *self + *other
    }

    fn average(&self, count: usize) -> (share: Self) {
        *self / (count as u64)
    }
}

} // verus!
