use vstd::prelude::*;
use crate::generator::{uniform_below, ExperimentRng};
use crate::transitions::ContinuousMarkovTransitions;

verus! {

/// A rate model in which a state can only move up by one, a birth, or down
/// by one, a death.
pub trait BirthAndDeathProbabilities {
    /// The birth rate and the death rate in `from_state`, in this order.
    spec fn rates(&self, from_state: u64) -> (u64, u64);

    /// The birth rate and the death rate in `from_state`, in this order.
    fn probability_tuple(&self, from_state: u64) -> (rates: (u64, u64))
        ensures
            rates == self.rates(from_state),
    ;
}

/// Whether a transition can be drawn from `from_state` at these rates: some
/// rate is positive, their sum fits in sixty-four bits, and neither a death
/// from state zero nor a birth from the largest state is possible.
pub open spec fn birth_death_admits(from_state: u64, birth_rate: u64, death_rate: u64) -> bool {
    &&& 0 < birth_rate + death_rate <= u64::MAX
    &&& death_rate > 0 ==> from_state > 0
    &&& birth_rate > 0 ==> from_state < u64::MAX
}

/// The state that follows `from_state` on `draw`: one up where the draw
/// falls below the birth rate, one down otherwise.
pub open spec fn birth_death_successor(from_state: u64, birth_rate: u64, draw: u64) -> int {
    if draw < birth_rate {
        from_state + 1
    } else {
        from_state - 1
    }
}

/// The state that follows `from_state`, decided by a draw below the total
/// rate. A birth has `birth_rate` of the draws, a death the others.
pub fn birth_death_step(from_state: u64, birth_rate: u64, death_rate: u64, draw: u64) -> (to_state: u64)
    requires
        birth_death_admits(from_state, birth_rate, death_rate),
        draw < birth_rate + death_rate,
    ensures
        to_state == birth_death_successor(from_state, birth_rate, draw),
        to_state == from_state + 1 <==> draw < birth_rate,
        death_rate == 0 ==> to_state == from_state + 1,
        birth_rate == 0 ==> to_state == from_state - 1,
{
    if draw < birth_rate {
        from_state + 1
    } else {
        from_state - 1
    }
}

impl<T: BirthAndDeathProbabilities> ContinuousMarkovTransitions for T {
    open spec fn admits(&self, from_state: u64) -> bool {
        birth_death_admits(from_state, self.rates(from_state).0, self.rates(from_state).1)
    }

    open spec fn halts(&self, from_state: u64) -> bool {
        false
    }

    open spec fn leads(&self, from_state: u64, unit_wait: u64, to_state: u64, elapsed: u64) -> bool {
        let (birth_rate, death_rate) = self.rates(from_state);
        &&& {
            ||| to_state == from_state + 1 && birth_rate > 0
            ||| to_state == from_state - 1 && death_rate > 0
        }
        &&& elapsed == unit_wait as int / (birth_rate + death_rate)
    }

    fn accepts(&self, from_state: u64) -> (accepted: bool) {
        let (birth_rate, death_rate) = self.probability_tuple(from_state);
        if birth_rate > u64::MAX - death_rate {
            return false;
        }
        birth_rate + death_rate > 0 && (death_rate == 0 || from_state > 0) && (birth_rate == 0
            || from_state < u64::MAX)
    }

    /// A birth or a death from `from_state`, each as likely as its rate is
    /// to the total rate, after the waiting time of that total rate.
    fn next_transition(&self, from_state: u64, rng: &mut ExperimentRng, unit_wait: u64) -> (transition:
        Option<(u64, u64)>) {
        let (birth_rate, death_rate) = self.probability_tuple(from_state);
        let total_rate = birth_rate + death_rate;
        let draw = uniform_below(rng, total_rate);
        let to_state = birth_death_step(from_state, birth_rate, death_rate, draw);
        Some((to_state, unit_wait / total_rate))
    }
}

/// Where no death is possible, every transition is a birth.
pub proof fn lemma_birth_is_certain_without_death<T: BirthAndDeathProbabilities>(
    model: T,
    from_state: u64,
    unit_wait: u64,
    to_state: u64,
    elapsed: u64,
)
    requires
        model.rates(from_state).1 == 0,
        model.leads(from_state, unit_wait, to_state, elapsed),
    ensures
        to_state == from_state + 1,
{
}

/// A queue with a pool of service units: arrivals come at one rate, and each
/// busy unit serves at another.
#[derive(Debug, Clone, Copy)]
pub struct MarkovQueueProbabilities {
    arrival_rate: u64,
    service_rate: u64,
    num_units: u64,
}

impl MarkovQueueProbabilities {
    /// The rate at which customers arrive.
    pub closed spec fn arrival_rate(&self) -> u64 {
        self.arrival_rate
    }

    /// The rate at which one unit serves.
    pub closed spec fn service_rate(&self) -> u64 {
        self.service_rate
    }

    /// The number of service units.
    pub closed spec fn num_units(&self) -> u64 {
        self.num_units
    }

    /// What holds of every queue: both rates are positive, and the largest
    /// total rate, with every unit busy, fits in sixty-four bits.
    #[verifier::type_invariant]
    pub open spec fn well_formed(self) -> bool {
        &&& self.arrival_rate() > 0
        &&& self.service_rate() > 0
        &&& self.arrival_rate() + self.service_rate() * self.num_units() <= u64::MAX
    }

    /// Whether a queue can be made with these rates and this many units:
    /// both rates are positive, and the largest total rate, with every unit
    /// busy, fits in sixty-four bits.
    pub open spec fn valid_rates(arrival_rate: u64, service_rate: u64, num_units: u64) -> bool {
        &&& arrival_rate > 0
        &&& service_rate > 0
        &&& arrival_rate + service_rate * num_units <= u64::MAX
    }

    /// Whether a queue can be made with these rates and this many units.
    pub fn accepts_rates(arrival_rate: u64, service_rate: u64, num_units: u64) -> (valid: bool)
        ensures
            valid == Self::valid_rates(arrival_rate, service_rate, num_units),
    {
        if arrival_rate == 0 || service_rate == 0 {
            return false;
        }
        match service_rate.checked_mul(num_units) {
            Some(busiest) => busiest <= u64::MAX - arrival_rate,
            None => false,
        }
    }

    /// A queue with these rates and this many units.
    pub fn new(arrival_rate: u64, service_rate: u64, num_units: u64) -> (queue: Self)
        requires
            Self::valid_rates(arrival_rate, service_rate, num_units),
        ensures
            queue.arrival_rate() == arrival_rate,
            queue.service_rate() == service_rate,
            queue.num_units() == num_units,
    {
        Self { arrival_rate, service_rate, num_units }
    }
}

/// The number of units that are busy with `from_state` customers present.
pub open spec fn busy_units(from_state: u64, num_units: u64) -> u64 {
    if from_state <= num_units {
        from_state
    } else {
        num_units
    }
}

impl BirthAndDeathProbabilities for MarkovQueueProbabilities {
    open spec fn rates(&self, from_state: u64) -> (u64, u64) {
        (
            self.arrival_rate(),
            (self.service_rate() * busy_units(from_state, self.num_units())) as u64,
        )
    }

    /// Customers arrive at the arrival rate whatever the state; they leave at
    /// the service rate times the number of busy units.
    fn probability_tuple(&self, from_state: u64) -> (rates: (u64, u64)) {
        proof {
            use_type_invariant(self);
        }
        let busy = if from_state <= self.num_units {
            from_state
        } else {
            self.num_units
        };
        assert(self.service_rate * busy <= self.service_rate * self.num_units) by (nonlinear_arith)
            requires
                busy <= self.num_units,
        ;
        (self.arrival_rate, self.service_rate * busy)
    }
}

/// A transition may be asked of a queue from every state but the largest.
pub proof fn lemma_queue_admits_every_state(queue: MarkovQueueProbabilities, from_state: u64)
    requires
        queue.well_formed(),
        from_state < u64::MAX,
    ensures
        queue.admits(from_state),
{
    let busy = busy_units(from_state, queue.num_units());
    assert(0 <= queue.service_rate() * busy <= queue.service_rate() * queue.num_units())
        by (nonlinear_arith)
        requires
            0 <= busy <= queue.num_units(),
            queue.service_rate() > 0,
    ;
    assert(queue.service_rate() * busy > 0 ==> busy > 0) by (nonlinear_arith);
}

/// Nobody leaves an empty queue: its death rate is zero, and its next
/// transition is the arrival of the first customer.
pub proof fn lemma_empty_queue_only_grows(
    queue: MarkovQueueProbabilities,
    unit_wait: u64,
    to_state: u64,
    elapsed: u64,
)
    requires
        queue.leads(0, unit_wait, to_state, elapsed),
    ensures
        queue.rates(0).1 == 0,
        to_state == 1,
{
    assert(queue.service_rate() * busy_units(0, queue.num_units()) == 0) by (nonlinear_arith)
        requires
            busy_units(0, queue.num_units()) == 0,
    ;
}

} // verus!
