use vstd::prelude::*;
use crate::generator::ExperimentRng;

verus! {

/// A rate model: for each state, whether the process stays there for good,
/// and otherwise where it goes next and after how long.
///
/// The waiting time in a state is exponential in the total rate of leaving
/// it. The caller hands in `unit_wait`, a draw of the exponential
/// distribution of rate one, in ticks; the model divides it by the total
/// rate.
pub trait ContinuousMarkovTransitions {
    /// Whether a transition may be asked for from `from_state`.
    spec fn admits(&self, from_state: u64) -> bool;

    /// Whether no transition leaves `from_state`.
    spec fn halts(&self, from_state: u64) -> bool;

    /// Whether the model may answer a `unit_wait` in `from_state` with a move
    /// to `to_state` after `elapsed` ticks.
    spec fn leads(&self, from_state: u64, unit_wait: u64, to_state: u64, elapsed: u64) -> bool;

    /// Whether a transition may be asked for from `from_state`.
    fn accepts(&self, from_state: u64) -> (accepted: bool)
        ensures
            accepted == self.admits(from_state),
    ;

    /// The next transition from `from_state`: nothing where the state is
    /// absorbing, else the next state and the ticks that pass before the
    /// process reaches it, which are at most `unit_wait`.
    fn next_transition(&self, from_state: u64, rng: &mut ExperimentRng, unit_wait: u64) -> (transition:
        Option<(u64, u64)>)
        requires
            self.admits(from_state),
        ensures
            transition is None <==> self.halts(from_state),
            transition matches Some((to_state, elapsed)) ==> elapsed <= unit_wait && self.leads(
                from_state,
                unit_wait,
                to_state,
                elapsed,
            ),
    ;
}

} // verus!
