use vstd::prelude::*;
use crate::generator::ExperimentRng;
use crate::matrix_transitions::MatrixTransitions;
use crate::transitions::ContinuousMarkovTransitions;

verus! {

/// Where a process stands: its state, the ticks that have passed, and
/// whether it has been absorbed.
pub struct ProcessView {
    pub state: u64,
    pub time: u64,
    pub absorbed: bool,
}

impl ProcessView {
    /// Where the process stands after it was handed `transition`. An absorbed
    /// process stays as it is. A running one moves to the next state and adds
    /// the elapsed ticks to its time, or, handed nothing, becomes absorbed
    /// where it stands.
    pub open spec fn after(self, transition: Option<(u64, u64)>) -> ProcessView {
        if self.absorbed {
            self
        } else {
            match transition {
                Some((to_state, elapsed)) => ProcessView {
                    state: to_state,
                    time: (self.time + elapsed) as u64,
                    absorbed: false,
                },
                None => ProcessView { state: self.state, time: self.time, absorbed: true },
            }
        }
    }

    /// Where the process stands after it was handed each of `transitions` in
    /// turn.
    pub open spec fn after_all(self, transitions: Seq<Option<(u64, u64)>>) -> ProcessView
        decreases transitions.len(),
    {
        if transitions.len() == 0 {
            self
        } else {
            self.after_all(transitions.drop_last()).after(transitions.last())
        }
    }
}

/// An absorbed process stays as it is, whatever it is handed.
pub proof fn lemma_absorbed_process_stays(view: ProcessView, transition: Option<(u64, u64)>)
    requires
        view.absorbed,
    ensures
        view.after(transition) == view,
{
}

/// Absorption is final: an absorbed process stays as it is through any
/// number of further steps.
pub proof fn lemma_absorption_is_final(view: ProcessView, transitions: Seq<Option<(u64, u64)>>)
    requires
        view.absorbed,
    ensures
        view.after_all(transitions) == view,
    decreases transitions.len(),
{
    if transitions.len() > 0 {
        lemma_absorption_is_final(view, transitions.drop_last());
    }
}

/// A process that is handed nothing is absorbed where it stands.
pub proof fn lemma_no_transition_absorbs(view: ProcessView)
    ensures
        view.after(None).absorbed,
        view.after(None).state == view.state,
        view.after(None).time == view.time,
{
}

/// Time never runs backwards, and a state once absorbed is never left.
pub proof fn lemma_time_never_falls(view: ProcessView, transition: Option<(u64, u64)>)
    requires
        transition matches Some((_, elapsed)) ==> view.time + elapsed <= u64::MAX,
    ensures
        view.after(transition).time >= view.time,
        view.absorbed ==> view.after(transition).absorbed,
{
}

/// A state of a matrix model whose total rate is zero is absorbing: the
/// model admits it and no transition leaves it.
pub proof fn lemma_zero_rate_state_halts(model: MatrixTransitions, state: u64)
    requires
        state < model.state_count(),
        model.total_rates()[state as int] == 0,
    ensures
        model.admits(state),
        model.halts(state),
{
}

/// A continuous-time Markov process: a rate model, the present state, the
/// ticks that have passed, and whether the process has been absorbed.
#[derive(Debug, Clone)]
pub struct ContinuousMarkovProcess<M> where M: ContinuousMarkovTransitions {
    cur_state: u64,
    absorbed: bool,
    cur_time: u64,
    transitions: M,
}

impl<M> View for ContinuousMarkovProcess<M> where M: ContinuousMarkovTransitions {
    type V = ProcessView;

    closed spec fn view(&self) -> ProcessView {
        ProcessView { state: self.cur_state, time: self.cur_time, absorbed: self.absorbed }
    }
}

impl<M> ContinuousMarkovProcess<M> where M: ContinuousMarkovTransitions {
    /// The rate model of the process.
    pub closed spec fn model(&self) -> M {
        self.transitions
    }

    /// Whether `step` may be called with `unit_wait`: the process is
    /// absorbed, or its model admits the present state and the time has room
    /// for the wait.
    pub open spec fn can_step(&self, unit_wait: u64) -> bool {
        self@.absorbed || (self.model().admits(self@.state) && self@.time + unit_wait <= u64::MAX)
    }

    /// A process in `start_state` at time zero, not absorbed.
    pub fn new(transitions: M, start_state: u64) -> (process: Self)
        ensures
            process@ == (ProcessView { state: start_state, time: 0, absorbed: false }),
            process.model() == transitions,
    {
        Self { cur_state: start_state, cur_time: 0, transitions, absorbed: false }
    }

    /// The ticks that have passed.
    pub fn time(&self) -> (time: u64)
        ensures
            time == self@.time,
    {
        self.cur_time
    }

    /// The present state.
    pub fn state(&self) -> (state: u64)
        ensures
            state == self@.state,
    {
        self.cur_state
    }

    /// Whether the process has been absorbed.
    pub fn is_absorbed(&self) -> (absorbed: bool)
        ensures
            absorbed == self@.absorbed,
    {
        self.absorbed
    }

    /// The rate model of the process.
    pub fn transitions(&self) -> (transitions: &M)
        ensures
            *transitions == self.model(),
    {
        &self.transitions
    }

    /// Whether `step` may be called with `unit_wait`.
    pub fn ready(&self, unit_wait: u64) -> (ready: bool)
        ensures
            ready == self.can_step(unit_wait),
    {
        self.absorbed || (self.transitions.accepts(self.cur_state) && unit_wait <= u64::MAX
            - self.cur_time)
    }

    /// Hands the process the answer of its rate model: it moves on, or is
    /// absorbed, as `ProcessView::after` says.
    pub fn advance(&mut self, transition: Option<(u64, u64)>)
        requires
            !old(self)@.absorbed ==> (transition matches Some((_, elapsed)) ==> old(self)@.time
                + elapsed <= u64::MAX),
        ensures
            final(self)@ == old(self)@.after(transition),
            final(self).model() == old(self).model(),
    {
        if self.absorbed {
            return ;
        }
        match transition {
            Some((to_state, elapsed)) => {
                self.cur_state = to_state;
                self.cur_time = self.cur_time + elapsed;
            },
            None => {
                self.absorbed = true;
            },
        }
    }

    /// One step of the process. An absorbed process stays as it is. A running
    /// one asks its rate model for the next transition from the present
    /// state: where there is none it becomes absorbed, its state and time
    /// kept; else it moves to the next state, and its time grows by the
    /// elapsed ticks.
    pub fn step(&mut self, rng: &mut ExperimentRng, unit_wait: u64)
        requires
            old(self).can_step(unit_wait),
        ensures
            final(self).model() == old(self).model(),
            old(self)@.absorbed ==> final(self)@ == old(self)@,
            !old(self)@.absorbed && old(self).model().halts(old(self)@.state) ==> final(self)@
                == old(self)@.after(None),
            !old(self)@.absorbed && !old(self).model().halts(old(self)@.state) ==> exists|
                to_state: u64,
                elapsed: u64,
            |
                {
                    &&& elapsed <= unit_wait
                    &&& old(self).model().leads(old(self)@.state, unit_wait, to_state, elapsed)
                    &&& final(self)@ == #[trigger] old(self)@.after(Some((to_state, elapsed)))
                },
            final(self)@.time >= old(self)@.time,
            old(self)@.absorbed ==> final(self)@.absorbed,
    {
        if self.absorbed {
            return ;
        }
        let transition = self.transitions.next_transition(self.cur_state, rng, unit_wait);
        self.advance(transition);
    }
}

} // verus!
