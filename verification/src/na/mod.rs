//! Control of the eigenvalue iterations: when to go on, when to accept, when
//! to give up. The numeric work of a step is done by the caller, who reports
//! what the step found.

use crate::prelude::Error;
use vstd::prelude::*;

verus! {

/// The number of steps after which Rayleigh-quotient iteration gives up.
pub const LIMIT: usize = 100;

/// The eigenvalue iterations.
#[derive(Clone, Copy, Debug, PartialEq, Eq, Structural)]
pub enum Method {
    /// Repeated multiplication and renormalisation; has no step limit.
    PowerIteration,
    /// Repeated solves against the shifted matrix; has no step limit.
    InverseIteration,
    /// Solves against a shift that follows the Rayleigh quotient; gives up
    /// after [`LIMIT`] steps or on NaN.
    RayleighQuotientIteration,
}

/// Where an iteration stands.
#[derive(Clone, Copy, Debug, PartialEq, Eq, Structural)]
pub enum State {
    /// No seed vector yet.
    Initializing,
    /// Seeded and not yet decided.
    Iterating,
    /// The last step met the tolerance.
    Converged,
    /// The iteration gave up.
    Failed,
}

/// What the caller reports.
#[derive(Clone, Copy, Debug, PartialEq, Eq, Structural)]
pub enum Event {
    /// The seed vector is in place.
    Seeded,
    /// One step was carried out; `converged` tells whether its result met the
    /// tolerance, `nan` whether it holds NaN.
    Stepped { converged: bool, nan: bool },
}

/// What the caller is to do next.
#[derive(Clone, Copy, Debug, PartialEq, Eq, Structural)]
pub enum Action {
    /// Put the seed vector in place.
    Seed,
    /// Carry out one more step.
    Step,
    /// Return the current eigenpair.
    Accept,
    /// Return the failure.
    GiveUp,
}

/// The control state of one run of an eigenvalue iteration.
#[derive(Clone, Copy, Debug)]
pub struct Iteration {
    pub method: Method,
    pub state: State,
    /// Steps reported so far (it stops counting at `usize::MAX`).
    pub steps: usize,
}

impl Iteration {
    /// What runs started by [`Iteration::new`] always satisfy: only
    /// Rayleigh-quotient iteration fails, it never goes beyond its limit, and
    /// nothing is counted before seeding.
    pub open spec fn wf(self) -> bool {
        &&& self.state == State::Failed ==> self.method == Method::RayleighQuotientIteration
        &&& self.state == State::Initializing ==> self.steps == 0
        &&& self.method == Method::RayleighQuotientIteration ==> self.steps <= LIMIT
        &&& self.method == Method::RayleighQuotientIteration && self.state == State::Iterating
            ==> self.steps < LIMIT
    }

    /// Converged or failed: nothing more will happen.
    pub open spec fn is_finished_spec(self) -> bool {
        self.state == State::Converged || self.state == State::Failed
    }

    /// The step count after one more step.
    pub open spec fn counted(self) -> usize {
        if self.steps < usize::MAX {
            (self.steps + 1) as usize
        } else {
            self.steps
        }
    }

    /// The control state after `event`.
    ///
    /// Seeding starts the iteration. A step that met the tolerance ends it in
    /// `Converged`. Rayleigh-quotient iteration ends in `Failed` on a step that
    /// holds NaN, and on its [`LIMIT`]-th step if that one did not converge.
    /// An event that does not fit the state changes nothing.
    pub open spec fn next(self, event: Event) -> Iteration {
        match (self.state, event) {
            (State::Initializing, Event::Seeded) => Iteration { state: State::Iterating, ..self },
            (State::Iterating, Event::Stepped { converged, nan }) => {
                let limited = self.method == Method::RayleighQuotientIteration;
                let state = if limited && nan {
                    State::Failed
                } else if converged {
                    State::Converged
                } else if limited && self.counted() >= LIMIT {
                    State::Failed
                } else {
                    State::Iterating
                };
                Iteration { state, steps: self.counted(), ..self }
            },
            _ => self,
        }
    }

    /// What the caller is to do in this state.
    pub open spec fn action_spec(self) -> Action {
        match self.state {
            State::Initializing => Action::Seed,
            State::Iterating => Action::Step,
            State::Converged => Action::Accept,
            State::Failed => Action::GiveUp,
        }
    }

    /// The control state after all of `events`, in order.
    pub open spec fn run(self, events: Seq<Event>) -> Iteration
        decreases events.len(),
    {
        if events.len() == 0 {
            self
        } else {
            self.next(events[0]).run(events.skip(1))
        }
    }

    /// An upper bound on the steps that Rayleigh-quotient iteration can still
    /// take.
    pub open spec fn budget(self) -> nat {
        match self.state {
            State::Initializing => LIMIT as nat,
            State::Iterating => if self.steps < LIMIT {
                (LIMIT - self.steps) as nat
            } else {
                0
            },
            _ => 0,
        }
    }

    /// A fresh run of `method`, not yet seeded.
    pub fn new(method: Method) -> (it: Iteration)
        ensures
            it == (Iteration { method, state: State::Initializing, steps: 0 }),
            it.wf(),
    {
        Iteration { method, state: State::Initializing, steps: 0 }
    }

    /// Takes `event` in and tells what to do next.
    pub fn advance(&mut self, event: Event) -> (action: Action)
        ensures
            *final(self) == old(self).next(event),
            action == final(self).action_spec(),
            old(self).wf() ==> final(self).wf(),
    {
        match (self.state, event) {
            (State::Initializing, Event::Seeded) => {
                self.state = State::Iterating;
            },
            (State::Iterating, Event::Stepped { converged, nan }) => {
                let limited = match self.method {
                    Method::RayleighQuotientIteration => true,
                    _ => false,
                };
                if self.steps < usize::MAX {
                    self.steps = self.steps + 1;
                }
                if limited && nan {
                    self.state = State::Failed;
                } else if converged {
                    self.state = State::Converged;
                } else if limited && self.steps >= LIMIT {
                    self.state = State::Failed;
                }
            },
            _ => {},
        }
        self.action()
    }

    /// What the caller is to do in this state.
    pub fn action(&self) -> (action: Action)
        ensures
            action == self.action_spec(),
    {
        match self.state {
            State::Initializing => Action::Seed,
            State::Iterating => Action::Step,
            State::Converged => Action::Accept,
            State::Failed => Action::GiveUp,
        }
    }

    /// Whether the run has converged or failed.
    pub fn is_finished(&self) -> (b: bool)
        ensures
            b == self.is_finished_spec(),
    {
        match self.state {
            State::Converged | State::Failed => true,
            _ => false,
        }
    }

    /// The outcome of the run: nothing while it is under way, success once it
    /// has converged, and the error once it has failed.
    pub fn outcome(&self) -> (o: Option<Result<usize, Error>>)
        ensures
            match self.state {
                State::Converged => o == Some(Ok::<usize, Error>(self.steps)),
                State::Failed => o == Some(Err::<usize, Error>(Error::NoEigenvalues)),
                _ => o.is_none(),
            },
    {
        match self.state {
            State::Converged => Some(Ok(self.steps)),
            State::Failed => Some(Err(Error::NoEigenvalues)),
            _ => None,
        }
    }
}

/// Only Rayleigh-quotient iteration can fail: the other methods never enter
/// `Failed`, whatever is reported.
pub proof fn lemma_only_rayleigh_quotient_fails(it: Iteration, event: Event)
    requires
        it.method != Method::RayleighQuotientIteration,
        it.state != State::Failed,
    ensures
        it.next(event).state != State::Failed,
{
}

/// Seeding always starts the iteration.
pub proof fn lemma_seeding_starts(it: Iteration)
    requires
        it.state == State::Initializing,
    ensures
        it.next(Event::Seeded).state == State::Iterating,
        it.next(Event::Seeded).steps == it.steps,
{
}

/// A finished run stays as it is.
pub proof fn lemma_finished_is_final(it: Iteration, events: Seq<Event>)
    requires
        it.is_finished_spec(),
    ensures
        it.run(events) == it,
    decreases events.len(),
{
    if events.len() > 0 {
        lemma_finished_is_final(it, events.skip(1));
    }
}

/// Every event keeps a well-formed run well-formed, and so does every
/// sequence of events.
pub proof fn lemma_run_keeps_wf(it: Iteration, events: Seq<Event>)
    requires
        it.wf(),
    ensures
        it.run(events).wf(),
    decreases events.len(),
{
    if events.len() > 0 {
        lemma_run_keeps_wf(it.next(events[0]), events.skip(1));
    }
}

/// Each step of Rayleigh-quotient iteration that does not end the run uses up
/// one unit of its budget.
pub proof fn lemma_step_uses_budget(it: Iteration, converged: bool, nan: bool)
    requires
        it.wf(),
        it.method == Method::RayleighQuotientIteration,
        it.state == State::Iterating,
    ensures
        it.next(Event::Stepped { converged, nan }).is_finished_spec() || it.next(
            Event::Stepped { converged, nan },
        ).budget() == it.budget() - 1,
        it.next(Event::Stepped { converged, nan }).steps == it.steps + 1,
{
}

/// Rayleigh-quotient iteration never hangs: once seeded, it has converged or
/// failed after at most [`LIMIT`] steps, whatever the steps report.
pub proof fn lemma_rayleigh_quotient_is_bounded(it: Iteration, events: Seq<Event>)
    requires
        it.wf(),
        it.method == Method::RayleighQuotientIteration,
        it.state == State::Iterating,
        events.len() >= it.budget(),
        forall|k: int| 0 <= k < events.len() ==> #[trigger] events[k] is Stepped,
    ensures
        it.run(events).is_finished_spec(),
        it.run(events).steps <= LIMIT,
    decreases events.len(),
{
    assert(events.len() > 0);
    let after = it.next(events[0]);
    let rest = events.skip(1);
    if after.is_finished_spec() {
        lemma_finished_is_final(after, rest);
    } else {
        assert forall|k: int| 0 <= k < rest.len() implies #[trigger] rest[k] is Stepped by {
            assert(rest[k] == events[k + 1]);
        }
        lemma_rayleigh_quotient_is_bounded(after, rest);
    }
}

/// Runs Rayleigh-quotient iteration against steps that never converge and
/// returns the number of steps after which it gives up: [`LIMIT`].
pub fn demo() -> (steps: usize)
    ensures
        steps == LIMIT,
{
    let mut it = Iteration::new(Method::RayleighQuotientIteration);
    let mut action = it.advance(Event::Seeded);
    while action == Action::Step
        invariant
            it.wf(),
            it.method == Method::RayleighQuotientIteration,
            action == it.action_spec(),
            it.state == State::Iterating || (it.state == State::Failed && it.steps == LIMIT),
        decreases it.budget(),
    {
        action = it.advance(Event::Stepped { converged: false, nan: false });
    }
    it.steps
}

} // verus!
