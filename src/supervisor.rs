//! The run's termination policy.
//!
//! All listeners run at once. The first one to end, for whatever reason,
//! decides how the whole run ends; the rest are dropped without waiting. An
//! interrupt ends the process at once. With no component at all, the run
//! completes immediately.
use vstd::prelude::*;
use crate::listener::{BindError, ListenerError};

verus! {

/// A listener ended in error, which ends the run.
#[derive(Clone, Copy, Debug, PartialEq, Eq, Structural)]
pub struct FatalError {
    pub listener: usize,
    pub error: ListenerError,
}

#[derive(Clone, Copy, Debug, PartialEq, Eq, Structural)]
pub enum RunOutcome {
    Completed,
    Failed(FatalError),
}

/// What the run's tasks report to the supervisor.
#[derive(Clone, Copy, Debug)]
pub enum RunEvent {
    /// Listener `listener` ended, with `error` if it failed.
    ListenerEnded { listener: usize, error: Option<ListenerError> },
    Interrupt,
}

/// What the process does next.
#[derive(Clone, Copy, Debug)]
pub enum RunAction {
    /// Keep waiting for a listener to end.
    Wait,
    /// Stop every task and end the run with this outcome.
    Exit(RunOutcome),
    /// Terminate the process at once, without draining anything.
    Terminate,
}

/// The outcome that a listener's end gives the run.
pub open spec fn outcome_of(listener: usize, error: Option<ListenerError>) -> RunOutcome {
    match error {
        None => RunOutcome::Completed,
        Some(e) => RunOutcome::Failed(FatalError { listener, error: e }),
    }
}

pub struct Supervisor {
    pub listeners: usize,
    pub outcome: Option<RunOutcome>,
}

/// The supervision rule: the first listener to end decides the outcome, and
/// later ends change nothing.
pub open spec fn run_next(s: Supervisor, e: RunEvent) -> (Supervisor, RunAction) {
    match e {
        RunEvent::Interrupt => (s, RunAction::Terminate),
        RunEvent::ListenerEnded { listener, error } => match s.outcome {
            Some(o) => (s, RunAction::Exit(o)),
            None => (
                Supervisor { outcome: Some(outcome_of(listener, error)), ..s },
                RunAction::Exit(outcome_of(listener, error)),
            ),
        },
    }
}

impl Supervisor {
    /// Supervision of `listeners` listener tasks, none of which has ended.
    pub fn new(listeners: usize) -> (r: Supervisor)
        ensures
            r.listeners == listeners,
            r.outcome == (if listeners == 0 {
                Some(RunOutcome::Completed)
            } else {
                None
            }),
    {
        if listeners == 0 {
            Supervisor { listeners, outcome: Some(RunOutcome::Completed) }
        } else {
            Supervisor { listeners, outcome: None }
        }
    }

    /// What to do before any event: exit when the outcome is already known.
    pub fn pending(&self) -> (a: RunAction)
        ensures
            a == (match self.outcome {
                Some(o) => RunAction::Exit(o),
                None => RunAction::Wait,
            }),
    {
        match self.outcome {
            Some(o) => RunAction::Exit(o),
            None => RunAction::Wait,
        }
    }

    pub fn step(&mut self, event: RunEvent) -> (a: RunAction)
        ensures
            (*final(self), a) == run_next(*old(self), event),
    {
        match event {
            RunEvent::Interrupt => RunAction::Terminate,
            RunEvent::ListenerEnded { listener, error } => match self.outcome {
                Some(o) => RunAction::Exit(o),
                None => {
                    let o = match error {
                        None => RunOutcome::Completed,
                        Some(e) => RunOutcome::Failed(FatalError { listener, error: e }),
                    };
                    self.outcome = Some(o);
                    RunAction::Exit(o)
                },
            },
        }
    }
}

/// A listener that fails to bind, for instance on a port that another
/// component already holds, ends the whole run with that failure while no
/// outcome was known; whatever other listeners do afterwards, the outcome
/// stays the same.
pub proof fn lemma_bind_failure_ends_the_run(
    s: Supervisor,
    listener: usize,
    err: BindError,
    later: RunEvent,
)
    requires
        s.outcome is None,
        later is ListenerEnded,
    ensures
        ({
            let failed = RunOutcome::Failed(
                FatalError { listener, error: ListenerError::Bind(err) },
            );
            let (s1, a1) = run_next(
                s,
                RunEvent::ListenerEnded { listener, error: Some(ListenerError::Bind(err)) },
            );
            &&& a1 == RunAction::Exit(failed)
            &&& s1.outcome == Some(failed)
            &&& run_next(s1, later) == (s1, RunAction::Exit(failed))
        }),
{
}

} // verus!
