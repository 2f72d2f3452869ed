//! The decisions of the supervisor: from what it knows of its child and what
//! a tick of its polling loop shows, what to do and what it knows next.
//!
//! The supervisor runs one child at a time. It starts the child when the
//! schedule becomes active, asks it once to terminate when the schedule is
//! no longer active, and goes back to waiting once the child has gone. A
//! child that exits by itself ends the supervisor too, with the child's exit
//! code.

use vstd::prelude::*;

verus! {

/// What the supervisor knows of its child.
#[derive(Copy, Clone, Debug, PartialEq, Eq, Structural, Hash)]
pub enum SupervisionState {
    /// No child is running.
    Idle,
    /// A child has been started and has not been seen to exit.
    /// `termination_requested` says that it has been asked to terminate.
    Running { termination_requested: bool },
}

/// What a poll of the child showed. The poll does not wait for the child.
#[derive(Copy, Clone, Debug, PartialEq, Eq, Structural, Hash)]
pub enum ChildStatus {
    /// The child is still running.
    Alive,
    /// The child has exited, with this code if it left one.
    Exited { code: Option<i32> },
    /// The poll itself failed.
    Unknown,
}

/// One tick of the polling loop: whether the schedule is active now, and
/// what the poll of the child showed. While there is no child, `child` says
/// nothing and is passed over.
#[derive(Copy, Clone, Debug, PartialEq, Eq, Structural, Hash)]
pub struct Tick {
    pub active: bool,
    pub child: ChildStatus,
}

/// Why the supervisor gives up.
#[derive(Copy, Clone, Debug, PartialEq, Eq, Structural, Hash)]
pub enum SupervisionError {
    /// The child could not be started.
    SpawnFailure,
    /// The child could not be asked to terminate.
    SignalFailure,
    /// The child could not be polled.
    WaitFailure,
}

/// What the supervisor does after a tick.
#[derive(Copy, Clone, Debug, PartialEq, Eq, Structural, Hash)]
pub enum Action {
    /// Nothing, until the next tick.
    Wait,
    /// Start the command as a child.
    Spawn,
    /// Ask the child to terminate, without waiting for it to do so.
    Terminate,
    /// Let go of the child, which has exited after it was asked to.
    Release,
    /// End the program with this exit code, which is the child's.
    Exit { code: i32 },
    /// End the program and report this error.
    Abort { error: SupervisionError },
}

/// What follows a tick: what to do, and what is known of the child then.
/// `next` is `None` where the program ends.
#[derive(Copy, Clone, Debug, PartialEq, Eq, Structural, Hash)]
pub struct Transition {
    pub action: Action,
    pub next: Option<SupervisionState>,
}

/// The exit code that a child hands on: its own, or 0 where it left none.
pub open spec fn exit_code(code: Option<i32>) -> i32 {
    match code {
        Some(code) => code,
        None => 0,
    }
}

/// The supervisor's transitions.
pub open spec fn transition(state: SupervisionState, tick: Tick) -> Transition {
    match state {
        SupervisionState::Idle => if tick.active {
            Transition {
                action: Action::Spawn,
                next: Some(SupervisionState::Running { termination_requested: false }),
            }
        } else {
            Transition { action: Action::Wait, next: Some(SupervisionState::Idle) }
        },
        SupervisionState::Running { termination_requested } => match tick.child {
            ChildStatus::Unknown => Transition {
                action: Action::Abort { error: SupervisionError::WaitFailure },
                next: None,
            },
            ChildStatus::Exited { code } => if termination_requested {
                Transition { action: Action::Release, next: Some(SupervisionState::Idle) }
            } else {
                Transition { action: Action::Exit { code: exit_code(code) }, next: None }
            },
            ChildStatus::Alive => if !tick.active && !termination_requested {
                Transition {
                    action: Action::Terminate,
                    next: Some(SupervisionState::Running { termination_requested: true }),
                }
            } else {
                Transition { action: Action::Wait, next: Some(state) }
            },
        },
    }
}

/// How often one child is asked to terminate while the supervisor, knowing
/// `state` of it, goes through `ticks`. The count ends where the child is
/// let go of or the program ends; a child started later is another child.
pub open spec fn termination_requests(state: SupervisionState, ticks: Seq<Tick>) -> nat
    decreases ticks.len(),
{
    if ticks.len() == 0 || state is Idle {
        0
    } else {
        let step = transition(state, ticks[0]);
        let asked: nat = if step.action is Terminate {
            1
        } else {
            0
        };
        match step.next {
            Some(next) => asked + termination_requests(next, ticks.drop_first()),
            None => asked,
        }
    }
}

impl SupervisionState {
    /// Decides what to do after a tick.
    pub fn step(self, tick: Tick) -> (step: Transition)
        ensures
            step == transition(self, tick),
    {
        match self {
            SupervisionState::Idle => {
                if tick.active {
                    Transition {
                        action: Action::Spawn,
                        next: Some(SupervisionState::Running { termination_requested: false }),
                    }
                } else {
                    Transition { action: Action::Wait, next: Some(SupervisionState::Idle) }
                }
            },
            SupervisionState::Running { termination_requested } => match tick.child {
                ChildStatus::Unknown => Transition {
                    action: Action::Abort { error: SupervisionError::WaitFailure },
                    next: None,
                },
                ChildStatus::Exited { code } => {
                    if termination_requested {
                        Transition { action: Action::Release, next: Some(SupervisionState::Idle) }
                    } else {
                        let code: i32 = match code {
                            Some(code) => code,
                            None => 0,
                        };
                        Transition { action: Action::Exit { code }, next: None }
                    }
                },
                ChildStatus::Alive => {
                    if !tick.active && !termination_requested {
                        Transition {
                            action: Action::Terminate,
                            next: Some(SupervisionState::Running { termination_requested: true }),
                        }
                    } else {
                        Transition { action: Action::Wait, next: Some(self) }
                    }
                },
            },
        }
    }
}

impl Action {
    /// The error that it is when the action cannot be carried out. Only
    /// starting a child and asking it to terminate can fail.
    pub open spec fn spec_failure(&self) -> Option<SupervisionError> {
        match self {
            Action::Spawn => Some(SupervisionError::SpawnFailure),
            Action::Terminate => Some(SupervisionError::SignalFailure),
            _ => None,
        }
    }

    #[verifier::when_used_as_spec(spec_failure)]
    pub fn failure(&self) -> (error: Option<SupervisionError>)
        ensures
            error == self.spec_failure(),
    {
        match self {
            Action::Spawn => Some(SupervisionError::SpawnFailure),
            Action::Terminate => Some(SupervisionError::SignalFailure),
            _ => None,
        }
    }
}

/// A child is asked to terminate once at most. It is asked at the first
/// tick that shows it alive while the schedule is inactive, and once it has
/// been asked it is not asked again, however many ticks pass and whatever
/// they show.
pub proof fn lemma_termination_requested_once(state: SupervisionState, ticks: Seq<Tick>)
    ensures
        termination_requests(state, ticks) <= 1,
        state == (SupervisionState::Running { termination_requested: true })
            ==> termination_requests(state, ticks) == 0,
        state == (SupervisionState::Running { termination_requested: false }) && ticks.len() > 0
            && !ticks[0].active && ticks[0].child is Alive ==> termination_requests(state, ticks)
            == 1,
    decreases ticks.len(),
{
    if ticks.len() > 0 && state is Running {
        match transition(state, ticks[0]).next {
            Some(next) => lemma_termination_requested_once(next, ticks.drop_first()),
            None => {},
        }
    }
}

/// Once a child has been asked to terminate, the supervisor remembers it
/// until the child is let go of or the program ends.
pub proof fn lemma_request_is_remembered(tick: Tick)
    ensures
        ({
            let step = transition(SupervisionState::Running { termination_requested: true }, tick);
            &&& step.action !is Terminate
            &&& step.action !is Spawn
            &&& step.action !is Exit
            &&& step.next != Some(SupervisionState::Running { termination_requested: false })
        }),
{
}

} // verus!
