//! One run of SSH, and how it comes to its end: SSH exits by itself, or it is
//! killed because the program has lived long enough or the connection is gone.
use vstd::prelude::*;

use crate::duration::{Duration, remaining};

verus! {

/// How a process ended.
#[derive(Clone, Copy, Debug, PartialEq, Eq, Structural)]
pub enum ExitStatus {
    /// It exited with that code.
    Code(i32),
    /// It was terminated by that signal.
    Signal(i32),
    /// Neither is known.
    Unknown,
}

/// How a run of SSH ended.
#[derive(Clone, Copy, Debug, PartialEq, Eq, Structural)]
pub enum SshExit {
    /// SSH ended with that status.
    Status(ExitStatus),
    /// SSH was killed on purpose.
    Killed,
}

/// The view of an optional span: its length in nanoseconds.
pub open spec fn length(span: Option<Duration>) -> Option<nat> {
    match span {
        Some(span) => Some(span@),
        None => None,
    }
}

/// What is left of a limit after `elapsed` nanoseconds; without a limit nothing
/// runs out.
pub open spec fn left_of(limit: Option<nat>, elapsed: nat) -> Option<nat> {
    match limit {
        Some(limit) => Some(remaining(limit, elapsed)),
        None => None,
    }
}

/// The time that is left of a limit after `elapsed`, if there is a limit.
pub fn time_left(limit: Option<Duration>, elapsed: Duration) -> (left: Option<Duration>)
    ensures
        length(left) == left_of(length(limit), elapsed@),
        left is Some <==> limit is Some,
        limit matches Some(limit) ==> (left matches Some(left) && if elapsed@ <= limit@ {
            left@ + elapsed@ == limit@
        } else {
            left@ == 0
        }),
{
    match limit {
        Some(limit) => Some(limit.saturating_sub(elapsed)),
        None => None,
    }
}

/// It makes no difference whether two periods are taken off a limit one after
/// the other or both at once: what is left of the program's lifetime is the same.
pub proof fn law_periods_add_up(limit: Option<nat>, first: nat, second: nat)
    ensures
        left_of(left_of(limit, first), second) == left_of(limit, first + second),
{
}

/// A run of SSH as a value: the view of `SshRun`.
pub struct RunState {
    /// How SSH ended, once it has.
    pub status: Option<ExitStatus>,
    /// Whether the killer killed it, once the killer has woken.
    pub killed: Option<bool>,
}

impl RunState {
    /// SSH was just started.
    pub open spec fn fresh() -> RunState {
        RunState { status: None, killed: None }
    }

    /// SSH has ended.
    pub open spec fn exited(self, status: ExitStatus) -> RunState {
        RunState { status: Some(status), ..self }
    }

    /// The killer has woken: it kills SSH unless SSH has ended.
    pub open spec fn woken(self) -> RunState {
        RunState { killed: Some(self.status is None), ..self }
    }

    /// How the run ended, once SSH has ended and the killer has woken.
    pub open spec fn outcome(self) -> Option<SshExit> {
        match (self.status, self.killed) {
            (Some(status), Some(killed)) => Some(
                if killed { SshExit::Killed } else { SshExit::Status(status) },
            ),
            _ => None,
        }
    }
}

/// A run of SSH. One thread waits for SSH to end; another, the killer, sleeps
/// until the lifetime is over, the connection is given up, or SSH has ended.
#[derive(Debug)]
pub struct SshRun {
    status: Option<ExitStatus>,
    killed: Option<bool>,
}

impl View for SshRun {
    type V = RunState;

    closed spec fn view(&self) -> RunState {
        RunState { status: self.status, killed: self.killed }
    }
}

impl SshRun {
    /// A run that has just begun.
    pub fn new() -> (run: SshRun)
        ensures
            run@ == RunState::fresh(),
    {
        SshRun { status: None, killed: None }
    }

    /// How SSH ended; `None` while it runs.
    pub fn status(&self) -> (status: Option<ExitStatus>)
        ensures
            status == self@.status,
    {
        self.status
    }

    /// Whether the killer killed SSH; `None` while it sleeps.
    pub fn killed(&self) -> (killed: Option<bool>)
        ensures
            killed == self@.killed,
    {
        self.killed
    }

    /// Takes into account that SSH has ended.
    pub fn exited(&mut self, status: ExitStatus)
        requires
            old(self)@.status is None,
        ensures
            final(self)@ == old(self)@.exited(status),
    {
        self.status = Some(status);
    }

    /// Takes into account that the killer has woken, and says whether it has to
    /// kill SSH.
    pub fn woken(&mut self) -> (kill: bool)
        requires
            old(self)@.killed is None,
        ensures
            final(self)@ == old(self)@.woken(),
            kill == (old(self)@.status is None),
    {
        let kill = self.status.is_none();
        self.killed = Some(kill);
        kill
    }

    /// How the run ended; `None` while it is under way.
    pub fn outcome(&self) -> (exit: Option<SshExit>)
        ensures
            exit == self@.outcome(),
    {
        match (self.status, self.killed) {
            (Some(status), Some(killed)) => {
                if killed {
                    Some(SshExit::Killed)
                } else {
                    Some(SshExit::Status(status))
                }
            },
            _ => None,
        }
    }
}

/// What comes first decides. A run counts as killed, whatever status SSH leaves,
/// exactly when the killer wakes before SSH has ended; a killer that is woken
/// only because SSH has ended kills nothing.
pub proof fn law_first_event_decides(status: ExitStatus)
    ensures
        RunState::fresh().exited(status).woken().outcome() == Some(SshExit::Status(status)),
        RunState::fresh().woken().exited(status).outcome() == Some(SshExit::Killed),
        RunState::fresh().exited(status).outcome() is None,
        RunState::fresh().woken().outcome() is None,
{
}

/// What is left of a limit and what has gone by make up the limit, until nothing is
/// left; and where there is no limit none comes up.
pub proof fn law_time_left(limit: nat, elapsed: nat)
    ensures
        left_of(None, elapsed) is None,
        elapsed <= limit ==> (left_of(Some(limit), elapsed) matches Some(left) && left + elapsed
            == limit),
        elapsed > limit ==> left_of(Some(limit), elapsed) == Some(0nat),
{
}

/// An optional span is as long as the span, if there is one.
pub proof fn law_length(span: Duration)
    ensures
        length(Some(span)) == Some(span@),
        length(None) is None,
{
}

/// SSH ending is noted with its status and does not wake the killer; the killer
/// waking ends nothing by itself. In whatever order they come, there is an outcome
/// exactly once both have happened.
pub proof fn law_both_are_needed(run: RunState, status: ExitStatus)
    ensures
        run.exited(status).status == Some(status),
        run.exited(status).killed == run.killed,
        run.woken().status == run.status,
        run.woken().killed == Some(run.status is None),
        run.outcome() is Some <==> run.status is Some && run.killed is Some,
        run.outcome() matches Some(exit) ==> (exit is Killed <==> run.killed == Some(true)) && (
        exit is Killed || exit == SshExit::Status(run.status->Some_0)),
{
}

} // verus!
