//! What is made of the end of a run of SSH.
use vstd::prelude::*;

use crate::duration::Duration;
use crate::session::{ExitStatus, SshExit};
use crate::text::{append_signed, signed_decimal};

verus! {

/// What the supervisor makes of the end of a run.
#[derive(Clone, Copy, Debug, PartialEq, Eq, Structural)]
pub enum Verdict {
    /// SSH was killed at the end of the program's lifetime.
    LifetimeOver,
    /// SSH was killed because the connection was given up.
    ConnectionDropped,
    /// SSH did what it was asked to do.
    Succeeded,
    /// SSH was told to end, by that signal.
    Terminated(i32),
    /// SSH ended because of that signal.
    Signalled(i32),
    /// SSH ended in an unknown way.
    NoStatus,
    /// SSH exited with that code within `gate_time` of its first start.
    TooFast(i32),
    /// SSH reported an error of its own, with that code: the connection was lost
    /// or could not be made.
    ConnectionError(i32),
    /// SSH failed with that code in a way that may pass.
    TemporaryError(i32),
    /// The remote command ended with that code.
    CommandFailed(i32),
}

/// What is done after a run.
#[derive(Clone, Copy, Debug, PartialEq, Eq, Structural)]
pub enum Next {
    /// Start SSH again.
    Restart,
    /// End the program in success.
    Finish,
    /// End the program with that code.
    Exit(i32),
}

/// Interactive attention signal.
pub const SIGINT: i32 = 2;

/// Termination request.
pub const SIGTERM: i32 = 15;

/// Killed.
pub const SIGKILL: i32 = 9;

/// Exit code of SSH for errors of its own.
pub const SSH_ERROR: i32 = 255;

/// What is made of a process that exited with `code`, after `starts` starts in
/// all and a run of `uptime` nanoseconds.
pub open spec fn code_verdict(code: i32, starts: nat, uptime: nat, gate_time: nat) -> Verdict {
    if code == 0 {
        Verdict::Succeeded
    } else if starts == 1 && uptime <= gate_time {
        Verdict::TooFast(code)
    } else if code == SSH_ERROR {
        Verdict::ConnectionError(code)
    } else if (code == 1 || code == 2) && (starts > 1 || gate_time == 0) {
        Verdict::TemporaryError(code)
    } else {
        Verdict::CommandFailed(code)
    }
}

/// What is made of the end of a run. `connection_failed` says whether the
/// connection tester gave the connection up.
pub open spec fn verdict(
    exit: SshExit,
    connection_failed: bool,
    starts: nat,
    uptime: nat,
    gate_time: nat,
) -> Verdict {
    match exit {
        SshExit::Killed => if connection_failed {
            Verdict::ConnectionDropped
        } else {
            Verdict::LifetimeOver
        },
        SshExit::Status(ExitStatus::Signal(signal)) => if signal == SIGINT || signal == SIGTERM
            || signal == SIGKILL {
            Verdict::Terminated(signal)
        } else {
            Verdict::Signalled(signal)
        },
        SshExit::Status(ExitStatus::Unknown) => Verdict::NoStatus,
        SshExit::Status(ExitStatus::Code(code)) => code_verdict(code, starts, uptime, gate_time),
    }
}

impl Verdict {
    /// What is done after that verdict.
    pub open spec fn consequence(self) -> Next {
        match self {
            Verdict::LifetimeOver | Verdict::Succeeded => Next::Finish,
            Verdict::Terminated(code) => Next::Exit(code),
            Verdict::TooFast(code) => Next::Exit(code),
            Verdict::CommandFailed(code) => Next::Exit(code),
            _ => Next::Restart,
        }
    }

    /// What is done after that verdict.
    pub fn next(&self) -> (next: Next)
        ensures
            next == self.consequence(),
    {
        match *self {
            Verdict::LifetimeOver | Verdict::Succeeded => Next::Finish,
            Verdict::Terminated(code) | Verdict::TooFast(code) | Verdict::CommandFailed(code) => {
                Next::Exit(code)
            },
            _ => Next::Restart,
        }
    }

    /// What the user is told of that verdict, if anything. `gate_time` is that
    /// option as text.
    pub open spec fn message(self, gate_time: Seq<char>) -> Option<Seq<char>> {
        match self {
            Verdict::LifetimeOver | Verdict::Succeeded | Verdict::NoStatus => None,
            Verdict::ConnectionDropped => Some("SSH connection dropped. Restarting"@),
            Verdict::Terminated(signal) => Some(
                "SSH was terminated by signal "@ + signed_decimal(signal as int)
                    + ", parent exiting"@,
            ),
            Verdict::Signalled(signal) => Some(
                "SSH exited due to signal "@ + signed_decimal(signal as int) + ". Restarting."@,
            ),
            Verdict::TooFast(code) => Some(
                "SSH exited too fast(less than gate-time, currently set to "@ + gate_time
                    + ") with error status "@ + signed_decimal(code as int) + ". Exiting."@,
            ),
            Verdict::ConnectionError(code) => Some(
                "SSH exited with error status "@ + signed_decimal(code as int) + ", restarting"@,
            ),
            Verdict::TemporaryError(code) => Some(
                "SSH exited with errror status "@ + signed_decimal(code as int) + ", restarting"@,
            ),
            Verdict::CommandFailed(code) => Some(
                "SSH exited with status "@ + signed_decimal(code as int) + ", exiting"@,
            ),
        }
    }

    /// What the user is told of that verdict, if anything. `gate_time` is that
    /// option as text.
    pub fn notice(&self, gate_time: &str) -> (notice: Option<String>)
        ensures
            match notice {
                Some(text) => self.message(gate_time@) == Some(text@),
                None => self.message(gate_time@) is None,
            },
    {
        match *self {
            Verdict::LifetimeOver | Verdict::Succeeded | Verdict::NoStatus => None,
            Verdict::ConnectionDropped => Some("SSH connection dropped. Restarting".to_owned()),
            Verdict::Terminated(signal) => {
                Some(sentence("SSH was terminated by signal ".to_owned(), signal, ", parent exiting"))
            },
            Verdict::Signalled(signal) => {
                Some(sentence("SSH exited due to signal ".to_owned(), signal, ". Restarting."))
            },
            Verdict::TooFast(code) => {
                let mut text =
                    "SSH exited too fast(less than gate-time, currently set to ".to_owned();
                text.append(gate_time);
                text.append(") with error status ");
                Some(sentence(text, code, ". Exiting."))
            },
            Verdict::ConnectionError(code) => {
                Some(sentence("SSH exited with error status ".to_owned(), code, ", restarting"))
            },
            Verdict::TemporaryError(code) => {
                Some(sentence("SSH exited with errror status ".to_owned(), code, ", restarting"))
            },
            Verdict::CommandFailed(code) => {
                Some(sentence("SSH exited with status ".to_owned(), code, ", exiting"))
            },
        }
    }
}

/// Puts a number between two pieces of text.
fn sentence(head: String, n: i32, end: &str) -> (text: String)
    ensures
        text@ == head@ + signed_decimal(n as int) + end@,
{
    let mut text = head;
    append_signed(&mut text, n);
    text.append(end);
    text
}

/// What to make of the end of a run, after `starts` starts in all. `uptime` is how
/// long ago the last of them was.
pub fn judge(
    exit: SshExit,
    connection_failed: bool,
    starts: usize,
    uptime: Duration,
    gate_time: Duration,
) -> (found: Verdict)
    ensures
        found == verdict(exit, connection_failed, starts as nat, uptime@, gate_time@),
{
    let status = match exit {
        SshExit::Killed => {
            return if connection_failed {
                Verdict::ConnectionDropped
            } else {
                Verdict::LifetimeOver
            };
        },
        SshExit::Status(status) => status,
    };
    match status {
        ExitStatus::Signal(signal) => {
            if signal == SIGINT || signal == SIGTERM || signal == SIGKILL {
                Verdict::Terminated(signal)
            } else {
                Verdict::Signalled(signal)
            }
        },
        ExitStatus::Unknown => Verdict::NoStatus,
        ExitStatus::Code(code) => {
            if code == 0 {
                Verdict::Succeeded
            } else if starts == 1 && gate_time.at_least(uptime) {
                Verdict::TooFast(code)
            } else if code == SSH_ERROR {
                Verdict::ConnectionError(code)
            } else if (code == 1 || code == 2) && (starts > 1 || gate_time.is_zero()) {
                Verdict::TemporaryError(code)
            } else {
                Verdict::CommandFailed(code)
            }
        },
    }
}

/// The program ends with a code other than success only on account of SSH, and
/// then with the code that SSH exited with or the signal that terminated it.
pub proof fn law_exit_code_is_that_of_ssh(
    exit: SshExit,
    connection_failed: bool,
    starts: nat,
    uptime: nat,
    gate_time: nat,
    code: i32,
)
    requires
        verdict(exit, connection_failed, starts, uptime, gate_time).consequence() == Next::Exit(
            code,
        ),
    ensures
        code != 0,
        exit == SshExit::Status(ExitStatus::Code(code)) || exit == SshExit::Status(
            ExitStatus::Signal(code),
        ),
{
}

/// The program ends in success exactly when SSH did, or when its lifetime is over.
pub proof fn law_finishes_exactly_when(
    exit: SshExit,
    connection_failed: bool,
    starts: nat,
    uptime: nat,
    gate_time: nat,
)
    ensures
        verdict(exit, connection_failed, starts, uptime, gate_time).consequence() == Next::Finish
            <==> exit == SshExit::Status(ExitStatus::Code(0)) || (exit == SshExit::Killed
            && !connection_failed),
{
}

/// A lost connection has SSH started again: always where the tester found it gone;
/// where SSH exited with its own error code, unless the first run failed within
/// `gate_time`; and, once SSH has been started more than once, where it exited
/// with a code that it uses when the network is down.
pub proof fn law_lost_connection_restarts(
    exit: SshExit,
    connection_failed: bool,
    starts: nat,
    uptime: nat,
    gate_time: nat,
)
    ensures
        ({
            let next = verdict(exit, connection_failed, starts, uptime, gate_time).consequence();
            &&& exit == SshExit::Killed && connection_failed ==> next == Next::Restart
            &&& exit == SshExit::Status(ExitStatus::Code(SSH_ERROR)) && (starts != 1 || uptime
                > gate_time) ==> next == Next::Restart
            &&& (exit == SshExit::Status(ExitStatus::Code(1)) || exit == SshExit::Status(
                ExitStatus::Code(2),
            )) && starts > 1 ==> next == Next::Restart
        }),
{
}

/// `gate_time` guards the first run alone: a failure within it ends the program
/// then, and after the first run neither it nor the length of a run makes a
/// difference.
pub proof fn law_gate_guards_first_run(
    code: i32,
    starts: nat,
    uptime: nat,
    gate_time: nat,
    other_uptime: nat,
    other_gate_time: nat,
)
    ensures
        starts == 1 && code != 0 && uptime <= gate_time ==> code_verdict(
            code,
            starts,
            uptime,
            gate_time,
        ).consequence() == Next::Exit(code),
        starts > 1 ==> code_verdict(code, starts, uptime, gate_time) == code_verdict(
            code,
            starts,
            other_uptime,
            other_gate_time,
        ),
{
}

/// What follows from each way in which SSH can end. It is started again after a
/// kill because of the connection, after a signal that is no request to end, after
/// an unknown end, after its own error code 255, and after the codes 1 and 2 where
/// SSH was started before or `gate_time` is zero; but after no code within `gate_time`
/// of the first start. A kill for any other reason and the code 0 end the program in
/// success, and everything else ends it with the code or signal of SSH.
pub proof fn law_what_follows_from_each_end(
    exit: SshExit,
    connection_failed: bool,
    starts: nat,
    uptime: nat,
    gate_time: nat,
)
    ensures
        ({
            let next = verdict(exit, connection_failed, starts, uptime, gate_time).consequence();
            let too_fast = starts == 1 && uptime <= gate_time;
            match exit {
                SshExit::Killed => {
                    &&& next is Restart <==> connection_failed
                    &&& next is Finish <==> !connection_failed
                },
                SshExit::Status(ExitStatus::Unknown) => next is Restart,
                SshExit::Status(ExitStatus::Signal(signal)) => {
                    &&& next == Next::Exit(signal) <==> signal == 2 || signal == 9 || signal == 15
                    &&& next is Restart <==> signal != 2 && signal != 9 && signal != 15
                },
                SshExit::Status(ExitStatus::Code(code)) => {
                    &&& next is Finish <==> code == 0
                    &&& next is Restart <==> !too_fast && (code == 255 || ((code == 1 || code == 2)
                        && (starts > 1 || gate_time == 0)))
                    &&& next is Exit ==> next == Next::Exit(code)
                },
            }
        }),
{
}

/// A remote command that fails with a code of its own, other than those that SSH
/// uses, ends the program with that code, whenever it does so.
pub proof fn law_remote_failure_ends_the_program(
    code: i32,
    connection_failed: bool,
    starts: nat,
    uptime: nat,
    gate_time: nat,
)
    requires
        code != 0 && code != 1 && code != 2 && code != 255,
    ensures
        verdict(
            SshExit::Status(ExitStatus::Code(code)),
            connection_failed,
            starts,
            uptime,
            gate_time,
        ).consequence() == Next::Exit(code),
{
}

/// What each end is taken for. A failure is too fast exactly within `gate_time` of the
/// first start; beyond that the code 255 is an error of the connection, and 1 and 2
/// may pass where SSH is started again after them.
pub proof fn law_what_each_end_is_taken_for(
    exit: SshExit,
    n: i32,
    connection_failed: bool,
    starts: nat,
    uptime: nat,
    gate_time: nat,
)
    ensures
        ({
            let found = verdict(exit, connection_failed, starts, uptime, gate_time);
            let too_fast = starts == 1 && uptime <= gate_time;
            let code = exit == SshExit::Status(ExitStatus::Code(n));
            let signal = exit == SshExit::Status(ExitStatus::Signal(n));
            let told = n == 2 || n == 9 || n == 15;
            let may_pass = (n == 1 || n == 2) && (starts > 1 || gate_time == 0);
            &&& found is ConnectionDropped <==> exit is Killed && connection_failed
            &&& found is LifetimeOver <==> exit is Killed && !connection_failed
            &&& found is NoStatus <==> exit == SshExit::Status(ExitStatus::Unknown)
            &&& found is Succeeded <==> exit == SshExit::Status(ExitStatus::Code(0))
            &&& found == Verdict::TooFast(n) <==> code && n != 0 && too_fast
            &&& found == Verdict::ConnectionError(n) <==> code && n == 255 && !too_fast
            &&& found == Verdict::TemporaryError(n) <==> code && may_pass && !too_fast
            &&& found == Verdict::CommandFailed(n) <==> code && n != 0 && n != 255 && !may_pass
                && !too_fast
            &&& found == Verdict::Terminated(n) <==> signal && told
            &&& found == Verdict::Signalled(n) <==> signal && !told
        }),
{
}

/// The user is told of every end but that of the lifetime, success, and an unknown
/// one; and told the number of the code or signal, what becomes of the program, and
/// `gate_time` where SSH ended before that.
pub proof fn law_what_the_user_is_told(n: i32, gate_time: Seq<char>)
    ensures
        Verdict::LifetimeOver.message(gate_time) is None,
        Verdict::Succeeded.message(gate_time) is None,
        Verdict::NoStatus.message(gate_time) is None,
        Verdict::ConnectionDropped.message(gate_time) == Some(
            "SSH connection dropped. Restarting"@,
        ),
        Verdict::Terminated(n).message(gate_time) == Some(
            "SSH was terminated by signal "@ + signed_decimal(n as int) + ", parent exiting"@,
        ),
        Verdict::Signalled(n).message(gate_time) == Some(
            "SSH exited due to signal "@ + signed_decimal(n as int) + ". Restarting."@,
        ),
        Verdict::TooFast(n).message(gate_time) == Some(
            "SSH exited too fast(less than gate-time, currently set to "@ + gate_time
                + ") with error status "@ + signed_decimal(n as int) + ". Exiting."@,
        ),
        Verdict::ConnectionError(n).message(gate_time) == Some(
            "SSH exited with error status "@ + signed_decimal(n as int) + ", restarting"@,
        ),
        Verdict::TemporaryError(n).message(gate_time) == Some(
            "SSH exited with errror status "@ + signed_decimal(n as int) + ", restarting"@,
        ),
        Verdict::CommandFailed(n).message(gate_time) == Some(
            "SSH exited with status "@ + signed_decimal(n as int) + ", exiting"@,
        ),
{
}

} // verus!
