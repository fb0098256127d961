//! The supervisor: when SSH is started, after which wait, and when the program
//! ends.
use vstd::prelude::*;

use crate::backoff::{bounded_backoff, delay, min_uptime_to_reset_backoff, steady_uptime};
use crate::cli::Cli;
use crate::duration::{Duration, shorter};
use crate::session::{ExitStatus, SshExit, left_of, length, time_left};
use crate::verdict::{Next, Verdict, judge, verdict};

verus! {

/// What the program has to do next.
#[derive(Clone, Copy, Debug, PartialEq, Eq, Structural)]
pub enum Step {
    /// Wait that long.
    Wait(Duration),
    /// Run SSH.
    Run,
    /// End in success.
    Finish,
    /// End with that code.
    Exit(i32),
}

/// The view of `Step`: a wait counts in nanoseconds.
pub enum Plan {
    Wait(nat),
    Run,
    Finish,
    Exit(i32),
}

impl View for Step {
    type V = Plan;

    open spec fn view(&self) -> Plan {
        match *self {
            Step::Wait(span) => Plan::Wait(span@),
            Step::Run => Plan::Run,
            Step::Finish => Plan::Finish,
            Step::Exit(code) => Plan::Exit(code),
        }
    }
}

/// A run of SSH that is over.
#[derive(Clone, Copy, Debug, PartialEq, Eq, Structural)]
pub struct RunEnd {
    /// How it ended.
    pub exit: SshExit,
    /// Whether the connection tester gave the connection up.
    pub connection_failed: bool,
    /// How long it lasted.
    pub uptime: Duration,
    /// How long ago it began, at the time that its end is looked into.
    pub age: Duration,
}

/// A supervisor as a value: the view of `Supervisor`. Times are in nanoseconds.
pub struct SupervisorState {
    /// How many times SSH may be started, if there is a limit.
    pub max_start: Option<usize>,
    /// How many tries are made without a wait.
    pub fast_tries: nat,
    /// The longest wait before a try.
    pub upper_bound: nat,
    /// Connection poll time.
    pub poll_time: nat,
    /// How long the first run has to last.
    pub gate_time: nat,
    /// How long the program may live, if there is a limit.
    pub max_lifetime: Option<nat>,
    /// Runs so far.
    pub start_count: nat,
    /// Short runs since the last steady one.
    pub tries: nat,
    /// Whether the wait before the next run is over.
    pub waited: bool,
    /// What was made of the last run.
    pub last: Option<Verdict>,
}

impl SupervisorState {
    /// A supervisor with these options, before the first run.
    pub open spec fn fresh<S>(cli: Cli<S>) -> SupervisorState {
        SupervisorState {
            max_start: cli.max_start,
            fast_tries: cli.backoff_fast_tries as nat,
            upper_bound: cli.backoff_upper_bound@,
            poll_time: cli.tester_options.poll_time@,
            gate_time: cli.gate_time@,
            max_lifetime: length(cli.max_lifetime),
            start_count: 0,
            tries: 0,
            waited: false,
            last: None,
        }
    }

    /// Whether SSH has been started as often as it may be.
    pub open spec fn out_of_runs(self) -> bool {
        self.max_start matches Some(max) && self.start_count >= max
    }

    /// Whether the program has lived as long as it may, after `lived` nanoseconds.
    pub open spec fn expired(self, lived: nat) -> bool {
        self.max_lifetime matches Some(max) && lived >= max
    }

    /// The wait before the next run.
    pub open spec fn wait(self) -> nat {
        shorter(delay(self.tries, self.fast_tries, self.poll_time), self.upper_bound)
    }

    /// That wait, cut short where less than it is left of the lifetime.
    pub open spec fn wait_within_lifetime(self, lived: nat) -> nat {
        match left_of(self.max_lifetime, lived) {
            Some(left) => shorter(self.wait(), left),
            None => self.wait(),
        }
    }

    /// Whether there is to be another run as far as the last one goes.
    pub open spec fn restarts(self) -> bool {
        self.last matches Some(last) ==> last.consequence() is Restart
    }

    /// Whether the next thing is a wait, as long as the lifetime is not over.
    pub open spec fn may_wait(self) -> bool {
        self.restarts() && !self.out_of_runs() && !self.waited
    }

    /// Whether the next thing is a run, as long as the lifetime is not over.
    pub open spec fn may_run(self) -> bool {
        self.restarts() && !self.out_of_runs() && self.waited
    }

    /// What the program has to do next, having lived for `lived` nanoseconds.
    pub open spec fn plan(self, lived: nat) -> Plan {
        if self.restarts() {
            if self.out_of_runs() || self.expired(lived) {
                Plan::Finish
            } else if self.waited {
                Plan::Run
            } else {
                Plan::Wait(self.wait_within_lifetime(lived))
            }
        } else {
            match self.last->Some_0.consequence() {
                Next::Exit(code) => Plan::Exit(code),
                _ => Plan::Finish,
            }
        }
    }

    /// The supervisor after the wait before the next run.
    pub open spec fn after_wait(self) -> SupervisorState {
        SupervisorState { waited: true, ..self }
    }

    /// The supervisor after another run. The run is counted before its end is
    /// looked into.
    pub open spec fn after_run(self, end: RunEnd) -> SupervisorState {
        SupervisorState {
            start_count: self.start_count + 1,
            tries: if end.uptime@ >= steady_uptime(self.poll_time) { 0 } else { self.tries + 1 },
            waited: false,
            last: Some(
                verdict(
                    end.exit,
                    end.connection_failed,
                    self.start_count + 1,
                    end.age@,
                    self.gate_time,
                ),
            ),
            ..self
        }
    }
}

/// The supervisor of an SSH session.
#[derive(Debug)]
pub struct Supervisor {
    max_start: Option<usize>,
    fast_tries: u32,
    upper_bound: Duration,
    poll_time: Duration,
    gate_time: Duration,
    max_lifetime: Option<Duration>,
    start_count: usize,
    tries: u32,
    waited: bool,
    last: Option<Verdict>,
}

impl View for Supervisor {
    type V = SupervisorState;

    closed spec fn view(&self) -> SupervisorState {
        SupervisorState {
            max_start: self.max_start,
            fast_tries: self.fast_tries as nat,
            upper_bound: self.upper_bound@,
            poll_time: self.poll_time@,
            gate_time: self.gate_time@,
            max_lifetime: length(self.max_lifetime),
            start_count: self.start_count as nat,
            tries: self.tries as nat,
            waited: self.waited,
            last: self.last,
        }
    }
}

impl Supervisor {
    /// A supervisor with these options, before the first run.
    pub fn new<S>(cli: &Cli<S>) -> (supervisor: Supervisor)
        ensures
            supervisor@ == SupervisorState::fresh(*cli),
    {
        Supervisor {
            max_start: cli.max_start,
            fast_tries: cli.backoff_fast_tries,
            upper_bound: cli.backoff_upper_bound,
            poll_time: cli.tester_options.poll_time,
            gate_time: cli.gate_time,
            max_lifetime: cli.max_lifetime,
            start_count: 0,
            tries: 0,
            waited: false,
            last: None,
        }
    }

    /// What the program has to do next, having lived that long.
    pub fn step(&self, lived: Duration) -> (step: Step)
        ensures
            step@ == self@.plan(lived@),
    {
        if let Some(last) = self.last {
            match last.next() {
                Next::Restart => {},
                Next::Finish => {
                    return Step::Finish;
                },
                Next::Exit(code) => {
                    return Step::Exit(code);
                },
            }
        }
        if let Some(max) = self.max_start {
            if self.start_count >= max {
                return Step::Finish;
            }
        }
        if let Some(max) = self.max_lifetime {
            if lived.at_least(max) {
                return Step::Finish;
            }
        }
        if self.waited {
            return Step::Run;
        }
        let span = bounded_backoff(
            self.tries,
            self.fast_tries,
            self.poll_time,
            self.upper_bound,
        );
        match time_left(self.max_lifetime, lived) {
            Some(left) => Step::Wait(span.min(left)),
            None => Step::Wait(span),
        }
    }

    /// Takes into account that the wait before the next run is over.
    pub fn wait_over(&mut self)
        requires
            old(self)@.may_wait(),
        ensures
            final(self)@ == old(self)@.after_wait(),
    {
        self.waited = true;
    }

    /// Whether another run can be counted.
    pub fn can_count(&self, end: &RunEnd) -> (holds: bool)
        ensures
            holds == (self@.after_run(*end).start_count <= usize::MAX && self@.after_run(
                *end,
            ).tries <= u32::MAX),
    {
        self.start_count < usize::MAX && (self.tries < u32::MAX || end.uptime.at_least(
            min_uptime_to_reset_backoff(self.poll_time),
        ))
    }

    /// Takes into account that a run is over, and says what is made of its end.
    pub fn run_over(&mut self, end: RunEnd) -> (found: Verdict)
        requires
            old(self)@.may_run(),
            old(self)@.after_run(end).start_count <= usize::MAX,
            old(self)@.after_run(end).tries <= u32::MAX,
        ensures
            final(self)@ == old(self)@.after_run(end),
            final(self)@.last == Some(found),
    {
        self.start_count = self.start_count + 1;
        self.waited = false;
        if end.uptime.at_least(min_uptime_to_reset_backoff(self.poll_time)) {
            self.tries = 0;
        } else {
            self.tries = self.tries + 1;
        }
        let found = judge(
            end.exit,
            end.connection_failed,
            self.start_count,
            end.age,
            self.gate_time,
        );
        self.last = Some(found);
        found
    }
}

/// The supervisor after all of `runs`, in their order, each with its wait.
pub open spec fn after_runs(start: SupervisorState, runs: Seq<RunEnd>) -> SupervisorState
    decreases runs.len(),
{
    if runs.len() == 0 {
        start
    } else {
        after_runs(start, runs.drop_last()).after_wait().after_run(runs.last())
    }
}

/// Whether each of `runs` was begun when the supervisor had planned a wait and then
/// a run; `begun` says how long the program had lived at the begin of each.
pub open spec fn is_session(start: SupervisorState, runs: Seq<RunEnd>, begun: Seq<nat>) -> bool
    decreases runs.len(),
{
    if runs.len() == 0 {
        begun.len() == 0
    } else {
        let before = after_runs(start, runs.drop_last());
        &&& begun.len() == runs.len()
        &&& is_session(start, runs.drop_last(), begun.drop_last())
        &&& before.may_wait()
        &&& before.after_wait().plan(begun.last()) is Run
    }
}

/// How many runs at the end of `runs` were short, with no steady run after them.
pub open spec fn short_streak(runs: Seq<RunEnd>, poll_time: nat) -> nat
    decreases runs.len(),
{
    if runs.len() == 0 || runs.last().uptime@ >= steady_uptime(poll_time) {
        0
    } else {
        short_streak(runs.drop_last(), poll_time) + 1
    }
}

/// The supervisor counts all runs, and takes the runs since the last steady one
/// for tries; what the options say about it never changes.
pub proof fn law_counts_runs_and_short_streak<S>(cli: Cli<S>, runs: Seq<RunEnd>)
    ensures
        ({
            let supervisor = after_runs(SupervisorState::fresh(cli), runs);
            supervisor == SupervisorState {
                start_count: runs.len(),
                tries: short_streak(runs, cli.tester_options.poll_time@),
                last: supervisor.last,
                ..SupervisorState::fresh(cli)
            }
        }),
    decreases runs.len(),
{
    if runs.len() > 0 {
        law_counts_runs_and_short_streak(cli, runs.drop_last());
    }
}

/// No session has more than `max_start` runs, and after that many it ends unless
/// it has ended before.
pub proof fn law_runs_are_limited<S>(
    cli: Cli<S>,
    runs: Seq<RunEnd>,
    begun: Seq<nat>,
    max: usize,
    lived: nat,
)
    requires
        cli.max_start == Some(max),
        is_session(SupervisorState::fresh(cli), runs, begun),
    ensures
        runs.len() <= max,
        after_runs(SupervisorState::fresh(cli), runs).plan(lived) is Wait ==> runs.len() < max,
{
    law_counts_runs_and_short_streak(cli, runs);
    if runs.len() > 0 {
        law_counts_runs_and_short_streak(cli, runs.drop_last());
    }
}

/// Without a limit on the runs, a session goes on exactly while the ends of the
/// runs have SSH started again and the lifetime is not over; and after a wait SSH
/// is run unless the lifetime is over.
pub proof fn law_unlimited_session_goes_on<S>(cli: Cli<S>, runs: Seq<RunEnd>, lived: nat)
    requires
        cli.max_start is None,
    ensures
        ({
            let supervisor = after_runs(SupervisorState::fresh(cli), runs);
            &&& supervisor.plan(lived) is Wait <==> supervisor.restarts()
                && !supervisor.expired(lived)
            &&& supervisor.after_wait().plan(lived) is Run <==> supervisor.restarts()
                && !supervisor.expired(lived)
        }),
{
    law_counts_runs_and_short_streak(cli, runs);
}

/// The wait before a run is never longer than the upper bound that the options
/// set, and there is none before the first run unless even that is a slow try.
pub proof fn law_wait_is_bounded<S>(cli: Cli<S>, runs: Seq<RunEnd>, lived: nat)
    ensures
        after_runs(SupervisorState::fresh(cli), runs).plan(lived) matches Plan::Wait(wait) ==> wait
            <= cli.backoff_upper_bound@,
        cli.backoff_fast_tries > 0 ==> SupervisorState::fresh(cli).wait() == 0,
{
    law_counts_runs_and_short_streak(cli, runs);
}

/// The program does not live on after `max_lifetime`: no wait goes past it, and
/// once it is over the supervisor plans neither a wait nor a run. A wait that is
/// cut short by it is the last thing before the end.
pub proof fn law_lifetime_ends_the_session<S>(
    cli: Cli<S>,
    runs: Seq<RunEnd>,
    lived: nat,
    max: Duration,
)
    requires
        cli.max_lifetime == Some(max),
    ensures
        ({
            let supervisor = after_runs(SupervisorState::fresh(cli), runs);
            &&& lived >= max@ ==> {
                &&& supervisor.plan(lived) is Finish || supervisor.plan(lived) is Exit
                &&& supervisor.after_wait().plan(lived) is Finish
                    || supervisor.after_wait().plan(lived) is Exit
            }
            &&& supervisor.plan(lived) matches Plan::Wait(wait) ==> {
                &&& lived + wait <= max@
                &&& wait != supervisor.wait() ==> supervisor.after_wait().plan(lived + wait)
                    is Finish
            }
        }),
{
    law_counts_runs_and_short_streak(cli, runs);
}

/// Every run of a session begins before `max_lifetime` is over.
pub proof fn law_runs_begin_within_lifetime<S>(
    cli: Cli<S>,
    runs: Seq<RunEnd>,
    begun: Seq<nat>,
    max: Duration,
)
    requires
        cli.max_lifetime == Some(max),
        is_session(SupervisorState::fresh(cli), runs, begun),
    ensures
        begun.len() == runs.len(),
        forall|i: int| 0 <= i < begun.len() ==> #[trigger] begun[i] < max@,
    decreases runs.len(),
{
    if runs.len() > 0 {
        law_counts_runs_and_short_streak(cli, runs.drop_last());
        law_runs_begin_within_lifetime(cli, runs.drop_last(), begun.drop_last(), max);
        assert forall|i: int| 0 <= i < begun.len() implies #[trigger] begun[i] < max@ by {
            if i < begun.len() - 1 {
                assert(begun.drop_last()[i] == begun[i]);
            }
        }
    }
}

proof fn lemma_streak_after_steady(runs: Seq<RunEnd>, more: Seq<RunEnd>, poll_time: nat)
    requires
        runs.len() > 0,
        runs.last().uptime@ >= steady_uptime(poll_time),
    ensures
        short_streak(runs + more, poll_time) <= more.len(),
    decreases more.len(),
{
    let all = runs + more;
    if more.len() == 0 {
        assert(all =~= runs);
    } else {
        assert(all.drop_last() =~= runs + more.drop_last());
        lemma_streak_after_steady(runs, more.drop_last(), poll_time);
    }
}

/// After a steady run the next `backoff_fast_tries` runs begin without a wait.
pub proof fn law_steady_run_resets_backoff<S>(
    cli: Cli<S>,
    runs: Seq<RunEnd>,
    more: Seq<RunEnd>,
)
    requires
        runs.len() > 0,
        runs.last().uptime@ >= steady_uptime(cli.tester_options.poll_time@),
        more.len() < cli.backoff_fast_tries,
    ensures
        after_runs(SupervisorState::fresh(cli), runs + more).wait() == 0,
{
    law_counts_runs_and_short_streak(cli, runs + more);
    lemma_streak_after_steady(runs, more, cli.tester_options.poll_time@);
}

/// A code that the program ends with comes from the last run: it is the code that
/// SSH exited with or the signal that terminated it, and never that of success.
pub proof fn law_exit_code_comes_from_the_last_run<S>(
    cli: Cli<S>,
    runs: Seq<RunEnd>,
    lived: nat,
    code: i32,
)
    requires
        after_runs(SupervisorState::fresh(cli), runs).plan(lived) == Plan::Exit(code),
    ensures
        runs.len() > 0,
        code != 0,
        runs.last().exit == SshExit::Status(ExitStatus::Code(code))
            || runs.last().exit == SshExit::Status(ExitStatus::Signal(code)),
{
}

/// What is to follow from the last of `runs`, which is judged by how it ended, how
/// many runs there were, how long ago it began, and `gate_time`.
/// Before the first run SSH is to be started.
pub open spec fn due<S>(cli: Cli<S>, runs: Seq<RunEnd>) -> Next {
    if runs.len() == 0 {
        Next::Restart
    } else {
        verdict(
            runs.last().exit,
            runs.last().connection_failed,
            runs.len(),
            runs.last().age@,
            cli.gate_time@,
        ).consequence()
    }
}

/// What is planned after any runs. Where the last one has SSH started again, the
/// session goes on, with a wait and then a run, exactly while fewer runs were made
/// than `max_start` allows and `max_lifetime` is not over; then it finishes. Where
/// the last run ends the program, so does the plan, and with the same code.
pub proof fn law_session_goes_on_while_it_may<S>(cli: Cli<S>, runs: Seq<RunEnd>, lived: nat)
    ensures
        ({
            let supervisor = after_runs(SupervisorState::fresh(cli), runs);
            let next = due(cli, runs);
            let runs_left = cli.max_start matches Some(max) ==> runs.len() < max;
            let time_left = cli.max_lifetime matches Some(max) ==> lived < max@;
            &&& supervisor.plan(lived) is Wait <==> next is Restart && runs_left && time_left
            &&& supervisor.after_wait().plan(lived) is Run <==> next is Restart && runs_left
                && time_left
            &&& supervisor.plan(lived) is Exit <==> next is Exit
            &&& next matches Next::Exit(code) ==> supervisor.plan(lived) == Plan::Exit(code)
                && supervisor.after_wait().plan(lived) == Plan::Exit(code)
            &&& supervisor.plan(lived) is Finish <==> next is Finish || (next is Restart && !(
            runs_left && time_left))
            &&& supervisor.may_wait() <==> next is Restart && runs_left
            &&& supervisor.after_wait().may_run() <==> next is Restart && runs_left
        }),
{
    law_counts_runs_and_short_streak(cli, runs);
    if runs.len() > 0 {
        law_counts_runs_and_short_streak(cli, runs.drop_last());
    }
}

/// A session with runs and time left goes on: after fewer runs than `max_start`, the
/// last of which has SSH started again, the plan is a wait and after it a run.
pub proof fn law_limited_session_goes_on<S>(cli: Cli<S>, runs: Seq<RunEnd>, max: usize, lived: nat)
    requires
        cli.max_start == Some(max),
        runs.len() < max,
        due(cli, runs) is Restart,
        cli.max_lifetime matches Some(end) ==> lived < end@,
    ensures
        after_runs(SupervisorState::fresh(cli), runs).plan(lived) is Wait,
        after_runs(SupervisorState::fresh(cli), runs).after_wait().plan(lived) is Run,
{
    law_session_goes_on_while_it_may(cli, runs, lived);
}

/// The runs that count as tries are the last ones, each shorter than ten seconds or
/// than a tenth of the poll time; the run before them, if there is one, was not.
pub proof fn law_tries_are_the_last_short_runs<S>(cli: Cli<S>, runs: Seq<RunEnd>)
    ensures
        ({
            let tries = after_runs(SupervisorState::fresh(cli), runs).tries;
            let poll_time = cli.tester_options.poll_time@;
            &&& tries <= runs.len()
            &&& forall|i: int|
                runs.len() - tries <= i < runs.len() ==> (#[trigger] runs[i]).uptime@
                    < 10_000_000_000 || runs[i].uptime@ < poll_time / 10
            &&& tries < runs.len() ==> runs[runs.len() - tries - 1].uptime@ >= 10_000_000_000
                && runs[runs.len() - tries - 1].uptime@ >= poll_time / 10
        }),
    decreases runs.len(),
{
    let start = SupervisorState::fresh(cli);
    law_counts_runs_and_short_streak(cli, runs);
    if runs.len() > 0 {
        let before = runs.drop_last();
        law_counts_runs_and_short_streak(cli, before);
        law_tries_are_the_last_short_runs(cli, before);
        assert forall|i: int|
            runs.len() - after_runs(start, runs).tries <= i < runs.len() implies (
        #[trigger] runs[i]).uptime@ < 10_000_000_000 || runs[i].uptime@
            < cli.tester_options.poll_time@ / 10 by {
            if i < before.len() {
                assert(before[i] == runs[i]);
            }
        }
        assert(runs.last() == runs[runs.len() - 1]);
    }
}

/// A wait is as long as the tries ask for, as `backoff_upper_bound` allows, or as the
/// lifetime lasts, whichever is shortest.
pub proof fn law_wait_is_the_shortest<S>(cli: Cli<S>, runs: Seq<RunEnd>, lived: nat, wait: nat)
    requires
        after_runs(SupervisorState::fresh(cli), runs).plan(lived) == Plan::Wait(wait),
    ensures
        ({
            let tries = after_runs(SupervisorState::fresh(cli), runs).tries;
            let asked = delay(
                tries,
                cli.backoff_fast_tries as nat,
                cli.tester_options.poll_time@,
            );
            &&& wait <= asked && wait <= cli.backoff_upper_bound@
            &&& cli.max_lifetime matches Some(max) ==> lived + wait <= max@
            &&& wait == asked || wait == cli.backoff_upper_bound@ || (
            cli.max_lifetime matches Some(max) && lived + wait == max@)
        }),
{
    law_counts_runs_and_short_streak(cli, runs);
}

/// A run is counted once, whatever its end; and a wait changes nothing but that it is
/// over.
pub proof fn law_runs_are_counted_once(supervisor: SupervisorState, end: RunEnd)
    ensures
        ({
            let after = supervisor.after_run(end);
            let steady = end.uptime@ >= 10_000_000_000 && end.uptime@ >= supervisor.poll_time / 10;
            &&& after.start_count == supervisor.start_count + 1
            &&& after.tries == (if steady { 0 } else { supervisor.tries + 1 })
            &&& after == SupervisorState {
                start_count: after.start_count,
                tries: after.tries,
                waited: false,
                last: after.last,
                ..supervisor
            }
            &&& after.last == Some(
                verdict(
                    end.exit,
                    end.connection_failed,
                    supervisor.start_count + 1,
                    end.age@,
                    supervisor.gate_time,
                ),
            )
        }),
        supervisor.after_wait() == (SupervisorState { waited: true, ..supervisor }),
{
}

/// A plan says the same as the step that it is the view of.
pub proof fn law_step_says_what_is_planned(step: Step, span: Duration, code: i32)
    ensures
        Step::Wait(span)@ == Plan::Wait(span@),
        step@ is Wait <==> step is Wait,
        step@ is Run <==> step is Run,
        step@ is Finish <==> step is Finish,
        step@ == Plan::Exit(code) <==> step == Step::Exit(code),
{
}

} // verus!
