//! The connection tester: it waits, tests the connection, and decides from the
//! results when the connection is to be given up.
use vstd::prelude::*;
use vstd::utf8::encode_utf8;

use crate::cli::ConnectionTesterOptions;
use crate::duration::{Duration, remaining};
use crate::exchange::{
    Action, ConnectionTest, Input, TestResult, TestState, answers, came_back,
    law_success_iff_payload_came_back, run,
};

verus! {

/// What every probe begins with.
pub const PROBE_NAME: &'static str = "robotssh";

/// Length of the random part of a probe.
pub const PROBE_ID_LEN: usize = 16;

/// The bytes of a probe: the name of the program, the random part, and the
/// message that the options ask for.
pub open spec fn probe(id: Seq<u8>, message: Seq<char>) -> Seq<u8> {
    encode_utf8(PROBE_NAME@) + id + encode_utf8(message)
}

/// Builds the probe with that random part and message.
pub fn probe_payload(id: &[u8; 16], message: &str) -> (payload: Vec<u8>)
    ensures
        payload@ == probe(id@, message@),
{
    let mut payload: Vec<u8> = Vec::new();
    payload.extend_from_slice(PROBE_NAME.as_bytes());
    payload.extend_from_slice(id.as_slice());
    payload.extend_from_slice(message.as_bytes());
    assert(payload@ =~= probe(id@, message@));
    payload
}

/// Calls `rand::random` for sixteen random bytes. Nothing is claimed of them.
#[verifier::external_body]
fn random_id() -> [u8; 16] {
    rand::random()
}

/// Length of a probe without its message.
pub const PROBE_HEAD_LEN: usize = 24;

proof fn lemma_probe_name()
    ensures
        encode_utf8(PROBE_NAME@).len() == 8,
{
    reveal_strlit("robotssh");
    vstd::string::is_ascii_spec_bytes("robotssh");
}

/// A probe begins with the name of the program, then holds the random part, and
/// ends with the message.
pub proof fn law_probe_layout(id: Seq<u8>, message: Seq<char>)
    requires
        id.len() == PROBE_ID_LEN,
    ensures
        probe(id, message).len() == PROBE_HEAD_LEN + encode_utf8(message).len(),
        probe(id, message).take(8) == encode_utf8(PROBE_NAME@),
        probe(id, message).subrange(8, PROBE_HEAD_LEN as int) == id,
        probe(id, message).skip(PROBE_HEAD_LEN as int) == encode_utf8(message),
{
    lemma_probe_name();
    let bytes = probe(id, message);
    assert(bytes.take(8) =~= encode_utf8(PROBE_NAME@));
    assert(bytes.subrange(8, PROBE_HEAD_LEN as int) =~= id);
    assert(bytes.skip(PROBE_HEAD_LEN as int) =~= encode_utf8(message));
}

/// Probes that differ in their random part or in their message differ, so an
/// answer to another probe is never taken for an answer to this one.
pub proof fn law_probes_are_told_apart(
    id: Seq<u8>,
    message: Seq<char>,
    other_id: Seq<u8>,
    other_message: Seq<char>,
)
    requires
        id.len() == PROBE_ID_LEN,
        other_id.len() == PROBE_ID_LEN,
        probe(id, message) == probe(other_id, other_message),
    ensures
        id == other_id,
        message == other_message,
{
    law_probe_layout(id, message);
    law_probe_layout(other_id, other_message);
    vstd::utf8::encode_utf8_decode_utf8(message);
    vstd::utf8::encode_utf8_decode_utf8(other_message);
}

/// A test of one probe succeeds exactly when this very probe comes back: an answer
/// to a probe with another random part or message never makes it succeed.
pub proof fn law_only_the_own_probe_succeeds(
    id: Seq<u8>,
    message: Seq<char>,
    listener: bool,
    timeout: nat,
    inputs: Seq<Input>,
    other_id: Seq<u8>,
    other_message: Seq<char>,
)
    requires
        id.len() == PROBE_ID_LEN,
        other_id.len() == PROBE_ID_LEN,
        PROBE_HEAD_LEN + encode_utf8(message).len() <= isize::MAX,
        answers(TestState::fresh(probe(id, message), listener, timeout), inputs),
        came_back(inputs) == probe(other_id, other_message),
    ensures
        run(TestState::fresh(probe(id, message), listener, timeout), inputs).pending
            == Action::Finish(TestResult::Success) <==> id == other_id && message
            == other_message,
{
    law_probe_layout(id, message);
    law_success_iff_payload_came_back(probe(id, message), listener, timeout, inputs);
    if probe(id, message) == probe(other_id, other_message) {
        law_probes_are_told_apart(id, message, other_id, other_message);
    }
}

/// What the tester has to do next.
#[derive(Clone, Copy, Debug, PartialEq, Eq, Structural)]
pub enum TesterAction {
    /// Wait that long for the request to stop.
    Wait(Duration),
    /// Test the connection.
    Test,
    /// Come to an end. Where `died` holds the connection is given up, which has
    /// to be reported first.
    Finish { died: bool },
}

/// The view of `TesterAction`: a wait counts in nanoseconds.
pub enum Stage {
    Waiting(nat),
    Testing,
    Over { died: bool },
}

impl View for TesterAction {
    type V = Stage;

    open spec fn view(&self) -> Stage {
        match *self {
            TesterAction::Wait(span) => Stage::Waiting(span@),
            TesterAction::Test => Stage::Testing,
            TesterAction::Finish { died } => Stage::Over { died },
        }
    }
}

/// Whether a result means that the connection is gone: the test failed, or not a
/// single byte was moved before it timed out.
pub open spec fn is_fatal(result: TestResult) -> bool {
    match result {
        TestResult::Success => false,
        TestResult::Timeout(count) => count == 0,
        _ => true,
    }
}

/// Whether a result counts as a lost try: the test timed out after it had moved
/// something.
pub open spec fn is_lost_try(result: TestResult) -> bool {
    result matches TestResult::Timeout(count) && count > 0
}

/// A tester as a value: the view of `ConnectionTester`.
pub struct TesterState {
    /// Time from the beginning of a test to that of the next, in nanoseconds.
    pub poll_time: nat,
    /// Timeout on network data, in nanoseconds.
    pub net_timeout: nat,
    /// How many lost tries end the connection.
    pub max_conn_tries: nat,
    /// The probe that every test sends.
    pub payload: Seq<u8>,
    /// Lost tries so far.
    pub tries: nat,
    /// What the tester has to do next.
    pub stage: Stage,
}

impl TesterState {
    /// A tester with these options and that random part, before its first wait.
    pub open spec fn fresh(opts: ConnectionTesterOptions, id: Seq<u8>) -> TesterState {
        TesterState {
            poll_time: opts.poll_time@,
            net_timeout: opts.net_timeout@,
            max_conn_tries: opts.max_conn_tries as nat,
            payload: probe(id, opts.echo_message@),
            tries: 0,
            stage: Stage::Waiting(opts.first_poll_time@),
        }
    }

    /// A tester that goes on has lost fewer tries than it may lose.
    pub open spec fn well_formed(self) -> bool {
        &&& self.payload.len() <= isize::MAX
        &&& !(self.stage is Over) ==> self.tries == 0 || self.tries < self.max_conn_tries
    }

    /// The tester once a wait is over, with or without a request to stop.
    pub open spec fn after_wait(self, stop: bool) -> TesterState {
        TesterState {
            stage: if stop { Stage::Over { died: false } } else { Stage::Testing },
            ..self
        }
    }

    /// The tester once a test has ended, `elapsed` nanoseconds after it began.
    pub open spec fn after_test(self, result: TestResult, elapsed: nat) -> TesterState {
        let tries = if is_lost_try(result) { self.tries + 1 } else { self.tries };
        TesterState {
            tries,
            stage: if is_fatal(result) || tries >= self.max_conn_tries {
                Stage::Over { died: true }
            } else {
                Stage::Waiting(remaining(self.poll_time, elapsed))
            },
            ..self
        }
    }
}

/// A connection tester, under way.
#[derive(Debug)]
pub struct ConnectionTester {
    poll_time: Duration,
    net_timeout: Duration,
    max_conn_tries: usize,
    payload: Vec<u8>,
    tries: usize,
    pending: TesterAction,
}

impl View for ConnectionTester {
    type V = TesterState;

    closed spec fn view(&self) -> TesterState {
        TesterState {
            poll_time: self.poll_time@,
            net_timeout: self.net_timeout@,
            max_conn_tries: self.max_conn_tries as nat,
            payload: self.payload@,
            tries: self.tries as nat,
            stage: self.pending@,
        }
    }
}

impl ConnectionTester {
    #[verifier::type_invariant]
    closed spec fn wf(self) -> bool {
        self@.well_formed()
    }

    /// A tester with that random part in its probe.
    pub fn with_id(opts: ConnectionTesterOptions, id: [u8; 16]) -> (tester: ConnectionTester)
        requires
            PROBE_HEAD_LEN + encode_utf8(opts.echo_message@).len() <= isize::MAX,
        ensures
            tester@ == TesterState::fresh(opts, id@),
            tester@.well_formed(),
    {
        let payload = probe_payload(&id, opts.echo_message.as_str());
        proof {
            law_probe_layout(id@, opts.echo_message@);
        }
        ConnectionTester {
            poll_time: opts.poll_time,
            net_timeout: opts.net_timeout,
            max_conn_tries: opts.max_conn_tries,
            payload,
            tries: 0,
            pending: TesterAction::Wait(opts.first_poll_time),
        }
    }

    /// A tester with a random part of its own in its probe.
    pub fn spawn(opts: ConnectionTesterOptions) -> (tester: ConnectionTester)
        requires
            PROBE_HEAD_LEN + encode_utf8(opts.echo_message@).len() <= isize::MAX,
        ensures
            exists|id: Seq<u8>|
                id.len() == PROBE_ID_LEN && tester@ == #[trigger] TesterState::fresh(opts, id),
            tester@.well_formed(),
    {
        ConnectionTester::with_id(opts, random_id())
    }

    /// What the tester has to do next.
    pub fn pending(&self) -> (action: TesterAction)
        ensures
            action@ == self@.stage,
    {
        self.pending
    }

    /// The test that is due: it sends the probe of this tester.
    pub fn run_test(&self, listener: bool) -> (test: ConnectionTest)
        ensures
            test@ == TestState::fresh(self@.payload, listener, self@.net_timeout),
            test@.well_formed(),
    {
        proof {
            use_type_invariant(self);
        }
        ConnectionTest::new(
            vstd::slice::slice_to_vec(self.payload.as_slice()),
            listener,
            self.net_timeout,
        )
    }

    /// Takes into account that a wait is over. `stop` says whether the tester was
    /// asked to stop meanwhile.
    pub fn wait_over(&mut self, stop: bool)
        requires
            old(self)@.stage is Waiting,
        ensures
            final(self)@ == old(self)@.after_wait(stop),
            final(self)@.well_formed(),
    {
        proof {
            use_type_invariant(&*self);
        }
        self.pending = if stop { TesterAction::Finish { died: false } } else { TesterAction::Test };
    }

    /// Takes into account how a test ended, and how long it took.
    pub fn test_over(&mut self, result: TestResult, elapsed: Duration)
        requires
            old(self)@.stage is Testing,
        ensures
            final(self)@ == old(self)@.after_test(result, elapsed@),
            final(self)@.well_formed(),
    {
        proof {
            use_type_invariant(&*self);
        }
        let (fatal, lost) = match result {
            TestResult::Success => (false, false),
            TestResult::Timeout(count) => (count == 0, count > 0),
            _ => (true, false),
        };
        let tries: usize = if lost { self.tries + 1 } else { self.tries };
        self.pending = if fatal || tries >= self.max_conn_tries {
            TesterAction::Finish { died: true }
        } else {
            TesterAction::Wait(self.poll_time.saturating_sub(elapsed))
        };
        self.tries = tries;
    }

    /// Whether the tester gave the connection up. It has, from the moment that this
    /// is to be reported, however the report goes.
    pub fn join(&self) -> (died: bool)
        ensures
            died == (self@.stage == (Stage::Over { died: true })),
    {
        matches!(self.pending, TesterAction::Finish { died: true })
    }
}

/// One round of a tester: how its test ended, and after how many nanoseconds.
pub struct Round {
    pub result: TestResult,
    pub elapsed: nat,
}

/// The tester after all of `rounds`, never asked to stop.
pub open spec fn after_rounds(start: TesterState, rounds: Seq<Round>) -> TesterState
    decreases rounds.len(),
{
    if rounds.len() == 0 {
        start
    } else {
        let round = rounds.last();
        after_rounds(start, rounds.drop_last()).after_wait(false).after_test(
            round.result,
            round.elapsed,
        )
    }
}

/// How many of `rounds` were lost tries.
pub open spec fn lost_tries(rounds: Seq<Round>) -> nat
    decreases rounds.len(),
{
    if rounds.len() == 0 {
        0
    } else {
        lost_tries(rounds.drop_last()) + (if is_lost_try(rounds.last().result) { 1nat } else { 0 })
    }
}

/// Whether a connection that was tested in all of `rounds` is kept after each of
/// them: no test was fatal, and the lost tries stay below `max_conn_tries`.
pub open spec fn is_kept(rounds: Seq<Round>, max_conn_tries: nat) -> bool {
    forall|i: int|
        0 <= i < rounds.len() ==> !is_fatal((#[trigger] rounds[i]).result) && lost_tries(
            rounds.take(i + 1),
        ) < max_conn_tries
}

proof fn lemma_tries(opts: ConnectionTesterOptions, id: Seq<u8>, rounds: Seq<Round>)
    ensures
        ({
            let start = TesterState::fresh(opts, id);
            let tester = after_rounds(start, rounds);
            tester == TesterState { tries: lost_tries(rounds), stage: tester.stage, ..start }
        }),
    decreases rounds.len(),
{
    if rounds.len() > 0 {
        lemma_tries(opts, id, rounds.drop_last());
    }
}

/// A tester gives the connection up in a round exactly when that test is fatal
/// or the lost tries, counted from the start, reach `max_conn_tries`. A success
/// in between does not make lost tries good.
pub proof fn law_gives_up_exactly_when(
    opts: ConnectionTesterOptions,
    id: Seq<u8>,
    rounds: Seq<Round>,
    next: Round,
)
    ensures
        ({
            let tester = after_rounds(TesterState::fresh(opts, id), rounds.push(next));
            let gone = is_fatal(next.result) || lost_tries(rounds.push(next))
                >= opts.max_conn_tries;
            &&& tester.tries == lost_tries(rounds.push(next))
            &&& gone ==> tester.stage == (Stage::Over { died: true })
            &&& !gone ==> tester.stage == Stage::Waiting(
                remaining(opts.poll_time@, next.elapsed),
            )
        }),
{
    lemma_tries(opts, id, rounds);
    lemma_tries(opts, id, rounds.push(next));
    assert(rounds.push(next).drop_last() =~= rounds);
}

/// A tester waits for the next test after each of `rounds` exactly when the
/// connection is kept through all of them.
pub proof fn law_goes_on_while_kept(
    opts: ConnectionTesterOptions,
    id: Seq<u8>,
    rounds: Seq<Round>,
)
    ensures
        (forall|n: int|
            0 <= n <= rounds.len() ==> (#[trigger] after_rounds(
                TesterState::fresh(opts, id),
                rounds.take(n),
            )).stage is Waiting) <==> is_kept(rounds, opts.max_conn_tries as nat),
{
    let start = TesterState::fresh(opts, id);
    assert forall|i: int| 0 <= i < rounds.len() implies (after_rounds(
        start,
        #[trigger] rounds.take(i + 1),
    ).stage is Waiting <==> !is_fatal(rounds[i].result) && lost_tries(rounds.take(i + 1))
        < opts.max_conn_tries) by {
        law_gives_up_exactly_when(opts, id, rounds.take(i), rounds[i]);
        assert(rounds.take(i).push(rounds[i]) =~= rounds.take(i + 1));
    }
    if is_kept(rounds, opts.max_conn_tries as nat) {
        assert forall|n: int| 0 <= n <= rounds.len() implies (#[trigger] after_rounds(
            start,
            rounds.take(n),
        )).stage is Waiting by {
            if n > 0 {
                assert(!is_fatal(rounds[n - 1].result));
                assert(rounds.take((n - 1) + 1) == rounds.take(n));
            }
        }
    }
    if forall|n: int|
        0 <= n <= rounds.len() ==> (#[trigger] after_rounds(start, rounds.take(n))).stage is Waiting {
        assert forall|i: int| 0 <= i < rounds.len() implies !is_fatal(
            (#[trigger] rounds[i]).result,
        ) && lost_tries(rounds.take(i + 1)) < opts.max_conn_tries by {
            assert(after_rounds(start, rounds.take(i + 1)).stage is Waiting);
        }
    }
}

/// A tester that is asked to stop ends without giving the connection up.
pub proof fn law_stop_is_no_death(tester: TesterState)
    ensures
        tester.after_wait(true).stage == (Stage::Over { died: false }),
        tester.after_wait(true).tries == tester.tries,
{
}

/// Tests begin `poll_time` apart, or one right after the other where a test takes
/// longer than that.
pub proof fn law_tests_keep_their_pace(tester: TesterState, result: TestResult, elapsed: nat)
    requires
        tester.after_test(result, elapsed).stage is Waiting,
    ensures
        elapsed + tester.after_test(result, elapsed).stage->Waiting_0 == crate::duration::longer(
            tester.poll_time,
            elapsed,
        ),
{
}

/// What a test says about the connection, result by result. A timeout after some
/// bytes were moved, however many, is one more lost try, and nothing else is. The
/// connection is given up at once where a test failed or timed out without having
/// moved a byte, and otherwise exactly when the lost tries reach `max_conn_tries`.
pub proof fn law_each_result_counts(tester: TesterState, result: TestResult, elapsed: nat)
    ensures
        ({
            let after = tester.after_test(result, elapsed);
            &&& after == TesterState { tries: after.tries, stage: after.stage, ..tester }
            &&& match result {
                TestResult::Timeout(count) => after.tries == tester.tries + (if count == 0 {
                    0nat
                } else {
                    1
                }),
                _ => after.tries == tester.tries,
            }
            &&& after.stage == (Stage::Over { died: true }) <==> match result {
                TestResult::Success => tester.tries >= tester.max_conn_tries,
                TestResult::Timeout(count) => count == 0 || tester.tries + 1
                    >= tester.max_conn_tries,
                TestResult::AcceptFail
                | TestResult::WriteFail
                | TestResult::ReadFail
                | TestResult::PollFail => true,
            }
            &&& after.stage != (Stage::Over { died: true }) ==> (after.stage matches Stage::Waiting(
                wait,
            ) && (wait + elapsed == tester.poll_time || (wait == 0 && elapsed
                > tester.poll_time)))
        }),
{
}

/// How many of `rounds` timed out after some bytes were moved.
pub open spec fn timeouts(rounds: Seq<Round>) -> nat
    decreases rounds.len(),
{
    if rounds.len() == 0 {
        0
    } else {
        timeouts(rounds.drop_last()) + match rounds.last().result {
            TestResult::Timeout(0) => 0nat,
            TestResult::Timeout(_) => 1,
            _ => 0,
        }
    }
}

/// The lost tries are the rounds that timed out after some bytes were moved.
pub proof fn law_lost_tries_are_timeouts(
    opts: ConnectionTesterOptions,
    id: Seq<u8>,
    rounds: Seq<Round>,
)
    ensures
        after_rounds(TesterState::fresh(opts, id), rounds).tries == timeouts(rounds),
    decreases rounds.len(),
{
    if rounds.len() > 0 {
        law_lost_tries_are_timeouts(opts, id, rounds.drop_last());
    }
}

proof fn lemma_all_timeouts(rounds: Seq<Round>)
    requires
        forall|i: int|
            0 <= i < rounds.len() ==> ((#[trigger] rounds[i]).result matches TestResult::Timeout(
                count,
            ) && count > 0),
    ensures
        timeouts(rounds) == rounds.len(),
    decreases rounds.len(),
{
    if rounds.len() > 0 {
        assert forall|i: int| 0 <= i < rounds.len() - 1 implies (
        (#[trigger] rounds.drop_last()[i]).result matches TestResult::Timeout(count) && count > 0) by {
            assert(rounds.drop_last()[i] == rounds[i]);
        }
        lemma_all_timeouts(rounds.drop_last());
        assert(rounds[rounds.len() - 1] == rounds.last());
    }
}

/// A connection that takes every probe and never answers in time is given up in the
/// round that makes `max_conn_tries`, and in none before, whatever the byte counts.
pub proof fn law_silent_connection_is_given_up(
    opts: ConnectionTesterOptions,
    id: Seq<u8>,
    rounds: Seq<Round>,
)
    requires
        rounds.len() > 0,
        forall|i: int|
            0 <= i < rounds.len() ==> ((#[trigger] rounds[i]).result matches TestResult::Timeout(
                count,
            ) && count > 0),
    ensures
        ({
            let tester = after_rounds(TesterState::fresh(opts, id), rounds);
            &&& rounds.len() >= opts.max_conn_tries ==> tester.stage == (Stage::Over {
                died: true,
            })
            &&& rounds.len() < opts.max_conn_tries ==> tester.stage is Waiting
        }),
{
    let start = TesterState::fresh(opts, id);
    law_lost_tries_are_timeouts(opts, id, rounds);
    law_lost_tries_are_timeouts(opts, id, rounds.drop_last());
    lemma_all_timeouts(rounds);
    lemma_tries(opts, id, rounds.drop_last());
    let last = rounds[rounds.len() - 1];
    law_each_result_counts(
        after_rounds(start, rounds.drop_last()).after_wait(false),
        last.result,
        last.elapsed,
    );
}

/// A new tester has lost nothing, waits for `first_poll_time`, and keeps to its
/// options; its probe is the name of the program, the random part and the message.
pub proof fn law_fresh_tester(opts: ConnectionTesterOptions, id: Seq<u8>)
    ensures
        ({
            let tester = TesterState::fresh(opts, id);
            &&& tester.stage == Stage::Waiting(opts.first_poll_time@)
            &&& tester.tries == 0
            &&& tester.max_conn_tries == opts.max_conn_tries
            &&& tester.poll_time == opts.poll_time@
            &&& tester.net_timeout == opts.net_timeout@
            &&& tester.payload == encode_utf8("robotssh"@) + id + encode_utf8(opts.echo_message@)
        }),
{
}

/// A wait that is not cut short by a request to stop is followed by a test, and a
/// wait changes nothing else.
pub proof fn law_wait_leads_to_a_test(tester: TesterState, stop: bool)
    ensures
        tester.after_wait(stop) == (TesterState {
            stage: tester.after_wait(stop).stage,
            ..tester
        }),
        tester.after_wait(stop).stage is Testing <==> !stop,
        tester.after_wait(stop).stage is Over <==> stop,
{
}

/// A stage says the same as the action that it is the view of.
pub proof fn law_action_says_the_stage(action: TesterAction, span: Duration, died: bool)
    ensures
        TesterAction::Wait(span)@ == Stage::Waiting(span@),
        action@ is Waiting <==> action is Wait,
        action@ is Testing <==> action is Test,
        action@ == (Stage::Over { died }) <==> action == (TesterAction::Finish { died }),
{
}

} // verus!
