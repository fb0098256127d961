//! One test of the connection: the payload is written to the forwarded port and
//! has to come back, either on a connection that the far end opens to the
//! listener or, where an echo server answers, on the same connection.
//!
//! `ConnectionTest` decides every step of a test. The program carries out the
//! step that is pending, reports what happened, and asks for the next one.
use vstd::prelude::*;

use crate::duration::{Duration, remaining, shorter};

verus! {

/// Room for the bytes of one read.
pub const READ_BUFFER: usize = 128;

/// The longest wait for socket events, in milliseconds.
pub const MAX_POLL_MILLIS: u64 = 20;

/// How a test ended.
#[derive(Clone, Copy, Debug, PartialEq, Eq, Structural)]
pub enum TestResult {
    /// The whole payload came back.
    Success,
    /// No connection was made, or none was accepted.
    AcceptFail,
    /// The payload could not be written.
    WriteFail,
    /// Reading failed, or what came back is not the payload.
    ReadFail,
    /// Waiting for socket events failed.
    PollFail,
    /// Nothing happened for too long. Holds how many bytes were moved, counting
    /// both directions.
    Timeout(usize),
}

/// The socket that an event belongs to.
#[derive(Clone, Copy, Debug, PartialEq, Eq, Structural)]
pub enum Token {
    /// The connection to the forwarded port.
    Writer,
    /// The listener.
    Conn,
    /// The connection that the listener accepted.
    Reader,
}

/// Why a read or a write moved nothing.
#[derive(Clone, Copy, Debug, PartialEq, Eq, Structural)]
pub enum ErrorKind {
    Interrupted,
    WouldBlock,
    Other,
}

/// What the program has to do next.
#[derive(Clone, Copy, Debug, PartialEq, Eq, Structural)]
pub enum Action {
    /// Open the connection to the forwarded port.
    Connect,
    /// Wait for socket events, no longer than `poll_timeout` says.
    Poll,
    /// Report the next event of the batch, or its end.
    NextEvent,
    /// Accept a connection from the listener.
    Accept,
    /// Write some of `unsent`. Where `then_read` holds, the same event also
    /// asks for a read.
    Write { then_read: bool },
    /// Read up to `READ_BUFFER` bytes.
    Read,
    /// Watch the accepted connection in place of the listener, then go on as
    /// for `NextEvent`.
    WatchConnection,
    /// Stop watching the connection to the forwarded port, then go on as for
    /// `NextEvent`.
    StopWriting,
    /// The test is over.
    Finish(TestResult),
}

/// What happened. Times are counted from the moment that the connection was
/// opened.
#[derive(Debug)]
pub enum Input {
    /// Whether the connection could be opened.
    Connected(bool),
    /// Waiting for socket events failed.
    PollFailed,
    /// The wait ended at `now` without an event.
    PollEmpty { now: Duration },
    /// The wait ended with events; `now` is when they were seen.
    PollReady { now: Duration },
    /// One event of the batch.
    Event { token: Token, readable: bool, writable: bool },
    /// The batch holds no more events.
    BatchDone,
    /// Whether a connection was accepted.
    Accepted(bool),
    /// How many bytes were written.
    Wrote(Result<usize, ErrorKind>),
    /// The bytes that were read.
    Received(Result<Vec<u8>, ErrorKind>),
}

/// A test as a value: the view of `ConnectionTest`.
pub struct TestState {
    /// What is sent and has to come back.
    pub payload: Seq<u8>,
    /// Whether the payload comes back through the listener.
    pub listener: bool,
    /// How long the test waits for the next event, in nanoseconds.
    pub timeout: nat,
    /// Whether the listener has accepted a connection.
    pub accepted: bool,
    /// How much of the payload was written.
    pub sent: nat,
    /// How much of the payload came back.
    pub received: nat,
    /// When the last event was seen, in nanoseconds.
    pub last_activity: nat,
    /// What the program has to do next.
    pub pending: Action,
}

impl TestState {
    /// A test that has not begun.
    pub open spec fn fresh(payload: Seq<u8>, listener: bool, timeout: nat) -> TestState {
        TestState {
            payload,
            listener,
            timeout,
            accepted: false,
            sent: 0,
            received: 0,
            last_activity: 0,
            pending: Action::Connect,
        }
    }

    pub open spec fn well_formed(self) -> bool {
        &&& self.payload.len() <= isize::MAX
        &&& self.sent <= self.payload.len()
        &&& self.received <= self.payload.len()
    }

    /// The test with another step pending.
    pub open spec fn awaiting(self, pending: Action) -> TestState {
        TestState { pending, ..self }
    }

    /// The bytes moved so far, counting both directions.
    pub open spec fn moved(self) -> nat {
        self.sent + self.received
    }

    /// Whether a batch of events is being worked through.
    pub open spec fn in_batch(self) -> bool {
        self.pending is NextEvent || self.pending is WatchConnection || self.pending is StopWriting
    }

    /// Whether `bytes` are the next part of the payload.
    pub open spec fn matches_next(self, bytes: Seq<u8>) -> bool {
        &&& self.received + bytes.len() <= self.payload.len()
        &&& bytes == self.payload.subrange(
            self.received as int,
            (self.received + bytes.len()) as int,
        )
    }

    /// Whether `input` answers the step that is pending.
    pub open spec fn accepts(self, input: Input) -> bool {
        match input {
            Input::Connected(_) => self.pending is Connect,
            Input::PollFailed => self.pending is Poll,
            Input::PollEmpty { .. } => self.pending is Poll,
            Input::PollReady { .. } => self.pending is Poll,
            Input::Event { token, readable, writable } => self.in_batch() && (self.listener ==> {
                match token {
                    Token::Conn => readable && !self.accepted,
                    Token::Writer => writable,
                    Token::Reader => readable && self.accepted,
                }
            }),
            Input::BatchDone => self.in_batch(),
            Input::Accepted(_) => self.pending is Accept,
            Input::Wrote(outcome) => self.pending is Write && (outcome matches Ok(count)
                ==> self.sent + count <= self.payload.len()),
            Input::Received(_) => self.pending is Read,
        }
    }

    /// What an event asks for. With a listener each socket has its own duty.
    /// Without one the single connection is written while anything is left to
    /// write, and read as well if it is readable.
    pub open spec fn duty(self, token: Token, readable: bool, writable: bool) -> Action {
        if self.listener {
            match token {
                Token::Conn => Action::Accept,
                Token::Writer => Action::Write { then_read: false },
                Token::Reader => Action::Read,
            }
        } else if writable && self.sent < self.payload.len() {
            Action::Write { then_read: readable }
        } else if readable {
            Action::Read
        } else {
            Action::NextEvent
        }
    }

    /// What follows a write that `sent` already counts.
    pub open spec fn after_write(self) -> Action {
        if self.listener && self.sent == self.payload.len() {
            Action::StopWriting
        } else if !self.listener && self.pending == (Action::Write { then_read: true }) {
            Action::Read
        } else {
            Action::NextEvent
        }
    }

    /// The test once `input` is taken into account.
    pub open spec fn next(self, input: Input) -> TestState {
        match input {
            Input::Connected(opened) => self.awaiting(
                if opened { Action::Poll } else { Action::Finish(TestResult::AcceptFail) },
            ),
            Input::PollFailed => self.awaiting(Action::Finish(TestResult::PollFail)),
            Input::PollEmpty { now } => self.awaiting(
                if remaining(now@, self.last_activity) >= self.timeout {
                    Action::Finish(TestResult::Timeout(self.moved() as usize))
                } else {
                    Action::Poll
                },
            ),
            Input::PollReady { now } => TestState {
                last_activity: now@,
                pending: Action::NextEvent,
                ..self
            },
            Input::Event { token, readable, writable } => self.awaiting(
                self.duty(token, readable, writable),
            ),
            Input::BatchDone => self.awaiting(Action::Poll),
            Input::Accepted(taken) => if taken {
                TestState { accepted: true, pending: Action::WatchConnection, ..self }
            } else {
                self.awaiting(Action::Finish(TestResult::AcceptFail))
            },
            Input::Wrote(Ok(count)) => if count == 0 {
                self.awaiting(Action::Finish(TestResult::WriteFail))
            } else {
                let moved = TestState { sent: self.sent + count as nat, ..self };
                moved.awaiting(moved.after_write())
            },
            Input::Received(Ok(bytes)) => if bytes@.len() == 0 || !self.matches_next(bytes@) {
                self.awaiting(Action::Finish(TestResult::ReadFail))
            } else {
                let received = self.received + bytes@.len();
                TestState {
                    received,
                    pending: if received == self.payload.len() {
                        Action::Finish(TestResult::Success)
                    } else {
                        Action::NextEvent
                    },
                    ..self
                }
            },
            Input::Wrote(Err(kind)) => self.awaiting(
                if kind is Other { Action::Finish(TestResult::WriteFail) } else { Action::NextEvent },
            ),
            Input::Received(Err(kind)) => self.awaiting(
                if kind is Other { Action::Finish(TestResult::ReadFail) } else { Action::NextEvent },
            ),
        }
    }
}

/// One test of the connection, under way.
#[derive(Debug)]
pub struct ConnectionTest {
    payload: Vec<u8>,
    listener: bool,
    timeout: Duration,
    accepted: bool,
    sent: usize,
    received: usize,
    last_activity: Duration,
    pending: Action,
}

impl View for ConnectionTest {
    type V = TestState;

    closed spec fn view(&self) -> TestState {
        TestState {
            payload: self.payload@,
            listener: self.listener,
            timeout: self.timeout@,
            accepted: self.accepted,
            sent: self.sent as nat,
            received: self.received as nat,
            last_activity: self.last_activity@,
            pending: self.pending,
        }
    }
}

impl ConnectionTest {
    #[verifier::type_invariant]
    closed spec fn wf(self) -> bool {
        self@.well_formed()
    }

    /// A test that sends `payload` and gives up once nothing has happened for
    /// `timeout`.
    pub fn new(payload: Vec<u8>, listener: bool, timeout: Duration) -> (test: ConnectionTest)
        requires
            payload@.len() <= isize::MAX,
        ensures
            test@ == TestState::fresh(payload@, listener, timeout@),
            test@.well_formed(),
    {
        ConnectionTest {
            payload,
            listener,
            timeout,
            accepted: false,
            sent: 0,
            received: 0,
            last_activity: Duration::from_secs(0),
            pending: Action::Connect,
        }
    }

    /// What the program has to do next.
    pub fn pending(&self) -> (action: Action)
        ensures
            action == self@.pending,
    {
        self.pending
    }

    /// What is still to be written.
    pub fn unsent(&self) -> (bytes: &[u8])
        ensures
            bytes@ == self@.payload.skip(self@.sent as int),
    {
        proof {
            use_type_invariant(self);
        }
        let bytes = vstd::slice::slice_subrange(
            self.payload.as_slice(),
            self.sent,
            self.payload.len(),
        );
        bytes
    }

    /// How long to wait for socket events at `now`: until the test would time
    /// out, but no longer than `MAX_POLL_MILLIS`.
    pub fn poll_timeout(&self, now: Duration) -> (span: Duration)
        ensures
            span@ == shorter(
                remaining(self@.timeout, remaining(now@, self@.last_activity)),
                MAX_POLL_MILLIS as nat * 1_000_000,
            ),
            span@ <= 20_000_000,
            now@ >= self@.last_activity + self@.timeout ==> span@ == 0,
            self@.last_activity <= now@ < self@.last_activity + self@.timeout && span@
                != 20_000_000 ==> now@ + span@ == self@.last_activity + self@.timeout,
            self@.last_activity <= now@ < self@.last_activity + self@.timeout ==> now@ + span@
                <= self@.last_activity + self@.timeout,
            now@ < self@.last_activity ==> span@ <= self@.timeout && (span@ == self@.timeout
                || span@ == 20_000_000),
    {
        let idle = now.saturating_sub(self.last_activity);
        self.timeout.saturating_sub(idle).min(Duration::from_millis(MAX_POLL_MILLIS))
    }

    fn in_batch(&self) -> (holds: bool)
        ensures
            holds == self@.in_batch(),
    {
        matches!(self.pending, Action::NextEvent | Action::WatchConnection | Action::StopWriting)
    }

    /// Whether `input` answers the step that is pending.
    pub fn accepts(&self, input: &Input) -> (holds: bool)
        ensures
            holds == self@.accepts(*input),
    {
        proof {
            use_type_invariant(self);
        }
        match input {
            Input::Connected(_) => matches!(self.pending, Action::Connect),
            Input::PollFailed | Input::PollEmpty { .. } | Input::PollReady { .. } => matches!(
                self.pending,
                Action::Poll
            ),
            Input::Event { token, readable, writable } => {
                self.in_batch() && (!self.listener || match token {
                    Token::Conn => *readable && !self.accepted,
                    Token::Writer => *writable,
                    Token::Reader => *readable && self.accepted,
                })
            },
            Input::BatchDone => self.in_batch(),
            Input::Accepted(_) => matches!(self.pending, Action::Accept),
            Input::Wrote(Ok(count)) => matches!(self.pending, Action::Write { .. }) && *count
                <= self.payload.len() - self.sent,
            Input::Wrote(Err(_)) => matches!(self.pending, Action::Write { .. }),
            Input::Received(_) => matches!(self.pending, Action::Read),
        }
    }

    fn duty(&self, token: Token, readable: bool, writable: bool) -> (action: Action)
        ensures
            action == self@.duty(token, readable, writable),
    {
        if self.listener {
            match token {
                Token::Conn => Action::Accept,
                Token::Writer => Action::Write { then_read: false },
                Token::Reader => Action::Read,
            }
        } else if writable && self.sent < self.payload.len() {
            Action::Write { then_read: readable }
        } else if readable {
            Action::Read
        } else {
            Action::NextEvent
        }
    }

    fn matches_next(&self, bytes: &Vec<u8>) -> (holds: bool)
        ensures
            holds == self@.matches_next(bytes@),
    {
        proof {
            use_type_invariant(self);
        }
        if bytes.len() > self.payload.len() - self.received {
            return false;
        }
        let ghost expected = self.payload@.subrange(
            self.received as int,
            self.received + bytes.len(),
        );
        let mut i: usize = 0;
        while i < bytes.len()
            invariant
                self.received + bytes.len() <= self.payload.len(),
                self@.received == self.received,
                self@.payload == self.payload@,
                expected == self.payload@.subrange(
                    self.received as int,
                    self.received + bytes.len(),
                ),
                i <= bytes.len(),
                forall|j: int| 0 <= j < i ==> bytes@[j] == expected[j],
            decreases bytes.len() - i,
        {
            if bytes[i] != self.payload[self.received + i] {
                assert(bytes@[i as int] != expected[i as int]);
                return false;
            }
            i += 1;
        }
        assert(bytes@ =~= expected);
        true
    }

    /// Takes what happened into account.
    pub fn step(&mut self, input: Input)
        requires
            old(self)@.accepts(input),
        ensures
            final(self)@ == old(self)@.next(input),
            final(self)@.well_formed(),
    {
        proof {
            use_type_invariant(&*self);
        }
        match input {
            Input::Connected(opened) => {
                self.pending = if opened {
                    Action::Poll
                } else {
                    Action::Finish(TestResult::AcceptFail)
                };
            },
            Input::PollFailed => {
                self.pending = Action::Finish(TestResult::PollFail);
            },
            Input::PollEmpty { now } => {
                let idle = now.saturating_sub(self.last_activity);
                self.pending = if idle.at_least(self.timeout) {
                    Action::Finish(TestResult::Timeout(self.sent + self.received))
                } else {
                    Action::Poll
                };
            },
            Input::PollReady { now } => {
                self.last_activity = now;
                self.pending = Action::NextEvent;
            },
            Input::Event { token, readable, writable } => {
                self.pending = self.duty(token, readable, writable);
            },
            Input::BatchDone => {
                self.pending = Action::Poll;
            },
            Input::Accepted(taken) => {
                if taken {
                    self.accepted = true;
                    self.pending = Action::WatchConnection;
                } else {
                    self.pending = Action::Finish(TestResult::AcceptFail);
                }
            },
            Input::Wrote(Ok(count)) => {
                if count == 0 {
                    self.pending = Action::Finish(TestResult::WriteFail);
                } else {
                    self.sent = self.sent + count;
                    self.pending = if self.listener {
                        if self.sent == self.payload.len() {
                            Action::StopWriting
                        } else {
                            Action::NextEvent
                        }
                    } else if matches!(self.pending, Action::Write { then_read: true }) {
                        Action::Read
                    } else {
                        Action::NextEvent
                    };
                }
            },
            Input::Received(Ok(bytes)) => {
                if bytes.len() == 0 || !self.matches_next(&bytes) {
                    self.pending = Action::Finish(TestResult::ReadFail);
                } else {
                    self.received = self.received + bytes.len();
                    self.pending = if self.received == self.payload.len() {
                        Action::Finish(TestResult::Success)
                    } else {
                        Action::NextEvent
                    };
                }
            },
            Input::Wrote(Err(kind)) => {
                self.pending = if matches!(kind, ErrorKind::Other) {
                    Action::Finish(TestResult::WriteFail)
                } else {
                    Action::NextEvent
                };
            },
            Input::Received(Err(kind)) => {
                self.pending = if matches!(kind, ErrorKind::Other) {
                    Action::Finish(TestResult::ReadFail)
                } else {
                    Action::NextEvent
                };
            },
        }
    }
}

/// The test once all of `inputs` are taken into account, in their order.
pub open spec fn run(start: TestState, inputs: Seq<Input>) -> TestState
    decreases inputs.len(),
{
    if inputs.len() == 0 {
        start
    } else {
        run(start, inputs.drop_last()).next(inputs.last())
    }
}

/// Whether each of `inputs` answers the step that is pending when it comes.
pub open spec fn answers(start: TestState, inputs: Seq<Input>) -> bool
    decreases inputs.len(),
{
    inputs.len() == 0 || (answers(start, inputs.drop_last()) && run(
        start,
        inputs.drop_last(),
    ).accepts(inputs.last()))
}

/// All bytes that `inputs` report as read.
pub open spec fn came_back(inputs: Seq<Input>) -> Seq<u8>
    decreases inputs.len(),
{
    if inputs.len() == 0 {
        Seq::empty()
    } else {
        match inputs.last() {
            Input::Received(Ok(bytes)) => came_back(inputs.drop_last()) + bytes@,
            _ => came_back(inputs.drop_last()),
        }
    }
}

/// How many bytes `inputs` report as written.
pub open spec fn written(inputs: Seq<Input>) -> nat
    decreases inputs.len(),
{
    if inputs.len() == 0 {
        0
    } else {
        match inputs.last() {
            Input::Wrote(Ok(count)) => written(inputs.drop_last()) + count as nat,
            _ => written(inputs.drop_last()),
        }
    }
}

/// When `inputs` last report socket events, in nanoseconds.
pub open spec fn last_event(inputs: Seq<Input>) -> nat
    decreases inputs.len(),
{
    if inputs.len() == 0 {
        0
    } else {
        match inputs.last() {
            Input::PollReady { now } => now@,
            _ => last_event(inputs.drop_last()),
        }
    }
}

/// Whether `state` agrees with what `inputs` report of a test of `payload`.
spec fn agrees(state: TestState, payload: Seq<u8>, timeout: nat, inputs: Seq<Input>) -> bool {
    let over = Action::Finish(TestResult::Success);
    let broken = Action::Finish(TestResult::ReadFail);
    &&& state.well_formed()
    &&& state.payload == payload
    &&& state.timeout == timeout
    &&& state.sent == written(inputs)
    &&& state.last_activity == last_event(inputs)
    &&& state.pending == over <==> payload.len() > 0 && state.received == payload.len()
    &&& state.pending != broken ==> came_back(inputs) == payload.take(state.received as int)
    &&& state.pending == broken ==> came_back(inputs) != payload || payload.len() == 0
    &&& state.pending matches Action::Finish(TestResult::Timeout(count)) ==> count
        == state.moved()
}

proof fn lemma_agrees(payload: Seq<u8>, listener: bool, timeout: nat, inputs: Seq<Input>)
    requires
        payload.len() <= isize::MAX,
        answers(TestState::fresh(payload, listener, timeout), inputs),
    ensures
        agrees(
            run(TestState::fresh(payload, listener, timeout), inputs),
            payload,
            timeout,
            inputs,
        ),
    decreases inputs.len(),
{
    let start = TestState::fresh(payload, listener, timeout);
    if inputs.len() == 0 {
        assert(payload.take(0) =~= Seq::<u8>::empty());
    } else {
        let before = inputs.drop_last();
        lemma_agrees(payload, listener, timeout, before);
        let state = run(start, before);
        match inputs.last() {
            Input::Received(Ok(bytes)) => {
                let end = (state.received + bytes@.len()) as int;
                if state.matches_next(bytes@) {
                    assert(payload.take(end) =~= payload.take(state.received as int) + bytes@);
                } else if came_back(inputs) == payload {
                    assert(bytes@ =~= payload.subrange(state.received as int, end));
                }
            },
            _ => {},
        }
    }
}

/// A test succeeds exactly when the bytes that came back are the payload, no
/// byte more or less, in whatever pieces they were read. An empty payload is
/// left out: of it nothing comes back and no test succeeds.
pub proof fn law_success_iff_payload_came_back(
    payload: Seq<u8>,
    listener: bool,
    timeout: nat,
    inputs: Seq<Input>,
)
    requires
        0 < payload.len() <= isize::MAX,
        answers(TestState::fresh(payload, listener, timeout), inputs),
    ensures
        run(TestState::fresh(payload, listener, timeout), inputs).pending == Action::Finish(
            TestResult::Success,
        ) <==> came_back(inputs) == payload,
{
    lemma_agrees(payload, listener, timeout, inputs);
    let state = run(TestState::fresh(payload, listener, timeout), inputs);
    if state.received == payload.len() {
        assert(payload.take(payload.len() as int) =~= payload);
    } else {
        assert(payload.take(state.received as int).len() != payload.len());
    }
}

/// What has come back so far is a beginning of the payload, unless the test
/// failed on reading; and what is still to be written is the payload without
/// what was written.
pub proof fn law_progress_is_a_prefix(
    payload: Seq<u8>,
    listener: bool,
    timeout: nat,
    inputs: Seq<Input>,
)
    requires
        payload.len() <= isize::MAX,
        answers(TestState::fresh(payload, listener, timeout), inputs),
    ensures
        ({
            let state = run(TestState::fresh(payload, listener, timeout), inputs);
            &&& state.pending != Action::Finish(TestResult::ReadFail) ==> came_back(inputs)
                == payload.take(state.received as int)
            &&& state.payload.skip(state.sent as int) == payload.skip(written(inputs) as int)
            &&& written(inputs) <= payload.len()
        }),
{
    lemma_agrees(payload, listener, timeout, inputs);
}

/// A timeout reports how many bytes were written and read together; so it
/// reports zero exactly when the connection moved nothing at all.
pub proof fn law_timeout_counts_both_directions(
    payload: Seq<u8>,
    listener: bool,
    timeout: nat,
    inputs: Seq<Input>,
    count: usize,
)
    requires
        payload.len() <= isize::MAX,
        answers(TestState::fresh(payload, listener, timeout), inputs),
        run(TestState::fresh(payload, listener, timeout), inputs).pending == Action::Finish(
            TestResult::Timeout(count),
        ),
    ensures
        count == written(inputs) + came_back(inputs).len(),
        count == 0 <==> written(inputs) == 0 && came_back(inputs).len() == 0,
{
    lemma_agrees(payload, listener, timeout, inputs);
}

/// A wait that ends without events ends the test exactly when `timeout` has
/// gone by since events were last seen.
pub proof fn law_times_out_only_when_idle(
    payload: Seq<u8>,
    listener: bool,
    timeout: nat,
    inputs: Seq<Input>,
    now: Duration,
)
    requires
        payload.len() <= isize::MAX,
        answers(TestState::fresh(payload, listener, timeout), inputs),
        run(TestState::fresh(payload, listener, timeout), inputs).pending == Action::Poll,
    ensures
        run(
            TestState::fresh(payload, listener, timeout),
            inputs.push(Input::PollEmpty { now }),
        ).pending is Finish <==> remaining(now@, last_event(inputs)) >= timeout,
{
    lemma_agrees(payload, listener, timeout, inputs);
    assert(inputs.push(Input::PollEmpty { now }).drop_last() =~= inputs);
}

/// Nothing answers a test that is over.
pub proof fn law_finished_is_final(state: TestState, input: Input)
    requires
        state.pending is Finish,
    ensures
        !state.accepts(input),
{
}

proof fn lemma_no_read_before_accept(payload: Seq<u8>, timeout: nat, inputs: Seq<Input>)
    requires
        answers(TestState::fresh(payload, true, timeout), inputs),
    ensures
        ({
            let state = run(TestState::fresh(payload, true, timeout), inputs);
            &&& state.listener
            &&& !state.accepted ==> state.received == 0 && came_back(inputs).len() == 0
                && !(state.pending is Read)
            &&& state.pending is Write ==> state.pending == (Action::Write { then_read: false })
        }),
    decreases inputs.len(),
{
    if inputs.len() > 0 {
        lemma_no_read_before_accept(payload, timeout, inputs.drop_last());
    }
}

/// Where the far end connects back to the listener, nothing is read before a
/// connection was accepted.
pub proof fn law_no_read_before_accept(
    payload: Seq<u8>,
    timeout: nat,
    inputs: Seq<Input>,
)
    requires
        answers(TestState::fresh(payload, true, timeout), inputs),
        !run(TestState::fresh(payload, true, timeout), inputs).accepted,
    ensures
        run(TestState::fresh(payload, true, timeout), inputs).received == 0,
        came_back(inputs).len() == 0,
{
    lemma_no_read_before_accept(payload, timeout, inputs);
}

/// How many connections `inputs` report as accepted.
pub open spec fn accepted_connections(inputs: Seq<Input>) -> nat
    decreases inputs.len(),
{
    if inputs.len() == 0 {
        0
    } else {
        accepted_connections(inputs.drop_last()) + (if inputs.last() == Input::Accepted(true) {
            1nat
        } else {
            0
        })
    }
}

proof fn lemma_accepted_connections(start: TestState, inputs: Seq<Input>)
    requires
        start.pending is Connect,
        !start.accepted,
        answers(start, inputs),
    ensures
        ({
            let state = run(start, inputs);
            &&& state.listener == start.listener
            &&& state.pending is Accept ==> state.listener && !state.accepted
            &&& state.accepted ==> state.listener
            &&& accepted_connections(inputs) == (if state.accepted { 1nat } else { 0 })
        }),
    decreases inputs.len(),
{
    if inputs.len() > 0 {
        lemma_accepted_connections(start, inputs.drop_last());
    }
}

/// A test accepts at most one connection, and none where an echo server answers.
pub proof fn law_at_most_one_connection(
    payload: Seq<u8>,
    listener: bool,
    timeout: nat,
    inputs: Seq<Input>,
)
    requires
        answers(TestState::fresh(payload, listener, timeout), inputs),
    ensures
        accepted_connections(inputs) <= 1,
        !listener ==> accepted_connections(inputs) == 0,
{
    lemma_accepted_connections(TestState::fresh(payload, listener, timeout), inputs);
}

proof fn lemma_connects_first(start: TestState, inputs: Seq<Input>)
    requires
        start.pending is Connect,
        answers(start, inputs),
    ensures
        run(start, inputs).pending is Connect <==> inputs.len() == 0,
        inputs.len() > 0 ==> inputs[0] is Connected,
        forall|i: int| 1 <= i < inputs.len() ==> !((#[trigger] inputs[i]) is Connected),
        run(start, inputs).pending == Action::Finish(TestResult::AcceptFail) <==> inputs.len() > 0
            && (inputs.last() == Input::Connected(false) || inputs.last() == Input::Accepted(
            false,
        )),
    decreases inputs.len(),
{
    if inputs.len() > 0 {
        let before = inputs.drop_last();
        lemma_connects_first(start, before);
        assert forall|i: int| 1 <= i < inputs.len() implies !((#[trigger] inputs[i])
            is Connected) by {
            if i < before.len() {
                assert(before[i] == inputs[i]);
            }
        }
        if before.len() > 0 {
            assert(before[0] == inputs[0]);
        }
    }
}

/// A test fails to accept exactly when the connection to the forwarded port could
/// not be opened or none was accepted from the listener.
pub proof fn law_accept_fails_exactly_when(
    payload: Seq<u8>,
    listener: bool,
    timeout: nat,
    inputs: Seq<Input>,
)
    requires
        answers(TestState::fresh(payload, listener, timeout), inputs),
    ensures
        run(TestState::fresh(payload, listener, timeout), inputs).pending == Action::Finish(
            TestResult::AcceptFail,
        ) <==> inputs.len() > 0 && (inputs.last() == Input::Connected(false) || inputs.last()
            == Input::Accepted(false)),
{
    lemma_connects_first(TestState::fresh(payload, listener, timeout), inputs);
}

proof fn lemma_prefix_answers(start: TestState, inputs: Seq<Input>, n: int)
    requires
        answers(start, inputs),
        0 <= n <= inputs.len(),
    ensures
        answers(start, inputs.take(n)),
    decreases inputs.len(),
{
    if n == inputs.len() {
        assert(inputs.take(n) =~= inputs);
    } else {
        lemma_prefix_answers(start, inputs.drop_last(), n);
        assert(inputs.drop_last().take(n) =~= inputs.take(n));
    }
}

/// The connection is opened once, before anything else; and where that fails
/// nothing is polled, accepted, written or read.
pub proof fn law_nothing_without_connection(
    payload: Seq<u8>,
    listener: bool,
    timeout: nat,
    inputs: Seq<Input>,
)
    requires
        answers(TestState::fresh(payload, listener, timeout), inputs),
        inputs.len() > 0,
    ensures
        inputs[0] is Connected,
        forall|i: int| 1 <= i < inputs.len() ==> !((#[trigger] inputs[i]) is Connected),
        inputs[0] == Input::Connected(false) ==> inputs.len() == 1,
{
    let start = TestState::fresh(payload, listener, timeout);
    lemma_connects_first(start, inputs);
    if inputs[0] == Input::Connected(false) && inputs.len() > 1 {
        lemma_prefix_answers(start, inputs, 2);
        let first = inputs.take(2);
        assert(first.drop_last() =~= inputs.take(1));
        assert(inputs.take(1).drop_last() =~= Seq::empty());
        assert(run(start, inputs.take(1).drop_last()) == start);
        law_finished_is_final(run(start, inputs.take(1)), first.last());
    }
}

/// How a test ends is decided by what happened last. It ends in `WriteFail` exactly
/// when a write failed or moved nothing; in `PollFail` exactly when waiting failed;
/// in `ReadFail` exactly when a read failed, found the end, or brought something
/// that does not go on with the payload; and in a timeout exactly when a wait ended
/// without events and the last events are `timeout` back. Anything else that
/// happens before the payload is back lets the test go on.
pub proof fn law_ends_exactly_when(
    payload: Seq<u8>,
    listener: bool,
    timeout: nat,
    inputs: Seq<Input>,
)
    requires
        payload.len() <= isize::MAX,
        answers(TestState::fresh(payload, listener, timeout), inputs),
        inputs.len() > 0,
    ensures
        ({
            let pending = run(TestState::fresh(payload, listener, timeout), inputs).pending;
            let last = inputs.last();
            &&& pending == Action::Finish(TestResult::WriteFail) <==> last == Input::Wrote(Ok(0))
                || last == Input::Wrote(Err(ErrorKind::Other))
            &&& pending == Action::Finish(TestResult::PollFail) <==> last == Input::PollFailed
            &&& pending == Action::Finish(TestResult::AcceptFail) <==> last == Input::Connected(
                false,
            ) || last == Input::Accepted(false)
            &&& pending == Action::Finish(TestResult::ReadFail) <==> last == Input::Received(
                Err(ErrorKind::Other),
            ) || (last matches Input::Received(Ok(bytes)) && (bytes@.len() == 0 || !came_back(
                inputs,
            ).is_prefix_of(payload)))
            &&& (pending matches Action::Finish(TestResult::Timeout(_))) <==> (
            last matches Input::PollEmpty { now } && (timeout == 0 || now@ >= last_event(inputs)
                + timeout))
            &&& pending == Action::Finish(TestResult::Success) <==> last is Received && payload.len()
                > 0 && came_back(inputs) == payload
        }),
{
    let start = TestState::fresh(payload, listener, timeout);
    let before = inputs.drop_last();
    lemma_agrees(payload, listener, timeout, before);
    lemma_agrees(payload, listener, timeout, inputs);
    let state = run(start, before);
    let after = run(start, inputs);
    assert(payload.take(payload.len() as int) =~= payload);
    assert(payload.take(state.received as int).len() == state.received);
    if let Input::Received(Ok(bytes)) = inputs.last() {
        let end = (state.received + bytes@.len()) as int;
        let back = came_back(inputs);
        assert(back == payload.take(state.received as int) + bytes@);
        if state.matches_next(bytes@) {
            assert(back =~= payload.take(end));
            assert(back.is_prefix_of(payload));
        } else if back.is_prefix_of(payload) {
            assert(back =~= payload.take(end));
            assert(bytes@ =~= payload.subrange(state.received as int, end)) by {
                assert forall|k: int| 0 <= k < bytes@.len() implies bytes@[k] == payload.subrange(
                    state.received as int,
                    end,
                )[k] by {
                    assert(back[state.received + k] == payload[state.received + k]);
                }
            }
        }
        if back == payload && payload.len() > 0 {
            assert(back.is_prefix_of(payload));
        }
    }
}

proof fn lemma_write_follows_event(start: TestState, inputs: Seq<Input>)
    requires
        start.pending is Connect,
        answers(start, inputs),
    ensures
        run(start, inputs).listener == start.listener,
        run(start, inputs).pending matches Action::Write { then_read } ==> inputs.len() > 0 && (
        inputs.last() matches Input::Event { readable, .. } && then_read == (!start.listener
            && readable)),
    decreases inputs.len(),
{
    if inputs.len() > 0 {
        lemma_write_follows_event(start, inputs.drop_last());
    }
}

/// With a listener, an event leads to what its socket is there for: a connection
/// is accepted, the payload is written, or its answer is read. Without one, the
/// connection is written as long as not all of the payload was, and read if it is
/// readable.
pub proof fn law_event_leads_to_its_work(
    payload: Seq<u8>,
    listener: bool,
    timeout: nat,
    inputs: Seq<Input>,
    token: Token,
    readable: bool,
    writable: bool,
)
    requires
        payload.len() <= isize::MAX,
        answers(TestState::fresh(payload, listener, timeout), inputs),
        inputs.len() > 0,
        inputs.last() == (Input::Event { token, readable, writable }),
    ensures
        ({
            let pending = run(TestState::fresh(payload, listener, timeout), inputs).pending;
            let to_write = writable && written(inputs) != payload.len();
            &&& listener ==> {
                &&& pending is Accept <==> token is Conn
                &&& pending is Write <==> token is Writer
                &&& pending is Read <==> token is Reader
            }
            &&& !listener ==> {
                &&& pending is Write <==> to_write
                &&& pending is Read <==> readable && !to_write
                &&& pending is NextEvent <==> !readable && !to_write
            }
        }),
{
    let start = TestState::fresh(payload, listener, timeout);
    lemma_agrees(payload, listener, timeout, inputs.drop_last());
    lemma_agrees(payload, listener, timeout, inputs);
    lemma_write_follows_event(start, inputs);
    lemma_write_follows_event(start, inputs.drop_last());
}

/// A write that moved something never ends a test. With a listener, the connection
/// is no longer watched for writing exactly when all of the payload was written;
/// without one, the write is followed by a read exactly when the event that led to
/// it said that there is something to read.
pub proof fn law_after_a_write(
    payload: Seq<u8>,
    listener: bool,
    timeout: nat,
    inputs: Seq<Input>,
    count: usize,
)
    requires
        payload.len() <= isize::MAX,
        answers(TestState::fresh(payload, listener, timeout), inputs),
        inputs.len() > 0,
        inputs.last() == Input::Wrote(Ok(count)),
        count > 0,
    ensures
        ({
            let pending = run(TestState::fresh(payload, listener, timeout), inputs).pending;
            &&& inputs.len() >= 2
            &&& inputs[inputs.len() - 2] is Event
            &&& !(pending is Finish)
            &&& listener ==> {
                &&& pending is StopWriting <==> written(inputs) == payload.len()
                &&& pending is NextEvent <==> written(inputs) != payload.len()
            }
            &&& !listener ==> {
                let readable = inputs[inputs.len() - 2]->Event_readable;
                &&& pending is Read <==> readable
                &&& pending is NextEvent <==> !readable
            }
        }),
{
    let start = TestState::fresh(payload, listener, timeout);
    let before = inputs.drop_last();
    lemma_agrees(payload, listener, timeout, before);
    lemma_agrees(payload, listener, timeout, inputs);
    lemma_write_follows_event(start, before);
    assert(before.last() == inputs[inputs.len() - 2]);
}

/// As long as a test is not over, it goes on to its next wait once a batch of
/// events is done or a wait was in vain, works through the events once there are
/// some, watches a connection once it has accepted it, and turns to the next event
/// after a read, or after a write that has to be tried again.
pub proof fn law_a_test_goes_on(
    payload: Seq<u8>,
    listener: bool,
    timeout: nat,
    inputs: Seq<Input>,
)
    requires
        answers(TestState::fresh(payload, listener, timeout), inputs),
        inputs.len() > 0,
        !(run(TestState::fresh(payload, listener, timeout), inputs).pending is Finish),
    ensures
        ({
            let pending = run(TestState::fresh(payload, listener, timeout), inputs).pending;
            match inputs.last() {
                Input::Connected(_) | Input::PollEmpty { .. } | Input::BatchDone => pending is Poll,
                Input::PollReady { .. } | Input::Received(_) | Input::Wrote(Err(_)) => pending
                    is NextEvent,
                Input::Accepted(_) => pending is WatchConnection,
                _ => true,
            }
        }),
{
}

/// Everything that can happen on a step answers it, and nothing else does: a wait
/// ends in any way at any time; any attempt to connect, accept, write or read may
/// succeed or fail, where a write moves no more than what is left; and a batch
/// brings any event of a socket that is being watched, or its end.
pub proof fn law_every_outcome_is_an_answer(
    payload: Seq<u8>,
    listener: bool,
    timeout: nat,
    inputs: Seq<Input>,
    input: Input,
)
    requires
        payload.len() <= isize::MAX,
        answers(TestState::fresh(payload, listener, timeout), inputs),
    ensures
        ({
            let state = run(TestState::fresh(payload, listener, timeout), inputs);
            let batch = state.pending is NextEvent || state.pending is WatchConnection
                || state.pending is StopWriting;
            state.accepts(input) <==> match input {
                Input::Connected(_) => inputs.len() == 0,
                Input::PollFailed | Input::PollEmpty { .. } | Input::PollReady { .. } =>
                    state.pending is Poll,
                Input::BatchDone => batch,
                Input::Accepted(_) => state.pending is Accept,
                Input::Received(_) => state.pending is Read,
                Input::Wrote(Err(_)) => state.pending is Write,
                Input::Wrote(Ok(count)) => state.pending is Write && written(inputs) + count
                    <= payload.len(),
                Input::Event { token, readable, writable } => batch && (!listener || match token {
                    Token::Writer => writable,
                    Token::Conn => readable && accepted_connections(inputs) == 0,
                    Token::Reader => readable && accepted_connections(inputs) == 1,
                }),
            }
        }),
{
    let start = TestState::fresh(payload, listener, timeout);
    lemma_agrees(payload, listener, timeout, inputs);
    lemma_connects_first(start, inputs);
    lemma_accepted_connections(start, inputs);
}

/// What a test is about never changes, and it keeps count of what was moved.
pub proof fn law_a_test_keeps_count(
    payload: Seq<u8>,
    listener: bool,
    timeout: nat,
    inputs: Seq<Input>,
)
    requires
        payload.len() <= isize::MAX,
        answers(TestState::fresh(payload, listener, timeout), inputs),
    ensures
        ({
            let state = run(TestState::fresh(payload, listener, timeout), inputs);
            &&& state.payload == payload
            &&& state.listener == listener
            &&& state.timeout == timeout
            &&& state.sent == written(inputs)
            &&& state.last_activity == last_event(inputs)
            &&& state.pending != Action::Finish(TestResult::ReadFail) ==> state.received
                == came_back(inputs).len()
        }),
{
    lemma_agrees(payload, listener, timeout, inputs);
    lemma_write_follows_event(TestState::fresh(payload, listener, timeout), inputs);
}

} // verus!
