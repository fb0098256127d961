use robotssh::duration::Duration;
use robotssh::exchange::{
    Action, ConnectionTest, ErrorKind, Input, TestResult, Token, MAX_POLL_MILLIS, READ_BUFFER,
};

fn secs(n: u64) -> Duration {
    Duration::from_secs(n)
}

fn test_of(payload: &[u8], listener: bool) -> ConnectionTest {
    ConnectionTest::new(payload.to_vec(), listener, secs(15))
}

fn answer(test: &mut ConnectionTest, input: Input) -> Action {
    assert!(test.accepts(&input), "{:?} at {:?}", input, test.pending());
    test.step(input);
    test.pending()
}

fn event(token: Token, readable: bool, writable: bool) -> Input {
    Input::Event { token, readable, writable }
}

fn received(bytes: &[u8]) -> Input {
    Input::Received(Ok(bytes.to_vec()))
}

/// A test that is in the middle of a batch of events.
fn in_batch(payload: &[u8], listener: bool) -> ConnectionTest {
    let mut test = test_of(payload, listener);
    assert_eq!(test.pending(), Action::Connect);
    assert_eq!(answer(&mut test, Input::Connected(true)), Action::Poll);
    assert_eq!(answer(&mut test, Input::PollReady { now: secs(1) }), Action::NextEvent);
    test
}

/// A test with a listener that is about to read.
fn about_to_read(payload: &[u8]) -> ConnectionTest {
    let mut test = in_batch(payload, true);
    assert_eq!(answer(&mut test, event(Token::Conn, true, false)), Action::Accept);
    assert_eq!(answer(&mut test, Input::Accepted(true)), Action::WatchConnection);
    assert_eq!(answer(&mut test, event(Token::Reader, true, false)), Action::Read);
    test
}

#[test]
fn only_one_connection_is_accepted() {
    let mut test = in_batch(b"robotssh", true);
    assert!(!test.accepts(&event(Token::Conn, false, false)));
    assert_eq!(answer(&mut test, event(Token::Conn, true, false)), Action::Accept);
    assert_eq!(answer(&mut test, Input::Accepted(true)), Action::WatchConnection);
    assert!(!test.accepts(&event(Token::Conn, true, false)));
    assert_eq!(answer(&mut test, Input::BatchDone), Action::Poll);
    assert_eq!(answer(&mut test, Input::PollReady { now: secs(2) }), Action::NextEvent);
    assert!(!test.accepts(&event(Token::Conn, true, false)));
    assert!(test.accepts(&event(Token::Reader, true, false)));
}

#[test]
fn nothing_follows_a_failed_connection() {
    let mut test = test_of(b"robotssh", true);
    let end = Action::Finish(TestResult::AcceptFail);
    assert_eq!(answer(&mut test, Input::Connected(false)), end);
    let now = secs(1);
    for input in [Input::PollFailed, Input::PollEmpty { now }, Input::PollReady { now }] {
        assert!(!test.accepts(&input));
    }
    assert!(!test.accepts(&Input::Connected(true)));
}

#[test]
fn payload_comes_back_through_the_listener() {
    let mut test = in_batch(b"robotssh", true);
    assert_eq!(
        answer(&mut test, event(Token::Writer, false, true)),
        Action::Write { then_read: false }
    );
    assert_eq!(test.unsent(), b"robotssh");
    assert_eq!(answer(&mut test, Input::Wrote(Ok(3))), Action::NextEvent);
    assert_eq!(test.unsent(), b"otssh");
    assert_eq!(
        answer(&mut test, event(Token::Writer, false, true)),
        Action::Write { then_read: false }
    );
    assert_eq!(answer(&mut test, Input::Wrote(Ok(5))), Action::StopWriting);
    assert!(test.unsent().is_empty());
    assert_eq!(answer(&mut test, event(Token::Conn, true, false)), Action::Accept);
    assert_eq!(answer(&mut test, Input::Accepted(true)), Action::WatchConnection);
    assert_eq!(answer(&mut test, Input::BatchDone), Action::Poll);
    assert_eq!(answer(&mut test, Input::PollReady { now: secs(2) }), Action::NextEvent);
    assert_eq!(answer(&mut test, event(Token::Reader, true, false)), Action::Read);
    assert_eq!(answer(&mut test, received(b"robot")), Action::NextEvent);
    assert_eq!(answer(&mut test, event(Token::Reader, true, false)), Action::Read);
    assert_eq!(answer(&mut test, received(b"ssh")), Action::Finish(TestResult::Success));
}

#[test]
fn payload_comes_back_from_the_echo_server() {
    let mut test = in_batch(b"robotssh", false);
    assert_eq!(
        answer(&mut test, event(Token::Writer, true, true)),
        Action::Write { then_read: true }
    );
    assert_eq!(answer(&mut test, Input::Wrote(Ok(8))), Action::Read);
    assert_eq!(answer(&mut test, received(b"robotss")), Action::NextEvent);
    assert_eq!(answer(&mut test, event(Token::Writer, true, true)), Action::Read);
    assert_eq!(answer(&mut test, received(b"h")), Action::Finish(TestResult::Success));
}

#[test]
fn echo_events_without_duty_are_passed_over() {
    let mut test = in_batch(b"ab", false);
    assert_eq!(answer(&mut test, event(Token::Writer, false, false)), Action::NextEvent);
    assert_eq!(
        answer(&mut test, event(Token::Writer, false, true)),
        Action::Write { then_read: false }
    );
    assert_eq!(answer(&mut test, Input::Wrote(Ok(2))), Action::NextEvent);
    assert_eq!(answer(&mut test, event(Token::Writer, false, true)), Action::NextEvent);
}

#[test]
fn no_connection_fails_the_test() {
    let mut test = test_of(b"ab", true);
    assert_eq!(
        answer(&mut test, Input::Connected(false)),
        Action::Finish(TestResult::AcceptFail)
    );
}

#[test]
fn refused_accept_fails_the_test() {
    let mut test = in_batch(b"ab", true);
    answer(&mut test, event(Token::Conn, true, false));
    assert_eq!(
        answer(&mut test, Input::Accepted(false)),
        Action::Finish(TestResult::AcceptFail)
    );
}

#[test]
fn failed_poll_fails_the_test() {
    let mut test = test_of(b"ab", false);
    answer(&mut test, Input::Connected(true));
    assert_eq!(answer(&mut test, Input::PollFailed), Action::Finish(TestResult::PollFail));
}

#[test]
fn writes_fail_or_are_tried_again() {
    for listener in [true, false] {
        for outcome in [Ok(0), Err(ErrorKind::Other)] {
            let mut test = in_batch(b"ab", listener);
            answer(&mut test, event(Token::Writer, true, true));
            assert_eq!(
                answer(&mut test, Input::Wrote(outcome)),
                Action::Finish(TestResult::WriteFail)
            );
        }
        for kind in [ErrorKind::Interrupted, ErrorKind::WouldBlock] {
            let mut test = in_batch(b"ab", listener);
            answer(&mut test, event(Token::Writer, true, true));
            assert_eq!(answer(&mut test, Input::Wrote(Err(kind))), Action::NextEvent);
            assert_eq!(test.unsent(), b"ab");
        }
    }
}

#[test]
fn reads_fail_or_are_tried_again() {
    let failures = [
        received(b""),
        received(b"abx"),
        received(b"b"),
        received(b"ax"),
        Input::Received(Err(ErrorKind::Other)),
    ];
    for failure in failures {
        let mut test = about_to_read(b"ab");
        assert_eq!(answer(&mut test, failure), Action::Finish(TestResult::ReadFail));
    }
    for kind in [ErrorKind::Interrupted, ErrorKind::WouldBlock] {
        let mut test = about_to_read(b"ab");
        assert_eq!(answer(&mut test, Input::Received(Err(kind))), Action::NextEvent);
        answer(&mut test, event(Token::Reader, true, false));
        assert_eq!(answer(&mut test, received(b"ab")), Action::Finish(TestResult::Success));
    }
}

#[test]
fn second_piece_has_to_match_too() {
    let mut test = about_to_read(b"abcd");
    assert_eq!(answer(&mut test, received(b"ab")), Action::NextEvent);
    answer(&mut test, event(Token::Reader, true, false));
    assert_eq!(answer(&mut test, received(b"ab")), Action::Finish(TestResult::ReadFail));
}

#[test]
fn idle_test_times_out_after_the_last_event() {
    let mut test = in_batch(b"abcd", false);
    answer(&mut test, event(Token::Writer, true, true));
    answer(&mut test, Input::Wrote(Ok(4)));
    answer(&mut test, received(b"a"));
    answer(&mut test, Input::BatchDone);
    assert_eq!(
        answer(&mut test, Input::PollEmpty { now: Duration::new(15, 999_999_999) }),
        Action::Poll
    );
    assert_eq!(
        answer(&mut test, Input::PollEmpty { now: secs(16) }),
        Action::Finish(TestResult::Timeout(5))
    );
}

#[test]
fn silent_test_times_out_with_zero() {
    let mut test = test_of(b"abcd", true);
    answer(&mut test, Input::Connected(true));
    assert_eq!(
        answer(&mut test, Input::PollEmpty { now: secs(15) }),
        Action::Finish(TestResult::Timeout(0))
    );
}

#[test]
fn polls_are_short_and_end_in_time() {
    let test = in_batch(b"abcd", true);
    assert_eq!(test.poll_timeout(secs(1)), Duration::from_millis(20));
    assert_eq!(
        test.poll_timeout(Duration::new(15, 990_000_000)),
        Duration::from_millis(10)
    );
    assert_eq!(test.poll_timeout(secs(99)), secs(0));
    assert_eq!(MAX_POLL_MILLIS, 20);
    assert_eq!(READ_BUFFER, 128);
}

#[test]
fn only_fitting_answers_are_accepted() {
    let mut test = test_of(b"ab", true);
    assert!(!test.accepts(&Input::BatchDone));
    assert!(!test.accepts(&Input::PollFailed));
    answer(&mut test, Input::Connected(true));
    assert!(!test.accepts(&Input::Connected(true)));
    assert!(!test.accepts(&event(Token::Writer, false, true)));
    answer(&mut test, Input::PollReady { now: secs(0) });
    assert!(!test.accepts(&Input::PollEmpty { now: secs(0) }));
    assert!(!test.accepts(&event(Token::Conn, false, true)));
    assert!(!test.accepts(&event(Token::Writer, true, false)));
    assert!(!test.accepts(&event(Token::Reader, true, false)));
    answer(&mut test, event(Token::Writer, false, true));
    assert!(!test.accepts(&Input::Wrote(Ok(3))));
    assert!(!test.accepts(&received(b"ab")));
    assert!(!test.accepts(&Input::Accepted(true)));
    answer(&mut test, Input::Wrote(Ok(2)));
    answer(&mut test, event(Token::Conn, true, false));
    answer(&mut test, Input::Accepted(false));
    assert!(!test.accepts(&Input::Accepted(false)));
    assert!(!test.accepts(&Input::BatchDone));
}
