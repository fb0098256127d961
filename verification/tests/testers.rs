use robotssh::cli::ConnectionTesterOptions;
use robotssh::conntester::{
    probe_payload, ConnectionTester, TesterAction, PROBE_HEAD_LEN, PROBE_ID_LEN, PROBE_NAME,
};
use robotssh::duration::Duration;
use robotssh::exchange::{Action, Input, TestResult, Token};

fn options(max_conn_tries: usize) -> ConnectionTesterOptions {
    ConnectionTesterOptions {
        poll_time: Duration::from_secs(600),
        first_poll_time: Duration::from_secs(7),
        echo_message: String::from("h\u{e9}"),
        max_conn_tries,
        net_timeout: Duration::from_secs(15),
    }
}

const ID: [u8; 16] = [0, 1, 2, 3, 4, 5, 6, 7, 8, 9, 10, 11, 12, 13, 14, 255];

fn died(tester: &ConnectionTester) -> bool {
    tester.pending() == TesterAction::Finish { died: true }
}

fn round(tester: &mut ConnectionTester, result: TestResult) {
    tester.wait_over(false);
    assert_eq!(tester.pending(), TesterAction::Test);
    tester.test_over(result, Duration::from_secs(1));
}

#[test]
fn probe_has_name_id_and_message() {
    let mut expected = b"robotssh".to_vec();
    expected.extend_from_slice(&ID);
    expected.extend_from_slice(&[b'h', 0xc3, 0xa9]);
    assert_eq!(probe_payload(&ID, "h\u{e9}"), expected);
    assert_eq!(probe_payload(&ID, "").len(), PROBE_HEAD_LEN);
    assert_eq!(PROBE_NAME.len() + PROBE_ID_LEN, PROBE_HEAD_LEN);
}

#[test]
fn probes_differ() {
    let mut other = ID;
    other[15] = 0;
    assert_ne!(probe_payload(&ID, "a"), probe_payload(&other, "a"));
    assert_ne!(probe_payload(&ID, "a"), probe_payload(&ID, "b"));
    assert_ne!(probe_payload(&ID, "a"), probe_payload(&ID, ""));
}

fn sent_by(tester: &ConnectionTester) -> Vec<u8> {
    tester.run_test(true).unsent().to_vec()
}

#[test]
fn tests_send_the_probe() {
    let tester = ConnectionTester::with_id(options(3), ID);
    assert_eq!(sent_by(&tester), probe_payload(&ID, "h\u{e9}"));
    let mut test = tester.run_test(false);
    test.step(Input::Connected(true));
    test.step(Input::PollReady { now: Duration::from_secs(0) });
    test.step(Input::Event { token: Token::Writer, readable: false, writable: true });
    test.step(Input::Wrote(Ok(27)));
    test.step(Input::BatchDone);
    test.step(Input::PollEmpty { now: Duration::from_secs(15) });
    assert_eq!(test.pending(), Action::Finish(TestResult::Timeout(27)));
}

#[test]
fn spawned_testers_have_their_own_ids() {
    let probes: Vec<Vec<u8>> =
        (0..4).map(|_| sent_by(&ConnectionTester::spawn(options(3)))).collect();
    for probe in &probes {
        assert_eq!(probe.len(), 27);
        assert_eq!(&probe[..8], b"robotssh");
        assert_eq!(&probe[24..], "h\u{e9}".as_bytes());
    }
    assert_ne!(probes[0], probes[1]);
    assert_ne!(probes[2], probes[3]);
}

#[test]
fn first_wait_is_its_own() {
    let tester = ConnectionTester::with_id(options(3), ID);
    assert_eq!(tester.pending(), TesterAction::Wait(Duration::from_secs(7)));
}

#[test]
fn stop_ends_the_tester_alive() {
    let mut tester = ConnectionTester::with_id(options(3), ID);
    tester.wait_over(true);
    assert_eq!(tester.pending(), TesterAction::Finish { died: false });

    let mut tester = ConnectionTester::with_id(options(3), ID);
    round(&mut tester, TestResult::Success);
    tester.wait_over(true);
    assert_eq!(tester.pending(), TesterAction::Finish { died: false });
}

#[test]
fn failures_end_the_connection_at_once() {
    let failures = [
        TestResult::PollFail,
        TestResult::AcceptFail,
        TestResult::ReadFail,
        TestResult::WriteFail,
        TestResult::Timeout(0),
    ];
    for failure in failures {
        let mut tester = ConnectionTester::with_id(options(3), ID);
        round(&mut tester, failure);
        assert!(died(&tester));
    }
}

#[test]
fn lost_tries_add_up_over_successes() {
    let mut tester = ConnectionTester::with_id(options(3), ID);
    round(&mut tester, TestResult::Timeout(1));
    assert!(!died(&tester));
    round(&mut tester, TestResult::Success);
    round(&mut tester, TestResult::Timeout(48));
    assert!(!died(&tester));
    round(&mut tester, TestResult::Success);
    assert!(!died(&tester));
    round(&mut tester, TestResult::Timeout(2));
    assert!(died(&tester));
}

#[test]
fn no_tries_allowed_means_one_test() {
    let mut tester = ConnectionTester::with_id(options(0), ID);
    round(&mut tester, TestResult::Success);
    assert!(died(&tester));
}

#[test]
fn waits_make_up_for_the_test() {
    let mut tester = ConnectionTester::with_id(options(3), ID);
    tester.wait_over(false);
    tester.test_over(TestResult::Success, Duration::from_secs(14));
    assert_eq!(tester.pending(), TesterAction::Wait(Duration::from_secs(586)));
    tester.wait_over(false);
    tester.test_over(TestResult::Success, Duration::from_secs(601));
    assert_eq!(tester.pending(), TesterAction::Wait(Duration::from_secs(0)));
}

#[test]
fn join_reports_death() {
    let mut tester = ConnectionTester::with_id(options(1), ID);
    assert!(!tester.join());
    tester.wait_over(false);
    assert_eq!(tester.pending(), TesterAction::Test);
    assert!(!tester.join());
    tester.test_over(TestResult::ReadFail, Duration::from_secs(1));
    assert!(died(&tester));
    assert!(tester.join());

    let mut tester = ConnectionTester::with_id(options(1), ID);
    tester.wait_over(true);
    assert_eq!(tester.pending(), TesterAction::Finish { died: false });
    assert!(!tester.join());
}

#[test]
fn only_the_own_probe_succeeds() {
    let mut other = ID;
    other[0] = 99;
    for (id, result) in [(ID, TestResult::Success), (other, TestResult::ReadFail)] {
        let mut test = ConnectionTester::with_id(options(3), ID).run_test(false);
        test.step(Input::Connected(true));
        test.step(Input::PollReady { now: Duration::from_secs(0) });
        test.step(Input::Event { token: Token::Writer, readable: true, writable: true });
        test.step(Input::Wrote(Ok(27)));
        test.step(Input::Received(Ok(probe_payload(&id, "h\u{e9}"))));
        assert_eq!(test.pending(), Action::Finish(result));
    }
}
