use robotssh::backoff::{backoff, bounded_backoff, min_uptime_to_reset_backoff};
use robotssh::cli::{Cli, ConnectionTesterOptions};
use robotssh::duration::Duration;
use robotssh::session::{time_left, ExitStatus, SshExit, SshRun};
use robotssh::supervisor::{RunEnd, Step, Supervisor};
use robotssh::text::{append_decimal, append_signed};
use robotssh::verdict::{judge, Next, Verdict};

fn secs(n: u64) -> Duration {
    Duration::from_secs(n)
}

fn cli(max_start: Option<usize>, gate_time: u64) -> Cli<&'static str> {
    Cli {
        monitor_port: None,
        echo_port: None,
        ssh_args: vec!["host"],
        ssh_path: "ssh",
        gate_time: secs(gate_time),
        max_start,
        backoff_fast_tries: 2,
        backoff_upper_bound: secs(3600),
        max_lifetime: None,
        tester_options: ConnectionTesterOptions {
            poll_time: secs(600),
            first_poll_time: secs(600),
            echo_message: String::new(),
            max_conn_tries: 3,
            net_timeout: secs(15),
        },
    }
}

fn code(n: i32) -> SshExit {
    SshExit::Status(ExitStatus::Code(n))
}

fn signal(n: i32) -> SshExit {
    SshExit::Status(ExitStatus::Signal(n))
}

fn run(exit: SshExit, uptime: u64) -> RunEnd {
    RunEnd { exit, connection_failed: false, uptime: secs(uptime), age: secs(uptime) }
}

/// A run after which SSH is started again.
fn dropped(uptime: u64) -> RunEnd {
    RunEnd { connection_failed: true, ..run(SshExit::Killed, uptime) }
}

fn count(supervisor: &mut Supervisor, end: RunEnd) -> Verdict {
    assert!(matches!(supervisor.step(secs(0)), Step::Wait(_)));
    supervisor.wait_over();
    assert_eq!(supervisor.step(secs(0)), Step::Run);
    assert!(supervisor.can_count(&end));
    supervisor.run_over(end)
}

/// A supervisor after that many runs of that length.
fn after(runs: usize, uptime: u64) -> Supervisor {
    let mut supervisor = Supervisor::new(&cli(None, 30));
    for _ in 0..runs {
        count(&mut supervisor, dropped(uptime));
    }
    supervisor
}

#[test]
fn backoff_grows_with_the_square() {
    assert_eq!(backoff(0, 2, secs(600)), secs(0));
    assert_eq!(backoff(1, 2, secs(600)), secs(0));
    assert_eq!(backoff(2, 2, secs(600)), secs(600));
    assert_eq!(backoff(7, 2, secs(600)), secs(600));
    assert_eq!(backoff(8, 2, secs(600)), secs(648));
    assert_eq!(backoff(12, 2, secs(600)), secs(1800));
    assert_eq!(backoff(5, 0, Duration::new(1, 0)), secs(1));
    assert_eq!(backoff(10, 0, Duration::new(1, 0)), secs(3));
    assert_eq!(backoff(10, 0, Duration::new(0, 199)), Duration::new(0, 300));
}

#[test]
fn backoff_never_shrinks() {
    for tries in 0..500 {
        let span = backoff(tries + 1, 3, secs(61));
        assert!(span.at_least(backoff(tries, 3, secs(61))));
    }
}

#[test]
fn backoff_is_bounded() {
    let hour = secs(3600);
    let forever = Duration::new(u64::MAX, 999_999_999);
    assert_eq!(bounded_backoff(12, 2, secs(600), hour), secs(1800));
    assert_eq!(bounded_backoff(17, 2, secs(600), hour), hour);
    assert_eq!(bounded_backoff(2, 2, secs(7200), hour), hour);
    assert_eq!(bounded_backoff(u32::MAX - 1, u32::MAX, secs(600), hour), secs(0));
    assert_eq!(bounded_backoff(37838, 0, secs(0), hour), secs(0));
    assert_eq!(bounded_backoff(37838, 0, Duration::new(0, 100), hour), Duration::new(4, 295_142_732));
    assert_eq!(bounded_backoff(u32::MAX, 0, secs(600), hour), hour);
    assert_eq!(bounded_backoff(u32::MAX, 0, forever, forever), forever);
    assert_eq!(bounded_backoff(5, 0, Duration::new(u64::MAX, 0), forever), Duration::new(u64::MAX, 0));
}

#[test]
fn steady_uptime_of_the_default_is_a_minute() {
    assert_eq!(min_uptime_to_reset_backoff(secs(600)), secs(60));
    assert_eq!(min_uptime_to_reset_backoff(secs(99)), secs(10));
    assert_eq!(min_uptime_to_reset_backoff(secs(0)), secs(10));
}

#[test]
fn waits_follow_the_short_runs() {
    let mut supervisor = Supervisor::new(&cli(None, 30));
    for wait in [0, 0, 600, 600] {
        assert_eq!(supervisor.step(secs(0)), Step::Wait(secs(wait)));
        count(&mut supervisor, dropped(59));
    }
    count(&mut supervisor, dropped(60));
    for wait in [0, 0, 600] {
        assert_eq!(supervisor.step(secs(0)), Step::Wait(secs(wait)));
        count(&mut supervisor, dropped(59));
    }
}

#[test]
fn waits_are_bounded() {
    assert_eq!(after(16, 1).step(secs(0)), Step::Wait(secs(3528)));
    assert_eq!(after(17, 1).step(secs(0)), Step::Wait(secs(3600)));
    assert_eq!(after(1000, 1).step(secs(0)), Step::Wait(secs(3600)));
    assert_eq!(after(37840, 1).step(secs(0)), Step::Wait(secs(3600)));
}

#[test]
fn lifetime_ends_the_session() {
    let options = Cli { max_lifetime: Some(secs(1000)), ..cli(None, 30) };
    let mut supervisor = Supervisor::new(&options);
    for _ in 0..2 {
        count(&mut supervisor, dropped(59));
    }
    assert_eq!(supervisor.step(secs(118)), Step::Wait(secs(600)));
    assert_eq!(supervisor.step(secs(400)), Step::Wait(secs(600)));
    assert_eq!(supervisor.step(secs(900)), Step::Wait(secs(100)));
    assert_eq!(supervisor.step(secs(1000)), Step::Finish);
    assert_eq!(supervisor.step(secs(1001)), Step::Finish);
    supervisor.wait_over();
    assert_eq!(supervisor.step(secs(999)), Step::Run);
    assert_eq!(supervisor.step(secs(1000)), Step::Finish);

    let mut supervisor = Supervisor::new(&options);
    count(&mut supervisor, run(code(7), 31));
    assert_eq!(supervisor.step(secs(1000)), Step::Exit(7));

    let options = Cli { max_lifetime: Some(secs(0)), ..cli(None, 30) };
    assert_eq!(Supervisor::new(&options).step(secs(0)), Step::Finish);
}

#[test]
fn no_lifetime_means_no_end() {
    let mut supervisor = after(2, 1);
    assert_eq!(supervisor.step(secs(u64::MAX)), Step::Wait(secs(600)));
    supervisor.wait_over();
    assert_eq!(supervisor.step(secs(u64::MAX)), Step::Run);
}

#[test]
fn runs_are_limited() {
    for max in [0usize, 1, 3] {
        let mut supervisor = Supervisor::new(&cli(Some(max), 30));
        for _ in 0..max {
            count(&mut supervisor, dropped(100));
        }
        assert_eq!(supervisor.step(secs(0)), Step::Finish);
    }
}

#[test]
fn sessions_end_as_their_last_run_says() {
    let mut supervisor = Supervisor::new(&cli(None, 30));
    assert_eq!(count(&mut supervisor, run(code(255), 31)), Verdict::ConnectionError(255));
    assert_eq!(count(&mut supervisor, run(code(1), 1)), Verdict::TemporaryError(1));
    assert_eq!(count(&mut supervisor, run(code(7), 1)), Verdict::CommandFailed(7));
    assert_eq!(supervisor.step(secs(0)), Step::Exit(7));

    let mut supervisor = Supervisor::new(&cli(None, 30));
    assert_eq!(count(&mut supervisor, run(code(1), 1)), Verdict::TooFast(1));
    assert_eq!(supervisor.step(secs(0)), Step::Exit(1));

    let mut supervisor = Supervisor::new(&cli(Some(1), 30));
    assert_eq!(count(&mut supervisor, run(signal(15), 1)), Verdict::Terminated(15));
    assert_eq!(supervisor.step(secs(0)), Step::Exit(15));

    let mut supervisor = Supervisor::new(&cli(None, 30));
    assert_eq!(count(&mut supervisor, run(code(0), 1)), Verdict::Succeeded);
    assert_eq!(supervisor.step(secs(0)), Step::Finish);
}

#[test]
fn age_and_uptime_are_told_apart() {
    let mut supervisor = Supervisor::new(&cli(None, 30));
    let end = RunEnd {
        exit: code(255),
        connection_failed: false,
        uptime: secs(30),
        age: Duration::new(30, 1),
    };
    assert_eq!(count(&mut supervisor, end), Verdict::ConnectionError(255));
}

#[test]
fn killed_runs() {
    let over = judge(SshExit::Killed, false, 1, secs(100), secs(30));
    assert_eq!(over, Verdict::LifetimeOver);
    assert_eq!(over.next(), Next::Finish);
    let dropped = judge(SshExit::Killed, true, 1, secs(100), secs(30));
    assert_eq!(dropped, Verdict::ConnectionDropped);
    assert_eq!(dropped.next(), Next::Restart);
}

#[test]
fn success_ends_the_program() {
    for starts in [1usize, 2] {
        let verdict = judge(code(0), true, starts, secs(1), secs(30));
        assert_eq!(verdict, Verdict::Succeeded);
        assert_eq!(verdict.next(), Next::Finish);
    }
}

#[test]
fn signals_end_or_restart() {
    for n in [2, 9, 15] {
        let verdict = judge(signal(n), false, 1, secs(1), secs(30));
        assert_eq!(verdict, Verdict::Terminated(n));
        assert_eq!(verdict.next(), Next::Exit(n));
    }
    for n in [1, 6, 11] {
        let verdict = judge(signal(n), false, 1, secs(1), secs(30));
        assert_eq!(verdict, Verdict::Signalled(n));
        assert_eq!(verdict.next(), Next::Restart);
    }
    let verdict = judge(SshExit::Status(ExitStatus::Unknown), false, 1, secs(1), secs(30));
    assert_eq!(verdict, Verdict::NoStatus);
    assert_eq!(verdict.next(), Next::Restart);
}

#[test]
fn first_run_has_to_last() {
    for n in [1, 2, 3, 255] {
        let verdict = judge(code(n), false, 1, secs(30), secs(30));
        assert_eq!(verdict, Verdict::TooFast(n));
        assert_eq!(verdict.next(), Next::Exit(n));
    }
    let late = |n: i32| judge(code(n), false, 1, Duration::new(30, 1), secs(30));
    assert_eq!(late(255), Verdict::ConnectionError(255));
    assert_eq!(late(1), Verdict::CommandFailed(1));
    assert_eq!(late(2), Verdict::CommandFailed(2));
    assert_eq!(late(3), Verdict::CommandFailed(3));
}

#[test]
fn later_runs_restart_on_lost_connections() {
    let later = |n: i32| judge(code(n), false, 2, secs(0), secs(30));
    assert_eq!(later(255), Verdict::ConnectionError(255));
    assert_eq!(later(1), Verdict::TemporaryError(1));
    assert_eq!(later(2), Verdict::TemporaryError(2));
    for n in [1, 2, 255] {
        assert_eq!(later(n).next(), Next::Restart);
    }
    assert_eq!(later(127), Verdict::CommandFailed(127));
    assert_eq!(later(127).next(), Next::Exit(127));
}

#[test]
fn zero_gate_time_lets_the_first_run_fail() {
    let first = |n: i32, uptime: Duration| judge(code(n), false, 1, uptime, secs(0));
    assert_eq!(first(1, Duration::new(0, 1)), Verdict::TemporaryError(1));
    assert_eq!(first(2, Duration::new(0, 1)), Verdict::TemporaryError(2));
    assert_eq!(first(1, secs(0)), Verdict::TooFast(1));
}

#[test]
fn notices() {
    let told = |verdict: Verdict| verdict.notice("30s");
    assert_eq!(told(Verdict::LifetimeOver), None);
    assert_eq!(told(Verdict::Succeeded), None);
    assert_eq!(told(Verdict::NoStatus), None);
    let texts = [
        (Verdict::ConnectionDropped, "SSH connection dropped. Restarting"),
        (Verdict::Terminated(15), "SSH was terminated by signal 15, parent exiting"),
        (Verdict::Signalled(11), "SSH exited due to signal 11. Restarting."),
        (
            Verdict::TooFast(255),
            "SSH exited too fast(less than gate-time, currently set to 30s) with error status 255. Exiting.",
        ),
        (Verdict::ConnectionError(255), "SSH exited with error status 255, restarting"),
        (Verdict::TemporaryError(1), "SSH exited with errror status 1, restarting"),
        (Verdict::CommandFailed(-7), "SSH exited with status -7, exiting"),
    ];
    for (verdict, text) in texts {
        assert_eq!(told(verdict).as_deref(), Some(text));
    }
}

#[test]
fn numbers_are_written_in_decimal() {
    for n in [0u32, 9, 10, 101, 65535, 4294967295] {
        let mut text = String::from("n=");
        append_decimal(&mut text, n);
        assert_eq!(text, format!("n={}", n));
    }
    for n in [0i32, -1, 7, -10, 2147483647, -2147483648] {
        let mut text = String::from("n=");
        append_signed(&mut text, n);
        assert_eq!(text, format!("n={}", n));
    }
}

#[test]
fn lifetime_runs_out() {
    assert_eq!(time_left(None, secs(1_000_000)), None);
    assert_eq!(time_left(Some(secs(10)), secs(4)), Some(secs(6)));
    assert_eq!(time_left(Some(secs(10)), secs(11)), Some(secs(0)));
    assert_eq!(time_left(time_left(Some(secs(10)), secs(4)), secs(5)), Some(secs(1)));
}

#[test]
fn what_comes_first_decides() {
    let mut run = SshRun::new();
    assert_eq!((run.status(), run.killed(), run.outcome()), (None, None, None));
    run.exited(ExitStatus::Code(3));
    assert_eq!((run.status(), run.killed()), (Some(ExitStatus::Code(3)), None));
    assert_eq!(run.outcome(), None);
    assert!(!run.woken());
    assert_eq!(run.killed(), Some(false));
    assert_eq!(run.outcome(), Some(code(3)));

    let mut run = SshRun::new();
    assert!(run.woken());
    assert_eq!((run.status(), run.killed()), (None, Some(true)));
    assert_eq!(run.outcome(), None);
    run.exited(ExitStatus::Signal(9));
    assert_eq!(run.outcome(), Some(SshExit::Killed));
}
