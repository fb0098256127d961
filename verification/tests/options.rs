use robotssh::cli::{
    Cli, ConnectionTesterOptions, Mode, Port, DEFAULT_BACKOFF_FAST_TRIES,
    DEFAULT_BACKOFF_UPPER_BOUND, DEFAULT_FIRST_POLL_TIME, DEFAULT_GATE_TIME,
    DEFAULT_MAX_CONN_TRIES, DEFAULT_NET_TIMEOUT, DEFAULT_POLL_TIME,
};
use robotssh::duration::Duration;
use robotssh::parse::{can_add, parse_duration, InvalidDuration};

fn options(poll: u64, net: u64) -> ConnectionTesterOptions {
    ConnectionTesterOptions {
        poll_time: Duration::from_secs(poll),
        first_poll_time: Duration::from_secs(5),
        echo_message: String::from("hello"),
        max_conn_tries: 4,
        net_timeout: Duration::from_secs(net),
    }
}

fn cli(ssh_args: Vec<&'static str>) -> Cli<&'static str> {
    Cli {
        monitor_port: None,
        echo_port: None,
        ssh_args,
        ssh_path: "ssh",
        gate_time: Duration::from_secs(30),
        max_start: None,
        backoff_fast_tries: 2,
        backoff_upper_bound: Duration::from_secs(3600),
        max_lifetime: None,
        tester_options: options(600, 15),
    }
}

#[test]
fn ports_are_not_zero() {
    assert_eq!(Port::new(0), None);
    assert_eq!(Port::new(1).unwrap().get(), 1);
    assert_eq!(Port::new(65535).unwrap().get(), 65535);
}

#[test]
fn net_timeout_is_kept_below_half_the_poll_time() {
    let mut opts = options(600, 15);
    opts.limit_net_timeout();
    assert_eq!(opts.net_timeout, Duration::from_secs(15));

    let mut opts = options(11, 15);
    opts.limit_net_timeout();
    assert_eq!(opts.net_timeout, Duration::new(5, 500_000_000));
    assert_eq!(opts.poll_time, Duration::from_secs(11));
    assert_eq!(opts.first_poll_time, Duration::from_secs(5));
    assert_eq!(opts.echo_message, "hello");
    assert_eq!(opts.max_conn_tries, 4);
    opts.limit_net_timeout();
    assert_eq!(opts.net_timeout, Duration::new(5, 500_000_000));
}

#[test]
fn mode_is_chosen() {
    assert_eq!(cli(vec![]).mode(false), Mode::Help);
    assert_eq!(cli(vec![]).mode(true), Mode::Completions);
    assert_eq!(cli(vec!["host"]).mode(true), Mode::Completions);
    assert_eq!(cli(vec!["host"]).mode(false), Mode::KeepAlive);
}

#[test]
fn durations_are_parsed() {
    assert_eq!(parse_duration("2h 37min").unwrap(), Duration::from_secs(9420));
    assert_eq!(parse_duration("32ms").unwrap(), Duration::from_millis(32));
    assert_eq!(parse_duration("4.2s").unwrap(), Duration::new(4, 200_000_000));
    assert_eq!(parse_duration("0").unwrap(), Duration::from_secs(0));
}

#[test]
fn defaults_are_durations() {
    assert_eq!(parse_duration(DEFAULT_GATE_TIME).unwrap(), Duration::from_secs(30));
    assert_eq!(parse_duration(DEFAULT_BACKOFF_UPPER_BOUND).unwrap(), Duration::from_secs(3600));
    assert_eq!(parse_duration(DEFAULT_POLL_TIME).unwrap(), Duration::from_secs(600));
    assert_eq!(parse_duration(DEFAULT_FIRST_POLL_TIME).unwrap(), Duration::from_secs(600));
    assert_eq!(parse_duration(DEFAULT_NET_TIMEOUT).unwrap(), Duration::from_secs(15));
    assert_eq!(DEFAULT_BACKOFF_FAST_TRIES, 2);
    assert_eq!(DEFAULT_MAX_CONN_TRIES, 3);
}

#[test]
fn texts_that_are_no_durations_are_refused() {
    assert_eq!(parse_duration(""), Err(InvalidDuration::Empty));
    assert_eq!(parse_duration("soon"), Err(InvalidDuration::NumberExpected(0)));
    assert_eq!(parse_duration("1s!"), Err(InvalidDuration::InvalidCharacter(2)));
    assert_eq!(parse_duration("0.5ns"), Err(InvalidDuration::NumberOverflow));
    assert_eq!(
        parse_duration("1h 3 parsecs"),
        Err(InvalidDuration::UnknownUnit {
            start: 5,
            end: 12,
            unit: String::from("parsecs"),
            value: 3
        })
    );
}

#[test]
fn terms_have_to_add_up() {
    let day = Duration::from_secs(100_000);
    assert_eq!(parse_duration("100000000000000ns"), Ok(day));
    assert_eq!(parse_duration("00000000000000000000000000000100000s"), Ok(day));
    assert_eq!(parse_duration("1000000000000000ns"), Ok(Duration::from_secs(1_000_000)));
    let most = Duration::new(u64::MAX, 999_999_999);
    assert_eq!(parse_duration("18446744073709551615s 999999999ns"), Ok(most));
    assert_eq!(parse_duration("18446744073709551614s999999999ns 1 s"), Ok(most));
    for text in [
        "18446744073709551615s 1000ms",
        "18446744073709551615s1000ms",
        "18446744073709551615s\t1000ms 3parsecs",
        "18446744073709551615s 0.5s 0.5s",
        "18446744073709551615s 1000.0000001ms",
        "1000ms 18446744073709551615s",
    ] {
        assert_eq!(parse_duration(text), Err(InvalidDuration::NumberOverflow), "{}", text);
    }
}

fn as_parsed(text: &str) -> Result<Duration, InvalidDuration> {
    match humantime::parse_duration(text) {
        Ok(span) => Ok(Duration::new(span.as_secs(), span.subsec_nanos())),
        Err(humantime::DurationError::InvalidCharacter(at)) => {
            Err(InvalidDuration::InvalidCharacter(at))
        }
        Err(humantime::DurationError::NumberExpected(at)) => {
            Err(InvalidDuration::NumberExpected(at))
        }
        Err(humantime::DurationError::UnknownUnit { start, end, unit, value }) => {
            Err(InvalidDuration::UnknownUnit { start, end, unit, value })
        }
        Err(humantime::DurationError::NumberOverflow) => Err(InvalidDuration::NumberOverflow),
        Err(humantime::DurationError::Empty) => Err(InvalidDuration::Empty),
    }
}

#[test]
fn long_texts_are_left_to_the_parser() {
    let terms = [
        "18446744073709551615s", "18446744073709551614s", "584542046090y", "307445734561825860m",
        "0.25m", "0.01m", "999ms", "5ms", "5\u{b5}s", "7 2 us", "1.5h", "0", "", " ", "!", "s",
        "3parsecs", "0.0000000001s", "99999999999999999999s", "1s!", "\u{b5}", "\u{a0}4w", "x9",
    ];
    for first in terms {
        for gap in ["", " ", "\u{a0}", "\n ", "."] {
            for second in terms {
                for tail in ["", " ", " 2s", "!"] {
                    let text = format!("{}{}{}{}", first, gap, second, tail);
                    assert_eq!(parse_duration(&text), as_parsed(&text), "{:?}", text);
                }
            }
        }
    }
}

#[test]
fn sums_are_checked() {
    let ok = |secs: u64, nanos: u32| Ok(Duration::new(secs, nanos));
    let overflow = || Err(InvalidDuration::NumberOverflow);
    assert!(can_add(&ok(1, 0), &ok(2, 0)));
    assert!(can_add(&ok(u64::MAX, 0), &ok(0, 999_999_999)));
    assert!(!can_add(&ok(u64::MAX, 1), &ok(0, 999_999_999)));
    assert!(can_add(&ok(u64::MAX - 1, 999_999_999), &overflow()));
    assert!(!can_add(&ok(u64::MAX, 0), &overflow()));
    assert!(can_add(&ok(u64::MAX, 0), &Err(InvalidDuration::NumberExpected(4))));
    assert!(can_add(&overflow(), &overflow()));
    assert!(can_add(&Err(InvalidDuration::Empty), &ok(u64::MAX, 999_999_999)));
}
