use robotssh::cli::{Cli, ConnectionTesterOptions, Port};
use robotssh::command::{
    forward_argument, monitor_setup, Forward, ReplyPortOverflow, Side, SshArg, PORT_FORWARD_HOST,
    REPLY_PORT_OVERFLOW,
};
use robotssh::duration::Duration;

fn cli(monitor: Option<u16>, echo: Option<u16>, ssh_args: Vec<&'static str>) -> Cli<&'static str> {
    Cli {
        monitor_port: monitor.and_then(Port::new),
        echo_port: echo.and_then(Port::new),
        ssh_args,
        ssh_path: "/usr/bin/ssh",
        gate_time: Duration::from_secs(30),
        max_start: None,
        backoff_fast_tries: 2,
        backoff_upper_bound: Duration::from_secs(3600),
        max_lifetime: None,
        tester_options: ConnectionTesterOptions {
            poll_time: Duration::from_secs(600),
            first_poll_time: Duration::from_secs(600),
            echo_message: String::new(),
            max_conn_tries: 3,
            net_timeout: Duration::from_secs(15),
        },
    }
}

fn texts(args: Vec<SshArg<&'static str>>) -> Vec<String> {
    args.into_iter()
        .map(|arg| match arg {
            SshArg::Setup(text) => text,
            SshArg::Given(text) => format!("given {}", text),
        })
        .collect()
}

#[test]
fn without_monitor_port_only_given_arguments() {
    let command = cli(None, None, vec!["-N", "host"]).into_ssh_command().unwrap();
    assert_eq!(command.program, "/usr/bin/ssh");
    assert_eq!(command.listen_port, None);
    assert_eq!(texts(command.args), vec!["given -N", "given host"]);
}

#[test]
fn echo_port_alone_forwards_nothing() {
    let command = cli(None, Some(7), vec!["host"]).into_ssh_command().unwrap();
    assert_eq!(command.listen_port, None);
    assert_eq!(texts(command.args), vec!["given host"]);
}

#[test]
fn monitor_port_opens_a_loop() {
    let command = cli(Some(20000), None, vec!["-N", "host"]).into_ssh_command().unwrap();
    assert_eq!(command.listen_port, Some(20001));
    assert_eq!(
        texts(command.args),
        vec![
            "-L",
            "20000:127.0.0.1:20000",
            "-R",
            "20000:127.0.0.1:20001",
            "given -N",
            "given host"
        ]
    );
}

#[test]
fn echo_server_takes_the_probes() {
    let command = cli(Some(20000), Some(7), vec![]).into_ssh_command().unwrap();
    assert_eq!(command.listen_port, None);
    assert_eq!(texts(command.args), vec!["-L", "20000:127.0.0.1:7"]);
}

#[test]
fn last_port_has_no_reply_port() {
    assert_eq!(
        cli(Some(65535), None, vec!["host"]).into_ssh_command().unwrap_err(),
        ReplyPortOverflow
    );
    assert!(cli(Some(65535), Some(1), vec!["host"]).into_ssh_command().is_ok());
    assert_eq!(
        cli(Some(65534), None, vec![]).into_ssh_command().unwrap().listen_port,
        Some(65535)
    );
    assert_eq!(
        REPLY_PORT_OVERFLOW,
        "Calculating the default reply port(--monitor_port + 1) overflowed"
    );
}

#[test]
fn probes_return_to_the_listener() {
    let (listen_port, way) = monitor_setup(Port::new(4000), None).unwrap();
    assert_eq!(
        way,
        vec![
            Forward { side: Side::Local, port: 4000, target: 4000 },
            Forward { side: Side::Remote, port: 4000, target: 4001 },
        ]
    );
    assert_eq!(way[1].port, way[0].target);
    assert_eq!(listen_port, Some(way[1].target));
}

#[test]
fn routes_are_decimal() {
    let cases = [(1u16, 9u16), (10, 99), (100, 101), (1000, 9999), (10000, 65535), (0, 60606)];
    for (port, target) in cases {
        let forward = Forward { side: Side::Local, port, target };
        assert_eq!(
            forward_argument(&forward),
            format!("{}:{}:{}", port, PORT_FORWARD_HOST, target)
        );
    }
}
