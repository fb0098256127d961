//! The options of the program.
use vstd::prelude::*;

use crate::duration::{Duration, shorter};

verus! {

/// Default of `Cli::gate_time`.
pub const DEFAULT_GATE_TIME: &'static str = "30s";

/// Default of `Cli::backoff_fast_tries`.
pub const DEFAULT_BACKOFF_FAST_TRIES: u32 = 2;

/// Default of `Cli::backoff_upper_bound`.
pub const DEFAULT_BACKOFF_UPPER_BOUND: &'static str = "1h";

/// Default of `ConnectionTesterOptions::poll_time`.
pub const DEFAULT_POLL_TIME: &'static str = "10m";

/// Default of `ConnectionTesterOptions::first_poll_time`.
pub const DEFAULT_FIRST_POLL_TIME: &'static str = "10m";

/// Default of `ConnectionTesterOptions::max_conn_tries`.
pub const DEFAULT_MAX_CONN_TRIES: usize = 3;

/// Default of `ConnectionTesterOptions::net_timeout`.
pub const DEFAULT_NET_TIMEOUT: &'static str = "15s";

/// A port number other than zero. Its view is the number.
#[derive(Clone, Copy, Debug, PartialEq, Eq, Structural)]
pub struct Port {
    number: u16,
}

impl View for Port {
    type V = u16;

    closed spec fn view(&self) -> u16 {
        self.number
    }
}

impl Port {
    #[verifier::type_invariant]
    closed spec fn nonzero(self) -> bool {
        self.number != 0
    }

    /// The port with that number, unless the number is zero.
    pub fn new(number: u16) -> (port: Option<Port>)
        ensures
            port is Some <==> number != 0,
            port matches Some(port) ==> port@ == number,
    {
        if number == 0 {
            None
        } else {
            Some(Port { number })
        }
    }

    /// The number of the port.
    pub fn get(self) -> (number: u16)
        ensures
            number == self@,
            number != 0,
    {
        proof {
            use_type_invariant(&self);
        }
        self.number
    }
}

/// Options of the connection tester.
#[derive(Debug)]
pub struct ConnectionTesterOptions {
    /// Default connection poll time.
    pub poll_time: Duration,
    /// Initial connection poll time.
    pub first_poll_time: Duration,
    /// Text that every probe ends with.
    pub echo_message: String,
    /// How many times to retry the network connection when monitoring.
    pub max_conn_tries: usize,
    /// Timeout on network data.
    pub net_timeout: Duration,
}

impl Clone for ConnectionTesterOptions {
    fn clone(&self) -> (copy: Self)
        ensures
            copy.poll_time == self.poll_time,
            copy.first_poll_time == self.first_poll_time,
            copy.echo_message@ == self.echo_message@,
            copy.max_conn_tries == self.max_conn_tries,
            copy.net_timeout == self.net_timeout,
    {
        ConnectionTesterOptions {
            poll_time: self.poll_time,
            first_poll_time: self.first_poll_time,
            echo_message: self.echo_message.clone(),
            max_conn_tries: self.max_conn_tries,
            net_timeout: self.net_timeout,
        }
    }
}

impl ConnectionTesterOptions {
    /// Keeps the timeout on network data within half the poll time, so that a
    /// test in which nothing arrives gives up before the next one is due.
    pub fn limit_net_timeout(&mut self)
        ensures
            final(self).net_timeout@ == limited_net_timeout(
                old(self).net_timeout@,
                old(self).poll_time@,
            ),
            *final(self) == (ConnectionTesterOptions {
                net_timeout: final(self).net_timeout,
                ..*old(self)
            }),
    {
        self.net_timeout = self.net_timeout.min(self.poll_time.divide(2));
    }
}

/// The timeout on network data that is used: the one asked for, but no more
/// than half the poll time. All in nanoseconds.
pub open spec fn limited_net_timeout(net_timeout: nat, poll_time: nat) -> nat {
    shorter(net_timeout, poll_time / 2)
}

/// Limiting never raises the timeout, keeps it within half the poll time, changes
/// nothing that is, cuts off no more than it has to, and does nothing more the second
/// time.
pub proof fn law_net_timeout_limit(net_timeout: nat, poll_time: nat)
    ensures
        limited_net_timeout(net_timeout, poll_time) <= net_timeout,
        2 * limited_net_timeout(net_timeout, poll_time) <= poll_time,
        2 * net_timeout <= poll_time ==> limited_net_timeout(net_timeout, poll_time)
            == net_timeout,
        2 * net_timeout > poll_time ==> 2 * limited_net_timeout(net_timeout, poll_time) + 1
            >= poll_time,
        limited_net_timeout(limited_net_timeout(net_timeout, poll_time), poll_time)
            == limited_net_timeout(net_timeout, poll_time),
{
}

/// What the program was asked to do. `S` is the platform's string type, in which
/// the SSH arguments and the path to SSH are handed through unread.
#[derive(Debug)]
pub struct Cli<S> {
    /// The local port that probes are sent to; without it the connection is not
    /// monitored.
    pub monitor_port: Option<Port>,
    /// The remote port of an echo server that sends probes back.
    pub echo_port: Option<Port>,
    /// Arguments passed to SSH.
    pub ssh_args: Vec<S>,
    /// The path to SSH executable.
    pub ssh_path: S,
    /// How long SSH has to last the first time to be taken for working.
    pub gate_time: Duration,
    /// How many times to run (default no limit).
    pub max_start: Option<usize>,
    /// How many times to retry the connection without backing off.
    pub backoff_fast_tries: u32,
    /// What should be the absolute maximum time between connection attempts.
    pub backoff_upper_bound: Duration,
    /// How long can the process/daemon live.
    pub max_lifetime: Option<Duration>,
    /// Options of the connection tester.
    pub tester_options: ConnectionTesterOptions,
}

/// What the program does at all.
#[derive(Clone, Copy, Debug, PartialEq, Eq, Structural)]
pub enum Mode {
    /// Print the shell completions.
    Completions,
    /// Print the help text: there is nothing to pass to SSH.
    Help,
    /// Keep an SSH session alive.
    KeepAlive,
}

impl<S> Cli<S> {
    /// What to do; `completions` says whether shell completions were asked for,
    /// which goes before anything else.
    pub fn mode(&self, completions: bool) -> (mode: Mode)
        ensures
            mode == (if completions {
                Mode::Completions
            } else if self.ssh_args@.len() == 0 {
                Mode::Help
            } else {
                Mode::KeepAlive
            }),
            mode is Completions <==> completions,
            mode is KeepAlive <==> !completions && self.ssh_args@.len() > 0,
    {
        if completions {
            Mode::Completions
        } else if self.ssh_args.is_empty() {
            Mode::Help
        } else {
            Mode::KeepAlive
        }
    }
}

} // verus!
