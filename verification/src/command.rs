//! The SSH command line: the port forwards that carry the probes, and what the
//! user passes on.
use vstd::prelude::*;

use crate::cli::{Cli, Port};
use crate::text::{append_decimal, decimal};

verus! {

/// The host that every forward leads to.
pub const PORT_FORWARD_HOST: &'static str = "127.0.0.1";

/// The end of the connection on which a forwarded port is opened.
#[derive(Clone, Copy, Debug, PartialEq, Eq, Structural)]
pub enum Side {
    Local,
    Remote,
}

/// A port opened on one side, from where connections are led to a port of
/// `PORT_FORWARD_HOST` on the other side.
#[derive(Clone, Copy, Debug, PartialEq, Eq, Structural)]
pub struct Forward {
    pub side: Side,
    pub port: u16,
    pub target: u16,
}

/// The view of an optional port: its number.
pub open spec fn number(port: Option<Port>) -> Option<u16> {
    match port {
        Some(port) => Some(port@),
        None => None,
    }
}

/// The port next to the monitor port does not exist.
#[derive(Clone, Copy, Debug, PartialEq, Eq, Structural)]
pub struct ReplyPortOverflow;

/// Text of the error.
pub const REPLY_PORT_OVERFLOW: &'static str =
    "Calculating the default reply port(--monitor_port + 1) overflowed";

/// Whether a listener is needed whose port does not exist.
pub open spec fn overflows(monitor: Option<u16>, echo: Option<u16>) -> bool {
    echo is None && monitor == Some(u16::MAX)
}

/// The port that the probes come back to: the one next to the monitor port,
/// unless an echo server sends them back or nothing is monitored.
pub open spec fn listener(monitor: Option<u16>, echo: Option<u16>) -> Option<u16> {
    match (monitor, echo) {
        (Some(port), None) => Some((port + 1) as u16),
        _ => None,
    }
}

/// The forwards that carry the probes. They leave through the monitor port. An
/// echo server takes them on its own port; without one they arrive on the remote
/// monitor port, from where they are led back to the listener.
pub open spec fn forwards(monitor: Option<u16>, echo: Option<u16>) -> Seq<Forward> {
    match (monitor, echo) {
        (None, _) => Seq::empty(),
        (Some(port), Some(target)) => seq![Forward { side: Side::Local, port, target }],
        (Some(port), None) => seq![
            Forward { side: Side::Local, port, target: port },
            Forward { side: Side::Remote, port, target: (port + 1) as u16 },
        ],
    }
}

/// Without an echo server the forwards close a loop: what enters the local
/// monitor port leaves on the remote port that is led back, and arrives at the
/// listener, which is another port than the one it started from.
pub proof fn law_probes_return_to_the_listener(port: u16)
    requires
        !overflows(Some(port), None),
    ensures
        ({
            let way = forwards(Some(port), None);
            &&& way.len() == 2
            &&& way[0].side is Local && way[0].port == port
            &&& way[1].side is Remote && way[1].port == way[0].target
            &&& listener(Some(port), None) == Some(way[1].target)
            &&& way[1].target != way[0].port
            &&& way[1].target != 0
        }),
{
}

/// An echo server needs no listener and no forward back, whatever the ports.
pub proof fn law_echo_server_needs_no_listener(monitor: Option<u16>, echo: u16)
    ensures
        !overflows(monitor, Some(echo)),
        listener(monitor, Some(echo)) is None,
        forall|i: int|
            0 <= i < forwards(monitor, Some(echo)).len() ==> (#[trigger] forwards(
                monitor,
                Some(echo),
            )[i]).side is Local && forwards(monitor, Some(echo))[i].target == echo,
{
}

/// The port to listen on and the forwards, or an error where there is no port to
/// listen on.
pub fn monitor_setup(monitor: Option<Port>, echo: Option<Port>) -> (setup: Result<
    (Option<u16>, Vec<Forward>),
    ReplyPortOverflow,
>)
    ensures
        setup is Err <==> overflows(number(monitor), number(echo)),
        setup matches Ok((port, way)) ==> {
            &&& port == listener(number(monitor), number(echo))
            &&& way@ == forwards(number(monitor), number(echo))
        },
{
    let mut way: Vec<Forward> = Vec::new();
    let mut listen_port: Option<u16> = None;
    if let Some(monitor) = monitor {
        let port: u16 = monitor.get();
        match echo {
            Some(echo) => {
                way.push(Forward { side: Side::Local, port, target: echo.get() });
            },
            None => {
                way.push(Forward { side: Side::Local, port, target: port });
                match port.checked_add(1) {
                    Some(reply_port) => {
                        listen_port = Some(reply_port);
                        way.push(Forward { side: Side::Remote, port, target: reply_port });
                    },
                    None => {
                        return Err(ReplyPortOverflow);
                    },
                }
            },
        }
    }
    assert(way@ =~= forwards(number(monitor), number(echo)));
    Ok((listen_port, way))
}

/// The flag that opens a port on that side.
pub open spec fn flag(side: Side) -> Seq<char> {
    match side {
        Side::Local => "-L"@,
        Side::Remote => "-R"@,
    }
}

/// A forward as SSH takes it: `port:host:target`.
pub open spec fn route(forward: Forward) -> Seq<char> {
    decimal(forward.port as nat) + ":"@ + PORT_FORWARD_HOST@ + ":"@ + decimal(
        forward.target as nat,
    )
}

/// A forward as SSH takes it.
pub fn forward_argument(forward: &Forward) -> (text: String)
    ensures
        text@ == route(*forward),
{
    let mut text = String::new();
    append_decimal(&mut text, forward.port as u32);
    text.append(":");
    text.append(PORT_FORWARD_HOST);
    text.append(":");
    append_decimal(&mut text, forward.target as u32);
    assert(text@ =~= route(*forward));
    text
}

/// One argument of the SSH command.
#[derive(Debug)]
pub enum SshArg<S> {
    /// An argument that sets up the forwards.
    Setup(String),
    /// An argument that the user passes on.
    Given(S),
}

/// The view of `SshArg`.
pub enum Argument<S> {
    Setup(Seq<char>),
    Given(S),
}

impl<S> View for SshArg<S> {
    type V = Argument<S>;

    open spec fn view(&self) -> Argument<S> {
        match *self {
            SshArg::Setup(text) => Argument::Setup(text@),
            SshArg::Given(arg) => Argument::Given(arg),
        }
    }
}

/// The arguments that set up the forwards: for each its flag and its route.
pub open spec fn setup_arguments<S>(way: Seq<Forward>) -> Seq<Argument<S>>
    decreases way.len(),
{
    if way.len() == 0 {
        Seq::empty()
    } else {
        setup_arguments::<S>(way.drop_last()) + seq![
            Argument::Setup(flag(way.last().side)),
            Argument::Setup(route(way.last())),
        ]
    }
}

/// All arguments of the SSH command: the forwards, then what the user passes on.
pub open spec fn arguments<S>(way: Seq<Forward>, given: Seq<S>) -> Seq<Argument<S>> {
    setup_arguments::<S>(way) + given.map_values(|arg: S| Argument::Given(arg))
}

/// The SSH command and the port that has to be listened on while it runs.
#[derive(Debug)]
pub struct SshCommand<S> {
    /// The path to SSH executable.
    pub program: S,
    /// Its arguments.
    pub args: Vec<SshArg<S>>,
    /// The port that probes come back to, if they come back to a listener.
    pub listen_port: Option<u16>,
}

impl<S> SshCommand<S> {
    /// The views of the arguments.
    pub open spec fn arguments(self) -> Seq<Argument<S>> {
        self.args@.map_values(|arg: SshArg<S>| arg@)
    }
}

fn setup_args<S>(way: &Vec<Forward>) -> (args: Vec<SshArg<S>>)
    ensures
        args@.map_values(|arg: SshArg<S>| arg@) == setup_arguments::<S>(way@),
{
    let mut args: Vec<SshArg<S>> = Vec::new();
    let mut i: usize = 0;
    assert(way@.take(0) =~= Seq::empty());
    assert(args@.map_values(|arg: SshArg<S>| arg@) =~= Seq::empty());
    while i < way.len()
        invariant
            i <= way.len(),
            args@.map_values(|arg: SshArg<S>| arg@) == setup_arguments::<S>(way@.take(i as int)),
        decreases way.len() - i,
    {
        let ghost before = args@;
        let flag_text = match way[i].side {
            Side::Local => "-L".to_owned(),
            Side::Remote => "-R".to_owned(),
        };
        let route_text = forward_argument(&way[i]);
        args.push(SshArg::Setup(flag_text));
        args.push(SshArg::Setup(route_text));
        proof {
            let done = way@.take(i + 1);
            assert(done.drop_last() =~= way@.take(i as int));
            assert(args@.map_values(|arg: SshArg<S>| arg@) =~= before.map_values(
                |arg: SshArg<S>| arg@,
            ) + seq![
                Argument::<S>::Setup(flag(done.last().side)),
                Argument::<S>::Setup(route(done.last())),
            ]);
        }
        i += 1;
    }
    assert(way@.take(i as int) =~= way@);
    args
}

impl<S> Cli<S> {
    /// The SSH command that these options ask for, or an error where there is no
    /// port for the probes to come back to.
    pub fn into_ssh_command(self) -> (command: Result<SshCommand<S>, ReplyPortOverflow>)
        ensures
            command is Err <==> overflows(number(self.monitor_port), number(self.echo_port)),
            command matches Ok(command) ==> {
                &&& command.program == self.ssh_path
                &&& command.listen_port == listener(
                    number(self.monitor_port),
                    number(self.echo_port),
                )
                &&& command.arguments() == arguments(
                    forwards(number(self.monitor_port), number(self.echo_port)),
                    self.ssh_args@,
                )
                &&& command.args@.len() >= self.ssh_args@.len()
                &&& forall|i: int|
                    0 <= i < self.ssh_args@.len() ==> command.args@[command.args@.len()
                        - self.ssh_args@.len() + i] == SshArg::Given(#[trigger] self.ssh_args@[i])
            },
    {
        match monitor_setup(self.monitor_port, self.echo_port) {
            Err(error) => Err(error),
            Ok((listen_port, way)) => {
                let mut args: Vec<SshArg<S>> = setup_args(&way);
                let ghost setup = args@;
                let ghost given = self.ssh_args@;
                for arg in rest: self.ssh_args.into_iter()
                    invariant
                        rest.seq() == given,
                        args@ == setup + given.take(rest.index()).map_values(
                            |arg: S| SshArg::Given(arg),
                        ),
                {
                    args.push(SshArg::Given(arg));
                    assert(args@ =~= setup + given.take(rest.index() + 1).map_values(
                        |arg: S| SshArg::Given(arg),
                    ));
                }
                let command = SshCommand { program: self.ssh_path, args, listen_port };
                assert(given.take(given.len() as int) =~= given);
                assert(command.arguments() =~= arguments(way@, given));
                Ok(command)
            },
        }
    }
}

proof fn lemma_setup_arguments<S>(way: Seq<Forward>)
    ensures
        setup_arguments::<S>(way).len() == 2 * way.len(),
        forall|i: int|
            0 <= i < way.len() ==> setup_arguments::<S>(way)[2 * i] == Argument::<S>::Setup(
                flag((#[trigger] way[i]).side),
            ) && setup_arguments::<S>(way)[2 * i + 1] == Argument::<S>::Setup(route(way[i])),
    decreases way.len(),
{
    if way.len() > 0 {
        let before = way.drop_last();
        lemma_setup_arguments::<S>(before);
        assert forall|i: int| 0 <= i < way.len() implies setup_arguments::<S>(way)[2 * i]
            == Argument::<S>::Setup(flag((#[trigger] way[i]).side)) && setup_arguments::<S>(way)[2
            * i + 1] == Argument::<S>::Setup(route(way[i])) by {
            if i < before.len() {
                assert(before[i] == way[i]);
            }
        }
    }
}

/// Every argument of the user is passed on, unchanged and in its place: they are the
/// last arguments of the command, and before them stand two for each forward.
pub proof fn law_given_arguments_come_last<S>(way: Seq<Forward>, given: Seq<S>)
    ensures
        arguments(way, given).len() == 2 * way.len() + given.len(),
        forall|i: int|
            0 <= i < given.len() ==> arguments(way, given)[2 * way.len() + i]
                == Argument::<S>::Given(#[trigger] given[i]),
{
    lemma_setup_arguments::<S>(way);
}

/// Without a monitor port the command has no arguments but those of the user, and
/// nothing is listened on.
pub proof fn law_unmonitored_command<S>(echo: Option<Port>, given: Seq<S>)
    ensures
        !overflows(number(None), number(echo)),
        listener(number(None), number(echo)) is None,
        arguments(forwards(number(None), number(echo)), given).len() == given.len(),
        forall|i: int|
            0 <= i < given.len() ==> arguments(forwards(number(None), number(echo)), given)[i]
                == Argument::<S>::Given(#[trigger] given[i]),
{
    law_given_arguments_come_last(forwards(number(None), number(echo)), given);
}

/// With an echo server the command opens the monitor port, from where the probes are
/// led to the server.
pub proof fn law_command_with_echo_server<S>(monitor: Port, echo: Port, given: Seq<S>)
    ensures
        !overflows(number(Some(monitor)), number(Some(echo))),
        listener(number(Some(monitor)), number(Some(echo))) is None,
        ({
            let args = arguments(forwards(number(Some(monitor)), number(Some(echo))), given);
            &&& args.len() == 2 + given.len()
            &&& args[0] == Argument::<S>::Setup("-L"@)
            &&& args[1] == Argument::<S>::Setup(
                decimal(monitor@ as nat) + ":"@ + "127.0.0.1"@ + ":"@ + decimal(echo@ as nat),
            )
            &&& forall|i: int|
                0 <= i < given.len() ==> args[2 + i] == Argument::<S>::Given(#[trigger] given[i])
        }),
{
    let way = forwards(number(Some(monitor)), number(Some(echo)));
    lemma_setup_arguments::<S>(way);
    law_given_arguments_come_last(way, given);
    assert(way[0].target == echo@);
}

/// Without an echo server the command opens the monitor port on both sides: the
/// local one leads to the remote one, and that one back to the next higher port,
/// which is listened on. Only the highest port has none next to it.
pub proof fn law_command_with_listener<S>(monitor: Port, given: Seq<S>)
    ensures
        overflows(number(Some(monitor)), number(None)) <==> monitor@ == 65535,
        monitor@ < 65535 ==> {
            let args = arguments(forwards(number(Some(monitor)), number(None)), given);
            let port = decimal(monitor@ as nat);
            &&& listener(number(Some(monitor)), number(None)) == Some((monitor@ + 1) as u16)
            &&& args.len() == 4 + given.len()
            &&& args[0] == Argument::<S>::Setup("-L"@)
            &&& args[1] == Argument::<S>::Setup(port + ":"@ + "127.0.0.1"@ + ":"@ + port)
            &&& args[2] == Argument::<S>::Setup("-R"@)
            &&& args[3] == Argument::<S>::Setup(
                port + ":"@ + "127.0.0.1"@ + ":"@ + decimal((monitor@ + 1) as nat),
            )
            &&& forall|i: int|
                0 <= i < given.len() ==> args[4 + i] == Argument::<S>::Given(#[trigger] given[i])
        },
{
    let way = forwards(number(Some(monitor)), number(None));
    lemma_setup_arguments::<S>(way);
    law_given_arguments_come_last(way, given);
    assert(way[0].port == monitor@);
    assert(way[1].port == monitor@);
}

/// The view of an argument keeps its kind and what it says.
pub proof fn law_argument_says_what_it_is<S>(text: String, given: S)
    ensures
        SshArg::<S>::Setup(text)@ == Argument::<S>::Setup(text@),
        SshArg::<S>::Given(given)@ == Argument::<S>::Given(given),
{
}

} // verus!
