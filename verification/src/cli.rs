//! The `mirror` command: its arguments, its SSH commands and its decisions.
use crate::json;
use crate::json::{flag_member, read_json, text_member};
use crate::text;
use crate::text::{add_text, copied_texts, decimal, same_text, starts_with, trim};
use vstd::prelude::*;

verus! {

/// The help text of the command.
pub const MIRROR_USAGE: &'static str = "\
usage: herdr mirror <host> [ssh args ...]

Connect a mirror to a Herdr server running on a remote host over SSH, in one
command. Discovers the remote server socket, forwards it over SSH, and starts
`herdr --mirror` against it. The tunnel is removed on exit.

options (before <host>):
  --remote-herdr <path>   herdr executable to run on the remote (default: herdr)
  --remote-socket <path>  remote API socket path, skipping auto-discovery
  --controlmaster         share one SSH connection for discovery + tunnel so a
                          2FA host prompts once (off by default; see below)
  --no-controlmaster      disable SSH connection sharing (the default)
  -h, --help              show this help

Any arguments after <host> are passed through to ssh, e.g.:
  herdr mirror devbox
  herdr mirror devbox -p 2222 -i ~/.ssh/id_ed25519
  herdr mirror --controlmaster devbox      # one 2FA prompt, not two

ControlMaster is off by default: sharing a persisted SSH connection can make a
later re-authentication prompt appear inside the mirror TUI and corrupt it. Use
--controlmaster only if a second auth prompt at startup is more annoying than
that risk.

Requires OpenSSH >= 6.7 (Unix-domain-socket forwarding) on both ends.";

/// A parsed invocation.
#[derive(Debug, PartialEq, Eq)]
pub struct MirrorArgs {
    /// The SSH destination.
    pub host: String,
    /// Arguments for every `ssh`.
    pub ssh_args: Vec<String>,
    /// The remote executable.
    pub remote_herdr: String,
    /// The remote socket, where it is not to be discovered.
    pub remote_socket: Option<String>,
    /// Whether the `ssh` commands share one connection.
    pub control_master: bool,
}

/// A parsed invocation, as a mathematical value.
#[verifier::ext_equal]
pub struct Invocation {
    pub host: Seq<char>,
    pub ssh_args: Seq<Seq<char>>,
    pub remote_herdr: Seq<char>,
    pub remote_socket: Option<Seq<char>>,
    pub control_master: bool,
}

impl View for MirrorArgs {
    type V = Invocation;

    open spec fn view(&self) -> Invocation {
        Invocation {
            host: self.host@,
            ssh_args: text::texts(self.ssh_args@),
            remote_herdr: self.remote_herdr@,
            remote_socket: text::opt_text(self.remote_socket),
            control_master: self.control_master,
        }
    }
}

/// The end of a parse without an invocation.
#[derive(Clone, Copy, Debug, PartialEq, Eq, Structural)]
pub enum ParseOutcome {
    /// Print the usage and exit with this code.
    Usage(i32),
}

/// Why there is no invocation.
#[derive(Debug, PartialEq, Eq)]
pub enum ArgFault {
    /// Help was asked for.
    Help,
    /// An option lacks its value.
    MissingValue(String),
    /// An option is not known.
    UnknownOption(String),
    /// No host was given.
    MissingHost,
}

/// Why there is no invocation, as a mathematical value.
pub enum Fault {
    Help,
    MissingValue(Seq<char>),
    UnknownOption(Seq<char>),
    MissingHost,
}

impl View for ArgFault {
    type V = Fault;

    open spec fn view(&self) -> Fault {
        match *self {
            ArgFault::Help => Fault::Help,
            ArgFault::MissingValue(option) => Fault::MissingValue(option@),
            ArgFault::UnknownOption(option) => Fault::UnknownOption(option@),
            ArgFault::MissingHost => Fault::MissingHost,
        }
    }
}

impl Fault {
    /// The exit code: only help is no error.
    pub open spec fn code(self) -> i32 {
        if self is Help {
            0
        } else {
            2
        }
    }

    /// What is said about it.
    pub open spec fn complaint(self) -> Option<Seq<char>> {
        match self {
            Fault::Help => None,
            Fault::MissingValue(option) => Some("missing value for "@ + option),
            Fault::UnknownOption(option) => Some("unknown option: "@ + option),
            Fault::MissingHost => Some("missing <host>"@),
        }
    }
}

impl ArgFault {
    /// How the command ends.
    pub fn outcome(&self) -> (r: ParseOutcome)
        ensures
            r == ParseOutcome::Usage(self@.code()),
    {
        match self {
            ArgFault::Help => ParseOutcome::Usage(0),
            _ => ParseOutcome::Usage(2),
        }
    }

    /// What is said about it before the usage.
    pub fn complaint(&self) -> (r: Option<String>)
        ensures
            text::opt_text(r) == self@.complaint(),
    {
        match self {
            ArgFault::Help => None,
            ArgFault::MissingValue(option) => Some(
                "missing value for ".to_owned().concat(option.as_str()),
            ),
            ArgFault::UnknownOption(option) => Some(
                "unknown option: ".to_owned().concat(option.as_str()),
            ),
            ArgFault::MissingHost => Some("missing <host>".to_owned()),
        }
    }
}

/// What the options before the host set.
#[verifier::ext_equal]
pub struct Settings {
    pub remote_herdr: Seq<char>,
    pub remote_socket: Option<Seq<char>>,
    pub control_master: bool,
}

/// The settings without options.
pub open spec fn default_settings() -> Settings {
    Settings { remote_herdr: "herdr"@, remote_socket: None, control_master: false }
}

/// A word that asks for help.
pub open spec fn asks_for_help(arg: Seq<char>) -> bool {
    arg == "-h"@ || arg == "--help"@ || arg == "help"@
}

/// What arguments come to. Options stand before the host; the first word that is
/// none is the host, and all that follows it goes to `ssh`.
pub open spec fn reading(args: Seq<Seq<char>>, set: Settings) -> Result<Invocation, Fault>
    decreases args.len(),
{
    if args.len() == 0 {
        Err(Fault::MissingHost)
    } else {
        let arg = args[0];
        if asks_for_help(arg) {
            Err(Fault::Help)
        } else if arg == "--remote-herdr"@ {
            if args.len() < 2 {
                Err(Fault::MissingValue(arg))
            } else {
                reading(args.skip(2), Settings { remote_herdr: args[1], ..set })
            }
        } else if arg == "--remote-socket"@ {
            if args.len() < 2 {
                Err(Fault::MissingValue(arg))
            } else {
                reading(args.skip(2), Settings { remote_socket: Some(args[1]), ..set })
            }
        } else if arg == "--controlmaster"@ {
            reading(args.skip(1), Settings { control_master: true, ..set })
        } else if arg == "--no-controlmaster"@ {
            reading(args.skip(1), Settings { control_master: false, ..set })
        } else if arg.len() > 0 && arg[0] == '-' {
            Err(Fault::UnknownOption(arg))
        } else {
            Ok(
                Invocation {
                    host: arg,
                    ssh_args: args.skip(1),
                    remote_herdr: set.remote_herdr,
                    remote_socket: set.remote_socket,
                    control_master: set.control_master,
                },
            )
        }
    }
}

/// Reads the arguments of the command, with the reason where there is no invocation.
pub fn scan_mirror_args(args: &[String]) -> (r: Result<MirrorArgs, ArgFault>)
    ensures
        match r {
            Ok(parsed) => reading(text::texts(args@), default_settings()) == Ok::<
                Invocation,
                Fault,
            >(parsed@),
            Err(fault) => reading(text::texts(args@), default_settings()) == Err::<
                Invocation,
                Fault,
            >(fault@),
        },
{
    let ghost all = text::texts(args@);
    let mut remote_herdr = "herdr".to_owned();
    let mut remote_socket: Option<String> = None;
    let mut control_master = false;
    let mut index: usize = 0;
    assert(all.skip(0) =~= all);
    while index < args.len()
        invariant
            index <= args@.len(),
            all == text::texts(args@),
            reading(all, default_settings()) == reading(
                all.skip(index as int),
                Settings {
                    remote_herdr: remote_herdr@,
                    remote_socket: text::opt_text(remote_socket),
                    control_master,
                },
            ),
        decreases args@.len() - index,
    {
        let arg = args[index].as_str();
        let ghost rest = all.skip(index as int);
        proof {
            assert(rest[0] == arg@);
            assert(rest.skip(1) =~= all.skip(index + 1));
            if rest.len() >= 2 {
                assert(rest[1] == args@[index + 1]@);
                assert(rest.skip(2) =~= all.skip(index + 2));
            }
        }
        if same_text(arg, "-h") || same_text(arg, "--help") || same_text(arg, "help") {
            return Err(ArgFault::Help);
        } else if same_text(arg, "--remote-herdr") {
            if args.len() - index < 2 {
                return Err(ArgFault::MissingValue(arg.to_owned()));
            }
            remote_herdr = args[index + 1].clone();
            index = index + 2;
        } else if same_text(arg, "--remote-socket") {
            if args.len() - index < 2 {
                return Err(ArgFault::MissingValue(arg.to_owned()));
            }
            remote_socket = Some(args[index + 1].clone());
            index = index + 2;
        } else if same_text(arg, "--controlmaster") {
            control_master = true;
            index = index + 1;
        } else if same_text(arg, "--no-controlmaster") {
            control_master = false;
            index = index + 1;
        } else if starts_with(arg, '-') {
            return Err(ArgFault::UnknownOption(arg.to_owned()));
        } else {
            let host = args[index].clone();
            let mut ssh_args: Vec<String> = Vec::new();
            let mut next: usize = index + 1;
            assert(text::texts(ssh_args@) =~= all.subrange(index + 1, next as int));
            while next < args.len()
                invariant
                    index < next <= args@.len(),
                    all == text::texts(args@),
                    text::texts(ssh_args@) == all.subrange(index + 1, next as int),
                decreases args@.len() - next,
            {
                add_text(&mut ssh_args, args[next].as_str());
                assert(all.subrange(index + 1, next + 1) =~= all.subrange(
                    index + 1,
                    next as int,
                ).push(args@[next as int]@));
                next = next + 1;
            }
            assert(text::texts(ssh_args@) =~= rest.skip(1));
            return Ok(
                MirrorArgs { host, ssh_args, remote_herdr, remote_socket, control_master },
            );
        }
    }
    assert(all.skip(index as int).len() == 0);
    Err(ArgFault::MissingHost)
}

/// Reads the arguments of the command.
pub fn parse_mirror_args(args: &[String]) -> (r: Result<MirrorArgs, ParseOutcome>)
    ensures
        match reading(text::texts(args@), default_settings()) {
            Ok(invocation) => r matches Ok(parsed) && parsed@ == invocation,
            Err(fault) => r == Err::<MirrorArgs, ParseOutcome>(ParseOutcome::Usage(fault.code())),
        },
{
    match scan_mirror_args(args) {
        Ok(parsed) => Ok(parsed),
        Err(fault) => Err(fault.outcome()),
    }
}

/// All that follows the host goes to `ssh` as it is, whatever it looks like, and
/// changes nothing else.
pub proof fn words_after_the_host_are_passed_through(
    host: Seq<char>,
    rest: Seq<Seq<char>>,
    set: Settings,
)
    requires
        !asks_for_help(host),
        !(host.len() > 0 && host[0] == '-'),
    ensures
        reading(seq![host] + rest, set) == Ok::<Invocation, Fault>(
            Invocation {
                host,
                ssh_args: rest,
                remote_herdr: set.remote_herdr,
                remote_socket: set.remote_socket,
                control_master: set.control_master,
            },
        ),
{
    reveal_strlit("--remote-herdr");
    reveal_strlit("--remote-socket");
    reveal_strlit("--controlmaster");
    reveal_strlit("--no-controlmaster");
    let args = seq![host] + rest;
    assert(args[0] == host);
    assert(args.skip(1) =~= rest);
}

/// A sharing flag overrides what was set before it, so the last one counts.
pub proof fn last_sharing_flag_wins(rest: Seq<Seq<char>>, set: Settings)
    ensures
        reading(seq!["--controlmaster"@] + rest, set) == reading(
            rest,
            Settings { control_master: true, ..set },
        ),
        reading(seq!["--no-controlmaster"@] + rest, set) == reading(
            rest,
            Settings { control_master: false, ..set },
        ),
{
    reveal_strlit("-h");
    reveal_strlit("--help");
    reveal_strlit("help");
    reveal_strlit("--remote-herdr");
    reveal_strlit("--remote-socket");
    reveal_strlit("--controlmaster");
    reveal_strlit("--no-controlmaster");
    let on = seq!["--controlmaster"@] + rest;
    let off = seq!["--no-controlmaster"@] + rest;
    assert(on[0] == "--controlmaster"@);
    assert(off[0] == "--no-controlmaster"@);
    assert(on.skip(1) =~= rest);
    assert(off.skip(1) =~= rest);
    assert("--controlmaster"@.len() == 15);
    assert("--no-controlmaster"@.len() == 18);
    assert("--controlmaster"@[2] == 'c');
    assert("--no-controlmaster"@[2] == 'n');
}

/// What the remote server says of itself.
#[derive(Debug, PartialEq, Eq)]
pub struct RemoteServerStatus {
    pub socket: String,
    pub running: bool,
    /// `Some(false)` where its protocol differs.
    pub compatible: Option<bool>,
}

/// A status report, as a mathematical value.
pub struct StatusModel {
    pub socket: Seq<char>,
    pub running: bool,
    pub compatible: Option<bool>,
}

impl View for RemoteServerStatus {
    type V = StatusModel;

    open spec fn view(&self) -> StatusModel {
        StatusModel { socket: self.socket@, running: self.running, compatible: self.compatible }
    }
}

/// The status that the members of a report give: a socket is needed, a server
/// that does not say so is not running.
pub open spec fn status_of(
    socket: Option<Seq<char>>,
    running: Option<bool>,
    compatible: Option<bool>,
) -> Result<StatusModel, Seq<char>> {
    match socket {
        None => Err("status JSON missing `socket`"@),
        Some(path) => if path.len() == 0 {
            Err("remote reported an empty socket path"@)
        } else {
            Ok(StatusModel { socket: path, running: running == Some(true), compatible })
        },
    }
}

/// A member of a map, if it is there.
pub open spec fn member<V>(m: Map<Seq<char>, V>, key: Seq<char>) -> Option<V> {
    if m.dom().contains(key) {
        Some(m[key])
    } else {
        None
    }
}

/// The status in a report, given what reading it as JSON came to.
pub open spec fn report_status(
    read: Result<(Map<Seq<char>, Seq<char>>, Map<Seq<char>, bool>), Seq<char>>,
) -> Result<StatusModel, Seq<char>> {
    match read {
        Ok((texts, flags)) => status_of(
            member(texts, "socket"@),
            member(flags, "running"@),
            member(flags, "compatible"@),
        ),
        Err(message) => Err("invalid status JSON: "@ + message),
    }
}

/// The result is the given one.
pub open spec fn is_status(
    r: Result<RemoteServerStatus, String>,
    want: Result<StatusModel, Seq<char>>,
) -> bool {
    match r {
        Ok(status) => want == Ok::<StatusModel, Seq<char>>(status@),
        Err(message) => want == Err::<StatusModel, Seq<char>>(message@),
    }
}

/// Makes a status of the members of a report.
pub fn status_from_members(
    socket: Option<String>,
    running: Option<bool>,
    compatible: Option<bool>,
) -> (r: Result<RemoteServerStatus, String>)
    ensures
        is_status(r, status_of(text::opt_text(socket), running, compatible)),
{
    match socket {
        None => Err("status JSON missing `socket`".to_owned()),
        Some(socket) => {
            if socket.as_str().is_empty() {
                return Err("remote reported an empty socket path".to_owned());
            }
            let running = match running {
                Some(running) => running,
                None => false,
            };
            Ok(RemoteServerStatus { socket, running, compatible })
        },
    }
}

/// Reads a status report.
pub fn parse_status_json(stdout: &str) -> (r: Result<RemoteServerStatus, String>)
    ensures
        is_status(r, report_status(json::json_reading(text::trimmed(stdout@)))),
{
    match read_json(trim(stdout)) {
        Ok(value) => status_from_members(
            text_member(&value, "socket"),
            flag_member(&value, "running"),
            flag_member(&value, "compatible"),
        ),
        Err(message) => Err("invalid status JSON: ".to_owned().concat(message.as_str())),
    }
}

/// What the `ssh` that opens a shared connection is given.
pub open spec fn master_options(control_path: Seq<char>) -> Seq<Seq<char>> {
    seq![
        "-o"@,
        "ControlMaster=auto"@,
        "-o"@,
        "ControlPath="@ + control_path,
        "-o"@,
        "ControlPersist=yes"@,
    ]
}

/// What an `ssh` that uses a shared connection is given.
pub open spec fn client_options(control_path: Seq<char>) -> Seq<Seq<char>> {
    seq!["-o"@, "ControlPath="@ + control_path]
}

/// The options of a shared connection, none where none is shared.
pub open spec fn options_if(
    control_path: Option<Seq<char>>,
    options: spec_fn(Seq<char>) -> Seq<Seq<char>>,
) -> Seq<Seq<char>> {
    match control_path {
        Some(path) => options(path),
        None => Seq::empty(),
    }
}

fn add_control_path(command: &mut Vec<String>, control_path: &str)
    ensures
        text::texts(final(command)@) == text::texts(old(command)@).push(
            "ControlPath="@ + control_path@,
        ),
{
    let option = "ControlPath=".to_owned().concat(control_path);
    add_text(command, option.as_str());
}

/// The arguments of the `ssh` that asks for the remote socket.
pub fn discovery_args(parsed: &MirrorArgs, control_path: Option<&str>) -> (r: Vec<String>)
    ensures
        text::texts(r@) == parsed@.ssh_args + options_if(
            crate::connection::opt_str(control_path),
            |p: Seq<char>| master_options(p),
        ) + seq![parsed@.host, parsed@.remote_herdr, "status"@, "server"@, "--json"@],
{
    let mut command = copied_texts(parsed.ssh_args.as_slice());
    if let Some(path) = control_path {
        add_text(&mut command, "-o");
        add_text(&mut command, "ControlMaster=auto");
        add_text(&mut command, "-o");
        add_control_path(&mut command, path);
        add_text(&mut command, "-o");
        add_text(&mut command, "ControlPersist=yes");
    }
    let ghost head = text::texts(command@);
    assert(head =~= parsed@.ssh_args + options_if(
        crate::connection::opt_str(control_path),
        |p: Seq<char>| master_options(p),
    ));
    add_text(&mut command, parsed.host.as_str());
    add_text(&mut command, parsed.remote_herdr.as_str());
    add_text(&mut command, "status");
    add_text(&mut command, "server");
    add_text(&mut command, "--json");
    assert(text::texts(command@) =~= head + seq![
        parsed@.host,
        parsed@.remote_herdr,
        "status"@,
        "server"@,
        "--json"@,
    ]);
    command
}

/// One socket forwarded to another.
pub fn forward_spec(local: &str, remote: &str) -> (r: String)
    ensures
        r@ == local@ + ":"@ + remote@,
{
    local.to_owned().concat(":").concat(remote)
}

/// The arguments of the `ssh` that forwards both sockets.
pub fn forward_args(
    parsed: &MirrorArgs,
    local_api: &str,
    remote_api: &str,
    local_client: &str,
    remote_client: &str,
    control_path: Option<&str>,
) -> (r: Vec<String>)
    ensures
        text::texts(r@) == parsed@.ssh_args + options_if(
            crate::connection::opt_str(control_path),
            |p: Seq<char>| client_options(p),
        ) + seq![
            "-N"@,
            "-o"@,
            "ExitOnForwardFailure=yes"@,
            "-o"@,
            "ServerAliveInterval=15"@,
            "-L"@,
            local_api@ + ":"@ + remote_api@,
            "-L"@,
            local_client@ + ":"@ + remote_client@,
            parsed@.host,
        ],
{
    let mut command = copied_texts(parsed.ssh_args.as_slice());
    if let Some(path) = control_path {
        add_text(&mut command, "-o");
        add_control_path(&mut command, path);
    }
    let ghost head = text::texts(command@);
    assert(head =~= parsed@.ssh_args + options_if(
        crate::connection::opt_str(control_path),
        |p: Seq<char>| client_options(p),
    ));
    let api = forward_spec(local_api, remote_api);
    let client = forward_spec(local_client, remote_client);
    add_text(&mut command, "-N");
    add_text(&mut command, "-o");
    add_text(&mut command, "ExitOnForwardFailure=yes");
    add_text(&mut command, "-o");
    add_text(&mut command, "ServerAliveInterval=15");
    add_text(&mut command, "-L");
    add_text(&mut command, api.as_str());
    add_text(&mut command, "-L");
    add_text(&mut command, client.as_str());
    add_text(&mut command, parsed.host.as_str());
    assert(text::texts(command@) =~= head + seq![
        "-N"@,
        "-o"@,
        "ExitOnForwardFailure=yes"@,
        "-o"@,
        "ServerAliveInterval=15"@,
        "-L"@,
        local_api@ + ":"@ + remote_api@,
        "-L"@,
        local_client@ + ":"@ + remote_client@,
        parsed@.host,
    ]);
    command
}

/// The arguments of the `ssh` that closes a shared connection.
pub fn teardown_args(parsed: &MirrorArgs, control_path: &str) -> (r: Vec<String>)
    ensures
        text::texts(r@) == parsed@.ssh_args + client_options(control_path@) + seq![
            "-O"@,
            "exit"@,
            parsed@.host,
        ],
{
    let mut command = copied_texts(parsed.ssh_args.as_slice());
    add_text(&mut command, "-o");
    add_control_path(&mut command, control_path);
    add_text(&mut command, "-O");
    add_text(&mut command, "exit");
    add_text(&mut command, parsed.host.as_str());
    assert(text::texts(command@) =~= parsed@.ssh_args + client_options(control_path@) + seq![
        "-O"@,
        "exit"@,
        parsed@.host,
    ]);
    command
}

/// The file name of the forwarded socket of a process.
pub fn local_socket_name(pid: u32) -> (r: String)
    ensures
        r@ == "herdr-mirror-"@ + text::decimal_text(pid as nat) + ".sock"@,
{
    let number = decimal(pid as u64);
    "herdr-mirror-".to_owned().concat(number.as_str()).concat(".sock")
}

/// The file name pattern of the shared connection of a process: `None` unless
/// one is to be shared. `ssh` puts the host in the place of `%h`.
pub fn control_path_name(parsed: &MirrorArgs, pid: u32) -> (r: Option<String>)
    ensures
        text::opt_text(r) == (if parsed@.control_master {
            Some("herdr-mirror-cm-"@ + text::decimal_text(pid as nat) + "-%h"@)
        } else {
            None
        }),
{
    if parsed.control_master {
        let number = decimal(pid as u64);
        Some("herdr-mirror-cm-".to_owned().concat(number.as_str()).concat("-%h"))
    } else {
        None
    }
}

/// What asking for the remote socket came to.
#[derive(Debug, PartialEq, Eq)]
pub struct Discovery {
    pub socket: String,
    /// The remote protocol differs.
    pub incompatible: bool,
}

/// What asking for the remote socket came to, as a mathematical value: the
/// socket and whether the protocol differs, or what is said about the failure.
pub open spec fn discovery(
    host: Seq<char>,
    remote_herdr: Seq<char>,
    success: bool,
    status: Result<StatusModel, Seq<char>>,
    stderr: Seq<char>,
) -> Result<(Seq<char>, bool), Seq<char>> {
    if !success {
        Err(
            "could not run `"@ + remote_herdr + " status server --json` on "@ + host
                + " (is herdr installed there?): "@ + text::trimmed(stderr),
        )
    } else {
        match status {
            Err(message) => Err(message),
            Ok(status) => if !status.running {
                Err("no herdr server is running on "@ + host + " (start one there first)"@)
            } else {
                Ok((status.socket, status.compatible == Some(false)))
            },
        }
    }
}

/// Decides on a status that was reported.
pub fn accept_status(
    host: &str,
    status: Result<RemoteServerStatus, String>,
) -> (r: Result<Discovery, String>)
    ensures
        match status {
            Err(message) => r == Err::<Discovery, String>(message),
            Ok(status) => if status.running {
                r == Ok::<Discovery, String>(
                    Discovery {
                        socket: status.socket,
                        incompatible: status.compatible == Some(false),
                    },
                )
            } else {
                r matches Err(message) && message@ == "no herdr server is running on "@ + host@
                    + " (start one there first)"@
            },
        },
{
    match status {
        Err(message) => Err(message),
        Ok(status) => {
            if !status.running {
                return Err(
                    "no herdr server is running on ".to_owned().concat(host).concat(
                        " (start one there first)",
                    ),
                );
            }
            let incompatible = match status.compatible {
                Some(compatible) => !compatible,
                None => false,
            };
            Ok(Discovery { socket: status.socket, incompatible })
        },
    }
}

/// The result is the given one.
pub open spec fn is_discovery(
    r: Result<Discovery, String>,
    want: Result<(Seq<char>, bool), Seq<char>>,
) -> bool {
    match r {
        Ok(found) => want == Ok::<(Seq<char>, bool), Seq<char>>(
            (found.socket@, found.incompatible),
        ),
        Err(message) => want == Err::<(Seq<char>, bool), Seq<char>>(message@),
    }
}

/// Decides on what the `ssh` that asked for the remote socket printed.
pub fn discover_remote_socket(
    parsed: &MirrorArgs,
    success: bool,
    stdout: &str,
    stderr: &str,
) -> (r: Result<Discovery, String>)
    ensures
        is_discovery(
            r,
            discovery(
                parsed@.host,
                parsed@.remote_herdr,
                success,
                report_status(json::json_reading(text::trimmed(stdout@))),
                stderr@,
            ),
        ),
{
    if !success {
        return Err(
            "could not run `".to_owned().concat(parsed.remote_herdr.as_str()).concat(
                " status server --json` on ",
            ).concat(parsed.host.as_str()).concat(" (is herdr installed there?): ").concat(
                trim(stderr),
            ),
        );
    }
    let status = parse_status_json(stdout);
    accept_status(parsed.host.as_str(), status)
}

/// What the wait for a forwarded socket does next.
#[derive(Debug, PartialEq, Eq)]
pub enum WaitStep {
    /// The socket takes connections.
    Ready,
    /// There is no use in waiting.
    Failed(String),
    /// Wait a little and look again.
    Again,
}

/// Decides on a look at a forwarded socket. A socket that is ready is ready,
/// whatever else happened; an `ssh` that ended comes before the deadline.
pub fn wait_for_socket(
    socket: &str,
    ready: bool,
    ssh_exit: Option<&str>,
    past_deadline: bool,
) -> (r: WaitStep)
    ensures
        ready ==> r == WaitStep::Ready,
        !ready && ssh_exit is Some ==> (r matches WaitStep::Failed(message) && message@
            == "SSH tunnel exited before the socket was ready ("@ + ssh_exit->0@
            + "); check the host and your SSH access"@),
        !ready && ssh_exit is None && past_deadline ==> (r matches WaitStep::Failed(message)
            && message@ == "timed out waiting for the forwarded socket "@ + socket@
            + " to become ready"@),
        !ready && ssh_exit is None && !past_deadline ==> r == WaitStep::Again,
{
    if ready {
        return WaitStep::Ready;
    }
    if let Some(status) = ssh_exit {
        return WaitStep::Failed(
            "SSH tunnel exited before the socket was ready (".to_owned().concat(status).concat(
                "); check the host and your SSH access",
            ),
        );
    }
    if past_deadline {
        return WaitStep::Failed(
            "timed out waiting for the forwarded socket ".to_owned().concat(socket).concat(
                " to become ready",
            ),
        );
    }
    WaitStep::Again
}

/// The exit code of the command and what is said where it failed. A mirror that
/// was killed counts as a failure without words.
pub fn command_result(launched: Result<Option<i32>, String>) -> (r: (i32, Option<String>))
    ensures
        match launched {
            Ok(Some(code)) => r == (code, None::<String>),
            Ok(None) => r == (1i32, None::<String>),
            Err(message) => r.0 == 1 && text::opt_text(r.1) == Some("herdr mirror: "@ + message@),
        },
{
    match launched {
        Ok(Some(code)) => (code, None),
        Ok(None) => (1, None),
        Err(message) => (1, Some("herdr mirror: ".to_owned().concat(message.as_str()))),
    }
}

/// What a launch does next.
#[derive(Debug)]
pub enum LaunchStep {
    /// Run `ssh` with these arguments and read what it prints.
    Discover(Vec<String>),
    /// Forward the sockets to the remote one.
    Forward(String),
}

/// Starts a launch: a socket that was given is not asked for.
pub fn start_launch(parsed: &MirrorArgs, control_path: Option<&str>) -> (r: LaunchStep)
    ensures
        match parsed@.remote_socket {
            Some(socket) => r matches LaunchStep::Forward(path) && path@ == socket,
            None => r matches LaunchStep::Discover(command) && text::texts(command@)
                == parsed@.ssh_args + options_if(
                crate::connection::opt_str(control_path),
                |p: Seq<char>| master_options(p),
            ) + seq![parsed@.host, parsed@.remote_herdr, "status"@, "server"@, "--json"@],
        },
{
    match &parsed.remote_socket {
        Some(socket) => LaunchStep::Forward(socket.clone()),
        None => LaunchStep::Discover(discovery_args(parsed, control_path)),
    }
}

} // verus!
