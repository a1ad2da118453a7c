//! What holds of every command line, status report and SSH command.
use crate::cli;
use crate::cli::{
    ArgFault, Discovery, Fault, Invocation, MirrorArgs, RemoteServerStatus, Settings, StatusModel,
};
use crate::text;
use vstd::prelude::*;

verus! {

/// Whether a word is one of the five that stand for an option or ask for help,
/// and how it begins.
proof fn words_are_told_apart()
    ensures
        "-h"@ != "--remote-herdr"@,
        "-h"@ != "--remote-socket"@,
        "-h"@ != "--controlmaster"@,
        "-h"@ != "--no-controlmaster"@,
        "--help"@ != "--remote-herdr"@,
        "--help"@ != "--remote-socket"@,
        "--help"@ != "--controlmaster"@,
        "--help"@ != "--no-controlmaster"@,
        "help"@ != "--remote-herdr"@,
        "help"@ != "--remote-socket"@,
        "help"@ != "--controlmaster"@,
        "help"@ != "--no-controlmaster"@,
        "--remote-herdr"@ != "--remote-socket"@,
        "--remote-herdr"@ != "--controlmaster"@,
        "--remote-herdr"@ != "--no-controlmaster"@,
        "--remote-socket"@ != "--controlmaster"@,
        "--remote-socket"@ != "--no-controlmaster"@,
        "--controlmaster"@ != "--no-controlmaster"@,
        "--remote-herdr"@[0] == '-',
        "--remote-socket"@[0] == '-',
        "--controlmaster"@[0] == '-',
        "--no-controlmaster"@[0] == '-',
{
    reveal_strlit("-h");
    reveal_strlit("--help");
    reveal_strlit("help");
    reveal_strlit("--remote-herdr");
    reveal_strlit("--remote-socket");
    reveal_strlit("--controlmaster");
    reveal_strlit("--no-controlmaster");
    assert("-h"@.len() == 2);
    assert("--help"@.len() == 6);
    assert("help"@.len() == 4);
    assert("--remote-herdr"@.len() == 14);
    assert("--remote-socket"@.len() == 15);
    assert("--controlmaster"@.len() == 15);
    assert("--no-controlmaster"@.len() == 18);
    assert("--remote-socket"@[2] == 'r');
    assert("--controlmaster"@[2] == 'c');
}

/// An option sets its own setting to the word behind it, whatever that word is, and
/// nothing else; a sharing flag sets the sharing and nothing else.
pub proof fn options_set_one_setting(value: Seq<char>, rest: Seq<Seq<char>>, set: Settings)
    ensures
        cli::reading(seq!["--remote-herdr"@, value] + rest, set) == cli::reading(
            rest,
            Settings {
                remote_herdr: value,
                remote_socket: set.remote_socket,
                control_master: set.control_master,
            },
        ),
        cli::reading(seq!["--remote-socket"@, value] + rest, set) == cli::reading(
            rest,
            Settings {
                remote_herdr: set.remote_herdr,
                remote_socket: Some(value),
                control_master: set.control_master,
            },
        ),
        cli::reading(seq!["--controlmaster"@] + rest, set) == cli::reading(
            rest,
            Settings {
                remote_herdr: set.remote_herdr,
                remote_socket: set.remote_socket,
                control_master: true,
            },
        ),
        cli::reading(seq!["--no-controlmaster"@] + rest, set) == cli::reading(
            rest,
            Settings {
                remote_herdr: set.remote_herdr,
                remote_socket: set.remote_socket,
                control_master: false,
            },
        ),
{
    words_are_told_apart();
    let a = seq!["--remote-herdr"@, value] + rest;
    let b = seq!["--remote-socket"@, value] + rest;
    let c = seq!["--controlmaster"@] + rest;
    let d = seq!["--no-controlmaster"@] + rest;
    assert(a[0] == "--remote-herdr"@ && a[1] == value);
    assert(b[0] == "--remote-socket"@ && b[1] == value);
    assert(c[0] == "--controlmaster"@);
    assert(d[0] == "--no-controlmaster"@);
    assert(a.skip(2) =~= rest);
    assert(b.skip(2) =~= rest);
    assert(c.skip(1) =~= rest);
    assert(d.skip(1) =~= rest);
}

/// The flags of a run of options, without the values of the options that take one.
pub open spec fn sharing(words: Seq<Seq<char>>, before: bool) -> bool
    decreases words.len(),
{
    if words.len() == 0 {
        before
    } else if words.len() >= 2 && (words[0] == "--remote-herdr"@ || words[0]
        == "--remote-socket"@) {
        sharing(words.skip(2), before)
    } else {
        sharing(words.skip(1), words[0] == "--controlmaster"@)
    }
}

/// The words are options, each with its value where it takes one.
pub open spec fn are_options(words: Seq<Seq<char>>) -> bool
    decreases words.len(),
{
    if words.len() == 0 {
        true
    } else if words[0] == "--remote-herdr"@ || words[0] == "--remote-socket"@ {
        words.len() >= 2 && are_options(words.skip(2))
    } else {
        (words[0] == "--controlmaster"@ || words[0] == "--no-controlmaster"@) && are_options(
            words.skip(1),
        )
    }
}

/// The last word that follows an option of this name, the given one where there is
/// none.
pub open spec fn last_value(
    words: Seq<Seq<char>>,
    option: Seq<char>,
    before: Option<Seq<char>>,
) -> Option<Seq<char>>
    decreases words.len(),
{
    if words.len() == 0 {
        before
    } else if words.len() >= 2 && (words[0] == "--remote-herdr"@ || words[0]
        == "--remote-socket"@) {
        last_value(
            words.skip(2),
            option,
            if words[0] == option {
                Some(words[1])
            } else {
                before
            },
        )
    } else {
        last_value(words.skip(1), option, before)
    }
}

/// Over a whole command line: the first word that is no option is the host, all that
/// follows it goes to `ssh`, and the last of each option before it counts, whatever
/// others stand between.
pub proof fn the_last_of_each_option_counts(
    words: Seq<Seq<char>>,
    host: Seq<char>,
    rest: Seq<Seq<char>>,
    set: Settings,
)
    requires
        are_options(words),
        host != "-h"@,
        host != "--help"@,
        host != "help"@,
        host.len() == 0 || host[0] != '-',
    ensures
        cli::reading(words + seq![host] + rest, set) == Ok::<Invocation, Fault>(
            (Invocation {
                host,
                ssh_args: rest,
                remote_herdr: last_value(words, "--remote-herdr"@, Some(set.remote_herdr))->0,
                remote_socket: last_value(words, "--remote-socket"@, set.remote_socket),
                control_master: sharing(words, set.control_master),
            }),
        ),
        last_value(words, "--remote-herdr"@, Some(set.remote_herdr)) is Some,
    decreases words.len(),
{
    words_are_told_apart();
    let args = words + seq![host] + rest;
    if words.len() == 0 {
        assert(args =~= seq![host] + rest);
        assert(args[0] == host);
        assert(args.skip(1) =~= rest);
        cli::words_after_the_host_are_passed_through(host, rest, set);
    } else if words[0] == "--remote-herdr"@ || words[0] == "--remote-socket"@ {
        let more = words.skip(2);
        assert(args =~= seq![words[0], words[1]] + (more + seq![host] + rest));
        options_set_one_setting(words[1], more + seq![host] + rest, set);
        let next = if words[0] == "--remote-herdr"@ {
            Settings { remote_herdr: words[1], ..set }
        } else {
            Settings { remote_socket: Some(words[1]), ..set }
        };
        the_last_of_each_option_counts(more, host, rest, next);
        assert(cli::reading(args, set) == cli::reading(more + seq![host] + rest, next));
    } else {
        let more = words.skip(1);
        assert(args =~= seq![words[0]] + (more + seq![host] + rest));
        options_set_one_setting(words[0], more + seq![host] + rest, set);
        let next = Settings { control_master: words[0] == "--controlmaster"@, ..set };
        the_last_of_each_option_counts(more, host, rest, next);
        assert(cli::reading(args, set) == cli::reading(more + seq![host] + rest, next));
    }
}

/// Why a command line comes to nothing: no host, a word that asks for help in the
/// place of an option, an option without its value, or an option that is not known.
pub proof fn faults_are_what_they_say(
    word: Seq<char>,
    rest: Seq<Seq<char>>,
    set: Settings,
)
    ensures
        cli::reading(Seq::empty(), set) == Err::<Invocation, Fault>(Fault::MissingHost),
        cli::reading(seq!["-h"@] + rest, set) == Err::<Invocation, Fault>(Fault::Help),
        cli::reading(seq!["--help"@] + rest, set) == Err::<Invocation, Fault>(Fault::Help),
        cli::reading(seq!["help"@] + rest, set) == Err::<Invocation, Fault>(Fault::Help),
        cli::reading(seq!["--remote-herdr"@], set) == Err::<Invocation, Fault>(
            Fault::MissingValue("--remote-herdr"@),
        ),
        cli::reading(seq!["--remote-socket"@], set) == Err::<Invocation, Fault>(
            Fault::MissingValue("--remote-socket"@),
        ),
        ({
            &&& word.len() > 0 && word[0] == '-'
            &&& word != "-h"@ && word != "--help"@
            &&& word != "--remote-herdr"@ && word != "--remote-socket"@
            &&& word != "--controlmaster"@ && word != "--no-controlmaster"@
        }) ==> cli::reading(seq![word] + rest, set) == Err::<Invocation, Fault>(
            Fault::UnknownOption(word),
        ),
{
    words_are_told_apart();
    reveal_strlit("help");
    assert((seq!["-h"@] + rest)[0] == "-h"@);
    assert((seq!["--help"@] + rest)[0] == "--help"@);
    assert((seq!["help"@] + rest)[0] == "help"@);
    assert((seq![word] + rest)[0] == word);
}

/// Without options the remote executable is `herdr`, its socket is asked for, and no
/// connection is shared.
pub proof fn nothing_is_shared_unless_asked_for()
    ensures
        cli::default_settings().remote_herdr == "herdr"@,
        cli::default_settings().remote_socket is None,
        !cli::default_settings().control_master,
{
}

/// Help ends well and in silence; every fault ends with code 2 and names what it is
/// about.
pub proof fn faults_are_reported(word: Seq<char>)
    ensures
        Fault::Help.code() == 0,
        Fault::Help.complaint() is None,
        Fault::MissingHost.code() == 2,
        Fault::MissingHost.complaint() == Some("missing <host>"@),
        Fault::MissingValue(word).code() == 2,
        Fault::MissingValue(word).complaint() == Some("missing value for "@ + word),
        Fault::UnknownOption(word).code() == 2,
        Fault::UnknownOption(word).complaint() == Some("unknown option: "@ + word),
{
}

/// A status needs a socket that is not empty. A server runs only where the report
/// says so, and the report's word on the protocol stands.
pub proof fn reports_are_taken_at_their_word(
    texts: Map<Seq<char>, Seq<char>>,
    flags: Map<Seq<char>, bool>,
    message: Seq<char>,
)
    ensures
        ({
            let r = cli::report_status(Ok((texts, flags)));
            let socket = texts["socket"@];
            let given = texts.dom().contains("socket"@);
            &&& !given ==> r == Err::<StatusModel, Seq<char>>("status JSON missing `socket`"@)
            &&& given && socket.len() == 0 ==> r == Err::<StatusModel, Seq<char>>(
                "remote reported an empty socket path"@,
            )
            &&& given && socket.len() > 0 ==> (r matches Ok(status) && status.socket == socket && (
            status.running <==> flags.dom().contains("running"@) && flags["running"@]) && (
            status.compatible is Some <==> flags.dom().contains("compatible"@)) && (
            status.compatible matches Some(c) ==> c == flags["compatible"@]))
        }),
        cli::report_status(Err(message)) == Err::<StatusModel, Seq<char>>(
            "invalid status JSON: "@ + message,
        ),
{
}

/// The given members make the status that a report with just these makes.
pub proof fn members_make_the_status(path: Seq<char>, running: Option<bool>, fits: Option<bool>)
    ensures
        cli::status_of(None, running, fits) == Err::<StatusModel, Seq<char>>(
            "status JSON missing `socket`"@,
        ),
        path.len() == 0 ==> cli::status_of(Some(path), running, fits) == Err::<
            StatusModel,
            Seq<char>,
        >("remote reported an empty socket path"@),
        path.len() > 0 ==> (cli::status_of(Some(path), running, fits) matches Ok(status)
            && status.socket == path && status.running == (running is Some && running->0)
            && status.compatible == fits),
{
}

/// A remote socket is found exactly where the command succeeded, its report reads, and
/// a server runs there. The protocol differs only where the report says so.
pub proof fn discovery_needs_a_running_server(
    host: Seq<char>,
    herdr: Seq<char>,
    success: bool,
    status: Result<StatusModel, Seq<char>>,
    stderr: Seq<char>,
)
    ensures
        ({
            let r = cli::discovery(host, herdr, success, status, stderr);
            &&& r is Ok <==> success && status is Ok && status->Ok_0.running
            &&& r matches Ok(found) ==> found.0 == status->Ok_0.socket && (found.1 <==> (
            status->Ok_0.compatible is Some && !status->Ok_0.compatible->0))
            &&& !success ==> r == Err::<(Seq<char>, bool), Seq<char>>(
                "could not run `"@ + herdr + " status server --json` on "@ + host
                    + " (is herdr installed there?): "@ + text::trimmed(stderr),
            )
            &&& success && status is Err ==> r == Err::<(Seq<char>, bool), Seq<char>>(
                status->Err_0,
            )
            &&& success && status is Ok && !status->Ok_0.running ==> r == Err::<
                (Seq<char>, bool),
                Seq<char>,
            >("no herdr server is running on "@ + host + " (start one there first)"@)
        }),
{
}

/// The command that opens a shared connection and those that use it name the same
/// control path. Only the first makes the connection and keeps it.
pub proof fn shared_connections_have_one_path(path: Seq<char>)
    ensures
        ({
            let opened = cli::master_options(path);
            &&& opened.len() == 6
            &&& opened[0] == "-o"@ && opened[2] == "-o"@ && opened[4] == "-o"@
            &&& opened[1] == "ControlMaster=auto"@
            &&& opened[3] == "ControlPath="@ + path
            &&& opened[5] == "ControlPersist=yes"@
        }),
        ({
            let used = cli::client_options(path);
            &&& used.len() == 2
            &&& used[0] == "-o"@
            &&& used[1] == "ControlPath="@ + path
        }),
{
}

/// Without a control path a command gets no option of a shared connection.
pub proof fn unshared_commands_get_no_options(
    path: Seq<char>,
    options: spec_fn(Seq<char>) -> Seq<Seq<char>>,
)
    ensures
        cli::options_if(None, options).len() == 0,
        cli::options_if(Some(path), options) == options(path),
{
}

/// A parsed command line, a fault and a status say what their fields say.
pub proof fn parsed_values_say_what_they_hold(
    args: MirrorArgs,
    status: RemoteServerStatus,
    word: String,
)
    ensures
        ({
            &&& args@.host == args.host@
            &&& args@.ssh_args == text::texts(args.ssh_args@)
            &&& args@.remote_herdr == args.remote_herdr@
            &&& args@.remote_socket == text::opt_text(args.remote_socket)
            &&& args@.control_master == args.control_master
        }),
        ({
            &&& status@.socket == status.socket@
            &&& status@.running == status.running
            &&& status@.compatible == status.compatible
        }),
        ArgFault::Help@ == Fault::Help,
        ArgFault::MissingHost@ == Fault::MissingHost,
        ArgFault::MissingValue(word)@ == Fault::MissingValue(word@),
        ArgFault::UnknownOption(word)@ == Fault::UnknownOption(word@),
{
}

/// A status or a discovery that is handed out is the one that was made out.
pub proof fn results_are_handed_out_whole(
    r: Result<RemoteServerStatus, String>,
    want: Result<StatusModel, Seq<char>>,
    d: Result<Discovery, String>,
    found: Result<(Seq<char>, bool), Seq<char>>,
)
    ensures
        cli::is_status(r, want) ==> match (r, want) {
            (Ok(a), Ok(b)) => a.socket@ == b.socket && a.running == b.running && a.compatible
                == b.compatible,
            (Err(a), Err(b)) => a@ == b,
            _ => false,
        },
        cli::is_discovery(d, found) ==> match (d, found) {
            (Ok(a), Ok(b)) => a.socket@ == b.0 && a.incompatible == b.1,
            (Err(a), Err(b)) => a@ == b,
            _ => false,
        },
{
}

} // verus!
