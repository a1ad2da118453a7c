use herdr_mirror::cli::{
    accept_status, command_result, control_path_name, discover_remote_socket, discovery_args,
    forward_args, forward_spec, local_socket_name, parse_mirror_args, parse_status_json,
    scan_mirror_args, start_launch, status_from_members, teardown_args, wait_for_socket,
    Discovery, LaunchStep, MirrorArgs, ParseOutcome, RemoteServerStatus, WaitStep, MIRROR_USAGE,
};

fn args(values: &[&str]) -> Vec<String> {
    values.iter().map(|value| (*value).to_string()).collect()
}

#[test]
fn parses_host_only() {
    let parsed = parse_mirror_args(&args(&["devbox"])).unwrap();
    assert_eq!(parsed.host, "devbox");
    assert!(parsed.ssh_args.is_empty());
    assert_eq!(parsed.remote_herdr, "herdr");
    assert_eq!(parsed.remote_socket, None);
    assert!(!parsed.control_master);
}

#[test]
fn controlmaster_flag_opts_in() {
    let parsed = parse_mirror_args(&args(&["--controlmaster", "devbox"])).unwrap();
    assert_eq!(parsed.host, "devbox");
    assert!(parsed.control_master);
    assert!(parsed.ssh_args.is_empty());
}

#[test]
fn no_controlmaster_flag_keeps_it_off() {
    let parsed = parse_mirror_args(&args(&["--no-controlmaster", "devbox"])).unwrap();
    assert!(!parsed.control_master);
}

#[test]
fn last_controlmaster_flag_wins() {
    let on =
        parse_mirror_args(&args(&["--no-controlmaster", "--controlmaster", "devbox"])).unwrap();
    assert!(on.control_master);
    let off =
        parse_mirror_args(&args(&["--controlmaster", "--no-controlmaster", "devbox"])).unwrap();
    assert!(!off.control_master);
}

#[test]
fn controlmaster_after_host_is_ssh_passthrough() {
    let parsed = parse_mirror_args(&args(&["devbox", "--controlmaster"])).unwrap();
    assert_eq!(parsed.host, "devbox");
    assert!(!parsed.control_master);
    assert_eq!(parsed.ssh_args, args(&["--controlmaster"]));
}

#[test]
fn passes_ssh_args_after_host_through() {
    let parsed = parse_mirror_args(&args(&["devbox", "-p", "2222", "-i", "key"])).unwrap();
    assert_eq!(parsed.host, "devbox");
    assert_eq!(parsed.ssh_args, args(&["-p", "2222", "-i", "key"]));
}

#[test]
fn parses_remote_herdr_and_socket_before_host() {
    let parsed = parse_mirror_args(&args(&[
        "--remote-herdr",
        "/opt/herdr",
        "--remote-socket",
        "/run/herdr.sock",
        "devbox",
    ]))
    .unwrap();
    assert_eq!(parsed.host, "devbox");
    assert_eq!(parsed.remote_herdr, "/opt/herdr");
    assert_eq!(parsed.remote_socket.as_deref(), Some("/run/herdr.sock"));
}

#[test]
fn ssh_flags_after_host_are_not_treated_as_herdr_flags() {
    let parsed = parse_mirror_args(&args(&["devbox", "--remote-herdr", "x"])).unwrap();
    assert_eq!(parsed.host, "devbox");
    assert_eq!(parsed.ssh_args, args(&["--remote-herdr", "x"]));
    assert_eq!(parsed.remote_herdr, "herdr");
}

#[test]
fn help_flag_requests_usage_zero() {
    assert_eq!(parse_mirror_args(&args(&["--help"])), Err(ParseOutcome::Usage(0)));
    assert_eq!(parse_mirror_args(&args(&["-h"])), Err(ParseOutcome::Usage(0)));
    assert_eq!(parse_mirror_args(&args(&["help"])), Err(ParseOutcome::Usage(0)));
}

#[test]
fn missing_host_is_usage_error() {
    assert_eq!(parse_mirror_args(&args(&[])), Err(ParseOutcome::Usage(2)));
}

#[test]
fn unknown_leading_flag_is_usage_error() {
    assert_eq!(
        parse_mirror_args(&args(&["--bogus", "devbox"])),
        Err(ParseOutcome::Usage(2))
    );
}

#[test]
fn missing_flag_value_is_usage_error() {
    assert_eq!(
        parse_mirror_args(&args(&["--remote-socket"])),
        Err(ParseOutcome::Usage(2))
    );
}

#[test]
fn extracts_socket_from_running_status_json() {
    let json = r#"{"status":"running","running":true,"socket":"/home/u/.config/herdr/herdr.sock","compatible":true}"#;
    let status = parse_status_json(json).unwrap();
    assert_eq!(status.socket, "/home/u/.config/herdr/herdr.sock");
    assert!(status.running);
    assert_eq!(status.compatible, Some(true));
}

#[test]
fn extracts_socket_when_server_not_running() {
    let json = r#"{"status":"not_running","running":false,"socket":"/home/u/.config/herdr/herdr.sock"}"#;
    let status = parse_status_json(json).unwrap();
    assert!(!status.running);
    assert_eq!(status.compatible, None);
}

#[test]
fn rejects_status_json_without_socket() {
    assert!(parse_status_json(r#"{"running":true}"#).is_err());
}

#[test]
fn rejects_non_json_status_output() {
    assert!(parse_status_json("herdr: command not found").is_err());
}

#[test]
fn complaints_name_the_argument() {
    let complaint = |values: &[&str]| scan_mirror_args(&args(values)).unwrap_err().complaint();
    assert_eq!(
        complaint(&["--remote-herdr"]),
        Some("missing value for --remote-herdr".to_string())
    );
    assert_eq!(complaint(&["-x"]), Some("unknown option: -x".to_string()));
    assert_eq!(complaint(&["--controlmaster"]), Some("missing <host>".to_string()));
    assert_eq!(complaint(&["--help"]), None);
    assert!(MIRROR_USAGE.starts_with("usage: herdr mirror <host>"));
}

#[test]
fn an_empty_word_is_a_host() {
    assert_eq!(parse_mirror_args(&args(&[""])).unwrap().host, "");
}

#[test]
fn status_errors_say_what_is_wrong() {
    assert_eq!(
        parse_status_json(r#"{"socket":7}"#),
        Err("status JSON missing `socket`".to_string())
    );
    assert_eq!(
        parse_status_json(r#"["socket"]"#),
        Err("status JSON missing `socket`".to_string())
    );
    assert_eq!(
        parse_status_json(r#"{"socket":""}"#),
        Err("remote reported an empty socket path".to_string())
    );
    let invalid = parse_status_json("{").unwrap_err();
    assert!(invalid.starts_with("invalid status JSON: "));
    assert!(invalid.contains("EOF"));
}

#[test]
fn status_ignores_space_around_it_and_flags_of_another_type() {
    let status = parse_status_json("\u{a0}\n {\"socket\":\"/s\",\"running\":\"yes\"} \r\n").unwrap();
    assert_eq!(
        status,
        RemoteServerStatus { socket: "/s".to_string(), running: false, compatible: None }
    );
    let later = parse_status_json(r#"{"socket":"/a","socket":"/b","running":true}"#).unwrap();
    assert_eq!(later.socket, "/b");
}

#[test]
fn members_make_a_status() {
    assert_eq!(
        status_from_members(Some("/s".to_string()), Some(true), Some(false)),
        Ok(RemoteServerStatus {
            socket: "/s".to_string(),
            running: true,
            compatible: Some(false),
        })
    );
    assert!(status_from_members(None, Some(true), None).is_err());
}

fn parsed(control_master: bool) -> MirrorArgs {
    MirrorArgs {
        host: "devbox".to_string(),
        ssh_args: args(&["-p", "2222"]),
        remote_herdr: "/opt/herdr".to_string(),
        remote_socket: None,
        control_master,
    }
}

#[test]
fn discovery_command_opens_the_shared_connection_only_when_asked() {
    assert_eq!(
        discovery_args(&parsed(false), None),
        args(&["-p", "2222", "devbox", "/opt/herdr", "status", "server", "--json"])
    );
    assert_eq!(
        discovery_args(&parsed(true), Some("/tmp/cm")),
        args(&[
            "-p",
            "2222",
            "-o",
            "ControlMaster=auto",
            "-o",
            "ControlPath=/tmp/cm",
            "-o",
            "ControlPersist=yes",
            "devbox",
            "/opt/herdr",
            "status",
            "server",
            "--json",
        ])
    );
}

#[test]
fn forward_command_forwards_both_sockets() {
    assert_eq!(
        forward_args(&parsed(true), "/l/a", "/r/a", "/l/c", "/r/c", Some("/tmp/cm")),
        args(&[
            "-p",
            "2222",
            "-o",
            "ControlPath=/tmp/cm",
            "-N",
            "-o",
            "ExitOnForwardFailure=yes",
            "-o",
            "ServerAliveInterval=15",
            "-L",
            "/l/a:/r/a",
            "-L",
            "/l/c:/r/c",
            "devbox",
        ])
    );
    assert_eq!(forward_args(&parsed(false), "a", "b", "c", "d", None).len(), 12);
    assert_eq!(forward_spec("x", "y"), "x:y");
}

#[test]
fn teardown_command_closes_the_shared_connection() {
    assert_eq!(
        teardown_args(&parsed(true), "/tmp/cm"),
        args(&["-p", "2222", "-o", "ControlPath=/tmp/cm", "-O", "exit", "devbox"])
    );
}

#[test]
fn file_names_carry_the_process() {
    assert_eq!(local_socket_name(4711), "herdr-mirror-4711.sock");
    assert_eq!(
        control_path_name(&parsed(true), 10),
        Some("herdr-mirror-cm-10-%h".to_string())
    );
    assert_eq!(control_path_name(&parsed(false), 10), None);
}

#[test]
fn discovery_reports_each_failure() {
    let failed = discover_remote_socket(&parsed(false), false, "", " no such file \n");
    assert_eq!(
        failed,
        Err("could not run `/opt/herdr status server --json` on devbox (is herdr installed there?): no such file".to_string())
    );
    let stopped =
        discover_remote_socket(&parsed(false), true, r#"{"socket":"/s","running":false}"#, "");
    assert_eq!(
        stopped,
        Err("no herdr server is running on devbox (start one there first)".to_string())
    );
    assert!(discover_remote_socket(&parsed(false), true, "nonsense", "").is_err());
}

#[test]
fn discovery_accepts_a_running_server_and_flags_another_protocol() {
    let found = discover_remote_socket(
        &parsed(false),
        true,
        r#"{"socket":"/s","running":true,"compatible":false}"#,
        "",
    );
    assert_eq!(found, Ok(Discovery { socket: "/s".to_string(), incompatible: true }));
    let status =
        RemoteServerStatus { socket: "/t".to_string(), running: true, compatible: Some(true) };
    assert_eq!(
        accept_status("devbox", Ok(status)),
        Ok(Discovery { socket: "/t".to_string(), incompatible: false })
    );
    assert_eq!(accept_status("devbox", Err("bad".to_string())), Err("bad".to_string()));
}

#[test]
fn a_given_socket_is_not_asked_for() {
    let mut given = parsed(false);
    given.remote_socket = Some("/run/herdr.sock".to_string());
    assert!(matches!(
        start_launch(&given, None),
        LaunchStep::Forward(path) if path == "/run/herdr.sock"
    ));
    assert!(matches!(
        start_launch(&parsed(false), None),
        LaunchStep::Discover(command) if command.len() == 7
    ));
}

#[test]
fn waiting_ends_with_the_socket_the_tunnel_or_the_deadline() {
    assert_eq!(wait_for_socket("/s", true, Some("exit 1"), true), WaitStep::Ready);
    assert_eq!(
        wait_for_socket("/s", false, Some("exit status: 255"), true),
        WaitStep::Failed("SSH tunnel exited before the socket was ready (exit status: 255); check the host and your SSH access".to_string())
    );
    assert_eq!(
        wait_for_socket("/s", false, None, true),
        WaitStep::Failed(
            "timed out waiting for the forwarded socket /s to become ready".to_string()
        )
    );
    assert_eq!(wait_for_socket("/s", false, None, false), WaitStep::Again);
}

#[test]
fn the_command_ends_with_the_code_of_the_mirror() {
    assert_eq!(command_result(Ok(Some(3))), (3, None));
    assert_eq!(command_result(Ok(None)), (1, None));
    assert_eq!(
        command_result(Err("broken".to_string())),
        (1, Some("herdr mirror: broken".to_string()))
    );
}
