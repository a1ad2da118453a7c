use herdr_mirror::connection::{
    AfterSend, ClientError, DataStep, MirrorApply, MirrorConnectionManager, Outgoing,
};
use herdr_mirror::local_mirror::{EmulatorOp, EmulatorSpec, MirrorApplyOutcome};
use herdr_mirror::protocol::{ClientMessage, MirrorEventKind, ServerMessage};

fn empty_manager() -> MirrorConnectionManager {
    MirrorConnectionManager::new("/nonexistent/herdr-client.sock".to_string(), 80, 24, 64 * 1024)
}

/// Carries out the steps of an operation. Every emulator is built and every write
/// succeeds; `connect` says how a connection ends.
fn drive(
    manager: &mut MirrorConnectionManager,
    step: DataStep,
    connect: Result<(), ClientError>,
    written: &mut Vec<Outgoing>,
) -> Result<(), ClientError> {
    let mut step = step;
    loop {
        step = match step {
            DataStep::Done(result) => return result,
            DataStep::CreateEmulator { then, .. } => manager.emulator_built(then, Ok(())),
            DataStep::Connect { then, .. } => manager.connected(then, connect.clone()),
            DataStep::Send { outgoing, then } => {
                written.push(outgoing);
                manager.sent(then, Ok(()))
            }
        };
    }
}

/// A manager whose terminals have mirrors and no connections.
fn manager_with_terminals(terminals: &[&str]) -> MirrorConnectionManager {
    let mut manager = empty_manager();
    for terminal_id in terminals {
        let step = manager.open(terminal_id, false);
        let refused = Err(ClientError::ConnectionFailed("no server".to_string()));
        assert!(drive(&mut manager, step, refused, &mut Vec::new()).is_err());
        assert!(manager.runtime(terminal_id).is_some());
        assert!(!manager.is_connected(terminal_id));
    }
    manager
}

fn insert_live_connection(
    manager: &mut MirrorConnectionManager,
    terminal_id: &str,
    writable: bool,
) {
    let step = manager.open(terminal_id, writable);
    drive(manager, step, Ok(()), &mut Vec::new()).unwrap();
}

fn set_focus(
    manager: &mut MirrorConnectionManager,
    terminal_id: Option<&str>,
) -> Result<(), ClientError> {
    let step = manager.set_focus(terminal_id);
    drive(manager, step, Ok(()), &mut Vec::new())
}

fn writable_count(manager: &MirrorConnectionManager) -> usize {
    manager.terminal_ids().iter().filter(|id| manager.is_writable(id)).count()
}

fn apply(
    manager: &mut MirrorConnectionManager,
    terminal_id: &str,
    msg: ServerMessage,
) -> MirrorApply {
    manager.apply(terminal_id, msg, Ok(()))
}

fn fed(manager: &mut MirrorConnectionManager, terminal_id: &str) -> String {
    let mut bytes = Vec::new();
    for op in manager.runtime_mut(terminal_id).unwrap().take_pending() {
        if let EmulatorOp::Feed(more) = op {
            bytes.extend(more);
        }
    }
    String::from_utf8(bytes).unwrap()
}

#[test]
fn apply_routes_snapshot_and_output_to_the_right_emulator() {
    let mut manager = manager_with_terminals(&["term_a", "term_b"]);

    assert!(matches!(
        apply(
            &mut manager,
            "term_a",
            ServerMessage::MirrorSnapshot { base_seq: 0, cols: 80, rows: 24 },
        ),
        MirrorApply::Applied(_)
    ));
    apply(
        &mut manager,
        "term_a",
        ServerMessage::MirrorEvent {
            seq: 1,
            kind: MirrorEventKind::Output(b"hello from a".to_vec()),
        },
    );
    apply(
        &mut manager,
        "term_b",
        ServerMessage::MirrorSnapshot { base_seq: 0, cols: 80, rows: 24 },
    );
    apply(
        &mut manager,
        "term_b",
        ServerMessage::MirrorEvent {
            seq: 1,
            kind: MirrorEventKind::Output(b"greetings from b".to_vec()),
        },
    );

    let a = fed(&mut manager, "term_a");
    let b = fed(&mut manager, "term_b");
    assert!(a.contains("hello from a"));
    assert!(!a.contains("greetings from b"));
    assert!(b.contains("greetings from b"));
}

#[test]
fn apply_reports_close_and_ignores_unknown_terminal() {
    let mut manager = manager_with_terminals(&["term_a"]);
    apply(
        &mut manager,
        "term_a",
        ServerMessage::MirrorSnapshot { base_seq: 0, cols: 80, rows: 24 },
    );

    let closed = apply(
        &mut manager,
        "term_a",
        ServerMessage::MirrorEvent { seq: 1, kind: MirrorEventKind::Closed { reason: None } },
    );
    assert!(matches!(
        closed,
        MirrorApply::Applied(MirrorApplyOutcome { closed: true, .. })
    ));

    assert_eq!(
        apply(
            &mut manager,
            "ghost",
            ServerMessage::MirrorEvent {
                seq: 1,
                kind: MirrorEventKind::Output(b"x".to_vec()),
            },
        ),
        MirrorApply::Unknown
    );
}

#[test]
fn apply_ignores_non_mirror_messages() {
    let mut manager = manager_with_terminals(&["term_a"]);
    assert_eq!(
        apply(&mut manager, "term_a", ServerMessage::ReloadSoundConfig),
        MirrorApply::NotMirror
    );
}

#[test]
fn resume_from_tracks_last_applied_sequence() {
    let mut manager = manager_with_terminals(&["term_a"]);
    apply(
        &mut manager,
        "term_a",
        ServerMessage::MirrorSnapshot { base_seq: 5, cols: 80, rows: 24 },
    );
    apply(
        &mut manager,
        "term_a",
        ServerMessage::MirrorEvent { seq: 6, kind: MirrorEventKind::Output(b"more".to_vec()) },
    );
    assert_eq!(manager.runtime("term_a").unwrap().last_seq(), Some(6));
    let Some(DataStep::Connect { request, .. }) = manager.reconnect("term_a") else {
        panic!("expected a connection");
    };
    assert_eq!(request.resume_from, Some(6));
    assert_eq!((request.cols, request.rows), (80, 24));
    assert_eq!(request.socket_path, "/nonexistent/herdr-client.sock");
    assert!(!request.writable);
}

#[test]
fn close_forgets_runtime_and_clears_focus() {
    let mut manager = manager_with_terminals(&["term_a", "term_b"]);
    set_focus(&mut manager, Some("term_a")).unwrap();

    assert_eq!(manager.close("term_a"), None);
    assert!(manager.runtime("term_a").is_none());
    assert!(manager.runtime("term_b").is_some());
    assert_eq!(manager.focused(), None);
}

#[test]
fn set_focus_is_a_noop_when_focus_is_unchanged() {
    let mut manager = manager_with_terminals(&["term_a"]);
    set_focus(&mut manager, Some("term_a")).unwrap();
    assert!(matches!(manager.set_focus(Some("term_a")), DataStep::Done(Ok(()))));
    assert_eq!(manager.focused(), Some("term_a"));
}

#[test]
fn forward_input_without_focus_is_dropped() {
    let manager = manager_with_terminals(&["term_a"]);
    assert_eq!(manager.forward_input(b"ls\n".to_vec()), None);
}

#[test]
fn set_focus_moves_the_single_writable_bit_to_the_new_focus() {
    let mut manager = manager_with_terminals(&["a", "b"]);
    insert_live_connection(&mut manager, "a", true);
    insert_live_connection(&mut manager, "b", false);
    assert_eq!(manager.focused(), Some("a"));

    set_focus(&mut manager, Some("b")).unwrap();

    assert_eq!(manager.focused(), Some("b"));
    assert!(manager.is_writable("b"), "new focus is promoted to writable");
    assert!(!manager.is_writable("a"), "old focus is demoted to read-only");
    assert_eq!(
        writable_count(&manager),
        1,
        "exactly one writable connection after the handoff"
    );
}

#[test]
fn forward_resize_only_writes_to_the_focused_writable_connection() {
    let mut manager = manager_with_terminals(&["a", "b"]);
    insert_live_connection(&mut manager, "a", true);

    // The demotion is not written, so the connection stays a writer without focus.
    let _ = manager.set_focus(None);
    assert_eq!(manager.focused(), None);
    assert!(manager.is_writable("a"));
    assert_eq!(manager.forward_resize(40, 12), None);

    set_focus(&mut manager, Some("a")).unwrap();
    assert_eq!(
        manager.forward_resize(40, 12),
        Some(Outgoing {
            terminal_id: "a".to_string(),
            message: ClientMessage::Resize {
                cols: 40,
                rows: 12,
                cell_width_px: 0,
                cell_height_px: 0,
            },
        })
    );
    assert!(matches!(
        manager.forward_resize(0, 0),
        Some(Outgoing { message: ClientMessage::Resize { cols: 1, rows: 1, .. }, .. })
    ));

    // Focused before it was connected, and connected as a reader.
    set_focus(&mut manager, Some("b")).unwrap();
    insert_live_connection(&mut manager, "b", false);
    assert_eq!(manager.focused(), Some("b"));
    assert_eq!(manager.forward_resize(40, 12), None);
}

#[test]
fn set_viewport_does_not_touch_connections() {
    let mut manager = manager_with_terminals(&["a"]);
    insert_live_connection(&mut manager, "a", true);
    manager.set_viewport(120, 40);
    assert_eq!(manager.viewport(), (120, 40));
    assert!(manager.is_writable("a"));
    manager.set_viewport(0, 0);
    assert_eq!(manager.viewport(), (1, 1));
}

#[test]
fn set_focus_none_demotes_the_writable_connection() {
    let mut manager = manager_with_terminals(&["a"]);
    insert_live_connection(&mut manager, "a", true);

    set_focus(&mut manager, None).unwrap();

    assert_eq!(manager.focused(), None);
    assert!(!manager.is_writable("a"));
    assert_eq!(writable_count(&manager), 0);
}

#[test]
fn a_handover_asks_the_new_writer_first() {
    let mut manager = manager_with_terminals(&["a", "b"]);
    insert_live_connection(&mut manager, "a", true);
    insert_live_connection(&mut manager, "b", false);
    manager.apply(
        "b",
        ServerMessage::MirrorSnapshot { base_seq: 9, cols: 80, rows: 24 },
        Ok(()),
    );
    let step = manager.set_focus(Some("b"));
    let mut written = Vec::new();
    drive(&mut manager, step, Ok(()), &mut written).unwrap();
    assert_eq!(
        written,
        vec![
            Outgoing {
                terminal_id: "b".to_string(),
                message: ClientMessage::MirrorTerminal {
                    target: "b".to_string(),
                    resume_from: Some(9),
                    writable: true,
                },
            },
            Outgoing {
                terminal_id: "a".to_string(),
                message: ClientMessage::MirrorTerminal {
                    target: "a".to_string(),
                    resume_from: None,
                    writable: false,
                },
            },
        ]
    );
}

#[test]
fn both_write_between_the_two_steps_of_a_handover() {
    let mut manager = manager_with_terminals(&["a", "b"]);
    insert_live_connection(&mut manager, "a", true);
    insert_live_connection(&mut manager, "b", false);
    let DataStep::Send { then, .. } = manager.set_focus(Some("b")) else {
        panic!("expected a write");
    };
    assert!(matches!(&then, AfterSend::Promote { terminal_id, .. } if terminal_id == "b"));
    let DataStep::Send { then, .. } = manager.sent(then, Ok(())) else {
        panic!("expected a write");
    };
    assert!(matches!(&then, AfterSend::Demote { terminal_id } if terminal_id == "a"));
    assert!(manager.is_writable("a"));
    assert!(manager.is_writable("b"));
}

#[test]
fn a_write_that_fails_loses_the_focus() {
    let mut manager = manager_with_terminals(&["a", "b"]);
    insert_live_connection(&mut manager, "a", true);
    insert_live_connection(&mut manager, "b", false);
    let DataStep::Send { then, .. } = manager.set_focus(Some("b")) else {
        panic!("expected a write");
    };
    let DataStep::Done(result) = manager.sent(then, Err("broken pipe".to_string())) else {
        panic!("expected the end");
    };
    assert_eq!(result, Err(ClientError::ConnectionLost("broken pipe".to_string())));
    assert_eq!(manager.focused(), None);
    assert!(!manager.is_writable("b"));
}

#[test]
fn opening_a_writer_demotes_the_former_one() {
    let mut manager = empty_manager();
    insert_live_connection(&mut manager, "a", true);
    insert_live_connection(&mut manager, "b", true);
    assert_eq!(manager.focused(), Some("b"));
    assert_eq!(writable_count(&manager), 1);
    // A terminal that is open only takes the focus.
    insert_live_connection(&mut manager, "a", true);
    assert_eq!(manager.focused(), Some("a"));
    assert_eq!(writable_count(&manager), 1);
    insert_live_connection(&mut manager, "b", false);
    assert_eq!(manager.focused(), Some("a"));
}

#[test]
fn opening_builds_an_emulator_of_the_viewport_size() {
    let mut manager = empty_manager();
    let DataStep::CreateEmulator { spec, then } = manager.open("a", true) else {
        panic!("expected an emulator");
    };
    assert_eq!(spec, EmulatorSpec { cols: 80, rows: 24, scrollback_bytes: 64 * 1024 });
    let DataStep::Done(result) = manager.emulator_built(then, Err("no memory".to_string())) else {
        panic!("expected the end");
    };
    assert_eq!(result, Err(ClientError::ConnectionFailed("no memory".to_string())));
    assert!(manager.runtime("a").is_none());
    assert_eq!(manager.focused(), None);
}

#[test]
fn the_terminals_are_opened_in_turn() {
    let ids = vec!["a".to_string(), "b".to_string()];
    assert_eq!(
        MirrorConnectionManager::open_all(&ids, Some("b")),
        vec![("a".to_string(), false), ("b".to_string(), true)]
    );
    assert_eq!(
        MirrorConnectionManager::open_all(&ids, None),
        vec![("a".to_string(), false), ("b".to_string(), false)]
    );
}

#[test]
fn closing_a_connection_detaches_it() {
    let mut manager = empty_manager();
    insert_live_connection(&mut manager, "a", true);
    insert_live_connection(&mut manager, "b", false);
    assert_eq!(manager.close("b"), Some(ClientMessage::Detach));
    assert_eq!(manager.focused(), Some("a"));
    assert_eq!(manager.terminal_ids(), vec!["a"]);
}

#[test]
fn a_closed_terminal_is_not_connected_again() {
    let mut manager = empty_manager();
    insert_live_connection(&mut manager, "a", true);
    manager.close("a");
    assert!(manager.reconnect("a").is_none());
}

#[test]
fn the_focused_terminal_reconnects_as_the_writer() {
    let mut manager = empty_manager();
    insert_live_connection(&mut manager, "a", true);
    let Some(DataStep::Connect { request, then }) = manager.reconnect("a") else {
        panic!("expected a connection");
    };
    assert!(request.writable);
    assert!(!manager.is_connected("a"));
    assert!(matches!(manager.connected(then, Ok(())), DataStep::Done(Ok(()))));
    assert!(manager.is_writable("a"));
}

#[test]
fn input_reaches_only_a_writer() {
    let mut manager = empty_manager();
    insert_live_connection(&mut manager, "a", true);
    insert_live_connection(&mut manager, "b", false);
    let to_a = Some(Outgoing {
        terminal_id: "a".to_string(),
        message: ClientMessage::Input { data: b"x".to_vec() },
    });
    assert_eq!(manager.forward_input(b"x".to_vec()), to_a);
    assert_eq!(manager.forward_input_to("a", b"x".to_vec()), to_a);
    assert_eq!(manager.forward_input_to("b", b"x".to_vec()), None);
    assert_eq!(manager.forward_input_to("ghost", b"x".to_vec()), None);
}

#[test]
fn a_snapshot_names_the_emulator_it_needs() {
    let mut manager = manager_with_terminals(&["a"]);
    let snapshot = || ServerMessage::MirrorSnapshot { base_seq: 3, cols: 0, rows: 9 };
    assert_eq!(
        manager.emulator_for("a", &snapshot()),
        Some(EmulatorSpec { cols: 1, rows: 9, scrollback_bytes: 64 * 1024 })
    );
    assert_eq!(manager.emulator_for("ghost", &snapshot()), None);
    assert_eq!(manager.emulator_for("a", &ServerMessage::ReloadSoundConfig), None);
    assert_eq!(
        manager.apply("a", snapshot(), Err("no memory".to_string())),
        MirrorApply::Applied(MirrorApplyOutcome::default())
    );
    assert_eq!(manager.runtime("a").unwrap().last_seq(), None);
}

#[test]
fn an_older_event_does_not_move_the_resume_point_back() {
    let mut manager = manager_with_terminals(&["term_a"]);
    for (seq, text) in [(7, "new"), (4, "old")] {
        apply(
            &mut manager,
            "term_a",
            ServerMessage::MirrorEvent {
                seq,
                kind: MirrorEventKind::Output(text.as_bytes().to_vec()),
            },
        );
    }
    let Some(DataStep::Connect { request, .. }) = manager.reconnect("term_a") else {
        panic!("expected a connection");
    };
    assert_eq!(request.resume_from, Some(7));
}
