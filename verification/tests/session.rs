use herdr_mirror::connection::{ClientError, DataStep, MirrorApply, MirrorConnectionManager, Outgoing};
use herdr_mirror::idmap::IdMap;
use herdr_mirror::local_mirror::EmulatorOp;
use herdr_mirror::pane::{
    InputState, MouseEvent, MouseEventKind, MouseProtocolEncoding, MouseProtocolMode, Rect,
};
use herdr_mirror::projection::{rebuild_app_state, AppState, IdSource, Mode, PaneId};
use herdr_mirror::protocol::{ClientMessage, MirrorEventKind, ServerMessage};
use herdr_mirror::pump::ClientLoopEvent;
use herdr_mirror::replica::SessionReplica;
use herdr_mirror::routing::{KeyFacts, KeyRoute, PaneBox};
use herdr_mirror::schema::{
    AgentStatus, EventData, EventEnvelope, EventKind, LayoutDescription, LayoutNode, LayoutPane,
    Method, NotificationKind, PaneInfo, SessionSnapshot, SplitDirection, TabInfo, WorkspaceInfo,
};
use herdr_mirror::session::{
    resync_plan, unreachable_message, AfterEvent, ControlAction, EventRoute, MirrorSession,
    MouseTarget, PasteRoute, SizeStep,
};

fn pane(pane_id: &str, terminal_id: &str, status: AgentStatus) -> PaneInfo {
    PaneInfo {
        pane_id: pane_id.into(),
        terminal_id: terminal_id.into(),
        workspace_id: "w1".into(),
        tab_id: "t1".into(),
        focused: false,
        cols: None,
        rows: None,
        cwd: None,
        foreground_cwd: None,
        label: None,
        agent: None,
        title: None,
        display_agent: None,
        agent_status: status,
        custom_status: None,
        state_labels: IdMap::new(),
        agent_session: None,
        scroll: None,
        revision: 0,
    }
}

fn replica_of(panes: Vec<PaneInfo>, focused_pane_id: Option<&str>) -> SessionReplica {
    SessionReplica::from_snapshot(SessionSnapshot {
        version: "test".into(),
        protocol: 1,
        focused_workspace_id: Some("w1".into()),
        focused_tab_id: Some("t1".into()),
        focused_pane_id: focused_pane_id.map(|id| id.to_string()),
        workspaces: vec![WorkspaceInfo {
            workspace_id: "w1".into(),
            number: 1,
            label: "w1".into(),
            focused: true,
            pane_count: panes.len(),
            tab_count: 1,
            active_tab_id: "t1".into(),
            agent_status: AgentStatus::Unknown,
            branch: None,
            git_ahead: None,
            git_behind: None,
            worktree: None,
        }],
        tabs: vec![TabInfo {
            tab_id: "t1".into(),
            workspace_id: "w1".into(),
            number: 1,
            label: "t1".into(),
            focused: true,
            pane_count: panes.len(),
            agent_status: AgentStatus::Unknown,
        }],
        panes,
        layouts: Vec::new(),
    })
}

fn leaf(pane_id: &str) -> LayoutNode {
    LayoutNode::Pane { pane: LayoutPane { pane_id: Some(pane_id.into()), cwd: None } }
}

fn run(data: &mut MirrorConnectionManager, step: DataStep) -> Result<(), ClientError> {
    let mut step = step;
    loop {
        step = match step {
            DataStep::Done(result) => return result,
            DataStep::CreateEmulator { then, .. } => data.emulator_built(then, Ok(())),
            DataStep::Connect { then, .. } => data.connected(then, Ok(())),
            DataStep::Send { then, .. } => data.sent(then, Ok(())),
        };
    }
}

/// A session with panes `p1` and `p2` side by side, the first one focused.
fn session(status: AgentStatus) -> MirrorSession {
    let replica = replica_of(
        vec![pane("p1", "ta", status), pane("p2", "tb", AgentStatus::Idle)],
        Some("p1"),
    );
    let mut data = MirrorConnectionManager::new("/run/x.sock".into(), 80, 24, 4096);
    for (terminal_id, writable) in MirrorSession::startup_opens(&replica) {
        let step = data.open(&terminal_id, writable);
        run(&mut data, step).unwrap();
    }
    let mut exports = IdMap::new();
    exports.insert(
        "t1".to_string(),
        LayoutDescription {
            root: LayoutNode::Split {
                direction: SplitDirection::Right,
                ratio: 0.5f32.to_bits(),
                first: Box::new(leaf("p1")),
                second: Box::new(leaf("p2")),
            },
            focused_pane_id: "p1".into(),
            zoomed: false,
        },
    );
    let mut state = AppState::empty(Mode::Terminal);
    let mut ids = IdSource { next_pane: 1, next_local: 1 };
    rebuild_app_state(&mut state, &replica, &exports, "/", &mut ids, false);
    MirrorSession::new(replica, data, state, 80, 24, 3)
}

fn boxes() -> Vec<PaneBox> {
    let at = |raw: u32, x: u16, is_focused: bool| PaneBox {
        id: PaneId { raw },
        rect: Rect { x, y: 0, width: 40, height: 24 },
        inner_rect: Rect { x: x + 1, y: 1, width: 38, height: 22 },
        is_focused,
    };
    vec![at(1, 0, true), at(2, 40, false)]
}

fn mouse(kind: MouseEventKind, column: u16, row: u16) -> MouseEvent {
    MouseEvent { kind, column, row, modifiers: 0 }
}

fn envelope(event: EventKind, data: EventData) -> EventEnvelope {
    EventEnvelope { event, data }
}

fn pending(session: &mut MirrorSession, terminal_id: &str) -> Vec<EmulatorOp> {
    session.data.runtime_mut(terminal_id).unwrap().take_pending()
}

#[test]
fn a_session_opens_every_terminal_and_one_writer() {
    let session = session(AgentStatus::Idle);
    assert_eq!(session.data.terminal_ids(), vec!["ta", "tb"]);
    assert!(session.data.is_writable("ta"));
    assert!(!session.data.is_writable("tb"));
    assert!(session.needs_redraw);
    assert_eq!(session.client_size, (80, 24));
}

#[test]
fn a_local_pane_names_its_public_pane_and_terminal() {
    let session = session(AgentStatus::Idle);
    assert_eq!(
        session.public_and_terminal_for_local_pane(PaneId { raw: 2 }),
        Some(("p2".to_string(), "tb".to_string()))
    );
    assert_eq!(session.public_and_terminal_for_local_pane(PaneId { raw: 9 }), None);
    assert!(session.is_visible_terminal("tb", &boxes()));
    assert!(!session.is_visible_terminal("tb", &boxes()[..1].to_vec()));
    assert!(!session.is_visible_terminal("ghost", &boxes()));
}

#[test]
fn output_on_the_screen_is_drawn() {
    let mut session = session(AgentStatus::Idle);
    session.needs_redraw = false;
    let output = || ServerMessage::MirrorEvent {
        seq: 1,
        kind: MirrorEventKind::Output(b"x".to_vec()),
    };
    let (_, redraw) = session.apply_mirror("tb", output(), Ok(()), &boxes()[..1].to_vec());
    assert!(!redraw);
    assert!(!session.needs_redraw);
    let (_, redraw) = session.apply_mirror("tb", output(), Ok(()), &boxes());
    assert!(redraw);
    assert!(session.needs_redraw);
    session.needs_redraw = false;
    let resize = ServerMessage::MirrorEvent {
        seq: 2,
        kind: MirrorEventKind::Resize { cols: 10, rows: 10 },
    };
    let (_, redraw) = session.apply_mirror("tb", resize, Ok(()), &Vec::new());
    assert!(redraw);
    let (applied, redraw) = session.apply_mirror("ghost", output(), Ok(()), &boxes());
    assert_eq!((applied, redraw), (MirrorApply::Unknown, false));
}

#[test]
fn the_focused_pane_drives_its_size_once() {
    let mut session = session(AgentStatus::Idle);
    let SizeStep::Drive { outgoing, forwarded } = session.sync_focused_pane_size(&boxes()) else {
        panic!("expected a size");
    };
    assert_eq!(forwarded, ("ta".to_string(), 38, 22));
    assert_eq!(
        outgoing,
        Outgoing {
            terminal_id: "ta".to_string(),
            message: ClientMessage::Resize {
                cols: 38,
                rows: 22,
                cell_width_px: 0,
                cell_height_px: 0
            },
        }
    );
    session.size_forwarded(forwarded);
    assert!(matches!(session.sync_focused_pane_size(&boxes()), SizeStep::Idle));
    // The echo settles the size.
    let echo = ServerMessage::MirrorEvent {
        seq: 1,
        kind: MirrorEventKind::Resize { cols: 38, rows: 22 },
    };
    session.apply_mirror("ta", echo, Ok(()), &boxes());
    assert!(matches!(session.sync_focused_pane_size(&boxes()), SizeStep::Idle));
    assert_eq!(session.last_forwarded_pane_size, None);
    assert!(matches!(session.sync_focused_pane_size(&Vec::new()), SizeStep::Idle));
}

#[test]
fn keys_reach_the_focused_terminal_and_reset_its_viewport() {
    let mut session = session(AgentStatus::Idle);
    session.needs_redraw = false;
    assert_eq!(session.forward_key(Vec::new()), None);
    assert!(!session.needs_redraw);
    let sent = session.forward_key(b"l".to_vec()).unwrap();
    assert_eq!(sent.terminal_id, "ta");
    assert_eq!(sent.message, ClientMessage::Input { data: b"l".to_vec() });
    assert!(session.needs_redraw);
    assert_eq!(pending(&mut session, "ta"), vec![EmulatorOp::ScrollReset]);
    assert_eq!(pending(&mut session, "tb"), Vec::new());
}

#[test]
fn the_prefix_menu_is_a_mode_of_the_session() {
    let mut session = session(AgentStatus::Idle);
    session.needs_redraw = false;
    let letter = KeyFacts {
        is_prefix: false,
        released: false,
        modifier_only: false,
        escape: false,
        page_up: None,
        direct_action: false,
        prefix_action: false,
    };
    assert_eq!(session.handle_key(letter, None), KeyRoute::Forward);
    assert!(!session.needs_redraw);
    let prefix = KeyFacts { is_prefix: true, ..letter };
    assert_eq!(session.handle_key(prefix, None), KeyRoute::ArmPrefix);
    assert_eq!(session.state.mode, Mode::Prefix);
    assert!(session.needs_redraw);
    let released = KeyFacts { released: true, ..letter };
    assert_eq!(session.handle_key(released, None), KeyRoute::Ignore);
    assert_eq!(session.state.mode, Mode::Prefix);
    assert_eq!(session.handle_key(letter, None), KeyRoute::LeavePrefix);
    assert_eq!(session.state.mode, Mode::Terminal);
}

#[test]
fn pastes_go_to_the_overlay_or_the_pane() {
    let mut session = session(AgentStatus::Idle);
    session.state.mode = Mode::Overlay;
    assert!(matches!(session.forward_paste("x", None), PasteRoute::Overlay));
    session.state.mode = Mode::Terminal;
    let asks = InputState {
        alternate_screen: false,
        application_cursor: false,
        bracketed_paste: true,
        focus_reporting: false,
        mouse_protocol_mode: MouseProtocolMode::Off,
        mouse_protocol_encoding: MouseProtocolEncoding::Default,
        mouse_alternate_scroll: false,
        modify_other_keys: false,
    };
    let PasteRoute::Pane(Some(sent)) = session.forward_paste("hi", Some(asks)) else {
        panic!("expected a message");
    };
    assert_eq!(
        sent.message,
        ClientMessage::Input { data: b"\x1b[200~hi\x1b[201~".to_vec() }
    );
    assert_eq!(sent.terminal_id, "ta");
}

#[test]
fn the_mouse_lands_on_a_pane_or_on_none() {
    let session = session(AgentStatus::Idle);
    let MouseTarget::Pane { pane_id, terminal_id, mirrored, takes_focus, target } =
        session.mouse_target(mouse(MouseEventKind::ScrollUp, 45, 5), &boxes())
    else {
        panic!("expected a pane");
    };
    assert_eq!((pane_id.as_str(), terminal_id.as_str()), ("p2", "tb"));
    assert!(mirrored && takes_focus);
    assert_eq!(target.id, PaneId { raw: 2 });
    assert!(matches!(
        session.mouse_target(mouse(MouseEventKind::Moved, 90, 5), &boxes()),
        MouseTarget::NoPane { focused: Some((id, true)) } if id == "ta"
    ));
    let strange = vec![PaneBox { id: PaneId { raw: 77 }, ..boxes()[0] }];
    assert!(matches!(
        session.mouse_target(mouse(MouseEventKind::Moved, 5, 5), &strange),
        MouseTarget::Unknown
    ));
}

#[test]
fn a_click_moves_the_focus_and_a_wheel_burst_asks_once() {
    let mut session = session(AgentStatus::Idle);
    let (step, method) = session.focus_pane_for_input("p2".into(), "tb").unwrap();
    assert_eq!(method, Method::PaneFocus { pane_id: "p2".into() });
    run(&mut session.data, step).unwrap();
    assert_eq!(session.data.focused(), Some("tb"));
    assert!(session.data.is_writable("tb"));
    assert!(!session.data.is_writable("ta"));
    assert!(session.focus_pane_for_input("p2".into(), "tb").is_none());
}

#[test]
fn mouse_reports_reset_the_viewport_where_asked() {
    let mut session = session(AgentStatus::Idle);
    session.needs_redraw = false;
    assert_eq!(session.forward_report("ta", None, true), None);
    assert!(!session.needs_redraw);
    assert!(session.forward_report("ta", Some(b"m".to_vec()), false).is_some());
    assert_eq!(pending(&mut session, "ta"), Vec::new());
    assert!(session.forward_report("ta", Some(b"m".to_vec()), true).is_some());
    assert_eq!(pending(&mut session, "ta"), vec![EmulatorOp::ScrollReset]);
    assert_eq!(session.forward_report("tb", Some(b"m".to_vec()), true), None);
    assert!(session.needs_redraw);
}

#[test]
fn scrolling_is_local() {
    let mut session = session(AgentStatus::Idle);
    session.needs_redraw = false;
    session.scroll_terminal("ghost", true, 3);
    assert!(!session.needs_redraw);
    session.scroll_focused(true, 22);
    session.scroll_terminal("ta", false, 3);
    assert!(session.needs_redraw);
    assert_eq!(
        pending(&mut session, "ta"),
        vec![EmulatorOp::ScrollUp(22), EmulatorOp::ScrollDown(3)]
    );
}

#[test]
fn a_burst_of_events_is_projected_once() {
    let mut session = session(AgentStatus::Idle);
    session.needs_redraw = false;
    let plan = session.handle_control_events(vec![
        envelope(
            EventKind::PaneCreated,
            EventData::PaneCreated { pane: pane("p3", "tc", AgentStatus::Idle) },
        ),
        envelope(
            EventKind::PaneFocused,
            EventData::PaneFocused { pane_id: "p3".into(), workspace_id: "w1".into() },
        ),
        envelope(
            EventKind::PaneClosed,
            EventData::PaneClosed { pane_id: "p2".into(), workspace_id: "w1".into() },
        ),
    ]);
    assert!(plan.reproject && plan.redraw && session.needs_redraw);
    assert_eq!(plan.actions.len(), 3);
    assert!(matches!(&plan.actions[0], ControlAction::Open { terminal_id } if terminal_id == "tc"));
    assert!(matches!(
        &plan.actions[1],
        ControlAction::Focus { terminal_id: Some(id) } if id == "tc"
    ));
    assert!(matches!(&plan.actions[2], ControlAction::Close { terminal_id } if terminal_id == "tb"));
    assert_eq!(session.replica.terminal_ids(), vec!["ta", "tc"]);
}

#[test]
fn output_events_and_toasts_leave_the_structure_alone() {
    let mut session = session(AgentStatus::Idle);
    session.needs_redraw = false;
    let plan = session.handle_control_events(vec![envelope(
        EventKind::PaneOutputChanged,
        EventData::PaneOutputChanged {
            pane_id: "p1".into(),
            workspace_id: "w1".into(),
            revision: 1,
        },
    )]);
    assert!(!plan.reproject && !plan.redraw && !session.needs_redraw);
    let plan = session.handle_control_events(vec![envelope(
        EventKind::NotificationShown,
        EventData::NotificationShown {
            kind: NotificationKind::NeedsAttention,
            title: "look".into(),
            context: "here".into(),
            workspace_id: None,
            pane_id: None,
        },
    )]);
    assert!(!plan.reproject && plan.redraw && session.needs_redraw);
    assert!(matches!(&plan.actions[0], ControlAction::Toast { title, .. } if title == "look"));
}

#[test]
fn a_resync_closes_opens_and_refocuses() {
    let mut session = session(AgentStatus::Idle);
    let rebuilt = replica_of(
        vec![pane("p2", "tb", AgentStatus::Idle), pane("p5", "te", AgentStatus::Idle)],
        Some("p5"),
    );
    let plan = resync_plan(&session.data, &rebuilt);
    assert_eq!(plan.close, vec!["ta"]);
    assert_eq!(plan.open, vec![("te".to_string(), true)]);
    assert_eq!(plan.show, vec!["tb", "te"]);
    assert_eq!(plan.focus.as_deref(), Some("te"));
    session.needs_redraw = false;
    let same = session.resync(rebuilt);
    assert_eq!(same.open, plan.open);
    assert!(session.needs_redraw);
    assert_eq!(session.replica.terminal_ids(), vec!["tb", "te"]);
    assert_eq!(session.unregistered(&vec!["tb".to_string()]), vec!["ta"]);
}

#[test]
fn the_spinner_turns_only_while_an_agent_works() {
    let mut idle = session(AgentStatus::Idle);
    idle.needs_redraw = false;
    idle.tick_animation();
    assert_eq!(idle.spinner_tick, 0);
    assert!(!idle.needs_redraw);
    let mut working = session(AgentStatus::Working);
    working.needs_redraw = false;
    working.spinner_tick = u32::MAX;
    assert!(matches!(working.on_event(ClientLoopEvent::Timer), EventRoute::Done));
    assert_eq!(working.spinner_tick, 0);
    assert!(working.needs_redraw);
}

#[test]
fn every_event_has_its_route() {
    let mut session = session(AgentStatus::Idle);
    assert!(matches!(
        session.on_event(ClientLoopEvent::StdinInput(b"x".to_vec())),
        EventRoute::Input(data) if data == b"x".to_vec()
    ));
    assert!(matches!(
        session.on_event(ClientLoopEvent::Resize(120, 0, 9, 18)),
        EventRoute::Done
    ));
    assert_eq!(session.client_size, (120, 0));
    assert_eq!(session.data.viewport(), (120, 1));
    assert!(matches!(
        session.on_event(ClientLoopEvent::ServerMirror {
            terminal_id: "ta".into(),
            msg: ServerMessage::ReloadSoundConfig,
        }),
        EventRoute::Mirror { terminal_id, .. } if terminal_id == "ta"
    ));
    assert!(matches!(
        session.on_event(ClientLoopEvent::ServerMirrorDisconnected { terminal_id: "ta".into() }),
        EventRoute::Reconnect(Some(DataStep::Connect { .. }))
    ));
    assert!(!session.data.is_connected("ta"));
    assert!(matches!(
        session.on_event(ClientLoopEvent::ServerMirrorDisconnected { terminal_id: "z".into() }),
        EventRoute::Reconnect(None)
    ));
    assert!(matches!(
        session.on_event(ClientLoopEvent::ControlDisconnected),
        EventRoute::Resync
    ));
    assert!(matches!(session.on_event(ClientLoopEvent::ServerDisconnected), EventRoute::Done));
    assert!(matches!(
        session.on_event(ClientLoopEvent::ServerMessage(ServerMessage::ReloadSoundConfig)),
        EventRoute::Done
    ));
    let focus = envelope(
        EventKind::PaneFocused,
        EventData::PaneFocused { pane_id: "p2".into(), workspace_id: "w1".into() },
    );
    assert!(matches!(
        session.on_event(ClientLoopEvent::ControlEvent(Box::new(focus))),
        EventRoute::Control(_)
    ));
}

#[test]
fn after_an_event_the_loop_stops_draws_or_waits() {
    let mut session = session(AgentStatus::Idle);
    assert_eq!(session.after_event(true, false), AfterEvent::Stop);
    assert_eq!(session.after_event(false, true), AfterEvent::Stop);
    assert!(session.needs_redraw);
    assert_eq!(session.after_event(false, false), AfterEvent::Draw);
    assert!(!session.needs_redraw);
    assert_eq!(session.after_event(false, false), AfterEvent::Wait);
}

#[test]
fn an_unreachable_server_is_named_clearly() {
    assert_eq!(
        unreachable_message("refused"),
        "herdr --mirror: could not connect to a herdr server (refused). Is one running?"
    );
}

#[test]
fn a_plan_keeps_one_connection_per_terminal() {
    let mut session = session(AgentStatus::Idle);
    let created = |pane_id: &str, terminal_id: &str| {
        envelope(
            EventKind::PaneCreated,
            EventData::PaneCreated { pane: pane(pane_id, terminal_id, AgentStatus::Idle) },
        )
    };
    let plan = session.handle_control_events(vec![
        created("p3", "tc"),
        envelope(
            EventKind::WorkspaceClosed,
            EventData::WorkspaceClosed { workspace_id: "w1".into(), workspace: None },
        ),
        created("p4", "td"),
    ]);
    for action in plan.actions {
        match action {
            ControlAction::Open { terminal_id } => {
                let step = session.data.open(&terminal_id, false);
                run(&mut session.data, step).unwrap();
            }
            ControlAction::Close { terminal_id } => {
                session.data.close(&terminal_id);
            }
            ControlAction::Focus { terminal_id } => {
                let step = session.data.set_focus(terminal_id.as_deref());
                run(&mut session.data, step).unwrap();
            }
            ControlAction::Toast { .. } => {}
        }
    }
    assert_eq!(session.data.terminal_ids(), session.replica.terminal_ids());
    assert_eq!(session.data.terminal_ids(), vec!["td"]);
}

#[test]
fn a_size_is_not_taken_as_forwarded_without_a_writer() {
    let mut session = session(AgentStatus::Idle);
    let step = session.data.reconnect("ta").unwrap();
    assert!(matches!(session.sync_focused_pane_size(&boxes()), SizeStep::Idle));
    assert_eq!(session.last_forwarded_pane_size, None);
    run(&mut session.data, step).unwrap();
    assert!(matches!(session.sync_focused_pane_size(&boxes()), SizeStep::Drive { .. }));
}
