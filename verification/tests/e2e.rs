use herdr_mirror::control::JsonApiClient;
use herdr_mirror::idmap::IdMap;
use herdr_mirror::replica::{ReplicaChange, SessionReplica};
use herdr_mirror::schema::{
    AgentStatus, EventData, EventEnvelope, EventKind, Method, PaneInfo, PaneLayoutRect,
    PaneLayoutSnapshot, ResponseResult, SessionSnapshot, TabInfo, WorkspaceInfo,
};
use herdr_mirror::terminal_state::{
    project_pane_metadata, AgentMetadataReport, AgentState, TerminalId, TerminalState,
};

/// What a server knows of one of its terminals.
fn server_terminal(name: &str) -> TerminalState {
    TerminalState::new(TerminalId::Named(name.to_string()), "/".to_string())
}

/// The pane record that a server makes of one of its terminals.
fn pane_record(pane_id: &str, tab_id: &str, terminal: &TerminalState) -> PaneInfo {
    let TerminalId::Named(terminal_id) = &terminal.id else {
        panic!("a terminal exists");
    };
    let presentation = terminal.effective_presentation();
    PaneInfo {
        pane_id: pane_id.into(),
        terminal_id: terminal_id.clone(),
        workspace_id: "w1".into(),
        tab_id: tab_id.into(),
        focused: pane_id == "p1",
        cols: Some(80),
        rows: Some(24),
        cwd: Some("/".into()),
        foreground_cwd: None,
        label: terminal.manual_label.clone(),
        agent: terminal.agent_name.clone(),
        title: presentation.title.clone(),
        display_agent: presentation.display_agent.clone(),
        agent_status: match terminal.state {
            AgentState::Idle => AgentStatus::Idle,
            AgentState::Working => AgentStatus::Working,
            AgentState::Blocked => AgentStatus::Blocked,
            AgentState::Unknown => AgentStatus::Unknown,
        },
        custom_status: presentation.custom_status.clone(),
        state_labels: presentation.state_labels.copied(),
        agent_session: None,
        scroll: None,
        revision: 0,
    }
}

fn tab(tab_id: &str, number: usize) -> TabInfo {
    TabInfo {
        tab_id: tab_id.into(),
        workspace_id: "w1".into(),
        number,
        label: number.to_string(),
        focused: number == 1,
        pane_count: 1,
        agent_status: AgentStatus::Unknown,
    }
}

fn layout(tab_id: &str, pane_id: &str) -> PaneLayoutSnapshot {
    PaneLayoutSnapshot {
        workspace_id: "w1".into(),
        tab_id: tab_id.into(),
        zoomed: false,
        area: PaneLayoutRect { x: 0, y: 0, width: 80, height: 24 },
        focused_pane_id: pane_id.into(),
        panes: Vec::new(),
        splits: Vec::new(),
    }
}

/// The answer of a server with one workspace and two tabs, one pane each.
fn snapshot_response(first: &TerminalState, second: &TerminalState) -> ResponseResult {
    ResponseResult::SessionSnapshot {
        snapshot: Box::new(SessionSnapshot {
            version: "test".into(),
            protocol: 1,
            focused_workspace_id: Some("w1".into()),
            focused_tab_id: Some("t1".into()),
            focused_pane_id: Some("p1".into()),
            workspaces: vec![WorkspaceInfo {
                workspace_id: "w1".into(),
                number: 1,
                label: "snapshot".into(),
                focused: true,
                pane_count: 2,
                tab_count: 2,
                active_tab_id: "t1".into(),
                agent_status: AgentStatus::Unknown,
                branch: None,
                git_ahead: None,
                git_behind: None,
                worktree: None,
            }],
            tabs: vec![tab("t1", 1), tab("t2", 2)],
            panes: vec![pane_record("p1", "t1", first), pane_record("p2", "t2", second)],
            layouts: vec![layout("t1", "p1"), layout("t2", "p2")],
        }),
    }
}

fn replica_from_response(response: ResponseResult) -> SessionReplica {
    JsonApiClient::local(None)
        .build_replica(Ok(response))
        .expect("expected session snapshot response")
}

#[test]
fn replica_retrieves_pane_and_layout_state_from_server_snapshot() {
    let response = snapshot_response(&server_terminal("term_a"), &server_terminal("term_b"));
    let replica = replica_from_response(response);

    assert_eq!(replica.panes.len(), 2, "both panes present");
    assert_eq!(replica.terminal_ids().len(), 2, "two distinct terminals");
    assert_eq!(replica.layouts.len(), 2, "a layout per tab");
    assert!(replica.focused_terminal_id().is_some(), "focus resolved");
    for terminal_id in replica.terminal_ids() {
        assert!(replica.pane_for_terminal(&terminal_id).is_some());
    }
}

#[test]
fn projected_pane_reproduces_server_agent_state_over_the_wire() {
    let mut terminal = server_terminal("term_a");
    terminal.fallback_state = AgentState::Working;
    terminal.set_agent_metadata(AgentMetadataReport {
        source: "test".into(),
        title: Some("running tests".into()),
        display_agent: None,
        custom_status: Some("87%".into()),
        state_labels: IdMap::new(),
        clear_title: false,
        clear_display_agent: false,
        clear_custom_status: false,
        clear_state_labels: false,
    });
    terminal.set_manual_label("worker".into());

    let server_state = terminal.state;
    let server_label = terminal.manual_label.clone();
    assert_eq!(server_state, AgentState::Working, "server drove Working");

    let replica =
        replica_from_response(snapshot_response(&terminal, &server_terminal("term_b")));
    let pane_info =
        replica.pane_for_terminal("term_a").expect("pane for the driven terminal");

    let mut projected = TerminalState::new(TerminalId::Local(1), "/".into());
    let seen = project_pane_metadata(&mut projected, pane_info);

    assert!(seen, "Working projects as seen");
    assert_eq!(
        projected.state, server_state,
        "projected agent state matches the server's"
    );
    assert_eq!(
        projected.manual_label, server_label,
        "projected manual label matches the server's"
    );
    assert_eq!(
        format!("{:?}", projected.effective_presentation()),
        format!("{:?}", terminal.effective_presentation()),
        "projected effective presentation matches the server's"
    );
}

#[test]
fn replica_reconciles_a_real_structural_event_stream() {
    let mut replica = replica_from_response(snapshot_response(
        &server_terminal("term_a"),
        &server_terminal("term_b"),
    ));

    let tab_id = replica.tabs.first().expect("a tab").tab_id.clone();
    assert_ne!(replica.tabs[0].label, "renamed-by-test");

    let changes = replica.apply_event(EventEnvelope {
        event: EventKind::TabRenamed,
        data: EventData::TabRenamed {
            tab_id: tab_id.clone(),
            workspace_id: "w1".into(),
            label: "renamed-by-test".into(),
        },
    });

    let renamed = replica
        .tabs
        .iter()
        .find(|tab| tab.tab_id == tab_id)
        .expect("tab still present");
    assert_eq!(
        renamed.label, "renamed-by-test",
        "the replica reflects the server rename"
    );
    assert!(
        changes.contains(&ReplicaChange::StructureChanged),
        "a Structural change was produced: {changes:?}"
    );
}

#[test]
fn the_snapshot_is_asked_for_under_a_numbered_id() {
    let mut client = JsonApiClient::local(None);
    let request = client.session_snapshot_request();
    assert_eq!(request.id, "mirror-control:session.snapshot:0");
    assert_eq!(request.method, Method::SessionSnapshot);
    assert_eq!(client.workspace_list_request().id, "mirror-control:workspace.list:1");
}
