use herdr_mirror::idmap::IdMap;
use herdr_mirror::replica::{ReplicaChange, SessionReplica};
use herdr_mirror::schema::{
    AgentStatus, EventData, EventEnvelope, EventKind, NotificationKind, PaneInfo, PaneLayoutRect,
    PaneLayoutSnapshot, SessionSnapshot, TabInfo, WorkspaceInfo,
};

fn pane(pane_id: &str, terminal_id: &str, tab_id: &str, workspace_id: &str) -> PaneInfo {
    PaneInfo {
        pane_id: pane_id.into(),
        terminal_id: terminal_id.into(),
        workspace_id: workspace_id.into(),
        tab_id: tab_id.into(),
        focused: false,
        cols: None,
        rows: None,
        cwd: None,
        foreground_cwd: None,
        label: None,
        agent: None,
        title: None,
        display_agent: None,
        agent_status: AgentStatus::Unknown,
        custom_status: None,
        state_labels: IdMap::new(),
        agent_session: None,
        scroll: None,
        revision: 0,
    }
}

fn workspace(id: &str, active_tab_id: &str) -> WorkspaceInfo {
    WorkspaceInfo {
        workspace_id: id.into(),
        number: 1,
        label: id.into(),
        focused: true,
        pane_count: 1,
        tab_count: 1,
        active_tab_id: active_tab_id.into(),
        agent_status: AgentStatus::Unknown,
        branch: None,
        git_ahead: None,
        git_behind: None,
        worktree: None,
    }
}

fn tab(tab_id: &str, workspace_id: &str) -> TabInfo {
    TabInfo {
        tab_id: tab_id.into(),
        workspace_id: workspace_id.into(),
        number: 1,
        label: tab_id.into(),
        focused: true,
        pane_count: 1,
        agent_status: AgentStatus::Unknown,
    }
}

fn layout(tab_id: &str, focused_pane_id: &str) -> PaneLayoutSnapshot {
    PaneLayoutSnapshot {
        workspace_id: "ws1".into(),
        tab_id: tab_id.into(),
        zoomed: false,
        area: PaneLayoutRect { x: 0, y: 0, width: 80, height: 24 },
        focused_pane_id: focused_pane_id.into(),
        panes: Vec::new(),
        splits: Vec::new(),
    }
}

fn snapshot() -> SessionSnapshot {
    SessionSnapshot {
        version: "test".into(),
        protocol: 1,
        focused_workspace_id: Some("ws1".into()),
        focused_tab_id: Some("tab1".into()),
        focused_pane_id: Some("pane1".into()),
        workspaces: vec![workspace("ws1", "tab1")],
        tabs: vec![tab("tab1", "ws1")],
        panes: vec![pane("pane1", "term1", "tab1", "ws1")],
        layouts: vec![layout("tab1", "pane1")],
    }
}

fn envelope(event: EventKind, data: EventData) -> EventEnvelope {
    EventEnvelope { event, data }
}

fn apply(replica: &mut SessionReplica, event: EventKind, data: EventData) -> Vec<ReplicaChange> {
    replica.apply_event(envelope(event, data))
}

#[test]
fn builds_replica_from_snapshot() {
    let replica = SessionReplica::from_snapshot(snapshot());
    assert_eq!(replica.terminal_ids(), vec!["term1".to_string()]);
    assert_eq!(replica.focused_terminal_id(), Some("term1"));
    assert_eq!(replica.pane_for_terminal("term1").unwrap().pane_id, "pane1");
    assert!(replica.layouts.contains_key("tab1"));
}

#[test]
fn pane_created_and_closed_emit_data_plane_changes() {
    let mut replica = SessionReplica::from_snapshot(snapshot());

    let changes = replica.apply_event(envelope(
        EventKind::PaneCreated,
        EventData::PaneCreated { pane: pane("pane2", "term2", "tab1", "ws1") },
    ));
    assert_eq!(
        changes,
        vec![ReplicaChange::PaneAdded { pane_id: "pane2".into(), terminal_id: "term2".into() }]
    );
    assert_eq!(replica.terminal_ids(), vec!["term1", "term2"]);

    let changes = replica.apply_event(envelope(
        EventKind::PaneClosed,
        EventData::PaneClosed { pane_id: "pane2".into(), workspace_id: "ws1".into() },
    ));
    assert_eq!(
        changes,
        vec![ReplicaChange::PaneRemoved { pane_id: "pane2".into(), terminal_id: "term2".into() }]
    );
    assert_eq!(replica.terminal_ids(), vec!["term1"]);
}

#[test]
fn pane_focused_reports_new_terminal_and_updates_flags() {
    let mut replica = SessionReplica::from_snapshot(snapshot());
    replica.apply_event(envelope(
        EventKind::PaneCreated,
        EventData::PaneCreated { pane: pane("pane2", "term2", "tab1", "ws1") },
    ));

    let changes = replica.apply_event(envelope(
        EventKind::PaneFocused,
        EventData::PaneFocused { pane_id: "pane2".into(), workspace_id: "ws1".into() },
    ));
    assert_eq!(
        changes,
        vec![ReplicaChange::FocusChanged {
            pane_id: Some("pane2".into()),
            terminal_id: Some("term2".into()),
        }]
    );
    assert_eq!(replica.focused_terminal_id(), Some("term2"));
    assert!(replica.pane("pane2").unwrap().focused);
    assert!(!replica.pane("pane1").unwrap().focused);
}

#[test]
fn layout_updated_replaces_tab_layout() {
    let mut replica = SessionReplica::from_snapshot(snapshot());
    let changes = replica.apply_event(envelope(
        EventKind::LayoutUpdated,
        EventData::LayoutUpdated { layout: layout("tab1", "pane1") },
    ));
    assert_eq!(changes, vec![ReplicaChange::LayoutChanged { tab_id: "tab1".into() }]);
}

#[test]
fn workspace_closed_cascades_to_tabs_and_panes() {
    let mut replica = SessionReplica::from_snapshot(snapshot());
    let changes = replica.apply_event(envelope(
        EventKind::WorkspaceClosed,
        EventData::WorkspaceClosed { workspace_id: "ws1".into(), workspace: None },
    ));
    assert!(changes.contains(&ReplicaChange::PaneRemoved {
        pane_id: "pane1".into(),
        terminal_id: "term1".into(),
    }));
    assert!(replica.workspaces.is_empty());
    assert!(replica.tabs.is_empty());
    assert!(replica.panes.is_empty());
    assert!(replica.layouts.is_empty());
    assert_eq!(replica.focused_pane_id, None);
}

#[test]
fn tab_created_is_tracked() {
    let mut replica = SessionReplica::from_snapshot(snapshot());
    replica.apply_event(envelope(
        EventKind::TabCreated,
        EventData::TabCreated { tab: tab("tab2", "ws1") },
    ));
    assert_eq!(replica.tabs.len(), 2);
}

#[test]
fn agent_status_changed_updates_pane_presentation() {
    let mut replica = SessionReplica::from_snapshot(snapshot());
    replica.apply_event(envelope(
        EventKind::PaneAgentStatusChanged,
        EventData::PaneAgentStatusChanged {
            pane_id: "pane1".into(),
            workspace_id: "ws1".into(),
            agent_status: AgentStatus::Working,
            agent: Some("pi".into()),
            title: Some("building".into()),
            display_agent: None,
            custom_status: None,
            state_labels: IdMap::new(),
        },
    ));
    let pane = replica.pane("pane1").unwrap();
    assert_eq!(pane.agent_status, AgentStatus::Working);
    assert_eq!(pane.agent.as_deref(), Some("pi"));
    assert_eq!(pane.title.as_deref(), Some("building"));
}

#[test]
fn notification_shown_yields_notification_change() {
    let mut replica = SessionReplica::from_snapshot(snapshot());
    let changes = replica.apply_event(envelope(
        EventKind::NotificationShown,
        EventData::NotificationShown {
            kind: NotificationKind::Finished,
            title: "pi finished".into(),
            context: "workspace api".into(),
            workspace_id: Some("ws1".into()),
            pane_id: Some("pane1".into()),
        },
    ));
    assert_eq!(
        changes,
        vec![ReplicaChange::NotificationShown {
            kind: NotificationKind::Finished,
            title: "pi finished".into(),
            context: "workspace api".into(),
            workspace_id: Some("ws1".into()),
            pane_id: Some("pane1".into()),
        }]
    );
    assert_eq!(replica.panes.len(), 1);
}

#[test]
fn output_changed_is_not_structural() {
    let mut replica = SessionReplica::from_snapshot(snapshot());
    let changes = replica.apply_event(envelope(
        EventKind::PaneOutputChanged,
        EventData::PaneOutputChanged {
            pane_id: "pane1".into(),
            workspace_id: "ws1".into(),
            revision: 7,
        },
    ));
    assert!(changes.is_empty());
}

#[test]
fn of_two_panes_with_one_id_the_later_stands() {
    let mut snap = snapshot();
    snap.panes.push(pane("pane1", "term9", "tab1", "ws1"));
    let replica = SessionReplica::from_snapshot(snap);
    assert_eq!(replica.panes.len(), 1);
    assert_eq!(replica.terminal_ids(), vec!["term9"]);
}

#[test]
fn terminals_are_listed_once_and_in_order() {
    let mut snap = snapshot();
    snap.panes = vec![
        pane("p1", "t3", "tab1", "ws1"),
        pane("p2", "t1", "tab1", "ws1"),
        pane("p3", "t3", "tab2", "ws1"),
        pane("p4", "t2", "tab1", "ws1"),
    ];
    let replica = SessionReplica::from_snapshot(snap);
    assert_eq!(replica.terminal_ids(), vec!["t1", "t2", "t3"]);
    assert_eq!(replica.pane_for_terminal("t3").unwrap().pane_id, "p1");
    assert!(replica.pane_for_terminal("t9").is_none());
    let ids: Vec<&str> =
        replica.panes_in_tab("tab1").iter().map(|pane| pane.pane_id.as_str()).collect();
    assert_eq!(ids, vec!["p1", "p2", "p4"]);
    assert_eq!(replica.focused_terminal_id(), None);
}

#[test]
fn closing_the_focused_pane_clears_focus() {
    let mut replica = SessionReplica::from_snapshot(snapshot());
    let changes = apply(
        &mut replica,
        EventKind::PaneExited,
        EventData::PaneExited { pane_id: "pane1".into(), workspace_id: "ws1".into() },
    );
    assert_eq!(
        changes,
        vec![
            ReplicaChange::PaneRemoved { pane_id: "pane1".into(), terminal_id: "term1".into() },
            ReplicaChange::FocusChanged { pane_id: None, terminal_id: None },
        ]
    );
    assert_eq!(replica.focused_pane_id, None);
    let again = apply(
        &mut replica,
        EventKind::PaneClosed,
        EventData::PaneClosed { pane_id: "pane1".into(), workspace_id: "ws1".into() },
    );
    assert!(again.is_empty());
}

#[test]
fn focusing_the_focused_pane_changes_nothing() {
    let mut replica = SessionReplica::from_snapshot(snapshot());
    let changes = apply(
        &mut replica,
        EventKind::PaneFocused,
        EventData::PaneFocused { pane_id: "pane1".into(), workspace_id: "ws1".into() },
    );
    assert!(changes.is_empty());
    let unknown = apply(
        &mut replica,
        EventKind::PaneFocused,
        EventData::PaneFocused { pane_id: "ghost".into(), workspace_id: "ws1".into() },
    );
    assert_eq!(
        unknown,
        vec![ReplicaChange::FocusChanged { pane_id: Some("ghost".into()), terminal_id: None }]
    );
}

#[test]
fn tab_closed_takes_its_panes_and_layout_along() {
    let mut snap = snapshot();
    snap.tabs.push(tab("tab2", "ws1"));
    snap.panes.push(pane("pane2", "term2", "tab2", "ws1"));
    snap.panes.push(pane("pane0", "term0", "tab1", "ws1"));
    let mut replica = SessionReplica::from_snapshot(snap);
    let changes = apply(
        &mut replica,
        EventKind::TabClosed,
        EventData::TabClosed { tab_id: "tab1".into(), workspace_id: "ws1".into() },
    );
    assert_eq!(
        changes,
        vec![
            ReplicaChange::PaneRemoved { pane_id: "pane0".into(), terminal_id: "term0".into() },
            ReplicaChange::PaneRemoved { pane_id: "pane1".into(), terminal_id: "term1".into() },
            ReplicaChange::StructureChanged,
        ]
    );
    assert_eq!(replica.tabs.len(), 1);
    assert!(!replica.layouts.contains_key("tab1"));
    assert_eq!(replica.focused_tab_id, None);
    assert_eq!(replica.focused_pane_id, None);
    assert_eq!(replica.focused_workspace_id.as_deref(), Some("ws1"));
}

#[test]
fn a_moved_pane_keeps_its_terminal_and_its_focus() {
    let mut replica = SessionReplica::from_snapshot(snapshot());
    let changes = apply(
        &mut replica,
        EventKind::PaneMoved,
        EventData::PaneMoved {
            previous_pane_id: "pane1".into(),
            previous_tab_id: "tab1".into(),
            pane: Box::new(pane("pane7", "term1", "tab2", "ws2")),
            created_workspace: Some(workspace("ws2", "tab2")),
            created_tab: Some(tab("tab2", "ws2")),
            closed_workspace_id: Some("ws1".into()),
            closed_tab_id: Some("tab1".into()),
        },
    );
    assert_eq!(
        changes,
        vec![
            ReplicaChange::FocusChanged {
                pane_id: Some("pane7".into()),
                terminal_id: Some("term1".into()),
            },
            ReplicaChange::LayoutChanged { tab_id: "tab2".into() },
            ReplicaChange::LayoutChanged { tab_id: "tab1".into() },
            ReplicaChange::StructureChanged,
        ]
    );
    assert!(replica.pane("pane1").is_none());
    assert!(replica.pane("pane7").unwrap().focused);
    assert_eq!(replica.terminal_ids(), vec!["term1"]);
    assert_eq!(replica.workspaces.len(), 1);
    assert_eq!(replica.workspaces[0].workspace_id, "ws2");
    assert_eq!(replica.tabs.len(), 1);
    assert!(replica.layouts.is_empty());
}

#[test]
fn a_move_within_a_tab_re_tiles_it_once() {
    let mut replica = SessionReplica::from_snapshot(snapshot());
    let changes = apply(
        &mut replica,
        EventKind::PaneMoved,
        EventData::PaneMoved {
            previous_pane_id: "pane1".into(),
            previous_tab_id: "tab1".into(),
            pane: Box::new(pane("pane1", "term1", "tab1", "ws1")),
            created_workspace: None,
            created_tab: None,
            closed_workspace_id: None,
            closed_tab_id: None,
        },
    );
    assert_eq!(
        changes,
        vec![
            ReplicaChange::LayoutChanged { tab_id: "tab1".into() },
            ReplicaChange::StructureChanged,
        ]
    );
}

#[test]
fn workspace_and_tab_metadata_follow_their_events() {
    let mut replica = SessionReplica::from_snapshot(snapshot());
    let structural = vec![ReplicaChange::StructureChanged];
    assert_eq!(
        apply(
            &mut replica,
            EventKind::WorkspaceRenamed,
            EventData::WorkspaceRenamed { workspace_id: "ws1".into(), label: "api".into() },
        ),
        structural
    );
    assert_eq!(replica.workspaces[0].label, "api");
    apply(
        &mut replica,
        EventKind::TabRenamed,
        EventData::TabRenamed {
            tab_id: "tab1".into(),
            workspace_id: "ws1".into(),
            label: "shell".into(),
        },
    );
    assert_eq!(replica.tabs[0].label, "shell");
    for data in [
        EventData::WorkspaceCreated { workspace: workspace("ws2", "tab2") },
        EventData::WorkspaceUpdated { workspace: workspace("ws2", "tab9") },
        EventData::WorktreeCreated { workspace: workspace("ws3", "tab3") },
        EventData::WorktreeOpened { workspace: workspace("ws3", "tab4") },
        EventData::WorktreeRemoved { workspace: Some(workspace("ws3", "tab5")) },
        EventData::WorktreeRemoved { workspace: None },
    ] {
        assert_eq!(apply(&mut replica, EventKind::WorkspaceUpdated, data), structural);
    }
    let ids: Vec<(&str, &str)> = replica
        .workspaces
        .iter()
        .map(|ws| (ws.workspace_id.as_str(), ws.active_tab_id.as_str()))
        .collect();
    assert_eq!(ids, vec![("ws1", "tab1"), ("ws2", "tab9"), ("ws3", "tab5")]);
    apply(
        &mut replica,
        EventKind::WorkspaceMoved,
        EventData::WorkspaceMoved { workspaces: vec![workspace("ws2", "a"), workspace("ws1", "b")] },
    );
    assert_eq!(replica.workspaces.len(), 2);
    apply(
        &mut replica,
        EventKind::TabMoved,
        EventData::TabMoved {
            workspace_id: "ws1".into(),
            tabs: vec![tab("t2", "ws1"), tab("t1", "ws1")],
        },
    );
    assert_eq!(replica.tabs.len(), 2);
    assert_eq!(replica.tabs[0].tab_id, "t2");
    apply(
        &mut replica,
        EventKind::TabFocused,
        EventData::TabFocused { tab_id: "t1".into(), workspace_id: "ws2".into() },
    );
    assert_eq!(replica.focused_tab_id.as_deref(), Some("t1"));
    assert_eq!(replica.focused_workspace_id.as_deref(), Some("ws2"));
    apply(
        &mut replica,
        EventKind::WorkspaceFocused,
        EventData::WorkspaceFocused { workspace_id: "ws1".into() },
    );
    assert_eq!(replica.focused_workspace_id.as_deref(), Some("ws1"));
    apply(
        &mut replica,
        EventKind::PaneAgentDetected,
        EventData::PaneAgentDetected {
            pane_id: "pane1".into(),
            workspace_id: "ws1".into(),
            agent: Some("pi".into()),
        },
    );
    assert_eq!(replica.pane("pane1").unwrap().agent.as_deref(), Some("pi"));
}

#[test]
fn closing_a_new_pane_restores_the_replica() {
    let mut replica = SessionReplica::from_snapshot(snapshot());
    let before = format!("{replica:?}");
    apply(
        &mut replica,
        EventKind::PaneCreated,
        EventData::PaneCreated { pane: pane("pane2", "term2", "tab1", "ws1") },
    );
    apply(
        &mut replica,
        EventKind::PaneClosed,
        EventData::PaneClosed { pane_id: "pane2".into(), workspace_id: "ws1".into() },
    );
    assert_eq!(format!("{replica:?}"), before);
}

#[test]
fn a_default_replica_holds_nothing() {
    let replica = SessionReplica::default();
    assert_eq!(replica.version, "");
    assert_eq!(replica.protocol, 0);
    assert_eq!(replica.focused_workspace_id, None);
    assert_eq!(replica.focused_tab_id, None);
    assert_eq!(replica.focused_pane_id, None);
    assert!(replica.workspaces.is_empty());
    assert!(replica.tabs.is_empty());
    assert!(replica.panes.is_empty());
    assert!(replica.layouts.is_empty());
    assert_eq!(replica.terminal_ids(), Vec::<String>::new());
    assert_eq!(replica.focused_terminal_id(), None);
}

#[test]
fn a_clone_of_a_replica_stands_on_its_own() {
    let replica = SessionReplica::from_snapshot(snapshot());
    let mut copy = replica.clone();
    assert_eq!(format!("{copy:?}"), format!("{replica:?}"));
    apply(
        &mut copy,
        EventKind::PaneClosed,
        EventData::PaneClosed { pane_id: "pane1".into(), workspace_id: "ws1".into() },
    );
    assert!(copy.panes.is_empty());
    assert_eq!(replica.terminal_ids(), vec!["term1".to_string()]);
}

#[test]
fn an_announced_pane_stands_on_its_terminal() {
    let mut replica = SessionReplica::from_snapshot(snapshot());
    // A pane that is created again under its id moves to the new terminal.
    for (pane_id, terminal_id) in [("pane2", "term2"), ("pane1", "term9")] {
        let changes = apply(
            &mut replica,
            EventKind::PaneCreated,
            EventData::PaneCreated { pane: pane(pane_id, terminal_id, "tab1", "ws1") },
        );
        assert_eq!(
            changes,
            vec![ReplicaChange::PaneAdded {
                pane_id: pane_id.to_string(),
                terminal_id: terminal_id.to_string(),
            }]
        );
        assert_eq!(replica.pane(pane_id).unwrap().terminal_id, terminal_id);
    }
}

#[test]
fn every_pane_of_a_snapshot_is_found_under_its_id() {
    let replica = SessionReplica::from_snapshot(SessionSnapshot {
        panes: vec![
            pane("pane3", "term3", "tab1", "ws1"),
            pane("pane1", "term1", "tab1", "ws1"),
            pane("pane2", "term2", "tab2", "ws1"),
        ],
        layouts: vec![layout("tab2", "pane2"), layout("tab1", "pane1")],
        ..snapshot()
    });
    for n in 1..4 {
        let found = replica.pane(&format!("pane{n}")).unwrap();
        assert_eq!(found.pane_id, format!("pane{n}"));
        assert_eq!(found.terminal_id, format!("term{n}"));
    }
    assert!(replica.pane("pane4").is_none());
    assert_eq!(replica.panes.len(), 3);
    assert_eq!(replica.layouts.get("tab2").unwrap().focused_pane_id, "pane2");
    assert_eq!(replica.layouts.len(), 2);
}
