use herdr_mirror::idmap::IdMap;
use herdr_mirror::projection::{
    layout_requests, project_workspace_metadata, projection_fits, rebuild_app_state, AppState,
    Direction, IdSource, Mode, Node, PaneId,
};
use herdr_mirror::replica::SessionReplica;
use herdr_mirror::schema::{
    AgentStatus, LayoutDescription, LayoutNode, LayoutPane, PaneInfo, SessionSnapshot,
    SplitDirection, TabInfo, WorkspaceInfo, WorkspaceWorktreeInfo,
};
use herdr_mirror::terminal_state::{
    agent_status_to_state_and_seen, project_pane_metadata, AgentMetadataReport, AgentState,
    TerminalId, TerminalState, MIRROR_METADATA_SOURCE,
};

fn pane_info(agent_status: AgentStatus) -> PaneInfo {
    PaneInfo {
        pane_id: "p1".into(),
        terminal_id: "t1".into(),
        workspace_id: "w1".into(),
        tab_id: "tab1".into(),
        focused: false,
        cols: None,
        rows: None,
        cwd: None,
        foreground_cwd: None,
        label: None,
        agent: None,
        title: None,
        display_agent: None,
        agent_status,
        custom_status: None,
        state_labels: IdMap::new(),
        agent_session: None,
        scroll: None,
        revision: 0,
    }
}

fn terminal() -> TerminalState {
    TerminalState::new(TerminalId::Local(0), "/".into())
}

#[test]
fn projects_agent_state_labels_and_effective_presentation() {
    let mut state_labels = IdMap::new();
    state_labels.insert("working".to_string(), "cooking".to_string());
    let info = PaneInfo {
        label: Some("build".into()),
        agent: Some("pi".into()),
        title: Some("running tests".into()),
        display_agent: Some("Pi".into()),
        custom_status: Some("87%".into()),
        state_labels: state_labels.copied(),
        ..pane_info(AgentStatus::Working)
    };

    let mut terminal = terminal();
    let seen = project_pane_metadata(&mut terminal, &info);

    assert!(seen, "Working is a seen state");
    assert_eq!(terminal.state, AgentState::Working);
    assert_eq!(terminal.fallback_state, AgentState::Working);
    assert_eq!(terminal.manual_label.as_deref(), Some("build"));
    assert_eq!(terminal.agent_name.as_deref(), Some("pi"));
    let presentation = terminal.effective_presentation();
    assert_eq!(presentation.title.as_deref(), Some("running tests"));
    assert_eq!(presentation.display_agent.as_deref(), Some("Pi"));
    assert_eq!(presentation.custom_status.as_deref(), Some("87%"));
    assert_eq!(presentation.state_labels.len(), state_labels.len());
    assert_eq!(presentation.state_labels.get("working"), state_labels.get("working"));
}

#[test]
fn done_status_maps_to_unseen_idle() {
    let mut terminal = terminal();
    let seen = project_pane_metadata(&mut terminal, &pane_info(AgentStatus::Done));
    assert!(!seen, "Done encodes an unseen finished agent");
    assert_eq!(terminal.state, AgentState::Idle);
}

#[test]
fn idle_status_maps_to_seen_idle() {
    let mut terminal = terminal();
    let seen = project_pane_metadata(&mut terminal, &pane_info(AgentStatus::Idle));
    assert!(seen);
    assert_eq!(terminal.state, AgentState::Idle);
}

#[test]
fn pane_without_metadata_leaves_presentation_empty() {
    let mut terminal = terminal();
    let seen = project_pane_metadata(&mut terminal, &pane_info(AgentStatus::Unknown));
    assert!(seen);
    assert_eq!(terminal.state, AgentState::Unknown);
    let presentation = terminal.effective_presentation();
    assert_eq!(presentation.title, None);
    assert_eq!(presentation.custom_status, None);
    assert!(presentation.state_labels.is_empty());
}

fn workspace_info(worktree: Option<WorkspaceWorktreeInfo>) -> WorkspaceInfo {
    WorkspaceInfo {
        workspace_id: "w1".into(),
        number: 1,
        label: "main".into(),
        focused: true,
        pane_count: 1,
        tab_count: 1,
        active_tab_id: "tab1".into(),
        agent_status: AgentStatus::Unknown,
        branch: Some("feat/x".into()),
        git_ahead: None,
        git_behind: None,
        worktree,
    }
}

#[test]
fn projects_branch_and_worktree_space() {
    let info = workspace_info(Some(WorkspaceWorktreeInfo {
        repo_key: "repo-key".into(),
        repo_name: "herdr".into(),
        repo_root: "/repo/herdr".into(),
        checkout_path: "/repo/herdr-issue".into(),
        is_linked_worktree: true,
    }));

    let projected = project_workspace_metadata(&info);

    assert_eq!(projected.branch.as_deref(), Some("feat/x"));
    let space = projected.worktree_space.expect("worktree space projected");
    assert_eq!(space.key, "repo-key");
    assert_eq!(space.label, "herdr");
    assert_eq!(space.repo_root, "/repo/herdr");
    assert_eq!(space.checkout_path, "/repo/herdr-issue");
    assert!(space.is_linked_worktree);
}

#[test]
fn workspace_without_worktree_has_no_space() {
    let projected = project_workspace_metadata(&workspace_info(None));
    assert!(projected.worktree_space.is_none());
    assert_eq!(projected.branch.as_deref(), Some("feat/x"));
}

#[test]
fn every_status_has_its_own_pair() {
    let pairs = [
        (AgentStatus::Idle, (AgentState::Idle, true)),
        (AgentStatus::Working, (AgentState::Working, true)),
        (AgentStatus::Blocked, (AgentState::Blocked, true)),
        (AgentStatus::Done, (AgentState::Idle, false)),
        (AgentStatus::Unknown, (AgentState::Unknown, true)),
    ];
    for (status, pair) in pairs {
        assert_eq!(agent_status_to_state_and_seen(status), pair);
    }
    assert_eq!(MIRROR_METADATA_SOURCE, "mirror");
}

#[test]
fn reports_replace_keep_or_clear_fields() {
    let report = |title: Option<&str>, clear: bool| {
        let mut state_labels = IdMap::new();
        if title.is_some() {
            state_labels.insert("idle".to_string(), "zzz".to_string());
        }
        AgentMetadataReport {
            source: "s".into(),
            title: title.map(|t| t.to_string()),
            display_agent: None,
            custom_status: None,
            state_labels,
            clear_title: clear,
            clear_display_agent: clear,
            clear_custom_status: clear,
            clear_state_labels: clear,
        }
    };
    let mut terminal = terminal();
    terminal.set_agent_name("pi".into());
    terminal.fallback_state = AgentState::Blocked;
    terminal.set_agent_metadata(report(Some("a"), false));
    assert_eq!(terminal.state, AgentState::Blocked);
    assert_eq!(terminal.effective_presentation().title.as_deref(), Some("a"));
    terminal.set_agent_metadata(report(None, false));
    assert_eq!(terminal.effective_presentation().title.as_deref(), Some("a"));
    assert_eq!(terminal.effective_presentation().state_labels.len(), 1);
    terminal.set_agent_metadata(report(None, true));
    assert_eq!(terminal.effective_presentation().title, None);
    assert!(terminal.effective_presentation().state_labels.is_empty());
}

fn pane(pane_id: &str, terminal_id: &str, status: AgentStatus) -> PaneInfo {
    PaneInfo {
        pane_id: pane_id.into(),
        terminal_id: terminal_id.into(),
        cwd: Some(format!("/home/{pane_id}")),
        ..pane_info(status)
    }
}

fn tab(tab_id: &str, workspace_id: &str, number: usize) -> TabInfo {
    TabInfo {
        tab_id: tab_id.into(),
        workspace_id: workspace_id.into(),
        number,
        label: format!("label-{tab_id}"),
        focused: false,
        pane_count: 1,
        agent_status: AgentStatus::Unknown,
    }
}

fn workspace(id: &str) -> WorkspaceInfo {
    WorkspaceInfo { workspace_id: id.into(), label: format!("label-{id}"), ..workspace_info(None) }
}

fn leaf(pane_id: Option<&str>, cwd: Option<&str>) -> LayoutNode {
    LayoutNode::Pane {
        pane: LayoutPane {
            pane_id: pane_id.map(|id| id.to_string()),
            cwd: cwd.map(|cwd| cwd.to_string()),
        },
    }
}

fn split(direction: SplitDirection, first: LayoutNode, second: LayoutNode) -> LayoutNode {
    LayoutNode::Split {
        direction,
        ratio: 0.5f32.to_bits(),
        first: Box::new(first),
        second: Box::new(second),
    }
}

fn description(root: LayoutNode, focused_pane_id: &str) -> LayoutDescription {
    LayoutDescription { root, focused_pane_id: focused_pane_id.into(), zoomed: false }
}

fn session() -> SessionReplica {
    SessionReplica::from_snapshot(SessionSnapshot {
        version: "test".into(),
        protocol: 1,
        focused_workspace_id: Some("w1".into()),
        focused_tab_id: Some("tab1".into()),
        focused_pane_id: Some("p1".into()),
        workspaces: vec![workspace("w1"), workspace("w2")],
        tabs: vec![tab("tab2", "w1", 2), tab("tab1", "w1", 1), tab("tab3", "w2", 1)],
        panes: vec![
            pane("p1", "t1", AgentStatus::Working),
            pane("p2", "t2", AgentStatus::Done),
            pane("p3", "t3", AgentStatus::Idle),
        ],
        layouts: Vec::new(),
    })
}

fn exports() -> IdMap<LayoutDescription> {
    let mut exports = IdMap::new();
    exports.insert(
        "tab1".to_string(),
        description(
            split(
                SplitDirection::Right,
                leaf(Some("p1"), None),
                split(SplitDirection::Down, leaf(Some("p2"), None), leaf(None, Some("/tmp"))),
            ),
            "p2",
        ),
    );
    exports.insert("tab2".to_string(), description(leaf(Some("ghost"), None), "ghost"));
    exports.insert("tab3".to_string(), description(leaf(Some("p3"), None), "elsewhere"));
    exports
}

fn rebuild(state: &mut AppState, exports: &IdMap<LayoutDescription>, preserve: bool) -> IdSource {
    let mut ids = IdSource { next_pane: 10, next_local: 100 };
    rebuild_app_state(state, &session(), exports, "/here", &mut ids, preserve);
    ids
}

#[test]
fn layouts_are_asked_for_in_tab_order() {
    assert_eq!(layout_requests(&session()), vec!["tab1", "tab2", "tab3"]);
}

#[test]
fn rebuilds_workspaces_tabs_panes_and_terminals() {
    let mut state = AppState::empty(Mode::Overlay);
    let mut ids = IdSource { next_pane: 10, next_local: 100 };
    let terminals =
        rebuild_app_state(&mut state, &session(), &exports(), "/here", &mut ids, false);
    assert_eq!(terminals.keys_listed(), vec!["t1", "t2", "t3"]);
    assert_eq!(terminals.get("t2"), Some(&TerminalId::Named("t2".to_string())));
    assert_eq!(ids, IdSource { next_pane: 15, next_local: 102 });

    assert_eq!(state.workspaces.len(), 2);
    assert_eq!(state.active, Some(0));
    assert_eq!(state.selected, 0);
    assert_eq!(state.mode, Mode::Terminal);

    let first = &state.workspaces[0];
    assert_eq!(first.id, "w1");
    assert_eq!(first.label, "label-w1");
    assert_eq!(first.identity_cwd, "/home/p1");
    assert_eq!(first.branch.as_deref(), Some("feat/x"));
    assert_eq!(first.active_tab, 0);
    assert_eq!(first.next_tab_number, 3);
    assert_eq!(first.next_pane_number, 5);
    assert_eq!(
        first.public_pane_numbers,
        vec![
            (PaneId { raw: 10 }, 1),
            (PaneId { raw: 11 }, 2),
            (PaneId { raw: 12 }, 3),
            (PaneId { raw: 13 }, 4),
        ]
    );
    let tab = &first.tabs[0];
    assert_eq!(tab.label, "label-tab1");
    assert_eq!(tab.number, 1);
    assert_eq!(tab.root_pane, PaneId { raw: 10 });
    assert_eq!(tab.focus, PaneId { raw: 11 });
    assert_eq!(tab.panes.len(), 3);
    assert!(tab.panes[0].1.seen);
    assert!(!tab.panes[1].1.seen);
    assert_eq!(tab.panes[2].1.terminal_id, TerminalId::Local(100));
    let Node::Split { direction, ratio, first: left, second: right } = &tab.layout else {
        panic!("expected a split");
    };
    assert_eq!(*direction, Direction::Horizontal);
    assert_eq!(*ratio, 0.5f32.to_bits());
    assert!(matches!(**left, Node::Pane(PaneId { raw: 10 })));
    let Node::Split { direction, .. } = &**right else {
        panic!("expected a split");
    };
    assert_eq!(*direction, Direction::Vertical);

    let second = &state.workspaces[1];
    assert_eq!(second.tabs[0].focus, second.tabs[0].root_pane);
    assert_eq!(second.public_pane_numbers, vec![(PaneId { raw: 14 }, 1)]);

    assert_eq!(state.public_pane_id_aliases.get("p2"), Some(&PaneId { raw: 11 }));
    assert_eq!(state.public_pane_id_aliases.get("ghost"), Some(&PaneId { raw: 13 }));
    assert_eq!(state.terminals.get("t1").unwrap().state, AgentState::Working);
    assert_eq!(state.local_terminals.len(), 2);
    assert_eq!(state.local_terminals[0].cwd, "/tmp");
    assert_eq!(state.local_terminals[1].cwd, "/here");
}

#[test]
fn tabs_without_a_layout_and_empty_workspaces_are_left_out() {
    let mut some = exports();
    some.remove("tab1");
    some.remove("tab2");
    let mut state = AppState::empty(Mode::Terminal);
    rebuild(&mut state, &some, true);
    assert_eq!(state.workspaces.len(), 1);
    assert_eq!(state.workspaces[0].id, "w2");
    assert_eq!(state.active, Some(0));

    rebuild(&mut state, &IdMap::new(), true);
    assert!(state.workspaces.is_empty());
    assert_eq!(state.active, None);
    assert_eq!(state.mode, Mode::Navigate);
}

#[test]
fn overlays_survive_a_background_projection_only() {
    for mode in [Mode::Overlay, Mode::Prefix] {
        let mut state = AppState::empty(mode);
        rebuild(&mut state, &exports(), true);
        assert_eq!(state.mode, mode);
        rebuild(&mut state, &exports(), false);
        assert_eq!(state.mode, Mode::Terminal);
    }
}

#[test]
fn tabs_of_one_number_keep_their_order() {
    let replica = SessionReplica::from_snapshot(SessionSnapshot {
        version: "test".into(),
        protocol: 1,
        focused_workspace_id: None,
        focused_tab_id: None,
        focused_pane_id: None,
        workspaces: vec![workspace("w1")],
        tabs: vec![
            tab("c", "w1", 2),
            tab("b", "w1", 1),
            tab("a", "w1", 1),
            tab("d", "w1", 2),
            tab("x", "other", 0),
        ],
        panes: Vec::new(),
        layouts: Vec::new(),
    });
    assert_eq!(layout_requests(&replica), vec!["b", "a", "c", "d"]);
}

#[test]
fn a_projection_needs_an_id_per_leaf() {
    let last = |next_pane, next_local| IdSource { next_pane, next_local };
    assert!(projection_fits(&session(), &exports(), "/", &last(u32::MAX - 5, 0)));
    assert!(!projection_fits(&session(), &exports(), "/", &last(u32::MAX - 4, 0)));
    assert!(projection_fits(&session(), &exports(), "/", &last(0, u64::MAX - 5)));
    assert!(!projection_fits(&session(), &exports(), "/", &last(0, u64::MAX - 4)));
    assert!(projection_fits(&session(), &IdMap::new(), "/", &last(u32::MAX, u64::MAX)));
}

#[test]
fn every_pane_has_its_own_id_and_terminal() {
    let mut state = AppState::empty(Mode::Terminal);
    rebuild(&mut state, &exports(), false);
    let mut seen = Vec::new();
    for workspace in &state.workspaces {
        for tab in &workspace.tabs {
            for (id, pane) in &tab.panes {
                assert!(!seen.contains(id));
                seen.push(*id);
                match &pane.terminal_id {
                    TerminalId::Named(name) => assert!(state.terminals.contains_key(name)),
                    local => assert!(state.local_terminals.iter().any(|t| t.id == *local)),
                }
            }
        }
    }
    assert_eq!(seen.len(), 5);
}

fn session_of(
    focused_workspace_id: &str,
    focused_tab_id: &str,
    workspaces: Vec<WorkspaceInfo>,
    tabs: Vec<TabInfo>,
) -> SessionReplica {
    SessionReplica::from_snapshot(SessionSnapshot {
        version: "test".into(),
        protocol: 1,
        focused_workspace_id: Some(focused_workspace_id.into()),
        focused_tab_id: Some(focused_tab_id.into()),
        focused_pane_id: None,
        workspaces,
        tabs,
        panes: Vec::new(),
        layouts: Vec::new(),
    })
}

fn single_panes(tab_ids: &[&str]) -> IdMap<LayoutDescription> {
    let mut exports = IdMap::new();
    for tab_id in tab_ids {
        exports.insert(tab_id.to_string(), description(leaf(None, None), ""));
    }
    exports
}

fn view_of(replica: &SessionReplica, exports: &IdMap<LayoutDescription>) -> AppState {
    let mut state = AppState::empty(Mode::Navigate);
    let mut ids = IdSource { next_pane: 1, next_local: 1 };
    rebuild_app_state(&mut state, replica, exports, "/here", &mut ids, true);
    state
}

#[test]
fn a_workspace_that_is_left_out_does_not_shift_the_focus() {
    let replica = session_of(
        "b",
        "tab-b",
        vec![workspace("a"), workspace("b"), workspace("c")],
        vec![tab("tab-b", "b", 1), tab("tab-c", "c", 1)],
    );
    let state = view_of(&replica, &single_panes(&["tab-b", "tab-c"]));
    let shown: Vec<&str> = state.workspaces.iter().map(|w| w.id.as_str()).collect();
    assert_eq!(shown, vec!["b", "c"]);
    assert_eq!(state.active, Some(0));
    assert_eq!(state.selected, 0);
}

#[test]
fn a_focused_workspace_that_is_left_out_leaves_the_first_active() {
    let replica = session_of(
        "a",
        "tab-b",
        vec![workspace("b"), workspace("c"), workspace("a")],
        vec![tab("tab-b", "b", 1), tab("tab-c", "c", 1)],
    );
    let exports = single_panes(&["tab-b", "tab-c"]);
    assert_eq!(view_of(&replica, &exports).active, Some(0));

    let last = session_of(
        "c",
        "tab-c",
        vec![workspace("a"), workspace("b"), workspace("c")],
        vec![tab("tab-b", "b", 1), tab("tab-c", "c", 1)],
    );
    let state = view_of(&last, &exports);
    assert_eq!(state.active, Some(1));
    assert_eq!(state.workspaces[1].id, "c");
}

#[test]
fn a_tab_that_is_left_out_does_not_shift_the_focus() {
    let replica = session_of(
        "w1",
        "second",
        vec![workspace("w1")],
        vec![tab("first", "w1", 1), tab("second", "w1", 2), tab("third", "w1", 3)],
    );
    let state = view_of(&replica, &single_panes(&["second", "third"]));
    let shown = &state.workspaces[0];
    assert_eq!(shown.tabs.len(), 2);
    assert_eq!(shown.active_tab, 0);
    assert_eq!(shown.tabs[0].label, "label-second");
    assert_eq!(shown.next_tab_number, 4);

    let without_focused = view_of(&replica, &single_panes(&["first", "third"]));
    assert_eq!(without_focused.workspaces[0].active_tab, 0);
    let all = view_of(&replica, &single_panes(&["first", "second", "third"]));
    assert_eq!(all.workspaces[0].active_tab, 1);
}

#[test]
fn a_projection_forgets_former_pane_ids() {
    let mut state = AppState::empty(Mode::Navigate);
    assert!(state.pane_id_aliases.is_empty());
    state.pane_id_aliases.push((PaneId { raw: 3 }, PaneId { raw: 4 }));
    rebuild(&mut state, &exports(), true);
    assert!(state.pane_id_aliases.is_empty());

    state.pane_id_aliases.push((PaneId { raw: 10 }, PaneId { raw: 11 }));
    rebuild(&mut state, &IdMap::new(), true);
    assert!(state.pane_id_aliases.is_empty());
}
