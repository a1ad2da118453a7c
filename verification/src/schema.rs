//! The control-plane records that the mirror reads and sends.
use crate::idmap::IdMap;
use vstd::prelude::*;

verus! {

/// The status of an agent as the server reports it.
#[derive(Clone, Copy, Debug, PartialEq, Eq, Structural)]
pub enum AgentStatus {
    Idle,
    Working,
    Blocked,
    Done,
    Unknown,
}

/// The reason for a notification.
#[derive(Clone, Copy, Debug, PartialEq, Eq, Structural)]
pub enum NotificationKind {
    NeedsAttention,
    Finished,
}

/// How far a viewport is scrolled back.
#[derive(Clone, Copy, Debug, PartialEq, Eq, Structural)]
pub struct ScrollMetrics {
    pub offset_from_bottom: usize,
    pub max_offset_from_bottom: usize,
    pub viewport_rows: usize,
}

/// A pane of the session.
#[derive(Clone, Debug)]
pub struct PaneInfo {
    pub pane_id: String,
    pub terminal_id: String,
    pub workspace_id: String,
    pub tab_id: String,
    pub focused: bool,
    pub cols: Option<u16>,
    pub rows: Option<u16>,
    pub cwd: Option<String>,
    pub foreground_cwd: Option<String>,
    pub label: Option<String>,
    pub agent: Option<String>,
    pub title: Option<String>,
    pub display_agent: Option<String>,
    pub agent_status: AgentStatus,
    pub custom_status: Option<String>,
    pub state_labels: IdMap<String>,
    pub agent_session: Option<String>,
    pub scroll: Option<ScrollMetrics>,
    pub revision: u64,
}

/// The worktree of a workspace.
#[derive(Clone, Debug)]
pub struct WorkspaceWorktreeInfo {
    pub repo_key: String,
    pub repo_name: String,
    pub repo_root: String,
    pub checkout_path: String,
    pub is_linked_worktree: bool,
}

/// A workspace of the session.
#[derive(Clone, Debug)]
pub struct WorkspaceInfo {
    pub workspace_id: String,
    pub number: usize,
    pub label: String,
    pub focused: bool,
    pub pane_count: usize,
    pub tab_count: usize,
    pub active_tab_id: String,
    pub agent_status: AgentStatus,
    pub branch: Option<String>,
    pub git_ahead: Option<u32>,
    pub git_behind: Option<u32>,
    pub worktree: Option<WorkspaceWorktreeInfo>,
}

/// A tab of the session.
#[derive(Clone, Debug)]
pub struct TabInfo {
    pub tab_id: String,
    pub workspace_id: String,
    pub number: usize,
    pub label: String,
    pub focused: bool,
    pub pane_count: usize,
    pub agent_status: AgentStatus,
}

/// A rectangle of cells in a layout.
#[derive(Clone, Copy, Debug, PartialEq, Eq, Structural)]
pub struct PaneLayoutRect {
    pub x: u16,
    pub y: u16,
    pub width: u16,
    pub height: u16,
}

/// The laid-out geometry of a tab.
#[derive(Clone, Debug)]
pub struct PaneLayoutSnapshot {
    pub workspace_id: String,
    pub tab_id: String,
    pub zoomed: bool,
    pub area: PaneLayoutRect,
    pub focused_pane_id: String,
    pub panes: Vec<PaneLayoutRect>,
    pub splits: Vec<PaneLayoutRect>,
}

/// The whole session at one moment.
#[derive(Debug)]
pub struct SessionSnapshot {
    pub version: String,
    pub protocol: u32,
    pub focused_workspace_id: Option<String>,
    pub focused_tab_id: Option<String>,
    pub focused_pane_id: Option<String>,
    pub workspaces: Vec<WorkspaceInfo>,
    pub tabs: Vec<TabInfo>,
    pub panes: Vec<PaneInfo>,
    pub layouts: Vec<PaneLayoutSnapshot>,
}

/// The name of a structural event.
#[derive(Clone, Copy, Debug, PartialEq, Eq, Structural)]
pub enum EventKind {
    WorkspaceCreated,
    WorkspaceUpdated,
    WorkspaceRenamed,
    WorkspaceMoved,
    WorkspaceClosed,
    WorkspaceFocused,
    WorktreeCreated,
    WorktreeOpened,
    WorktreeRemoved,
    TabCreated,
    TabClosed,
    TabFocused,
    TabRenamed,
    TabMoved,
    PaneCreated,
    PaneClosed,
    PaneFocused,
    PaneMoved,
    PaneExited,
    PaneAgentDetected,
    PaneAgentStatusChanged,
    PaneOutputChanged,
    LayoutUpdated,
    NotificationShown,
}

/// What a structural event carries.
#[derive(Debug)]
pub enum EventData {
    WorkspaceCreated { workspace: WorkspaceInfo },
    WorkspaceUpdated { workspace: WorkspaceInfo },
    WorkspaceClosed { workspace_id: String, workspace: Option<WorkspaceInfo> },
    WorkspaceRenamed { workspace_id: String, label: String },
    WorkspaceMoved { workspaces: Vec<WorkspaceInfo> },
    WorkspaceFocused { workspace_id: String },
    WorktreeCreated { workspace: WorkspaceInfo },
    WorktreeOpened { workspace: WorkspaceInfo },
    WorktreeRemoved { workspace: Option<WorkspaceInfo> },
    TabCreated { tab: TabInfo },
    TabClosed { tab_id: String, workspace_id: String },
    TabRenamed { tab_id: String, workspace_id: String, label: String },
    TabMoved { workspace_id: String, tabs: Vec<TabInfo> },
    TabFocused { tab_id: String, workspace_id: String },
    PaneCreated { pane: PaneInfo },
    PaneClosed { pane_id: String, workspace_id: String },
    PaneExited { pane_id: String, workspace_id: String },
    PaneFocused { pane_id: String, workspace_id: String },
    PaneMoved {
        previous_pane_id: String,
        previous_tab_id: String,
        pane: Box<PaneInfo>,
        created_workspace: Option<WorkspaceInfo>,
        created_tab: Option<TabInfo>,
        closed_workspace_id: Option<String>,
        closed_tab_id: Option<String>,
    },
    PaneAgentDetected { pane_id: String, workspace_id: String, agent: Option<String> },
    PaneAgentStatusChanged {
        pane_id: String,
        workspace_id: String,
        agent_status: AgentStatus,
        agent: Option<String>,
        title: Option<String>,
        display_agent: Option<String>,
        custom_status: Option<String>,
        state_labels: IdMap<String>,
    },
    PaneOutputChanged { pane_id: String, workspace_id: String, revision: u64 },
    LayoutUpdated { layout: PaneLayoutSnapshot },
    NotificationShown {
        kind: NotificationKind,
        title: String,
        context: String,
        workspace_id: Option<String>,
        pane_id: Option<String>,
    },
}

/// A structural event.
#[derive(Debug)]
pub struct EventEnvelope {
    pub event: EventKind,
    pub data: EventData,
}

/// Which way a split divides its area.
#[derive(Clone, Copy, Debug, PartialEq, Eq, Structural)]
pub enum SplitDirection {
    Right,
    Down,
}

/// A leaf of an exported layout.
#[derive(Debug)]
pub struct LayoutPane {
    pub pane_id: Option<String>,
    pub cwd: Option<String>,
}

/// An exported layout tree. A ratio is carried as the bits of its `f32`.
#[derive(Debug)]
pub enum LayoutNode {
    Pane { pane: LayoutPane },
    Split {
        direction: SplitDirection,
        ratio: u32,
        first: Box<LayoutNode>,
        second: Box<LayoutNode>,
    },
}

/// An exported layout.
#[derive(Debug)]
pub struct LayoutDescription {
    pub root: LayoutNode,
    pub focused_pane_id: String,
    pub zoomed: bool,
}

/// A control-plane call.
#[derive(Clone, Debug, PartialEq, Eq)]
pub enum Method {
    SessionSnapshot,
    WorkspaceList,
    TabList { workspace_id: Option<String> },
    PaneList { workspace_id: Option<String> },
    LayoutExport { tab_id: Option<String>, pane_id: Option<String> },
    PaneFocus { pane_id: String },
    /// A structural mutation of the interactive app, carried as it was captured.
    Mutation { name: String, params: String },
}

/// A control-plane request.
#[derive(Clone, Debug, PartialEq, Eq)]
pub struct Request {
    pub id: String,
    pub method: Method,
}

/// What a successful control-plane call returned.
#[derive(Debug)]
pub enum ResponseResult {
    SessionSnapshot { snapshot: Box<SessionSnapshot> },
    WorkspaceList { workspaces: Vec<WorkspaceInfo> },
    TabList { tabs: Vec<TabInfo> },
    PaneList { panes: Vec<PaneInfo> },
    LayoutExport { layout: LayoutDescription },
    /// Any other result, as the text it was sent in.
    Other(String),
}

/// A subscription to one event kind.
#[derive(Clone, Debug, PartialEq, Eq)]
pub enum Subscription {
    WorkspaceCreated,
    WorkspaceUpdated,
    WorkspaceRenamed,
    WorkspaceMoved,
    WorkspaceClosed,
    WorkspaceFocused,
    WorktreeCreated,
    WorktreeOpened,
    WorktreeRemoved,
    TabCreated,
    TabClosed,
    TabFocused,
    TabRenamed,
    TabMoved,
    PaneCreated,
    PaneClosed,
    PaneFocused,
    PaneMoved,
    PaneExited,
    PaneAgentDetected,
    PaneAgentStatusChanged { pane_id: Option<String>, agent_status: Option<AgentStatus> },
    LayoutUpdated,
    NotificationShown,
}

/// The name of a polled subscription event.
#[derive(Clone, Copy, Debug, PartialEq, Eq, Structural)]
pub enum SubscriptionEventKind {
    PaneAgentStatusChanged,
    /// Any other polled event.
    Other,
}

/// A polled report of an agent's status.
#[derive(Debug)]
pub struct PaneAgentStatusEvent {
    pub pane_id: String,
    pub workspace_id: String,
    pub agent_status: AgentStatus,
    pub agent: Option<String>,
    pub title: Option<String>,
    pub display_agent: Option<String>,
    pub custom_status: Option<String>,
    pub state_labels: IdMap<String>,
}

/// What a polled subscription event carries.
#[derive(Debug)]
pub enum SubscriptionEventData {
    PaneAgentStatusChanged(PaneAgentStatusEvent),
    /// Any other polled event.
    Other,
}

/// A polled subscription event.
#[derive(Debug)]
pub struct SubscriptionEventEnvelope {
    pub event: SubscriptionEventKind,
    pub data: SubscriptionEventData,
}

} // verus!
