//! The presentation of a projected terminal.
use crate::idmap::IdMap;
use crate::schema::{AgentStatus, PaneInfo};
use crate::text;
use vstd::prelude::*;

verus! {

/// What an agent is doing.
#[derive(Clone, Copy, Debug, PartialEq, Eq, Structural)]
pub enum AgentState {
    Idle,
    Working,
    Blocked,
    Unknown,
}

/// The identity of a projected terminal.
#[derive(Clone, Debug, PartialEq, Eq)]
pub enum TerminalId {
    /// The server's own id.
    Named(String),
    /// An id given out locally, for a leaf that the server sent nothing about.
    Local(u64),
}

/// The identity of a projected terminal, as a mathematical value.
pub enum TerminalKey {
    Named(Seq<char>),
    Local(u64),
}

impl View for TerminalId {
    type V = TerminalKey;

    open spec fn view(&self) -> TerminalKey {
        match *self {
            TerminalId::Named(id) => TerminalKey::Named(id@),
            TerminalId::Local(n) => TerminalKey::Local(n),
        }
    }
}

impl TerminalId {
    /// A copy of the id.
    pub fn copied(&self) -> (r: Self)
        ensures
            r == *self,
    {
        match self {
            TerminalId::Named(id) => TerminalId::Named(id.clone()),
            TerminalId::Local(n) => TerminalId::Local(*n),
        }
    }
}

/// What a pane shows besides its content.
#[derive(Debug)]
pub struct Presentation {
    pub title: Option<String>,
    pub display_agent: Option<String>,
    pub custom_status: Option<String>,
    pub state_labels: IdMap<String>,
}

/// A report of presentation fields. An absent field leaves what stands, unless
/// its clear flag is set; labels are replaced where there are any.
#[derive(Debug)]
pub struct AgentMetadataReport {
    pub source: String,
    pub title: Option<String>,
    pub display_agent: Option<String>,
    pub custom_status: Option<String>,
    pub state_labels: IdMap<String>,
    pub clear_title: bool,
    pub clear_display_agent: bool,
    pub clear_custom_status: bool,
    pub clear_state_labels: bool,
}

/// A projected terminal.
#[derive(Debug)]
pub struct TerminalState {
    pub id: TerminalId,
    pub cwd: String,
    pub manual_label: Option<String>,
    pub agent_name: Option<String>,
    pub fallback_state: AgentState,
    pub state: AgentState,
    pub presentation: Presentation,
}

/// A projected terminal, as a mathematical value.
#[verifier::ext_equal]
pub struct TerminalModel {
    pub id: TerminalKey,
    pub cwd: Seq<char>,
    pub manual_label: Option<Seq<char>>,
    pub agent_name: Option<Seq<char>>,
    pub fallback_state: AgentState,
    pub state: AgentState,
    pub title: Option<Seq<char>>,
    pub display_agent: Option<Seq<char>>,
    pub custom_status: Option<Seq<char>>,
    pub state_labels: Map<Seq<char>, String>,
}

impl View for TerminalState {
    type V = TerminalModel;

    open spec fn view(&self) -> TerminalModel {
        TerminalModel {
            id: self.id@,
            cwd: self.cwd@,
            manual_label: text::opt_text(self.manual_label),
            agent_name: text::opt_text(self.agent_name),
            fallback_state: self.fallback_state,
            state: self.state,
            title: text::opt_text(self.presentation.title),
            display_agent: text::opt_text(self.presentation.display_agent),
            custom_status: text::opt_text(self.presentation.custom_status),
            state_labels: self.presentation.state_labels@,
        }
    }
}

/// A field after a report: the reported value, or none where it is cleared, or
/// what stood.
pub open spec fn reported(
    stood: Option<Seq<char>>,
    value: Option<Seq<char>>,
    clear: bool,
) -> Option<Seq<char>> {
    if value is Some {
        value
    } else if clear {
        None
    } else {
        stood
    }
}

impl TerminalModel {
    /// A terminal without metadata.
    pub open spec fn bare(id: TerminalKey, cwd: Seq<char>) -> TerminalModel {
        TerminalModel {
            id,
            cwd,
            manual_label: None,
            agent_name: None,
            fallback_state: AgentState::Unknown,
            state: AgentState::Unknown,
            title: None,
            display_agent: None,
            custom_status: None,
            state_labels: Map::empty(),
        }
    }

    /// With what the server says of its pane.
    pub open spec fn described(self, info: PaneInfo) -> TerminalModel {
        let state = state_and_seen(info.agent_status).0;
        TerminalModel {
            manual_label: reported(self.manual_label, text::opt_text(info.label), false),
            agent_name: reported(self.agent_name, text::opt_text(info.agent), false),
            title: reported(self.title, text::opt_text(info.title), false),
            display_agent: reported(
                self.display_agent,
                text::opt_text(info.display_agent),
                false,
            ),
            custom_status: reported(
                self.custom_status,
                text::opt_text(info.custom_status),
                false,
            ),
            state_labels: if info.state_labels@ == Map::<Seq<char>, String>::empty() {
                self.state_labels
            } else {
                info.state_labels@
            },
            fallback_state: state,
            state,
            ..self
        }
    }
}

impl TerminalState {
    /// A terminal without metadata.
    pub fn new(id: TerminalId, cwd: String) -> (r: Self)
        ensures
            r@ == TerminalModel::bare(id@, cwd@),
    {
        TerminalState {
            id,
            cwd,
            manual_label: None,
            agent_name: None,
            fallback_state: AgentState::Unknown,
            state: AgentState::Unknown,
            presentation: Presentation {
                title: None,
                display_agent: None,
                custom_status: None,
                state_labels: IdMap::new(),
            },
        }
    }

    /// Sets the label that the user gave.
    pub fn set_manual_label(&mut self, label: String)
        ensures
            final(self)@ == (TerminalModel { manual_label: Some(label@), ..old(self)@ }),
    {
        self.manual_label = Some(label);
    }

    /// Sets the agent's name.
    pub fn set_agent_name(&mut self, name: String)
        ensures
            final(self)@ == (TerminalModel { agent_name: Some(name@), ..old(self)@ }),
    {
        self.agent_name = Some(name);
    }

    /// Takes a report. The state falls back to the detected one.
    pub fn set_agent_metadata(&mut self, report: AgentMetadataReport)
        ensures
            final(self)@ == (TerminalModel {
                title: reported(
                    old(self)@.title,
                    text::opt_text(report.title),
                    report.clear_title,
                ),
                display_agent: reported(
                    old(self)@.display_agent,
                    text::opt_text(report.display_agent),
                    report.clear_display_agent,
                ),
                custom_status: reported(
                    old(self)@.custom_status,
                    text::opt_text(report.custom_status),
                    report.clear_custom_status,
                ),
                state_labels: if report.state_labels@ != Map::<Seq<char>, String>::empty() {
                    report.state_labels@
                } else if report.clear_state_labels {
                    Map::empty()
                } else {
                    old(self)@.state_labels
                },
                state: old(self)@.fallback_state,
                ..old(self)@
            }),
    {
        if report.title.is_some() || report.clear_title {
            self.presentation.title = report.title;
        }
        if report.display_agent.is_some() || report.clear_display_agent {
            self.presentation.display_agent = report.display_agent;
        }
        if report.custom_status.is_some() || report.clear_custom_status {
            self.presentation.custom_status = report.custom_status;
        }
        if !report.state_labels.is_empty() {
            self.presentation.state_labels = report.state_labels;
        } else if report.clear_state_labels {
            self.presentation.state_labels = IdMap::new();
        }
        self.state = self.fallback_state;
    }

    /// What the pane shows besides its content.
    pub fn effective_presentation(&self) -> (r: &Presentation)
        ensures
            text::opt_text(r.title) == self@.title,
            text::opt_text(r.display_agent) == self@.display_agent,
            text::opt_text(r.custom_status) == self@.custom_status,
            r.state_labels@ == self@.state_labels,
    {
        &self.presentation
    }
}

/// The agent state and the seen flag that a status stands for. Done is the one
/// status that says unseen.
pub open spec fn state_and_seen(status: AgentStatus) -> (AgentState, bool) {
    match status {
        AgentStatus::Idle => (AgentState::Idle, true),
        AgentStatus::Working => (AgentState::Working, true),
        AgentStatus::Blocked => (AgentState::Blocked, true),
        AgentStatus::Done => (AgentState::Idle, false),
        AgentStatus::Unknown => (AgentState::Unknown, true),
    }
}

/// Splits a status into the agent state and the seen flag.
pub fn agent_status_to_state_and_seen(status: AgentStatus) -> (r: (AgentState, bool))
    ensures
        r == state_and_seen(status),
{
    match status {
        AgentStatus::Idle => (AgentState::Idle, true),
        AgentStatus::Working => (AgentState::Working, true),
        AgentStatus::Blocked => (AgentState::Blocked, true),
        AgentStatus::Done => (AgentState::Idle, false),
        AgentStatus::Unknown => (AgentState::Unknown, true),
    }
}

/// No two statuses stand for the same pair, and only Done stands for unseen.
pub proof fn statuses_are_told_apart(a: AgentStatus, b: AgentStatus)
    ensures
        state_and_seen(a) == state_and_seen(b) ==> a == b,
        !state_and_seen(a).1 <==> a == AgentStatus::Done,
{
}

/// The source under which the mirror reports presentation fields.
pub const MIRROR_METADATA_SOURCE: &'static str = "mirror";

/// Writes what the server says of a pane into its terminal. Returns whether the
/// pane was seen.
pub fn project_pane_metadata(terminal: &mut TerminalState, info: &PaneInfo) -> (r: bool)
    ensures
        final(terminal)@ == old(terminal)@.described(*info),
        r == state_and_seen(info.agent_status).1,
{
    if let Some(label) = &info.label {
        terminal.manual_label = Some(label.clone());
    }
    if let Some(agent) = &info.agent {
        terminal.agent_name = Some(agent.clone());
    }
    if info.title.is_some() || info.display_agent.is_some() || info.custom_status.is_some()
        || !info.state_labels.is_empty() {
        terminal.set_agent_metadata(
            AgentMetadataReport {
                source: MIRROR_METADATA_SOURCE.to_owned(),
                title: info.title.clone(),
                display_agent: info.display_agent.clone(),
                custom_status: info.custom_status.clone(),
                state_labels: info.state_labels.copied(),
                clear_title: false,
                clear_display_agent: false,
                clear_custom_status: false,
                clear_state_labels: false,
            },
        );
    }
    let (state, seen) = agent_status_to_state_and_seen(info.agent_status);
    terminal.fallback_state = state;
    terminal.state = state;
    seen
}

/// Describing a bare terminal leaves exactly what the server sent.
pub proof fn bare_terminal_shows_what_was_sent(
    id: TerminalKey,
    cwd: Seq<char>,
    info: PaneInfo,
)
    ensures
        ({
            let t = TerminalModel::bare(id, cwd).described(info);
            &&& t.manual_label == text::opt_text(info.label)
            &&& t.agent_name == text::opt_text(info.agent)
            &&& t.title == text::opt_text(info.title)
            &&& t.display_agent == text::opt_text(info.display_agent)
            &&& t.custom_status == text::opt_text(info.custom_status)
            &&& t.state_labels == info.state_labels@
            &&& t.state == state_and_seen(info.agent_status).0
            &&& t.id == id && t.cwd == cwd
        }),
{
}

} // verus!
