//! The session driver: what every event changes and what it asks for.
use crate::connection;
use crate::connection::{DataStep, MirrorApply, MirrorConnectionManager, Outgoing};
use crate::idmap;
use crate::local_mirror;
use crate::pane::{InputState, MouseEvent};
use crate::projection;
use crate::projection::{AppState, Mode, PaneId};
use crate::pump::ClientLoopEvent;
use crate::protocol::ServerMessage;
use crate::replica;
use crate::replica::{ReplicaChange, SessionReplica};
use crate::replica_laws;
use crate::routing;
use crate::routing::{
    find_focused, mouse_takes_focus, next_mode, pane_info_at, paste_bytes, redraws, KeyFacts,
    KeyRoute, PaneBox,
};
use crate::schema::{EventEnvelope, Method, NotificationKind};
use crate::terminal_state;
use crate::terminal_state::{AgentState, TerminalId};
use crate::text;
use crate::text::{is_listed, same_text};
use vstd::prelude::*;

verus! {

/// What a batch of structural events asks for, besides drawing.
#[derive(Debug)]
pub enum ControlAction {
    /// Open a new terminal as a reader and show it.
    Open { terminal_id: String },
    /// Close a terminal and show it no longer.
    Close { terminal_id: String },
    /// Move the writable bit.
    Focus { terminal_id: Option<String> },
    /// Show a notification for a while.
    Toast {
        kind: NotificationKind,
        title: String,
        context: String,
        workspace_id: Option<String>,
        pane_id: Option<String>,
    },
}

/// The action that a change asks for.
pub open spec fn action_for(change: ReplicaChange) -> Option<ControlAction> {
    match change {
        ReplicaChange::PaneAdded { terminal_id, .. } => Some(ControlAction::Open { terminal_id }),
        ReplicaChange::PaneRemoved { terminal_id, .. } => Some(
            ControlAction::Close { terminal_id },
        ),
        ReplicaChange::FocusChanged { terminal_id, .. } => Some(
            ControlAction::Focus { terminal_id },
        ),
        ReplicaChange::NotificationShown { kind, title, context, workspace_id, pane_id } => Some(
            ControlAction::Toast { kind, title, context, workspace_id, pane_id },
        ),
        ReplicaChange::LayoutChanged { .. } => None,
        ReplicaChange::StructureChanged => None,
    }
}

/// The change alters the structure that is drawn.
pub open spec fn is_structural(change: ReplicaChange) -> bool {
    !(change is NotificationShown)
}

/// What a batch of structural events comes to.
#[derive(Debug)]
pub struct ControlPlan {
    /// To be carried out in this order.
    pub actions: Vec<ControlAction>,
    /// Then project the replica again, once.
    pub reproject: bool,
    /// Then draw.
    pub redraw: bool,
}

/// The actions of a run of changes.
pub open spec fn actions_for(changes: Seq<ReplicaChange>) -> Seq<ControlAction> {
    changes.filter_map(|c: ReplicaChange| action_for(c))
}

/// Makes a plan of changes.
pub fn plan_changes(changes: Vec<ReplicaChange>) -> (r: ControlPlan)
    ensures
        r.actions@ == actions_for(changes@),
        r.reproject == exists|i: int| 0 <= i < changes@.len() && is_structural(#[trigger] changes@[i]),
        r.redraw == (changes@.len() > 0),
{
    let ghost all = changes@;
    let ghost pick = |c: ReplicaChange| action_for(c);
    let redraw = changes.len() > 0;
    let mut actions: Vec<ControlAction> = Vec::new();
    let mut reproject = false;
    for change in it: changes
        invariant
            it.seq() == all,
            pick == (|c: ReplicaChange| action_for(c)),
            actions@ == all.take(it.index() as int).filter_map(pick),
            reproject == exists|i: int|
                0 <= i < it.index() && is_structural(#[trigger] all[i]),
    {
        proof {
            assert(all.take(it.index() + 1).drop_last() =~= all.take(it.index() as int));
            assert(all.take(it.index() + 1).last() == change);
            assert(all[it.index() as int] == change);
        }
        match change {
            ReplicaChange::PaneAdded { terminal_id, .. } => {
                actions.push(ControlAction::Open { terminal_id });
                reproject = true;
            },
            ReplicaChange::PaneRemoved { terminal_id, .. } => {
                actions.push(ControlAction::Close { terminal_id });
                reproject = true;
            },
            ReplicaChange::FocusChanged { terminal_id, .. } => {
                actions.push(ControlAction::Focus { terminal_id });
                reproject = true;
            },
            ReplicaChange::LayoutChanged { .. } => {
                reproject = true;
            },
            ReplicaChange::StructureChanged => {
                reproject = true;
            },
            ReplicaChange::NotificationShown { kind, title, context, workspace_id, pane_id } => {
                actions.push(
                    ControlAction::Toast { kind, title, context, workspace_id, pane_id },
                );
            },
        }
        assert(actions@ =~= all.take(it.index() + 1).filter_map(pick));
    }
    assert(all.take(all.len() as int) =~= all);
    ControlPlan { actions, reproject, redraw }
}

/// The structure after a run of events.
pub open spec fn structure_after(
    s: replica::Structure,
    events: Seq<EventEnvelope>,
) -> replica::Structure
    decreases events.len(),
{
    if events.len() == 0 {
        s
    } else {
        structure_after(s, events.drop_last()).after(events.last().data)
    }
}

/// The changes that a run of events announces.
pub open spec fn changes_of(
    s: replica::Structure,
    events: Seq<EventEnvelope>,
) -> Seq<ReplicaChange>
    decreases events.len(),
{
    if events.len() == 0 {
        Seq::empty()
    } else {
        changes_of(s, events.drop_last()) + structure_after(s, events.drop_last()).notices(
            events.last().data,
        )
    }
}

/// A burst that is handled in two parts comes to what it comes to in one: the
/// same structure and the same changes in the same order.
pub proof fn bursts_can_be_split(
    s: replica::Structure,
    a: Seq<EventEnvelope>,
    b: Seq<EventEnvelope>,
)
    ensures
        structure_after(s, a + b) == structure_after(structure_after(s, a), b),
        changes_of(s, a + b) == changes_of(s, a) + changes_of(structure_after(s, a), b),
    decreases b.len(),
{
    if b.len() == 0 {
        assert(a + b =~= a);
        assert(changes_of(s, a) + Seq::<ReplicaChange>::empty() =~= changes_of(s, a));
    } else {
        bursts_can_be_split(s, a, b.drop_last());
        assert((a + b).drop_last() =~= a + b.drop_last());
        assert(changes_of(s, a + b) =~= changes_of(s, a) + changes_of(structure_after(s, a), b));
    }
}

/// The terminals that are connected after actions were carried out.
pub open spec fn connected_after(
    terminals: Set<Seq<char>>,
    actions: Seq<ControlAction>,
) -> Set<Seq<char>>
    decreases actions.len(),
{
    if actions.len() == 0 {
        terminals
    } else {
        let before = connected_after(terminals, actions.drop_last());
        match actions.last() {
            ControlAction::Open { terminal_id } => before.insert(terminal_id@),
            ControlAction::Close { terminal_id } => before.remove(terminal_id@),
            _ => before,
        }
    }
}

/// Every event of the run meets a structure with one pane per terminal, and keeps
/// panes and terminals together.
pub open spec fn keeps_terminals(s: replica::Structure, events: Seq<EventEnvelope>) -> bool {
    forall|i: int|
        0 <= i < events.len() ==> {
            let before = structure_after(s, events.take(i));
            replica_laws::one_pane_per_terminal(before) && replica_laws::keeps_terminals(
                before,
                (#[trigger] events[i]).data,
            )
        }
}

/// Carrying out the plan of a burst leaves exactly the terminals of the session
/// connected: one connection per terminal, however the events come.
pub proof fn plans_keep_one_connection_per_terminal(
    s: replica::Structure,
    events: Seq<EventEnvelope>,
)
    requires
        s.keyed(),
        s.panes.dom().finite(),
        keeps_terminals(s, events),
    ensures
        connected_after(s.terminals(), actions_for(changes_of(s, events))) == structure_after(
            s,
            events,
        ).terminals(),
{
    bursts_are_followed(s, events);
    actions_follow_changes(s.terminals(), changes_of(s, events));
}

proof fn bursts_are_followed(s: replica::Structure, events: Seq<EventEnvelope>)
    requires
        s.keyed(),
        s.panes.dom().finite(),
        keeps_terminals(s, events),
    ensures
        structure_after(s, events).keyed(),
        structure_after(s, events).panes.dom().finite(),
        replica_laws::followed(s.terminals(), changes_of(s, events)) == structure_after(
            s,
            events,
        ).terminals(),
    decreases events.len(),
{
    if events.len() > 0 {
        let head = events.drop_last();
        let last = events[events.len() - 1];
        assert(keeps_terminals(s, head)) by {
            assert forall|i: int| 0 <= i < head.len() implies {
                let before = structure_after(s, head.take(i));
                replica_laws::one_pane_per_terminal(before) && replica_laws::keeps_terminals(
                    before,
                    (#[trigger] head[i]).data,
                )
            } by {
                assert(head.take(i) =~= events.take(i));
                assert(events[i] == head[i]);
            }
        }
        bursts_are_followed(s, head);
        assert(events.take(events.len() - 1) =~= head);
        let before = structure_after(s, head);
        replica_laws::events_keep_ids(before, last.data);
        replica_laws::events_keep_panes_finite(before, last.data);
        replica_laws::connections_follow_panes(before, last.data);
        replica_laws::following_splits(
            s.terminals(),
            changes_of(s, head),
            before.notices(last.data),
        );
    }
}

proof fn actions_follow_changes(terminals: Set<Seq<char>>, changes: Seq<ReplicaChange>)
    ensures
        connected_after(terminals, actions_for(changes)) == replica_laws::followed(
            terminals,
            changes,
        ),
    decreases changes.len(),
{
    if changes.len() > 0 {
        let head = changes.drop_last();
        actions_follow_changes(terminals, head);
        let c = changes.last();
        let rest = actions_for(head);
        if action_for(c) is Some {
            assert(actions_for(changes) =~= rest.push(action_for(c)->0));
            assert(rest.push(action_for(c)->0).drop_last() =~= rest);
        } else {
            assert(actions_for(changes) =~= rest);
        }
    }
}

/// What a rebuilt replica asks of the data plane.
#[derive(Debug)]
pub struct ResyncPlan {
    /// Terminals to close and show no longer.
    pub close: Vec<String>,
    /// Terminals to open, the focused one as the writer.
    pub open: Vec<(String, bool)>,
    /// All terminals to show.
    pub show: Vec<String>,
    /// Where the writable bit goes in the end.
    pub focus: Option<String>,
}

/// What holds for a terminal that is to be opened.
pub open spec fn opened_as(focused: Option<Seq<char>>) -> spec_fn(Seq<char>) -> (Seq<char>, bool) {
    |id: Seq<char>| (id, focused == Some(id))
}

/// The terminals of a list that are to be opened.
pub open spec fn opens(list: Seq<(String, bool)>) -> Seq<(Seq<char>, bool)> {
    list.map_values(|o: (String, bool)| (o.0@, o.1))
}

/// The members of a list that are not in a set.
pub open spec fn outside_of(set: Set<Seq<char>>) -> spec_fn(Seq<char>) -> bool {
    |s: Seq<char>| !set.contains(s)
}

/// Compares the data plane with a rebuilt replica.
pub fn resync_plan(data: &MirrorConnectionManager, replica: &SessionReplica) -> (r: ResyncPlan)
    requires
        data.wf(),
        replica.wf(),
    ensures
        text::texts(r.close@) == idmap::id_order(data@.mirrors.dom()).filter(
            outside_of(replica@.terminals()),
        ),
        opens(r.open@) == idmap::id_order(replica@.terminals()).filter(
            outside_of(data@.links.dom()),
        ).map_values(opened_as(replica@.focused_terminal())),
        text::texts(r.show@) == idmap::id_order(replica@.terminals()),
        text::opt_text(r.focus) == replica@.focused_terminal(),
{
    let desired = replica.terminal_ids();
    let existing = data.terminal_ids();
    let ghost want = text::texts(desired@);
    let ghost have = text::texts(existing@);
    let ghost gone = outside_of(replica@.terminals());
    let mut close: Vec<String> = Vec::new();
    let mut i: usize = 0;
    proof {
        reveal(Seq::filter);
        assert(text::texts(close@) =~= have.take(0).filter(gone));
    }
    while i < existing.len()
        invariant
            i <= existing@.len(),
            have == text::texts(existing@),
            want == text::texts(desired@),
            idmap::lists(want, replica@.terminals()),
            gone == outside_of(replica@.terminals()),
            text::texts(close@) == have.take(i as int).filter(gone),
        decreases existing@.len() - i,
    {
        proof {
            reveal(Seq::filter);
            assert(have.take(i + 1).drop_last() =~= have.take(i as int));
            assert(want.contains(existing@[i as int]@) <==> replica@.terminals().contains(
                existing@[i as int]@,
            ));
        }
        if !is_listed(&desired, existing[i].as_str()) {
            text::add_text(&mut close, existing[i].as_str());
        }
        i = i + 1;
    }
    assert(have.take(have.len() as int) =~= have);
    let focus = match replica.focused_terminal_id() {
        Some(id) => Some(id.to_owned()),
        None => None,
    };
    let ghost shut = outside_of(data@.links.dom());
    let ghost as_opened = opened_as(replica@.focused_terminal());
    let mut open: Vec<(String, bool)> = Vec::new();
    let mut j: usize = 0;
    proof {
        reveal(Seq::filter);
        assert(opens(open@) =~= want.take(0).filter(shut).map_values(as_opened));
    }
    while j < desired.len()
        invariant
            j <= desired@.len(),
            data.wf(),
            want == text::texts(desired@),
            shut == outside_of(data@.links.dom()),
            as_opened == opened_as(replica@.focused_terminal()),
            text::opt_text(focus) == replica@.focused_terminal(),
            opens(open@) == want.take(j as int).filter(shut).map_values(as_opened),
        decreases desired@.len() - j,
    {
        let ghost sofar = want.take(j as int).filter(shut);
        proof {
            reveal(Seq::filter);
            assert(want.take(j + 1).drop_last() =~= want.take(j as int));
        }
        if !data.is_connected(desired[j].as_str()) {
            let writable = text::holds_text(&focus, desired[j].as_str());
            let ghost before = open@;
            open.push((desired[j].clone(), writable));
            proof {
                let id = desired@[j as int]@;
                assert(opens(open@) =~= opens(before).push((id, writable)));
                assert(sofar.push(id).map_values(as_opened) =~= sofar.map_values(as_opened).push(
                    (id, writable),
                ));
            }
        }
        j = j + 1;
    }
    assert(want.take(want.len() as int) =~= want);
    ResyncPlan { close, open, show: desired, focus }
}

/// After a resync whose steps all succeed, the terminals of the data plane are
/// exactly those of the session: what was there and stays, and what is opened.
pub proof fn resync_covers_the_session(
    mirrors: Set<Seq<char>>,
    links: Set<Seq<char>>,
    terminals: Set<Seq<char>>,
    id: Seq<char>,
)
    requires
        mirrors.finite(),
        terminals.finite(),
        links.subset_of(mirrors),
    ensures
        terminals.contains(id) <==> (mirrors.contains(id) && !idmap::id_order(mirrors).filter(
            outside_of(terminals),
        ).contains(id)) || idmap::id_order(terminals).filter(outside_of(links)).contains(id),
{
    idmap::finite_ids_can_be_listed(mirrors);
    idmap::finite_ids_can_be_listed(terminals);
    let have = idmap::id_order(mirrors);
    let want = idmap::id_order(terminals);
    assert(have.contains(id) <==> mirrors.contains(id));
    assert(want.contains(id) <==> terminals.contains(id));
    let gone = outside_of(terminals);
    let shut = outside_of(links);
    if mirrors.contains(id) && !terminals.contains(id) {
        let i = have.index_of(id);
        have.lemma_filter_contains(gone, i);
    }
    if have.filter(gone).contains(id) {
        let i = have.filter(gone).index_of(id);
        have.lemma_filter_pred(gone, i);
    }
    if terminals.contains(id) && !links.contains(id) {
        let i = want.index_of(id);
        want.lemma_filter_contains(shut, i);
    }
    if want.filter(shut).contains(id) {
        want.lemma_filter_contains_rev(shut, id);
    }
}

/// The size to drive the focused pane's terminal to.
#[derive(Debug)]
pub enum SizeStep {
    /// Nothing to do.
    Idle,
    /// Write the message, and then [`MirrorSession::size_forwarded`].
    Drive { outgoing: Outgoing, forwarded: (String, u16, u16) },
}

/// What is to be done about the size of the focused pane.
pub enum SizeSync {
    /// There is nothing to compare, the size is already on its way, or the
    /// connection is not the writer.
    Idle,
    /// The terminal has the size.
    Settled,
    /// The terminal is to be driven to the size.
    Drive { terminal: Seq<char>, cols: u16, rows: u16 },
}

/// Decides about the size of the focused pane: its content, at least one cell.
pub open spec fn size_sync(
    plane: connection::DataPlane,
    boxes: Seq<PaneBox>,
    last: Option<(Seq<char>, u16, u16)>,
) -> SizeSync {
    match routing::focused_box(boxes) {
        None => SizeSync::Idle,
        Some(b) => {
            let cols = local_mirror::at_least_one(b.inner_rect.width);
            let rows = local_mirror::at_least_one(b.inner_rect.height);
            match plane.focused {
                None => SizeSync::Idle,
                Some(id) => if plane.mirrors.dom().contains(id) && plane.mirrors[id].size == (
                    cols,
                    rows,
                ) {
                    SizeSync::Settled
                } else if last == Some((id, cols, rows)) || !(plane.links.dom().contains(id)
                    && plane.links[id]) {
                    SizeSync::Idle
                } else {
                    SizeSync::Drive { terminal: id, cols, rows }
                },
            }
        },
    }
}

/// A size that was forwarded is not forwarded again while nothing changes, so
/// drawing and resizing do not feed each other.
pub proof fn sizes_are_forwarded_once(
    plane: connection::DataPlane,
    boxes: Seq<PaneBox>,
    last: Option<(Seq<char>, u16, u16)>,
)
    ensures
        size_sync(plane, boxes, last) matches SizeSync::Drive { terminal, cols, rows }
            ==> size_sync(plane, boxes, Some((terminal, cols, rows))) is Idle,
        size_sync(plane, boxes, last) is Settled ==> size_sync(plane, boxes, None) is Settled,
{
}

/// Only the focused terminal is driven, over the connection that is its writer.
pub proof fn only_the_writer_is_driven(
    plane: connection::DataPlane,
    boxes: Seq<PaneBox>,
    last: Option<(Seq<char>, u16, u16)>,
)
    ensures
        size_sync(plane, boxes, last) matches SizeSync::Drive { terminal, cols, rows } ==> {
            &&& plane.focused == Some(terminal)
            &&& plane.links.dom().contains(terminal) && plane.links[terminal]
            &&& cols >= 1 && rows >= 1
        },
{
}

/// The size that was last forwarded.
pub open spec fn forwarded_size(o: Option<(String, u16, u16)>) -> Option<(Seq<char>, u16, u16)> {
    match o {
        Some(f) => Some((f.0@, f.1, f.2)),
        None => None,
    }
}

/// Where a mouse event lands.
#[derive(Debug)]
pub enum MouseTarget {
    /// On no pane: the focused terminal, and whether it has a mirror.
    NoPane { focused: Option<(String, bool)> },
    /// On a pane that the server knows nothing of.
    Unknown,
    /// On a pane of a terminal. Where `takes_focus` is set, focus moves there first.
    Pane {
        target: PaneBox,
        pane_id: String,
        terminal_id: String,
        mirrored: bool,
        takes_focus: bool,
    },
}

/// `i` is the first public id, in ascending order, of a local pane.
pub open spec fn first_alias(aliases: Map<Seq<char>, PaneId>, id: PaneId, i: int) -> bool {
    let order = idmap::id_order(aliases.dom());
    &&& 0 <= i < order.len()
    &&& aliases[order[i]] == id
    &&& forall|j: int| #![trigger order[j]] 0 <= j < i ==> aliases[order[j]] != id
}

/// The public id and the terminal of a local pane.
pub open spec fn pane_identity(
    aliases: Map<Seq<char>, PaneId>,
    panes: Map<Seq<char>, crate::schema::PaneInfo>,
    id: PaneId,
) -> Option<(Seq<char>, Seq<char>)> {
    if exists|i: int| first_alias(aliases, id, i) {
        let public = idmap::id_order(aliases.dom())[choose|i: int| first_alias(aliases, id, i)];
        if panes.dom().contains(public) {
            Some((public, panes[public].terminal_id@))
        } else {
            None
        }
    } else {
        None
    }
}

/// A terminal is on the screen.
pub open spec fn on_screen(
    aliases: Map<Seq<char>, PaneId>,
    panes: Map<Seq<char>, crate::schema::PaneInfo>,
    boxes: Seq<PaneBox>,
    terminal: Seq<char>,
) -> bool {
    exists|i: int|
        0 <= i < boxes.len() && (pane_identity(aliases, panes, (#[trigger] boxes[i]).id)
            matches Some((_, t)) && t == terminal)
}

/// A pane of the list shows a working agent.
pub open spec fn works(
    terminals: Map<Seq<char>, terminal_state::TerminalModel>,
    local: Seq<terminal_state::TerminalModel>,
    key: terminal_state::TerminalKey,
) -> bool {
    match key {
        terminal_state::TerminalKey::Named(k) => terminals.dom().contains(k) && terminals[k].state
            == AgentState::Working,
        terminal_state::TerminalKey::Local(n) => exists|j: int|
            0 <= j < local.len() && (#[trigger] local[j]).id
                == terminal_state::TerminalKey::Local(n) && local[j].state == AgentState::Working,
    }
}

/// Pane `p` of tab `t` of workspace `w` shows a working agent.
pub open spec fn works_at(app: projection::AppModel, w: int, t: int, p: int) -> bool {
    &&& 0 <= w < app.workspaces.len()
    &&& 0 <= t < app.workspaces[w].tabs.len()
    &&& 0 <= p < app.workspaces[w].tabs[t].panes.len()
    &&& works(
        app.terminals,
        app.local_terminals,
        app.workspaces[w].tabs[t].panes[p].1.terminal,
    )
}

/// Some pane shows a working agent.
pub open spec fn has_working_pane(app: projection::AppModel) -> bool {
    exists|w: int, t: int, p: int| works_at(app, w, t, p)
}

/// What the loop does after an event.
#[derive(Clone, Copy, Debug, PartialEq, Eq, Structural)]
pub enum AfterEvent {
    Stop,
    Draw,
    Wait,
}

/// Where a paste goes.
#[derive(Debug)]
pub enum PasteRoute {
    /// To the text input of the open overlay.
    Overlay,
    /// To the focused pane, if a writer takes it.
    Pane(Option<Outgoing>),
}

/// The state of a mirror session.
#[derive(Debug)]
pub struct MirrorSession {
    pub replica: SessionReplica,
    pub data: MirrorConnectionManager,
    pub state: AppState,
    pub client_size: (u16, u16),
    /// The size last forwarded, and to which terminal.
    pub last_forwarded_pane_size: Option<(String, u16, u16)>,
    pub mouse_scroll_lines: usize,
    pub needs_redraw: bool,
    pub spinner_tick: u32,
}

/// Everything but the data plane and the wish to draw stays.
pub open spec fn only_data_changed(before: MirrorSession, after: MirrorSession) -> bool {
    &&& after.replica == before.replica
    &&& after.state == before.state
    &&& after.client_size == before.client_size
    &&& after.last_forwarded_pane_size == before.last_forwarded_pane_size
    &&& after.mouse_scroll_lines == before.mouse_scroll_lines
    &&& after.spinner_tick == before.spinner_tick
}

/// After a timer tick: the spinner moves while some pane shows a working agent.
pub open spec fn ticked(s: MirrorSession) -> MirrorSession {
    if has_working_pane(s.state@) {
        MirrorSession {
            spinner_tick: if s.spinner_tick == u32::MAX {
                0
            } else {
                (s.spinner_tick + 1) as u32
            },
            needs_redraw: true,
            ..s
        }
    } else {
        s
    }
}

/// The host terminal took a new size.
pub open spec fn takes_size(
    before: MirrorSession,
    after: MirrorSession,
    cols: u16,
    rows: u16,
) -> bool {
    &&& after.client_size == (cols, rows)
    &&& after.needs_redraw
    &&& after.data@ == (connection::DataPlane {
        size: local_mirror::clamped((cols, rows)),
        ..before.data@
    })
    &&& after.replica == before.replica
    &&& after.state == before.state
    &&& after.last_forwarded_pane_size == before.last_forwarded_pane_size
    &&& after.mouse_scroll_lines == before.mouse_scroll_lines
    &&& after.spinner_tick == before.spinner_tick
}

/// The data plane with one more input for the emulator of a terminal.
pub open spec fn with_input(
    plane: connection::DataPlane,
    id: Seq<char>,
    input: local_mirror::EmulatorInput,
) -> connection::DataPlane {
    if plane.mirrors.dom().contains(id) {
        connection::DataPlane {
            mirrors: plane.mirrors.insert(id, plane.mirrors[id].with_input(input)),
            ..plane
        }
    } else {
        plane
    }
}

/// Input goes to the focused terminal, where it has a mirror, and its viewport
/// returns to the live edge.
pub open spec fn forwards_to_focused(
    before: MirrorSession,
    after: MirrorSession,
    data: Vec<u8>,
    r: Option<Outgoing>,
) -> bool {
    match before.data@.focused {
        Some(id) => if before.data@.mirrors.dom().contains(id) {
            &&& after.needs_redraw
            &&& after.data@ == with_input(
                before.data@,
                id,
                local_mirror::EmulatorInput::ScrollReset,
            )
            &&& connection::addresses(
                r,
                before.data@,
                id,
                crate::protocol::ClientMessage::Input { data },
            )
        } else {
            r is None && after.data@ == before.data@ && after.needs_redraw == before.needs_redraw
        },
        None => r is None && after.data@ == before.data@ && after.needs_redraw
            == before.needs_redraw,
    }
}

impl MirrorSession {
    /// The parts are well-formed.
    pub open spec fn wf(&self) -> bool {
        self.replica.wf() && self.data.wf() && self.state.wf()
    }

    /// A session before its first drawing.
    pub fn new(
        replica: SessionReplica,
        data: MirrorConnectionManager,
        state: AppState,
        cols: u16,
        rows: u16,
        mouse_scroll_lines: usize,
    ) -> (r: Self)
        requires
            replica.wf(),
            data.wf(),
            state.wf(),
        ensures
            r.wf(),
            r.replica == replica,
            r.data == data,
            r.state == state,
            r.client_size == (cols, rows),
            r.last_forwarded_pane_size is None,
            r.mouse_scroll_lines == mouse_scroll_lines,
            r.needs_redraw,
            r.spinner_tick == 0,
    {
        MirrorSession {
            replica,
            data,
            state,
            client_size: (cols, rows),
            last_forwarded_pane_size: None,
            mouse_scroll_lines,
            needs_redraw: true,
            spinner_tick: 0,
        }
    }

    /// The terminals to open at the start, the focused one as the writer.
    pub fn startup_opens(replica: &SessionReplica) -> (r: Vec<(String, bool)>)
        requires
            replica.wf(),
        ensures
            opens(r@) == idmap::id_order(replica@.terminals()).map_values(
                opened_as(replica@.focused_terminal()),
            ),
    {
        let ids = replica.terminal_ids();
        let focused = replica.focused_terminal_id();
        let r = MirrorConnectionManager::open_all(&ids, focused);
        assert(opens(r@) =~= text::texts(ids@).map_values(
            opened_as(replica@.focused_terminal()),
        ));
        r
    }

    /// Decides about the size of the focused pane after a drawing.
    pub fn sync_focused_pane_size(&mut self, boxes: &Vec<PaneBox>) -> (r: SizeStep)
        requires
            old(self).wf(),
        ensures
            final(self).wf(),
            final(self).data == old(self).data,
            final(self).needs_redraw == old(self).needs_redraw,
            final(self).replica == old(self).replica,
            final(self).state == old(self).state,
            final(self).client_size == old(self).client_size,
            final(self).mouse_scroll_lines == old(self).mouse_scroll_lines,
            final(self).spinner_tick == old(self).spinner_tick,
            match size_sync(
                old(self).data@,
                boxes@,
                forwarded_size(old(self).last_forwarded_pane_size),
            ) {
                SizeSync::Idle => r is Idle && final(self).last_forwarded_pane_size == old(
                    self,
                ).last_forwarded_pane_size,
                SizeSync::Settled => r is Idle && final(self).last_forwarded_pane_size is None,
                SizeSync::Drive { terminal, cols, rows } => {
                    &&& final(self).last_forwarded_pane_size == old(self).last_forwarded_pane_size
                    &&& r matches SizeStep::Drive { outgoing, forwarded }
                    &&& forwarded.0@ == terminal
                    &&& forwarded.1 == cols
                    &&& forwarded.2 == rows
                    &&& outgoing.terminal_id@ == terminal
                    &&& outgoing.message == (crate::protocol::ClientMessage::Resize {
                        cols,
                        rows,
                        cell_width_px: 0,
                        cell_height_px: 0,
                    })
                },
            },
    {
        let b = match find_focused(boxes) {
            Some(b) => b,
            None => {
                return SizeStep::Idle;
            },
        };
        let cols: u16 = if b.inner_rect.width < 1 {
            1
        } else {
            b.inner_rect.width
        };
        let rows: u16 = if b.inner_rect.height < 1 {
            1
        } else {
            b.inner_rect.height
        };
        let focused = match self.data.focused() {
            Some(id) => id.to_owned(),
            None => {
                return SizeStep::Idle;
            },
        };
        if let Some(runtime) = self.data.runtime(focused.as_str()) {
            let size = runtime.current_size();
            if size.0 == rows && size.1 == cols {
                self.last_forwarded_pane_size = None;
                return SizeStep::Idle;
            }
        }
        if let Some(last) = &self.last_forwarded_pane_size {
            if same_text(last.0.as_str(), focused.as_str()) && last.1 == cols && last.2 == rows {
                return SizeStep::Idle;
            }
        }
        match self.data.forward_resize(cols, rows) {
            Some(outgoing) => SizeStep::Drive { outgoing, forwarded: (focused, cols, rows) },
            None => SizeStep::Idle,
        }
    }

    /// Records a size that was forwarded.
    pub fn size_forwarded(&mut self, forwarded: (String, u16, u16))
        requires
            old(self).wf(),
        ensures
            *final(self) == (MirrorSession {
                last_forwarded_pane_size: Some(forwarded),
                ..*old(self)
            }),
    {
        self.last_forwarded_pane_size = Some(forwarded);
    }

    /// Records a new size of the host terminal.
    pub fn resized(&mut self, cols: u16, rows: u16)
        requires
            old(self).wf(),
        ensures
            final(self).wf(),
            takes_size(*old(self), *final(self), cols, rows),
    {
        self.client_size = (cols, rows);
        self.data.set_viewport(cols, rows);
        self.needs_redraw = true;
    }

    /// The public id and the terminal of a local pane.
    pub fn public_and_terminal_for_local_pane(&self, local_id: PaneId) -> (r: Option<
        (String, String),
    >)
        requires
            self.wf(),
        ensures
            match r {
                Some((public, terminal)) => pane_identity(
                    self.state@.aliases,
                    self.replica@.panes,
                    local_id,
                ) == Some((public@, terminal@)),
                None => pane_identity(self.state@.aliases, self.replica@.panes, local_id) is None,
            },
    {
        let ghost aliases = self.state.public_pane_id_aliases@;
        let ghost order = idmap::id_order(aliases.dom());
        let count: usize = self.state.public_pane_id_aliases.len();
        let mut i: usize = 0;
        while i < count
            invariant
                self.wf(),
                i <= count,
                count == order.len(),
                aliases == self.state.public_pane_id_aliases@,
                order == idmap::id_order(aliases.dom()),
                forall|j: int| #![trigger order[j]] 0 <= j < i ==> aliases[order[j]] != local_id,
            decreases count - i,
        {
            let (public, id) = self.state.public_pane_id_aliases.entry_at(i);
            if *id == local_id {
                proof {
                    assert(first_alias(aliases, local_id, i as int));
                    let c = choose|c: int| first_alias(aliases, local_id, c);
                    assert(first_alias(aliases, local_id, c));
                    assert(c == i) by {
                        if c < i {
                            assert(aliases[order[c]] != local_id);
                        } else if i < c {
                            assert(aliases[order[i as int]] != local_id);
                        }
                    }
                }
                return match self.replica.pane(public.as_str()) {
                    Some(pane) => Some((public.clone(), pane.terminal_id.clone())),
                    None => None,
                };
            }
            i = i + 1;
        }
        assert forall|c: int| !first_alias(aliases, local_id, c) by {
            if 0 <= c < order.len() {
                assert(aliases[order[c]] != local_id);
            }
        }
        None
    }

    /// Whether a terminal is on the screen.
    pub fn is_visible_terminal(&self, terminal_id: &str, boxes: &Vec<PaneBox>) -> (r: bool)
        requires
            self.wf(),
        ensures
            r == on_screen(self.state@.aliases, self.replica@.panes, boxes@, terminal_id@),
    {
        let mut i: usize = 0;
        while i < boxes.len()
            invariant
                self.wf(),
                i <= boxes@.len(),
                forall|j: int|
                    0 <= j < i ==> !(pane_identity(
                        self.state@.aliases,
                        self.replica@.panes,
                        (#[trigger] boxes@[j]).id,
                    ) matches Some((_, t)) && t == terminal_id@),
            decreases boxes@.len() - i,
        {
            if let Some((_, terminal)) = self.public_and_terminal_for_local_pane(boxes[i].id) {
                if same_text(terminal.as_str(), terminal_id) {
                    assert(pane_identity(
                        self.state@.aliases,
                        self.replica@.panes,
                        boxes@[i as int].id,
                    ) matches Some((_, t)) && t == terminal_id@);
                    return true;
                }
            }
            i = i + 1;
        }
        false
    }

    /// Applies a data message and returns what came of it and whether it calls for drawing: after a
    /// reset, a resize or a close, and for any terminal on the screen.
    pub fn apply_mirror(
        &mut self,
        terminal_id: &str,
        msg: ServerMessage,
        emulator: Result<(), String>,
        boxes: &Vec<PaneBox>,
    ) -> (r: (MirrorApply, bool))
        requires
            old(self).wf(),
        ensures
            final(self).wf(),
            only_data_changed(*old(self), *final(self)),
            final(self).needs_redraw == (old(self).needs_redraw || r.1),
            connection::applies(
                old(self).data@,
                final(self).data@,
                terminal_id@,
                msg,
                emulator is Ok,
                r.0,
            ),
            r.1 == match r.0 {
                MirrorApply::Applied(outcome) => outcome.needs_full_redraw || outcome.closed
                    || on_screen(
                    old(self).state@.aliases,
                    old(self).replica@.panes,
                    boxes@,
                    terminal_id@,
                ),
                _ => false,
            },
    {
        let applied = self.data.apply(terminal_id, msg, emulator);
        let redraw = match applied {
            MirrorApply::Applied(outcome) => outcome.needs_full_redraw || outcome.closed
                || self.is_visible_terminal(terminal_id, boxes),
            MirrorApply::NotMirror => false,
            MirrorApply::Unknown => false,
        };
        if redraw {
            self.needs_redraw = true;
        }
        (applied, redraw)
    }

    /// Routes a key and enters the mode that it leads to.
    pub fn handle_key(&mut self, key: KeyFacts, input_state: Option<InputState>) -> (r: KeyRoute)
        requires
            old(self).wf(),
        ensures
            final(self).wf(),
            r == routing::key_route(old(self).state.mode, key, input_state),
            *final(self) == (MirrorSession {
                state: AppState {
                    mode: routing::mode_after_key(old(self).state.mode, r),
                    ..old(self).state
                },
                needs_redraw: old(self).needs_redraw || routing::route_redraws(r),
                ..*old(self)
            }),
    {
        let route = routing::handle_key(self.state.mode, key, input_state);
        self.state.mode = next_mode(self.state.mode, route);
        if redraws(route) {
            self.needs_redraw = true;
        }
        route
    }

    /// Where a mouse event lands.
    pub fn mouse_target(&self, mouse: MouseEvent, boxes: &Vec<PaneBox>) -> (r: MouseTarget)
        requires
            self.wf(),
        ensures
            match routing::box_at(boxes@, mouse.column, mouse.row, true) {
                None => r matches MouseTarget::NoPane { focused } && match focused {
                    Some((id, mirrored)) => self.data@.focused == Some(id@) && mirrored
                        == self.data@.mirrors.dom().contains(id@),
                    None => self.data@.focused is None,
                },
                Some(b) => match pane_identity(self.state@.aliases, self.replica@.panes, b.id) {
                    None => r is Unknown,
                    Some((public, terminal)) => {
                        &&& r matches MouseTarget::Pane {
                            target,
                            pane_id,
                            terminal_id,
                            mirrored,
                            takes_focus,
                        }
                        &&& target == b
                        &&& pane_id@ == public
                        &&& terminal_id@ == terminal
                        &&& mirrored == self.data@.mirrors.dom().contains(terminal)
                        &&& takes_focus == routing::takes_focus(mouse.kind)
                    },
                },
            },
    {
        let target = match pane_info_at(boxes, mouse.column, mouse.row, true) {
            Some(b) => b,
            None => {
                return match self.data.focused() {
                    Some(id) => {
                        let mirrored = self.data.runtime(id).is_some();
                        MouseTarget::NoPane { focused: Some((id.to_owned(), mirrored)) }
                    },
                    None => MouseTarget::NoPane { focused: None },
                };
            },
        };
        match self.public_and_terminal_for_local_pane(target.id) {
            None => MouseTarget::Unknown,
            Some((pane_id, terminal_id)) => {
                let mirrored = self.data.runtime(terminal_id.as_str()).is_some();
                MouseTarget::Pane {
                    target,
                    pane_id,
                    terminal_id,
                    mirrored,
                    takes_focus: mouse_takes_focus(mouse.kind),
                }
            },
        }
    }

    /// Moves focus to the pane under the mouse: the handover to start and the
    /// call to make. `None` where the terminal is focused already, so a burst of
    /// wheel turns asks nothing of the server.
    pub fn focus_pane_for_input(&mut self, pane_id: String, terminal_id: &str) -> (r: Option<
        (DataStep, Method),
    >)
        requires
            old(self).wf(),
        ensures
            final(self).wf(),
            only_data_changed(*old(self), *final(self)),
            final(self).needs_redraw == old(self).needs_redraw,
            if old(self).data@.focused == Some(terminal_id@) {
                r is None && final(self).data@ == old(self).data@
            } else {
                r matches Some((step, method)) && method == (Method::PaneFocus { pane_id })
                    && connection::moves_focus(
                    step,
                    old(self).data@,
                    final(self).data@,
                    Some(terminal_id@),
                )
            },
    {
        let focused_already = match self.data.focused() {
            Some(id) => same_text(id, terminal_id),
            None => false,
        };
        if focused_already {
            return None;
        }
        let step = self.data.set_focus(Some(terminal_id));
        Some((step, Method::PaneFocus { pane_id }))
    }

    fn reset_viewport(&mut self, terminal_id: &str)
        requires
            old(self).wf(),
        ensures
            final(self).wf(),
            only_data_changed(*old(self), *final(self)),
            final(self).needs_redraw == old(self).needs_redraw,
            final(self).data@ == with_input(
                old(self).data@,
                terminal_id@,
                local_mirror::EmulatorInput::ScrollReset,
            ),
    {
        match self.data.runtime_mut(terminal_id) {
            Some(runtime) => {
                runtime.scroll_reset();
            },
            None => {},
        }
    }

    /// Addresses an encoded mouse report to a terminal. Nothing happens where
    /// the terminal encodes none.
    pub fn forward_report(
        &mut self,
        terminal_id: &str,
        encoded: Option<Vec<u8>>,
        reset_scroll: bool,
    ) -> (r: Option<Outgoing>)
        requires
            old(self).wf(),
        ensures
            final(self).wf(),
            only_data_changed(*old(self), *final(self)),
            match encoded {
                None => r is None && final(self).data@ == old(self).data@
                    && final(self).needs_redraw == old(self).needs_redraw,
                Some(data) => {
                    &&& final(self).needs_redraw
                    &&& final(self).data@ == (if reset_scroll {
                        with_input(
                            old(self).data@,
                            terminal_id@,
                            local_mirror::EmulatorInput::ScrollReset,
                        )
                    } else {
                        old(self).data@
                    })
                    &&& connection::addresses(
                        r,
                        old(self).data@,
                        terminal_id@,
                        crate::protocol::ClientMessage::Input { data },
                    )
                },
            },
    {
        match encoded {
            None => None,
            Some(data) => {
                if reset_scroll {
                    self.reset_viewport(terminal_id);
                }
                self.needs_redraw = true;
                self.data.forward_input_to(terminal_id, data)
            },
        }
    }

    /// Addresses input to the focused terminal and returns its viewport to the
    /// live edge. Nothing happens where the focused terminal has no mirror or
    /// there is no input.
    fn forward_to_focused(&mut self, data: Vec<u8>) -> (r: Option<Outgoing>)
        requires
            old(self).wf(),
        ensures
            final(self).wf(),
            only_data_changed(*old(self), *final(self)),
            forwards_to_focused(*old(self), *final(self), data, r),
    {
        let focused = match self.data.focused() {
            Some(id) => id.to_owned(),
            None => {
                return None;
            },
        };
        if self.data.runtime(focused.as_str()).is_none() {
            return None;
        }
        self.reset_viewport(focused.as_str());
        self.needs_redraw = true;
        self.data.forward_input_to(focused.as_str(), data)
    }

    /// Addresses an encoded key to the focused terminal.
    pub fn forward_key(&mut self, encoded: Vec<u8>) -> (r: Option<Outgoing>)
        requires
            old(self).wf(),
        ensures
            final(self).wf(),
            only_data_changed(*old(self), *final(self)),
            if encoded@.len() == 0 {
                r is None && final(self).data@ == old(self).data@ && final(self).needs_redraw
                    == old(self).needs_redraw
            } else {
                forwards_to_focused(*old(self), *final(self), encoded, r)
            },
    {
        if encoded.len() == 0 {
            return None;
        }
        self.forward_to_focused(encoded)
    }

    /// Routes a paste: to the open overlay, or to the focused terminal.
    pub fn forward_paste(&mut self, pasted: &str, input_state: Option<InputState>) -> (r:
        PasteRoute)
        requires
            old(self).wf(),
        ensures
            final(self).wf(),
            only_data_changed(*old(self), *final(self)),
            if old(self).state.mode != Mode::Terminal {
                r is Overlay && final(self).data@ == old(self).data@ && final(self).needs_redraw
            } else {
                exists|data: Vec<u8>|
                    #![trigger data@]
                    data@ == routing::paste_bytes_of(
                        pasted@,
                        input_state matches Some(state) && state.bracketed_paste,
                    ) && (r matches PasteRoute::Pane(out) && forwards_to_focused(
                        *old(self),
                        *final(self),
                        data,
                        out,
                    ))
            },
    {
        if self.state.mode != Mode::Terminal {
            self.needs_redraw = true;
            return PasteRoute::Overlay;
        }
        let data = paste_bytes(pasted, input_state);
        let out = self.forward_to_focused(data);
        PasteRoute::Pane(out)
    }

    /// Scrolls a terminal's viewport.
    pub fn scroll_terminal(&mut self, terminal_id: &str, up: bool, lines: usize)
        requires
            old(self).wf(),
        ensures
            final(self).wf(),
            only_data_changed(*old(self), *final(self)),
            final(self).data@ == with_input(
                old(self).data@,
                terminal_id@,
                if up {
                    local_mirror::EmulatorInput::ScrollUp(lines)
                } else {
                    local_mirror::EmulatorInput::ScrollDown(lines)
                },
            ),
            final(self).needs_redraw == (old(self).needs_redraw || old(
                self,
            ).data@.mirrors.dom().contains(terminal_id@)),
    {
        match self.data.runtime_mut(terminal_id) {
            Some(runtime) => {
                if up {
                    runtime.scroll_up(lines);
                } else {
                    runtime.scroll_down(lines);
                }
                self.needs_redraw = true;
            },
            None => {},
        }
    }

    /// Scrolls the focused terminal's viewport.
    pub fn scroll_focused(&mut self, up: bool, lines: usize)
        requires
            old(self).wf(),
        ensures
            final(self).wf(),
            only_data_changed(*old(self), *final(self)),
            match old(self).data@.focused {
                Some(id) => final(self).data@ == with_input(
                    old(self).data@,
                    id,
                    if up {
                        local_mirror::EmulatorInput::ScrollUp(lines)
                    } else {
                        local_mirror::EmulatorInput::ScrollDown(lines)
                    },
                ) && final(self).needs_redraw == (old(self).needs_redraw || old(
                    self,
                ).data@.mirrors.dom().contains(id)),
                None => final(self).data@ == old(self).data@ && final(self).needs_redraw == old(
                    self,
                ).needs_redraw,
            },
    {
        let focused = match self.data.focused() {
            Some(id) => id.to_owned(),
            None => {
                return;
            },
        };
        self.scroll_terminal(focused.as_str(), up, lines);
    }

    /// Applies a batch of structural events and plans what follows. However many
    /// events the batch holds, the replica is projected once.
    pub fn handle_control_events(&mut self, events: Vec<EventEnvelope>) -> (r: ControlPlan)
        requires
            old(self).wf(),
        ensures
            final(self).wf(),
            final(self).replica@ == structure_after(old(self).replica@, events@),
            final(self).data == old(self).data,
            final(self).state == old(self).state,
            final(self).client_size == old(self).client_size,
            final(self).last_forwarded_pane_size == old(self).last_forwarded_pane_size,
            final(self).mouse_scroll_lines == old(self).mouse_scroll_lines,
            final(self).spinner_tick == old(self).spinner_tick,
            final(self).needs_redraw == (old(self).needs_redraw || r.redraw),
            ({
                let changes = changes_of(old(self).replica@, events@);
                &&& r.actions@ == actions_for(changes)
                &&& r.reproject == exists|i: int|
                    0 <= i < changes.len() && is_structural(#[trigger] changes[i])
                &&& r.redraw == (changes.len() > 0)
            }),
    {
        let ghost all = events@;
        let ghost before = self.replica@;
        let ghost start = *self;
        let mut changes: Vec<ReplicaChange> = Vec::new();
        for envelope in it: events
            invariant
                it.seq() == all,
                self.wf(),
                self.data == start.data,
                self.state == start.state,
                self.client_size == start.client_size,
                self.last_forwarded_pane_size == start.last_forwarded_pane_size,
                self.mouse_scroll_lines == start.mouse_scroll_lines,
                self.spinner_tick == start.spinner_tick,
                self.needs_redraw == start.needs_redraw,
                self.replica@ == structure_after(before, all.take(it.index() as int)),
                changes@ == changes_of(before, all.take(it.index() as int)),
        {
            proof {
                assert(all.take(it.index() + 1).drop_last() =~= all.take(it.index() as int));
                assert(all.take(it.index() + 1).last() == envelope);
            }
            let mut more = self.replica.apply_event(envelope);
            changes.append(&mut more);
        }
        assert(all.take(all.len() as int) =~= all);
        let plan = plan_changes(changes);
        if plan.redraw {
            self.needs_redraw = true;
        }
        plan
    }

    /// Adopts a replica that was rebuilt after the event feed was lost, and plans
    /// what the data plane has to follow.
    pub fn resync(&mut self, replica: SessionReplica) -> (r: ResyncPlan)
        requires
            old(self).wf(),
            replica.wf(),
        ensures
            final(self).wf(),
            final(self).replica == replica,
            final(self).data == old(self).data,
            final(self).state == old(self).state,
            final(self).client_size == old(self).client_size,
            final(self).last_forwarded_pane_size == old(self).last_forwarded_pane_size,
            final(self).mouse_scroll_lines == old(self).mouse_scroll_lines,
            final(self).spinner_tick == old(self).spinner_tick,
            final(self).needs_redraw,
            text::texts(r.close@) == idmap::id_order(old(self).data@.mirrors.dom()).filter(
                outside_of(replica@.terminals()),
            ),
            opens(r.open@) == idmap::id_order(replica@.terminals()).filter(
                outside_of(old(self).data@.links.dom()),
            ).map_values(opened_as(replica@.focused_terminal())),
            text::texts(r.show@) == idmap::id_order(replica@.terminals()),
            text::opt_text(r.focus) == replica@.focused_terminal(),
    {
        let plan = resync_plan(&self.data, &replica);
        self.replica = replica;
        self.needs_redraw = true;
        plan
    }

    /// The terminals of the data plane that are not among those shown.
    pub fn unregistered(&self, shown: &Vec<String>) -> (r: Vec<String>)
        requires
            self.wf(),
        ensures
            text::texts(r@) == idmap::id_order(self.data@.mirrors.dom()).filter(
                outside_of(text::texts(shown@).to_set()),
            ),
    {
        let ids = self.data.terminal_ids();
        let ghost have = text::texts(ids@);
        let ghost hidden = outside_of(text::texts(shown@).to_set());
        let mut r: Vec<String> = Vec::new();
        let mut i: usize = 0;
        proof {
            reveal(Seq::filter);
            assert(text::texts(r@) =~= have.take(0).filter(hidden));
        }
        while i < ids.len()
            invariant
                i <= ids@.len(),
                have == text::texts(ids@),
                hidden == outside_of(text::texts(shown@).to_set()),
                text::texts(r@) == have.take(i as int).filter(hidden),
            decreases ids@.len() - i,
        {
            proof {
                reveal(Seq::filter);
                assert(have.take(i + 1).drop_last() =~= have.take(i as int));
            }
            if !is_listed(shown, ids[i].as_str()) {
                text::add_text(&mut r, ids[i].as_str());
            }
            i = i + 1;
        }
        assert(have.take(have.len() as int) =~= have);
        r
    }

    fn terminal_works(&self, id: &TerminalId) -> (r: bool)
        requires
            self.wf(),
        ensures
            r == works(self.state@.terminals, self.state@.local_terminals, id@),
    {
        match id {
            TerminalId::Named(name) => match self.state.terminals.get(name.as_str()) {
                Some(terminal) => terminal.state == AgentState::Working,
                None => false,
            },
            TerminalId::Local(n) => {
                let ghost local = self.state@.local_terminals;
                let mut i: usize = 0;
                while i < self.state.local_terminals.len()
                    invariant
                        i <= self.state.local_terminals@.len(),
                        *id == TerminalId::Local(*n),
                        local == self.state@.local_terminals,
                        forall|j: int|
                            0 <= j < i ==> !((#[trigger] local[j]).id
                                == terminal_state::TerminalKey::Local(*n) && local[j].state
                                == AgentState::Working),
                    decreases self.state.local_terminals@.len() - i,
                {
                    let terminal = &self.state.local_terminals[i];
                    assert(local[i as int] == terminal@);
                    let same = match &terminal.id {
                        TerminalId::Local(m) => *m == *n,
                        TerminalId::Named(_) => false,
                    };
                    if same && terminal.state == AgentState::Working {
                        return true;
                    }
                    i = i + 1;
                }
                false
            },
        }
    }

    fn shows_working_agent(&self) -> (r: bool)
        requires
            self.wf(),
        ensures
            r == has_working_pane(self.state@),
    {
        let ghost app = self.state@;
        let mut w: usize = 0;
        while w < self.state.workspaces.len()
            invariant
                self.wf(),
                app == self.state@,
                w <= self.state.workspaces@.len(),
                forall|x: int, t: int, p: int| 0 <= x < w ==> !works_at(app, x, t, p),
            decreases self.state.workspaces@.len() - w,
        {
            let workspace = &self.state.workspaces[w];
            assert(app.workspaces[w as int] == workspace@);
            let mut t: usize = 0;
            while t < workspace.tabs.len()
                invariant
                    self.wf(),
                    app == self.state@,
                    w < self.state.workspaces@.len(),
                    app.workspaces[w as int] == workspace@,
                    t <= workspace.tabs@.len(),
                    forall|x: int, y: int, p: int| 0 <= x < w ==> !works_at(app, x, y, p),
                    forall|y: int, p: int| 0 <= y < t ==> !works_at(app, w as int, y, p),
                decreases workspace.tabs@.len() - t,
            {
                let tab = &workspace.tabs[t];
                assert(app.workspaces[w as int].tabs[t as int] == tab@);
                let mut p: usize = 0;
                while p < tab.panes.len()
                    invariant
                        self.wf(),
                        app == self.state@,
                        w < self.state.workspaces@.len(),
                        app.workspaces[w as int] == workspace@,
                        t < workspace.tabs@.len(),
                        app.workspaces[w as int].tabs[t as int] == tab@,
                        p <= tab.panes@.len(),
                        forall|z: int| 0 <= z < p ==> !works_at(app, w as int, t as int, z),
                    decreases tab.panes@.len() - p,
                {
                    assert(tab@.panes[p as int].1 == tab.panes@[p as int].1@);
                    if self.terminal_works(&tab.panes[p].1.terminal_id) {
                        assert(works_at(app, w as int, t as int, p as int));
                        return true;
                    }
                    p = p + 1;
                }
                t = t + 1;
            }
            w = w + 1;
        }
        false
    }

    /// Advances the spinner while some pane shows a working agent. An idle
    /// session is not drawn again.
    pub fn tick_animation(&mut self)
        requires
            old(self).wf(),
        ensures
            *final(self) == ticked(*old(self)),
    {
        if self.shows_working_agent() {
            self.spinner_tick = self.spinner_tick.wrapping_add(1);
            self.needs_redraw = true;
        }
    }

    /// What follows an event: stop where the user quit or detached, draw where
    /// something changed.
    pub fn after_event(&mut self, should_quit: bool, detach_requested: bool) -> (r: AfterEvent)
        ensures
            r == (if should_quit || detach_requested {
                AfterEvent::Stop
            } else if old(self).needs_redraw {
                AfterEvent::Draw
            } else {
                AfterEvent::Wait
            }),
            *final(self) == (MirrorSession {
                needs_redraw: if r == AfterEvent::Draw {
                    false
                } else {
                    old(self).needs_redraw
                },
                ..*old(self)
            }),
    {
        if should_quit || detach_requested {
            return AfterEvent::Stop;
        }
        if self.needs_redraw {
            self.needs_redraw = false;
            return AfterEvent::Draw;
        }
        AfterEvent::Wait
    }
}

/// What an event of the client loop asks for.
#[derive(Debug)]
pub enum EventRoute {
    /// Nothing more.
    Done,
    /// Take the bytes apart into keys, mouse events and pastes.
    Input(Vec<u8>),
    /// Apply a data message, with those that follow it.
    Mirror { terminal_id: String, msg: ServerMessage },
    /// Connect a terminal again, where it is still tracked.
    Reconnect(Option<DataStep>),
    /// Apply a structural event, with those that follow it.
    Control(Box<EventEnvelope>),
    /// Ask for a snapshot and resync.
    Resync,
}

impl MirrorSession {
    /// Takes an event of the client loop.
    pub fn on_event(&mut self, event: ClientLoopEvent) -> (r: EventRoute)
        requires
            old(self).wf(),
        ensures
            final(self).wf(),
            match event {
                ClientLoopEvent::StdinInput(data) => r == EventRoute::Input(data) && *final(self)
                    == *old(self),
                ClientLoopEvent::Resize(cols, rows, _, _) => {
                    r is Done && takes_size(*old(self), *final(self), cols, rows)
                },
                ClientLoopEvent::ServerMirror { terminal_id, msg } => r == (EventRoute::Mirror {
                    terminal_id,
                    msg,
                }) && *final(self) == *old(self),
                ClientLoopEvent::ServerMirrorDisconnected { terminal_id } => {
                    &&& only_data_changed(*old(self), *final(self))
                    &&& final(self).needs_redraw == old(self).needs_redraw
                    &&& final(self).data@ == old(self).data@.without_link(terminal_id@)
                    &&& r matches EventRoute::Reconnect(next)
                    &&& match next {
                        Some(step) => old(self).data@.mirrors.dom().contains(terminal_id@)
                            && connection::connects(
                            step,
                            final(self).data@,
                            terminal_id@,
                            old(self).data@.focused == Some(terminal_id@),
                        ),
                        None => !old(self).data@.mirrors.dom().contains(terminal_id@),
                    }
                },
                ClientLoopEvent::ControlEvent(envelope) => r == EventRoute::Control(envelope)
                    && *final(self) == *old(self),
                ClientLoopEvent::ControlDisconnected => r is Resync && *final(self) == *old(self),
                ClientLoopEvent::ServerMessage(_) => r is Done && *final(self) == *old(self),
                ClientLoopEvent::ServerDisconnected => r is Done && *final(self) == *old(self),
                ClientLoopEvent::Timer => r is Done && *final(self) == ticked(*old(self)),
            },
    {
        match event {
            ClientLoopEvent::StdinInput(data) => EventRoute::Input(data),
            ClientLoopEvent::Resize(cols, rows, _, _) => {
                self.resized(cols, rows);
                EventRoute::Done
            },
            ClientLoopEvent::ServerMirror { terminal_id, msg } => EventRoute::Mirror {
                terminal_id,
                msg,
            },
            ClientLoopEvent::ServerMirrorDisconnected { terminal_id } => EventRoute::Reconnect(
                self.data.reconnect(terminal_id.as_str()),
            ),
            ClientLoopEvent::ControlEvent(envelope) => EventRoute::Control(envelope),
            ClientLoopEvent::ControlDisconnected => EventRoute::Resync,
            ClientLoopEvent::ServerMessage(_) => EventRoute::Done,
            ClientLoopEvent::ServerDisconnected => EventRoute::Done,
            ClientLoopEvent::Timer => {
                self.tick_animation();
                EventRoute::Done
            },
        }
    }
}

/// What is said where no server answers.
pub fn unreachable_message(err: &str) -> (r: String)
    ensures
        r@ == "herdr --mirror: could not connect to a herdr server ("@ + err@
            + "). Is one running?"@,
{
    "herdr --mirror: could not connect to a herdr server (".to_owned().concat(err).concat(
        "). Is one running?",
    )
}

} // verus!
