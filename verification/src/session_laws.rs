//! What holds of every event of a session.
use crate::connection::{DataPlane, Outgoing};
use crate::idmap;
use crate::local_mirror::EmulatorInput;
use crate::mirror_laws;
use crate::projection;
use crate::projection::PaneId;
use crate::protocol::ClientMessage;
use crate::replica;
use crate::replica::ReplicaChange;
use crate::routing;
use crate::routing::PaneBox;
use crate::schema::{EventEnvelope, NotificationKind, PaneInfo};
use crate::session;
use crate::session::{ControlAction, MirrorSession, SizeSync};
use crate::terminal_state::{AgentState, TerminalKey};
use crate::text;
use vstd::prelude::*;

verus! {

/// A new pane's terminal is opened, a gone pane's is closed, a focus change moves the
/// focus to its terminal, and a notification is shown as it came; other changes ask for
/// nothing but to be drawn.
pub proof fn changes_ask_for_actions(
    pane_id: String,
    terminal_id: String,
    focused: Option<String>,
    focused_terminal: Option<String>,
    kind: NotificationKind,
    title: String,
    context: String,
)
    ensures
        session::action_for(ReplicaChange::PaneAdded { pane_id, terminal_id }) == Some(
            (ControlAction::Open { terminal_id }),
        ),
        session::action_for(ReplicaChange::PaneRemoved { pane_id, terminal_id }) == Some(
            (ControlAction::Close { terminal_id }),
        ),
        session::action_for(
            (ReplicaChange::FocusChanged { pane_id: focused, terminal_id: focused_terminal }),
        ) == Some((ControlAction::Focus { terminal_id: focused_terminal })),
        session::action_for(
            (ReplicaChange::NotificationShown {
                kind,
                title,
                context,
                workspace_id: focused_terminal,
                pane_id: focused,
            }),
        ) == Some(
            (ControlAction::Toast {
                kind,
                title,
                context,
                workspace_id: focused_terminal,
                pane_id: focused,
            }),
        ),
        session::action_for(ReplicaChange::LayoutChanged { tab_id: pane_id }) is None,
        session::action_for(ReplicaChange::StructureChanged) is None,
{
}

/// Every change but a notification alters what is drawn.
pub proof fn only_notifications_change_nothing(change: ReplicaChange)
    ensures
        session::is_structural(change) <==> !(change is NotificationShown),
{
}

/// Actions come in the order of the changes that ask for them.
pub proof fn actions_keep_their_order(changes: Seq<ReplicaChange>, c: ReplicaChange)
    ensures
        session::actions_for(Seq::empty()).len() == 0,
        ({
            let before = session::actions_for(changes);
            let after = session::actions_for(changes.push(c));
            match session::action_for(c) {
                Some(action) => after == before.push(action),
                None => after == before,
            }
        }),
{
    reveal(Seq::filter_map);
    assert(changes.push(c).drop_last() =~= changes);
    let before = session::actions_for(changes);
    let after = session::actions_for(changes.push(c));
    if let Some(action) = session::action_for(c) {
        assert(after =~= before.push(action));
    } else {
        assert(after =~= before);
    }
}

/// A burst applies its events one by one, in the order in which they came, and announces
/// what they announce.
pub proof fn bursts_apply_every_event(
    s: replica::Structure,
    events: Seq<EventEnvelope>,
    e: EventEnvelope,
)
    ensures
        session::structure_after(s, Seq::empty()) == s,
        session::changes_of(s, Seq::empty()).len() == 0,
        session::structure_after(s, events.push(e)) == session::structure_after(s, events).after(
            e.data,
        ),
        session::changes_of(s, events.push(e)) == session::changes_of(s, events)
            + session::structure_after(s, events).notices(e.data),
{
    assert(events.push(e).drop_last() =~= events);
}

/// A terminal is opened under its id, as the writer exactly where it is the focused one.
pub proof fn only_the_focused_terminal_writes(
    focused: Option<Seq<char>>,
    id: Seq<char>,
    list: Seq<(String, bool)>,
    i: int,
    set: Set<Seq<char>>,
)
    ensures
        session::opened_as(focused)(id).0 == id,
        session::opened_as(focused)(id).1 <==> focused == Some(id),
        session::opens(list).len() == list.len(),
        0 <= i < list.len() ==> session::opens(list)[i].0 == list[i].0@ && session::opens(list)[i].1
            == list[i].1,
        session::outside_of(set)(id) <==> !set.contains(id),
{
}

/// The focused pane's terminal is driven to the size of the pane's content, at least one
/// cell each way, where it has another size, that size is not on its way already and its
/// connection is the writer. It is settled exactly where it has the size.
pub proof fn the_focused_terminal_follows_its_pane(
    plane: DataPlane,
    boxes: Seq<PaneBox>,
    last: Option<(Seq<char>, u16, u16)>,
    b: PaneBox,
    id: Seq<char>,
)
    ensures
        routing::focused_box(boxes) is None || plane.focused is None ==> session::size_sync(
            plane,
            boxes,
            last,
        ) is Idle,
        routing::focused_box(boxes) == Some(b) && plane.focused == Some(id) ==> {
            let cols = mirror_laws::cells(b.inner_rect.width);
            let rows = mirror_laws::cells(b.inner_rect.height);
            let has_size = plane.mirrors.dom().contains(id) && plane.mirrors[id].size == (
                cols,
                rows,
            );
            let on_its_way = last == Some((id, cols, rows));
            let writes = plane.links.dom().contains(id) && plane.links[id];
            let todo = session::size_sync(plane, boxes, last);
            &&& has_size ==> todo is Settled
            &&& !has_size && (on_its_way || !writes) ==> todo is Idle
            &&& !has_size && !on_its_way && writes ==> todo == (SizeSync::Drive {
                terminal: id,
                cols,
                rows,
            })
        },
{
    mirror_laws::lengths_are_at_least_one_cell(b.inner_rect.width, b.inner_rect.height);
    mirror_laws::lengths_are_at_least_one_cell(b.inner_rect.height, b.inner_rect.width);
}

/// The forwarded size is that of its fields.
pub proof fn forwarded_sizes_are_as_recorded(id: String, cols: u16, rows: u16)
    ensures
        session::forwarded_size(Some((id, cols, rows))) == Some((id@, cols, rows)),
        session::forwarded_size(None) is None,
{
}

/// The id leads to the local pane, and no id before it does.
pub open spec fn is_least_alias(
    aliases: Map<Seq<char>, PaneId>,
    id: PaneId,
    public: Seq<char>,
) -> bool {
    &&& aliases.dom().contains(public)
    &&& aliases[public] == id
    &&& forall|k: Seq<char>| #[trigger]
        aliases.dom().contains(k) && aliases[k] == id && k != public ==> text::text_less(public, k)
}

/// A local pane has the least public id that leads to it, and the terminal of that pane
/// where the replica holds it. A pane that no public id leads to has neither.
pub proof fn local_panes_have_the_least_id(
    aliases: Map<Seq<char>, PaneId>,
    panes: Map<Seq<char>, PaneInfo>,
    id: PaneId,
    public: Seq<char>,
)
    requires
        aliases.dom().finite(),
    ensures
        is_least_alias(aliases, id, public) && panes.dom().contains(public)
            ==> session::pane_identity(aliases, panes, id) == Some(
            (public, panes[public].terminal_id@),
        ),
        is_least_alias(aliases, id, public) && !panes.dom().contains(public)
            ==> session::pane_identity(aliases, panes, id) is None,
        (forall|k: Seq<char>| #[trigger] aliases.dom().contains(k) ==> aliases[k] != id)
            ==> session::pane_identity(aliases, panes, id) is None,
{
    let order = idmap::id_order(aliases.dom());
    idmap::finite_ids_can_be_listed(aliases.dom());
    if is_least_alias(aliases, id, public) {
        assert(order.contains(public));
        let i = order.index_of(public);
        assert(order[i] == public);
        assert(session::first_alias(aliases, id, i)) by {
            assert forall|j: int| #![trigger order[j]] 0 <= j < i implies aliases[order[j]]
                != id by {
                assert(order.contains(order[j]));
                assert(text::text_less(order[j], order[i]));
                if aliases[order[j]] == id {
                    assert(aliases.dom().contains(order[j]));
                    text::text_less_transitive(public, order[j], public);
                    text::text_less_irreflexive(public);
                }
            }
        }
        let c = choose|c: int| session::first_alias(aliases, id, c);
        assert(session::first_alias(aliases, id, c));
        if c < i {
            assert(aliases[order[c]] != id);
        } else if i < c {
            assert(aliases[order[i]] != id);
        }
    }
    if forall|k: Seq<char>| #[trigger] aliases.dom().contains(k) ==> aliases[k] != id {
        assert forall|c: int| !session::first_alias(aliases, id, c) by {
            if 0 <= c < order.len() {
                assert(order.contains(order[c]));
                assert(aliases.dom().contains(order[c]));
            }
        }
    }
}

/// A terminal is on the screen exactly where the pane of some box has it.
pub proof fn drawn_terminals_are_on_screen(
    aliases: Map<Seq<char>, PaneId>,
    panes: Map<Seq<char>, PaneInfo>,
    boxes: Seq<PaneBox>,
    terminal: Seq<char>,
    i: int,
)
    ensures
        0 <= i < boxes.len() && (session::pane_identity(aliases, panes, boxes[i].id) matches Some(
            (_, t),
        ) && t == terminal) ==> session::on_screen(aliases, panes, boxes, terminal),
        (forall|j: int|
            0 <= j < boxes.len() ==> !(session::pane_identity(
                aliases,
                panes,
                (#[trigger] boxes[j]).id,
            ) matches Some((_, t)) && t == terminal)) ==> !session::on_screen(
            aliases,
            panes,
            boxes,
            terminal,
        ),
{
}

/// A pane works where its terminal does: the server's one where its agent is working, a
/// local one where the terminal of that number is. The view works where one of its panes
/// does.
pub proof fn panes_work_where_their_terminal_does(
    app: projection::AppModel,
    w: int,
    t: int,
    p: int,
    name: Seq<char>,
    n: u64,
    j: int,
)
    ensures
        session::works(app.terminals, app.local_terminals, TerminalKey::Named(name))
            <==> app.terminals.dom().contains(name) && app.terminals[name].state
            == AgentState::Working,
        0 <= j < app.local_terminals.len() && app.local_terminals[j].id == TerminalKey::Local(n)
            && app.local_terminals[j].state == AgentState::Working ==> session::works(
            app.terminals,
            app.local_terminals,
            TerminalKey::Local(n),
        ),
        (forall|x: int|
            0 <= x < app.local_terminals.len() ==> !((#[trigger] app.local_terminals[x]).id
                == TerminalKey::Local(n) && app.local_terminals[x].state == AgentState::Working))
            ==> !session::works(app.terminals, app.local_terminals, TerminalKey::Local(n)),
        0 <= w < app.workspaces.len() && 0 <= t < app.workspaces[w].tabs.len() && 0 <= p
            < app.workspaces[w].tabs[t].panes.len() && session::works(
            app.terminals,
            app.local_terminals,
            app.workspaces[w].tabs[t].panes[p].1.terminal,
        ) ==> session::has_working_pane(app),
        session::has_working_pane(app) ==> exists|x: int, y: int, z: int|
            0 <= x < app.workspaces.len() && 0 <= y < app.workspaces[x].tabs.len() && 0 <= z
                < app.workspaces[x].tabs[y].panes.len() && session::works(
                app.terminals,
                app.local_terminals,
                (#[trigger] app.workspaces[x].tabs[y].panes[z]).1.terminal,
            ),
{
    if 0 <= w < app.workspaces.len() && 0 <= t < app.workspaces[w].tabs.len() && 0 <= p
        < app.workspaces[w].tabs[t].panes.len() && session::works(
        app.terminals,
        app.local_terminals,
        app.workspaces[w].tabs[t].panes[p].1.terminal,
    ) {
        assert(session::works_at(app, w, t, p));
    }
    if session::has_working_pane(app) {
        let (x, y, z) = choose|x: int, y: int, z: int| session::works_at(app, x, y, z);
        assert(session::works(
            app.terminals,
            app.local_terminals,
            app.workspaces[x].tabs[y].panes[z].1.terminal,
        ));
    }
}

/// All of the session but its data, its wish to draw and its spinner stays.
pub open spec fn rest_stays(before: MirrorSession, after: MirrorSession) -> bool {
    &&& after.replica == before.replica
    &&& after.state == before.state
    &&& after.last_forwarded_pane_size == before.last_forwarded_pane_size
    &&& after.mouse_scroll_lines == before.mouse_scroll_lines
}

/// A change of the data leaves all else as it is.
pub proof fn data_changes_leave_the_rest(before: MirrorSession, after: MirrorSession)
    requires
        session::only_data_changed(before, after),
    ensures
        rest_stays(before, after),
        after.client_size == before.client_size,
        after.spinner_tick == before.spinner_tick,
{
}

/// A tick turns the spinner by one, from the largest number to zero, and asks to draw
/// where some pane works; else it changes nothing.
pub proof fn ticks_turn_the_spinner(s: MirrorSession)
    ensures
        ({
            let after = session::ticked(s);
            &&& rest_stays(s, after)
            &&& after.data == s.data
            &&& after.client_size == s.client_size
            &&& session::has_working_pane(s.state@) ==> after.needs_redraw && (s.spinner_tick
                < u32::MAX ==> after.spinner_tick == s.spinner_tick + 1) && (s.spinner_tick
                == u32::MAX ==> after.spinner_tick == 0)
            &&& !session::has_working_pane(s.state@) ==> after == s
        }),
{
}

/// A new size of the host is kept as it is and becomes the viewport of the data, at least
/// one cell each way. The session is drawn anew, and nothing else changes.
pub proof fn host_sizes_reach_the_viewport(
    before: MirrorSession,
    after: MirrorSession,
    cols: u16,
    rows: u16,
)
    requires
        session::takes_size(before, after, cols, rows),
    ensures
        after.client_size.0 == cols && after.client_size.1 == rows,
        after.needs_redraw,
        after.data@.size.0 == mirror_laws::cells(cols),
        after.data@.size.1 == mirror_laws::cells(rows),
        after.data@.mirrors == before.data@.mirrors,
        after.data@.links == before.data@.links,
        after.data@.focused == before.data@.focused,
        after.data@.socket_path == before.data@.socket_path,
        after.data@.scrollback_bytes == before.data@.scrollback_bytes,
        rest_stays(before, after),
        after.spinner_tick == before.spinner_tick,
{
    mirror_laws::lengths_are_at_least_one_cell(cols, rows);
}

/// The plane is that of before with one more input, last, for the emulator of the
/// terminal.
pub open spec fn gets_input(
    p: DataPlane,
    q: DataPlane,
    id: Seq<char>,
    input: EmulatorInput,
) -> bool {
    &&& q.mirrors.dom() == p.mirrors.dom()
    &&& q.mirrors[id].pending.len() == p.mirrors[id].pending.len() + 1
    &&& q.mirrors[id].pending.last() == input
    &&& q.mirrors[id].pending.drop_last() == p.mirrors[id].pending
    &&& q.mirrors[id].size == p.mirrors[id].size
    &&& q.mirrors[id].last_seq == p.mirrors[id].last_seq
    &&& q.mirrors[id].scrollback_bytes == p.mirrors[id].scrollback_bytes
    &&& forall|k: Seq<char>| k != id ==> #[trigger] q.mirrors[k] == p.mirrors[k]
    &&& q.links == p.links
    &&& q.focused == p.focused
    &&& q.size == p.size
    &&& q.socket_path == p.socket_path
    &&& q.scrollback_bytes == p.scrollback_bytes
}

/// An input goes to the emulator of its terminal and nowhere else; for a terminal without
/// a mirror nothing changes.
pub proof fn inputs_go_to_one_emulator(p: DataPlane, id: Seq<char>, input: EmulatorInput)
    ensures
        p.mirrors.dom().contains(id) ==> gets_input(
            p,
            session::with_input(p, id, input),
            id,
            input,
        ),
        !p.mirrors.dom().contains(id) ==> session::with_input(p, id, input) == p,
{
    if p.mirrors.dom().contains(id) {
        let q = session::with_input(p, id, input);
        mirror_laws::scrolls_stay_local(p.mirrors[id], input);
        assert(q.mirrors.dom() =~= p.mirrors.dom());
    }
}

/// What is typed goes to the focused terminal as it is, where that has a mirror and its
/// connection is the writer, and its viewport returns to the live edge. Where there is
/// no such mirror nothing changes and nothing is sent.
pub proof fn typed_input_goes_to_the_focused_terminal(
    before: MirrorSession,
    after: MirrorSession,
    data: Vec<u8>,
    r: Option<Outgoing>,
    id: Seq<char>,
)
    requires
        session::forwards_to_focused(before, after, data, r),
    ensures
        ({
            let p = before.data@;
            let mirrored = p.focused == Some(id) && p.mirrors.dom().contains(id);
            &&& mirrored ==> {
                &&& after.needs_redraw
                &&& gets_input(p, after.data@, id, EmulatorInput::ScrollReset)
                &&& r is Some <==> p.links.dom().contains(id) && p.links[id]
                &&& r is Some ==> r->0.terminal_id@ == id && r->0.message == (
                ClientMessage::Input { data })
            }
            &&& p.focused is None || (p.focused == Some(id) && !p.mirrors.dom().contains(id)) ==> r
                is None && after.data@ == p && after.needs_redraw == before.needs_redraw
        }),
{
    inputs_go_to_one_emulator(before.data@, id, EmulatorInput::ScrollReset);
}

} // verus!
