//! What holds of every replica and every event.
use crate::idmap;
use crate::replica;
use crate::replica::{ReplicaChange, Structure};
use crate::schema::{EventData, PaneInfo, SessionSnapshot, TabInfo, WorkspaceInfo};
use crate::text;
use vstd::prelude::*;

verus! {

/// The change opens or closes a data connection.
pub open spec fn concerns_connections(c: ReplicaChange) -> bool {
    c is PaneAdded || c is PaneRemoved
}

/// Every pane stays under its own id, and so does every layout.
pub proof fn events_keep_ids(s: Structure, data: EventData)
    requires
        s.keyed(),
    ensures
        s.after(data).keyed(),
{
}

/// A session has finitely many panes at all times.
pub proof fn events_keep_panes_finite(s: Structure, data: EventData)
    requires
        s.panes.dom().finite(),
    ensures
        s.after(data).panes.dom().finite(),
{
    match data {
        EventData::WorkspaceClosed { .. } | EventData::TabClosed { .. } => {
            vstd::set_lib::lemma_len_subset(s.after(data).panes.dom(), s.panes.dom());
        },
        _ => {},
    }
}

/// A pane that appears is announced with its terminal, whatever the event, but
/// for a move, which re-keys a pane that keeps its terminal.
pub proof fn appearing_panes_are_announced(s: Structure, data: EventData, id: Seq<char>)
    requires
        !(data is PaneMoved),
        s.after(data).panes.dom().contains(id),
        !s.panes.dom().contains(id),
    ensures
        exists|i: int|
            #![trigger s.notices(data)[i]]
            0 <= i < s.notices(data).len() && (s.notices(data)[i] matches ReplicaChange::PaneAdded {
                pane_id,
                terminal_id,
            } && pane_id@ == id && terminal_id == s.after(data).panes[id].terminal_id),
{
    assert(data is PaneCreated);
    assert(s.notices(data)[0] is PaneAdded);
}

/// A pane that goes is announced with its terminal, but for a move.
pub proof fn leaving_panes_are_announced(s: Structure, data: EventData, id: Seq<char>)
    requires
        s.keyed(),
        s.panes.dom().finite(),
        !(data is PaneMoved),
        s.panes.dom().contains(id),
        !s.after(data).panes.dom().contains(id),
    ensures
        exists|i: int|
            #![trigger s.notices(data)[i]]
            0 <= i < s.notices(data).len() && (s.notices(data)[i] matches ReplicaChange::PaneRemoved {
                pane_id,
                terminal_id,
            } && pane_id@ == id && terminal_id == s.panes[id].terminal_id),
{
    match data {
        EventData::WorkspaceClosed { workspace_id, .. } => {
            selected_pane_is_announced(
                s,
                |p: PaneInfo| p.workspace_id@ == workspace_id@,
                id,
            );
            let r = s.removals(|p: PaneInfo| p.workspace_id@ == workspace_id@);
            let i = choose|i: int| 0 <= i < r.len() && r[i] == replica::removal(s.panes[id]);
            assert(s.notices(data)[i] == r[i]);
        },
        EventData::TabClosed { tab_id, .. } => {
            selected_pane_is_announced(s, |p: PaneInfo| p.tab_id@ == tab_id@, id);
            let r = s.removals(|p: PaneInfo| p.tab_id@ == tab_id@);
            let i = choose|i: int| 0 <= i < r.len() && r[i] == replica::removal(s.panes[id]);
            assert(s.notices(data)[i] == r[i]);
        },
        _ => {
            assert(s.notices(data)[0] is PaneRemoved);
        },
    }
}

proof fn selected_pane_is_announced(
    s: Structure,
    hit: spec_fn(PaneInfo) -> bool,
    id: Seq<char>,
)
    requires
        s.panes.dom().finite(),
        s.panes.dom().contains(id),
        hit(s.panes[id]),
    ensures
        exists|i: int|
            0 <= i < s.removals(hit).len() && #[trigger] s.removals(hit)[i] == replica::removal(
                s.panes[id],
            ),
{
    let order = idmap::id_order(s.panes.dom());
    idmap::finite_ids_can_be_listed(s.panes.dom());
    let on_key = |k: Seq<char>| hit(s.panes[k]);
    assert(order.contains(id));
    let x = order.index_of(id);
    order.lemma_filter_contains(on_key, x);
    let i = s.selected(hit).index_of(id);
    assert(s.selected(hit)[i] == id);
    assert(s.removals(hit)[i] == replica::removal(s.panes[id]));
}

/// A pane that is announced as gone was there, on that terminal, and is gone.
pub proof fn announced_removals_are_true(s: Structure, data: EventData, i: int)
    requires
        s.keyed(),
        s.panes.dom().finite(),
        0 <= i < s.notices(data).len(),
        s.notices(data)[i] is PaneRemoved,
    ensures
        s.notices(data)[i] matches ReplicaChange::PaneRemoved { pane_id, terminal_id }
            && s.panes.dom().contains(pane_id@) && s.panes[pane_id@].terminal_id == terminal_id
            && !s.after(data).panes.dom().contains(pane_id@),
{
    match data {
        EventData::WorkspaceClosed { workspace_id, .. } => {
            announced_pane_is_selected(s, |p: PaneInfo| p.workspace_id@ == workspace_id@, i);
        },
        EventData::TabClosed { tab_id, .. } => {
            announced_pane_is_selected(s, |p: PaneInfo| p.tab_id@ == tab_id@, i);
        },
        _ => {},
    }
}

proof fn announced_pane_is_selected(s: Structure, hit: spec_fn(PaneInfo) -> bool, i: int)
    requires
        s.keyed(),
        s.panes.dom().finite(),
        0 <= i < s.removals(hit).len(),
    ensures
        ({
            let k = s.selected(hit)[i];
            &&& s.panes.dom().contains(k)
            &&& hit(s.panes[k])
            &&& s.panes[k].pane_id@ == k
            &&& s.removals(hit)[i] == replica::removal(s.panes[k])
        }),
{
    let order = idmap::id_order(s.panes.dom());
    idmap::finite_ids_can_be_listed(s.panes.dom());
    let on_key = |k: Seq<char>| hit(s.panes[k]);
    order.lemma_filter_pred(on_key, i);
    assert(s.selected(hit).contains(s.selected(hit)[i]));
    order.lemma_filter_contains_rev(on_key, s.selected(hit)[i]);
}

/// A pane that is announced as new stands after the event, on exactly that
/// terminal.
pub proof fn announced_additions_are_true(s: Structure, data: EventData, i: int)
    requires
        0 <= i < s.notices(data).len(),
        s.notices(data)[i] is PaneAdded,
    ensures
        s.notices(data)[i] matches ReplicaChange::PaneAdded { pane_id, terminal_id } && s.after(
            data,
        ).panes.dom().contains(pane_id@) && s.after(data).panes[pane_id@].terminal_id
            == terminal_id && s.after(data).panes[pane_id@].pane_id == pane_id,
{
    match data {
        EventData::WorkspaceClosed { workspace_id, .. } => {
            let r = s.removals(|p: PaneInfo| p.workspace_id@ == workspace_id@);
            if i < r.len() {
                assert(s.notices(data)[i] == r[i]);
            }
        },
        EventData::TabClosed { tab_id, .. } => {
            let r = s.removals(|p: PaneInfo| p.tab_id@ == tab_id@);
            if i < r.len() {
                assert(s.notices(data)[i] == r[i]);
            }
        },
        _ => {},
    }
}

/// A snapshot is read back: where its panes have ids of their own, each is found
/// under its id, and nothing is found under any other id. So it is with the
/// layouts, where each is of a tab of its own.
pub proof fn snapshots_are_read_back(snapshot: SessionSnapshot)
    ensures
        ({
            let s = replica::structure_of(snapshot);
            let panes = snapshot.panes@;
            let layouts = snapshot.layouts@;
            &&& (forall|i: int, j: int|
                0 <= i < j < panes.len() ==> (#[trigger] panes[i]).pane_id@ != (
                #[trigger] panes[j]).pane_id@) ==> {
                &&& forall|i: int|
                    0 <= i < panes.len() ==> s.panes.dom().contains(
                        (#[trigger] panes[i]).pane_id@,
                    ) && s.panes[panes[i].pane_id@] == panes[i]
                &&& forall|k: Seq<char>| #[trigger]
                    s.panes.dom().contains(k) ==> exists|i: int|
                        0 <= i < panes.len() && (#[trigger] panes[i]).pane_id@ == k
            }
            &&& (forall|i: int, j: int|
                0 <= i < j < layouts.len() ==> (#[trigger] layouts[i]).tab_id@ != (
                #[trigger] layouts[j]).tab_id@) ==> {
                &&& forall|i: int|
                    0 <= i < layouts.len() ==> s.layouts.dom().contains(
                        (#[trigger] layouts[i]).tab_id@,
                    ) && s.layouts[layouts[i].tab_id@] == layouts[i]
                &&& forall|k: Seq<char>| #[trigger]
                    s.layouts.dom().contains(k) ==> exists|i: int|
                        0 <= i < layouts.len() && (#[trigger] layouts[i]).tab_id@ == k
            }
        }),
{
    replica::listed_panes_are_held(snapshot.panes@);
    replica::listed_layouts_are_held(snapshot.layouts@);
}

/// A moved pane keeps its connection: a move announces no pane.
pub proof fn moves_keep_connections(s: Structure, data: EventData, i: int)
    requires
        data is PaneMoved,
        0 <= i < s.notices(data).len(),
    ensures
        !concerns_connections(s.notices(data)[i]),
{
}

/// Output and notifications leave the structure as it is and open or close nothing.
pub proof fn output_and_notifications_change_nothing(s: Structure, data: EventData)
    requires
        data is PaneOutputChanged || data is NotificationShown,
    ensures
        s.after(data) == s,
        data is PaneOutputChanged ==> s.notices(data).len() == 0,
        data is NotificationShown ==> s.notices(data).len() == 1 && s.notices(data)[0]
            is NotificationShown,
{
}

/// Closing a pane that was just created gives the former structure back.
pub proof fn closing_a_new_pane_restores(
    s: Structure,
    pane: PaneInfo,
    workspace_id: String,
)
    requires
        !s.panes.dom().contains(pane.pane_id@),
        s.focused_pane != Some(pane.pane_id@),
    ensures
        s.after(EventData::PaneCreated { pane }).after(
            EventData::PaneClosed { pane_id: pane.pane_id, workspace_id },
        ) == s,
{
    let back = s.after(EventData::PaneCreated { pane }).after(
        EventData::PaneClosed { pane_id: pane.pane_id, workspace_id },
    );
    assert(back.panes =~= s.panes);
    assert(back =~= s);
}

/// Closing a workspace leaves none of its tabs, none of its panes, no layout of
/// its tabs, and no focus on it or on a pane of it. All else stays.
pub proof fn closing_a_workspace_cascades(
    s: Structure,
    workspace_id: String,
    workspace: Option<WorkspaceInfo>,
)
    ensures
        ({
            let id = workspace_id@;
            let t = s.after(EventData::WorkspaceClosed { workspace_id, workspace });
            &&& forall|i: int|
                0 <= i < t.workspaces.len() ==> (#[trigger] t.workspaces[i]).workspace_id@ != id
            &&& forall|i: int| 0 <= i < t.tabs.len() ==> (#[trigger] t.tabs[i]).workspace_id@ != id
            &&& forall|k: Seq<char>| #[trigger]
                t.panes.dom().contains(k) <==> s.panes.dom().contains(k)
                    && s.panes[k].workspace_id@ != id
            &&& forall|k: Seq<char>| #[trigger]
                t.panes.dom().contains(k) ==> t.panes[k] == s.panes[k]
            &&& forall|k: Seq<char>| #[trigger]
                t.layouts.dom().contains(k) ==> !replica::tab_in_workspace(s.tabs, id, k)
            &&& t.focused_workspace != Some(id)
            &&& t.focused_pane matches Some(f) ==> s.focused_pane == Some(f) && !(
            s.panes.dom().contains(f) && s.panes[f].workspace_id@ == id)
        }),
{
    let id = workspace_id@;
    let t = s.after(EventData::WorkspaceClosed { workspace_id, workspace });
    assert forall|i: int| 0 <= i < t.workspaces.len() implies (
    #[trigger] t.workspaces[i]).workspace_id@ != id by {
        let p = |w: WorkspaceInfo| w.workspace_id@ != workspace_id@;
        assert(t.workspaces == s.workspaces.filter(p));
        s.workspaces.lemma_filter_pred(p, i);
    }
    assert forall|i: int| 0 <= i < t.tabs.len() implies (#[trigger] t.tabs[i]).workspace_id@
        != id by {
        let p = |w: TabInfo| w.workspace_id@ != workspace_id@;
        assert(t.tabs == s.tabs.filter(p));
        s.tabs.lemma_filter_pred(p, i);
    }
}

/// Closing a tab leaves no such tab, none of its panes, no layout of it, and no
/// focus on it or on a pane of it.
pub proof fn closing_a_tab_cascades(s: Structure, tab_id: String, workspace_id: String)
    ensures
        ({
            let id = tab_id@;
            let t = s.after(EventData::TabClosed { tab_id, workspace_id });
            &&& forall|i: int| 0 <= i < t.tabs.len() ==> (#[trigger] t.tabs[i]).tab_id@ != id
            &&& forall|k: Seq<char>| #[trigger]
                t.panes.dom().contains(k) <==> s.panes.dom().contains(k) && s.panes[k].tab_id@
                    != id
            &&& !t.layouts.dom().contains(id)
            &&& t.focused_tab != Some(id)
            &&& t.focused_pane matches Some(f) ==> s.focused_pane == Some(f) && !(
            s.panes.dom().contains(f) && s.panes[f].tab_id@ == id)
        }),
{
    let id = tab_id@;
    let t = s.after(EventData::TabClosed { tab_id, workspace_id });
    assert forall|i: int| 0 <= i < t.tabs.len() implies (#[trigger] t.tabs[i]).tab_id@ != id by {
        let p = |w: TabInfo| w.tab_id@ != tab_id@;
        assert(t.tabs == s.tabs.filter(p));
        s.tabs.lemma_filter_pred(p, i);
    }
}

/// No pane but the focused one carries the focus flag.
pub open spec fn flags_follow_focus(s: Structure) -> bool {
    forall|k: Seq<char>| #[trigger]
        s.panes.dom().contains(k) && s.panes[k].focused ==> s.focused_pane == Some(k)
}

/// A focus event moves the flag along with the focus.
pub proof fn focus_moves_the_flag(s: Structure, pane_id: String, workspace_id: String)
    requires
        flags_follow_focus(s),
    ensures
        ({
            let t = s.after(EventData::PaneFocused { pane_id, workspace_id });
            &&& flags_follow_focus(t)
            &&& t.focused_pane == Some(pane_id@)
            &&& s.focused_pane != Some(pane_id@) && s.panes.dom().contains(pane_id@)
                ==> t.panes[pane_id@].focused
            &&& t.panes.dom() =~= s.panes.dom()
        }),
{
}

/// A focus change names the terminal that is focused from then on.
pub proof fn focus_change_names_the_focused_terminal(
    s: Structure,
    pane_id: String,
    workspace_id: String,
)
    requires
        s.focused_pane != Some(pane_id@),
    ensures
        s.notices(EventData::PaneFocused { pane_id, workspace_id }).len() == 1,
        s.notices(EventData::PaneFocused { pane_id, workspace_id })[0]
            matches ReplicaChange::FocusChanged { terminal_id, .. } && text::opt_text(terminal_id)
            == s.after(EventData::PaneFocused { pane_id, workspace_id }).focused_terminal(),
{
}

/// Repeating a workspace update changes nothing more.
pub proof fn workspace_updates_are_idempotent(s: Structure, workspace: WorkspaceInfo)
    ensures
        s.after(EventData::WorkspaceUpdated { workspace }).after(
            EventData::WorkspaceUpdated { workspace },
        ) == s.after(EventData::WorkspaceUpdated { workspace }),
{
    let id = workspace.workspace_id@;
    let once = replica::with_workspace(s.workspaces, workspace);
    let i = if replica::has_workspace(s.workspaces, id) {
        replica::workspace_index(s.workspaces, id)
    } else {
        s.workspaces.len() as int
    };
    if !replica::has_workspace(s.workspaces, id) {
        no_workspace_anywhere(s.workspaces, id);
    }
    assert(replica::first_workspace(once, id, i));
    let j = replica::workspace_index(once, id);
    assert(replica::first_workspace(once, id, j));
    assert(i == j);
    assert(once.update(i, workspace) =~= once);
}

proof fn no_workspace_anywhere(ws: Seq<WorkspaceInfo>, id: Seq<char>)
    requires
        !replica::has_workspace(ws, id),
    ensures
        forall|j: int| 0 <= j < ws.len() ==> (#[trigger] ws[j]).workspace_id@ != id,
    decreases ws.len(),
{
    if ws.len() > 0 {
        let rest = ws.drop_last();
        if replica::has_workspace(rest, id) {
            let i = replica::workspace_index(rest, id);
            assert(replica::first_workspace(rest, id, i));
            assert forall|j: int| 0 <= j < i implies (#[trigger] ws[j]).workspace_id@ != id by {
                assert(rest[j] == ws[j]);
            }
            assert(replica::first_workspace(ws, id, i));
        }
        no_workspace_anywhere(rest, id);
        assert forall|j: int| 0 <= j < ws.len() implies (#[trigger] ws[j]).workspace_id@ != id by {
            if j < rest.len() {
                assert(rest[j] == ws[j]);
            } else if ws[j].workspace_id@ == id {
                assert forall|x: int| 0 <= x < j implies (#[trigger] ws[x]).workspace_id@
                    != id by {
                    assert(rest[x] == ws[x]);
                }
                assert(replica::first_workspace(ws, id, j));
            }
        }
    }
}

/// The terminals that are connected after changes were followed: one is connected
/// when its pane appears and closed when its pane goes.
pub open spec fn followed(terminals: Set<Seq<char>>, changes: Seq<ReplicaChange>) -> Set<
    Seq<char>,
>
    decreases changes.len(),
{
    if changes.len() == 0 {
        terminals
    } else {
        let before = followed(terminals, changes.drop_last());
        match changes.last() {
            ReplicaChange::PaneAdded { terminal_id, .. } => before.insert(terminal_id@),
            ReplicaChange::PaneRemoved { terminal_id, .. } => before.remove(terminal_id@),
            _ => before,
        }
    }
}

/// Following two runs of changes is following the one after the other.
pub proof fn following_splits(
    terminals: Set<Seq<char>>,
    a: Seq<ReplicaChange>,
    b: Seq<ReplicaChange>,
)
    ensures
        followed(terminals, a + b) == followed(followed(terminals, a), b),
    decreases b.len(),
{
    if b.len() == 0 {
        assert(a + b =~= a);
    } else {
        following_splits(terminals, a, b.drop_last());
        assert((a + b).drop_last() =~= a + b.drop_last());
    }
}

/// No two panes share a terminal.
pub open spec fn one_pane_per_terminal(s: Structure) -> bool {
    forall|j: Seq<char>, k: Seq<char>| #[trigger]
        s.panes.dom().contains(j) && #[trigger] s.panes.dom().contains(k) && j != k
            ==> s.panes[j].terminal_id@ != s.panes[k].terminal_id@
}

/// The event keeps panes and terminals together: a pane that is there is not
/// created on another terminal, and a pane that moves takes its terminal along
/// and takes no other pane's place.
pub open spec fn keeps_terminals(s: Structure, data: EventData) -> bool {
    match data {
        EventData::PaneCreated { pane } => s.panes.dom().contains(pane.pane_id@)
            ==> s.panes[pane.pane_id@].terminal_id@ == pane.terminal_id@,
        EventData::PaneMoved { previous_pane_id, pane, .. } => {
            &&& s.panes.dom().contains(previous_pane_id@)
            &&& s.panes[previous_pane_id@].terminal_id@ == pane.terminal_id@
            &&& pane.pane_id@ == previous_pane_id@ || !s.panes.dom().contains(pane.pane_id@)
        },
        _ => true,
    }
}

/// Where every terminal has one pane, following an event's changes leaves exactly
/// the terminals of the session connected.
pub proof fn connections_follow_panes(s: Structure, data: EventData)
    requires
        s.keyed(),
        s.panes.dom().finite(),
        one_pane_per_terminal(s),
        keeps_terminals(s, data),
    ensures
        followed(s.terminals(), s.notices(data)) == s.after(data).terminals(),
{
    let t = s.after(data);
    let all = s.terminals();
    let changes = s.notices(data);
    reveal_with_fuel(followed, 6);
    match data {
        EventData::WorkspaceClosed { workspace_id, .. } => {
            let hit = |p: PaneInfo| p.workspace_id@ == workspace_id@;
            removals_are_followed(s, hit);
            assert(changes.drop_last() =~= s.removals(hit));
            assert(t.terminals() =~= s.without_panes(hit).terminals());
        },
        EventData::TabClosed { tab_id, .. } => {
            let hit = |p: PaneInfo| p.tab_id@ == tab_id@;
            removals_are_followed(s, hit);
            assert(changes.drop_last() =~= s.removals(hit));
            assert(t.terminals() =~= s.without_panes(hit).terminals());
        },
        EventData::PaneCreated { pane } => {
            let id = pane.pane_id@;
            assert(t.panes.dom().contains(id));
            assert forall|x: Seq<char>| all.insert(pane.terminal_id@).contains(x)
                <==> t.terminals().contains(x) by {
                if all.contains(x) {
                    let k = choose|k: Seq<char>| #[trigger]
                        s.panes.dom().contains(k) && s.panes[k].terminal_id@ == x;
                    assert(t.panes.dom().contains(k) && t.panes[k].terminal_id@ == x);
                }
                if t.terminals().contains(x) && x != pane.terminal_id@ {
                    let k = choose|k: Seq<char>| #[trigger]
                        t.panes.dom().contains(k) && t.panes[k].terminal_id@ == x;
                    assert(s.panes.dom().contains(k));
                }
            }
            assert(followed(all, changes) =~= t.terminals());
        },
        EventData::PaneClosed { pane_id, .. } => {
            closed_pane_is_followed(s, pane_id);
        },
        EventData::PaneExited { pane_id, .. } => {
            closed_pane_is_followed(s, pane_id);
        },
        EventData::PaneFocused { pane_id, .. } => {
            focus_keeps_terminals(s, Some(pane_id@));
        },
        EventData::PaneMoved { previous_pane_id, pane, created_workspace, created_tab, .. } => {
            let placed = s.with_moved_pane(
                previous_pane_id@,
                *pane,
                created_workspace,
                created_tab,
            );
            assert forall|i: int| 0 <= i < changes.len() implies !concerns_connections(
                #[trigger] changes[i],
            ) by {
                moves_keep_connections(s, data, i);
            }
            nothing_to_follow(all, changes);
            assert(placed.terminals() =~= all) by {
                assert forall|x: Seq<char>| placed.terminals().contains(x) <==> all.contains(
                    x,
                ) by {
                    if placed.terminals().contains(x) {
                        let k = choose|k: Seq<char>| #[trigger]
                            placed.panes.dom().contains(k) && placed.panes[k].terminal_id@ == x;
                        if k == pane.pane_id@ {
                            assert(s.panes.dom().contains(previous_pane_id@));
                        } else {
                            assert(s.panes.dom().contains(k));
                        }
                    }
                    if all.contains(x) {
                        let k = choose|k: Seq<char>| #[trigger]
                            s.panes.dom().contains(k) && s.panes[k].terminal_id@ == x;
                        if k == previous_pane_id@ {
                            assert(placed.panes.dom().contains(pane.pane_id@));
                        } else {
                            assert(placed.panes.dom().contains(k));
                        }
                    }
                }
            }
            focus_keeps_terminals(placed, Some(pane.pane_id@));
            assert(t.terminals() =~= all);
        },
        _ => {
            same_terminals(s, t);
        },
    }
}

proof fn nothing_to_follow(terminals: Set<Seq<char>>, changes: Seq<ReplicaChange>)
    requires
        forall|i: int| 0 <= i < changes.len() ==> !concerns_connections(#[trigger] changes[i]),
    ensures
        followed(terminals, changes) == terminals,
    decreases changes.len(),
{
    if changes.len() > 0 {
        let head = changes.drop_last();
        assert forall|i: int| 0 <= i < head.len() implies !concerns_connections(
            #[trigger] head[i],
        ) by {
            assert(changes[i] == head[i]);
        }
        nothing_to_follow(terminals, head);
        assert(!concerns_connections(changes[changes.len() - 1]));
    }
}

proof fn same_terminals(s: Structure, t: Structure)
    requires
        t.panes.dom() =~= s.panes.dom(),
        forall|k: Seq<char>| #[trigger]
            s.panes.dom().contains(k) ==> t.panes[k].terminal_id == s.panes[k].terminal_id,
    ensures
        t.terminals() == s.terminals(),
{
    assert forall|x: Seq<char>| t.terminals().contains(x) <==> s.terminals().contains(x) by {
        if t.terminals().contains(x) {
            let k = choose|k: Seq<char>| #[trigger]
                t.panes.dom().contains(k) && t.panes[k].terminal_id@ == x;
            assert(s.panes.dom().contains(k));
        }
        if s.terminals().contains(x) {
            let k = choose|k: Seq<char>| #[trigger]
                s.panes.dom().contains(k) && s.panes[k].terminal_id@ == x;
            assert(t.panes.dom().contains(k));
        }
    }
    assert(t.terminals() =~= s.terminals());
}

proof fn focus_keeps_terminals(s: Structure, pane: Option<Seq<char>>)
    ensures
        s.with_focus(pane).terminals() == s.terminals(),
{
    same_terminals(s, s.with_focus(pane));
}

proof fn closed_pane_is_followed(s: Structure, pane_id: String)
    requires
        one_pane_per_terminal(s),
    ensures
        followed(s.terminals(), s.pane_closed_notice(pane_id)) == s.without_pane(
            pane_id@,
        ).terminals(),
{
    reveal_with_fuel(followed, 4);
    let id = pane_id@;
    let t = s.without_pane(id);
    if s.panes.dom().contains(id) {
        let gone = s.panes[id].terminal_id@;
        assert forall|x: Seq<char>| s.terminals().remove(gone).contains(x)
            <==> t.terminals().contains(x) by {
            if s.terminals().contains(x) && x != gone {
                let k = choose|k: Seq<char>| #[trigger]
                    s.panes.dom().contains(k) && s.panes[k].terminal_id@ == x;
                assert(t.panes.dom().contains(k));
            }
            if t.terminals().contains(x) {
                let k = choose|k: Seq<char>| #[trigger]
                    t.panes.dom().contains(k) && t.panes[k].terminal_id@ == x;
                assert(s.panes.dom().contains(k));
            }
        }
        assert(s.terminals().remove(gone) =~= t.terminals());
        let notice = s.pane_closed_notice(pane_id);
        if s.focused_pane == Some(id) {
            assert(notice.drop_last() =~= seq![notice[0]]);
        }
        assert(seq![notice[0]].drop_last() =~= Seq::<ReplicaChange>::empty());
        assert(followed(s.terminals(), notice) =~= s.terminals().remove(gone));
    }
}

/// Closing the connections of selected panes leaves those of the others.
proof fn removals_are_followed(s: Structure, hit: spec_fn(PaneInfo) -> bool)
    requires
        s.keyed(),
        s.panes.dom().finite(),
        one_pane_per_terminal(s),
    ensures
        followed(s.terminals(), s.removals(hit)) == s.without_panes(hit).terminals(),
{
    let t = s.without_panes(hit);
    let gone = s.removals(hit);
    following_removals(s.terminals(), gone);
    assert forall|x: Seq<char>| followed(s.terminals(), gone).contains(x)
        <==> t.terminals().contains(x) by {
        if followed(s.terminals(), gone).contains(x) {
            let k = choose|k: Seq<char>| #[trigger]
                s.panes.dom().contains(k) && s.panes[k].terminal_id@ == x;
            if hit(s.panes[k]) {
                selected_pane_is_announced(s, hit, k);
                let i = choose|i: int|
                    0 <= i < gone.len() && #[trigger] gone[i] == replica::removal(s.panes[k]);
                assert(closes(gone[i], x));
            }
            assert(t.panes.dom().contains(k));
        }
        if t.terminals().contains(x) {
            let k = choose|k: Seq<char>| #[trigger]
                t.panes.dom().contains(k) && t.panes[k].terminal_id@ == x;
            assert(s.panes.dom().contains(k));
            assert forall|i: int| 0 <= i < gone.len() implies !closes(#[trigger] gone[i], x) by {
                announced_pane_is_selected(s, hit, i);
                let j = s.selected(hit)[i];
                assert(s.panes.dom().contains(j));
            }
        }
    }
    assert(followed(s.terminals(), gone) =~= t.terminals());
}

/// The change closes the terminal.
spec fn closes(c: ReplicaChange, terminal: Seq<char>) -> bool {
    c matches ReplicaChange::PaneRemoved { terminal_id, .. } && terminal_id@ == terminal
}

/// No change closes the terminal.
spec fn spared(changes: Seq<ReplicaChange>, terminal: Seq<char>) -> bool {
    forall|i: int| 0 <= i < changes.len() ==> !closes(#[trigger] changes[i], terminal)
}

proof fn following_removals(terminals: Set<Seq<char>>, changes: Seq<ReplicaChange>)
    requires
        forall|i: int| 0 <= i < changes.len() ==> #[trigger] changes[i] is PaneRemoved,
    ensures
        forall|x: Seq<char>| #[trigger]
            followed(terminals, changes).contains(x) <==> terminals.contains(x) && spared(
                changes,
                x,
            ),
    decreases changes.len(),
{
    if changes.len() > 0 {
        let head = changes.drop_last();
        assert forall|i: int| 0 <= i < head.len() implies #[trigger] head[i] is PaneRemoved by {
            assert(changes[i] == head[i]);
        }
        following_removals(terminals, head);
        let last = changes[changes.len() - 1];
        assert(last is PaneRemoved);
        assert forall|x: Seq<char>| #[trigger]
            followed(terminals, changes).contains(x) <==> terminals.contains(x) && spared(
                changes,
                x,
            ) by {
            let before = followed(terminals, head).contains(x);
            assert(before == (terminals.contains(x) && spared(head, x)));
            assert(spared(changes, x) <==> spared(head, x) && !closes(last, x)) by {
                if spared(head, x) && !closes(last, x) {
                    assert forall|i: int| 0 <= i < changes.len() implies !closes(
                        #[trigger] changes[i],
                        x,
                    ) by {
                        if i < head.len() {
                            assert(head[i] == changes[i]);
                        }
                    }
                }
                if spared(changes, x) {
                    assert forall|i: int| 0 <= i < head.len() implies !closes(
                        #[trigger] head[i],
                        x,
                    ) by {
                        assert(changes[i] == head[i]);
                    }
                }
            }
        }
    }
}

} // verus!
