//! What every event does to a replica, field by field, and what it announces.
use crate::idmap;
use crate::replica;
use crate::replica::{PaneScope, ReplicaChange, SessionReplica, Structure};
use crate::schema::{
    EventData, NotificationKind, PaneInfo, PaneLayoutSnapshot, SessionSnapshot,
    TabInfo, WorkspaceInfo,
};
use crate::text;
use vstd::prelude::*;

verus! {

/// The text is that of the string.
pub open spec fn says(held: Option<Seq<char>>, sent: Option<String>) -> bool {
    (held is Some <==> sent is Some) && (sent is Some ==> held->0 == sent->0@)
}

/// A replica means what its fields hold.
pub proof fn replicas_hold_what_they_show(r: SessionReplica)
    ensures
        r@.version == r.version@,
        r@.protocol == r.protocol,
        says(r@.focused_workspace, r.focused_workspace_id),
        says(r@.focused_tab, r.focused_tab_id),
        says(r@.focused_pane, r.focused_pane_id),
        r@.workspaces == r.workspaces@,
        r@.tabs == r.tabs@,
        r@.panes == r.panes@,
        r@.layouts == r.layouts@,
{
}

/// A replica built from a snapshot has its version, its focus, its workspaces and its tabs.
pub proof fn snapshots_are_taken_over(snapshot: SessionSnapshot)
    ensures
        ({
            let s = replica::structure_of(snapshot);
            &&& s.version == snapshot.version@
            &&& s.protocol == snapshot.protocol
            &&& says(s.focused_workspace, snapshot.focused_workspace_id)
            &&& says(s.focused_tab, snapshot.focused_tab_id)
            &&& says(s.focused_pane, snapshot.focused_pane_id)
            &&& s.workspaces == snapshot.workspaces@
            &&& s.tabs == snapshot.tabs@
        }),
{
}

/// `i` is the last listed pane with the id.
pub open spec fn is_last_pane(panes: Seq<PaneInfo>, id: Seq<char>, i: int) -> bool {
    &&& 0 <= i < panes.len()
    &&& panes[i].pane_id@ == id
    &&& forall|j: int| i < j < panes.len() ==> (#[trigger] panes[j]).pane_id@ != id
}

/// `i` is the last listed layout of the tab.
pub open spec fn is_last_layout(layouts: Seq<PaneLayoutSnapshot>, id: Seq<char>, i: int) -> bool {
    &&& 0 <= i < layouts.len()
    &&& layouts[i].tab_id@ == id
    &&& forall|j: int| i < j < layouts.len() ==> (#[trigger] layouts[j]).tab_id@ != id
}

/// Of the panes that a snapshot lists under one id the last counts, and of the layouts
/// of one tab the last; an id that is not listed is not held.
pub proof fn the_last_listed_counts(snapshot: SessionSnapshot, id: Seq<char>, i: int)
    ensures
        ({
            let s = replica::structure_of(snapshot);
            let panes = snapshot.panes@;
            let layouts = snapshot.layouts@;
            &&& is_last_pane(panes, id, i) ==> s.panes.dom().contains(id) && s.panes[id]
                == panes[i]
            &&& (forall|j: int| 0 <= j < panes.len() ==> (#[trigger] panes[j]).pane_id@ != id)
                ==> !s.panes.dom().contains(id)
            &&& is_last_layout(layouts, id, i) ==> s.layouts.dom().contains(id)
                && s.layouts[id] == layouts[i]
            &&& (forall|j: int| 0 <= j < layouts.len() ==> (#[trigger] layouts[j]).tab_id@ != id)
                ==> !s.layouts.dom().contains(id)
        }),
{
    replica::listed_panes_are_held(snapshot.panes@);
    replica::listed_layouts_are_held(snapshot.layouts@);
}

/// The members of a set of ids are listed once each, from the least to the greatest.
pub proof fn ids_are_listed_in_order(dom: Set<Seq<char>>, i: int, j: int, k: Seq<char>)
    requires
        dom.finite(),
    ensures
        ({
            let order = idmap::id_order(dom);
            &&& 0 <= i < j < order.len() ==> text::text_less(order[i], order[j])
            &&& order.contains(k) <==> dom.contains(k)
        }),
{
    idmap::finite_ids_can_be_listed(dom);
}

/// A scope covers the panes of its workspace, or those of its tab.
pub proof fn scopes_cover_their_panes(id: &str, pane: PaneInfo)
    ensures
        PaneScope::Workspace(id).covers(pane) <==> pane.workspace_id@ == id@,
        PaneScope::Tab(id).covers(pane) <==> pane.tab_id@ == id@,
{
}

/// The terminals of a session are those of its panes; the focused terminal is that of the
/// focused pane, where the replica holds it.
pub proof fn terminals_are_those_of_panes(s: Structure, t: Seq<char>, k: Seq<char>)
    ensures
        s.panes.dom().contains(k) ==> s.terminals().contains(s.panes[k].terminal_id@),
        s.terminals().contains(t) ==> exists|x: Seq<char>| #[trigger]
            s.panes.dom().contains(x) && s.panes[x].terminal_id@ == t,
        s.focused_pane == Some(k) && s.panes.dom().contains(k) ==> s.focused_terminal() == Some(
            s.panes[k].terminal_id@,
        ),
        s.focused_pane == Some(k) && !s.panes.dom().contains(k) ==> s.focused_terminal() is None,
        s.focused_pane is None ==> s.focused_terminal() is None,
{
}

/// The pane of a terminal is the one with the least id of those on it.
pub proof fn the_least_id_is_found(s: Structure, terminal: Seq<char>, i: int, k: Seq<char>)
    requires
        s.panes.dom().finite(),
        s.first_for_terminal(terminal, i),
    ensures
        ({
            let found = idmap::id_order(s.panes.dom())[i];
            &&& s.panes.dom().contains(found)
            &&& s.panes[found].terminal_id@ == terminal
            &&& s.panes.dom().contains(k) && s.panes[k].terminal_id@ == terminal && k != found
                ==> text::text_less(found, k)
        }),
{
    let order = idmap::id_order(s.panes.dom());
    idmap::finite_ids_can_be_listed(s.panes.dom());
    assert(order.contains(order[i]));
    if s.panes.dom().contains(k) && s.panes[k].terminal_id@ == terminal && k != order[i] {
        assert(order.contains(k));
        let x = order.index_of(k);
        assert(order[x] == k);
        if x < i {
            assert(s.panes[order[x]].terminal_id@ != terminal);
        }
        assert(text::text_less(order[i], order[x]));
    }
}

/// The panes that a choice selects are listed by ascending id, and no others.
pub proof fn chosen_panes_are_listed(
    s: Structure,
    hit: spec_fn(PaneInfo) -> bool,
    i: int,
    j: int,
    k: Seq<char>,
)
    requires
        s.panes.dom().finite(),
    ensures
        ({
            let chosen = s.selected(hit);
            &&& 0 <= i < j < chosen.len() ==> text::text_less(chosen[i], chosen[j])
            &&& chosen.contains(k) <==> s.panes.dom().contains(k) && hit(s.panes[k])
        }),
{
    let order = idmap::id_order(s.panes.dom());
    let on_key = |x: Seq<char>| hit(s.panes[x]);
    idmap::finite_ids_can_be_listed(s.panes.dom());
    let chosen = s.selected(hit);
    filtering_keeps_ascending(order, on_key);
    if chosen.contains(k) {
        order.lemma_filter_contains_rev(on_key, k);
        let x = chosen.index_of(k);
        order.lemma_filter_pred(on_key, x);
    }
    if s.panes.dom().contains(k) && hit(s.panes[k]) {
        assert(order.contains(k));
        let x = order.index_of(k);
        order.lemma_filter_contains(on_key, x);
    }
}

proof fn filtering_keeps_ascending(order: Seq<Seq<char>>, p: spec_fn(Seq<char>) -> bool)
    requires
        idmap::ascending(order),
    ensures
        idmap::ascending(order.filter(p)),
    decreases order.len(),
{
    reveal(Seq::filter);
    if order.len() > 0 {
        let head = order.drop_last();
        let last = order.last();
        assert(idmap::ascending(head)) by {
            assert forall|i: int, j: int| 0 <= i < j < head.len() implies #[trigger] text::text_less(
                #[trigger] head[i],
                #[trigger] head[j],
            ) by {
                assert(text::text_less(order[i], order[j]));
            }
        }
        filtering_keeps_ascending(head, p);
        let kept = head.filter(p);
        let all = order.filter(p);
        if p(last) {
            assert forall|i: int, j: int| 0 <= i < j < all.len() implies #[trigger] text::text_less(
                #[trigger] all[i],
                #[trigger] all[j],
            ) by {
                if j < kept.len() {
                    assert(text::text_less(kept[i], kept[j]));
                } else {
                    assert(kept.contains(kept[i]));
                    head.lemma_filter_contains_rev(p, kept[i]);
                    let x = head.index_of(kept[i]);
                    assert(head[x] == kept[i]);
                    assert(text::text_less(order[x], order[order.len() - 1]));
                }
            }
        }
    }
}

/// `i` is the first workspace with the id.
pub open spec fn leads_workspaces(list: Seq<WorkspaceInfo>, id: Seq<char>, i: int) -> bool {
    &&& 0 <= i < list.len()
    &&& list[i].workspace_id@ == id
    &&& forall|j: int| 0 <= j < i ==> (#[trigger] list[j]).workspace_id@ != id
}

/// No workspace has the id.
pub open spec fn lacks_workspace(list: Seq<WorkspaceInfo>, id: Seq<char>) -> bool {
    forall|j: int| 0 <= j < list.len() ==> (#[trigger] list[j]).workspace_id@ != id
}

/// The workspaces are those of before with one of them replaced.
pub open spec fn replaces_workspace(
    before: Seq<WorkspaceInfo>,
    after: Seq<WorkspaceInfo>,
    i: int,
    w: WorkspaceInfo,
) -> bool {
    &&& after.len() == before.len()
    &&& after[i] == w
    &&& forall|j: int| 0 <= j < before.len() && j != i ==> #[trigger] after[j] == before[j]
}

/// A workspace was entered: in the place of the first with its id, else at the end.
pub open spec fn enters_workspace(
    before: Seq<WorkspaceInfo>,
    after: Seq<WorkspaceInfo>,
    w: WorkspaceInfo,
) -> bool {
    &&& forall|i: int| #[trigger]
        leads_workspaces(before, w.workspace_id@, i) ==> replaces_workspace(before, after, i, w)
    &&& lacks_workspace(before, w.workspace_id@) ==> {
        &&& after.len() == before.len() + 1
        &&& after.last() == w
        &&& forall|j: int| 0 <= j < before.len() ==> #[trigger] after[j] == before[j]
    }
}

/// `i` is the first tab with the id.
pub open spec fn leads_tabs(list: Seq<TabInfo>, id: Seq<char>, i: int) -> bool {
    &&& 0 <= i < list.len()
    &&& list[i].tab_id@ == id
    &&& forall|j: int| 0 <= j < i ==> (#[trigger] list[j]).tab_id@ != id
}

/// No tab has the id.
pub open spec fn lacks_tab(list: Seq<TabInfo>, id: Seq<char>) -> bool {
    forall|j: int| 0 <= j < list.len() ==> (#[trigger] list[j]).tab_id@ != id
}

/// The tabs are those of before with one of them replaced.
pub open spec fn replaces_tab(
    before: Seq<TabInfo>,
    after: Seq<TabInfo>,
    i: int,
    t: TabInfo,
) -> bool {
    &&& after.len() == before.len()
    &&& after[i] == t
    &&& forall|j: int| 0 <= j < before.len() && j != i ==> #[trigger] after[j] == before[j]
}

/// A tab was entered: in the place of the first with its id, else at the end.
pub open spec fn enters_tab(before: Seq<TabInfo>, after: Seq<TabInfo>, t: TabInfo) -> bool {
    &&& forall|i: int| #[trigger]
        leads_tabs(before, t.tab_id@, i) ==> replaces_tab(before, after, i, t)
    &&& lacks_tab(before, t.tab_id@) ==> {
        &&& after.len() == before.len() + 1
        &&& after.last() == t
        &&& forall|j: int| 0 <= j < before.len() ==> #[trigger] after[j] == before[j]
    }
}

proof fn with_workspace_enters(list: Seq<WorkspaceInfo>, w: WorkspaceInfo)
    ensures
        enters_workspace(list, replica::with_workspace(list, w), w),
{
    let id = w.workspace_id@;
    assert forall|i: int| #[trigger] leads_workspaces(list, id, i) implies replaces_workspace(
        list,
        replica::with_workspace(list, w),
        i,
        w,
    ) by {
        one_workspace_leads(list, id, i);
    }
}

proof fn one_workspace_leads(list: Seq<WorkspaceInfo>, id: Seq<char>, i: int)
    requires
        leads_workspaces(list, id, i),
    ensures
        replica::has_workspace(list, id),
        replica::workspace_index(list, id) == i,
{
    assert(replica::first_workspace(list, id, i));
    let k = replica::workspace_index(list, id);
    assert(replica::first_workspace(list, id, k));
    if k < i {
        assert(list[k].workspace_id@ != id);
    } else if i < k {
        assert(list[i].workspace_id@ != id);
    }
}

proof fn with_tab_enters(list: Seq<TabInfo>, t: TabInfo)
    ensures
        enters_tab(list, replica::with_tab(list, t), t),
{
    let id = t.tab_id@;
    assert forall|i: int| #[trigger] leads_tabs(list, id, i) implies replaces_tab(
        list,
        replica::with_tab(list, t),
        i,
        t,
    ) by {
        one_tab_leads(list, id, i);
    }
}

proof fn one_tab_leads(list: Seq<TabInfo>, id: Seq<char>, i: int)
    requires
        leads_tabs(list, id, i),
    ensures
        replica::has_tab(list, id),
        replica::tab_index(list, id) == i,
{
    assert(replica::first_tab(list, id, i));
    let k = replica::tab_index(list, id);
    assert(replica::first_tab(list, id, k));
    if k < i {
        assert(list[k].tab_id@ != id);
    } else if i < k {
        assert(list[i].tab_id@ != id);
    }
}

/// The same version and protocol.
pub open spec fn same_server(s: Structure, t: Structure) -> bool {
    t.version == s.version && t.protocol == s.protocol
}

/// The same focus.
pub open spec fn same_focus(s: Structure, t: Structure) -> bool {
    &&& t.focused_workspace == s.focused_workspace
    &&& t.focused_tab == s.focused_tab
    &&& t.focused_pane == s.focused_pane
}

/// Nothing but the structure is announced as changed.
pub open spec fn announces_structure(notices: Seq<ReplicaChange>) -> bool {
    notices.len() == 1 && notices[0] == ReplicaChange::StructureChanged
}

/// The event carries a workspace to enter.
pub open spec fn carries_workspace(data: EventData, w: WorkspaceInfo) -> bool {
    match data {
        EventData::WorkspaceCreated { workspace } => workspace == w,
        EventData::WorkspaceUpdated { workspace } => workspace == w,
        EventData::WorktreeCreated { workspace } => workspace == w,
        EventData::WorktreeOpened { workspace } => workspace == w,
        EventData::WorktreeRemoved { workspace } => workspace == Some(w),
        _ => false,
    }
}

/// A workspace that an event carries is entered, and nothing else changes. The removal of
/// a worktree without a workspace changes nothing.
pub proof fn carried_workspaces_are_entered(s: Structure, data: EventData, w: WorkspaceInfo)
    ensures
        carries_workspace(data, w) ==> {
            let t = s.after(data);
            &&& enters_workspace(s.workspaces, t.workspaces, w)
            &&& t.tabs == s.tabs && t.panes == s.panes && t.layouts == s.layouts
            &&& same_server(s, t) && same_focus(s, t)
            &&& announces_structure(s.notices(data))
        },
        data == (EventData::WorktreeRemoved { workspace: None }) ==> s.after(data) == s
            && announces_structure(s.notices(data)),
{
    with_workspace_enters(s.workspaces, w);
}

/// A renamed workspace gets its label and keeps all else, and so do the other workspaces.
/// A rename of a workspace that the replica does not hold changes nothing.
pub proof fn renamed_workspaces_keep_all_else(
    s: Structure,
    workspace_id: String,
    label: String,
    i: int,
)
    ensures
        ({
            let data = EventData::WorkspaceRenamed { workspace_id, label };
            let t = s.after(data);
            &&& leads_workspaces(s.workspaces, workspace_id@, i) ==> replaces_workspace(
                s.workspaces,
                t.workspaces,
                i,
                (WorkspaceInfo { label, ..s.workspaces[i] }),
            )
            &&& lacks_workspace(s.workspaces, workspace_id@) ==> t.workspaces == s.workspaces
            &&& t.tabs == s.tabs && t.panes == s.panes && t.layouts == s.layouts
            &&& same_server(s, t) && same_focus(s, t)
            &&& announces_structure(s.notices(data))
        }),
{
    if leads_workspaces(s.workspaces, workspace_id@, i) {
        one_workspace_leads(s.workspaces, workspace_id@, i);
    }
}

/// Moved workspaces stand in the order that the server sent, and a focused workspace has
/// the focus; nothing else changes.
pub proof fn workspaces_follow_the_server(
    s: Structure,
    workspaces: Vec<WorkspaceInfo>,
    workspace_id: String,
)
    ensures
        ({
            let data = EventData::WorkspaceMoved { workspaces };
            let t = s.after(data);
            &&& t.workspaces == workspaces@
            &&& t.tabs == s.tabs && t.panes == s.panes && t.layouts == s.layouts
            &&& same_server(s, t) && same_focus(s, t)
            &&& announces_structure(s.notices(data))
        }),
        ({
            let data = EventData::WorkspaceFocused { workspace_id };
            let t = s.after(data);
            &&& t.focused_workspace == Some(workspace_id@)
            &&& t.focused_tab == s.focused_tab && t.focused_pane == s.focused_pane
            &&& t.workspaces == s.workspaces
            &&& t.tabs == s.tabs && t.panes == s.panes && t.layouts == s.layouts
            &&& same_server(s, t)
            &&& announces_structure(s.notices(data))
        }),
{
}

/// A new tab is entered, and nothing else changes.
pub proof fn new_tabs_are_entered(s: Structure, tab: TabInfo)
    ensures
        ({
            let data = EventData::TabCreated { tab };
            let t = s.after(data);
            &&& enters_tab(s.tabs, t.tabs, tab)
            &&& t.workspaces == s.workspaces && t.panes == s.panes && t.layouts == s.layouts
            &&& same_server(s, t) && same_focus(s, t)
            &&& announces_structure(s.notices(data))
        }),
{
    with_tab_enters(s.tabs, tab);
}

/// A renamed tab gets its label and keeps all else, and so do the other tabs. A rename of
/// a tab that the replica does not hold changes nothing.
pub proof fn renamed_tabs_keep_all_else(
    s: Structure,
    tab_id: String,
    workspace_id: String,
    label: String,
    i: int,
)
    ensures
        ({
            let data = EventData::TabRenamed { tab_id, workspace_id, label };
            let t = s.after(data);
            &&& leads_tabs(s.tabs, tab_id@, i) ==> replaces_tab(
                s.tabs,
                t.tabs,
                i,
                (TabInfo { label, ..s.tabs[i] }),
            )
            &&& lacks_tab(s.tabs, tab_id@) ==> t.tabs == s.tabs
            &&& t.workspaces == s.workspaces && t.panes == s.panes && t.layouts == s.layouts
            &&& same_server(s, t) && same_focus(s, t)
            &&& announces_structure(s.notices(data))
        }),
{
    if leads_tabs(s.tabs, tab_id@, i) {
        one_tab_leads(s.tabs, tab_id@, i);
    }
}

/// The tab is not one of the workspace's.
pub open spec fn is_elsewhere(workspace: Seq<char>) -> spec_fn(TabInfo) -> bool {
    |t: TabInfo| t.workspace_id@ != workspace
}

/// The tab has another id.
pub open spec fn is_other_tab(id: Seq<char>) -> spec_fn(TabInfo) -> bool {
    |t: TabInfo| t.tab_id@ != id
}

/// The workspace has another id.
pub open spec fn is_other_workspace(id: Seq<char>) -> spec_fn(WorkspaceInfo) -> bool {
    |w: WorkspaceInfo| w.workspace_id@ != id
}

proof fn others_are_kept(tabs: Seq<TabInfo>, id: Seq<char>)
    ensures
        replica::without_tabs_of(tabs, id) == tabs.filter(is_elsewhere(id)),
        replica::without_tab(tabs, id) == tabs.filter(is_other_tab(id)),
    decreases tabs.len(),
{
    reveal(Seq::filter);
    if tabs.len() > 0 {
        others_are_kept(tabs.drop_last(), id);
    }
}

proof fn other_workspaces_are_kept(list: Seq<WorkspaceInfo>, id: Seq<char>)
    ensures
        replica::without_workspace(list, id) == list.filter(is_other_workspace(id)),
    decreases list.len(),
{
    reveal(Seq::filter);
    if list.len() > 0 {
        other_workspaces_are_kept(list.drop_last(), id);
    }
}

/// Moved tabs stand after those of the other workspaces, in the order that the server
/// sent; nothing else changes.
pub proof fn moved_tabs_follow_the_server(s: Structure, workspace_id: String, tabs: Vec<TabInfo>)
    ensures
        ({
            let data = EventData::TabMoved { workspace_id, tabs };
            let t = s.after(data);
            &&& t.tabs == s.tabs.filter(is_elsewhere(workspace_id@)) + tabs@
            &&& t.workspaces == s.workspaces && t.panes == s.panes && t.layouts == s.layouts
            &&& same_server(s, t) && same_focus(s, t)
            &&& announces_structure(s.notices(data))
        }),
{
    others_are_kept(s.tabs, workspace_id@);
}

/// A focused tab has the focus together with its workspace; nothing else changes.
pub proof fn focused_tabs_focus_their_workspace(
    s: Structure,
    tab_id: String,
    workspace_id: String,
)
    ensures
        ({
            let data = EventData::TabFocused { tab_id, workspace_id };
            let t = s.after(data);
            &&& t.focused_tab == Some(tab_id@)
            &&& t.focused_workspace == Some(workspace_id@)
            &&& t.focused_pane == s.focused_pane
            &&& t.workspaces == s.workspaces
            &&& t.tabs == s.tabs && t.panes == s.panes && t.layouts == s.layouts
            &&& same_server(s, t)
            &&& announces_structure(s.notices(data))
        }),
{
}

/// The notices are the removals of the panes with the listed ids, in their order, and then
/// the change of the structure.
pub open spec fn announces_removals(
    notices: Seq<ReplicaChange>,
    panes: Map<Seq<char>, PaneInfo>,
    gone: Seq<Seq<char>>,
) -> bool {
    &&& notices.len() == gone.len() + 1
    &&& notices.last() == ReplicaChange::StructureChanged
    &&& forall|i: int|
        0 <= i < gone.len() ==> #[trigger] notices[i] == (ReplicaChange::PaneRemoved {
            pane_id: panes[gone[i]].pane_id,
            terminal_id: panes[gone[i]].terminal_id,
        })
}

/// A closed workspace goes with its tabs, the layouts of its tabs and its panes; the focus
/// on it and on a pane of it goes too. All else stays. Its panes are announced by
/// ascending id.
pub proof fn closed_workspaces_go_whole(
    s: Structure,
    workspace_id: String,
    workspace: Option<WorkspaceInfo>,
    k: Seq<char>,
)
    ensures
        ({
            let id = workspace_id@;
            let data = EventData::WorkspaceClosed { workspace_id, workspace };
            let t = s.after(data);
            let focus_goes = s.focused_pane is Some && s.panes.dom().contains(s.focused_pane->0)
                && s.panes[s.focused_pane->0].workspace_id@ == id;
            &&& t.workspaces == s.workspaces.filter(is_other_workspace(id))
            &&& t.tabs == s.tabs.filter(is_elsewhere(id))
            &&& t.panes.dom().contains(k) <==> s.panes.dom().contains(k)
                && s.panes[k].workspace_id@ != id
            &&& t.panes.dom().contains(k) ==> t.panes[k] == s.panes[k]
            &&& t.layouts.dom().contains(k) <==> s.layouts.dom().contains(k) && !(exists|i: int|
                0 <= i < s.tabs.len() && (#[trigger] s.tabs[i]).workspace_id@ == id
                    && s.tabs[i].tab_id@ == k)
            &&& t.layouts.dom().contains(k) ==> t.layouts[k] == s.layouts[k]
            &&& s.focused_workspace == Some(id) ==> t.focused_workspace is None
            &&& s.focused_workspace != Some(id) ==> t.focused_workspace == s.focused_workspace
            &&& t.focused_tab == s.focused_tab
            &&& focus_goes ==> t.focused_pane is None
            &&& !focus_goes ==> t.focused_pane == s.focused_pane
            &&& same_server(s, t)
            &&& announces_removals(
                s.notices(data),
                s.panes,
                s.selected(|p: PaneInfo| p.workspace_id@ == workspace_id@),
            )
        }),
{
    others_are_kept(s.tabs, workspace_id@);
    other_workspaces_are_kept(s.workspaces, workspace_id@);
}

/// A closed tab goes with its layout and its panes; the focus on it and on a pane of it
/// goes too. All else stays. Its panes are announced by ascending id.
pub proof fn closed_tabs_go_whole(
    s: Structure,
    tab_id: String,
    workspace_id: String,
    k: Seq<char>,
)
    ensures
        ({
            let id = tab_id@;
            let data = EventData::TabClosed { tab_id, workspace_id };
            let t = s.after(data);
            let focus_goes = s.focused_pane is Some && s.panes.dom().contains(s.focused_pane->0)
                && s.panes[s.focused_pane->0].tab_id@ == id;
            &&& t.workspaces == s.workspaces
            &&& t.tabs == s.tabs.filter(is_other_tab(id))
            &&& t.panes.dom().contains(k) <==> s.panes.dom().contains(k) && s.panes[k].tab_id@ != id
            &&& t.panes.dom().contains(k) ==> t.panes[k] == s.panes[k]
            &&& t.layouts.dom().contains(k) <==> s.layouts.dom().contains(k) && k != id
            &&& t.layouts.dom().contains(k) ==> t.layouts[k] == s.layouts[k]
            &&& t.focused_workspace == s.focused_workspace
            &&& s.focused_tab == Some(id) ==> t.focused_tab is None
            &&& s.focused_tab != Some(id) ==> t.focused_tab == s.focused_tab
            &&& focus_goes ==> t.focused_pane is None
            &&& !focus_goes ==> t.focused_pane == s.focused_pane
            &&& same_server(s, t)
            &&& announces_removals(
                s.notices(data),
                s.panes,
                s.selected(|p: PaneInfo| p.tab_id@ == tab_id@),
            )
        }),
{
    others_are_kept(s.tabs, tab_id@);
}

/// A new pane stands under its id as it was sent and is announced with its terminal;
/// nothing else changes.
pub proof fn new_panes_are_held(s: Structure, pane: PaneInfo, k: Seq<char>)
    ensures
        ({
            let data = EventData::PaneCreated { pane };
            let t = s.after(data);
            &&& t.panes.dom().contains(pane.pane_id@) && t.panes[pane.pane_id@] == pane
            &&& k != pane.pane_id@ ==> (t.panes.dom().contains(k) <==> s.panes.dom().contains(k))
                && t.panes[k] == s.panes[k]
            &&& t.workspaces == s.workspaces && t.tabs == s.tabs && t.layouts == s.layouts
            &&& same_server(s, t) && same_focus(s, t)
            &&& s.notices(data).len() == 1
            &&& s.notices(data)[0] == (ReplicaChange::PaneAdded {
                pane_id: pane.pane_id,
                terminal_id: pane.terminal_id,
            })
        }),
{
}

/// The pane with the id closed or exited.
pub open spec fn ends_pane(data: EventData, id: String) -> bool {
    match data {
        EventData::PaneClosed { pane_id, .. } => pane_id == id,
        EventData::PaneExited { pane_id, .. } => pane_id == id,
        _ => false,
    }
}

/// A pane that closed or exited goes, and the focus with it where it was there; both are
/// announced. Nothing else changes, and nothing at all where the replica does not hold
/// the pane.
pub proof fn ended_panes_go(s: Structure, data: EventData, id: String, k: Seq<char>)
    requires
        ends_pane(data, id),
    ensures
        ({
            let t = s.after(data);
            let said = s.notices(data);
            &&& t.workspaces == s.workspaces && t.tabs == s.tabs && t.layouts == s.layouts
            &&& same_server(s, t)
            &&& t.focused_workspace == s.focused_workspace && t.focused_tab == s.focused_tab
            &&& !t.panes.dom().contains(id@)
            &&& k != id@ ==> (t.panes.dom().contains(k) <==> s.panes.dom().contains(k))
                && t.panes[k] == s.panes[k]
            &&& !s.panes.dom().contains(id@) ==> t == s && said.len() == 0
            &&& s.panes.dom().contains(id@) ==> {
                &&& said.len() >= 1
                &&& said[0] == (ReplicaChange::PaneRemoved {
                    pane_id: id,
                    terminal_id: s.panes[id@].terminal_id,
                })
                &&& s.focused_pane == Some(id@) ==> t.focused_pane is None && said.len() == 2
                    && said[1] == (ReplicaChange::FocusChanged {
                    pane_id: None,
                    terminal_id: None,
                })
                &&& s.focused_pane != Some(id@) ==> t.focused_pane == s.focused_pane && said.len()
                    == 1
            }
        }),
{
}

/// Focus moves to the pane: its flag is set, that of the pane that had it is not, and all
/// else stays. The change is announced with the pane's terminal. Focus on the focused
/// pane changes nothing.
pub proof fn focus_moves_to_the_pane(
    s: Structure,
    pane_id: String,
    workspace_id: String,
    k: Seq<char>,
)
    ensures
        ({
            let data = EventData::PaneFocused { pane_id, workspace_id };
            let t = s.after(data);
            let said = s.notices(data);
            &&& t.focused_pane == Some(pane_id@)
            &&& t.workspaces == s.workspaces && t.tabs == s.tabs && t.layouts == s.layouts
            &&& same_server(s, t)
            &&& t.focused_workspace == s.focused_workspace && t.focused_tab == s.focused_tab
            &&& t.panes.dom().contains(k) <==> s.panes.dom().contains(k)
            &&& s.focused_pane == Some(pane_id@) ==> t.panes == s.panes && said.len() == 0
            &&& s.focused_pane != Some(pane_id@) ==> {
                &&& s.panes.dom().contains(k) && k == pane_id@ ==> t.panes[k] == (PaneInfo {
                    focused: true,
                    ..s.panes[k]
                })
                &&& s.panes.dom().contains(k) && k != pane_id@ && s.focused_pane == Some(k)
                    ==> t.panes[k] == (PaneInfo { focused: false, ..s.panes[k] })
                &&& s.panes.dom().contains(k) && k != pane_id@ && s.focused_pane != Some(k)
                    ==> t.panes[k] == s.panes[k]
                &&& said.len() == 1
                &&& said[0] == (ReplicaChange::FocusChanged {
                    pane_id: Some(pane_id),
                    terminal_id: if s.panes.dom().contains(pane_id@) {
                        Some(s.panes[pane_id@].terminal_id)
                    } else {
                        None
                    },
                })
            }
        }),
{
}

/// The workspaces after a move: one that was created is entered, one that closed goes.
pub open spec fn moves_workspaces(
    before: Seq<WorkspaceInfo>,
    entered: Seq<WorkspaceInfo>,
    after: Seq<WorkspaceInfo>,
    created: Option<WorkspaceInfo>,
    closed: Option<String>,
) -> bool {
    &&& created is None ==> entered == before
    &&& created is Some ==> enters_workspace(before, entered, created->0)
    &&& closed is None ==> after == entered
    &&& closed is Some ==> after == entered.filter(is_other_workspace(closed->0@))
}

/// The tabs after a move: one that was created is entered, one that closed goes.
pub open spec fn moves_tabs(
    before: Seq<TabInfo>,
    entered: Seq<TabInfo>,
    after: Seq<TabInfo>,
    created: Option<TabInfo>,
    closed: Option<String>,
) -> bool {
    &&& created is None ==> entered == before
    &&& created is Some ==> enters_tab(before, entered, created->0)
    &&& closed is None ==> after == entered
    &&& closed is Some ==> after == entered.filter(is_other_tab(closed->0@))
}

/// A moved pane stands under its new id as it was sent, and not under the former one. It
/// keeps the focus where it had it. What was created for it is entered, what it left empty
/// goes, and all else stays.
pub proof fn moved_panes_are_held(
    s: Structure,
    previous_pane_id: String,
    previous_tab_id: String,
    pane: Box<PaneInfo>,
    created_workspace: Option<WorkspaceInfo>,
    created_tab: Option<TabInfo>,
    closed_workspace_id: Option<String>,
    closed_tab_id: Option<String>,
    k: Seq<char>,
)
    ensures
        ({
            let t = s.after(
                (EventData::PaneMoved {
                    previous_pane_id,
                    previous_tab_id,
                    pane,
                    created_workspace,
                    created_tab,
                    closed_workspace_id,
                    closed_tab_id,
                }),
            );
            let new = pane.pane_id@;
            let follows = s.focused_pane == Some(previous_pane_id@);
            &&& exists|mid: Seq<WorkspaceInfo>| #[trigger]
                moves_workspaces(
                    s.workspaces,
                    mid,
                    t.workspaces,
                    created_workspace,
                    closed_workspace_id,
                )
            &&& exists|mid: Seq<TabInfo>| #[trigger]
                moves_tabs(s.tabs, mid, t.tabs, created_tab, closed_tab_id)
            &&& t.panes.dom().contains(new)
            &&& follows && new != previous_pane_id@ ==> t.panes[new] == (PaneInfo {
                focused: true,
                ..*pane
            })
            &&& !(follows && new != previous_pane_id@) ==> t.panes[new] == *pane
            &&& k != new ==> (t.panes.dom().contains(k) <==> s.panes.dom().contains(k) && k
                != previous_pane_id@)
            &&& k != new && t.panes.dom().contains(k) ==> t.panes[k] == s.panes[k]
            &&& closed_tab_id is None ==> t.layouts == s.layouts
            &&& closed_tab_id is Some ==> (t.layouts.dom().contains(k) <==> s.layouts.dom().contains(
                k,
            ) && k != closed_tab_id->0@)
            &&& t.layouts.dom().contains(k) ==> t.layouts[k] == s.layouts[k]
            &&& follows ==> t.focused_pane == Some(new)
            &&& !follows ==> t.focused_pane == s.focused_pane
            &&& t.focused_workspace == s.focused_workspace && t.focused_tab == s.focused_tab
            &&& same_server(s, t)
        }),
{
    let placed = s.with_moved_pane(previous_pane_id@, *pane, created_workspace, created_tab);
    let t = s.with_move(
        previous_pane_id@,
        *pane,
        created_workspace,
        created_tab,
        text::opt_text(closed_workspace_id),
        text::opt_text(closed_tab_id),
    );
    if let Some(w) = created_workspace {
        with_workspace_enters(s.workspaces, w);
    }
    if let Some(tab) = created_tab {
        with_tab_enters(s.tabs, tab);
    }
    if let Some(id) = closed_workspace_id {
        other_workspaces_are_kept(placed.workspaces, id@);
    }
    if let Some(id) = closed_tab_id {
        others_are_kept(placed.tabs, id@);
    }
    assert(moves_workspaces(
        s.workspaces,
        placed.workspaces,
        t.workspaces,
        created_workspace,
        closed_workspace_id,
    ));
    assert(moves_tabs(s.tabs, placed.tabs, t.tabs, created_tab, closed_tab_id));
}

/// A move announces the focus where it follows the pane under a new id, then the layouts
/// at both ends, the new one first and only once where they are one, and then the change
/// of the structure.
pub proof fn moves_are_announced(
    s: Structure,
    previous_pane_id: String,
    previous_tab_id: String,
    pane: Box<PaneInfo>,
    created_workspace: Option<WorkspaceInfo>,
    created_tab: Option<TabInfo>,
    closed_workspace_id: Option<String>,
    closed_tab_id: Option<String>,
)
    ensures
        ({
            let said = s.notices(
                (EventData::PaneMoved {
                    previous_pane_id,
                    previous_tab_id,
                    pane,
                    created_workspace,
                    created_tab,
                    closed_workspace_id,
                    closed_tab_id,
                }),
            );
            let refocus = s.focused_pane == Some(previous_pane_id@) && pane.pane_id@
                != previous_pane_id@;
            let a: int = if refocus {
                1
            } else {
                0
            };
            let b: int = if pane.tab_id@ != previous_tab_id@ {
                1
            } else {
                0
            };
            &&& said.len() == a + b + 2
            &&& refocus ==> said[0] == (ReplicaChange::FocusChanged {
                pane_id: Some(pane.pane_id),
                terminal_id: Some(pane.terminal_id),
            })
            &&& pane.tab_id@ != previous_tab_id@ ==> said[a] == (ReplicaChange::LayoutChanged {
                tab_id: pane.tab_id,
            })
            &&& said[a + b] == (ReplicaChange::LayoutChanged { tab_id: previous_tab_id })
            &&& said[a + b + 1] == ReplicaChange::StructureChanged
        }),
{
}

/// A detected agent is entered into its pane; nothing else of the pane changes, and
/// nothing else at all.
pub proof fn detected_agents_are_entered(
    s: Structure,
    pane_id: String,
    workspace_id: String,
    agent: Option<String>,
    k: Seq<char>,
)
    ensures
        ({
            let data = EventData::PaneAgentDetected { pane_id, workspace_id, agent };
            let t = s.after(data);
            &&& t.panes.dom().contains(k) <==> s.panes.dom().contains(k)
            &&& s.panes.dom().contains(k) && k == pane_id@ ==> t.panes[k] == (PaneInfo {
                agent,
                ..s.panes[k]
            })
            &&& k != pane_id@ ==> t.panes[k] == s.panes[k]
            &&& t.workspaces == s.workspaces && t.tabs == s.tabs && t.layouts == s.layouts
            &&& same_server(s, t) && same_focus(s, t)
            &&& announces_structure(s.notices(data))
        }),
{
}

/// A reported status replaces what the pane said of its agent, all of it; nothing else of
/// the pane changes, and nothing else at all.
pub proof fn reported_statuses_are_entered(s: Structure, data: EventData, k: Seq<char>)
    ensures
        data matches EventData::PaneAgentStatusChanged {
            pane_id,
            agent_status,
            agent,
            title,
            display_agent,
            custom_status,
            state_labels,
            ..
        } ==> {
            let t = s.after(data);
            &&& t.panes.dom().contains(k) <==> s.panes.dom().contains(k)
            &&& s.panes.dom().contains(k) && k == pane_id@ ==> t.panes[k] == (PaneInfo {
                agent_status,
                agent,
                title,
                display_agent,
                custom_status,
                state_labels,
                ..s.panes[k]
            })
            &&& k != pane_id@ ==> t.panes[k] == s.panes[k]
            &&& t.workspaces == s.workspaces && t.tabs == s.tabs && t.layouts == s.layouts
            &&& same_server(s, t) && same_focus(s, t)
            &&& announces_structure(s.notices(data))
        },
{
}

/// A layout stands under its tab as it was sent and is announced; nothing else changes.
pub proof fn layouts_are_held(s: Structure, layout: PaneLayoutSnapshot, k: Seq<char>)
    ensures
        ({
            let data = EventData::LayoutUpdated { layout };
            let t = s.after(data);
            &&& t.layouts.dom().contains(layout.tab_id@) && t.layouts[layout.tab_id@] == layout
            &&& k != layout.tab_id@ ==> (t.layouts.dom().contains(k) <==> s.layouts.dom().contains(
                k,
            )) && t.layouts[k] == s.layouts[k]
            &&& t.workspaces == s.workspaces && t.tabs == s.tabs && t.panes == s.panes
            &&& same_server(s, t) && same_focus(s, t)
            &&& s.notices(data).len() == 1
            &&& s.notices(data)[0] == (ReplicaChange::LayoutChanged { tab_id: layout.tab_id })
        }),
{
}

/// A notification is handed on as it was sent, and changes nothing; output is not
/// announced.
pub proof fn notifications_are_handed_on(
    s: Structure,
    kind: NotificationKind,
    title: String,
    context: String,
    workspace_id: Option<String>,
    pane_id: Option<String>,
    output: EventData,
)
    ensures
        ({
            let data = EventData::NotificationShown { kind, title, context, workspace_id, pane_id };
            &&& s.after(data) == s
            &&& s.notices(data).len() == 1
            &&& s.notices(data)[0] == (ReplicaChange::NotificationShown {
                kind,
                title,
                context,
                workspace_id,
                pane_id,
            })
        }),
        output is PaneOutputChanged ==> s.after(output) == s && s.notices(output).len() == 0,
{
}

} // verus!
