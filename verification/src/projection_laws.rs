//! What holds of every projection.
use crate::projection;
use crate::projection::{
    IdSource, Mode, Node, PaneId, Source, TabModel, WalkModel, WorkspaceModel,
};
use crate::schema::{LayoutDescription, LayoutNode, LayoutPane, PaneInfo, TabInfo, WorkspaceInfo};
use crate::terminal_state;
use vstd::prelude::*;

verus! {

/// The tab has the number.
pub open spec fn numbered(n: usize) -> spec_fn(TabInfo) -> bool {
    |t: TabInfo| t.number == n
}

/// Tabs are shown by ascending number.
pub open spec fn ascending(tabs: Seq<TabInfo>) -> bool {
    forall|i: int, j: int|
        0 <= i < j < tabs.len() ==> (#[trigger] tabs[i]).number <= (#[trigger] tabs[j]).number
}

proof fn placing_keeps_order(tabs: Seq<TabInfo>, tab: TabInfo)
    requires
        ascending(tabs),
    ensures
        ascending(projection::placed(tabs, tab)),
        projection::placed(tabs, tab).len() == tabs.len() + 1,
        forall|i: int|
            0 <= i < projection::placed(tabs, tab).len() ==> (#[trigger] projection::placed(
                tabs,
                tab,
            )[i] == tab || tabs.contains(projection::placed(tabs, tab)[i])),
    decreases tabs.len(),
{
    let r = projection::placed(tabs, tab);
    if tabs.len() == 0 || tabs.last().number <= tab.number {
        assert forall|i: int| 0 <= i < r.len() implies (#[trigger] r[i] == tab || tabs.contains(
            r[i],
        )) by {
            if i < tabs.len() {
                assert(r[i] == tabs[i]);
            }
        }
        assert forall|i: int, j: int| 0 <= i < j < r.len() implies (#[trigger] r[i]).number <= (
        #[trigger] r[j]).number by {
            if j == tabs.len() {
                assert(tabs[i].number <= tabs[tabs.len() - 1].number);
            }
        }
    } else {
        let head = tabs.drop_last();
        assert(ascending(head)) by {
            assert forall|i: int, j: int| 0 <= i < j < head.len() implies (#[trigger] head[i]).number
                <= (#[trigger] head[j]).number by {
                assert(tabs[i].number <= tabs[j].number);
            }
        }
        placing_keeps_order(head, tab);
        let inner = projection::placed(head, tab);
        assert forall|i: int| 0 <= i < r.len() implies (#[trigger] r[i] == tab || tabs.contains(
            r[i],
        )) by {
            if i < inner.len() {
                assert(r[i] == inner[i]);
                if inner[i] != tab {
                    let x = head.index_of(inner[i]);
                    assert(tabs[x] == inner[i]);
                }
            } else {
                assert(r[i] == tabs[tabs.len() - 1]);
            }
        }
        assert forall|i: int, j: int| 0 <= i < j < r.len() implies (#[trigger] r[i]).number <= (
        #[trigger] r[j]).number by {
            if j == inner.len() {
                assert(r[i] == inner[i]);
                if inner[i] != tab {
                    let x = head.index_of(inner[i]);
                    assert(head[x] == tabs[x]);
                    assert(tabs[x].number <= tabs[tabs.len() - 1].number);
                }
            } else {
                assert(inner[i].number <= inner[j].number);
            }
        }
    }
}

proof fn placing_is_stable(tabs: Seq<TabInfo>, tab: TabInfo, n: usize)
    ensures
        projection::placed(tabs, tab).filter(numbered(n)) == tabs.push(tab).filter(numbered(n)),
    decreases tabs.len(),
{
    reveal(Seq::filter);
    let p = numbered(n);
    assert(tabs.push(tab).drop_last() =~= tabs);
    if tabs.len() > 0 && tabs.last().number > tab.number {
        let head = tabs.drop_last();
        placing_is_stable(head, tab, n);
        assert(head.push(tab).drop_last() =~= head);
        let r = projection::placed(tabs, tab);
        assert(r.drop_last() =~= projection::placed(head, tab));
        assert(tabs.filter(p) == if p(tabs.last()) {
            head.filter(p).push(tabs.last())
        } else {
            head.filter(p)
        });
        assert(head.push(tab).filter(p) == if p(tab) {
            head.filter(p).push(tab)
        } else {
            head.filter(p)
        });
    }
}

/// A workspace's tabs are ordered by number, and tabs of one number stay in the
/// order in which the server listed them. None is lost, none is added.
pub proof fn tabs_are_ordered_stably(tabs: Seq<TabInfo>, n: usize)
    ensures
        ascending(projection::by_number(tabs)),
        projection::by_number(tabs).len() == tabs.len(),
        projection::by_number(tabs).filter(numbered(n)) == tabs.filter(numbered(n)),
    decreases tabs.len(),
{
    if tabs.len() > 0 {
        let head = tabs.drop_last();
        tabs_are_ordered_stably(head, n);
        placing_keeps_order(projection::by_number(head), tabs.last());
        placing_is_stable(projection::by_number(head), tabs.last(), n);
        reveal(Seq::filter);
        let sorted = projection::by_number(head);
        assert(sorted.push(tabs.last()).drop_last() =~= sorted);
    }
}

/// The panes of a tiling, in drawing order.
pub open spec fn tile_panes(node: Node) -> Seq<PaneId>
    decreases node,
{
    match node {
        Node::Pane(id) => seq![id],
        Node::Split { first, second, .. } => tile_panes(*first) + tile_panes(*second),
    }
}

/// Consecutive pane ids.
pub open spec fn ids_from(start: nat, count: nat) -> Seq<PaneId> {
    Seq::new(count, |i: int| PaneId { raw: (start + i) as u32 })
}

/// A tiling has one pane per leaf of its layout, with consecutive ids in drawing order.
pub proof fn tiling_numbers_its_leaves(node: LayoutNode, start: nat)
    ensures
        tile_panes(projection::tiling(node, start)) == ids_from(
            start,
            projection::leaves(node).len(),
        ),
    decreases node,
{
    match node {
        LayoutNode::Pane { .. } => {
            assert(tile_panes(projection::tiling(node, start)) =~= ids_from(start, 1));
        },
        LayoutNode::Split { first, second, .. } => {
            let n = projection::leaves(*first).len();
            tiling_numbers_its_leaves(*first, start);
            tiling_numbers_its_leaves(*second, start + n);
            let m = projection::leaves(*second).len();
            assert(ids_from(start, n) + ids_from(start + n, m) =~= ids_from(start, n + m));
        },
    }
}

/// The names of a tab's panes lead to panes of the tab.
pub open spec fn names_lead_to_panes(w: WalkModel) -> bool {
    forall|k: Seq<char>| #[trigger]
        w.by_name.dom().contains(k) ==> exists|i: int|
            0 <= i < w.panes.len() && (#[trigger] w.panes[i]).0 == w.by_name[k]
}

/// Every pane shows a terminal that was rebuilt, under its own id.
pub open spec fn terminals_are_rebuilt(w: WalkModel) -> bool {
    &&& forall|i: int|
        0 <= i < w.panes.len() ==> match (#[trigger] w.panes[i]).1.terminal {
            terminal_state::TerminalKey::Named(k) => w.named.dom().contains(k),
            terminal_state::TerminalKey::Local(n) => exists|j: int|
                0 <= j < w.local.len() && (#[trigger] w.local[j]).id
                    == terminal_state::TerminalKey::Local(n),
        }
    &&& forall|k: Seq<char>| #[trigger]
        w.named.dom().contains(k) ==> w.named[k].id == terminal_state::TerminalKey::Named(k)
    &&& w.named.dom() =~= w.terminal_ids
}

proof fn visiting_keeps(
    w: WalkModel,
    panes: Map<Seq<char>, PaneInfo>,
    here: Seq<char>,
    run: Seq<LayoutPane>,
)
    requires
        names_lead_to_panes(w),
        terminals_are_rebuilt(w),
    ensures
        names_lead_to_panes(w.visit_all(panes, here, run)),
        terminals_are_rebuilt(w.visit_all(panes, here, run)),
    decreases run.len(),
{
    if run.len() > 0 {
        let u = w.visit_all(panes, here, run.drop_last());
        visiting_keeps(w, panes, here, run.drop_last());
        let v = w.visit_all(panes, here, run);
        assert forall|k: Seq<char>| #[trigger] v.by_name.dom().contains(k) implies exists|i: int|
            0 <= i < v.panes.len() && (#[trigger] v.panes[i]).0 == v.by_name[k] by {
            if u.by_name.dom().contains(k) && v.by_name[k] == u.by_name[k] {
                let i = choose|i: int|
                    0 <= i < u.panes.len() && (#[trigger] u.panes[i]).0 == u.by_name[k];
                assert(v.panes[i].0 == v.by_name[k]);
            } else {
                assert(v.panes[u.panes.len() as int].0 == v.by_name[k]);
            }
        }
        assert forall|i: int| 0 <= i < v.panes.len() implies match (
        #[trigger] v.panes[i]).1.terminal {
            terminal_state::TerminalKey::Named(k) => v.named.dom().contains(k),
            terminal_state::TerminalKey::Local(n) => exists|j: int|
                0 <= j < v.local.len() && (#[trigger] v.local[j]).id
                    == terminal_state::TerminalKey::Local(n),
        } by {
            if i < u.panes.len() {
                assert(v.panes[i] == u.panes[i]);
                if let terminal_state::TerminalKey::Local(n) = u.panes[i].1.terminal {
                    let j = choose|j: int|
                        0 <= j < u.local.len() && (#[trigger] u.local[j]).id
                            == terminal_state::TerminalKey::Local(n);
                    assert(v.local[j].id == terminal_state::TerminalKey::Local(n));
                }
            } else if projection::leaf_info(panes, run.last()) is None {
                assert(v.local[u.local.len() as int].id == v.panes[i].1.terminal);
            }
        }
    }
}

/// A projected tab draws exactly its own panes: one per leaf of its layout, the
/// first of them its root, and its focus among them. Every pane shows a
/// terminal that was rebuilt.
pub proof fn tabs_are_self_contained(
    w: WalkModel,
    src: Source,
    tab: TabInfo,
    layout: LayoutDescription,
)
    requires
        terminals_are_rebuilt(w.outside_tabs()),
    ensures
        ({
            let (v, t) = projection::tab_projected(w, src, tab, layout);
            &&& t.panes.map_values(|p: (PaneId, projection::PaneModel)| p.0) == tile_panes(t.layout)
            &&& tile_panes(t.layout).len() >= 1
            &&& t.root_pane == tile_panes(t.layout)[0]
            &&& tile_panes(t.layout).contains(t.focus)
            &&& terminals_are_rebuilt(v)
            &&& forall|i: int|
                0 <= i < t.panes.len() ==> match (#[trigger] t.panes[i]).1.terminal {
                    terminal_state::TerminalKey::Named(k) => v.named.dom().contains(k),
                    terminal_state::TerminalKey::Local(n) => exists|j: int|
                        0 <= j < v.local.len() && (#[trigger] v.local[j]).id
                            == terminal_state::TerminalKey::Local(n),
                }
        }),
{
    let start = w.outside_tabs();
    let run = projection::leaves(layout.root);
    let end = start.visit_all(src.structure.panes, src.here, run);
    let (v, t) = projection::tab_projected(w, src, tab, layout);
    projection::layouts_have_leaves(layout.root);
    projection::visiting_counts(start, src.structure.panes, src.here, run);
    visiting_keeps(start, src.structure.panes, src.here, run);
    tiling_numbers_its_leaves(layout.root, w.next_pane);
    let ids = t.panes.map_values(|p: (PaneId, projection::PaneModel)| p.0);
    assert(ids =~= ids_from(w.next_pane, run.len())) by {
        assert forall|i: int| 0 <= i < run.len() implies ids[i] == ids_from(
            w.next_pane,
            run.len(),
        )[i] by {
            assert(end.panes[start.panes.len() + i].0 == (PaneId { raw: (start.next_pane + i) as u32 }));
        }
    }
    if end.by_name.dom().contains(layout.focused_pane_id@) {
        let i = choose|i: int|
            0 <= i < end.panes.len() && (#[trigger] end.panes[i]).0
                == end.by_name[layout.focused_pane_id@];
        assert(ids[i] == t.focus);
    } else {
        assert(ids[0] == t.focus);
    }
    assert(tile_panes(t.layout) == ids);
    assert(t.root_pane == ids[0]);
    assert(ids.contains(t.focus));
    assert(terminals_are_rebuilt(v));
}

/// A workspace shows the tabs that have a layout, in order.
proof fn tabs_are_shown_in_order(w: WalkModel, src: Source, tabs: Seq<TabInfo>)
    ensures
        ({
            let models = projection::tabs_projected(w, src, tabs).1;
            let drawn = projection::shown_tabs(src, tabs);
            &&& models.len() == drawn.len()
            &&& forall|i: int|
                0 <= i < drawn.len() ==> (#[trigger] models[i]).label == drawn[i].label@
                    && models[i].number == drawn[i].number
        }),
    decreases tabs.len(),
{
    reveal(Seq::filter);
    if tabs.len() > 0 {
        tabs_are_shown_in_order(w, src, tabs.drop_last());
    }
}

/// Where a tab has the focus there is a first one that has it.
proof fn focused_tabs_have_a_first(tabs: Seq<TabInfo>, focused: Option<Seq<char>>, i: int)
    requires
        0 <= i < tabs.len(),
        focused == Some(tabs[i].tab_id@),
    ensures
        exists|j: int| projection::focused_tab_at(tabs, focused, j),
    decreases i,
{
    if exists|j: int| 0 <= j < i && focused == Some((#[trigger] tabs[j]).tab_id@) {
        let j = choose|j: int| 0 <= j < i && focused == Some((#[trigger] tabs[j]).tab_id@);
        focused_tabs_have_a_first(tabs, focused, j);
    } else {
        assert(projection::focused_tab_at(tabs, focused, i));
    }
}

/// A projected workspace shows its tabs that have a layout, and its active tab is
/// one of them: the focused one where that is shown, else the first.
pub proof fn workspaces_have_an_active_tab(w: WalkModel, src: Source, info: WorkspaceInfo)
    ensures
        projection::workspace_projected(w, src, info).1 matches Some(model) ==> {
            let drawn = projection::shown_tabs(
                src,
                projection::tabs_of(src.structure.tabs, info.workspace_id@),
            );
            let focused = src.structure.focused_tab;
            &&& model.tabs.len() == drawn.len()
            &&& forall|i: int|
                0 <= i < drawn.len() ==> (#[trigger] model.tabs[i]).label == drawn[i].label@
                    && model.tabs[i].number == drawn[i].number
            &&& model.active_tab < model.tabs.len()
            &&& forall|i: int|
                0 <= i < drawn.len() && focused == Some((#[trigger] drawn[i]).tab_id@)
                    ==> focused == Some(drawn[model.active_tab as int].tab_id@)
            &&& (forall|i: int|
                0 <= i < drawn.len() ==> focused != Some((#[trigger] drawn[i]).tab_id@))
                ==> model.active_tab == 0
        },
{
    let tabs = projection::tabs_of(src.structure.tabs, info.workspace_id@);
    let drawn = projection::shown_tabs(src, tabs);
    let focused = src.structure.focused_tab;
    tabs_are_shown_in_order(w.at_workspace(), src, tabs);
    if exists|i: int| projection::focused_tab_at(drawn, focused, i) {
        let i = choose|i: int| projection::focused_tab_at(drawn, focused, i);
        assert(0 <= i < drawn.len());
        assert(focused == Some(drawn[i].tab_id@));
    }
    assert forall|i: int|
        0 <= i < drawn.len() && focused == Some((#[trigger] drawn[i]).tab_id@) implies focused
        == Some(drawn[projection::active_tab(drawn, focused) as int].tab_id@) by {
        focused_tabs_have_a_first(drawn, focused, i);
    }
}

/// A workspace numbers its panes from 1 on, in drawing order.
pub proof fn workspaces_number_their_panes(w: WalkModel, src: Source, info: WorkspaceInfo)
    ensures
        projection::workspace_projected(w, src, info).1 matches Some(model) ==> {
            &&& model.next_pane_number == 1 + model.public_pane_numbers.len()
            &&& forall|i: int|
                0 <= i < model.public_pane_numbers.len() ==> (
                #[trigger] model.public_pane_numbers[i]).1 == (1 + i) as usize
        },
{
    let tabs = projection::tabs_of(src.structure.tabs, info.workspace_id@);
    runs_number_their_panes(w.at_workspace(), src, tabs);
}

proof fn runs_number_their_panes(w: WalkModel, src: Source, tabs: Seq<TabInfo>)
    requires
        w.next_number == 1 + w.numbers.len(),
        forall|i: int|
            0 <= i < w.numbers.len() ==> (#[trigger] w.numbers[i]).1 == (1 + i) as usize,
    ensures
        ({
            let v = projection::tabs_projected(w, src, tabs).0;
            &&& v.next_number == 1 + v.numbers.len()
            &&& forall|i: int|
                0 <= i < v.numbers.len() ==> (#[trigger] v.numbers[i]).1 == (1 + i) as usize
        }),
    decreases tabs.len(),
{
    if tabs.len() > 0 {
        let head = tabs.drop_last();
        runs_number_their_panes(w, src, head);
        let u = projection::tabs_projected(w, src, head).0;
        let tab = tabs.last();
        if src.exports.dom().contains(tab.tab_id@) {
            leaves_number_their_panes(
                u.outside_tabs(),
                src.structure.panes,
                src.here,
                projection::leaves(src.exports[tab.tab_id@].root),
            );
        }
    }
}

proof fn leaves_number_their_panes(
    w: WalkModel,
    panes: Map<Seq<char>, PaneInfo>,
    here: Seq<char>,
    run: Seq<LayoutPane>,
)
    requires
        w.next_number == 1 + w.numbers.len(),
        forall|i: int|
            0 <= i < w.numbers.len() ==> (#[trigger] w.numbers[i]).1 == (1 + i) as usize,
    ensures
        ({
            let v = w.visit_all(panes, here, run);
            &&& v.next_number == 1 + v.numbers.len()
            &&& forall|i: int|
                0 <= i < v.numbers.len() ==> (#[trigger] v.numbers[i]).1 == (1 + i) as usize
        }),
    decreases run.len(),
{
    if run.len() > 0 {
        leaves_number_their_panes(w, panes, here, run.drop_last());
        let u = w.visit_all(panes, here, run.drop_last());
        let v = w.visit_all(panes, here, run);
        assert forall|i: int| 0 <= i < v.numbers.len() implies (#[trigger] v.numbers[i]).1 == (1
            + i) as usize by {
            if i < u.numbers.len() {
                assert(v.numbers[i] == u.numbers[i]);
            }
        }
    }
}

/// Where a workspace has the focus there is a first one that has it.
proof fn focused_workspaces_have_a_first(
    shown: Seq<WorkspaceModel>,
    focused: Option<Seq<char>>,
    i: int,
)
    requires
        0 <= i < shown.len(),
        focused == Some(shown[i].id),
    ensures
        exists|j: int| projection::focused_workspace_at(shown, focused, j),
    decreases i,
{
    if exists|j: int| 0 <= j < i && focused == Some((#[trigger] shown[j]).id) {
        let j = choose|j: int| 0 <= j < i && focused == Some((#[trigger] shown[j]).id);
        focused_workspaces_have_a_first(shown, focused, j);
    } else {
        assert(projection::focused_workspace_at(shown, focused, i));
    }
}

/// A projection has an active workspace where it has any, and it is one of
/// them: the focused one where that is shown, else the first. Without one there
/// is no pane to type into.
pub proof fn views_have_an_active_workspace(
    src: Source,
    ids: IdSource,
    mode: Mode,
    preserve_overlay: bool,
)
    ensures
        ({
            let app = projection::projected(src, ids, mode, preserve_overlay);
            let focused = src.structure.focused_workspace;
            &&& app.active is Some <==> app.workspaces.len() > 0
            &&& app.active matches Some(i) ==> i < app.workspaces.len() && app.selected == i
            &&& forall|i: int|
                0 <= i < app.workspaces.len() && focused == Some((#[trigger] app.workspaces[i]).id)
                    ==> app.active is Some && focused == Some(
                    app.workspaces[app.active->0 as int].id,
                )
            &&& (forall|i: int|
                0 <= i < app.workspaces.len() ==> focused != Some(
                    (#[trigger] app.workspaces[i]).id,
                )) && app.workspaces.len() > 0 ==> app.active == Some(0nat)
            &&& app.active is None ==> app.selected == 0
            &&& app.mode == Mode::Terminal ==> app.active is Some
            &&& app.mode == Mode::Navigate ==> app.active is None
        }),
{
    let app = projection::projected(src, ids, mode, preserve_overlay);
    let shown = app.workspaces;
    let focused = src.structure.focused_workspace;
    if exists|i: int| projection::focused_workspace_at(shown, focused, i) {
        let i = choose|i: int| projection::focused_workspace_at(shown, focused, i);
        assert(0 <= i < shown.len());
        assert(focused == Some(shown[i].id));
    }
    assert forall|i: int|
        0 <= i < shown.len() && focused == Some((#[trigger] shown[i]).id) implies app.active is Some
        && focused == Some(shown[app.active->0 as int].id) by {
        focused_workspaces_have_a_first(shown, focused, i);
    }
}

/// A background change leaves the user's overlay open; a fresh start never
/// begins in one.
pub proof fn overlays_survive_background_changes(src: Source, ids: IdSource, mode: Mode)
    ensures
        mode == Mode::Overlay || mode == Mode::Prefix ==> projection::projected(
            src,
            ids,
            mode,
            true,
        ).mode == mode,
        projection::projected(src, ids, mode, false).mode == Mode::Terminal
            || projection::projected(src, ids, mode, false).mode == Mode::Navigate,
{
}

/// The terminal is among those that were rebuilt.
pub open spec fn serves(
    named: Map<Seq<char>, terminal_state::TerminalModel>,
    local: Seq<terminal_state::TerminalModel>,
    key: terminal_state::TerminalKey,
) -> bool {
    match key {
        terminal_state::TerminalKey::Named(k) => named.dom().contains(k),
        terminal_state::TerminalKey::Local(n) => exists|j: int|
            0 <= j < local.len() && (#[trigger] local[j]).id == terminal_state::TerminalKey::Local(
                n,
            ),
    }
}

/// Every pane of the tabs shows a terminal that was rebuilt.
pub open spec fn tabs_are_served(
    tabs: Seq<TabModel>,
    named: Map<Seq<char>, terminal_state::TerminalModel>,
    local: Seq<terminal_state::TerminalModel>,
) -> bool {
    forall|t: int, p: int|
        0 <= t < tabs.len() && 0 <= p < tabs[t].panes.len() ==> serves(
            named,
            local,
            (#[trigger] tabs[t].panes[p]).1.terminal,
        )
}

/// Every pane of the workspaces shows a terminal that was rebuilt.
pub open spec fn workspaces_are_served(
    workspaces: Seq<WorkspaceModel>,
    named: Map<Seq<char>, terminal_state::TerminalModel>,
    local: Seq<terminal_state::TerminalModel>,
) -> bool {
    forall|w: int|
        0 <= w < workspaces.len() ==> tabs_are_served(
            (#[trigger] workspaces[w]).tabs,
            named,
            local,
        )
}

/// The panes of a tab, in drawing order.
pub open spec fn pane_ids(tab: TabModel) -> Seq<PaneId> {
    tab.panes.map_values(|p: (PaneId, projection::PaneModel)| p.0)
}

/// The panes of a run of tabs.
pub open spec fn tab_pane_ids(tabs: Seq<TabModel>) -> Seq<PaneId>
    decreases tabs.len(),
{
    if tabs.len() == 0 {
        Seq::empty()
    } else {
        tab_pane_ids(tabs.drop_last()) + pane_ids(tabs.last())
    }
}

/// The panes of a run of workspaces.
pub open spec fn view_pane_ids(workspaces: Seq<WorkspaceModel>) -> Seq<PaneId>
    decreases workspaces.len(),
{
    if workspaces.len() == 0 {
        Seq::empty()
    } else {
        view_pane_ids(workspaces.drop_last()) + tab_pane_ids(workspaces.last().tabs)
    }
}

/// Terminals are only added.
spec fn grown(w: WalkModel, v: WalkModel) -> bool {
    &&& w.named.dom().subset_of(v.named.dom())
    &&& w.local.len() <= v.local.len()
    &&& forall|j: int| 0 <= j < w.local.len() ==> #[trigger] v.local[j] == w.local[j]
}

proof fn service_lasts(w: WalkModel, v: WalkModel, key: terminal_state::TerminalKey)
    requires
        grown(w, v),
        serves(w.named, w.local, key),
    ensures
        serves(v.named, v.local, key),
{
    if let terminal_state::TerminalKey::Local(n) = key {
        let j = choose|j: int|
            0 <= j < w.local.len() && (#[trigger] w.local[j]).id
                == terminal_state::TerminalKey::Local(n);
        assert(v.local[j] == w.local[j]);
    }
}

proof fn service_of_tabs_lasts(w: WalkModel, v: WalkModel, tabs: Seq<TabModel>)
    requires
        grown(w, v),
        tabs_are_served(tabs, w.named, w.local),
    ensures
        tabs_are_served(tabs, v.named, v.local),
{
    assert forall|t: int, p: int| 0 <= t < tabs.len() && 0 <= p < tabs[t].panes.len() implies serves(
        v.named,
        v.local,
        (#[trigger] tabs[t].panes[p]).1.terminal,
    ) by {
        service_lasts(w, v, tabs[t].panes[p].1.terminal);
    }
}

proof fn visiting_grows(
    w: WalkModel,
    panes: Map<Seq<char>, PaneInfo>,
    here: Seq<char>,
    run: Seq<LayoutPane>,
)
    ensures
        grown(w, w.visit_all(panes, here, run)),
    decreases run.len(),
{
    if run.len() > 0 {
        visiting_grows(w, panes, here, run.drop_last());
        let u = w.visit_all(panes, here, run.drop_last());
        let v = w.visit_all(panes, here, run);
        assert forall|j: int| 0 <= j < w.local.len() implies #[trigger] v.local[j]
            == w.local[j] by {
            assert(u.local[j] == w.local[j]);
        }
    }
}

/// A run of tabs draws consecutive panes, and every one shows a terminal that was
/// rebuilt.
proof fn runs_of_tabs_are_served(w: WalkModel, src: Source, tabs: Seq<TabInfo>)
    requires
        terminals_are_rebuilt(w.outside_tabs()),
    ensures
        ({
            let (v, shown) = projection::tabs_projected(w, src, tabs);
            &&& grown(w, v)
            &&& terminals_are_rebuilt(v.outside_tabs())
            &&& tabs_are_served(shown, v.named, v.local)
            &&& v.next_pane == w.next_pane + projection::tabs_leaves(src, tabs)
            &&& tab_pane_ids(shown) == ids_from(w.next_pane, projection::tabs_leaves(src, tabs))
        }),
    decreases tabs.len(),
{
    let (v, shown) = projection::tabs_projected(w, src, tabs);
    if tabs.len() == 0 {
        assert(tab_pane_ids(shown) =~= ids_from(w.next_pane, 0));
    } else {
        let head = tabs.drop_last();
        let tab = tabs.last();
        runs_of_tabs_are_served(w, src, head);
        let (u, before) = projection::tabs_projected(w, src, head);
        let n = projection::tabs_leaves(src, head);
        if src.exports.dom().contains(tab.tab_id@) {
            let layout = src.exports[tab.tab_id@];
            let run = projection::leaves(layout.root);
            let t = projection::tab_projected(u, src, tab, layout).1;
            visiting_grows(u.outside_tabs(), src.structure.panes, src.here, run);
            projection::visiting_counts(u.outside_tabs(), src.structure.panes, src.here, run);
            tabs_are_self_contained(u, src, tab, layout);
            tiling_numbers_its_leaves(layout.root, u.next_pane);
            assert forall|j: int| 0 <= j < w.local.len() implies #[trigger] v.local[j]
                == w.local[j] by {
                assert(u.local[j] == w.local[j]);
            }
            assert(grown(u, v));
            service_of_tabs_lasts(u, v, before);
            assert(shown.drop_last() =~= before);
            assert forall|x: int, p: int|
                0 <= x < shown.len() && 0 <= p < shown[x].panes.len() implies serves(
                v.named,
                v.local,
                (#[trigger] shown[x].panes[p]).1.terminal,
            ) by {
                if x < before.len() {
                    assert(before[x].panes[p] == shown[x].panes[p]);
                } else {
                    assert(t.panes[p] == shown[x].panes[p]);
                }
            }
            assert(ids_from(w.next_pane, n) + ids_from(u.next_pane, run.len()) =~= ids_from(
                w.next_pane,
                n + run.len(),
            ));
        }
    }
}

/// A run of workspaces draws consecutive panes, and every one shows a terminal
/// that was rebuilt.
proof fn runs_of_workspaces_are_served(w: WalkModel, src: Source, infos: Seq<WorkspaceInfo>)
    requires
        terminals_are_rebuilt(w.outside_tabs()),
    ensures
        ({
            let (v, shown) = projection::workspaces_projected(w, src, infos);
            &&& terminals_are_rebuilt(v.outside_tabs())
            &&& workspaces_are_served(shown, v.named, v.local)
            &&& v.next_pane == w.next_pane + projection::workspaces_leaves(src, infos)
            &&& view_pane_ids(shown) == ids_from(
                w.next_pane,
                projection::workspaces_leaves(src, infos),
            )
        }),
    decreases infos.len(),
{
    let (v, shown) = projection::workspaces_projected(w, src, infos);
    if infos.len() == 0 {
        assert(view_pane_ids(shown) =~= ids_from(w.next_pane, 0));
    } else {
        let head = infos.drop_last();
        runs_of_workspaces_are_served(w, src, head);
        let (u, before) = projection::workspaces_projected(w, src, head);
        let n = projection::workspaces_leaves(src, head);
        let tabs = projection::tabs_of(src.structure.tabs, infos.last().workspace_id@);
        let m = projection::tabs_leaves(src, tabs);
        let tab_list = projection::tabs_projected(u.at_workspace(), src, tabs).1;
        runs_of_tabs_are_served(u.at_workspace(), src, tabs);
        assert(ids_from(w.next_pane, n) + ids_from(u.next_pane, m) =~= ids_from(
            w.next_pane,
            n + m,
        ));
        assert forall|x: int| 0 <= x < before.len() implies tabs_are_served(
            (#[trigger] before[x]).tabs,
            v.named,
            v.local,
        ) by {
            service_of_tabs_lasts(u, v, before[x].tabs);
        }
        if tab_list.len() == 0 {
            assert(ids_from(u.next_pane, m).len() == 0);
            assert(view_pane_ids(shown) =~= ids_from(w.next_pane, n + m));
        } else {
            assert(shown.drop_last() =~= before);
            assert(shown.last().tabs == tab_list);
            assert forall|x: int| 0 <= x < shown.len() implies tabs_are_served(
                (#[trigger] shown[x]).tabs,
                v.named,
                v.local,
            ) by {
                if x < before.len() {
                    assert(before[x] == shown[x]);
                }
            }
        }
    }
}

/// In a projected view every pane has an id of its own and shows a terminal that
/// was rebuilt, each server terminal under the server's id.
pub proof fn views_are_self_contained(
    src: Source,
    ids: IdSource,
    mode: Mode,
    preserve_overlay: bool,
)
    requires
        projection::fits(src, ids),
    ensures
        ({
            let app = projection::projected(src, ids, mode, preserve_overlay);
            &&& view_pane_ids(app.workspaces).no_duplicates()
            &&& workspaces_are_served(app.workspaces, app.terminals, app.local_terminals)
            &&& forall|k: Seq<char>| #[trigger]
                app.terminals.dom().contains(k) ==> app.terminals[k].id
                    == terminal_state::TerminalKey::Named(k)
            &&& app.terminals.dom() == projection::workspaces_projected(
                projection::walk_start(ids),
                src,
                src.structure.workspaces,
            ).0.terminal_ids
        }),
{
    let start = projection::walk_start(ids);
    assert(start.named.dom() =~= start.terminal_ids);
    runs_of_workspaces_are_served(start, src, src.structure.workspaces);
    let total = projection::workspaces_leaves(src, src.structure.workspaces);
    let all = ids_from(ids.next_pane as nat, total);
    assert forall|i: int, j: int| 0 <= i < all.len() && 0 <= j < all.len() && i != j implies all[i]
        != all[j] by {
        assert(all[i].raw == ids.next_pane + i);
        assert(all[j].raw == ids.next_pane + j);
    }
}

} // verus!
