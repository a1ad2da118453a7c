//! What a projected view shows of the session, pane by pane.
use crate::event_laws::says;
use crate::projection;
use crate::projection::{
    AppState, Direction, IdSource, Mode, Node, PaneId, PaneModel, PaneState, ProjectedTab, Source,
    TabModel, WalkModel, WorkspaceModel, WorkspaceView,
};
use crate::projection_laws;
use crate::projection_laws::{pane_ids, tile_panes};
use crate::replica;
use crate::schema::{
    AgentStatus, LayoutDescription, LayoutNode, LayoutPane, PaneInfo, SplitDirection, TabInfo,
    WorkspaceInfo,
};
use crate::terminal_state;
use crate::terminal_state::{
    AgentState, TerminalId, TerminalKey, TerminalModel, TerminalState,
};
use vstd::prelude::*;

verus! {

/// The leaf names a pane that the server told of.
pub open spec fn told(panes: Map<Seq<char>, PaneInfo>, leaf: LayoutPane) -> bool {
    leaf.pane_id is Some && panes.dom().contains(leaf.pane_id->0@)
}

/// What the server told of the leaf's pane.
pub open spec fn told_info(panes: Map<Seq<char>, PaneInfo>, leaf: LayoutPane) -> PaneInfo {
    panes[leaf.pane_id->0@]
}

/// How many leaves of a run the server told nothing of.
pub open spec fn strangers(panes: Map<Seq<char>, PaneInfo>, run: Seq<LayoutPane>) -> nat
    decreases run.len(),
{
    if run.len() == 0 {
        0
    } else {
        strangers(panes, run.drop_last()) + if told(panes, run.last()) {
            0nat
        } else {
            1
        }
    }
}

/// A pane shows the terminal of its leaf: the server's where the server told of it,
/// else the local one with the given number. Only a pane whose agent is done is unseen.
pub open spec fn pane_shows(
    pane: PaneModel,
    panes: Map<Seq<char>, PaneInfo>,
    leaf: LayoutPane,
    local: nat,
) -> bool {
    if told(panes, leaf) {
        &&& pane.terminal == TerminalKey::Named(told_info(panes, leaf).terminal_id@)
        &&& pane.seen <==> told_info(panes, leaf).agent_status != AgentStatus::Done
    } else {
        pane.terminal == TerminalKey::Local(local as u64) && pane.seen
    }
}

/// The directory is the pane's, else the one in the layout, else `here`.
pub open spec fn is_directory(
    cwd: Seq<char>,
    panes: Map<Seq<char>, PaneInfo>,
    leaf: LayoutPane,
    here: Seq<char>,
) -> bool {
    if told(panes, leaf) && told_info(panes, leaf).cwd is Some {
        cwd == told_info(panes, leaf).cwd->0@
    } else if leaf.cwd is Some {
        cwd == leaf.cwd->0@
    } else {
        cwd == here
    }
}

/// The state that the status stands for.
pub open spec fn is_state(state: AgentState, status: AgentStatus) -> bool {
    &&& state == AgentState::Idle <==> status == AgentStatus::Idle || status == AgentStatus::Done
    &&& state == AgentState::Working <==> status == AgentStatus::Working
    &&& state == AgentState::Blocked <==> status == AgentStatus::Blocked
    &&& state == AgentState::Unknown <==> status == AgentStatus::Unknown
}

/// A terminal shows what the server told of the leaf's pane, all of it and nothing else.
pub open spec fn terminal_shows(
    t: TerminalModel,
    panes: Map<Seq<char>, PaneInfo>,
    leaf: LayoutPane,
    here: Seq<char>,
) -> bool {
    let info = told_info(panes, leaf);
    &&& t.id == TerminalKey::Named(info.terminal_id@)
    &&& is_directory(t.cwd, panes, leaf, here)
    &&& says(t.manual_label, info.label)
    &&& says(t.agent_name, info.agent)
    &&& says(t.title, info.title)
    &&& says(t.display_agent, info.display_agent)
    &&& says(t.custom_status, info.custom_status)
    &&& t.state_labels == info.state_labels@
    &&& is_state(t.state, info.agent_status)
    &&& t.fallback_state == t.state
}

/// A terminal of which nothing but its number and its directory is known.
pub open spec fn is_blank(
    t: TerminalModel,
    local: nat,
    panes: Map<Seq<char>, PaneInfo>,
    leaf: LayoutPane,
    here: Seq<char>,
) -> bool {
    &&& t.id == TerminalKey::Local(local as u64)
    &&& is_directory(t.cwd, panes, leaf, here)
    &&& t.manual_label is None && t.agent_name is None
    &&& t.title is None && t.display_agent is None && t.custom_status is None
    &&& t.state_labels == Map::<Seq<char>, String>::empty()
    &&& t.state == AgentState::Unknown && t.fallback_state == AgentState::Unknown
}

/// The leaf shows the server's terminal of that id.
pub open spec fn shows_terminal(
    panes: Map<Seq<char>, PaneInfo>,
    leaf: LayoutPane,
    id: Seq<char>,
) -> bool {
    told(panes, leaf) && told_info(panes, leaf).terminal_id@ == id
}

/// The leaf has the public id.
pub open spec fn has_name(leaf: LayoutPane, id: Seq<char>) -> bool {
    leaf.pane_id is Some && leaf.pane_id->0@ == id
}

/// The agent states, one by one.
pub proof fn statuses_stand_for_states(status: AgentStatus)
    ensures
        is_state(terminal_state::state_and_seen(status).0, status),
        terminal_state::state_and_seen(status).1 <==> status != AgentStatus::Done,
{
}

/// A reported value replaces what stood; an absent one clears it exactly where that was
/// asked for.
pub proof fn reports_replace_what_stood(
    stood: Option<Seq<char>>,
    value: Option<Seq<char>>,
    clear: bool,
)
    ensures
        ({
            let after = terminal_state::reported(stood, value, clear);
            &&& value is Some ==> after == value
            &&& value is None && clear ==> after is None
            &&& value is None && !clear ==> after == stood
        }),
{
}

/// The text says what was sent, and what stood where nothing was sent.
pub open spec fn says_or_stays(
    shown: Option<Seq<char>>,
    sent: Option<String>,
    stood: Option<Seq<char>>,
) -> bool {
    (sent is Some ==> shown == Some(sent->0@)) && (sent is None ==> shown == stood)
}

/// What the server sends of a pane replaces what its terminal showed, field by field;
/// what it does not send stays. The id and the directory stay.
pub proof fn descriptions_replace_what_was_sent(t: TerminalModel, info: PaneInfo)
    ensures
        ({
            let u = t.described(info);
            &&& u.id == t.id && u.cwd == t.cwd
            &&& says_or_stays(u.manual_label, info.label, t.manual_label)
            &&& says_or_stays(u.agent_name, info.agent, t.agent_name)
            &&& says_or_stays(u.title, info.title, t.title)
            &&& says_or_stays(u.display_agent, info.display_agent, t.display_agent)
            &&& says_or_stays(u.custom_status, info.custom_status, t.custom_status)
            &&& info.state_labels@ != Map::<Seq<char>, String>::empty() ==> u.state_labels
                == info.state_labels@
            &&& info.state_labels@ == Map::<Seq<char>, String>::empty() ==> u.state_labels
                == t.state_labels
            &&& is_state(u.state, info.agent_status)
            &&& u.fallback_state == u.state
        }),
{
}

/// A new terminal has its id and its directory, and nothing else is known of it.
pub proof fn new_terminals_are_blank(id: TerminalKey, cwd: Seq<char>)
    ensures
        ({
            let t = TerminalModel::bare(id, cwd);
            &&& t.id == id && t.cwd == cwd
            &&& t.manual_label is None && t.agent_name is None
            &&& t.title is None && t.display_agent is None && t.custom_status is None
            &&& t.state_labels == Map::<Seq<char>, String>::empty()
            &&& t.state == AgentState::Unknown && t.fallback_state == AgentState::Unknown
        }),
{
}

/// A terminal means what its fields hold.
pub proof fn terminals_hold_what_they_show(t: TerminalState, id: TerminalId)
    ensures
        t@.id == t.id@,
        t@.cwd == t.cwd@,
        says(t@.manual_label, t.manual_label),
        says(t@.agent_name, t.agent_name),
        says(t@.title, t.presentation.title),
        says(t@.display_agent, t.presentation.display_agent),
        says(t@.custom_status, t.presentation.custom_status),
        t@.state_labels == t.presentation.state_labels@,
        t@.state == t.state,
        t@.fallback_state == t.fallback_state,
        id matches TerminalId::Named(name) ==> id@ == TerminalKey::Named(name@),
        id matches TerminalId::Local(n) ==> id@ == TerminalKey::Local(n),
{
}

/// A view means what its fields hold.
pub proof fn views_hold_what_they_show(
    pane: PaneState,
    tab: ProjectedTab,
    workspace: WorkspaceView,
    app: AppState,
    i: int,
    k: Seq<char>,
)
    ensures
        pane@.terminal == pane.terminal_id@ && pane@.seen == pane.seen,
        tab@.label == tab.label@ && tab@.number == tab.number && tab@.root_pane == tab.root_pane,
        tab@.layout == tab.layout && tab@.focus == tab.focus && tab@.zoomed == tab.zoomed,
        tab@.panes.len() == tab.panes@.len(),
        0 <= i < tab.panes@.len() ==> tab@.panes[i].0 == tab.panes@[i].0
            && tab@.panes[i].1 == tab.panes@[i].1@,
        workspace@.id == workspace.id@ && workspace@.label == workspace.label@,
        workspace@.identity_cwd == workspace.identity_cwd@,
        workspace@.branch == workspace.branch,
        workspace@.tabs.len() == workspace.tabs@.len(),
        0 <= i < workspace.tabs@.len() ==> workspace@.tabs[i] == workspace.tabs@[i]@,
        workspace@.active_tab == workspace.active_tab,
        workspace@.public_pane_numbers == workspace.public_pane_numbers@,
        workspace@.next_pane_number == workspace.next_pane_number,
        workspace@.next_tab_number == workspace.next_tab_number,
        workspace@.worktree_space == workspace.worktree_space,
        app@.workspaces.len() == app.workspaces@.len(),
        0 <= i < app.workspaces@.len() ==> app@.workspaces[i] == app.workspaces@[i]@,
        app@.terminals.dom() == app.terminals@.dom(),
        app.terminals@.dom().contains(k) ==> app@.terminals[k] == app.terminals@[k]@,
        app@.local_terminals.len() == app.local_terminals@.len(),
        0 <= i < app.local_terminals@.len() ==> app@.local_terminals[i]
            == app.local_terminals@[i]@,
        app@.aliases == app.public_pane_id_aliases@,
        app@.former_ids == app.pane_id_aliases@,
        app@.active is Some <==> app.active is Some,
        app.active is Some ==> app@.active->0 == app.active->0,
        app@.selected == app.selected,
        app@.mode == app.mode,
{
    assert(app@.terminals.dom() =~= app.terminals@.dom());
}

/// The leaves of a layout are drawn from the first part of a split to the second.
pub proof fn leaves_are_in_drawing_order(node: LayoutNode)
    ensures
        match node {
            LayoutNode::Pane { pane } => projection::leaves(node) == seq![pane],
            LayoutNode::Split { first, second, .. } => projection::leaves(node)
                == projection::leaves(*first) + projection::leaves(*second),
        },
{
}

/// A tiling has the shape of its layout: the same splits, the same ratios, side by side
/// where the layout splits to the right and on top of each other where it splits down.
pub open spec fn draws(tile: Node, node: LayoutNode) -> bool
    decreases node,
{
    match node {
        LayoutNode::Pane { .. } => tile is Pane,
        LayoutNode::Split { direction, ratio, first, second } => {
            &&& tile is Split
            &&& (tile->direction == Direction::Horizontal) <==> direction == SplitDirection::Right
            &&& tile->ratio == ratio
            &&& draws(*tile->first, *first)
            &&& draws(*tile->second, *second)
        },
    }
}

/// The tiling of a layout has its shape.
pub proof fn tilings_draw_their_layout(node: LayoutNode, start: nat)
    ensures
        draws(projection::tiling(node, start), node),
    decreases node,
{
    if let LayoutNode::Split { first, second, .. } = node {
        tilings_draw_their_layout(*first, start);
        tilings_draw_their_layout(*second, start + projection::leaves(*first).len());
    }
}

/// Every leaf gets the next pane id, and its pane shows the leaf's terminal; a leaf that
/// the server told nothing of gets the next local terminal.
proof fn leaves_are_shown(
    w: WalkModel,
    panes: Map<Seq<char>, PaneInfo>,
    here: Seq<char>,
    run: Seq<LayoutPane>,
    i: int,
)
    requires
        0 <= i < run.len(),
    ensures
        ({
            let v = w.visit_all(panes, here, run);
            let shown = v.panes[w.panes.len() + i];
            &&& shown.0.raw == (w.next_pane + i) as u32
            &&& pane_shows(
                shown.1,
                panes,
                run[i],
                w.next_local + strangers(panes, run.take(i)),
            )
        }),
    decreases run.len(),
{
    let head = run.drop_last();
    let u = w.visit_all(panes, here, head);
    projection::visiting_counts(w, panes, here, head);
    if i < head.len() {
        leaves_are_shown(w, panes, here, head, i);
        assert(head.take(i) =~= run.take(i));
    } else {
        assert(head =~= run.take(i));
        strangers_are_counted(w, panes, here, head);
    }
}

proof fn strangers_are_counted(
    w: WalkModel,
    panes: Map<Seq<char>, PaneInfo>,
    here: Seq<char>,
    run: Seq<LayoutPane>,
)
    ensures
        w.visit_all(panes, here, run).next_local == w.next_local + strangers(panes, run),
        w.visit_all(panes, here, run).local.len() == w.local.len() + strangers(panes, run),
    decreases run.len(),
{
    if run.len() > 0 {
        strangers_are_counted(w, panes, here, run.drop_last());
    }
}

proof fn fewer_strangers_earlier(
    panes: Map<Seq<char>, PaneInfo>,
    run: Seq<LayoutPane>,
    i: int,
    j: int,
)
    requires
        0 <= i < j <= run.len(),
    ensures
        strangers(panes, run.take(i)) + (if told(panes, run[i]) {
            0nat
        } else {
            1
        }) <= strangers(panes, run.take(j)),
        strangers(panes, run.take(j)) <= j,
    decreases j,
{
    assert(run.take(j).drop_last() =~= run.take(j - 1));
    if i < j - 1 {
        fewer_strangers_earlier(panes, run, i, j - 1);
    } else {
        at_most_all_strangers(panes, run.take(i));
    }
}

proof fn at_most_all_strangers(panes: Map<Seq<char>, PaneInfo>, run: Seq<LayoutPane>)
    ensures
        strangers(panes, run) <= run.len(),
    decreases run.len(),
{
    if run.len() > 0 {
        at_most_all_strangers(panes, run.drop_last());
    }
}

/// In a projected tab every leaf of the layout, in drawing order, has its pane. Where the
/// leaf names a pane that the replica holds, the pane shows that pane's terminal; where it
/// names none, a local terminal of its own.
pub proof fn panes_show_their_terminals(
    w: WalkModel,
    src: Source,
    tab: TabInfo,
    layout: LayoutDescription,
    i: int,
    j: int,
)
    requires
        0 <= i <= j < projection::leaves(layout.root).len(),
        w.next_local + projection::leaves(layout.root).len() <= u64::MAX,
    ensures
        ({
            let t = projection::tab_projected(w, src, tab, layout).1;
            let run = projection::leaves(layout.root);
            let panes = src.structure.panes;
            &&& t.panes.len() == run.len()
            &&& pane_shows(t.panes[i].1, panes, run[i], w.next_local + strangers(panes, run.take(i)))
            &&& pane_shows(t.panes[j].1, panes, run[j], w.next_local + strangers(panes, run.take(j)))
            &&& i < j && !told(panes, run[i]) && !told(panes, run[j])
                ==> t.panes[i].1.terminal != t.panes[j].1.terminal
        }),
{
    let run = projection::leaves(layout.root);
    let start = w.outside_tabs();
    let panes = src.structure.panes;
    projection::visiting_counts(start, panes, src.here, run);
    leaves_are_shown(start, panes, src.here, run, i);
    leaves_are_shown(start, panes, src.here, run, j);
    if i < j {
        fewer_strangers_earlier(panes, run, i, j);
    }
}

/// A projected tab shows its tab: its label and number, its layout, one pane for each
/// leaf with the leaf's terminal, and the focus on the last leaf that has the focused
/// id, or on the first pane where none has it.
pub open spec fn tab_shows(t: TabModel, src: Source, tab: TabInfo) -> bool {
    let layout = src.exports[tab.tab_id@];
    let run = projection::leaves(layout.root);
    &&& src.exports.dom().contains(tab.tab_id@)
    &&& t.label == tab.label@
    &&& t.number == tab.number
    &&& t.zoomed == layout.zoomed
    &&& draws(t.layout, layout.root)
    &&& tile_panes(t.layout) == pane_ids(t)
    &&& t.panes.len() == run.len()
    &&& run.len() > 0 && t.root_pane == t.panes[0].0
    &&& forall|i: int|
        0 <= i < run.len() ==> shows_leaf(
            (#[trigger] t.panes[i]).1,
            src.structure.panes,
            run[i],
        )
    &&& focuses(t, run, layout.focused_pane_id@)
}

/// The pane shows the server's terminal where the server told of the leaf, else a local
/// one.
pub open spec fn shows_leaf(
    pane: PaneModel,
    panes: Map<Seq<char>, PaneInfo>,
    leaf: LayoutPane,
) -> bool {
    if told(panes, leaf) {
        &&& pane.terminal == TerminalKey::Named(told_info(panes, leaf).terminal_id@)
        &&& pane.seen <==> told_info(panes, leaf).agent_status != AgentStatus::Done
    } else {
        pane.terminal is Local && pane.seen
    }
}

/// `i` is the last leaf with the id.
pub open spec fn is_last_named(run: Seq<LayoutPane>, id: Seq<char>, i: int) -> bool {
    &&& 0 <= i < run.len()
    &&& has_name(run[i], id)
    &&& forall|j: int| i < j < run.len() ==> !has_name(#[trigger] run[j], id)
}

/// No leaf has the id.
pub open spec fn is_unnamed(run: Seq<LayoutPane>, id: Seq<char>) -> bool {
    forall|i: int| 0 <= i < run.len() ==> !has_name(#[trigger] run[i], id)
}

/// The focus is on the last leaf that has the focused id, else on the first pane.
pub open spec fn focuses(t: TabModel, run: Seq<LayoutPane>, focused: Seq<char>) -> bool {
    &&& forall|i: int| #[trigger] is_last_named(run, focused, i) ==> t.focus == t.panes[i].0
    &&& is_unnamed(run, focused) ==> t.focus == t.root_pane
}

/// A public id leads to the last leaf that has it; the ids that no leaf has lead to where
/// they led.
proof fn names_lead_to_the_last(
    w: WalkModel,
    panes: Map<Seq<char>, PaneInfo>,
    here: Seq<char>,
    run: Seq<LayoutPane>,
    id: Seq<char>,
)
    ensures
        ({
            let v = w.visit_all(panes, here, run);
            &&& forall|i: int| #[trigger]
                is_last_named(run, id, i) ==> v.aliases.dom().contains(id)
                    && v.by_name.dom().contains(id) && v.aliases[id].raw == (w.next_pane + i) as u32
                    && v.by_name[id].raw == (w.next_pane + i) as u32
            &&& is_unnamed(run, id) ==> {
                &&& v.aliases.dom().contains(id) == w.aliases.dom().contains(id)
                &&& v.aliases[id] == w.aliases[id]
                &&& v.by_name.dom().contains(id) == w.by_name.dom().contains(id)
                &&& v.by_name[id] == w.by_name[id]
            }
        }),
    decreases run.len(),
{
    if run.len() > 0 {
        let head = run.drop_last();
        let u = w.visit_all(panes, here, head);
        let v = w.visit_all(panes, here, run);
        names_lead_to_the_last(w, panes, here, head, id);
        projection::visiting_counts(w, panes, here, head);
        assert(run[run.len() - 1] == run.last());
        assert forall|i: int| #[trigger] is_last_named(run, id, i) implies v.aliases.dom().contains(
            id,
        ) && v.by_name.dom().contains(id) && v.aliases[id].raw == (w.next_pane + i) as u32
            && v.by_name[id].raw == (w.next_pane + i) as u32 by {
            if i < head.len() {
                assert(is_last_named(head, id, i)) by {
                    assert(head[i] == run[i]);
                    assert forall|j: int| i < j < head.len() implies !has_name(
                        #[trigger] head[j],
                        id,
                    ) by {
                        assert(head[j] == run[j]);
                    }
                }
                assert(!has_name(run[run.len() - 1], id));
            }
        }
        if is_unnamed(run, id) {
            assert forall|j: int| 0 <= j < head.len() implies !has_name(#[trigger] head[j], id) by {
                assert(head[j] == run[j]);
            }
        }
    }
}

proof fn tabs_focus_the_last(w: WalkModel, src: Source, tab: TabInfo, layout: LayoutDescription)
    ensures
        focuses(
            projection::tab_projected(w, src, tab, layout).1,
            projection::leaves(layout.root),
            layout.focused_pane_id@,
        ),
{
    let run = projection::leaves(layout.root);
    let panes = src.structure.panes;
    let start = w.outside_tabs();
    let t = projection::tab_projected(w, src, tab, layout).1;
    names_lead_to_the_last(start, panes, src.here, run, layout.focused_pane_id@);
    assert forall|i: int| #[trigger] is_last_named(run, layout.focused_pane_id@, i) implies t.focus
        == t.panes[i].0 by {
        leaves_are_shown(start, panes, src.here, run, i);
    }
}

/// A projected tab shows its tab.
pub proof fn tabs_show_their_layout(w: WalkModel, src: Source, tab: TabInfo)
    requires
        src.exports.dom().contains(tab.tab_id@),
    ensures
        tab_shows(
            projection::tab_projected(w, src, tab, src.exports[tab.tab_id@]).1,
            src,
            tab,
        ),
{
    let layout = src.exports[tab.tab_id@];
    let run = projection::leaves(layout.root);
    let panes = src.structure.panes;
    let start = w.outside_tabs();
    let t = projection::tab_projected(w, src, tab, layout).1;
    projection::layouts_have_leaves(layout.root);
    assert(t.panes.len() == run.len() && t.root_pane.raw == w.next_pane as u32) by {
        projection::visiting_counts(start, panes, src.here, run);
    }
    tilings_draw_their_layout(layout.root, w.next_pane);
    projection_laws::tiling_numbers_its_leaves(layout.root, w.next_pane);
    assert forall|i: int| 0 <= i < run.len() implies shows_leaf(
        (#[trigger] t.panes[i]).1,
        panes,
        run[i],
    ) && t.panes[i].0.raw == (w.next_pane + i) as u32 by {
        leaves_are_shown(start, panes, src.here, run, i);
    }
    assert(tile_panes(t.layout) =~= pane_ids(t));
    tabs_focus_the_last(w, src, tab, layout);
}

/// `i` is the last leaf that shows the terminal.
pub open spec fn is_last_shown(
    panes: Map<Seq<char>, PaneInfo>,
    run: Seq<LayoutPane>,
    id: Seq<char>,
    i: int,
) -> bool {
    &&& 0 <= i < run.len()
    &&& shows_terminal(panes, run[i], id)
    &&& forall|j: int| i < j < run.len() ==> !shows_terminal(panes, #[trigger] run[j], id)
}

/// No leaf shows the terminal.
pub open spec fn is_unshown(
    panes: Map<Seq<char>, PaneInfo>,
    run: Seq<LayoutPane>,
    id: Seq<char>,
) -> bool {
    forall|i: int| 0 <= i < run.len() ==> !shows_terminal(panes, #[trigger] run[i], id)
}

/// A server terminal says what was told of the last leaf that shows it.
proof fn terminals_say_what_was_told(
    w: WalkModel,
    panes: Map<Seq<char>, PaneInfo>,
    here: Seq<char>,
    run: Seq<LayoutPane>,
    id: Seq<char>,
)
    ensures
        ({
            let v = w.visit_all(panes, here, run);
            &&& forall|i: int| #[trigger]
                is_last_shown(panes, run, id, i) ==> v.named.dom().contains(id)
                    && v.terminal_ids.contains(id) && terminal_shows(
                    v.named[id],
                    panes,
                    run[i],
                    here,
                )
            &&& is_unshown(panes, run, id) ==> {
                &&& v.named.dom().contains(id) == w.named.dom().contains(id)
                &&& v.terminal_ids.contains(id) == w.terminal_ids.contains(id)
                &&& v.named[id] == w.named[id]
            }
        }),
    decreases run.len(),
{
    if run.len() > 0 {
        let head = run.drop_last();
        let u = w.visit_all(panes, here, head);
        let v = w.visit_all(panes, here, run);
        terminals_say_what_was_told(w, panes, here, head, id);
        assert(run[run.len() - 1] == run.last());
        if shows_terminal(panes, run.last(), id) {
            assert(terminal_shows(v.named[id], panes, run.last(), here));
        } else {
            assert(v.named.dom().contains(id) == u.named.dom().contains(id));
            assert(v.named[id] == u.named[id]);
            assert(v.terminal_ids.contains(id) == u.terminal_ids.contains(id));
        }
        assert forall|i: int| #[trigger]
            is_last_shown(panes, run, id, i) implies v.named.dom().contains(id)
            && v.terminal_ids.contains(id) && terminal_shows(v.named[id], panes, run[i], here) by {
            if i < head.len() {
                assert(!shows_terminal(panes, run[run.len() - 1], id));
                assert(is_last_shown(panes, head, id, i)) by {
                    assert(head[i] == run[i]);
                    assert forall|j: int| i < j < head.len() implies !shows_terminal(
                        panes,
                        #[trigger] head[j],
                        id,
                    ) by {
                        assert(head[j] == run[j]);
                    }
                }
            }
        }
        if is_unshown(panes, run, id) {
            assert forall|j: int| 0 <= j < head.len() implies !shows_terminal(
                panes,
                #[trigger] head[j],
                id,
            ) by {
                assert(head[j] == run[j]);
            }
        }
    }
}

/// A leaf that the server told nothing of has a blank terminal of its own.
proof fn strangers_have_blank_terminals(
    w: WalkModel,
    panes: Map<Seq<char>, PaneInfo>,
    here: Seq<char>,
    run: Seq<LayoutPane>,
    i: int,
)
    requires
        0 <= i < run.len(),
        !told(panes, run[i]),
    ensures
        ({
            let v = w.visit_all(panes, here, run);
            let n = strangers(panes, run.take(i));
            &&& w.local.len() + n < v.local.len()
            &&& is_blank(v.local[w.local.len() + n as int], w.next_local + n, panes, run[i], here)
        }),
    decreases run.len(),
{
    let head = run.drop_last();
    let u = w.visit_all(panes, here, head);
    strangers_are_counted(w, panes, here, head);
    strangers_are_counted(w, panes, here, run);
    if i < head.len() {
        strangers_have_blank_terminals(w, panes, here, head, i);
        assert(head.take(i) =~= run.take(i));
    } else {
        assert(head =~= run.take(i));
    }
}

/// The leaves of a run of tabs that have a layout, in drawing order.
pub open spec fn tabs_run(src: Source, tabs: Seq<TabInfo>) -> Seq<LayoutPane>
    decreases tabs.len(),
{
    if tabs.len() == 0 {
        Seq::empty()
    } else if src.exports.dom().contains(tabs.last().tab_id@) {
        tabs_run(src, tabs.drop_last()) + projection::leaves(
            src.exports[tabs.last().tab_id@].root,
        )
    } else {
        tabs_run(src, tabs.drop_last())
    }
}

/// The leaves of a run of workspaces, tab by tab, in drawing order.
pub open spec fn view_run(src: Source, infos: Seq<WorkspaceInfo>) -> Seq<LayoutPane>
    decreases infos.len(),
{
    if infos.len() == 0 {
        Seq::empty()
    } else {
        view_run(src, infos.drop_last()) + tabs_run(
            src,
            projection::tabs_of(src.structure.tabs, infos.last().workspace_id@),
        )
    }
}

/// The panes of a run of tabs.
pub open spec fn tab_panes(tabs: Seq<TabModel>) -> Seq<(PaneId, PaneModel)>
    decreases tabs.len(),
{
    if tabs.len() == 0 {
        Seq::empty()
    } else {
        tab_panes(tabs.drop_last()) + tabs.last().panes
    }
}

/// The panes of a view, workspace by workspace and tab by tab.
pub open spec fn view_panes(workspaces: Seq<WorkspaceModel>) -> Seq<(PaneId, PaneModel)>
    decreases workspaces.len(),
{
    if workspaces.len() == 0 {
        Seq::empty()
    } else {
        view_panes(workspaces.drop_last()) + tab_panes(workspaces.last().tabs)
    }
}

/// The same but for the workspace and the tab at hand.
spec fn alike(a: WalkModel, b: WalkModel) -> bool {
    &&& a.next_pane == b.next_pane
    &&& a.next_local == b.next_local
    &&& a.terminal_ids == b.terminal_ids
    &&& a.named == b.named
    &&& a.local == b.local
    &&& a.aliases == b.aliases
}

/// The same but for the tab at hand.
spec fn alike_in_workspace(a: WalkModel, b: WalkModel) -> bool {
    &&& alike(a, b)
    &&& a.numbers == b.numbers
    &&& a.next_number == b.next_number
    &&& a.identity_cwd == b.identity_cwd
}

proof fn visits_stay_alike(
    a: WalkModel,
    b: WalkModel,
    panes: Map<Seq<char>, PaneInfo>,
    here: Seq<char>,
    run: Seq<LayoutPane>,
)
    requires
        alike(a, b),
    ensures
        ({
            let va = a.visit_all(panes, here, run);
            let vb = b.visit_all(panes, here, run);
            &&& alike(va, vb)
            &&& alike_in_workspace(a, b) ==> alike_in_workspace(va, vb)
            &&& va.panes.len() == a.panes.len() + run.len()
            &&& vb.panes.len() == b.panes.len() + run.len()
            &&& va.panes.take(a.panes.len() as int) == a.panes
            &&& va.panes.skip(a.panes.len() as int) == vb.panes.skip(b.panes.len() as int)
        }),
    decreases run.len(),
{
    let va = a.visit_all(panes, here, run);
    let vb = b.visit_all(panes, here, run);
    let n = a.panes.len() as int;
    let m = b.panes.len() as int;
    if run.len() > 0 {
        let ua = a.visit_all(panes, here, run.drop_last());
        let ub = b.visit_all(panes, here, run.drop_last());
        visits_stay_alike(a, b, panes, here, run.drop_last());
        assert(va.panes.skip(n) =~= ua.panes.skip(n).push(va.panes.last()));
        assert(vb.panes.skip(m) =~= ub.panes.skip(m).push(vb.panes.last()));
        assert(va.panes.take(n) =~= ua.panes.take(n));
        assert(va.panes.last() == vb.panes.last());
    } else {
        assert(va.panes.take(n) =~= a.panes);
        assert(va.panes.skip(n) =~= vb.panes.skip(m));
    }
}

/// A run of tabs leaves what visiting all their leaves leaves.
proof fn tabs_are_visited(w: WalkModel, b: WalkModel, src: Source, tabs: Seq<TabInfo>)
    requires
        alike(w, b),
    ensures
        ({
            let (v, shown) = projection::tabs_projected(w, src, tabs);
            let end = b.visit_all(src.structure.panes, src.here, tabs_run(src, tabs));
            &&& alike(v, end)
            &&& alike_in_workspace(w, b) ==> alike_in_workspace(v, end)
            &&& end.panes == b.panes + tab_panes(shown)
        }),
    decreases tabs.len(),
{
    let panes = src.structure.panes;
    let (v, shown) = projection::tabs_projected(w, src, tabs);
    if tabs.len() == 0 {
        assert(b.panes + tab_panes(shown) =~= b.panes);
    } else {
        let head = tabs.drop_last();
        let tab = tabs.last();
        tabs_are_visited(w, b, src, head);
        let (u, before) = projection::tabs_projected(w, src, head);
        if src.exports.dom().contains(tab.tab_id@) {
            let layout = src.exports[tab.tab_id@];
            let more = projection::leaves(layout.root);
            let mid = b.visit_all(panes, src.here, tabs_run(src, head));
            let end = mid.visit_all(panes, src.here, more);
            projection::visiting_splits(b, panes, src.here, tabs_run(src, head), more);
            visits_stay_alike(mid, u.outside_tabs(), panes, src.here, more);
            let t = projection::tab_projected(u, src, tab, layout).1;
            assert(t.panes.skip(0) =~= t.panes);
            assert(shown.drop_last() =~= before);
            assert(end.panes =~= end.panes.take(mid.panes.len() as int) + end.panes.skip(
                mid.panes.len() as int,
            ));
            assert(b.panes + tab_panes(shown) =~= (b.panes + tab_panes(before)) + t.panes);
        }
    }
}

/// A run of workspaces leaves what visiting all their leaves leaves.
proof fn workspaces_are_visited(
    w: WalkModel,
    b: WalkModel,
    src: Source,
    infos: Seq<WorkspaceInfo>,
)
    requires
        alike(w, b),
    ensures
        ({
            let (v, shown) = projection::workspaces_projected(w, src, infos);
            let end = b.visit_all(src.structure.panes, src.here, view_run(src, infos));
            &&& alike(v, end)
            &&& end.panes == b.panes + view_panes(shown)
        }),
    decreases infos.len(),
{
    let panes = src.structure.panes;
    let (v, shown) = projection::workspaces_projected(w, src, infos);
    if infos.len() == 0 {
        assert(b.panes + view_panes(shown) =~= b.panes);
    } else {
        let head = infos.drop_last();
        workspaces_are_visited(w, b, src, head);
        let (u, before) = projection::workspaces_projected(w, src, head);
        let tabs = projection::tabs_of(src.structure.tabs, infos.last().workspace_id@);
        let mid = b.visit_all(panes, src.here, view_run(src, head));
        projection::visiting_splits(b, panes, src.here, view_run(src, head), tabs_run(src, tabs));
        tabs_are_visited(u.at_workspace(), mid, src, tabs);
        let listed = projection::tabs_projected(u.at_workspace(), src, tabs).1;
        if listed.len() == 0 {
            assert(b.panes + view_panes(shown) =~= (b.panes + view_panes(before)) + tab_panes(
                listed,
            ));
        } else {
            assert(shown.drop_last() =~= before);
            assert(shown.last().tabs == listed);
            assert(b.panes + view_panes(shown) =~= (b.panes + view_panes(before)) + tab_panes(
                listed,
            ));
        }
    }
}

/// The panes of a view are the leaves of its layouts, in drawing order: each has the next
/// pane id from the source of ids on and shows the terminal of its leaf. The leaves that
/// the server told nothing of get the next local terminals.
pub proof fn views_show_their_leaves(
    src: Source,
    ids: IdSource,
    mode: Mode,
    preserve_overlay: bool,
    i: int,
)
    ensures
        ({
            let app = projection::projected(src, ids, mode, preserve_overlay);
            let run = view_run(src, src.structure.workspaces);
            let panes = src.structure.panes;
            let all = view_panes(app.workspaces);
            &&& all.len() == run.len()
            &&& 0 <= i < run.len() ==> {
                &&& all[i].0.raw == (ids.next_pane + i) as u32
                &&& pane_shows(
                    all[i].1,
                    panes,
                    run[i],
                    ids.next_local as nat + strangers(panes, run.take(i)),
                )
            }
            &&& app.local_terminals.len() == strangers(panes, run)
            &&& 0 <= i < run.len() && !told(panes, run[i]) ==> {
                let n = strangers(panes, run.take(i));
                &&& n < app.local_terminals.len()
                &&& is_blank(
                    app.local_terminals[n as int],
                    ids.next_local as nat + n,
                    panes,
                    run[i],
                    src.here,
                )
            }
        }),
{
    let start = projection::walk_start(ids);
    let run = view_run(src, src.structure.workspaces);
    let panes = src.structure.panes;
    let end = start.visit_all(panes, src.here, run);
    workspaces_are_visited(start, start, src, src.structure.workspaces);
    let shown = projection::workspaces_projected(start, src, src.structure.workspaces).1;
    assert(start.panes + view_panes(shown) =~= view_panes(shown));
    projection::visiting_counts(start, panes, src.here, run);
    strangers_are_counted(start, panes, src.here, run);
    if 0 <= i < run.len() {
        leaves_are_shown(start, panes, src.here, run, i);
        if !told(panes, run[i]) {
            strangers_have_blank_terminals(start, panes, src.here, run, i);
        }
    }
}

/// A view holds the server's terminals that its panes show and no others, each with what
/// was told of the last pane that shows it. A public id leads to the last pane that has
/// it, and to none where none has it. No former id leads anywhere.
pub proof fn views_hold_what_was_told(
    src: Source,
    ids: IdSource,
    mode: Mode,
    preserve_overlay: bool,
    id: Seq<char>,
    i: int,
)
    ensures
        ({
            let app = projection::projected(src, ids, mode, preserve_overlay);
            let run = view_run(src, src.structure.workspaces);
            let panes = src.structure.panes;
            &&& is_last_shown(panes, run, id, i) ==> app.terminals.dom().contains(id)
                && terminal_shows(app.terminals[id], panes, run[i], src.here)
            &&& is_unshown(panes, run, id) ==> !app.terminals.dom().contains(id)
            &&& is_last_named(run, id, i) ==> app.aliases.dom().contains(id)
                && app.aliases[id].raw == (ids.next_pane + i) as u32
            &&& is_unnamed(run, id) ==> !app.aliases.dom().contains(id)
            &&& app.former_ids.len() == 0
        }),
{
    let start = projection::walk_start(ids);
    let run = view_run(src, src.structure.workspaces);
    let panes = src.structure.panes;
    workspaces_are_visited(start, start, src, src.structure.workspaces);
    terminals_say_what_was_told(start, panes, src.here, run, id);
    names_lead_to_the_last(start, panes, src.here, run, id);
}

/// A projection takes one pane id for each leaf and one local number for each leaf that
/// the server told nothing of, and leaves the source of ids after them. It reports the
/// server's terminals that its panes show.
pub proof fn projections_take_the_next_ids(src: Source, ids: IdSource, id: Seq<char>, i: int)
    ensures
        ({
            let end = projection::workspaces_projected(
                projection::walk_start(ids),
                src,
                src.structure.workspaces,
            ).0;
            let run = view_run(src, src.structure.workspaces);
            let panes = src.structure.panes;
            &&& end.next_pane == ids.next_pane + run.len()
            &&& end.next_local == ids.next_local + strangers(panes, run)
            &&& is_last_shown(panes, run, id, i) ==> end.terminal_ids.contains(id)
            &&& is_unshown(panes, run, id) ==> !end.terminal_ids.contains(id)
        }),
{
    let start = projection::walk_start(ids);
    let run = view_run(src, src.structure.workspaces);
    let panes = src.structure.panes;
    workspaces_are_visited(start, start, src, src.structure.workspaces);
    projection::visiting_counts(start, panes, src.here, run);
    strangers_are_counted(start, panes, src.here, run);
    terminals_say_what_was_told(start, panes, src.here, run, id);
}

/// The tab is one of the workspace's.
pub open spec fn is_tab_of(workspace: Seq<char>) -> spec_fn(TabInfo) -> bool {
    |t: TabInfo| t.workspace_id@ == workspace
}

/// The tab is one of the workspace's and has the number.
pub open spec fn is_numbered_tab_of(workspace: Seq<char>, n: usize) -> spec_fn(TabInfo) -> bool {
    |t: TabInfo| t.workspace_id@ == workspace && t.number == n
}

/// The tab has a layout to draw.
pub open spec fn has_layout(src: Source) -> spec_fn(TabInfo) -> bool {
    |t: TabInfo| src.exports.dom().contains(t.tab_id@)
}

proof fn filtering_twice(tabs: Seq<TabInfo>, workspace: Seq<char>, n: usize)
    ensures
        tabs.filter(projection::belongs_to(workspace)) == tabs.filter(is_tab_of(workspace)),
        tabs.filter(is_tab_of(workspace)).filter(projection_laws::numbered(n)) == tabs.filter(
            is_numbered_tab_of(workspace, n),
        ),
    decreases tabs.len(),
{
    reveal(Seq::filter);
    if tabs.len() > 0 {
        let head = tabs.drop_last();
        filtering_twice(head, workspace, n);
        let mine = head.filter(is_tab_of(workspace));
        assert(mine.push(tabs.last()).drop_last() =~= mine);
    }
}

/// The tabs of a workspace are all of its tabs and no others, by ascending number; those
/// of one number stay in the order in which the server listed them.
pub proof fn workspaces_list_their_own_tabs(tabs: Seq<TabInfo>, workspace: Seq<char>, n: usize)
    ensures
        ({
            let mine = projection::tabs_of(tabs, workspace);
            &&& mine.len() == tabs.filter(is_tab_of(workspace)).len()
            &&& projection_laws::ascending(mine)
            &&& mine.filter(projection_laws::numbered(n)) == tabs.filter(
                is_numbered_tab_of(workspace, n),
            )
        }),
{
    filtering_twice(tabs, workspace, n);
    projection_laws::tabs_are_ordered_stably(tabs.filter(projection::belongs_to(workspace)), n);
}

/// The tabs to draw are those that have a layout, in their order.
pub proof fn tabs_with_a_layout_are_drawn(src: Source, tabs: Seq<TabInfo>)
    ensures
        projection::shown_tabs(src, tabs) == tabs.filter(has_layout(src)),
    decreases tabs.len(),
{
    reveal(Seq::filter);
    if tabs.len() > 0 {
        tabs_with_a_layout_are_drawn(src, tabs.drop_last());
    }
}

/// The projected tabs show the drawn tabs, one for one.
pub open spec fn tabs_show(shown: Seq<TabModel>, src: Source, drawn: Seq<TabInfo>) -> bool {
    &&& shown.len() == drawn.len()
    &&& forall|i: int| 0 <= i < drawn.len() ==> tab_shows(#[trigger] shown[i], src, drawn[i])
}

proof fn drawn_tabs_are_shown(w: WalkModel, src: Source, tabs: Seq<TabInfo>)
    ensures
        tabs_show(
            projection::tabs_projected(w, src, tabs).1,
            src,
            tabs.filter(has_layout(src)),
        ),
    decreases tabs.len(),
{
    reveal(Seq::filter);
    if tabs.len() > 0 {
        let head = tabs.drop_last();
        let tab = tabs.last();
        drawn_tabs_are_shown(w, src, head);
        let (u, before) = projection::tabs_projected(w, src, head);
        if src.exports.dom().contains(tab.tab_id@) {
            tabs_show_their_layout(u, src, tab);
            let shown = projection::tabs_projected(w, src, tabs).1;
            let drawn = tabs.filter(has_layout(src));
            let earlier = head.filter(has_layout(src));
            assert(drawn =~= earlier.push(tab));
            assert forall|i: int| 0 <= i < drawn.len() implies tab_shows(
                #[trigger] shown[i],
                src,
                drawn[i],
            ) by {
                if i < before.len() {
                    assert(shown[i] == before[i]);
                    assert(drawn[i] == earlier[i]);
                }
            }
        }
    }
}

/// `i` is the first of the tabs with the id.
pub open spec fn is_first_tab(tabs: Seq<TabInfo>, id: Option<Seq<char>>, i: int) -> bool {
    &&& 0 <= i < tabs.len()
    &&& id == Some(tabs[i].tab_id@)
    &&& forall|j: int| 0 <= j < i ==> id != Some((#[trigger] tabs[j]).tab_id@)
}

/// A projected workspace shows its workspace: its id, label, branch and worktree, its
/// tabs that have a layout, the focused one active, its panes numbered from one on, and
/// the directory of its first leaf. The next tab gets the number after all of its tabs.
pub open spec fn workspace_shows(m: WorkspaceModel, src: Source, info: WorkspaceInfo) -> bool {
    let mine = projection::tabs_of(src.structure.tabs, info.workspace_id@);
    let drawn = mine.filter(has_layout(src));
    let run = tabs_run(src, mine);
    &&& m.id == info.workspace_id@
    &&& m.label == info.label@
    &&& m.branch == info.branch
    &&& m.worktree_space is Some <==> info.worktree is Some
    &&& m.worktree_space matches Some(space) ==> {
        &&& space.key == info.worktree->0.repo_key
        &&& space.label == info.worktree->0.repo_name
        &&& space.repo_root == info.worktree->0.repo_root
        &&& space.checkout_path == info.worktree->0.checkout_path
        &&& space.is_linked_worktree == info.worktree->0.is_linked_worktree
    }
    &&& drawn.len() > 0
    &&& tabs_show(m.tabs, src, drawn)
    &&& forall|i: int| #[trigger]
        is_first_tab(drawn, src.structure.focused_tab, i) ==> m.active_tab == i
    &&& (forall|i: int|
        0 <= i < drawn.len() ==> src.structure.focused_tab != Some((#[trigger] drawn[i]).tab_id@))
        ==> m.active_tab == 0
    &&& run.len() > 0
    &&& is_directory(m.identity_cwd, src.structure.panes, run[0], src.here)
    &&& m.public_pane_numbers.len() == tab_panes(m.tabs).len()
    &&& forall|i: int|
        0 <= i < m.public_pane_numbers.len() ==> (#[trigger] m.public_pane_numbers[i]).0
            == tab_panes(m.tabs)[i].0 && m.public_pane_numbers[i].1 == (1 + i) as usize
    &&& m.next_pane_number == 1 + tab_panes(m.tabs).len()
    &&& m.next_tab_number == 1 + mine.len()
}

proof fn drawn_tabs_have_leaves(src: Source, tabs: Seq<TabInfo>)
    ensures
        tabs.filter(has_layout(src)).len() > 0 ==> tabs_run(src, tabs).len() > 0,
    decreases tabs.len(),
{
    reveal(Seq::filter);
    if tabs.len() > 0 {
        drawn_tabs_have_leaves(src, tabs.drop_last());
        if src.exports.dom().contains(tabs.last().tab_id@) {
            projection::layouts_have_leaves(src.exports[tabs.last().tab_id@].root);
        }
    }
}

/// A workspace is shown exactly where it has a tab to draw, and then as it is.
pub proof fn workspaces_show_their_tabs(w: WalkModel, src: Source, info: WorkspaceInfo)
    ensures
        ({
            let shown = projection::workspace_projected(w, src, info).1;
            let mine = projection::tabs_of(src.structure.tabs, info.workspace_id@);
            &&& shown is Some <==> mine.filter(has_layout(src)).len() > 0
            &&& shown is Some ==> workspace_shows(shown->0, src, info)
        }),
{
    let shown = projection::workspace_projected(w, src, info).1;
    let mine = projection::tabs_of(src.structure.tabs, info.workspace_id@);
    let drawn = mine.filter(has_layout(src));
    let start = w.at_workspace();
    let run = tabs_run(src, mine);
    let panes = src.structure.panes;
    tabs_with_a_layout_are_drawn(src, mine);
    drawn_tabs_are_shown(start, src, mine);
    drawn_tabs_have_leaves(src, mine);
    if shown is Some {
        let m = shown->0;
        let zero = start.outside_tabs();
        let end = zero.visit_all(panes, src.here, run);
        tabs_are_visited(start, zero, src, mine);
        assert(zero.panes + tab_panes(m.tabs) =~= tab_panes(m.tabs));
        projection::visiting_counts(zero, panes, src.here, run);
        assert forall|i: int| 0 <= i < m.public_pane_numbers.len() implies (
        #[trigger] m.public_pane_numbers[i]).0 == tab_panes(m.tabs)[i].0
            && m.public_pane_numbers[i].1 == (1 + i) as usize by {
            assert(end.numbers[zero.numbers.len() + i] == m.public_pane_numbers[i]);
            assert(end.panes[zero.panes.len() + i] == tab_panes(m.tabs)[i]);
        }
        let focused = src.structure.focused_tab;
        assert forall|i: int| #[trigger] is_first_tab(drawn, focused, i) implies m.active_tab
            == i by {
            assert(projection::focused_tab_at(drawn, focused, i));
            let k = choose|k: int| projection::focused_tab_at(drawn, focused, k);
            if k < i {
                assert(focused != Some(drawn[k].tab_id@));
            } else if i < k {
                assert(focused != Some(drawn[i].tab_id@));
            }
        }
        assert((forall|i: int|
            0 <= i < drawn.len() ==> focused != Some((#[trigger] drawn[i]).tab_id@))
            ==> m.active_tab == 0);
    }
}

/// The workspace has a tab to draw.
pub open spec fn has_drawn_tab(src: Source) -> spec_fn(WorkspaceInfo) -> bool {
    |info: WorkspaceInfo|
        projection::tabs_of(src.structure.tabs, info.workspace_id@).filter(has_layout(src)).len()
            > 0
}

/// The projected workspaces show the given ones, one for one.
pub open spec fn workspaces_show(
    shown: Seq<WorkspaceModel>,
    src: Source,
    infos: Seq<WorkspaceInfo>,
) -> bool {
    &&& shown.len() == infos.len()
    &&& forall|i: int|
        0 <= i < infos.len() ==> workspace_shows(#[trigger] shown[i], src, infos[i])
}

proof fn runs_show_their_workspaces(w: WalkModel, src: Source, infos: Seq<WorkspaceInfo>)
    ensures
        workspaces_show(
            projection::workspaces_projected(w, src, infos).1,
            src,
            infos.filter(has_drawn_tab(src)),
        ),
    decreases infos.len(),
{
    reveal(Seq::filter);
    if infos.len() > 0 {
        let head = infos.drop_last();
        runs_show_their_workspaces(w, src, head);
        let (u, before) = projection::workspaces_projected(w, src, head);
        let shown = projection::workspaces_projected(w, src, infos).1;
        workspaces_show_their_tabs(u, src, infos.last());
        let earlier = head.filter(has_drawn_tab(src));
        let listed = infos.filter(has_drawn_tab(src));
        if has_drawn_tab(src)(infos.last()) {
            assert(listed =~= earlier.push(infos.last()));
            assert forall|i: int| 0 <= i < listed.len() implies workspace_shows(
                #[trigger] shown[i],
                src,
                listed[i],
            ) by {
                if i < before.len() {
                    assert(shown[i] == before[i]);
                    assert(listed[i] == earlier[i]);
                }
            }
        }
    }
}

/// `i` is the first of the workspaces with the id.
pub open spec fn is_first_workspace(
    shown: Seq<WorkspaceModel>,
    id: Option<Seq<char>>,
    i: int,
) -> bool {
    &&& 0 <= i < shown.len()
    &&& id == Some(shown[i].id)
    &&& forall|j: int| 0 <= j < i ==> id != Some((#[trigger] shown[j]).id)
}

/// A view shows the workspaces that have a tab to draw, in the server's order. The first
/// that has the focus is active, else the first; the selection is on it. An overlay stays
/// open where it is to be preserved; else keys go to the pane where there is one.
pub proof fn views_show_their_workspaces(
    src: Source,
    ids: IdSource,
    mode: Mode,
    preserve_overlay: bool,
    i: int,
)
    ensures
        ({
            let app = projection::projected(src, ids, mode, preserve_overlay);
            let focused = src.structure.focused_workspace;
            &&& workspaces_show(
                app.workspaces,
                src,
                src.structure.workspaces.filter(has_drawn_tab(src)),
            )
            &&& is_first_workspace(app.workspaces, focused, i) ==> app.active == Some(i as nat)
            &&& app.workspaces.len() > 0 && (forall|j: int|
                0 <= j < app.workspaces.len() ==> focused != Some(
                    (#[trigger] app.workspaces[j]).id,
                )) ==> app.active == Some(0nat)
            &&& app.workspaces.len() == 0 ==> app.active is None
            &&& app.active is Some ==> app.selected == app.active->0
            &&& app.active is None ==> app.selected == 0
            &&& preserve_overlay && (mode == Mode::Overlay || mode == Mode::Prefix) ==> app.mode
                == mode
            &&& !(preserve_overlay && (mode == Mode::Overlay || mode == Mode::Prefix)) ==> (
            app.mode == if app.workspaces.len() > 0 {
                Mode::Terminal
            } else {
                Mode::Navigate
            })
        }),
{
    let app = projection::projected(src, ids, mode, preserve_overlay);
    let shown = app.workspaces;
    let focused = src.structure.focused_workspace;
    runs_show_their_workspaces(projection::walk_start(ids), src, src.structure.workspaces);
    if is_first_workspace(shown, focused, i) {
        assert(projection::focused_workspace_at(shown, focused, i));
        let k = choose|k: int| projection::focused_workspace_at(shown, focused, k);
        if k < i {
            assert(focused != Some(shown[k].id));
        } else if i < k {
            assert(focused != Some(shown[i].id));
        }
    }
    if exists|k: int| projection::focused_workspace_at(shown, focused, k) {
        let k = choose|k: int| projection::focused_workspace_at(shown, focused, k);
        assert(focused == Some(shown[k].id));
    }
}

proof fn tabs_leaves_are_the_run(src: Source, tabs: Seq<TabInfo>)
    ensures
        projection::tabs_leaves(src, tabs) == tabs_run(src, tabs).len(),
    decreases tabs.len(),
{
    if tabs.len() > 0 {
        tabs_leaves_are_the_run(src, tabs.drop_last());
    }
}

proof fn workspaces_leaves_are_the_run(src: Source, infos: Seq<WorkspaceInfo>)
    ensures
        projection::workspaces_leaves(src, infos) == view_run(src, infos).len(),
    decreases infos.len(),
{
    if infos.len() > 0 {
        workspaces_leaves_are_the_run(src, infos.drop_last());
        tabs_leaves_are_the_run(
            src,
            projection::tabs_of(src.structure.tabs, infos.last().workspace_id@),
        );
    }
}

/// A session can be projected exactly where there is an id and a number left for each of
/// its leaves, and a number for the next tab and the next pane.
pub proof fn sessions_fit_where_ids_are_left(src: Source, ids: IdSource)
    ensures
        ({
            let n = view_run(src, src.structure.workspaces).len();
            projection::fits(src, ids) <==> src.structure.tabs.len() < usize::MAX && ids.next_pane
                + n <= u32::MAX && ids.next_local + n <= u64::MAX && n < usize::MAX
        }),
{
    workspaces_leaves_are_the_run(src, src.structure.workspaces);
}

/// A layout is asked for each tab of each workspace, workspace by workspace, in the order
/// in which the tabs are drawn.
pub proof fn layouts_are_asked_for_in_order(s: replica::Structure, n: int, j: int)
    requires
        0 <= n < s.workspaces.len(),
    ensures
        ({
            let before = projection::layouts_wanted(s, n);
            let after = projection::layouts_wanted(s, n + 1);
            let tabs = projection::tabs_of(s.tabs, s.workspaces[n].workspace_id@);
            &&& projection::layouts_wanted(s, 0).len() == 0
            &&& after.len() == before.len() + tabs.len()
            &&& 0 <= j < before.len() ==> after[j] == before[j]
            &&& 0 <= j < tabs.len() ==> after[before.len() + j] == tabs[j].tab_id@
        }),
{
}

/// What a workspace shows of its worktree is what the server told.
pub proof fn worktrees_are_shown_as_told(info: WorkspaceInfo)
    ensures
        ({
            let shown = projection::space_of(info);
            &&& shown is Some <==> info.worktree is Some
            &&& shown matches Some(space) ==> {
                &&& space.key == info.worktree->0.repo_key
                &&& space.label == info.worktree->0.repo_name
                &&& space.repo_root == info.worktree->0.repo_root
                &&& space.checkout_path == info.worktree->0.checkout_path
                &&& space.is_linked_worktree == info.worktree->0.is_linked_worktree
            }
        }),
{
}

} // verus!
