//! Projection of a replica into what the renderer draws.
//!
//! The control plane names panes and exports a layout tree per tab. The
//! projection gives every leaf a local pane id, numbers the panes of a
//! workspace, and rebuilds the terminals that the panes show.
use crate::idmap::IdMap;
use crate::lists::taken;
use crate::replica;
use crate::replica::SessionReplica;
use crate::schema::{
    LayoutDescription, LayoutNode, LayoutPane, PaneInfo, SplitDirection, TabInfo, WorkspaceInfo,
};
use crate::terminal_state;
use crate::terminal_state::{project_pane_metadata, TerminalId, TerminalState};
use crate::text;
use crate::text::{holds_text, same_text};
use vstd::prelude::*;

verus! {

/// A pane of the local view.
#[derive(Clone, Copy, Debug, PartialEq, Eq, Structural)]
pub struct PaneId {
    pub raw: u32,
}

/// Which way a split is laid out.
#[derive(Clone, Copy, Debug, PartialEq, Eq, Structural)]
pub enum Direction {
    Horizontal,
    Vertical,
}

/// A tiling of local panes.
#[derive(Debug)]
pub enum Node {
    Pane(PaneId),
    Split { direction: Direction, ratio: u32, first: Box<Node>, second: Box<Node> },
}

/// A pane's terminal and whether it was seen since it last changed.
#[derive(Debug)]
pub struct PaneState {
    pub terminal_id: TerminalId,
    pub seen: bool,
}

/// A pane's state, as a mathematical value.
pub struct PaneModel {
    pub terminal: terminal_state::TerminalKey,
    pub seen: bool,
}

impl View for PaneState {
    type V = PaneModel;

    open spec fn view(&self) -> PaneModel {
        PaneModel { terminal: self.terminal_id@, seen: self.seen }
    }
}

/// The panes of a list.
pub open spec fn pane_models(panes: Seq<(PaneId, PaneState)>) -> Seq<(PaneId, PaneModel)> {
    panes.map_values(|p: (PaneId, PaneState)| (p.0, p.1@))
}

/// The leaves of a layout, in drawing order.
pub open spec fn leaves(node: LayoutNode) -> Seq<LayoutPane>
    decreases node,
{
    match node {
        LayoutNode::Pane { pane } => seq![pane],
        LayoutNode::Split { first, second, .. } => leaves(*first) + leaves(*second),
    }
}

/// The layout direction of a split.
pub open spec fn direction_of(d: SplitDirection) -> Direction {
    match d {
        SplitDirection::Right => Direction::Horizontal,
        SplitDirection::Down => Direction::Vertical,
    }
}

/// The tiling of a layout whose leaves get consecutive ids from `start` on.
pub open spec fn tiling(node: LayoutNode, start: nat) -> Node
    decreases node,
{
    match node {
        LayoutNode::Pane { .. } => Node::Pane(PaneId { raw: start as u32 }),
        LayoutNode::Split { direction, ratio, first, second } => Node::Split {
            direction: direction_of(direction),
            ratio,
            first: Box::new(tiling(*first, start)),
            second: Box::new(tiling(*second, start + leaves(*first).len())),
        },
    }
}

/// What the server says of a leaf.
pub open spec fn leaf_info(panes: Map<Seq<char>, PaneInfo>, leaf: LayoutPane) -> Option<PaneInfo> {
    match leaf.pane_id {
        Some(id) => if panes.dom().contains(id@) {
            Some(panes[id@])
        } else {
            None
        },
        None => None,
    }
}

/// The directory of a leaf: the pane's, else the layout's, else `here`.
pub open spec fn leaf_cwd(
    panes: Map<Seq<char>, PaneInfo>,
    leaf: LayoutPane,
    here: Seq<char>,
) -> Seq<char> {
    match leaf_info(panes, leaf) {
        Some(PaneInfo { cwd: Some(cwd), .. }) => cwd@,
        _ => match leaf.cwd {
            Some(cwd) => cwd@,
            None => here,
        },
    }
}

/// The progress of a projection.
#[verifier::ext_equal]
pub struct WalkModel {
    pub next_pane: nat,
    pub next_local: nat,
    /// The server's terminals that occur.
    pub terminal_ids: Set<Seq<char>>,
    pub named: Map<Seq<char>, terminal_state::TerminalModel>,
    pub local: Seq<terminal_state::TerminalModel>,
    /// The local pane of each public id.
    pub aliases: Map<Seq<char>, PaneId>,
    /// Of the workspace at hand.
    pub numbers: Seq<(PaneId, usize)>,
    pub next_number: nat,
    pub identity_cwd: Option<Seq<char>>,
    /// Of the tab at hand.
    pub panes: Seq<(PaneId, PaneModel)>,
    pub by_name: Map<Seq<char>, PaneId>,
    pub first_pane: Option<PaneId>,
}

impl WalkModel {
    /// After one leaf.
    pub open spec fn visit(
        self,
        panes: Map<Seq<char>, PaneInfo>,
        here: Seq<char>,
        leaf: LayoutPane,
    ) -> WalkModel {
        let pane = PaneId { raw: self.next_pane as u32 };
        let info = leaf_info(panes, leaf);
        let key = match info {
            Some(info) => terminal_state::TerminalKey::Named(info.terminal_id@),
            None => terminal_state::TerminalKey::Local(self.next_local as u64),
        };
        let cwd = leaf_cwd(panes, leaf, here);
        let bare = terminal_state::TerminalModel::bare(key, cwd);
        WalkModel {
            next_pane: self.next_pane + 1,
            next_local: if info is None {
                self.next_local + 1
            } else {
                self.next_local
            },
            terminal_ids: match info {
                Some(info) => self.terminal_ids.insert(info.terminal_id@),
                None => self.terminal_ids,
            },
            named: match info {
                Some(info) => self.named.insert(info.terminal_id@, bare.described(info)),
                None => self.named,
            },
            local: if info is None {
                self.local.push(bare)
            } else {
                self.local
            },
            aliases: match leaf.pane_id {
                Some(id) => self.aliases.insert(id@, pane),
                None => self.aliases,
            },
            numbers: self.numbers.push((pane, self.next_number as usize)),
            next_number: self.next_number + 1,
            identity_cwd: if self.identity_cwd is None {
                Some(cwd)
            } else {
                self.identity_cwd
            },
            panes: self.panes.push(
                (
                    pane,
                    PaneModel {
                        terminal: key,
                        seen: match info {
                            Some(info) => terminal_state::state_and_seen(info.agent_status).1,
                            None => true,
                        },
                    },
                ),
            ),
            by_name: match leaf.pane_id {
                Some(id) => self.by_name.insert(id@, pane),
                None => self.by_name,
            },
            first_pane: if self.first_pane is None {
                Some(pane)
            } else {
                self.first_pane
            },
        }
    }

    /// After a run of leaves.
    pub open spec fn visit_all(
        self,
        panes: Map<Seq<char>, PaneInfo>,
        here: Seq<char>,
        run: Seq<LayoutPane>,
    ) -> WalkModel
        decreases run.len(),
    {
        if run.len() == 0 {
            self
        } else {
            self.visit_all(panes, here, run.drop_last()).visit(panes, here, run.last())
        }
    }

    /// Between tabs.
    pub open spec fn outside_tabs(self) -> WalkModel {
        WalkModel { panes: Seq::empty(), by_name: Map::empty(), first_pane: None, ..self }
    }

    /// At the start of a workspace.
    pub open spec fn at_workspace(self) -> WalkModel {
        WalkModel { numbers: Seq::empty(), next_number: 1, identity_cwd: None, ..self }
    }

    /// There are ids and numbers left for `n` more leaves.
    pub open spec fn has_room(self, n: nat) -> bool {
        &&& self.next_pane + n <= u32::MAX
        &&& self.next_local + n <= u64::MAX
        &&& self.next_number + n <= usize::MAX
    }
}

/// Visiting two runs is visiting the one after the other.
pub proof fn visiting_splits(
    w: WalkModel,
    panes: Map<Seq<char>, PaneInfo>,
    here: Seq<char>,
    a: Seq<LayoutPane>,
    b: Seq<LayoutPane>,
)
    ensures
        w.visit_all(panes, here, a + b) == w.visit_all(panes, here, a).visit_all(panes, here, b),
    decreases b.len(),
{
    if b.len() == 0 {
        assert(a + b =~= a);
    } else {
        visiting_splits(w, panes, here, a, b.drop_last());
        assert((a + b).drop_last() =~= a + b.drop_last());
    }
}

/// Every leaf takes one pane id and one number, and at most one local terminal.
pub proof fn visiting_counts(
    w: WalkModel,
    panes: Map<Seq<char>, PaneInfo>,
    here: Seq<char>,
    run: Seq<LayoutPane>,
)
    ensures
        ({
            let v = w.visit_all(panes, here, run);
            &&& v.next_pane == w.next_pane + run.len()
            &&& v.next_number == w.next_number + run.len()
            &&& w.next_local <= v.next_local <= w.next_local + run.len()
            &&& v.panes.len() == w.panes.len() + run.len()
            &&& v.numbers.len() == w.numbers.len() + run.len()
            &&& forall|i: int|
                0 <= i < run.len() ==> (#[trigger] v.panes[w.panes.len() + i]).0 == (PaneId {
                    raw: (w.next_pane + i) as u32,
                })
            &&& forall|i: int|
                0 <= i < run.len() ==> #[trigger] v.numbers[w.numbers.len() + i] == (
                    PaneId { raw: (w.next_pane + i) as u32 },
                    (w.next_number + i) as usize,
                )
            &&& run.len() > 0 && w.first_pane is None ==> v.first_pane == Some(
                PaneId { raw: w.next_pane as u32 },
            )
            &&& run.len() > 0 && w.identity_cwd is None ==> v.identity_cwd == Some(
                leaf_cwd(panes, run[0], here),
            )
            &&& w.first_pane is Some ==> v.first_pane == w.first_pane
            &&& w.identity_cwd is Some ==> v.identity_cwd == w.identity_cwd
        }),
    decreases run.len(),
{
    if run.len() > 0 {
        let head = run.drop_last();
        visiting_counts(w, panes, here, head);
        let u = w.visit_all(panes, here, head);
        let v = w.visit_all(panes, here, run);
        assert forall|i: int| 0 <= i < run.len() implies (#[trigger] v.panes[w.panes.len() + i]).0
            == (PaneId { raw: (w.next_pane + i) as u32 }) by {
            if i < head.len() {
                assert(v.panes[w.panes.len() + i] == u.panes[w.panes.len() + i]);
            }
        }
        assert forall|i: int| 0 <= i < run.len() implies #[trigger] v.numbers[w.numbers.len() + i]
            == (
            PaneId { raw: (w.next_pane + i) as u32 },
            (w.next_number + i) as usize,
        ) by {
            if i < head.len() {
                assert(v.numbers[w.numbers.len() + i] == u.numbers[w.numbers.len() + i]);
            }
        }
        if run.len() == 1 {
            assert(u == w);
        } else {
            assert(head[0] == run[0]);
        }
    }
}

/// A layout has a leaf.
pub proof fn layouts_have_leaves(node: LayoutNode)
    ensures
        leaves(node).len() >= 1,
    decreases node,
{
    match node {
        LayoutNode::Pane { .. } => {},
        LayoutNode::Split { first, .. } => {
            layouts_have_leaves(*first);
        },
    }
}

/// The working state of a projection.
#[derive(Debug)]
struct Walk {
    next_pane: u32,
    next_local: u64,
    terminal_ids: IdMap<TerminalId>,
    named: IdMap<TerminalState>,
    local: Vec<TerminalState>,
    aliases: IdMap<PaneId>,
    numbers: Vec<(PaneId, usize)>,
    next_number: usize,
    identity_cwd: Option<String>,
    panes: Vec<(PaneId, PaneState)>,
    by_name: IdMap<PaneId>,
    first_pane: Option<PaneId>,
}

impl View for Walk {
    type V = WalkModel;

    closed spec fn view(&self) -> WalkModel {
        WalkModel {
            next_pane: self.next_pane as nat,
            next_local: self.next_local as nat,
            terminal_ids: self.terminal_ids@.dom(),
            named: self.named@.map_values(|t: TerminalState| t@),
            local: self.local@.map_values(|t: TerminalState| t@),
            aliases: self.aliases@,
            numbers: self.numbers@,
            next_number: self.next_number as nat,
            identity_cwd: text::opt_text(self.identity_cwd),
            panes: pane_models(self.panes@),
            by_name: self.by_name@,
            first_pane: self.first_pane,
        }
    }
}

impl Walk {
    /// The maps are in order, and each server terminal stands under its own id.
    spec fn wf(&self) -> bool {
        &&& self.terminal_ids.wf()
        &&& self.named.wf()
        &&& self.aliases.wf()
        &&& self.by_name.wf()
        &&& forall|k: Seq<char>| #[trigger]
            self.terminal_ids@.dom().contains(k) ==> self.terminal_ids@[k]@
                == terminal_state::TerminalKey::Named(k)
    }

    /// Gives a leaf its pane and rebuilds its terminal.
    fn visit(&mut self, pane: &LayoutPane, replica: &SessionReplica, here: &str) -> (r: PaneId)
        requires
            old(self).wf(),
            replica.wf(),
            old(self)@.has_room(1),
        ensures
            final(self).wf(),
            final(self)@ == old(self)@.visit(replica@.panes, here@, *pane),
            r == (PaneId { raw: old(self)@.next_pane as u32 }),
    {
        let ghost before = *self;
        let ghost want = before@.visit(replica@.panes, here@, *pane);
        let pane_id = PaneId { raw: self.next_pane };
        self.next_pane = self.next_pane + 1;
        if self.first_pane.is_none() {
            self.first_pane = Some(pane_id);
        }
        let info = match &pane.pane_id {
            Some(id) => replica.pane(id.as_str()),
            None => None,
        };
        let terminal_id = match info {
            Some(info) => {
                if !self.terminal_ids.contains_key(info.terminal_id.as_str()) {
                    self.terminal_ids.insert(
                        info.terminal_id.clone(),
                        TerminalId::Named(info.terminal_id.clone()),
                    );
                }
                TerminalId::Named(info.terminal_id.clone())
            },
            None => {
                let n: u64 = self.next_local;
                self.next_local = self.next_local + 1;
                TerminalId::Local(n)
            },
        };
        assert(self.terminal_ids@.dom() =~= want.terminal_ids);
        let cwd = match info {
            Some(PaneInfo { cwd: Some(cwd), .. }) => cwd.clone(),
            _ => match &pane.cwd {
                Some(cwd) => cwd.clone(),
                None => here.to_owned(),
            },
        };
        if self.identity_cwd.is_none() {
            self.identity_cwd = Some(cwd.clone());
        }
        let shown = terminal_id.copied();
        let mut terminal = TerminalState::new(terminal_id, cwd);
        let seen = match info {
            Some(info) => {
                let seen = project_pane_metadata(&mut terminal, info);
                let ghost model = terminal@;
                self.named.insert(info.terminal_id.clone(), terminal);
                assert(self.named@.map_values(|t: TerminalState| t@) =~= before@.named.insert(
                    info.terminal_id@,
                    model,
                ));
                seen
            },
            None => {
                let ghost model = terminal@;
                self.local.push(terminal);
                assert(self.local@.map_values(|t: TerminalState| t@) =~= before@.local.push(model));
                true
            },
        };
        self.panes.push((pane_id, PaneState { terminal_id: shown, seen }));
        assert(pane_models(self.panes@) =~= want.panes);
        if let Some(public_id) = &pane.pane_id {
            self.by_name.insert(public_id.clone(), pane_id);
            self.aliases.insert(public_id.clone(), pane_id);
        }
        self.numbers.push((pane_id, self.next_number));
        self.next_number = self.next_number + 1;
        assert(self@ =~= want);
        pane_id
    }
}

/// Converts a layout tree into a tiling, visiting its leaves in drawing order.
fn convert_layout_node(
    node: &LayoutNode,
    replica: &SessionReplica,
    here: &str,
    walk: &mut Walk,
) -> (r: Node)
    requires
        old(walk).wf(),
        replica.wf(),
        old(walk)@.has_room(leaves(*node).len()),
    ensures
        final(walk).wf(),
        final(walk)@ == old(walk)@.visit_all(replica@.panes, here@, leaves(*node)),
        r == tiling(*node, old(walk)@.next_pane),
    decreases *node,
{
    match node {
        LayoutNode::Pane { pane } => {
            let ghost before = walk@;
            let id = walk.visit(pane, replica, here);
            assert(leaves(*node).drop_last() =~= Seq::empty());
            assert(before.visit_all(replica@.panes, here@, leaves(*node).drop_last()) == before);
            Node::Pane(id)
        },
        LayoutNode::Split { direction, ratio, first, second } => {
            let ghost before = walk@;
            proof {
                visiting_counts(before, replica@.panes, here@, leaves(**first));
                visiting_splits(
                    before,
                    replica@.panes,
                    here@,
                    leaves(**first),
                    leaves(**second),
                );
            }
            let direction = match direction {
                SplitDirection::Right => Direction::Horizontal,
                SplitDirection::Down => Direction::Vertical,
            };
            let left = convert_layout_node(first, replica, here, walk);
            let right = convert_layout_node(second, replica, here, walk);
            Node::Split {
                direction,
                ratio: *ratio,
                first: Box::new(left),
                second: Box::new(right),
            }
        },
    }
}

/// A projected tab.
#[derive(Debug)]
pub struct ProjectedTab {
    pub label: String,
    pub number: usize,
    pub root_pane: PaneId,
    pub layout: Node,
    pub focus: PaneId,
    pub panes: Vec<(PaneId, PaneState)>,
    pub zoomed: bool,
}

/// A projected tab, as a mathematical value.
#[verifier::ext_equal]
pub struct TabModel {
    pub label: Seq<char>,
    pub number: usize,
    pub root_pane: PaneId,
    pub layout: Node,
    pub focus: PaneId,
    pub panes: Seq<(PaneId, PaneModel)>,
    pub zoomed: bool,
}

impl View for ProjectedTab {
    type V = TabModel;

    open spec fn view(&self) -> TabModel {
        TabModel {
            label: self.label@,
            number: self.number,
            root_pane: self.root_pane,
            layout: self.layout,
            focus: self.focus,
            panes: pane_models(self.panes@),
            zoomed: self.zoomed,
        }
    }
}

/// What a projection reads: the panes, the exported layouts, and the directory
/// for panes without one.
#[verifier::ext_equal]
pub struct Source {
    pub structure: replica::Structure,
    pub exports: Map<Seq<char>, LayoutDescription>,
    pub here: Seq<char>,
}

/// The progress and the tab after projecting a tab by its layout.
pub open spec fn tab_projected(
    w: WalkModel,
    src: Source,
    tab: TabInfo,
    layout: LayoutDescription,
) -> (WalkModel, TabModel) {
    let end = w.outside_tabs().visit_all(src.structure.panes, src.here, leaves(layout.root));
    let root = end.first_pane->0;
    (
        end.outside_tabs(),
        TabModel {
            label: tab.label@,
            number: tab.number,
            root_pane: root,
            layout: tiling(layout.root, w.next_pane),
            focus: if end.by_name.dom().contains(layout.focused_pane_id@) {
                end.by_name[layout.focused_pane_id@]
            } else {
                root
            },
            panes: end.panes,
            zoomed: layout.zoomed,
        },
    )
}

/// The number of panes that a tab gets: none where its layout is missing.
pub open spec fn tab_leaves(src: Source, tab: TabInfo) -> nat {
    if src.exports.dom().contains(tab.tab_id@) {
        leaves(src.exports[tab.tab_id@].root).len()
    } else {
        0
    }
}

/// What a tab shows of itself.
fn project_tab_metadata(info: &TabInfo) -> (r: (String, usize))
    ensures
        r == (info.label, info.number),
{
    (info.label.clone(), info.number)
}

/// Projects a tab. `None` where its layout could not be had.
fn project_tab(
    tab: &TabInfo,
    replica: &SessionReplica,
    exports: &IdMap<LayoutDescription>,
    here: &str,
    walk: &mut Walk,
    Ghost(src): Ghost<Source>,
) -> (r: Option<ProjectedTab>)
    requires
        old(walk).wf(),
        replica.wf(),
        exports.wf(),
        src == (Source { structure: replica@, exports: exports@, here: here@ }),
        old(walk)@.has_room(tab_leaves(src, *tab)),
    ensures
        final(walk).wf(),
        match r {
            Some(t) => exports@.dom().contains(tab.tab_id@) && (final(walk)@, t@) == tab_projected(
                old(walk)@,
                src,
                *tab,
                exports@[tab.tab_id@],
            ),
            None => !exports@.dom().contains(tab.tab_id@) && final(walk)@ == old(walk)@,
        },
{
    let layout = match exports.get(tab.tab_id.as_str()) {
        Some(layout) => layout,
        None => {
            return None;
        },
    };
    let ghost before = walk@;
    walk.panes = Vec::new();
    walk.by_name = IdMap::new();
    walk.first_pane = None;
    assert(walk@ =~= before.outside_tabs()) by {
        assert(pane_models(walk.panes@) =~= Seq::empty());
    }
    let node = convert_layout_node(&layout.root, replica, here, walk);
    proof {
        layouts_have_leaves(layout.root);
        visiting_counts(before.outside_tabs(), replica@.panes, here@, leaves(layout.root));
    }
    let root_pane = match walk.first_pane {
        Some(id) => id,
        None => {
            return None;
        },
    };
    let focus = match walk.by_name.get(layout.focused_pane_id.as_str()) {
        Some(id) => *id,
        None => root_pane,
    };
    let ghost end = walk@;
    let panes = taken(&mut walk.panes);
    walk.by_name = IdMap::new();
    walk.first_pane = None;
    assert(walk@ =~= end.outside_tabs()) by {
        assert(pane_models(walk.panes@) =~= Seq::empty());
    }
    let (label, number) = project_tab_metadata(tab);
    Some(
        ProjectedTab {
            label,
            number,
            root_pane,
            layout: node,
            focus,
            panes,
            zoomed: layout.zoomed,
        },
    )
}

/// With a tab after all that do not have a greater number.
pub open spec fn placed(tabs: Seq<TabInfo>, tab: TabInfo) -> Seq<TabInfo>
    decreases tabs.len(),
{
    if tabs.len() == 0 || tabs.last().number <= tab.number {
        tabs.push(tab)
    } else {
        placed(tabs.drop_last(), tab).push(tabs.last())
    }
}

/// Tabs by ascending number; equal numbers keep their order.
pub open spec fn by_number(tabs: Seq<TabInfo>) -> Seq<TabInfo>
    decreases tabs.len(),
{
    if tabs.len() == 0 {
        tabs
    } else {
        placed(by_number(tabs.drop_last()), tabs.last())
    }
}

/// Whether a tab belongs to a workspace.
pub open spec fn belongs_to(workspace: Seq<char>) -> spec_fn(TabInfo) -> bool {
    |t: TabInfo| t.workspace_id@ == workspace
}

/// The tabs of a workspace by ascending number.
pub open spec fn tabs_of(tabs: Seq<TabInfo>, workspace: Seq<char>) -> Seq<TabInfo> {
    by_number(tabs.filter(belongs_to(workspace)))
}

proof fn placed_is_insertion(tabs: Seq<TabInfo>, tab: TabInfo, j: int)
    requires
        0 <= j <= tabs.len(),
        j > 0 ==> tabs[j - 1].number <= tab.number,
        forall|x: int| j <= x < tabs.len() ==> (#[trigger] tabs[x]).number > tab.number,
    ensures
        placed(tabs, tab) == tabs.insert(j, tab),
    decreases tabs.len(),
{
    if j == tabs.len() {
        assert(tabs.insert(j, tab) =~= tabs.push(tab));
    } else {
        let head = tabs.drop_last();
        assert(tabs[tabs.len() - 1].number > tab.number);
        assert forall|x: int| j <= x < head.len() implies (#[trigger] head[x]).number
            > tab.number by {
            assert(tabs[x] == head[x]);
        }
        placed_is_insertion(head, tab, j);
        assert(tabs.insert(j, tab) =~= head.insert(j, tab).push(tabs.last()));
    }
}

/// Lists the tabs of a workspace by ascending number.
fn workspace_tabs<'a>(tabs: &'a Vec<TabInfo>, workspace_id: &str) -> (r: Vec<&'a TabInfo>)
    ensures
        r@.unref() == tabs_of(tabs@, workspace_id@),
{
    let ghost mine = belongs_to(workspace_id@);
    let mut r: Vec<&TabInfo> = Vec::new();
    let mut i: usize = 0;
    proof {
        reveal(Seq::filter);
        assert(r@.unref() =~= by_number(tabs@.take(0).filter(mine)));
    }
    while i < tabs.len()
        invariant
            i <= tabs@.len(),
            mine == belongs_to(workspace_id@),
            r@.unref() == by_number(tabs@.take(i as int).filter(mine)),
        decreases tabs@.len() - i,
    {
        let tab = &tabs[i];
        let ghost sofar = tabs@.take(i as int).filter(mine);
        proof {
            reveal(Seq::filter);
            assert(tabs@.take(i + 1).drop_last() =~= tabs@.take(i as int));
        }
        if same_text(tab.workspace_id.as_str(), workspace_id) {
            let ghost shown = r@;
            let mut j: usize = r.len();
            while j > 0 && r[j - 1].number > tab.number
                invariant
                    j <= r@.len(),
                    r@ == shown,
                    forall|x: int|
                        j <= x < shown.len() ==> (#[trigger] shown.unref()[x]).number > tab.number,
                decreases j,
            {
                assert(shown.unref()[j - 1] == *shown[j - 1]);
                j = j - 1;
            }
            proof {
                if j > 0 {
                    assert(shown.unref()[j - 1] == *shown[j - 1]);
                }
                placed_is_insertion(shown.unref(), *tab, j as int);
            }
            r.insert(j, tab);
            proof {
                assert(r@.unref() =~= shown.unref().insert(j as int, *tab));
                assert(sofar.push(*tab).drop_last() =~= sofar);
            }
        }
        i = i + 1;
    }
    assert(tabs@.take(tabs@.len() as int) =~= tabs@);
    r
}

/// A worktree space that a workspace belongs to.
#[derive(Debug)]
pub struct WorktreeSpaceMembership {
    pub key: String,
    pub label: String,
    pub repo_root: String,
    pub checkout_path: String,
    pub is_linked_worktree: bool,
}

/// What a workspace shows of itself.
#[derive(Debug)]
pub struct ProjectedWorkspace {
    pub branch: Option<String>,
    pub worktree_space: Option<WorktreeSpaceMembership>,
}

/// The worktree space of a workspace.
pub open spec fn space_of(info: WorkspaceInfo) -> Option<WorktreeSpaceMembership> {
    match info.worktree {
        Some(w) => Some(
            WorktreeSpaceMembership {
                key: w.repo_key,
                label: w.repo_name,
                repo_root: w.repo_root,
                checkout_path: w.checkout_path,
                is_linked_worktree: w.is_linked_worktree,
            },
        ),
        None => None,
    }
}

/// Projects what a workspace shows of itself.
pub fn project_workspace_metadata(info: &WorkspaceInfo) -> (r: ProjectedWorkspace)
    ensures
        r.branch == info.branch,
        r.worktree_space == space_of(*info),
{
    let worktree_space = match &info.worktree {
        Some(worktree) => Some(
            WorktreeSpaceMembership {
                key: worktree.repo_key.clone(),
                label: worktree.repo_name.clone(),
                repo_root: worktree.repo_root.clone(),
                checkout_path: worktree.checkout_path.clone(),
                is_linked_worktree: worktree.is_linked_worktree,
            },
        ),
        None => None,
    };
    let branch = match &info.branch {
        Some(branch) => Some(branch.clone()),
        None => None,
    };
    ProjectedWorkspace { branch, worktree_space }
}

/// A projected workspace.
#[derive(Debug)]
pub struct WorkspaceView {
    pub id: String,
    pub label: String,
    pub identity_cwd: String,
    pub branch: Option<String>,
    pub tabs: Vec<ProjectedTab>,
    pub active_tab: usize,
    pub public_pane_numbers: Vec<(PaneId, usize)>,
    pub next_pane_number: usize,
    pub next_tab_number: usize,
    pub worktree_space: Option<WorktreeSpaceMembership>,
}

/// The tabs of a list.
pub open spec fn tab_models(tabs: Seq<ProjectedTab>) -> Seq<TabModel> {
    tabs.map_values(|t: ProjectedTab| t@)
}

/// A projected workspace, as a mathematical value.
#[verifier::ext_equal]
pub struct WorkspaceModel {
    pub id: Seq<char>,
    pub label: Seq<char>,
    pub identity_cwd: Seq<char>,
    pub branch: Option<String>,
    pub tabs: Seq<TabModel>,
    pub active_tab: nat,
    pub public_pane_numbers: Seq<(PaneId, usize)>,
    pub next_pane_number: nat,
    pub next_tab_number: nat,
    pub worktree_space: Option<WorktreeSpaceMembership>,
}

impl View for WorkspaceView {
    type V = WorkspaceModel;

    open spec fn view(&self) -> WorkspaceModel {
        WorkspaceModel {
            id: self.id@,
            label: self.label@,
            identity_cwd: self.identity_cwd@,
            branch: self.branch,
            tabs: tab_models(self.tabs@),
            active_tab: self.active_tab as nat,
            public_pane_numbers: self.public_pane_numbers@,
            next_pane_number: self.next_pane_number as nat,
            next_tab_number: self.next_tab_number as nat,
            worktree_space: self.worktree_space,
        }
    }
}

/// The progress and the tabs after projecting a run of tabs. A tab without a
/// layout is left out.
pub open spec fn tabs_projected(
    w: WalkModel,
    src: Source,
    tabs: Seq<TabInfo>,
) -> (WalkModel, Seq<TabModel>)
    decreases tabs.len(),
{
    if tabs.len() == 0 {
        (w, Seq::empty())
    } else {
        let (u, shown) = tabs_projected(w, src, tabs.drop_last());
        let tab = tabs.last();
        if src.exports.dom().contains(tab.tab_id@) {
            let (v, t) = tab_projected(u, src, tab, src.exports[tab.tab_id@]);
            (v, shown.push(t))
        } else {
            (u, shown)
        }
    }
}

/// The number of panes of a run of tabs.
pub open spec fn tabs_leaves(src: Source, tabs: Seq<TabInfo>) -> nat
    decreases tabs.len(),
{
    if tabs.len() == 0 {
        0
    } else {
        tabs_leaves(src, tabs.drop_last()) + tab_leaves(src, tabs.last())
    }
}

/// The tabs of a run that have a layout to show.
pub open spec fn shown_tabs(src: Source, tabs: Seq<TabInfo>) -> Seq<TabInfo> {
    tabs.filter(|t: TabInfo| src.exports.dom().contains(t.tab_id@))
}

/// `i` is the first of the tabs that has the focus.
pub open spec fn focused_tab_at(tabs: Seq<TabInfo>, focused: Option<Seq<char>>, i: int) -> bool {
    &&& 0 <= i < tabs.len()
    &&& focused == Some(tabs[i].tab_id@)
    &&& forall|j: int| 0 <= j < i ==> focused != Some((#[trigger] tabs[j]).tab_id@)
}

/// The place of the focused tab among the tabs that a workspace shows; else the
/// first.
pub open spec fn active_tab(tabs: Seq<TabInfo>, focused: Option<Seq<char>>) -> nat {
    if exists|i: int| focused_tab_at(tabs, focused, i) {
        (choose|i: int| focused_tab_at(tabs, focused, i)) as nat
    } else {
        0
    }
}

/// The progress and the workspace after projecting a workspace. One without a
/// tab to show is left out.
pub open spec fn workspace_projected(
    w: WalkModel,
    src: Source,
    info: WorkspaceInfo,
) -> (WalkModel, Option<WorkspaceModel>) {
    let tabs = tabs_of(src.structure.tabs, info.workspace_id@);
    let (end, shown) = tabs_projected(w.at_workspace(), src, tabs);
    if shown.len() == 0 {
        (end.at_workspace(), None)
    } else {
        (
            end.at_workspace(),
            Some(
                WorkspaceModel {
                    id: info.workspace_id@,
                    label: info.label@,
                    identity_cwd: match end.identity_cwd {
                        Some(cwd) => cwd,
                        None => src.here,
                    },
                    branch: info.branch,
                    tabs: shown,
                    active_tab: active_tab(shown_tabs(src, tabs), src.structure.focused_tab),
                    public_pane_numbers: end.numbers,
                    next_pane_number: end.next_number,
                    next_tab_number: tabs.len() + 1,
                    worktree_space: space_of(info),
                },
            ),
        )
    }
}

fn active_tab_position(tabs: &Vec<&TabInfo>, focused: &Option<String>) -> (r: usize)
    ensures
        r == active_tab(tabs@.unref(), text::opt_text(*focused)),
{
    let ghost all = tabs@.unref();
    let ghost at = text::opt_text(*focused);
    let mut i: usize = 0;
    while i < tabs.len()
        invariant
            i <= tabs@.len(),
            all == tabs@.unref(),
            at == text::opt_text(*focused),
            forall|j: int| 0 <= j < i ==> at != Some((#[trigger] all[j]).tab_id@),
        decreases tabs@.len() - i,
    {
        assert(all[i as int] == *tabs@[i as int]);
        if holds_text(focused, tabs[i].tab_id.as_str()) {
            assert(focused_tab_at(all, at, i as int));
            return i;
        }
        i = i + 1;
    }
    0
}

/// A run of tabs takes as many ids and numbers as its layouts have leaves.
proof fn runs_of_tabs_count(w: WalkModel, src: Source, tabs: Seq<TabInfo>)
    ensures
        ({
            let v = tabs_projected(w, src, tabs).0;
            &&& v.next_pane == w.next_pane + tabs_leaves(src, tabs)
            &&& v.next_number == w.next_number + tabs_leaves(src, tabs)
            &&& w.next_local <= v.next_local <= w.next_local + tabs_leaves(src, tabs)
        }),
    decreases tabs.len(),
{
    if tabs.len() > 0 {
        runs_of_tabs_count(w, src, tabs.drop_last());
        let u = tabs_projected(w, src, tabs.drop_last()).0;
        let tab = tabs.last();
        if src.exports.dom().contains(tab.tab_id@) {
            visiting_counts(
                u.outside_tabs(),
                src.structure.panes,
                src.here,
                leaves(src.exports[tab.tab_id@].root),
            );
        }
    }
}

/// A part of a run has no more leaves than the run.
proof fn part_has_no_more_leaves(src: Source, tabs: Seq<TabInfo>, k: int)
    requires
        0 <= k <= tabs.len(),
    ensures
        tabs_leaves(src, tabs.take(k)) <= tabs_leaves(src, tabs),
    decreases tabs.len() - k,
{
    if k < tabs.len() {
        part_has_no_more_leaves(src, tabs, k + 1);
        assert(tabs.take(k + 1).drop_last() =~= tabs.take(k));
    } else {
        assert(tabs.take(k) =~= tabs);
    }
}

/// Projects a workspace. `None` where it has no tab to show.
fn project_workspace(
    info: &WorkspaceInfo,
    replica: &SessionReplica,
    exports: &IdMap<LayoutDescription>,
    here: &str,
    walk: &mut Walk,
    Ghost(src): Ghost<Source>,
) -> (r: Option<WorkspaceView>)
    requires
        old(walk).wf(),
        replica.wf(),
        exports.wf(),
        src == (Source { structure: replica@, exports: exports@, here: here@ }),
        replica@.tabs.len() < usize::MAX,
        old(walk)@.at_workspace().has_room(
            tabs_leaves(src, tabs_of(replica@.tabs, info.workspace_id@)),
        ),
    ensures
        final(walk).wf(),
        ({
            let (end, shown) = workspace_projected(old(walk)@, src, *info);
            &&& final(walk)@ == end
            &&& match r {
                Some(w) => shown == Some(w@),
                None => shown is None,
            }
        }),
{
    let tabs = workspace_tabs(&replica.tabs, info.workspace_id.as_str());
    let ghost all = tabs@.unref();
    let ghost before = walk@;
    walk.numbers = Vec::new();
    walk.next_number = 1;
    walk.identity_cwd = None;
    assert(walk@ =~= before.at_workspace());
    let mut shown: Vec<ProjectedTab> = Vec::new();
    assert(tab_models(shown@) =~= Seq::empty());
    let mut drawn: Vec<&TabInfo> = Vec::new();
    proof {
        reveal(Seq::filter);
        assert(drawn@.unref() =~= shown_tabs(src, all.take(0)));
    }
    let mut i: usize = 0;
    while i < tabs.len()
        invariant
            i <= tabs@.len(),
            all == tabs@.unref(),
            walk.wf(),
            replica.wf(),
            exports.wf(),
            src == (Source { structure: replica@, exports: exports@, here: here@ }),
            before.at_workspace().has_room(tabs_leaves(src, all)),
            (walk@, tab_models(shown@)) == tabs_projected(
                before.at_workspace(),
                src,
                all.take(i as int),
            ),
            drawn@.unref() == shown_tabs(src, all.take(i as int)),
        decreases tabs@.len() - i,
    {
        let ghost part = all.take(i + 1);
        proof {
            reveal(Seq::filter);
            assert(part.drop_last() =~= all.take(i as int));
            assert(part.last() == *tabs@[i as int]);
            runs_of_tabs_count(before.at_workspace(), src, all.take(i as int));
            part_has_no_more_leaves(src, all, i + 1);
        }
        let ghost shown_before = shown@;
        match project_tab(tabs[i], replica, exports, here, walk, Ghost(src)) {
            Some(tab) => {
                let ghost drawn_before = drawn@;
                shown.push(tab);
                drawn.push(tabs[i]);
                assert(drawn@.unref() =~= drawn_before.unref().push(*tabs@[i as int]));
                assert(tab_models(shown@) =~= tab_models(shown_before).push(tab@));
            },
            None => {},
        }
        i = i + 1;
    }
    assert(all.take(all.len() as int) =~= all);
    let ghost end = walk@;
    let identity_cwd = match &walk.identity_cwd {
        Some(cwd) => cwd.clone(),
        None => here.to_owned(),
    };
    let numbers = taken(&mut walk.numbers);
    let next_number: usize = walk.next_number;
    walk.next_number = 1;
    walk.identity_cwd = None;
    assert(walk@ =~= end.at_workspace());
    if shown.len() == 0 {
        return None;
    }
    proof {
        sorting_keeps_length(replica@.tabs, info.workspace_id@);
    }
    let active = active_tab_position(&drawn, &replica.focused_tab_id);
    let projected = project_workspace_metadata(info);
    let view = WorkspaceView {
        id: info.workspace_id.clone(),
        label: info.label.clone(),
        identity_cwd,
        branch: projected.branch,
        tabs: shown,
        active_tab: active,
        public_pane_numbers: numbers,
        next_pane_number: next_number,
        next_tab_number: tabs.len() + 1,
        worktree_space: projected.worktree_space,
    };
    Some(view)
}

/// Ordering tabs keeps their number.
proof fn sorting_keeps_length(tabs: Seq<TabInfo>, workspace: Seq<char>)
    ensures
        tabs_of(tabs, workspace).len() <= tabs.len(),
{
    tabs.lemma_filter_len(belongs_to(workspace));
    by_number_keeps_length(tabs.filter(belongs_to(workspace)));
}

proof fn by_number_keeps_length(tabs: Seq<TabInfo>)
    ensures
        by_number(tabs).len() == tabs.len(),
    decreases tabs.len(),
{
    if tabs.len() > 0 {
        by_number_keeps_length(tabs.drop_last());
        placing_adds_one(by_number(tabs.drop_last()), tabs.last());
    }
}

proof fn placing_adds_one(tabs: Seq<TabInfo>, tab: TabInfo)
    ensures
        placed(tabs, tab).len() == tabs.len() + 1,
    decreases tabs.len(),
{
    if tabs.len() > 0 && tabs.last().number > tab.number {
        placing_adds_one(tabs.drop_last(), tab);
    }
}

/// The interaction mode of the view.
#[derive(Clone, Copy, Debug, PartialEq, Eq, Structural)]
pub enum Mode {
    /// Keys go to the focused pane.
    Terminal,
    /// No pane to type into.
    Navigate,
    /// The next key is a command.
    Prefix,
    /// Copy mode, a modal, a menu or another overlay.
    Overlay,
}

/// Where new local ids come from.
#[derive(Clone, Copy, Debug, PartialEq, Eq, Structural)]
pub struct IdSource {
    pub next_pane: u32,
    pub next_local: u64,
}

/// The structure that the renderer draws.
#[derive(Debug)]
pub struct AppState {
    pub workspaces: Vec<WorkspaceView>,
    pub terminals: IdMap<TerminalState>,
    pub local_terminals: Vec<TerminalState>,
    pub public_pane_id_aliases: IdMap<PaneId>,
    /// Former local ids of panes, each with the id that it now stands for.
    pub pane_id_aliases: Vec<(PaneId, PaneId)>,
    pub active: Option<usize>,
    pub selected: usize,
    pub mode: Mode,
}

/// The structure that the renderer draws, as a mathematical value.
#[verifier::ext_equal]
pub struct AppModel {
    pub workspaces: Seq<WorkspaceModel>,
    pub terminals: Map<Seq<char>, terminal_state::TerminalModel>,
    pub local_terminals: Seq<terminal_state::TerminalModel>,
    pub aliases: Map<Seq<char>, PaneId>,
    pub former_ids: Seq<(PaneId, PaneId)>,
    pub active: Option<nat>,
    pub selected: nat,
    pub mode: Mode,
}

/// The workspaces of a list.
pub open spec fn workspace_models(list: Seq<WorkspaceView>) -> Seq<WorkspaceModel> {
    list.map_values(|w: WorkspaceView| w@)
}

impl View for AppState {
    type V = AppModel;

    open spec fn view(&self) -> AppModel {
        AppModel {
            workspaces: workspace_models(self.workspaces@),
            terminals: self.terminals@.map_values(|t: TerminalState| t@),
            local_terminals: self.local_terminals@.map_values(|t: TerminalState| t@),
            aliases: self.public_pane_id_aliases@,
            former_ids: self.pane_id_aliases@,
            active: match self.active {
                Some(i) => Some(i as nat),
                None => None,
            },
            selected: self.selected as nat,
            mode: self.mode,
        }
    }
}

impl AppState {
    /// The maps are in order.
    pub open spec fn wf(&self) -> bool {
        self.terminals.wf() && self.public_pane_id_aliases.wf()
    }

    /// A view without a session.
    pub fn empty(mode: Mode) -> (r: Self)
        ensures
            r.wf(),
            r@ == (AppModel {
                workspaces: Seq::empty(),
                terminals: Map::empty(),
                local_terminals: Seq::empty(),
                aliases: Map::empty(),
                former_ids: Seq::empty(),
                active: None,
                selected: 0,
                mode,
            }),
    {
        let r = AppState {
            workspaces: Vec::new(),
            terminals: IdMap::new(),
            local_terminals: Vec::new(),
            public_pane_id_aliases: IdMap::new(),
            pane_id_aliases: Vec::new(),
            active: None,
            selected: 0,
            mode,
        };
        assert(r@.workspaces =~= Seq::empty());
        assert(r@.terminals =~= Map::empty());
        assert(r@.local_terminals =~= Seq::empty());
        r
    }
}

/// The progress before the first leaf.
pub open spec fn walk_start(ids: IdSource) -> WalkModel {
    WalkModel {
        next_pane: ids.next_pane as nat,
        next_local: ids.next_local as nat,
        terminal_ids: Set::empty(),
        named: Map::empty(),
        local: Seq::empty(),
        aliases: Map::empty(),
        numbers: Seq::empty(),
        next_number: 1,
        identity_cwd: None,
        panes: Seq::empty(),
        by_name: Map::empty(),
        first_pane: None,
    }
}

/// The progress and the workspaces after projecting a run of workspaces.
pub open spec fn workspaces_projected(
    w: WalkModel,
    src: Source,
    infos: Seq<WorkspaceInfo>,
) -> (WalkModel, Seq<WorkspaceModel>)
    decreases infos.len(),
{
    if infos.len() == 0 {
        (w, Seq::empty())
    } else {
        let (u, shown) = workspaces_projected(w, src, infos.drop_last());
        let (v, last) = workspace_projected(u, src, infos.last());
        match last {
            Some(model) => (v, shown.push(model)),
            None => (v, shown),
        }
    }
}

/// The number of panes of a run of workspaces.
pub open spec fn workspaces_leaves(src: Source, infos: Seq<WorkspaceInfo>) -> nat
    decreases infos.len(),
{
    if infos.len() == 0 {
        0
    } else {
        workspaces_leaves(src, infos.drop_last()) + tabs_leaves(
            src,
            tabs_of(src.structure.tabs, infos.last().workspace_id@),
        )
    }
}

/// `i` is the first of the shown workspaces that has the focus.
pub open spec fn focused_workspace_at(
    shown: Seq<WorkspaceModel>,
    focused: Option<Seq<char>>,
    i: int,
) -> bool {
    &&& 0 <= i < shown.len()
    &&& focused == Some(shown[i].id)
    &&& forall|j: int| 0 <= j < i ==> focused != Some((#[trigger] shown[j]).id)
}

/// The place of the focused workspace among those that are shown; else the
/// first, where there is one.
pub open spec fn active_workspace(
    shown: Seq<WorkspaceModel>,
    focused: Option<Seq<char>>,
) -> Option<nat> {
    if exists|i: int| focused_workspace_at(shown, focused, i) {
        Some((choose|i: int| focused_workspace_at(shown, focused, i)) as nat)
    } else if shown.len() > 0 {
        Some(0)
    } else {
        None
    }
}

fn active_workspace_position(shown: &Vec<WorkspaceView>, focused: &Option<String>) -> (r: Option<
    usize,
>)
    ensures
        active_workspace(workspace_models(shown@), text::opt_text(*focused)) == (match r {
            Some(i) => Some(i as nat),
            None => None,
        }),
{
    let ghost all = workspace_models(shown@);
    let ghost at = text::opt_text(*focused);
    let mut i: usize = 0;
    while i < shown.len()
        invariant
            i <= shown@.len(),
            all == workspace_models(shown@),
            at == text::opt_text(*focused),
            forall|j: int| 0 <= j < i ==> at != Some((#[trigger] all[j]).id),
        decreases shown@.len() - i,
    {
        assert(all[i as int] == shown@[i as int]@);
        if holds_text(focused, shown[i].id.as_str()) {
            assert(focused_workspace_at(all, at, i as int));
            return Some(i);
        }
        i = i + 1;
    }
    if shown.len() > 0 {
        Some(0)
    } else {
        None
    }
}

/// The mode after a projection. An overlay survives where it is to be
/// preserved; the base modes follow the structure.
pub open spec fn mode_after(mode: Mode, preserve_overlay: bool, has_active: bool) -> Mode {
    if preserve_overlay && mode != Mode::Terminal && mode != Mode::Navigate {
        mode
    } else if has_active {
        Mode::Terminal
    } else {
        Mode::Navigate
    }
}

/// The view of a session.
pub open spec fn projected(
    src: Source,
    ids: IdSource,
    mode: Mode,
    preserve_overlay: bool,
) -> AppModel {
    let (end, shown) = workspaces_projected(walk_start(ids), src, src.structure.workspaces);
    let active = active_workspace(shown, src.structure.focused_workspace);
    AppModel {
        workspaces: shown,
        terminals: end.named,
        local_terminals: end.local,
        aliases: end.aliases,
        former_ids: Seq::empty(),
        active,
        selected: match active {
            Some(i) => i,
            None => 0,
        },
        mode: mode_after(mode, preserve_overlay, active is Some),
    }
}

proof fn runs_of_workspaces_count(w: WalkModel, src: Source, infos: Seq<WorkspaceInfo>)
    ensures
        ({
            let v = workspaces_projected(w, src, infos).0;
            &&& v.next_pane == w.next_pane + workspaces_leaves(src, infos)
            &&& w.next_local <= v.next_local <= w.next_local + workspaces_leaves(src, infos)
        }),
    decreases infos.len(),
{
    if infos.len() > 0 {
        runs_of_workspaces_count(w, src, infos.drop_last());
        let u = workspaces_projected(w, src, infos.drop_last()).0;
        runs_of_tabs_count(
            u.at_workspace(),
            src,
            tabs_of(src.structure.tabs, infos.last().workspace_id@),
        );
    }
}

proof fn part_of_workspaces_has_no_more_leaves(src: Source, infos: Seq<WorkspaceInfo>, k: int)
    requires
        0 <= k <= infos.len(),
    ensures
        workspaces_leaves(src, infos.take(k)) <= workspaces_leaves(src, infos),
    decreases infos.len() - k,
{
    if k < infos.len() {
        part_of_workspaces_has_no_more_leaves(src, infos, k + 1);
        assert(infos.take(k + 1).drop_last() =~= infos.take(k));
    } else {
        assert(infos.take(k) =~= infos);
    }
}

/// There are ids and numbers left to project a session.
pub open spec fn fits(src: Source, ids: IdSource) -> bool {
    let total = workspaces_leaves(src, src.structure.workspaces);
    &&& src.structure.tabs.len() < usize::MAX
    &&& ids.next_pane + total <= u32::MAX
    &&& ids.next_local + total <= u64::MAX
    &&& 1 + total <= usize::MAX
}

/// Counts the leaves of a layout. `None` where they are too many to count.
fn count_leaves(node: &LayoutNode) -> (r: Option<u64>)
    ensures
        match r {
            Some(n) => n == leaves(*node).len(),
            None => leaves(*node).len() > u64::MAX,
        },
    decreases *node,
{
    match node {
        LayoutNode::Pane { .. } => Some(1),
        LayoutNode::Split { first, second, .. } => {
            let left: u64 = match count_leaves(first) {
                Some(n) => n,
                None => {
                    return None;
                },
            };
            match count_leaves(second) {
                Some(right) => left.checked_add(right),
                None => None,
            }
        },
    }
}

/// Counts the panes of a workspace's tabs on top of `sofar`. `None` where they
/// are too many to count.
fn count_workspace_leaves(
    info: &WorkspaceInfo,
    replica: &SessionReplica,
    exports: &IdMap<LayoutDescription>,
    sofar: u64,
    Ghost(src): Ghost<Source>,
) -> (r: Option<u64>)
    requires
        exports.wf(),
        src.structure == replica@,
        src.exports == exports@,
    ensures
        ({
            let total = sofar + tabs_leaves(src, tabs_of(replica@.tabs, info.workspace_id@));
            match r {
                Some(n) => n == total,
                None => total > u64::MAX,
            }
        }),
{
    let tabs = workspace_tabs(&replica.tabs, info.workspace_id.as_str());
    let ghost all = tabs@.unref();
    let mut total: u64 = sofar;
    let mut i: usize = 0;
    while i < tabs.len()
        invariant
            i <= tabs@.len(),
            all == tabs@.unref(),
            all == tabs_of(replica@.tabs, info.workspace_id@),
            exports.wf(),
            src.structure == replica@,
            src.exports == exports@,
            total == sofar + tabs_leaves(src, all.take(i as int)),
        decreases tabs@.len() - i,
    {
        proof {
            assert(all.take(i + 1).drop_last() =~= all.take(i as int));
            assert(all.take(i + 1).last() == *tabs@[i as int]);
            part_has_no_more_leaves(src, all, i + 1);
        }
        if let Some(layout) = exports.get(tabs[i].tab_id.as_str()) {
            let more: u64 = match count_leaves(&layout.root) {
                Some(n) => n,
                None => {
                    return None;
                },
            };
            total = match total.checked_add(more) {
                Some(n) => n,
                None => {
                    return None;
                },
            };
        }
        i = i + 1;
    }
    assert(all.take(all.len() as int) =~= all);
    Some(total)
}

/// Whether there are ids and numbers left to project a session.
pub fn projection_fits(
    replica: &SessionReplica,
    exports: &IdMap<LayoutDescription>,
    here: &str,
    ids: &IdSource,
) -> (r: bool)
    requires
        exports.wf(),
    ensures
        r == fits(Source { structure: replica@, exports: exports@, here: here@ }, *ids),
{
    let ghost src = Source { structure: replica@, exports: exports@, here: here@ };
    let ghost infos = replica@.workspaces;
    if replica.tabs.len() == usize::MAX {
        return false;
    }
    let mut total: u64 = 0;
    let mut i: usize = 0;
    while i < replica.workspaces.len()
        invariant
            i <= replica.workspaces@.len(),
            infos == replica@.workspaces,
            exports.wf(),
            src == (Source { structure: replica@, exports: exports@, here: here@ }),
            total == workspaces_leaves(src, infos.take(i as int)),
        decreases replica.workspaces@.len() - i,
    {
        proof {
            assert(infos.take(i + 1).drop_last() =~= infos.take(i as int));
            part_of_workspaces_has_no_more_leaves(src, infos, i + 1);
        }
        total = match count_workspace_leaves(
            &replica.workspaces[i],
            replica,
            exports,
            total,
            Ghost(src),
        ) {
            Some(n) => n,
            None => {
                return false;
            },
        };
        i = i + 1;
    }
    assert(infos.take(infos.len() as int) =~= infos);
    total <= (u32::MAX - ids.next_pane) as u64 && total <= u64::MAX - ids.next_local && total
        < usize::MAX as u64
}

/// Rebuilds the view from a replica and the layouts exported for its tabs, by
/// tab id. A tab whose export failed has no entry and is left out. Every pane gets a
/// new local id, so no former id stands for a pane any more. Returns the server's
/// terminals that occur, with the ids that the panes refer to.
pub fn rebuild_app_state(
    state: &mut AppState,
    replica: &SessionReplica,
    exports: &IdMap<LayoutDescription>,
    here: &str,
    ids: &mut IdSource,
    preserve_overlay_mode: bool,
) -> (r: IdMap<TerminalId>)
    requires
        replica.wf(),
        exports.wf(),
        fits(Source { structure: replica@, exports: exports@, here: here@ }, *old(ids)),
    ensures
        final(state).wf(),
        r.wf(),
        ({
            let src = Source { structure: replica@, exports: exports@, here: here@ };
            let end = workspaces_projected(walk_start(*old(ids)), src, replica@.workspaces).0;
            &&& final(state)@ == projected(src, *old(ids), old(state)@.mode, preserve_overlay_mode)
            &&& final(ids).next_pane == end.next_pane
            &&& final(ids).next_local == end.next_local
            &&& r@.dom() == end.terminal_ids
            &&& forall|k: Seq<char>| #[trigger]
                r@.dom().contains(k) ==> r@[k]@ == terminal_state::TerminalKey::Named(k)
        }),
{
    let ghost src = Source { structure: replica@, exports: exports@, here: here@ };
    let ghost start = walk_start(*ids);
    let ghost infos = replica@.workspaces;
    let mut walk = Walk {
        next_pane: ids.next_pane,
        next_local: ids.next_local,
        terminal_ids: IdMap::new(),
        named: IdMap::new(),
        local: Vec::new(),
        aliases: IdMap::new(),
        numbers: Vec::new(),
        next_number: 1,
        identity_cwd: None,
        panes: Vec::new(),
        by_name: IdMap::new(),
        first_pane: None,
    };
    proof {
        assert(pane_models(walk.panes@) =~= Seq::empty());
        assert(walk@.named =~= Map::empty());
        assert(walk@.local =~= Seq::empty());
        assert(walk@ =~= start);
    }
    let mut shown: Vec<WorkspaceView> = Vec::new();
    assert(workspace_models(shown@) =~= Seq::empty());
    let mut i: usize = 0;
    while i < replica.workspaces.len()
        invariant
            i <= replica.workspaces@.len(),
            infos == replica@.workspaces,
            walk.wf(),
            replica.wf(),
            exports.wf(),
            replica@.tabs.len() < usize::MAX,
            src == (Source { structure: replica@, exports: exports@, here: here@ }),
            start == walk_start(*ids),
            ids.next_pane + workspaces_leaves(src, infos) <= u32::MAX,
            ids.next_local + workspaces_leaves(src, infos) <= u64::MAX,
            1 + workspaces_leaves(src, infos) <= usize::MAX,
            (walk@, workspace_models(shown@)) == workspaces_projected(
                start,
                src,
                infos.take(i as int),
            ),
        decreases replica.workspaces@.len() - i,
    {
        proof {
            assert(infos.take(i + 1).drop_last() =~= infos.take(i as int));
            runs_of_workspaces_count(start, src, infos.take(i as int));
            part_of_workspaces_has_no_more_leaves(src, infos, i + 1);
        }
        let ghost shown_before = shown@;
        match project_workspace(
            &replica.workspaces[i],
            replica,
            exports,
            here,
            &mut walk,
            Ghost(src),
        ) {
            Some(workspace) => {
                shown.push(workspace);
                assert(workspace_models(shown@) =~= workspace_models(shown_before).push(
                    workspace@,
                ));
            },
            None => {},
        }
        i = i + 1;
    }
    assert(infos.take(infos.len() as int) =~= infos);
    let active = active_workspace_position(&shown, &replica.focused_workspace_id);
    let base = state.mode == Mode::Terminal || state.mode == Mode::Navigate;
    ids.next_pane = walk.next_pane;
    ids.next_local = walk.next_local;
    state.workspaces = shown;
    state.terminals = walk.named;
    state.local_terminals = walk.local;
    state.public_pane_id_aliases = walk.aliases;
    state.pane_id_aliases.clear();
    state.active = active;
    state.selected = match active {
        Some(i) => i,
        None => 0,
    };
    if !preserve_overlay_mode || base {
        state.mode = if active.is_some() {
            Mode::Terminal
        } else {
            Mode::Navigate
        };
    }
    walk.terminal_ids
}

/// The tabs whose layouts a projection asks for, in order.
pub open spec fn layouts_wanted(s: replica::Structure, n: int) -> Seq<Seq<char>>
    decreases n,
{
    if n <= 0 {
        Seq::empty()
    } else {
        layouts_wanted(s, n - 1) + tabs_of(s.tabs, s.workspaces[n - 1].workspace_id@).map_values(
            |t: TabInfo| t.tab_id@,
        )
    }
}

/// Lists the tabs whose layouts a projection asks for, in order.
pub fn layout_requests(replica: &SessionReplica) -> (r: Vec<String>)
    ensures
        text::texts(r@) == layouts_wanted(
            replica@,
            replica@.workspaces.len() as int,
        ),
{
    let mut r: Vec<String> = Vec::new();
    let mut i: usize = 0;
    assert(text::texts(r@) =~= Seq::<Seq<char>>::empty());
    while i < replica.workspaces.len()
        invariant
            i <= replica.workspaces@.len(),
            text::texts(r@) == layouts_wanted(replica@, i as int),
        decreases replica.workspaces@.len() - i,
    {
        let tabs = workspace_tabs(&replica.tabs, replica.workspaces[i].workspace_id.as_str());
        let ghost wanted = layouts_wanted(replica@, i as int);
        let ghost all = tabs@.unref();
        let ghost names = all.map_values(|t: TabInfo| t.tab_id@);
        let mut j: usize = 0;
        assert(wanted + names.take(0) =~= wanted);
        while j < tabs.len()
            invariant
                j <= tabs@.len(),
                all == tabs@.unref(),
                names == all.map_values(|t: TabInfo| t.tab_id@),
                text::texts(r@) == wanted + names.take(j as int),
            decreases tabs@.len() - j,
        {
            let ghost listed = r@;
            r.push(tabs[j].tab_id.clone());
            proof {
                assert(names[j as int] == tabs@[j as int].tab_id@);
                assert(text::texts(r@) =~= text::texts(listed).push(
                    names[j as int],
                ));
                assert(wanted + names.take(j + 1) =~= (wanted + names.take(j as int)).push(
                    names[j as int],
                ));
            }
            j = j + 1;
        }
        assert(names.take(names.len() as int) =~= names);
        i = i + 1;
    }
    r
}

} // verus!
