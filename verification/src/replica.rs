//! The client's replica of the session structure.
use crate::idmap;
use crate::idmap::IdMap;
use crate::lists::retain;
use crate::schema::{
    EventData, EventEnvelope, NotificationKind, PaneInfo, PaneLayoutSnapshot, SessionSnapshot,
    TabInfo, WorkspaceInfo,
};
use crate::text;
use crate::text::{holds_text, is_listed, same_opt_text, same_text};
use vstd::prelude::*;

verus! {

/// A change that the data plane or the renderer has to follow.
#[derive(Clone, Debug, PartialEq, Eq)]
pub enum ReplicaChange {
    /// A pane appeared: open a data connection.
    PaneAdded { pane_id: String, terminal_id: String },
    /// A pane went away: close its data connection.
    PaneRemoved { pane_id: String, terminal_id: String },
    /// Focus moved: the terminal, if any, becomes the writable one.
    FocusChanged { pane_id: Option<String>, terminal_id: Option<String> },
    /// A tab's layout changed.
    LayoutChanged { tab_id: String },
    /// Workspace or tab metadata changed.
    StructureChanged,
    /// The server raised a notification.
    NotificationShown {
        kind: NotificationKind,
        title: String,
        context: String,
        workspace_id: Option<String>,
        pane_id: Option<String>,
    },
}

/// A replica of the server's session structure.
#[derive(Clone, Debug)]
pub struct SessionReplica {
    pub version: String,
    pub protocol: u32,
    pub focused_workspace_id: Option<String>,
    pub focused_tab_id: Option<String>,
    pub focused_pane_id: Option<String>,
    pub workspaces: Vec<WorkspaceInfo>,
    pub tabs: Vec<TabInfo>,
    pub panes: IdMap<PaneInfo>,
    pub layouts: IdMap<PaneLayoutSnapshot>,
}

/// The structure that a replica holds, as a mathematical value.
#[verifier::ext_equal]
pub struct Structure {
    pub version: Seq<char>,
    pub protocol: u32,
    pub focused_workspace: Option<Seq<char>>,
    pub focused_tab: Option<Seq<char>>,
    pub focused_pane: Option<Seq<char>>,
    pub workspaces: Seq<WorkspaceInfo>,
    pub tabs: Seq<TabInfo>,
    pub panes: Map<Seq<char>, PaneInfo>,
    pub layouts: Map<Seq<char>, PaneLayoutSnapshot>,
}

impl Default for SessionReplica {
    /// A replica that holds nothing.
    fn default() -> (r: Self)
        ensures
            r.wf(),
            r@ == (Structure {
                version: Seq::empty(),
                protocol: 0,
                focused_workspace: None,
                focused_tab: None,
                focused_pane: None,
                workspaces: Seq::empty(),
                tabs: Seq::empty(),
                panes: Map::empty(),
                layouts: Map::empty(),
            }),
    {
        SessionReplica {
            version: String::new(),
            protocol: 0,
            focused_workspace_id: None,
            focused_tab_id: None,
            focused_pane_id: None,
            workspaces: Vec::new(),
            tabs: Vec::new(),
            panes: IdMap::new(),
            layouts: IdMap::new(),
        }
    }
}

impl View for SessionReplica {
    type V = Structure;

    open spec fn view(&self) -> Structure {
        Structure {
            version: self.version@,
            protocol: self.protocol,
            focused_workspace: text::opt_text(self.focused_workspace_id),
            focused_tab: text::opt_text(self.focused_tab_id),
            focused_pane: text::opt_text(self.focused_pane_id),
            workspaces: self.workspaces@,
            tabs: self.tabs@,
            panes: self.panes@,
            layouts: self.layouts@,
        }
    }
}

/// The panes of a snapshot by id; of two with one id the later stands.
pub open spec fn panes_by_id(panes: Seq<PaneInfo>) -> Map<Seq<char>, PaneInfo>
    decreases panes.len(),
{
    if panes.len() == 0 {
        Map::empty()
    } else {
        panes_by_id(panes.drop_last()).insert(panes.last().pane_id@, panes.last())
    }
}

/// The layouts of a snapshot by tab; of two for one tab the later stands.
pub open spec fn layouts_by_tab(layouts: Seq<PaneLayoutSnapshot>) -> Map<
    Seq<char>,
    PaneLayoutSnapshot,
>
    decreases layouts.len(),
{
    if layouts.len() == 0 {
        Map::empty()
    } else {
        layouts_by_tab(layouts.drop_last()).insert(layouts.last().tab_id@, layouts.last())
    }
}

/// The map holds the panes of a list: under each id that occurs the last pane
/// with it, and nothing under any other id.
pub open spec fn holds_panes(map: Map<Seq<char>, PaneInfo>, panes: Seq<PaneInfo>) -> bool {
    &&& forall|i: int|
        0 <= i < panes.len() ==> map.dom().contains((#[trigger] panes[i]).pane_id@)
    &&& forall|k: Seq<char>| #[trigger]
        map.dom().contains(k) ==> exists|i: int|
            0 <= i < panes.len() && (#[trigger] panes[i]).pane_id@ == k && map[k] == panes[i] && (
            forall|j: int| i < j < panes.len() ==> (#[trigger] panes[j]).pane_id@ != k)
}

/// The map holds the layouts of a list: under each tab that occurs the last
/// layout of it, and nothing under any other tab.
pub open spec fn holds_layouts(
    map: Map<Seq<char>, PaneLayoutSnapshot>,
    layouts: Seq<PaneLayoutSnapshot>,
) -> bool {
    &&& forall|i: int|
        0 <= i < layouts.len() ==> map.dom().contains((#[trigger] layouts[i]).tab_id@)
    &&& forall|k: Seq<char>| #[trigger]
        map.dom().contains(k) ==> exists|i: int|
            0 <= i < layouts.len() && (#[trigger] layouts[i]).tab_id@ == k && map[k] == layouts[i]
                && (forall|j: int| i < j < layouts.len() ==> (#[trigger] layouts[j]).tab_id@ != k)
}

/// Listing panes by id holds the last of each id.
pub proof fn listed_panes_are_held(panes: Seq<PaneInfo>)
    ensures
        holds_panes(panes_by_id(panes), panes),
    decreases panes.len(),
{
    if panes.len() > 0 {
        let head = panes.drop_last();
        let last = panes.last();
        let map = panes_by_id(panes);
        listed_panes_are_held(head);
        assert forall|i: int| 0 <= i < panes.len() implies map.dom().contains(
            (#[trigger] panes[i]).pane_id@,
        ) by {
            if i < head.len() {
                assert(head[i] == panes[i]);
            }
        }
        assert forall|k: Seq<char>| #[trigger] map.dom().contains(k) implies exists|i: int|
            0 <= i < panes.len() && (#[trigger] panes[i]).pane_id@ == k && map[k] == panes[i] && (
            forall|j: int| i < j < panes.len() ==> (#[trigger] panes[j]).pane_id@ != k) by {
            if k == last.pane_id@ {
                assert(panes[panes.len() - 1].pane_id@ == k);
            } else {
                assert(panes_by_id(head).dom().contains(k));
                let i = choose|i: int|
                    0 <= i < head.len() && (#[trigger] head[i]).pane_id@ == k && panes_by_id(
                        head,
                    )[k] == head[i] && (forall|j: int|
                        i < j < head.len() ==> (#[trigger] head[j]).pane_id@ != k);
                assert(panes[i] == head[i]);
                assert forall|j: int| i < j < panes.len() implies (#[trigger] panes[j]).pane_id@
                    != k by {
                    if j < head.len() {
                        assert(head[j] == panes[j]);
                    }
                }
            }
        }
    }
}

/// Listing layouts by tab holds the last of each tab.
pub proof fn listed_layouts_are_held(layouts: Seq<PaneLayoutSnapshot>)
    ensures
        holds_layouts(layouts_by_tab(layouts), layouts),
    decreases layouts.len(),
{
    if layouts.len() > 0 {
        let head = layouts.drop_last();
        let last = layouts.last();
        let map = layouts_by_tab(layouts);
        listed_layouts_are_held(head);
        assert forall|i: int| 0 <= i < layouts.len() implies map.dom().contains(
            (#[trigger] layouts[i]).tab_id@,
        ) by {
            if i < head.len() {
                assert(head[i] == layouts[i]);
            }
        }
        assert forall|k: Seq<char>| #[trigger] map.dom().contains(k) implies exists|i: int|
            0 <= i < layouts.len() && (#[trigger] layouts[i]).tab_id@ == k && map[k] == layouts[i]
                && (forall|j: int|
                i < j < layouts.len() ==> (#[trigger] layouts[j]).tab_id@ != k) by {
            if k == last.tab_id@ {
                assert(layouts[layouts.len() - 1].tab_id@ == k);
            } else {
                assert(layouts_by_tab(head).dom().contains(k));
                let i = choose|i: int|
                    0 <= i < head.len() && (#[trigger] head[i]).tab_id@ == k && layouts_by_tab(
                        head,
                    )[k] == head[i] && (forall|j: int|
                        i < j < head.len() ==> (#[trigger] head[j]).tab_id@ != k);
                assert(layouts[i] == head[i]);
                assert forall|j: int| i < j < layouts.len() implies (#[trigger] layouts[j]).tab_id@
                    != k by {
                    if j < head.len() {
                        assert(head[j] == layouts[j]);
                    }
                }
            }
        }
    }
}

/// The structure of a snapshot.
pub open spec fn structure_of(snapshot: SessionSnapshot) -> Structure {
    Structure {
        version: snapshot.version@,
        protocol: snapshot.protocol,
        focused_workspace: text::opt_text(snapshot.focused_workspace_id),
        focused_tab: text::opt_text(snapshot.focused_tab_id),
        focused_pane: text::opt_text(snapshot.focused_pane_id),
        workspaces: snapshot.workspaces@,
        tabs: snapshot.tabs@,
        panes: panes_by_id(snapshot.panes@),
        layouts: layouts_by_tab(snapshot.layouts@),
    }
}

impl SessionReplica {
    /// Every pane and layout stands under its own id.
    pub open spec fn wf(&self) -> bool {
        &&& self.panes.wf()
        &&& self.layouts.wf()
        &&& self@.keyed()
    }

    /// Builds a replica from a snapshot.
    pub fn from_snapshot(snapshot: SessionSnapshot) -> (r: Self)
        ensures
            r.wf(),
            r@ == structure_of(snapshot),
            holds_panes(r@.panes, snapshot.panes@),
            holds_layouts(r@.layouts, snapshot.layouts@),
    {
        let mut panes: IdMap<PaneInfo> = IdMap::new();
        let ghost all_panes = snapshot.panes@;
        for pane in it: snapshot.panes
            invariant
                panes.wf(),
                it.seq() == all_panes,
                panes@ == panes_by_id(all_panes.take(it.index() as int)),
                forall|k: Seq<char>| #[trigger]
                    panes@.dom().contains(k) ==> panes@[k].pane_id@ == k,
        {
            assert(all_panes.take(it.index() + 1).drop_last() =~= all_panes.take(
                it.index() as int,
            ));
            panes.insert(pane.pane_id.clone(), pane);
        }
        let mut layouts: IdMap<PaneLayoutSnapshot> = IdMap::new();
        let ghost all_layouts = snapshot.layouts@;
        for layout in it: snapshot.layouts
            invariant
                layouts.wf(),
                it.seq() == all_layouts,
                layouts@ == layouts_by_tab(all_layouts.take(it.index() as int)),
                forall|k: Seq<char>| #[trigger]
                    layouts@.dom().contains(k) ==> layouts@[k].tab_id@ == k,
        {
            assert(all_layouts.take(it.index() + 1).drop_last() =~= all_layouts.take(
                it.index() as int,
            ));
            layouts.insert(layout.tab_id.clone(), layout);
        }
        proof {
            assert(all_panes.take(all_panes.len() as int) =~= all_panes);
            assert(all_layouts.take(all_layouts.len() as int) =~= all_layouts);
            listed_panes_are_held(all_panes);
            listed_layouts_are_held(all_layouts);
        }
        SessionReplica {
            version: snapshot.version,
            protocol: snapshot.protocol,
            focused_workspace_id: snapshot.focused_workspace_id,
            focused_tab_id: snapshot.focused_tab_id,
            focused_pane_id: snapshot.focused_pane_id,
            workspaces: snapshot.workspaces,
            tabs: snapshot.tabs,
            panes,
            layouts,
        }
    }

    /// The pane with the id.
    pub fn pane(&self, pane_id: &str) -> (r: Option<&PaneInfo>)
        requires
            self.wf(),
        ensures
            match r {
                Some(p) => self@.panes.dom().contains(pane_id@) && *p == self@.panes[pane_id@],
                None => !self@.panes.dom().contains(pane_id@),
            },
    {
        self.panes.get(pane_id)
    }

    /// The pane bound to a terminal: the first by id where several are.
    pub fn pane_for_terminal(&self, terminal_id: &str) -> (r: Option<&PaneInfo>)
        requires
            self.wf(),
        ensures
            match r {
                Some(p) => exists|i: int| #[trigger]
                    self@.first_for_terminal(terminal_id@, i) && *p == self@.panes[idmap::id_order(
                        self@.panes.dom(),
                    )[i]],
                None => forall|k: Seq<char>| #[trigger]
                    self@.panes.dom().contains(k) ==> self@.panes[k].terminal_id@ != terminal_id@,
            },
    {
        let count: usize = self.panes.len();
        let ghost order = idmap::id_order(self@.panes.dom());
        proof {
            self.panes.order_lists_keys();
        }
        let mut i: usize = 0;
        while i < count
            invariant
                self.wf(),
                order == idmap::id_order(self@.panes.dom()),
                count == order.len(),
                i <= count,
                forall|j: int|
                    0 <= j < i ==> self@.panes[#[trigger] order[j]].terminal_id@ != terminal_id@,
            decreases count - i,
        {
            let (key, pane) = self.panes.entry_at(i);
            if same_text(pane.terminal_id.as_str(), terminal_id) {
                assert(self@.first_for_terminal(terminal_id@, i as int));
                return Some(pane);
            }
            i = i + 1;
        }
        assert forall|k: Seq<char>| #[trigger] self@.panes.dom().contains(k) implies self@.panes[k].terminal_id@
            != terminal_id@ by {
            assert(order.contains(k));
            let j = order.index_of(k);
            assert(order[j] == k);
        }
        None
    }

    /// The distinct terminals of the session in ascending order.
    pub fn terminal_ids(&self) -> (r: Vec<String>)
        requires
            self.wf(),
        ensures
            text::texts(r@) == idmap::id_order(self@.terminals()),
            idmap::lists(text::texts(r@), self@.terminals()),
    {
        let mut seen: IdMap<()> = IdMap::new();
        let count: usize = self.panes.len();
        let ghost order = idmap::id_order(self@.panes.dom());
        proof {
            self.panes.order_lists_keys();
        }
        let mut i: usize = 0;
        while i < count
            invariant
                self.wf(),
                seen.wf(),
                order == idmap::id_order(self@.panes.dom()),
                count == order.len(),
                i <= count,
                forall|j: int| 0 <= j < order.len() ==> self@.panes.dom().contains(#[trigger] order[j]),
                forall|j: int|
                    0 <= j < i ==> seen@.dom().contains(
                        self@.panes[#[trigger] order[j]].terminal_id@,
                    ),
                forall|t: Seq<char>| #[trigger] seen@.dom().contains(t) ==> self@.terminals().contains(t),
            decreases count - i,
        {
            let (key, pane) = self.panes.entry_at(i);
            assert(self@.panes.dom().contains(order[i as int]));
            seen.insert(pane.terminal_id.clone(), ());
            i = i + 1;
        }
        assert(seen@.dom() =~= self@.terminals()) by {
            assert forall|t: Seq<char>| self@.terminals().contains(t) implies seen@.dom().contains(
                t,
            ) by {
                let k = choose|k: Seq<char>| #[trigger]
                    self@.panes.dom().contains(k) && self@.panes[k].terminal_id@ == t;
                assert(order.contains(k));
                let j = order.index_of(k);
                assert(order[j] == k);
            }
        }
        seen.keys_listed()
    }

    /// The terminal of the focused pane.
    pub fn focused_terminal_id(&self) -> (r: Option<&str>)
        requires
            self.wf(),
        ensures
            match r {
                Some(t) => self@.focused_terminal() == Some(t@),
                None => self@.focused_terminal() is None,
            },
    {
        match &self.focused_pane_id {
            Some(id) => match self.panes.get(id.as_str()) {
                Some(pane) => Some(pane.terminal_id.as_str()),
                None => None,
            },
            None => None,
        }
    }

    /// The panes of a tab, by ascending id.
    pub fn panes_in_tab(&self, tab_id: &str) -> (r: Vec<&PaneInfo>)
        requires
            self.wf(),
        ensures
            r@.unref() == self@.selected(|p: PaneInfo| p.tab_id@ == tab_id@).map_values(
                |k: Seq<char>| self@.panes[k],
            ),
    {
        let ghost hit = |p: PaneInfo| p.tab_id@ == tab_id@;
        let ghost on_key = |k: Seq<char>| hit(self@.panes[k]);
        let ghost named = |k: Seq<char>| self@.panes[k];
        let ghost order = idmap::id_order(self@.panes.dom());
        let mut r: Vec<&PaneInfo> = Vec::new();
        let count: usize = self.panes.len();
        let mut i: usize = 0;
        assert(order.take(0).filter(on_key) =~= Seq::<Seq<char>>::empty()) by {
            reveal(Seq::filter);
        }
        while i < count
            invariant
                self.wf(),
                order == idmap::id_order(self@.panes.dom()),
                count == order.len(),
                i <= count,
                hit == (|p: PaneInfo| p.tab_id@ == tab_id@),
                on_key == (|k: Seq<char>| hit(self@.panes[k])),
                named == (|k: Seq<char>| self@.panes[k]),
                r@.unref() == order.take(i as int).filter(on_key).map_values(named),
            decreases count - i,
        {
            let (key, pane) = self.panes.entry_at(i);
            let ghost chosen = order.take(i as int).filter(on_key);
            proof {
                reveal(Seq::filter);
                assert(order.take(i + 1).drop_last() =~= order.take(i as int));
            }
            if same_text(pane.tab_id.as_str(), tab_id) {
                let ghost shown = r@;
                r.push(pane);
                proof {
                    assert(r@.unref() =~= shown.unref().push(*pane));
                    assert(chosen.push(key@).map_values(named) =~= chosen.map_values(named).push(
                        *pane,
                    ));
                }
            }
            i = i + 1;
        }
        assert(order.take(order.len() as int) =~= order);
        r
    }

    fn workspace_position(&self, id: &str) -> (r: Option<usize>)
        ensures
            match r {
                Some(i) => first_workspace(self.workspaces@, id@, i as int) && workspace_index(
                    self.workspaces@,
                    id@,
                ) == i && has_workspace(self.workspaces@, id@),
                None => !has_workspace(self.workspaces@, id@),
            },
    {
        let mut i: usize = 0;
        while i < self.workspaces.len()
            invariant
                i <= self.workspaces@.len(),
                forall|j: int|
                    0 <= j < i ==> (#[trigger] self.workspaces@[j]).workspace_id@ != id@,
            decreases self.workspaces@.len() - i,
        {
            if same_text(self.workspaces[i].workspace_id.as_str(), id) {
                assert(first_workspace(self.workspaces@, id@, i as int));
                return Some(i);
            }
            i = i + 1;
        }
        None
    }

    fn tab_position(&self, id: &str) -> (r: Option<usize>)
        ensures
            match r {
                Some(i) => first_tab(self.tabs@, id@, i as int) && tab_index(self.tabs@, id@) == i
                    && has_tab(self.tabs@, id@),
                None => !has_tab(self.tabs@, id@),
            },
    {
        let mut i: usize = 0;
        while i < self.tabs.len()
            invariant
                i <= self.tabs@.len(),
                forall|j: int| 0 <= j < i ==> (#[trigger] self.tabs@[j]).tab_id@ != id@,
            decreases self.tabs@.len() - i,
        {
            if same_text(self.tabs[i].tab_id.as_str(), id) {
                assert(first_tab(self.tabs@, id@, i as int));
                return Some(i);
            }
            i = i + 1;
        }
        None
    }

    fn upsert_workspace(&mut self, workspace: WorkspaceInfo)
        requires
            old(self).wf(),
        ensures
            final(self).wf(),
            final(self)@ == (Structure {
                workspaces: with_workspace(old(self)@.workspaces, workspace),
                ..old(self)@
            }),
    {
        match self.workspace_position(workspace.workspace_id.as_str()) {
            Some(i) => {
                self.workspaces.set(i, workspace);
            },
            None => {
                self.workspaces.push(workspace);
            },
        }
    }

    fn upsert_tab(&mut self, tab: TabInfo)
        requires
            old(self).wf(),
        ensures
            final(self).wf(),
            final(self)@ == (Structure { tabs: with_tab(old(self)@.tabs, tab), ..old(self)@ }),
    {
        match self.tab_position(tab.tab_id.as_str()) {
            Some(i) => {
                self.tabs.set(i, tab);
            },
            None => {
                self.tabs.push(tab);
            },
        }
    }

    /// Removes every pane of the scope and returns a notice per pane. Focus is
    /// cleared where its pane goes.
    fn drop_panes(&mut self, scope: &PaneScope) -> (r: Vec<ReplicaChange>)
        requires
            old(self).wf(),
        ensures
            final(self).wf(),
            final(self)@ == old(self)@.without_panes(|p: PaneInfo| scope.covers(p)),
            r@ == old(self)@.removals(|p: PaneInfo| scope.covers(p)),
    {
        let ghost before = self@;
        let ghost hit = |p: PaneInfo| scope.covers(p);
        let ghost on_key = |k: Seq<char>| hit(before.panes[k]);
        let ghost order = self.panes.order();
        let mut removed: Vec<String> = Vec::new();
        let count: usize = self.panes.len();
        let mut i: usize = 0;
        proof {
            self.panes.order_lists_keys();
            assert(order.take(0).filter(on_key) =~= Seq::<Seq<char>>::empty()) by {
                reveal(Seq::filter);
            }
        }
        while i < count
            invariant
                self@ == before,
                self.wf(),
                order == self.panes.order(),
                count == order.len(),
                i <= count,
                hit == (|p: PaneInfo| scope.covers(p)),
                on_key == (|k: Seq<char>| hit(before.panes[k])),
                text::texts(removed@) == order.take(i as int).filter(on_key),
            decreases count - i,
        {
            let (key, pane) = self.panes.entry_at(i);
            proof {
                reveal(Seq::filter);
                assert(order.take(i + 1).drop_last() =~= order.take(i as int));
            }
            if scope.holds(pane) {
                let ghost kept_so_far = removed@;
                removed.push(key.clone());
                assert(text::texts(removed@) =~= text::texts(kept_so_far).push(key@));
            }
            i = i + 1;
        }
        let ghost gone = before.selected(hit);
        proof {
            assert(order.take(order.len() as int) =~= order);
            assert(text::texts(removed@) == gone);
            selection_facts(before, order, hit);
        }
        let mut changes: Vec<ReplicaChange> = Vec::new();
        let mut j: usize = 0;
        while j < removed.len()
            invariant
                self.wf(),
                j <= removed@.len(),
                gone == text::texts(removed@),
                gone == before.selected(hit),
                gone.no_duplicates(),
                forall|x: int| 0 <= x < gone.len() ==> before.panes.dom().contains(#[trigger] gone[x])
                    && hit(before.panes[gone[x]]),
                forall|k: Seq<char>| #[trigger]
                    before.panes.dom().contains(k) && hit(before.panes[k]) ==> gone.contains(k),
                before.keyed(),
                self@ == (Structure {
                    panes: before.panes.remove_keys(gone.take(j as int).to_set()),
                    ..before
                }),
                changes@ == gone.take(j as int).map_values(
                    |k: Seq<char>| removal(before.panes[k]),
                ),
            decreases removed@.len() - j,
        {
            let ghost seen = gone.take(j as int);
            assert(gone[j as int] == removed@[j as int]@);
            assert(!seen.contains(gone[j as int])) by {
                if seen.contains(gone[j as int]) {
                    let x = seen.index_of(gone[j as int]);
                    assert(gone[x] == gone[j as int]);
                }
            }
            let taken = self.panes.remove(removed[j].as_str());
            match taken {
                Some(pane) => {
                    changes.push(
                        ReplicaChange::PaneRemoved {
                            pane_id: pane.pane_id,
                            terminal_id: pane.terminal_id,
                        },
                    );
                },
                None => {},
            }
            proof {
                assert(gone.take(j + 1) =~= seen.push(gone[j as int]));
                seen.lemma_push_to_set_commute(gone[j as int]);
                assert(self@.panes =~= before.panes.remove_keys(gone.take(j + 1).to_set()));
                assert(changes@ =~= gone.take(j + 1).map_values(
                    |k: Seq<char>| removal(before.panes[k]),
                ));
            }
            j = j + 1;
        }
        proof {
            assert(gone.take(gone.len() as int) =~= gone);
            assert(self@.panes =~= before.without_panes(hit).panes) by {
                assert forall|k: Seq<char>| #[trigger]
                    self@.panes.dom().contains(k) <==> before.without_panes(
                        hit,
                    ).panes.dom().contains(k) by {
                    if before.panes.dom().contains(k) && !hit(before.panes[k]) && gone.contains(k) {
                        let x = gone.index_of(k);
                        assert(gone[x] == k);
                    }
                }
            }
        }
        let focus_gone = match &self.focused_pane_id {
            Some(id) => is_listed(&removed, id.as_str()),
            None => false,
        };
        proof {
            if let Some(f) = before.focused_pane {
                if gone.contains(f) {
                    let x = gone.index_of(f);
                    assert(gone[x] == f);
                }
                assert(gone.contains(f) <==> before.focus_selected(hit));
            }
        }
        if focus_gone {
            self.focused_pane_id = None;
        }
        changes
    }

    fn remove_workspace(&mut self, workspace_id: &str) -> (r: Vec<ReplicaChange>)
        requires
            old(self).wf(),
        ensures
            final(self).wf(),
            final(self)@ == old(self)@.without_workspace(workspace_id@),
            r@ == old(self)@.removals(|p: PaneInfo| p.workspace_id@ == workspace_id@).push(
                ReplicaChange::StructureChanged,
            ),
    {
        let ghost before = self@;
        self.close_workspace(workspace_id);
        let mut i: usize = 0;
        while i < self.tabs.len()
            invariant
                i <= self.tabs@.len(),
                self.wf(),
                before.keyed(),
                self@ == (Structure {
                    workspaces: without_workspace(before.workspaces, workspace_id@),
                    layouts: self.layouts@,
                    ..before
                }),
                self.layouts@ == Map::new(
                    |k: Seq<char>|
                        before.layouts.dom().contains(k) && !tab_in_workspace(
                            before.tabs.take(i as int),
                            workspace_id@,
                            k,
                        ),
                    |k: Seq<char>| before.layouts[k],
                ),
            decreases self.tabs@.len() - i,
        {
            let ghost seen = before.tabs.take(i as int);
            let ghost more = before.tabs.take(i + 1);
            let ghost shrunk = self.layouts@;
            if same_text(self.tabs[i].workspace_id.as_str(), workspace_id) {
                self.layouts.remove(self.tabs[i].tab_id.as_str());
            }
            proof {
                assert forall|k: Seq<char>| #[trigger]
                    tab_in_workspace(more, workspace_id@, k) <==> tab_in_workspace(
                        seen,
                        workspace_id@,
                        k,
                    ) || (before.tabs[i as int].workspace_id@ == workspace_id@
                        && before.tabs[i as int].tab_id@ == k) by {
                    if tab_in_workspace(more, workspace_id@, k) {
                        let x = choose|x: int|
                            0 <= x < more.len() && (#[trigger] more[x]).workspace_id@
                                == workspace_id@ && more[x].tab_id@ == k;
                        if x < i {
                            assert(seen[x] == more[x]);
                        }
                    }
                    if tab_in_workspace(seen, workspace_id@, k) {
                        let x = choose|x: int|
                            0 <= x < seen.len() && (#[trigger] seen[x]).workspace_id@
                                == workspace_id@ && seen[x].tab_id@ == k;
                        assert(more[x] == seen[x]);
                    }
                    assert(more[i as int] == before.tabs[i as int]);
                }
                assert(self.layouts@ =~= Map::new(
                    |k: Seq<char>|
                        before.layouts.dom().contains(k) && !tab_in_workspace(
                            more,
                            workspace_id@,
                            k,
                        ),
                    |k: Seq<char>| before.layouts[k],
                ));
            }
            i = i + 1;
        }
        assert(before.tabs.take(before.tabs.len() as int) =~= before.tabs);
        let keep = |t: &TabInfo| -> (b: bool)
            ensures
                b == (t.workspace_id@ != workspace_id@),
        {
            !same_text(t.workspace_id.as_str(), workspace_id)
        };
        retain(&mut self.tabs, keep, Ghost(|t: TabInfo| t.workspace_id@ != workspace_id@));
        let ghost middle = self@;
        let scope = PaneScope::Workspace(workspace_id);
        let mut changes = self.drop_panes(&scope);
        proof {
            let hit = |p: PaneInfo| p.workspace_id@ == workspace_id@;
            assert((|p: PaneInfo| scope.covers(p)) =~= hit);
            assert(middle.removals(hit) == before.removals(hit)) by {
                assert(middle.selected(hit) == before.selected(hit));
            }
        }
        if holds_text(&self.focused_workspace_id, workspace_id) {
            self.focused_workspace_id = None;
        }
        changes.push(ReplicaChange::StructureChanged);
        changes
    }

    fn remove_tab(&mut self, tab_id: &str) -> (r: Vec<ReplicaChange>)
        requires
            old(self).wf(),
        ensures
            final(self).wf(),
            final(self)@ == old(self)@.without_tab(tab_id@),
            r@ == old(self)@.removals(|p: PaneInfo| p.tab_id@ == tab_id@).push(
                ReplicaChange::StructureChanged,
            ),
    {
        let ghost before = self@;
        self.close_tab(tab_id);
        let ghost middle = self@;
        let scope = PaneScope::Tab(tab_id);
        let mut changes = self.drop_panes(&scope);
        proof {
            let hit = |p: PaneInfo| p.tab_id@ == tab_id@;
            assert((|p: PaneInfo| scope.covers(p)) =~= hit);
            assert(middle.removals(hit) == before.removals(hit)) by {
                assert(middle.selected(hit) == before.selected(hit));
            }
        }
        if holds_text(&self.focused_tab_id, tab_id) {
            self.focused_tab_id = None;
        }
        changes.push(ReplicaChange::StructureChanged);
        changes
    }

    fn close_tab(&mut self, tab_id: &str)
        requires
            old(self).wf(),
        ensures
            final(self).wf(),
            final(self)@ == (Structure {
                tabs: without_tab(old(self)@.tabs, tab_id@),
                layouts: old(self)@.layouts.remove(tab_id@),
                ..old(self)@
            }),
    {
        let keep = |t: &TabInfo| -> (b: bool)
            ensures
                b == (t.tab_id@ != tab_id@),
        {
            !same_text(t.tab_id.as_str(), tab_id)
        };
        retain(&mut self.tabs, keep, Ghost(|t: TabInfo| t.tab_id@ != tab_id@));
        self.layouts.remove(tab_id);
    }

    fn close_workspace(&mut self, workspace_id: &str)
        requires
            old(self).wf(),
        ensures
            final(self).wf(),
            final(self)@ == (Structure {
                workspaces: without_workspace(old(self)@.workspaces, workspace_id@),
                ..old(self)@
            }),
    {
        let keep = |w: &WorkspaceInfo| -> (b: bool)
            ensures
                b == (w.workspace_id@ != workspace_id@),
        {
            !same_text(w.workspace_id.as_str(), workspace_id)
        };
        retain(&mut self.workspaces, keep, Ghost(|w: WorkspaceInfo| w.workspace_id@ != workspace_id@));
    }

    fn set_focused_pane(&mut self, pane_id: Option<String>) -> (r: Vec<ReplicaChange>)
        requires
            old(self).wf(),
        ensures
            final(self).wf(),
            final(self)@ == old(self)@.with_focus(text::opt_text(pane_id)),
            r@ == old(self)@.focus_notice(pane_id),
    {
        if same_opt_text(&self.focused_pane_id, &pane_id) {
            return Vec::new();
        }
        let ghost before = self@;
        match &self.focused_pane_id {
            Some(id) => {
                match self.panes.get_mut(id.as_str()) {
                    Some(pane) => {
                        pane.focused = false;
                    },
                    None => {},
                }
            },
            None => {},
        }
        self.focused_pane_id = pane_id.clone();
        let terminal_id = match &pane_id {
            Some(id) => match self.panes.get_mut(id.as_str()) {
                Some(pane) => {
                    pane.focused = true;
                    Some(pane.terminal_id.clone())
                },
                None => None,
            },
            None => None,
        };
        vec![ReplicaChange::FocusChanged { pane_id, terminal_id }]
    }

    fn apply_pane_moved(
        &mut self,
        previous_pane_id: String,
        previous_tab_id: String,
        pane: PaneInfo,
        created_workspace: Option<WorkspaceInfo>,
        created_tab: Option<TabInfo>,
        closed_workspace_id: Option<String>,
        closed_tab_id: Option<String>,
    ) -> (r: Vec<ReplicaChange>)
        requires
            old(self).wf(),
        ensures
            final(self).wf(),
            final(self)@ == old(self)@.with_move(
                previous_pane_id@,
                pane,
                created_workspace,
                created_tab,
                text::opt_text(closed_workspace_id),
                text::opt_text(closed_tab_id),
            ),
            r@ == old(self)@.move_notice(
                previous_pane_id@,
                previous_tab_id,
                pane,
                created_workspace,
                created_tab,
            ),
    {
        let ghost before = self@;
        let mut changes: Vec<ReplicaChange> = Vec::new();
        if let Some(workspace) = created_workspace {
            self.upsert_workspace(workspace);
        }
        if let Some(tab) = created_tab {
            self.upsert_tab(tab);
        }
        let moved_focused = holds_text(&self.focused_pane_id, previous_pane_id.as_str());
        let new_pane_id = pane.pane_id.clone();
        if !same_text(previous_pane_id.as_str(), new_pane_id.as_str()) {
            self.panes.remove(previous_pane_id.as_str());
        }
        let new_tab_id = pane.tab_id.clone();
        self.panes.insert(new_pane_id.clone(), pane);
        assert(self@ =~= before.with_moved_pane(
            previous_pane_id@,
            pane,
            created_workspace,
            created_tab,
        ));
        if moved_focused {
            let mut focus = self.set_focused_pane(Some(new_pane_id));
            changes.append(&mut focus);
        }
        let ghost focus_changes = changes@;
        if let Some(tab_id) = &closed_tab_id {
            self.close_tab(tab_id.as_str());
        }
        if let Some(workspace_id) = &closed_workspace_id {
            self.close_workspace(workspace_id.as_str());
        }
        if !same_text(new_tab_id.as_str(), previous_tab_id.as_str()) {
            changes.push(ReplicaChange::LayoutChanged { tab_id: new_tab_id });
        }
        changes.push(ReplicaChange::LayoutChanged { tab_id: previous_tab_id });
        changes.push(ReplicaChange::StructureChanged);
        changes
    }

    fn remove_pane(&mut self, pane_id: String) -> (r: Vec<ReplicaChange>)
        requires
            old(self).wf(),
        ensures
            final(self).wf(),
            final(self)@ == old(self)@.without_pane(pane_id@),
            r@ == old(self)@.pane_closed_notice(pane_id),
    {
        let was_focused = holds_text(&self.focused_pane_id, pane_id.as_str());
        match self.panes.remove(pane_id.as_str()) {
            Some(pane) => {
                let mut changes = vec![
                    ReplicaChange::PaneRemoved { pane_id, terminal_id: pane.terminal_id },
                ];
                if was_focused {
                    self.focused_pane_id = None;
                    changes.push(ReplicaChange::FocusChanged { pane_id: None, terminal_id: None });
                }
                changes
            },
            None => {
                assert(self@.panes =~= old(self)@.panes);
                Vec::new()
            },
        }
    }

    /// Applies a structural event and returns the changes that the data plane
    /// and the renderer have to follow.
    pub fn apply_event(&mut self, envelope: EventEnvelope) -> (r: Vec<ReplicaChange>)
        requires
            old(self).wf(),
        ensures
            final(self).wf(),
            final(self)@ == old(self)@.after(envelope.data),
            r@ == old(self)@.notices(envelope.data),
    {
        match envelope.data {
            EventData::WorkspaceCreated { workspace } => {
                self.upsert_workspace(workspace);
                vec![ReplicaChange::StructureChanged]
            },
            EventData::WorkspaceUpdated { workspace } => {
                self.upsert_workspace(workspace);
                vec![ReplicaChange::StructureChanged]
            },
            EventData::WorkspaceClosed { workspace_id, .. } => self.remove_workspace(
                workspace_id.as_str(),
            ),
            EventData::WorkspaceRenamed { workspace_id, label } => {
                match self.workspace_position(workspace_id.as_str()) {
                    Some(i) => {
                        let workspace = &mut self.workspaces[i];
                        workspace.label = label;
                    },
                    None => {},
                }
                vec![ReplicaChange::StructureChanged]
            },
            EventData::WorkspaceMoved { workspaces } => {
                self.workspaces = workspaces;
                vec![ReplicaChange::StructureChanged]
            },
            EventData::WorkspaceFocused { workspace_id } => {
                self.focused_workspace_id = Some(workspace_id);
                vec![ReplicaChange::StructureChanged]
            },
            EventData::WorktreeCreated { workspace } => {
                self.upsert_workspace(workspace);
                vec![ReplicaChange::StructureChanged]
            },
            EventData::WorktreeOpened { workspace } => {
                self.upsert_workspace(workspace);
                vec![ReplicaChange::StructureChanged]
            },
            EventData::WorktreeRemoved { workspace } => {
                if let Some(workspace) = workspace {
                    self.upsert_workspace(workspace);
                }
                vec![ReplicaChange::StructureChanged]
            },
            EventData::TabCreated { tab } => {
                self.upsert_tab(tab);
                vec![ReplicaChange::StructureChanged]
            },
            EventData::TabClosed { tab_id, .. } => self.remove_tab(tab_id.as_str()),
            EventData::TabRenamed { tab_id, label, .. } => {
                match self.tab_position(tab_id.as_str()) {
                    Some(i) => {
                        let tab = &mut self.tabs[i];
                        tab.label = label;
                    },
                    None => {},
                }
                vec![ReplicaChange::StructureChanged]
            },
            EventData::TabMoved { workspace_id, tabs } => {
                let mut tabs = tabs;
                let keep = |t: &TabInfo| -> (b: bool)
                    ensures
                        b == (t.workspace_id@ != workspace_id@),
                {
                    !same_text(t.workspace_id.as_str(), workspace_id.as_str())
                };
                retain(&mut self.tabs, keep, Ghost(|t: TabInfo| t.workspace_id@ != workspace_id@));
                self.tabs.append(&mut tabs);
                vec![ReplicaChange::StructureChanged]
            },
            EventData::TabFocused { tab_id, workspace_id } => {
                self.focused_tab_id = Some(tab_id);
                self.focused_workspace_id = Some(workspace_id);
                vec![ReplicaChange::StructureChanged]
            },
            EventData::PaneCreated { pane } => {
                let change = ReplicaChange::PaneAdded {
                    pane_id: pane.pane_id.clone(),
                    terminal_id: pane.terminal_id.clone(),
                };
                self.panes.insert(pane.pane_id.clone(), pane);
                vec![change]
            },
            EventData::PaneClosed { pane_id, .. } => self.remove_pane(pane_id),
            EventData::PaneExited { pane_id, .. } => self.remove_pane(pane_id),
            EventData::PaneFocused { pane_id, .. } => self.set_focused_pane(Some(pane_id)),
            EventData::PaneMoved {
                previous_pane_id,
                previous_tab_id,
                pane,
                created_workspace,
                created_tab,
                closed_workspace_id,
                closed_tab_id,
            } => self.apply_pane_moved(
                previous_pane_id,
                previous_tab_id,
                *pane,
                created_workspace,
                created_tab,
                closed_workspace_id,
                closed_tab_id,
            ),
            EventData::PaneAgentDetected { pane_id, agent, .. } => {
                match self.panes.get_mut(pane_id.as_str()) {
                    Some(pane) => {
                        pane.agent = agent;
                    },
                    None => {},
                }
                vec![ReplicaChange::StructureChanged]
            },
            EventData::PaneAgentStatusChanged {
                pane_id,
                agent_status,
                agent,
                title,
                display_agent,
                custom_status,
                state_labels,
                ..
            } => {
                match self.panes.get_mut(pane_id.as_str()) {
                    Some(pane) => {
                        pane.agent_status = agent_status;
                        pane.agent = agent;
                        pane.title = title;
                        pane.display_agent = display_agent;
                        pane.custom_status = custom_status;
                        pane.state_labels = state_labels;
                    },
                    None => {},
                }
                vec![ReplicaChange::StructureChanged]
            },
            EventData::LayoutUpdated { layout } => {
                let tab_id = layout.tab_id.clone();
                self.layouts.insert(tab_id.clone(), layout);
                vec![ReplicaChange::LayoutChanged { tab_id }]
            },
            EventData::NotificationShown { kind, title, context, workspace_id, pane_id } => {
                vec![
                    ReplicaChange::NotificationShown {
                        kind,
                        title,
                        context,
                        workspace_id,
                        pane_id,
                    },
                ]
            },
            EventData::PaneOutputChanged { .. } => Vec::new(),
        }
    }
}

/// The selection holds exactly the selected keys, each once.
proof fn selection_facts(
    s: Structure,
    order: Seq<Seq<char>>,
    hit: spec_fn(PaneInfo) -> bool,
)
    requires
        order == idmap::id_order(s.panes.dom()),
        idmap::lists(order, s.panes.dom()),
        order.no_duplicates(),
    ensures
        s.selected(hit).no_duplicates(),
        forall|x: int|
            0 <= x < s.selected(hit).len() ==> s.panes.dom().contains(
                #[trigger] s.selected(hit)[x],
            ) && hit(s.panes[s.selected(hit)[x]]),
        forall|k: Seq<char>| #[trigger]
            s.panes.dom().contains(k) && hit(s.panes[k]) ==> s.selected(hit).contains(k),
{
    let on_key = |k: Seq<char>| hit(s.panes[k]);
    filter_keeps_distinct(order, on_key);
    assert forall|x: int| 0 <= x < s.selected(hit).len() implies s.panes.dom().contains(
        #[trigger] s.selected(hit)[x],
    ) && hit(s.panes[s.selected(hit)[x]]) by {
        order.lemma_filter_pred(on_key, x);
        assert(s.selected(hit).contains(s.selected(hit)[x]));
        order.lemma_filter_contains_rev(on_key, s.selected(hit)[x]);
        assert(order.contains(s.selected(hit)[x]));
    }
    assert forall|k: Seq<char>| #[trigger]
        s.panes.dom().contains(k) && hit(s.panes[k]) implies s.selected(hit).contains(k) by {
        assert(order.contains(k));
        let i = order.index_of(k);
        order.lemma_filter_contains(on_key, i);
    }
}

/// A filtered listing without repeats has none either.
proof fn filter_keeps_distinct(s: Seq<Seq<char>>, p: spec_fn(Seq<char>) -> bool)
    requires
        s.no_duplicates(),
    ensures
        s.filter(p).no_duplicates(),
    decreases s.len(),
{
    reveal(Seq::filter);
    if s.len() > 0 {
        let rest = s.drop_last();
        filter_keeps_distinct(rest, p);
        if p(s.last()) {
            let f = rest.filter(p);
            assert forall|i: int, j: int|
                0 <= i < s.filter(p).len() && 0 <= j < s.filter(p).len() && i != j implies s.filter(
                p,
            )[i] != s.filter(p)[j] by {
                if i == f.len() {
                    assert(f.contains(f[j]));
                    rest.lemma_filter_contains_rev(p, f[j]);
                    let x = rest.index_of(f[j]);
                    assert(s[x] == f[j]);
                } else if j == f.len() {
                    assert(f.contains(f[i]));
                    rest.lemma_filter_contains_rev(p, f[i]);
                    let x = rest.index_of(f[i]);
                    assert(s[x] == f[i]);
                }
            }
        }
    }
}

/// `i` is the first workspace with the id.
pub open spec fn first_workspace(ws: Seq<WorkspaceInfo>, id: Seq<char>, i: int) -> bool {
    &&& 0 <= i < ws.len()
    &&& ws[i].workspace_id@ == id
    &&& forall|j: int| 0 <= j < i ==> (#[trigger] ws[j]).workspace_id@ != id
}

/// Some workspace has the id.
pub open spec fn has_workspace(ws: Seq<WorkspaceInfo>, id: Seq<char>) -> bool {
    exists|i: int| first_workspace(ws, id, i)
}

/// The position of the first workspace with the id.
pub open spec fn workspace_index(ws: Seq<WorkspaceInfo>, id: Seq<char>) -> int {
    choose|i: int| first_workspace(ws, id, i)
}

/// `i` is the first tab with the id.
pub open spec fn first_tab(tabs: Seq<TabInfo>, id: Seq<char>, i: int) -> bool {
    &&& 0 <= i < tabs.len()
    &&& tabs[i].tab_id@ == id
    &&& forall|j: int| 0 <= j < i ==> (#[trigger] tabs[j]).tab_id@ != id
}

/// Some tab has the id.
pub open spec fn has_tab(tabs: Seq<TabInfo>, id: Seq<char>) -> bool {
    exists|i: int| first_tab(tabs, id, i)
}

/// The position of the first tab with the id.
pub open spec fn tab_index(tabs: Seq<TabInfo>, id: Seq<char>) -> int {
    choose|i: int| first_tab(tabs, id, i)
}

/// With the workspace in the place of the one with its id, or at the end.
pub open spec fn with_workspace(ws: Seq<WorkspaceInfo>, w: WorkspaceInfo) -> Seq<WorkspaceInfo> {
    if has_workspace(ws, w.workspace_id@) {
        ws.update(workspace_index(ws, w.workspace_id@), w)
    } else {
        ws.push(w)
    }
}

/// With the tab in the place of the one with its id, or at the end.
pub open spec fn with_tab(tabs: Seq<TabInfo>, t: TabInfo) -> Seq<TabInfo> {
    if has_tab(tabs, t.tab_id@) {
        tabs.update(tab_index(tabs, t.tab_id@), t)
    } else {
        tabs.push(t)
    }
}

/// Without the workspaces of an id.
pub open spec fn without_workspace(ws: Seq<WorkspaceInfo>, id: Seq<char>) -> Seq<WorkspaceInfo> {
    ws.filter(|w: WorkspaceInfo| w.workspace_id@ != id)
}

/// Without the tabs of an id.
pub open spec fn without_tab(tabs: Seq<TabInfo>, id: Seq<char>) -> Seq<TabInfo> {
    tabs.filter(|t: TabInfo| t.tab_id@ != id)
}

/// Without the tabs of a workspace.
pub open spec fn without_tabs_of(tabs: Seq<TabInfo>, workspace: Seq<char>) -> Seq<TabInfo> {
    tabs.filter(|t: TabInfo| t.workspace_id@ != workspace)
}

/// A tab of the workspace has the id.
pub open spec fn tab_in_workspace(
    tabs: Seq<TabInfo>,
    workspace: Seq<char>,
    tab: Seq<char>,
) -> bool {
    exists|i: int|
        0 <= i < tabs.len() && (#[trigger] tabs[i]).workspace_id@ == workspace && tabs[i].tab_id@
            == tab
}

/// The panes that go when a workspace or a tab closes.
pub enum PaneScope<'a> {
    Workspace(&'a str),
    Tab(&'a str),
}

impl<'a> PaneScope<'a> {
    /// Whether a pane lies in the scope.
    pub open spec fn covers(self, pane: PaneInfo) -> bool {
        match self {
            PaneScope::Workspace(id) => pane.workspace_id@ == id@,
            PaneScope::Tab(id) => pane.tab_id@ == id@,
        }
    }

    fn holds(&self, pane: &PaneInfo) -> (r: bool)
        ensures
            r == self.covers(*pane),
    {
        match self {
            PaneScope::Workspace(id) => same_text(pane.workspace_id.as_str(), id),
            PaneScope::Tab(id) => same_text(pane.tab_id.as_str(), id),
        }
    }
}

/// The notice that a pane is gone.
pub open spec fn removal(pane: PaneInfo) -> ReplicaChange {
    ReplicaChange::PaneRemoved { pane_id: pane.pane_id, terminal_id: pane.terminal_id }
}

impl Structure {
    /// Every pane and layout stands under its own id.
    pub open spec fn keyed(self) -> bool {
        &&& forall|k: Seq<char>| #[trigger]
            self.panes.dom().contains(k) ==> self.panes[k].pane_id@ == k
        &&& forall|k: Seq<char>| #[trigger]
            self.layouts.dom().contains(k) ==> self.layouts[k].tab_id@ == k
    }

    /// The terminals of the panes.
    pub open spec fn terminals(self) -> Set<Seq<char>> {
        Set::new(
            |t: Seq<char>|
                exists|k: Seq<char>| #[trigger]
                    self.panes.dom().contains(k) && self.panes[k].terminal_id@ == t,
        )
    }

    /// The pane at position `i` of the ascending ids is the first on the terminal.
    pub open spec fn first_for_terminal(self, terminal: Seq<char>, i: int) -> bool {
        &&& 0 <= i < idmap::id_order(self.panes.dom()).len()
        &&& self.panes[idmap::id_order(self.panes.dom())[i]].terminal_id@ == terminal
        &&& forall|j: int|
            0 <= j < i ==> self.panes[#[trigger] idmap::id_order(
                self.panes.dom(),
            )[j]].terminal_id@ != terminal
    }

    /// The terminal of the focused pane.
    pub open spec fn focused_terminal(self) -> Option<Seq<char>> {
        match self.focused_pane {
            Some(id) => if self.panes.dom().contains(id) {
                Some(self.panes[id].terminal_id@)
            } else {
                None
            },
            None => None,
        }
    }

    /// The ids of the panes that `hit` selects, ascending.
    pub open spec fn selected(self, hit: spec_fn(PaneInfo) -> bool) -> Seq<Seq<char>> {
        idmap::id_order(self.panes.dom()).filter(|k: Seq<char>| hit(self.panes[k]))
    }

    /// One notice per selected pane, by ascending id.
    pub open spec fn removals(self, hit: spec_fn(PaneInfo) -> bool) -> Seq<ReplicaChange> {
        self.selected(hit).map_values(|k: Seq<char>| removal(self.panes[k]))
    }

    /// The focused pane is one that `hit` selects.
    pub open spec fn focus_selected(self, hit: spec_fn(PaneInfo) -> bool) -> bool {
        self.focused_pane matches Some(k) && self.panes.dom().contains(k) && hit(self.panes[k])
    }

    /// Without the selected panes. Focus goes with its pane.
    pub open spec fn without_panes(self, hit: spec_fn(PaneInfo) -> bool) -> Structure {
        Structure {
            panes: Map::new(
                |k: Seq<char>| self.panes.dom().contains(k) && !hit(self.panes[k]),
                |k: Seq<char>| self.panes[k],
            ),
            focused_pane: if self.focus_selected(hit) {
                None
            } else {
                self.focused_pane
            },
            ..self
        }
    }

    /// With focus on another pane and the panes' own flags following it.
    pub open spec fn with_focus(self, pane: Option<Seq<char>>) -> Structure {
        if self.focused_pane == pane {
            self
        } else {
            let dark = match self.focused_pane {
                Some(id) => if self.panes.dom().contains(id) {
                    self.panes.insert(id, PaneInfo { focused: false, ..self.panes[id] })
                } else {
                    self.panes
                },
                None => self.panes,
            };
            let lit = match pane {
                Some(id) => if dark.dom().contains(id) {
                    dark.insert(id, PaneInfo { focused: true, ..dark[id] })
                } else {
                    dark
                },
                None => dark,
            };
            Structure { focused_pane: pane, panes: lit, ..self }
        }
    }

    /// The notice of a focus change, none where focus stays.
    pub open spec fn focus_notice(self, pane: Option<String>) -> Seq<ReplicaChange> {
        if self.focused_pane == text::opt_text(pane) {
            Seq::empty()
        } else {
            seq![
                ReplicaChange::FocusChanged {
                    pane_id: pane,
                    terminal_id: match pane {
                        Some(id) => if self.panes.dom().contains(id@) {
                            Some(self.panes[id@].terminal_id)
                        } else {
                            None
                        },
                        None => None,
                    },
                },
            ]
        }
    }

    /// After a workspace closed, with its tabs, their layouts and its panes.
    pub open spec fn without_workspace(self, id: Seq<char>) -> Structure {
        let rest = self.without_panes(|p: PaneInfo| p.workspace_id@ == id);
        Structure {
            workspaces: without_workspace(self.workspaces, id),
            tabs: without_tabs_of(self.tabs, id),
            layouts: Map::new(
                |k: Seq<char>|
                    self.layouts.dom().contains(k) && !tab_in_workspace(self.tabs, id, k),
                |k: Seq<char>| self.layouts[k],
            ),
            focused_workspace: if self.focused_workspace == Some(id) {
                None
            } else {
                self.focused_workspace
            },
            ..rest
        }
    }

    /// After a tab closed, with its layout and its panes.
    pub open spec fn without_tab(self, id: Seq<char>) -> Structure {
        let rest = self.without_panes(|p: PaneInfo| p.tab_id@ == id);
        Structure {
            tabs: without_tab(self.tabs, id),
            layouts: self.layouts.remove(id),
            focused_tab: if self.focused_tab == Some(id) {
                None
            } else {
                self.focused_tab
            },
            ..rest
        }
    }

    /// After a pane closed.
    pub open spec fn without_pane(self, id: Seq<char>) -> Structure {
        if self.panes.dom().contains(id) {
            Structure {
                panes: self.panes.remove(id),
                focused_pane: if self.focused_pane == Some(id) {
                    None
                } else {
                    self.focused_pane
                },
                ..self
            }
        } else {
            self
        }
    }

    /// The notices of a closed pane.
    pub open spec fn pane_closed_notice(self, id: String) -> Seq<ReplicaChange> {
        if !self.panes.dom().contains(id@) {
            Seq::empty()
        } else {
            let gone = ReplicaChange::PaneRemoved {
                pane_id: id,
                terminal_id: self.panes[id@].terminal_id,
            };
            if self.focused_pane == Some(id@) {
                seq![gone, ReplicaChange::FocusChanged { pane_id: None, terminal_id: None }]
            } else {
                seq![gone]
            }
        }
    }

    /// After a pane moved, possibly under a new id, creating or closing the tabs
    /// and workspaces at either end.
    pub open spec fn with_move(
        self,
        previous: Seq<char>,
        pane: PaneInfo,
        created_workspace: Option<WorkspaceInfo>,
        created_tab: Option<TabInfo>,
        closed_workspace: Option<Seq<char>>,
        closed_tab: Option<Seq<char>>,
    ) -> Structure {
        let placed = self.with_moved_pane(previous, pane, created_workspace, created_tab);
        let focused = if self.focused_pane == Some(previous) {
            placed.with_focus(Some(pane.pane_id@))
        } else {
            placed
        };
        Structure {
            workspaces: match closed_workspace {
                Some(id) => without_workspace(focused.workspaces, id),
                None => focused.workspaces,
            },
            tabs: match closed_tab {
                Some(id) => without_tab(focused.tabs, id),
                None => focused.tabs,
            },
            layouts: match closed_tab {
                Some(id) => focused.layouts.remove(id),
                None => focused.layouts,
            },
            ..focused
        }
    }

    /// With a moved pane under its new id and what was created for it.
    pub open spec fn with_moved_pane(
        self,
        previous: Seq<char>,
        pane: PaneInfo,
        created_workspace: Option<WorkspaceInfo>,
        created_tab: Option<TabInfo>,
    ) -> Structure {
        Structure {
            workspaces: match created_workspace {
                Some(w) => with_workspace(self.workspaces, w),
                None => self.workspaces,
            },
            tabs: match created_tab {
                Some(t) => with_tab(self.tabs, t),
                None => self.tabs,
            },
            panes: self.panes.remove(previous).insert(pane.pane_id@, pane),
            ..self
        }
    }

    /// The notices of a moved pane: its focus if it had it, then the tabs to
    /// re-tile, destination first where it differs.
    pub open spec fn move_notice(
        self,
        previous: Seq<char>,
        previous_tab: String,
        pane: PaneInfo,
        created_workspace: Option<WorkspaceInfo>,
        created_tab: Option<TabInfo>,
    ) -> Seq<ReplicaChange> {
        let placed = self.with_moved_pane(previous, pane, created_workspace, created_tab);
        let focus = if self.focused_pane == Some(previous) {
            placed.focus_notice(Some(pane.pane_id))
        } else {
            Seq::empty()
        };
        let destination = if pane.tab_id@ != previous_tab@ {
            seq![ReplicaChange::LayoutChanged { tab_id: pane.tab_id }]
        } else {
            Seq::empty()
        };
        focus + destination + seq![
            ReplicaChange::LayoutChanged { tab_id: previous_tab },
            ReplicaChange::StructureChanged,
        ]
    }

    /// With one pane changed, where it is present.
    pub open spec fn with_pane_changed(
        self,
        id: Seq<char>,
        change: spec_fn(PaneInfo) -> PaneInfo,
    ) -> Structure {
        if self.panes.dom().contains(id) {
            Structure { panes: self.panes.insert(id, change(self.panes[id])), ..self }
        } else {
            self
        }
    }

    /// The structure after an event.
    pub open spec fn after(self, data: EventData) -> Structure {
        match data {
            EventData::WorkspaceCreated { workspace } => Structure {
                workspaces: with_workspace(self.workspaces, workspace),
                ..self
            },
            EventData::WorkspaceUpdated { workspace } => Structure {
                workspaces: with_workspace(self.workspaces, workspace),
                ..self
            },
            EventData::WorkspaceClosed { workspace_id, .. } => self.without_workspace(
                workspace_id@,
            ),
            EventData::WorkspaceRenamed { workspace_id, label } => if has_workspace(
                self.workspaces,
                workspace_id@,
            ) {
                let i = workspace_index(self.workspaces, workspace_id@);
                Structure {
                    workspaces: self.workspaces.update(
                        i,
                        WorkspaceInfo { label, ..self.workspaces[i] },
                    ),
                    ..self
                }
            } else {
                self
            },
            EventData::WorkspaceMoved { workspaces } => Structure {
                workspaces: workspaces@,
                ..self
            },
            EventData::WorkspaceFocused { workspace_id } => Structure {
                focused_workspace: Some(workspace_id@),
                ..self
            },
            EventData::WorktreeCreated { workspace } => Structure {
                workspaces: with_workspace(self.workspaces, workspace),
                ..self
            },
            EventData::WorktreeOpened { workspace } => Structure {
                workspaces: with_workspace(self.workspaces, workspace),
                ..self
            },
            EventData::WorktreeRemoved { workspace } => match workspace {
                Some(w) => Structure { workspaces: with_workspace(self.workspaces, w), ..self },
                None => self,
            },
            EventData::TabCreated { tab } => Structure { tabs: with_tab(self.tabs, tab), ..self },
            EventData::TabClosed { tab_id, .. } => self.without_tab(tab_id@),
            EventData::TabRenamed { tab_id, label, .. } => if has_tab(self.tabs, tab_id@) {
                let i = tab_index(self.tabs, tab_id@);
                Structure {
                    tabs: self.tabs.update(i, TabInfo { label, ..self.tabs[i] }),
                    ..self
                }
            } else {
                self
            },
            EventData::TabMoved { workspace_id, tabs } => Structure {
                tabs: without_tabs_of(self.tabs, workspace_id@) + tabs@,
                ..self
            },
            EventData::TabFocused { tab_id, workspace_id } => Structure {
                focused_tab: Some(tab_id@),
                focused_workspace: Some(workspace_id@),
                ..self
            },
            EventData::PaneCreated { pane } => Structure {
                panes: self.panes.insert(pane.pane_id@, pane),
                ..self
            },
            EventData::PaneClosed { pane_id, .. } => self.without_pane(pane_id@),
            EventData::PaneExited { pane_id, .. } => self.without_pane(pane_id@),
            EventData::PaneFocused { pane_id, .. } => self.with_focus(Some(pane_id@)),
            EventData::PaneMoved {
                previous_pane_id,
                pane,
                created_workspace,
                created_tab,
                closed_workspace_id,
                closed_tab_id,
                ..
            } => self.with_move(
                previous_pane_id@,
                *pane,
                created_workspace,
                created_tab,
                text::opt_text(closed_workspace_id),
                text::opt_text(closed_tab_id),
            ),
            EventData::PaneAgentDetected { pane_id, agent, .. } => self.with_pane_changed(
                pane_id@,
                |p: PaneInfo| PaneInfo { agent, ..p },
            ),
            EventData::PaneAgentStatusChanged {
                pane_id,
                agent_status,
                agent,
                title,
                display_agent,
                custom_status,
                state_labels,
                ..
            } => self.with_pane_changed(
                pane_id@,
                |p: PaneInfo|
                    PaneInfo {
                        agent_status,
                        agent,
                        title,
                        display_agent,
                        custom_status,
                        state_labels,
                        ..p
                    },
            ),
            EventData::PaneOutputChanged { .. } => self,
            EventData::LayoutUpdated { layout } => Structure {
                layouts: self.layouts.insert(layout.tab_id@, layout),
                ..self
            },
            EventData::NotificationShown { .. } => self,
        }
    }

    /// The changes that an event announces.
    pub open spec fn notices(self, data: EventData) -> Seq<ReplicaChange> {
        match data {
            EventData::WorkspaceClosed { workspace_id, .. } => self.removals(
                |p: PaneInfo| p.workspace_id@ == workspace_id@,
            ).push(ReplicaChange::StructureChanged),
            EventData::TabClosed { tab_id, .. } => self.removals(
                |p: PaneInfo| p.tab_id@ == tab_id@,
            ).push(ReplicaChange::StructureChanged),
            EventData::PaneCreated { pane } => seq![
                ReplicaChange::PaneAdded { pane_id: pane.pane_id, terminal_id: pane.terminal_id },
            ],
            EventData::PaneClosed { pane_id, .. } => self.pane_closed_notice(pane_id),
            EventData::PaneExited { pane_id, .. } => self.pane_closed_notice(pane_id),
            EventData::PaneFocused { pane_id, .. } => self.focus_notice(Some(pane_id)),
            EventData::PaneMoved {
                previous_pane_id,
                previous_tab_id,
                pane,
                created_workspace,
                created_tab,
                ..
            } => self.move_notice(
                previous_pane_id@,
                previous_tab_id,
                *pane,
                created_workspace,
                created_tab,
            ),
            EventData::LayoutUpdated { layout } => seq![
                ReplicaChange::LayoutChanged { tab_id: layout.tab_id },
            ],
            EventData::NotificationShown { kind, title, context, workspace_id, pane_id } => seq![
                ReplicaChange::NotificationShown { kind, title, context, workspace_id, pane_id },
            ],
            EventData::PaneOutputChanged { .. } => Seq::empty(),
            _ => seq![ReplicaChange::StructureChanged],
        }
    }
}

} // verus!
