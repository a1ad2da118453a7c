//! The data plane: one connection per terminal, one of them the writer.
//!
//! Every operation that needs the transport is cut into steps. A step names what
//! the transport has to do; the outcome is handed back for the next step.
use crate::idmap::IdMap;
use crate::local_mirror;
use crate::local_mirror::{EmulatorSpec, LocalMirror, MirrorApplyOutcome, MirrorRuntime};
use crate::protocol::{ClientMessage, ServerMessage};
use crate::text;
use crate::text::{holds_text, same_text};
use vstd::prelude::*;

verus! {

/// An error of the client.
#[derive(Clone, Debug, PartialEq, Eq)]
pub enum ClientError {
    /// A connection could not be made.
    ConnectionFailed(String),
    /// A connection broke.
    ConnectionLost(String),
}

/// What came of a data message.
#[derive(Clone, Copy, Debug, PartialEq, Eq, Structural)]
pub enum MirrorApply {
    /// It was applied to the terminal's mirror.
    Applied(MirrorApplyOutcome),
    /// It was no mirror message.
    NotMirror,
    /// The terminal has no mirror.
    Unknown,
}

/// A live connection.
#[derive(Clone, Copy, Debug, PartialEq, Eq, Structural)]
pub struct MirrorConnection {
    /// It was subscribed as the writer.
    pub writable: bool,
}

/// A connection to make.
#[derive(Clone, Debug, PartialEq, Eq)]
pub struct ConnectRequest {
    pub socket_path: String,
    pub terminal_id: String,
    pub cols: u16,
    pub rows: u16,
    pub resume_from: Option<u64>,
    pub writable: bool,
}

/// A message to write to a terminal's connection.
#[derive(Clone, Debug, PartialEq, Eq)]
pub struct Outgoing {
    pub terminal_id: String,
    pub message: ClientMessage,
}

/// An open that waits for its emulator.
#[derive(Debug)]
pub struct AfterEmulator {
    pub terminal_id: String,
    pub writable: bool,
}

/// An open that waits for its connection.
#[derive(Debug)]
pub struct AfterConnect {
    pub terminal_id: String,
    pub writable: bool,
}

/// A handover of the writable bit that waits for a write.
#[derive(Debug)]
pub enum AfterSend {
    /// The terminal was asked to become the writer.
    Promote { terminal_id: String, previous: Option<String> },
    /// The terminal was asked to be the writer no longer.
    Demote { terminal_id: String },
}

/// What an operation needs next.
#[derive(Debug)]
pub enum DataStep {
    /// Nothing: it has ended.
    Done(Result<(), ClientError>),
    /// Build an emulator, then [`MirrorConnectionManager::emulator_built`].
    CreateEmulator { spec: EmulatorSpec, then: AfterEmulator },
    /// Connect, then [`MirrorConnectionManager::connected`].
    Connect { request: ConnectRequest, then: AfterConnect },
    /// Write, then [`MirrorConnectionManager::sent`].
    Send { outgoing: Outgoing, then: AfterSend },
}

/// The state of the data plane.
#[verifier::ext_equal]
pub struct DataPlane {
    pub socket_path: Seq<char>,
    /// Columns and rows for new mirrors.
    pub size: (u16, u16),
    pub scrollback_bytes: usize,
    pub mirrors: Map<Seq<char>, local_mirror::Replay>,
    /// Whether each connection is the writer.
    pub links: Map<Seq<char>, bool>,
    pub focused: Option<Seq<char>>,
}

impl DataPlane {
    /// The number from which a terminal's stream resumes.
    pub open spec fn resume_from(self, id: Seq<char>) -> Option<u64> {
        if self.mirrors.dom().contains(id) {
            self.mirrors[id].last_seq
        } else {
            None
        }
    }

    /// With a mirror that has seen nothing yet.
    pub open spec fn with_mirror(self, id: Seq<char>) -> DataPlane {
        DataPlane {
            mirrors: self.mirrors.insert(
                id,
                local_mirror::Replay::fresh(self.size.0, self.size.1, self.scrollback_bytes),
            ),
            ..self
        }
    }

    /// With a connection made. A writer takes the focus.
    pub open spec fn with_link(self, id: Seq<char>, writable: bool) -> DataPlane {
        DataPlane {
            links: self.links.insert(id, writable),
            focused: if writable {
                Some(id)
            } else {
                self.focused
            },
            ..self
        }
    }

    /// With focus, and no connection changed.
    pub open spec fn with_focus(self, focused: Option<Seq<char>>) -> DataPlane {
        DataPlane { focused, ..self }
    }

    /// With a connection made the writer, or no longer.
    pub open spec fn with_writable(self, id: Seq<char>, writable: bool) -> DataPlane {
        if self.links.dom().contains(id) {
            DataPlane { links: self.links.insert(id, writable), ..self }
        } else {
            self
        }
    }

    /// Without a terminal.
    pub open spec fn without(self, id: Seq<char>) -> DataPlane {
        DataPlane {
            mirrors: self.mirrors.remove(id),
            links: self.links.remove(id),
            focused: if self.focused == Some(id) {
                None
            } else {
                self.focused
            },
            ..self
        }
    }

    /// Without a connection that dropped.
    pub open spec fn without_link(self, id: Seq<char>) -> DataPlane {
        DataPlane { links: self.links.remove(id), ..self }
    }

    /// No connection but the focused terminal's is a writer.
    pub open spec fn single_writer(self) -> bool {
        forall|id: Seq<char>| #[trigger]
            self.links.dom().contains(id) && self.links[id] ==> self.focused == Some(id)
    }

    /// The previous writer has to step down: it is another terminal, still connected.
    pub open spec fn must_demote(
        self,
        previous: Option<Seq<char>>,
        target: Option<Seq<char>>,
    ) -> bool {
        previous matches Some(p) && target != Some(p) && self.links.dom().contains(p)
    }
}

/// The step writes a new subscription for the terminal, resumed where its mirror stands.
pub open spec fn resubscribes(
    step: DataStep,
    plane: DataPlane,
    id: Seq<char>,
    writable: bool,
) -> bool {
    &&& step matches DataStep::Send { outgoing, .. }
    &&& outgoing.terminal_id@ == id
    &&& outgoing.message matches ClientMessage::MirrorTerminal { target, resume_from, writable: w }
    &&& target@ == id
    &&& resume_from == plane.resume_from(id)
    &&& w == writable
}

/// The step ends the operation well.
pub open spec fn done(step: DataStep) -> bool {
    step == DataStep::Done(Ok(()))
}

/// The step asks the previous writer to step down, where it has to.
pub open spec fn demotes(
    step: DataStep,
    plane: DataPlane,
    previous: Option<Seq<char>>,
    target: Option<Seq<char>>,
) -> bool {
    if plane.must_demote(previous, target) {
        &&& resubscribes(step, plane, previous->0, false)
        &&& step matches DataStep::Send { then: AfterSend::Demote { terminal_id }, .. }
        &&& terminal_id@ == previous->0
    } else {
        done(step)
    }
}

/// The step asks the terminal to become the writer and remembers the previous one.
pub open spec fn promotes(
    step: DataStep,
    plane: DataPlane,
    id: Seq<char>,
    previous: Option<Seq<char>>,
) -> bool {
    &&& resubscribes(step, plane, id, true)
    &&& step matches DataStep::Send { then: AfterSend::Promote { terminal_id, previous: p }, .. }
    &&& terminal_id@ == id
    &&& text::opt_text(p) == previous
}

/// The step connects the terminal, resumed where its mirror stands.
pub open spec fn connects(
    step: DataStep,
    plane: DataPlane,
    id: Seq<char>,
    writable: bool,
) -> bool {
    step matches DataStep::Connect { request, then } && request.socket_path@ == plane.socket_path
        && request.terminal_id@ == id && (request.cols, request.rows) == plane.size
        && request.resume_from == plane.resume_from(id) && request.writable == writable
        && then.terminal_id@ == id && then.writable == writable
}

/// The step starts moving focus to `target`; `after` is the state it leaves.
pub open spec fn moves_focus(
    step: DataStep,
    before: DataPlane,
    after: DataPlane,
    target: Option<Seq<char>>,
) -> bool {
    if before.focused == target {
        after == before && done(step)
    } else if target matches Some(id) && before.links.dom().contains(id) {
        after == before.with_focus(None) && promotes(step, before, target->0, before.focused)
    } else {
        after == before.with_focus(target) && demotes(step, after, before.focused, target)
    }
}

/// Applying a message leads from one state to the other with the given result.
/// A snapshot needs its emulator; without one the mirror stays as it is.
pub open spec fn applies(
    before: DataPlane,
    after: DataPlane,
    id: Seq<char>,
    msg: ServerMessage,
    emulator: bool,
    r: MirrorApply,
) -> bool {
    if !before.mirrors.dom().contains(id) {
        after == before && r == MirrorApply::Unknown
    } else {
        match msg {
            ServerMessage::MirrorSnapshot { base_seq, cols, rows } => if emulator {
                after == (DataPlane {
                    mirrors: before.mirrors.insert(
                        id,
                        before.mirrors[id].restarted(base_seq, cols, rows),
                    ),
                    ..before
                }) && r == MirrorApply::Applied(
                    MirrorApplyOutcome { needs_full_redraw: true, closed: false },
                )
            } else {
                after == before && r == MirrorApply::Applied(
                    MirrorApplyOutcome { needs_full_redraw: false, closed: false },
                )
            },
            ServerMessage::MirrorEvent { seq, kind } => after == (DataPlane {
                mirrors: before.mirrors.insert(id, before.mirrors[id].after(seq, kind@)),
                ..before
            }) && r == MirrorApply::Applied(before.mirrors[id].outcome(kind@)),
            _ => after == before && r == MirrorApply::NotMirror,
        }
    }
}

/// The per-terminal connections and the mirrors that they feed.
#[derive(Debug)]
pub struct MirrorConnectionManager {
    socket_path: String,
    size: (u16, u16),
    local_scrollback_bytes: usize,
    runtimes: IdMap<MirrorRuntime>,
    connections: IdMap<MirrorConnection>,
    focused: Option<String>,
}

impl View for MirrorConnectionManager {
    type V = DataPlane;

    closed spec fn view(&self) -> DataPlane {
        DataPlane {
            socket_path: self.socket_path@,
            size: self.size,
            scrollback_bytes: self.local_scrollback_bytes,
            mirrors: self.runtimes@.map_values(|m: MirrorRuntime| m@),
            links: self.connections@.map_values(|c: MirrorConnection| c.writable),
            focused: text::opt_text(self.focused),
        }
    }
}

/// An optional borrowed text.
pub open spec fn opt_str(o: Option<&str>) -> Option<Seq<char>> {
    match o {
        Some(s) => Some(s@),
        None => None,
    }
}

impl MirrorConnectionManager {
    /// The maps are in order.
    pub closed spec fn wf(&self) -> bool {
        self.runtimes.wf() && self.connections.wf()
    }

    /// A manager without terminals.
    pub fn new(
        socket_path: String,
        cols: u16,
        rows: u16,
        local_scrollback_bytes: usize,
    ) -> (r: Self)
        ensures
            r.wf(),
            r@ == (DataPlane {
                socket_path: socket_path@,
                size: local_mirror::clamped((cols, rows)),
                scrollback_bytes: local_scrollback_bytes,
                mirrors: Map::empty(),
                links: Map::empty(),
                focused: None,
            }),
    {
        let spec = LocalMirror::emulator(cols, rows, local_scrollback_bytes);
        let r = MirrorConnectionManager {
            socket_path,
            size: (spec.cols, spec.rows),
            local_scrollback_bytes,
            runtimes: IdMap::new(),
            connections: IdMap::new(),
            focused: None,
        };
        assert(r@.mirrors =~= Map::empty());
        assert(r@.links =~= Map::empty());
        r
    }

    /// Columns and rows for new mirrors.
    pub fn viewport(&self) -> (r: (u16, u16))
        ensures
            r == self@.size,
    {
        self.size
    }

    /// The mirror of a terminal.
    pub fn runtime(&self, terminal_id: &str) -> (r: Option<&MirrorRuntime>)
        requires
            self.wf(),
        ensures
            match r {
                Some(m) => self@.mirrors.dom().contains(terminal_id@) && m@
                    == self@.mirrors[terminal_id@],
                None => !self@.mirrors.dom().contains(terminal_id@),
            },
    {
        self.runtimes.get(terminal_id)
    }

    /// The mirror of a terminal, for changing it.
    pub fn runtime_mut(&mut self, terminal_id: &str) -> (r: Option<&mut MirrorRuntime>)
        requires
            old(self).wf(),
        ensures
            match r {
                Some(m) => {
                    &&& old(self)@.mirrors.dom().contains(terminal_id@)
                    &&& m@ == old(self)@.mirrors[terminal_id@]
                    &&& final(self).wf()
                    &&& final(self)@ == (DataPlane {
                        mirrors: old(self)@.mirrors.insert(terminal_id@, (*final(m))@),
                        ..old(self)@
                    })
                },
                None => !old(self)@.mirrors.dom().contains(terminal_id@) && *final(self) == *old(
                    self,
                ),
            },
    {
        let ghost before = *self;
        match self.runtimes.get_mut(terminal_id) {
            Some(m) => {
                assert(before.runtimes@.insert(terminal_id@, *final(m)).map_values(
                    |m: MirrorRuntime| m@,
                ) =~= before@.mirrors.insert(terminal_id@, (*final(m))@));
                Some(m)
            },
            None => None,
        }
    }

    /// The terminals with a mirror, ascending.
    pub fn terminal_ids(&self) -> (r: Vec<String>)
        requires
            self.wf(),
        ensures
            text::texts(r@) == crate::idmap::id_order(self@.mirrors.dom()),
            crate::idmap::lists(text::texts(r@), self@.mirrors.dom()),
    {
        assert(self@.mirrors.dom() =~= self.runtimes@.dom());
        self.runtimes.keys_listed()
    }

    /// Whether a terminal has a live connection.
    pub fn is_connected(&self, terminal_id: &str) -> (r: bool)
        requires
            self.wf(),
        ensures
            r == self@.links.dom().contains(terminal_id@),
    {
        self.connections.contains_key(terminal_id)
    }

    /// Whether a terminal's connection is the writer.
    pub fn is_writable(&self, terminal_id: &str) -> (r: bool)
        requires
            self.wf(),
        ensures
            r == (self@.links.dom().contains(terminal_id@) && self@.links[terminal_id@]),
    {
        match self.connections.get(terminal_id) {
            Some(connection) => connection.writable,
            None => false,
        }
    }

    /// The focused terminal.
    pub fn focused(&self) -> (r: Option<&str>)
        ensures
            opt_str(r) == self@.focused,
    {
        match &self.focused {
            Some(id) => Some(id.as_str()),
            None => None,
        }
    }

    fn resume_from(&self, terminal_id: &str) -> (r: Option<u64>)
        requires
            self.wf(),
        ensures
            r == self@.resume_from(terminal_id@),
    {
        match self.runtimes.get(terminal_id) {
            Some(runtime) => runtime.last_seq(),
            None => None,
        }
    }

    fn resubscription(&self, terminal_id: &str, writable: bool) -> (r: Outgoing)
        requires
            self.wf(),
        ensures
            r.terminal_id@ == terminal_id@,
            r.message matches ClientMessage::MirrorTerminal { target, resume_from, writable: w }
                && target@ == terminal_id@ && resume_from == self@.resume_from(terminal_id@) && w
                == writable,
    {
        let resume_from = self.resume_from(terminal_id);
        Outgoing {
            terminal_id: terminal_id.to_owned(),
            message: ClientMessage::MirrorTerminal {
                target: terminal_id.to_owned(),
                resume_from,
                writable,
            },
        }
    }

    fn set_writable(&mut self, terminal_id: &str, writable: bool)
        requires
            old(self).wf(),
        ensures
            final(self).wf(),
            final(self)@ == old(self)@.with_writable(terminal_id@, writable),
    {
        let ghost before = *self;
        match self.connections.get_mut(terminal_id) {
            Some(connection) => {
                connection.writable = writable;
            },
            None => {},
        }
        assert(self@.links =~= before@.with_writable(terminal_id@, writable).links);
    }

    /// Asks the previous writer to step down, where it is another terminal that
    /// is still connected.
    fn demote(&self, previous: Option<String>, target: Option<&str>) -> (r: DataStep)
        requires
            self.wf(),
        ensures
            demotes(r, self@, text::opt_text(previous), opt_str(target)),
    {
        match previous {
            Some(previous) => {
                let stays = match target {
                    Some(id) => same_text(id, previous.as_str()),
                    None => false,
                };
                if !stays && self.connections.contains_key(previous.as_str()) {
                    let outgoing = self.resubscription(previous.as_str(), false);
                    DataStep::Send { outgoing, then: AfterSend::Demote { terminal_id: previous } }
                } else {
                    DataStep::Done(Ok(()))
                }
            },
            None => DataStep::Done(Ok(())),
        }
    }

    fn take_focus(&mut self) -> (r: Option<String>)
        requires
            old(self).wf(),
        ensures
            final(self).wf(),
            text::opt_text(r) == old(self)@.focused,
            final(self)@ == old(self)@.with_focus(None),
    {
        let mut r: Option<String> = None;
        std::mem::swap(&mut r, &mut self.focused);
        r
    }

    /// Moves the writable bit to a terminal, or nowhere. The new writer is asked
    /// first, so that no key falls between two readers.
    pub fn set_focus(&mut self, terminal_id: Option<&str>) -> (r: DataStep)
        requires
            old(self).wf(),
        ensures
            final(self).wf(),
            moves_focus(r, old(self)@, final(self)@, opt_str(terminal_id)),
    {
        let unchanged = match terminal_id {
            Some(id) => holds_text(&self.focused, id),
            None => self.focused.is_none(),
        };
        if unchanged {
            return DataStep::Done(Ok(()));
        }
        let ghost before = self@;
        let previous = self.take_focus();
        match terminal_id {
            Some(id) => {
                if self.connections.contains_key(id) {
                    let outgoing = self.resubscription(id, true);
                    DataStep::Send {
                        outgoing,
                        then: AfterSend::Promote { terminal_id: id.to_owned(), previous },
                    }
                } else {
                    self.focused = Some(id.to_owned());
                    assert(self@ =~= before.with_focus(Some(id@)));
                    self.demote(previous, terminal_id)
                }
            },
            None => self.demote(previous, None),
        }
    }

    /// Goes on after a subscription was written, or could not be.
    pub fn sent(&mut self, then: AfterSend, outcome: Result<(), String>) -> (r: DataStep)
        requires
            old(self).wf(),
        ensures
            final(self).wf(),
            match (then, outcome) {
                (_, Err(err)) => final(self)@ == old(self)@ && r == DataStep::Done(
                    Err(ClientError::ConnectionLost(err)),
                ),
                (AfterSend::Promote { terminal_id, previous }, Ok(_)) => final(self)@ == old(
                    self,
                )@.with_writable(terminal_id@, true).with_focus(Some(terminal_id@)) && demotes(
                    r,
                    final(self)@,
                    text::opt_text(previous),
                    Some(terminal_id@),
                ),
                (AfterSend::Demote { terminal_id }, Ok(_)) => final(self)@ == old(
                    self,
                )@.with_writable(terminal_id@, false) && done(r),
            },
    {
        match outcome {
            Err(err) => DataStep::Done(Err(ClientError::ConnectionLost(err))),
            Ok(_) => match then {
                AfterSend::Promote { terminal_id, previous } => {
                    self.set_writable(terminal_id.as_str(), true);
                    let target = terminal_id.clone();
                    self.focused = Some(terminal_id);
                    self.demote(previous, Some(target.as_str()))
                },
                AfterSend::Demote { terminal_id } => {
                    self.set_writable(terminal_id.as_str(), false);
                    DataStep::Done(Ok(()))
                },
            },
        }
    }

    fn connect(&self, terminal_id: String, writable: bool) -> (r: DataStep)
        requires
            self.wf(),
        ensures
            connects(r, self@, terminal_id@, writable),
    {
        let resume_from = self.resume_from(terminal_id.as_str());
        DataStep::Connect {
            request: ConnectRequest {
                socket_path: self.socket_path.clone(),
                terminal_id: terminal_id.clone(),
                cols: self.size.0,
                rows: self.size.1,
                resume_from,
                writable,
            },
            then: AfterConnect { terminal_id, writable },
        }
    }

    /// Opens a terminal's connection. A terminal that is connected only takes the
    /// focus where it is to write; one with a mirror resumes; any other gets a
    /// mirror first.
    pub fn open(&mut self, terminal_id: &str, writable: bool) -> (r: DataStep)
        requires
            old(self).wf(),
        ensures
            final(self).wf(),
            ({
                let id = terminal_id@;
                let before = old(self)@;
                let after = final(self)@;
                if before.links.dom().contains(id) {
                    if writable {
                        moves_focus(r, before, after, Some(id))
                    } else {
                        after == before && done(r)
                    }
                } else if before.mirrors.dom().contains(id) {
                    after == before && connects(r, before, id, writable)
                } else {
                    &&& after == before
                    &&& r matches DataStep::CreateEmulator { spec, then }
                    &&& spec == (EmulatorSpec {
                        cols: local_mirror::at_least_one(before.size.0),
                        rows: local_mirror::at_least_one(before.size.1),
                        scrollback_bytes: before.scrollback_bytes,
                    })
                    &&& then.terminal_id@ == id
                    &&& then.writable == writable
                }
            }),
    {
        if self.connections.contains_key(terminal_id) {
            if writable {
                return self.set_focus(Some(terminal_id));
            }
            return DataStep::Done(Ok(()));
        }
        if self.runtimes.contains_key(terminal_id) {
            return self.connect(terminal_id.to_owned(), writable);
        }
        DataStep::CreateEmulator {
            spec: LocalMirror::emulator(self.size.0, self.size.1, self.local_scrollback_bytes),
            then: AfterEmulator { terminal_id: terminal_id.to_owned(), writable },
        }
    }

    /// Goes on with an open after its emulator was built, or could not be.
    pub fn emulator_built(&mut self, then: AfterEmulator, outcome: Result<(), String>) -> (r:
        DataStep)
        requires
            old(self).wf(),
        ensures
            final(self).wf(),
            match outcome {
                Ok(_) => final(self)@ == old(self)@.with_mirror(then.terminal_id@) && connects(
                    r,
                    final(self)@,
                    then.terminal_id@,
                    then.writable,
                ),
                Err(err) => final(self)@ == old(self)@ && r == DataStep::Done(
                    Err(ClientError::ConnectionFailed(err)),
                ),
            },
    {
        let ghost before = *self;
        let built = MirrorRuntime::with_scrollback(
            self.size.0,
            self.size.1,
            self.local_scrollback_bytes,
            outcome,
        );
        match built {
            Ok(runtime) => {
                self.runtimes.insert(then.terminal_id.clone(), runtime);
                assert(self@.mirrors =~= before@.with_mirror(then.terminal_id@).mirrors);
                self.connect(then.terminal_id, then.writable)
            },
            Err(err) => DataStep::Done(Err(ClientError::ConnectionFailed(err))),
        }
    }

    /// Goes on with an open after its connection was made, or could not be. A new
    /// writer takes the focus and the previous one is asked to step down.
    pub fn connected(&mut self, then: AfterConnect, outcome: Result<(), ClientError>) -> (r:
        DataStep)
        requires
            old(self).wf(),
        ensures
            final(self).wf(),
            match outcome {
                Ok(_) => final(self)@ == old(self)@.with_link(then.terminal_id@, then.writable) && (
                if then.writable {
                    demotes(r, final(self)@, old(self)@.focused, Some(then.terminal_id@))
                } else {
                    done(r)
                }),
                Err(err) => final(self)@ == old(self)@ && r == DataStep::Done(Err(err)),
            },
    {
        match outcome {
            Err(err) => DataStep::Done(Err(err)),
            Ok(_) => {
                let ghost before = *self;
                self.connections.insert(
                    then.terminal_id.clone(),
                    MirrorConnection { writable: then.writable },
                );
                assert(self@.links =~= before@.with_link(then.terminal_id@, then.writable).links);
                if then.writable {
                    let previous = self.take_focus();
                    self.focused = Some(then.terminal_id.clone());
                    assert(self@ =~= before@.with_link(then.terminal_id@, then.writable));
                    self.demote(previous, Some(then.terminal_id.as_str()))
                } else {
                    DataStep::Done(Ok(()))
                }
            },
        }
    }

    /// The terminals to open in turn, the focused one as the writer.
    pub fn open_all(terminal_ids: &Vec<String>, focused: Option<&str>) -> (r: Vec<(String, bool)>)
        ensures
            r@ == terminal_ids@.map_values(|s: String| (s, opt_str(focused) == Some(s@))),
    {
        let mut r: Vec<(String, bool)> = Vec::new();
        let mut i: usize = 0;
        while i < terminal_ids.len()
            invariant
                i <= terminal_ids@.len(),
                r@ == terminal_ids@.take(i as int).map_values(
                    |s: String| (s, opt_str(focused) == Some(s@)),
                ),
            decreases terminal_ids@.len() - i,
        {
            let writable = match focused {
                Some(id) => same_text(id, terminal_ids[i].as_str()),
                None => false,
            };
            r.push((terminal_ids[i].clone(), writable));
            assert(r@ =~= terminal_ids@.take(i + 1).map_values(
                |s: String| (s, opt_str(focused) == Some(s@)),
            ));
            i = i + 1;
        }
        assert(terminal_ids@.take(terminal_ids@.len() as int) =~= terminal_ids@);
        r
    }

    /// Forgets a terminal. Returns what to tell its connection, if it has one.
    pub fn close(&mut self, terminal_id: &str) -> (r: Option<ClientMessage>)
        requires
            old(self).wf(),
        ensures
            final(self).wf(),
            final(self)@ == old(self)@.without(terminal_id@),
            r == (if old(self)@.links.dom().contains(terminal_id@) {
                Some(ClientMessage::Detach)
            } else {
                None
            }),
    {
        let ghost before = *self;
        self.runtimes.remove(terminal_id);
        let connection = self.connections.remove(terminal_id);
        if holds_text(&self.focused, terminal_id) {
            self.focused = None;
        }
        assert(self@.mirrors =~= before@.mirrors.remove(terminal_id@));
        assert(self@.links =~= before@.links.remove(terminal_id@));
        match connection {
            Some(_) => Some(ClientMessage::Detach),
            None => None,
        }
    }

    /// The emulator to build before a message is applied, if it needs one.
    pub fn emulator_for(&self, terminal_id: &str, msg: &ServerMessage) -> (r: Option<EmulatorSpec>)
        requires
            self.wf(),
        ensures
            match *msg {
                ServerMessage::MirrorSnapshot { cols, rows, .. } => if self@.mirrors.dom().contains(
                    terminal_id@,
                ) {
                    r == Some(
                        EmulatorSpec {
                            cols: local_mirror::at_least_one(cols),
                            rows: local_mirror::at_least_one(rows),
                            scrollback_bytes: self@.mirrors[terminal_id@].scrollback_bytes,
                        },
                    )
                } else {
                    r is None
                },
                _ => r is None,
            },
    {
        match msg {
            ServerMessage::MirrorSnapshot { cols, rows, .. } => match self.runtimes.get(
                terminal_id,
            ) {
                Some(runtime) => Some(
                    LocalMirror::emulator(*cols, *rows, runtime.scrollback_bytes()),
                ),
                None => None,
            },
            _ => None,
        }
    }

    /// Routes a data message to its terminal's mirror. `emulator` tells how the
    /// building of the emulator ended that a snapshot asks for; a snapshot
    /// without one leaves the mirror as it is.
    pub fn apply(
        &mut self,
        terminal_id: &str,
        msg: ServerMessage,
        emulator: Result<(), String>,
    ) -> (r: MirrorApply)
        requires
            old(self).wf(),
        ensures
            final(self).wf(),
            applies(old(self)@, final(self)@, terminal_id@, msg, emulator is Ok, r),
    {
        let ghost before = self@;
        let r = match self.runtime_mut(terminal_id) {
            Some(runtime) => match msg {
                ServerMessage::MirrorSnapshot { base_seq, cols, rows } => {
                    match runtime.apply_snapshot(base_seq, cols, rows, emulator) {
                        Ok(outcome) => MirrorApply::Applied(outcome),
                        Err(_) => MirrorApply::Applied(MirrorApplyOutcome::default()),
                    }
                },
                ServerMessage::MirrorEvent { seq, kind } => MirrorApply::Applied(
                    runtime.apply_event(seq, kind),
                ),
                ServerMessage::ReloadSoundConfig => MirrorApply::NotMirror,
            },
            None => MirrorApply::Unknown,
        };
        proof {
            if before.mirrors.dom().contains(terminal_id@) {
                assert(before.mirrors.insert(terminal_id@, before.mirrors[terminal_id@])
                    =~= before.mirrors);
            }
        }
        r
    }

    /// Reconnects a terminal whose connection dropped, resuming its stream.
    /// `None` where the terminal is no longer tracked.
    pub fn reconnect(&mut self, terminal_id: &str) -> (r: Option<DataStep>)
        requires
            old(self).wf(),
        ensures
            final(self).wf(),
            final(self)@ == old(self)@.without_link(terminal_id@),
            match r {
                Some(step) => old(self)@.mirrors.dom().contains(terminal_id@) && connects(
                    step,
                    final(self)@,
                    terminal_id@,
                    old(self)@.focused == Some(terminal_id@),
                ),
                None => !old(self)@.mirrors.dom().contains(terminal_id@),
            },
    {
        let ghost before = *self;
        self.connections.remove(terminal_id);
        assert(self@.links =~= before@.links.remove(terminal_id@));
        if !self.runtimes.contains_key(terminal_id) {
            return None;
        }
        let writable = holds_text(&self.focused, terminal_id);
        Some(self.open(terminal_id, writable))
    }

    /// Addresses input to the focused terminal. `None` where no writer takes it.
    pub fn forward_input(&self, data: Vec<u8>) -> (r: Option<Outgoing>)
        requires
            self.wf(),
        ensures
            match self@.focused {
                Some(id) => addresses(r, self@, id, ClientMessage::Input { data }),
                None => r is None,
            },
    {
        match &self.focused {
            Some(id) => self.forward_input_to(id.as_str(), data),
            None => None,
        }
    }

    /// Addresses input to a terminal. `None` where its connection is no writer.
    pub fn forward_input_to(&self, terminal_id: &str, data: Vec<u8>) -> (r: Option<Outgoing>)
        requires
            self.wf(),
        ensures
            addresses(r, self@, terminal_id@, ClientMessage::Input { data }),
    {
        if self.is_writable(terminal_id) {
            Some(
                Outgoing {
                    terminal_id: terminal_id.to_owned(),
                    message: ClientMessage::Input { data },
                },
            )
        } else {
            None
        }
    }

    /// Records the viewport for mirrors that are opened later.
    pub fn set_viewport(&mut self, cols: u16, rows: u16)
        requires
            old(self).wf(),
        ensures
            final(self).wf(),
            final(self)@ == (DataPlane {
                size: local_mirror::clamped((cols, rows)),
                ..old(self)@
            }),
    {
        let spec = LocalMirror::emulator(cols, rows, self.local_scrollback_bytes);
        self.size = (spec.cols, spec.rows);
    }

    /// Addresses a size to the focused terminal. `None` where no writer takes it.
    pub fn forward_resize(&self, cols: u16, rows: u16) -> (r: Option<Outgoing>)
        requires
            self.wf(),
        ensures
            match self@.focused {
                Some(id) => addresses(
                    r,
                    self@,
                    id,
                    ClientMessage::Resize {
                        cols: local_mirror::at_least_one(cols),
                        rows: local_mirror::at_least_one(rows),
                        cell_width_px: 0,
                        cell_height_px: 0,
                    },
                ),
                None => r is None,
            },
    {
        let spec = LocalMirror::emulator(cols, rows, self.local_scrollback_bytes);
        match &self.focused {
            Some(id) => {
                if self.is_writable(id.as_str()) {
                    Some(
                        Outgoing {
                            terminal_id: id.clone(),
                            message: ClientMessage::Resize {
                                cols: spec.cols,
                                rows: spec.rows,
                                cell_width_px: 0,
                                cell_height_px: 0,
                            },
                        },
                    )
                } else {
                    None
                }
            },
            None => None,
        }
    }
}

/// The message goes to the terminal where its connection is the writer, and nowhere else.
pub open spec fn addresses(
    r: Option<Outgoing>,
    plane: DataPlane,
    id: Seq<char>,
    message: ClientMessage,
) -> bool {
    match r {
        Some(outgoing) => plane.links.dom().contains(id) && plane.links[id]
            && outgoing.terminal_id@ == id && outgoing.message == message,
        None => !(plane.links.dom().contains(id) && plane.links[id]),
    }
}

} // verus!
