//! The local copy of one terminal.
//!
//! A mirror keeps the size and the position in the stream, and the inputs that
//! its emulator still has to take. The emulator itself stands outside: it is
//! built where a mirror asks for one, and takes the inputs in their order.
use crate::output_log;
use crate::pane::{MouseEventKind, TerminalCursorState, WheelRouting};
use crate::protocol;
use crate::protocol::MirrorEventKind;
use crate::schema::ScrollMetrics;
use vstd::prelude::*;

verus! {

/// What a caller does after a message was applied.
#[derive(Clone, Copy, Debug, PartialEq, Eq, Structural)]
pub struct MirrorApplyOutcome {
    /// The emulator was reset or resized.
    pub needs_full_redraw: bool,
    /// The source terminal ended.
    pub closed: bool,
}

impl Default for MirrorApplyOutcome {
    fn default() -> (r: Self)
        ensures
            !r.needs_full_redraw,
            !r.closed,
    {
        MirrorApplyOutcome { needs_full_redraw: false, closed: false }
    }
}

/// An emulator to build.
#[derive(Clone, Copy, Debug, PartialEq, Eq, Structural)]
pub struct EmulatorSpec {
    pub cols: u16,
    pub rows: u16,
    pub scrollback_bytes: usize,
}

/// An input of an emulator.
#[derive(Clone, Debug, PartialEq, Eq)]
pub enum EmulatorOp {
    /// Raw terminal output. What the emulator would answer is discarded.
    Feed(Vec<u8>),
    Resize { cols: u16, rows: u16 },
    ScrollUp(usize),
    ScrollDown(usize),
    /// Back to the live edge.
    ScrollReset,
    /// So many lines above the live edge.
    ScrollTo(usize),
}

/// An input of an emulator, as a mathematical value.
pub enum EmulatorInput {
    Feed(Seq<u8>),
    Resize { cols: u16, rows: u16 },
    ScrollUp(usize),
    ScrollDown(usize),
    ScrollReset,
    ScrollTo(usize),
}

impl View for EmulatorOp {
    type V = EmulatorInput;

    open spec fn view(&self) -> EmulatorInput {
        match *self {
            EmulatorOp::Feed(bytes) => EmulatorInput::Feed(bytes@),
            EmulatorOp::Resize { cols, rows } => EmulatorInput::Resize { cols, rows },
            EmulatorOp::ScrollUp(lines) => EmulatorInput::ScrollUp(lines),
            EmulatorOp::ScrollDown(lines) => EmulatorInput::ScrollDown(lines),
            EmulatorOp::ScrollReset => EmulatorInput::ScrollReset,
            EmulatorOp::ScrollTo(lines) => EmulatorInput::ScrollTo(lines),
        }
    }
}

/// The inputs of a list.
pub open spec fn inputs(ops: Seq<EmulatorOp>) -> Seq<EmulatorInput> {
    ops.map_values(|op: EmulatorOp| op@)
}

/// A length of at least one cell.
pub open spec fn at_least_one(n: u16) -> u16 {
    if n == 0 {
        1
    } else {
        n
    }
}

/// A size of at least one cell each way.
pub open spec fn clamped(size: (u16, u16)) -> (u16, u16) {
    (at_least_one(size.0), at_least_one(size.1))
}

fn one_or_more(n: u16) -> (r: u16)
    ensures
        r == at_least_one(n),
{
    if n < 1 {
        1
    } else {
        n
    }
}

/// The highest number once `seq` was applied.
pub open spec fn highest(sofar: Option<u64>, seq: u64) -> u64 {
    match sofar {
        Some(n) => if seq < n {
            n
        } else {
            seq
        },
        None => seq,
    }
}

/// The state of a mirror.
#[verifier::ext_equal]
pub struct Replay {
    /// Columns and rows of the source.
    pub size: (u16, u16),
    pub scrollback_bytes: usize,
    /// The highest number applied, `None` before the first message.
    pub last_seq: Option<u64>,
    /// What the emulator still has to take.
    pub pending: Seq<EmulatorInput>,
}

impl Replay {
    /// Before the first message.
    pub open spec fn fresh(cols: u16, rows: u16, scrollback_bytes: usize) -> Replay {
        Replay {
            size: clamped((cols, rows)),
            scrollback_bytes,
            last_seq: None,
            pending: Seq::empty(),
        }
    }

    /// Restarted by a snapshot. The scrollback budget stays.
    pub open spec fn restarted(self, base_seq: u64, cols: u16, rows: u16) -> Replay {
        Replay {
            last_seq: Some(base_seq),
            ..Replay::fresh(cols, rows, self.scrollback_bytes)
        }
    }

    /// After an event.
    pub open spec fn after(self, seq: u64, e: protocol::StreamEvent) -> Replay {
        let size = match e {
            protocol::StreamEvent::Resize { cols, rows } => clamped((cols, rows)),
            _ => self.size,
        };
        let more = match e {
            protocol::StreamEvent::Output(bytes) => seq![EmulatorInput::Feed(bytes)],
            protocol::StreamEvent::Resize { .. } => if size != self.size {
                seq![EmulatorInput::Resize { cols: size.0, rows: size.1 }]
            } else {
                Seq::empty()
            },
            protocol::StreamEvent::Closed { .. } => Seq::empty(),
        };
        Replay {
            size,
            last_seq: Some(highest(self.last_seq, seq)),
            pending: self.pending + more,
            ..self
        }
    }

    /// What an event asks of the caller.
    pub open spec fn outcome(self, e: protocol::StreamEvent) -> MirrorApplyOutcome {
        MirrorApplyOutcome {
            needs_full_redraw: (e matches protocol::StreamEvent::Resize { cols, rows } && clamped(
                (cols, rows),
            ) != self.size),
            closed: e is Closed,
        }
    }

    /// After a run of numbered events.
    pub open spec fn after_all(self, events: Seq<(u64, protocol::StreamEvent)>) -> Replay
        decreases events.len(),
    {
        if events.len() == 0 {
            self
        } else {
            self.after_all(events.drop_last()).after(events.last().0, events.last().1)
        }
    }

    /// With one more input for the emulator.
    pub open spec fn with_input(self, input: EmulatorInput) -> Replay {
        Replay { pending: self.pending.push(input), ..self }
    }
}

/// A local terminal driven by a mirror stream.
#[derive(Debug)]
pub struct LocalMirror {
    cols: u16,
    rows: u16,
    scrollback_bytes: usize,
    last_seq: Option<u64>,
    pending: Vec<EmulatorOp>,
}

impl View for LocalMirror {
    type V = Replay;

    closed spec fn view(&self) -> Replay {
        Replay {
            size: (self.cols, self.rows),
            scrollback_bytes: self.scrollback_bytes,
            last_seq: self.last_seq,
            pending: inputs(self.pending@),
        }
    }
}

impl LocalMirror {
    /// The emulator that a mirror of this size needs.
    pub fn emulator(cols: u16, rows: u16, scrollback_bytes: usize) -> (r: EmulatorSpec)
        ensures
            r == (EmulatorSpec {
                cols: at_least_one(cols),
                rows: at_least_one(rows),
                scrollback_bytes,
            }),
    {
        EmulatorSpec { cols: one_or_more(cols), rows: one_or_more(rows), scrollback_bytes }
    }

    /// A mirror, given how the building of its emulator ended.
    pub fn with_scrollback(
        cols: u16,
        rows: u16,
        scrollback_bytes: usize,
        emulator: Result<(), String>,
    ) -> (r: Result<Self, String>)
        ensures
            match emulator {
                Ok(_) => r matches Ok(mirror) && mirror@ == Replay::fresh(
                    cols,
                    rows,
                    scrollback_bytes,
                ),
                Err(err) => r == Err::<Self, String>(err),
            },
    {
        match emulator {
            Ok(_) => {
                let mirror = LocalMirror {
                    cols: one_or_more(cols),
                    rows: one_or_more(rows),
                    scrollback_bytes,
                    last_seq: None,
                    pending: Vec::new(),
                };
                assert(mirror@.pending =~= Seq::empty());
                Ok(mirror)
            },
            Err(err) => Err(err),
        }
    }

    /// Columns and rows of the source.
    pub fn size(&self) -> (r: (u16, u16))
        ensures
            r == self@.size,
    {
        (self.cols, self.rows)
    }

    /// The local scrollback budget in bytes.
    pub fn scrollback_bytes(&self) -> (r: usize)
        ensures
            r == self@.scrollback_bytes,
    {
        self.scrollback_bytes
    }

    /// The highest number applied, from which a reader resumes.
    pub fn last_seq(&self) -> (r: Option<u64>)
        ensures
            r == self@.last_seq,
    {
        self.last_seq
    }

    /// Restarts from a snapshot, given how the building of the fresh emulator
    /// ended. Where it failed nothing changes.
    pub fn apply_snapshot(
        &mut self,
        base_seq: u64,
        cols: u16,
        rows: u16,
        emulator: Result<(), String>,
    ) -> (r: Result<MirrorApplyOutcome, String>)
        ensures
            match emulator {
                Ok(_) => final(self)@ == old(self)@.restarted(base_seq, cols, rows) && r == Ok::<
                    _,
                    String,
                >(MirrorApplyOutcome { needs_full_redraw: true, closed: false }),
                Err(err) => final(self)@ == old(self)@ && r == Err::<MirrorApplyOutcome, String>(
                    err,
                ),
            },
    {
        match Self::with_scrollback(cols, rows, self.scrollback_bytes, emulator) {
            Ok(mirror) => {
                *self = mirror;
                self.last_seq = Some(base_seq);
                Ok(MirrorApplyOutcome { needs_full_redraw: true, closed: false })
            },
            Err(err) => Err(err),
        }
    }

    /// Applies an event of the stream.
    pub fn apply_event(&mut self, seq: u64, kind: MirrorEventKind) -> (r: MirrorApplyOutcome)
        ensures
            final(self)@ == old(self)@.after(seq, kind@),
            r == old(self)@.outcome(kind@),
    {
        let ghost before = *self;
        let newest: u64 = match self.last_seq {
            Some(n) => if seq < n {
                n
            } else {
                seq
            },
            None => seq,
        };
        self.last_seq = Some(newest);
        match kind {
            MirrorEventKind::Output(bytes) => {
                self.pending.push(EmulatorOp::Feed(bytes));
                assert(inputs(self.pending@) =~= inputs(before.pending@) + seq![
                    EmulatorInput::Feed(bytes@),
                ]);
                MirrorApplyOutcome { needs_full_redraw: false, closed: false }
            },
            MirrorEventKind::Resize { cols, rows } => {
                let cols: u16 = one_or_more(cols);
                let rows: u16 = one_or_more(rows);
                if cols != self.cols || rows != self.rows {
                    self.cols = cols;
                    self.rows = rows;
                    self.pending.push(EmulatorOp::Resize { cols, rows });
                    assert(inputs(self.pending@) =~= inputs(before.pending@) + seq![
                        EmulatorInput::Resize { cols, rows },
                    ]);
                    MirrorApplyOutcome { needs_full_redraw: true, closed: false }
                } else {
                    assert(inputs(self.pending@) =~= inputs(before.pending@) + Seq::empty());
                    MirrorApplyOutcome { needs_full_redraw: false, closed: false }
                }
            },
            MirrorEventKind::Closed { .. } => {
                assert(inputs(self.pending@) =~= inputs(before.pending@) + Seq::empty());
                MirrorApplyOutcome { needs_full_redraw: false, closed: true }
            },
        }
    }

    fn push(&mut self, op: EmulatorOp)
        ensures
            final(self)@ == old(self)@.with_input(op@),
    {
        let ghost before = *self;
        self.pending.push(op);
        assert(inputs(self.pending@) =~= inputs(before.pending@).push(op@));
    }

    /// Scrolls the local viewport back.
    pub fn scroll_up(&mut self, lines: usize)
        ensures
            final(self)@ == old(self)@.with_input(EmulatorInput::ScrollUp(lines)),
    {
        self.push(EmulatorOp::ScrollUp(lines));
    }

    /// Scrolls the local viewport toward the live edge.
    pub fn scroll_down(&mut self, lines: usize)
        ensures
            final(self)@ == old(self)@.with_input(EmulatorInput::ScrollDown(lines)),
    {
        self.push(EmulatorOp::ScrollDown(lines));
    }

    /// Returns the local viewport to the live edge.
    pub fn scroll_to_bottom(&mut self)
        ensures
            final(self)@ == old(self)@.with_input(EmulatorInput::ScrollReset),
    {
        self.push(EmulatorOp::ScrollReset);
    }

    /// Places the local viewport so many lines above the live edge.
    pub fn set_scroll_offset_from_bottom(&mut self, lines: usize)
        ensures
            final(self)@ == old(self)@.with_input(EmulatorInput::ScrollTo(lines)),
    {
        self.push(EmulatorOp::ScrollTo(lines));
    }

    /// Hands over what the emulator still has to take.
    pub fn take_pending(&mut self) -> (r: Vec<EmulatorOp>)
        ensures
            inputs(r@) == old(self)@.pending,
            final(self)@ == (Replay { pending: Seq::empty(), ..old(self)@ }),
    {
        let r = crate::lists::taken(&mut self.pending);
        assert(inputs(self.pending@) =~= Seq::empty());
        r
    }

    /// Whether the viewport that the emulator reports is scrolled back.
    pub fn is_scrolled_back(metrics: Option<ScrollMetrics>) -> (r: bool)
        ensures
            r == scrolled_back(metrics),
    {
        match metrics {
            Some(metrics) => metrics.offset_from_bottom > 0,
            None => false,
        }
    }

    /// The cursor to show of the one that the emulator reports: hidden where the
    /// caller wants none or the viewport is scrolled back.
    pub fn cursor_state(
        reported: Option<TerminalCursorState>,
        metrics: Option<ScrollMetrics>,
        show_cursor: bool,
    ) -> (r: Option<TerminalCursorState>)
        ensures
            match reported {
                Some(cursor) => r == Some(
                    TerminalCursorState {
                        visible: cursor.visible && show_cursor && !scrolled_back(metrics),
                        ..cursor
                    },
                ),
                None => r is None,
            },
    {
        match reported {
            Some(cursor) => {
                let mut cursor = cursor;
                if !show_cursor || Self::is_scrolled_back(metrics) {
                    cursor.visible = false;
                }
                Some(cursor)
            },
            None => None,
        }
    }

    /// The cursor key that stands for a wheel turn, where the terminal takes the
    /// wheel as cursor keys.
    pub fn alternate_scroll_key(
        routing: Option<WheelRouting>,
        kind: MouseEventKind,
    ) -> (r: Option<CursorKey>)
        ensures
            r == (if routing != Some(WheelRouting::AlternateScroll) {
                None
            } else if kind == MouseEventKind::ScrollUp {
                Some(CursorKey::Up)
            } else if kind == MouseEventKind::ScrollDown {
                Some(CursorKey::Down)
            } else {
                None
            }),
    {
        match routing {
            Some(WheelRouting::AlternateScroll) => match kind {
                MouseEventKind::ScrollUp => Some(CursorKey::Up),
                MouseEventKind::ScrollDown => Some(CursorKey::Down),
                _ => None,
            },
            _ => None,
        }
    }
}

/// A mirror as the renderer and the data plane share it.
#[derive(Debug)]
pub struct MirrorRuntime {
    inner: LocalMirror,
}

impl View for MirrorRuntime {
    type V = Replay;

    closed spec fn view(&self) -> Replay {
        self.inner@
    }
}

impl MirrorRuntime {
    /// A mirror, given how the building of its emulator ended.
    pub fn with_scrollback(
        cols: u16,
        rows: u16,
        scrollback_bytes: usize,
        emulator: Result<(), String>,
    ) -> (r: Result<Self, String>)
        ensures
            match emulator {
                Ok(_) => r matches Ok(mirror) && mirror@ == Replay::fresh(
                    cols,
                    rows,
                    scrollback_bytes,
                ),
                Err(err) => r == Err::<Self, String>(err),
            },
    {
        match LocalMirror::with_scrollback(cols, rows, scrollback_bytes, emulator) {
            Ok(inner) => Ok(MirrorRuntime { inner }),
            Err(err) => Err(err),
        }
    }

    /// Shares an existing mirror.
    pub fn from_local_mirror(mirror: LocalMirror) -> (r: Self)
        ensures
            r@ == mirror@,
    {
        MirrorRuntime { inner: mirror }
    }

    /// Restarts from a snapshot, given how the building of the fresh emulator ended.
    pub fn apply_snapshot(
        &mut self,
        base_seq: u64,
        cols: u16,
        rows: u16,
        emulator: Result<(), String>,
    ) -> (r: Result<MirrorApplyOutcome, String>)
        ensures
            match emulator {
                Ok(_) => final(self)@ == old(self)@.restarted(base_seq, cols, rows) && r == Ok::<
                    _,
                    String,
                >(MirrorApplyOutcome { needs_full_redraw: true, closed: false }),
                Err(err) => final(self)@ == old(self)@ && r == Err::<MirrorApplyOutcome, String>(
                    err,
                ),
            },
    {
        self.inner.apply_snapshot(base_seq, cols, rows, emulator)
    }

    /// Applies an event of the stream.
    pub fn apply_event(&mut self, seq: u64, kind: MirrorEventKind) -> (r: MirrorApplyOutcome)
        ensures
            final(self)@ == old(self)@.after(seq, kind@),
            r == old(self)@.outcome(kind@),
    {
        self.inner.apply_event(seq, kind)
    }

    /// The highest number applied, from which a reader resumes.
    pub fn last_seq(&self) -> (r: Option<u64>)
        ensures
            r == self@.last_seq,
    {
        self.inner.last_seq()
    }

    /// The scrollback budget in bytes.
    pub fn scrollback_bytes(&self) -> (r: usize)
        ensures
            r == self@.scrollback_bytes,
    {
        self.inner.scrollback_bytes()
    }

    /// Rows and columns, in this order.
    pub fn current_size(&self) -> (r: (u16, u16))
        ensures
            r == (self@.size.1, self@.size.0),
    {
        let size = self.inner.size();
        (size.1, size.0)
    }

    /// Scrolls the local viewport back.
    pub fn scroll_up(&mut self, lines: usize)
        ensures
            final(self)@ == old(self)@.with_input(EmulatorInput::ScrollUp(lines)),
    {
        self.inner.scroll_up(lines);
    }

    /// Scrolls the local viewport toward the live edge.
    pub fn scroll_down(&mut self, lines: usize)
        ensures
            final(self)@ == old(self)@.with_input(EmulatorInput::ScrollDown(lines)),
    {
        self.inner.scroll_down(lines);
    }

    /// Returns the local viewport to the live edge.
    pub fn scroll_reset(&mut self)
        ensures
            final(self)@ == old(self)@.with_input(EmulatorInput::ScrollReset),
    {
        self.inner.scroll_to_bottom();
    }

    /// Places the local viewport so many lines above the live edge.
    pub fn set_scroll_offset_from_bottom(&mut self, lines: usize)
        ensures
            final(self)@ == old(self)@.with_input(EmulatorInput::ScrollTo(lines)),
    {
        self.inner.set_scroll_offset_from_bottom(lines);
    }

    /// Hands over what the emulator still has to take.
    pub fn take_pending(&mut self) -> (r: Vec<EmulatorOp>)
        ensures
            inputs(r@) == old(self)@.pending,
            final(self)@ == (Replay { pending: Seq::empty(), ..old(self)@ }),
    {
        self.inner.take_pending()
    }
}

/// A cursor key.
#[derive(Clone, Copy, Debug, PartialEq, Eq, Structural)]
pub enum CursorKey {
    Up,
    Down,
}

/// The viewport is scrolled back from the live edge.
pub open spec fn scrolled_back(metrics: Option<ScrollMetrics>) -> bool {
    metrics matches Some(m) && m.offset_from_bottom > 0
}

/// The bytes that a run of inputs feeds to the emulator.
pub open spec fn fed(inputs: Seq<EmulatorInput>) -> Seq<u8>
    decreases inputs.len(),
{
    if inputs.len() == 0 {
        Seq::empty()
    } else {
        fed(inputs.drop_last()) + match inputs.last() {
            EmulatorInput::Feed(bytes) => bytes,
            _ => Seq::empty(),
        }
    }
}

/// The bytes that a run of events carries.
pub open spec fn output_bytes(events: Seq<protocol::StreamEvent>) -> Seq<u8>
    decreases events.len(),
{
    if events.len() == 0 {
        Seq::empty()
    } else {
        output_bytes(events.drop_last()) + match events.last() {
            protocol::StreamEvent::Output(bytes) => bytes,
            _ => Seq::empty(),
        }
    }
}

/// The events of a numbered run.
pub open spec fn unnumbered(events: Seq<(u64, protocol::StreamEvent)>) -> Seq<
    protocol::StreamEvent,
> {
    events.map_values(|e: (u64, protocol::StreamEvent)| e.1)
}

/// `n` is the highest of the numbers of a run and the number before it.
pub open spec fn is_highest(
    n: u64,
    sofar: Option<u64>,
    events: Seq<(u64, protocol::StreamEvent)>,
) -> bool {
    &&& sofar matches Some(s) ==> s <= n
    &&& forall|i: int| 0 <= i < events.len() ==> (#[trigger] events[i]).0 <= n
    &&& sofar == Some(n) || exists|i: int| 0 <= i < events.len() && (#[trigger] events[i]).0 == n
}

/// A mirror that replays a run feeds its emulator the run's output, byte for
/// byte in order, and ends at the run's size and at its highest number.
pub proof fn replay_reproduces_the_run(m: Replay, events: Seq<(u64, protocol::StreamEvent)>)
    ensures
        fed(m.after_all(events).pending) == fed(m.pending) + output_bytes(unnumbered(events)),
        m.after_all(events).size == (if exists|i: int|
            0 <= i < events.len() && (#[trigger] events[i]).1 is Resize {
            clamped(output_log::size_after(m.size, unnumbered(events)))
        } else {
            m.size
        }),
        events.len() > 0 ==> (m.after_all(events).last_seq matches Some(n) && is_highest(
            n,
            m.last_seq,
            events,
        )),
        events.len() == 0 ==> m.after_all(events) == m,
        m.after_all(events).scrollback_bytes == m.scrollback_bytes,
    decreases events.len(),
{
    if events.len() == 0 {
        assert(unnumbered(events) =~= Seq::empty());
        assert(fed(m.pending) + Seq::<u8>::empty() =~= fed(m.pending));
    } else {
        let head = events.drop_last();
        let (seq, e) = events.last();
        replay_reproduces_the_run(m, head);
        assert(unnumbered(events).drop_last() =~= unnumbered(head));
        let n = m.after_all(head);
        let pending = n.after(seq, e).pending;
        let top = highest(n.last_seq, seq);
        assert(is_highest(top, m.last_seq, events)) by {
            assert(events[events.len() - 1].0 == seq);
            assert forall|i: int| 0 <= i < events.len() implies (#[trigger] events[i]).0
                <= top by {
                if i < head.len() {
                    assert(head[i] == events[i]);
                }
            }
            if top != seq && m.last_seq != Some(top) {
                let i = choose|i: int| 0 <= i < head.len() && (#[trigger] head[i]).0 == top;
                assert(events[i].0 == top);
            }
        }
        match e {
            protocol::StreamEvent::Output(bytes) => {
                assert(pending.drop_last() =~= n.pending);
                assert(fed(m.pending) + output_bytes(unnumbered(head)) + bytes =~= fed(m.pending)
                    + (output_bytes(unnumbered(head)) + bytes));
            },
            protocol::StreamEvent::Resize { cols, rows } => {
                if clamped((cols, rows)) != n.size {
                    assert(pending.drop_last() =~= n.pending);
                } else {
                    assert(pending =~= n.pending);
                }
                assert(fed(pending) =~= fed(n.pending));
                assert(output_bytes(unnumbered(events)) =~= output_bytes(unnumbered(head)));
                assert(events[events.len() - 1].1 is Resize);
            },
            protocol::StreamEvent::Closed { .. } => {
                assert(pending =~= n.pending);
                assert(output_bytes(unnumbered(events)) =~= output_bytes(unnumbered(head)));
            },
        }
        if !(e is Resize) {
            if exists|i: int| 0 <= i < events.len() && (#[trigger] events[i]).1 is Resize {
                let i = choose|i: int| 0 <= i < events.len() && (#[trigger] events[i]).1 is Resize;
                assert(head[i].1 is Resize);
            }
            if exists|i: int| 0 <= i < head.len() && (#[trigger] head[i]).1 is Resize {
                let i = choose|i: int| 0 <= i < head.len() && (#[trigger] head[i]).1 is Resize;
                assert(events[i].1 is Resize);
            }
        }
    }
}

/// The position in the stream never goes back, and a message with a higher number
/// moves it there.
pub proof fn the_position_never_goes_back(m: Replay, seq: u64, e: protocol::StreamEvent)
    ensures
        m.after(seq, e).last_seq matches Some(n) && seq <= n && (m.last_seq matches Some(s)
            ==> s <= n),
        (m.last_seq matches Some(s) ==> s < seq) ==> m.after(seq, e).last_seq == Some(seq),
        (m.last_seq matches Some(s) && seq <= s) ==> m.after(seq, e).last_seq == m.last_seq,
{
}

/// Applying a run in two parts is applying the whole.
pub proof fn replay_can_be_split(
    m: Replay,
    first: Seq<(u64, protocol::StreamEvent)>,
    rest: Seq<(u64, protocol::StreamEvent)>,
)
    ensures
        m.after_all(first + rest) == m.after_all(first).after_all(rest),
    decreases rest.len(),
{
    if rest.len() == 0 {
        assert(first + rest =~= first);
    } else {
        replay_can_be_split(m, first, rest.drop_last());
        assert((first + rest).drop_last() =~= first + rest.drop_last());
    }
}

/// A mirror restarted from a log's fresh read and fed its events reproduces the
/// log: the retained bytes in order, the current size, the latest number.
pub proof fn fresh_read_reproduces_the_log(m: Replay, v: output_log::Recording)
    requires
        v.valid(),
        v.next_seq <= u64::MAX,
    ensures
        ({
            let n = m.restarted(
                v.base_seq() as u64,
                v.start_size.0,
                v.start_size.1,
            ).after_all(v.stream());
            &&& fed(n.pending) == output_bytes(v.events)
            &&& n.size == clamped(v.size)
            &&& n.last_seq == Some(v.latest_seq() as u64)
            &&& n.scrollback_bytes == m.scrollback_bytes
        }),
{
    let start = m.restarted(v.base_seq() as u64, v.start_size.0, v.start_size.1);
    replay_reproduces_the_run(start, v.stream());
    assert(unnumbered(v.stream()) =~= v.events);
    if v.events.len() > 0 {
        assert(v.stream()[v.events.len() - 1].0 == v.latest_seq());
    }
    assert(fed(start.pending) + output_bytes(v.events) =~= output_bytes(v.events));
    sizes_agree(clamped(v.start_size), v.start_size, v.events);
    if !(exists|i: int| 0 <= i < v.stream().len() && (#[trigger] v.stream()[i]).1 is Resize) {
        assert forall|i: int| 0 <= i < v.events.len() implies !(#[trigger] v.events[i] is Resize) by {
            assert(v.stream()[i].1 == v.events[i]);
        }
        no_resize_keeps_size(v.start_size, v.events);
    } else {
        let i = choose|i: int| 0 <= i < v.stream().len() && (#[trigger] v.stream()[i]).1 is Resize;
        assert(v.events[i] is Resize);
    }
}

/// Where a run holds a resize, its final size does not depend on where it starts.
proof fn sizes_agree(
    a: (u16, u16),
    b: (u16, u16),
    events: Seq<protocol::StreamEvent>,
)
    ensures
        (exists|i: int| 0 <= i < events.len() && #[trigger] events[i] is Resize)
            ==> output_log::size_after(a, events) == output_log::size_after(b, events),
    decreases events.len(),
{
    if events.len() > 0 {
        let head = events.drop_last();
        sizes_agree(a, b, head);
        if exists|i: int| 0 <= i < events.len() && #[trigger] events[i] is Resize {
            let i = choose|i: int| 0 <= i < events.len() && #[trigger] events[i] is Resize;
            if !(events.last() is Resize) {
                assert(head[i] is Resize);
            }
        }
    }
}

proof fn no_resize_keeps_size(size: (u16, u16), events: Seq<protocol::StreamEvent>)
    requires
        forall|i: int| 0 <= i < events.len() ==> !(#[trigger] events[i] is Resize),
    ensures
        output_log::size_after(size, events) == size,
    decreases events.len(),
{
    if events.len() > 0 {
        let head = events.drop_last();
        assert forall|i: int| 0 <= i < head.len() implies !(#[trigger] head[i] is Resize) by {
            assert(events[i] == head[i]);
        }
        no_resize_keeps_size(size, head);
        assert(!(events[events.len() - 1] is Resize));
    }
}

/// A mirror that was behind and is continued ends where one that replays
/// everything ends.
pub proof fn continuation_catches_up(m: Replay, v: output_log::Recording, seq: u64)
    requires
        v.valid(),
        v.next_seq <= u64::MAX,
        v.covers(seq),
    ensures
        m.after_all(v.stream().take(seq - v.base_seq())).after_all(v.stream_after(seq))
            == m.after_all(v.stream()),
{
    output_log::continuation_joins_without_gap(v, seq);
    replay_can_be_split(m, v.stream().take(seq - v.base_seq()), v.stream_after(seq));
}

} // verus!
