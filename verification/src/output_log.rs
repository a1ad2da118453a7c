//! The bounded replication log of one terminal.
//!
//! Output and resizes share one contiguous sequence space. A subscriber reads
//! either a fresh replay of what is retained or the continuation of what it
//! already holds.
use crate::protocol;
use crate::protocol::{owned_bytes, MirrorEventKind};
use std::collections::VecDeque;
use vstd::prelude::*;

verus! {

/// Retained bytes per log unless a limit is given.
pub const DEFAULT_MIRROR_LOG_LIMIT_BYTES: usize = 1024 * 1024;

/// What a resize counts against the limit.
pub const RESIZE_ENTRY_COST: usize = 8;

/// A recorded entry.
#[derive(Clone, Debug, PartialEq, Eq)]
enum LogEntry {
    Output(Vec<u8>),
    Resize { cols: u16, rows: u16 },
}

impl LogEntry {
    spec fn event(self) -> protocol::StreamEvent {
        match self {
            LogEntry::Output(bytes) => protocol::StreamEvent::Output(bytes@),
            LogEntry::Resize { cols, rows } => protocol::StreamEvent::Resize { cols, rows },
        }
    }

    fn byte_cost(&self) -> (r: usize)
        ensures
            r == event_cost(self.event()),
    {
        match self {
            LogEntry::Output(bytes) => bytes.len(),
            LogEntry::Resize { .. } => RESIZE_ENTRY_COST,
        }
    }

    fn to_kind(&self) -> (r: MirrorEventKind)
        ensures
            r@ == self.event(),
    {
        match self {
            LogEntry::Output(bytes) => MirrorEventKind::Output(owned_bytes(bytes.as_slice())),
            LogEntry::Resize { cols, rows } => MirrorEventKind::Resize { cols: *cols, rows: *rows },
        }
    }
}

/// What an event counts against the limit.
pub open spec fn event_cost(e: protocol::StreamEvent) -> nat {
    match e {
        protocol::StreamEvent::Output(bytes) => bytes.len(),
        protocol::StreamEvent::Resize { .. } => RESIZE_ENTRY_COST as nat,
        protocol::StreamEvent::Closed { .. } => 0,
    }
}

/// What a run of events counts against the limit.
pub open spec fn total_cost(events: Seq<protocol::StreamEvent>) -> nat
    decreases events.len(),
{
    if events.len() == 0 {
        0
    } else {
        total_cost(events.drop_last()) + event_cost(events.last())
    }
}

/// The size in effect after one event.
pub open spec fn size_after_event(size: (u16, u16), e: protocol::StreamEvent) -> (u16, u16) {
    match e {
        protocol::StreamEvent::Resize { cols, rows } => (cols, rows),
        _ => size,
    }
}

/// The size in effect after a run of events that starts at `size`.
pub open spec fn size_after(size: (u16, u16), events: Seq<protocol::StreamEvent>) -> (u16, u16)
    decreases events.len(),
{
    if events.len() == 0 {
        size
    } else {
        size_after_event(size_after(size, events.drop_last()), events.last())
    }
}

/// At the given size the event is worth recording.
pub open spec fn acceptable(size: (u16, u16), e: protocol::StreamEvent) -> bool {
    match e {
        protocol::StreamEvent::Output(bytes) => bytes.len() > 0,
        protocol::StreamEvent::Resize { cols, rows } => size != (cols, rows),
        protocol::StreamEvent::Closed { .. } => false,
    }
}

/// The events of a run that are worth recording, where the run starts at `size`.
pub open spec fn accepted(size: (u16, u16), run: Seq<protocol::StreamEvent>) -> Seq<
    protocol::StreamEvent,
>
    decreases run.len(),
{
    if run.len() == 0 {
        Seq::empty()
    } else {
        let before = accepted(size, run.drop_last());
        if acceptable(size_after(size, before), run.last()) {
            before.push(run.last())
        } else {
            before
        }
    }
}

/// The cost of an entry is a length.
proof fn entry_cost_fits(entry: LogEntry)
    ensures
        event_cost(entry.event()) <= usize::MAX,
{
    if let LogEntry::Output(bytes) = entry {
        assert(bytes.len() == bytes@.len());
    }
}

/// Taking the oldest event off a run takes off its cost and applies its size.
proof fn front_splits(size: (u16, u16), events: Seq<protocol::StreamEvent>)
    requires
        events.len() > 0,
    ensures
        total_cost(events) == event_cost(events[0]) + total_cost(events.drop_first()),
        size_after(size, events) == size_after(
            size_after_event(size, events[0]),
            events.drop_first(),
        ),
    decreases events.len(),
{
    if events.len() == 1 {
        assert(events.drop_last() =~= Seq::empty());
        assert(events.drop_first() =~= Seq::empty());
        assert(total_cost(events.drop_first()) == 0);
        assert(total_cost(events.drop_last()) == 0);
        assert(size_after(size, events.drop_last()) == size);
    } else {
        front_splits(size, events.drop_last());
        assert(events.drop_last().drop_first() =~= events.drop_first().drop_last());
    }
}

/// The contents of a log.
///
/// `events` holds what is retained, oldest first; the newest carries the number
/// `next_seq - 1`, and numbers are contiguous.
#[verifier::ext_equal]
pub struct Recording {
    pub events: Seq<protocol::StreamEvent>,
    pub next_seq: nat,
    pub limit: nat,
    pub start_size: (u16, u16),
    pub size: (u16, u16),
}

impl Recording {
    /// The highest number given out, 0 before the first.
    pub open spec fn latest_seq(self) -> int {
        self.next_seq - 1
    }

    /// The number from which every later event is retained.
    pub open spec fn base_seq(self) -> int {
        self.next_seq - 1 - self.events.len()
    }

    /// The retained events with their numbers.
    pub open spec fn stream(self) -> Seq<(u64, protocol::StreamEvent)> {
        Seq::new(
            self.events.len(),
            |i: int| ((self.base_seq() + 1 + i) as u64, self.events[i]),
        )
    }

    /// The retained events numbered above `seq`.
    pub open spec fn stream_after(self, seq: u64) -> Seq<(u64, protocol::StreamEvent)> {
        self.stream().skip(seq - self.base_seq())
    }

    /// A reader that holds everything up to `seq` can be continued.
    pub open spec fn covers(self, seq: u64) -> bool {
        self.base_seq() <= seq <= self.latest_seq()
    }

    /// Without the oldest event; a resize that goes becomes the starting size.
    pub open spec fn without_oldest(self) -> Recording {
        Recording {
            events: self.events.drop_first(),
            start_size: size_after_event(self.start_size, self.events[0]),
            ..self
        }
    }

    /// Drops the oldest events while the limit is exceeded and more than one is left.
    pub open spec fn trimmed(self) -> Recording
        decreases self.events.len(),
    {
        if total_cost(self.events) > self.limit && self.events.len() > 1 {
            self.without_oldest().trimmed()
        } else {
            self
        }
    }

    /// With one more event, trimmed.
    pub open spec fn with(self, e: protocol::StreamEvent) -> Recording {
        Recording {
            events: self.events.push(e),
            next_seq: self.next_seq + 1,
            size: size_after_event(self.size, e),
            ..self
        }.trimmed()
    }

    /// The event is worth recording: output that is not empty, or a new size.
    pub open spec fn accepts(self, e: protocol::StreamEvent) -> bool {
        acceptable(self.size, e)
    }

    /// After an event was offered for recording.
    pub open spec fn offered(self, e: protocol::StreamEvent) -> Recording {
        if self.accepts(e) {
            self.with(e)
        } else {
            self
        }
    }

    /// After a run of events was offered for recording.
    pub open spec fn offered_all(self, run: Seq<protocol::StreamEvent>) -> Recording
        decreases run.len(),
    {
        if run.len() == 0 {
            self
        } else {
            self.offered_all(run.drop_last()).offered(run.last())
        }
    }

    /// What every log keeps: numbers from 1 on, the retained cost within the
    /// limit unless a single event is left, and the sizes consistent with the
    /// retained resizes.
    pub open spec fn valid(self) -> bool {
        &&& self.next_seq >= 1
        &&& self.base_seq() >= 0
        &&& self.limit >= 1
        &&& total_cost(self.events) <= self.limit || self.events.len() <= 1
        &&& size_after(self.start_size, self.events) == self.size
    }
}

/// A view of the stream for a subscriber.
#[derive(Clone, Debug, PartialEq, Eq)]
pub enum MirrorRead {
    /// Reset an emulator to `cols` x `rows` at `base_seq`, then apply `events`.
    Snapshot { base_seq: u64, cols: u16, rows: u16, events: Vec<(u64, MirrorEventKind)> },
    /// Apply `events` to continue.
    Delta { events: Vec<(u64, MirrorEventKind)> },
}

/// A per-terminal output replication log.
#[derive(Debug)]
pub struct MirrorLog {
    entries: VecDeque<(u64, LogEntry)>,
    next_seq: u64,
    total_bytes: u128,
    max_bytes: usize,
    size_at_oldest: (u16, u16),
    current_size: (u16, u16),
    subscribers: usize,
}

impl View for MirrorLog {
    type V = Recording;

    closed spec fn view(&self) -> Recording {
        Recording {
            events: Seq::new(self.entries@.len(), |i: int| self.entries@[i].1.event()),
            next_seq: self.next_seq as nat,
            limit: self.max_bytes as nat,
            start_size: self.size_at_oldest,
            size: self.current_size,
        }
    }
}

impl MirrorLog {
    /// The stored numbers and the running cost agree with the contents.
    closed spec fn consistent(&self) -> bool {
        &&& self.next_seq >= 1
        &&& self.max_bytes >= 1
        &&& self.entries@.len() < self.next_seq
        &&& forall|i: int|
            0 <= i < self.entries@.len() ==> (#[trigger] self.entries@[i]).0 as int
                == self.next_seq - self.entries@.len() + i
        &&& self.total_bytes == total_cost(self@.events)
        &&& size_after(self@.start_size, self@.events) == self@.size
    }

    /// The log is in a state that its operations leave it in.
    pub closed spec fn wf(&self) -> bool {
        self.consistent() && self@.valid() && self.total_bytes <= usize::MAX
    }

    /// The number of attached subscribers.
    pub closed spec fn subscriber_count(&self) -> nat {
        self.subscribers as nat
    }

    /// A well-formed log holds a valid recording.
    pub proof fn wf_is_valid(&self)
        requires
            self.wf(),
        ensures
            self@.valid(),
            self@.next_seq <= u64::MAX,
    {
    }

    /// A log for a terminal of the given size with the default limit.
    pub fn new(cols: u16, rows: u16) -> (r: Self)
        ensures
            r.wf(),
            r@ == (Recording {
                events: Seq::empty(),
                next_seq: 1,
                limit: DEFAULT_MIRROR_LOG_LIMIT_BYTES as nat,
                start_size: (cols, rows),
                size: (cols, rows),
            }),
            r.subscriber_count() == 0,
    {
        Self::with_limit(cols, rows, DEFAULT_MIRROR_LOG_LIMIT_BYTES)
    }

    /// A log that retains at most `max_bytes`, taken as 1 where it is 0.
    pub fn with_limit(cols: u16, rows: u16, max_bytes: usize) -> (r: Self)
        ensures
            r.wf(),
            r@ == (Recording {
                events: Seq::empty(),
                next_seq: 1,
                limit: if max_bytes == 0 {
                    1
                } else {
                    max_bytes as nat
                },
                start_size: (cols, rows),
                size: (cols, rows),
            }),
            r.subscriber_count() == 0,
    {
        let max_bytes: usize = if max_bytes < 1 {
            1
        } else {
            max_bytes
        };
        let r = MirrorLog {
            entries: VecDeque::new(),
            next_seq: 1,
            total_bytes: 0,
            max_bytes,
            size_at_oldest: (cols, rows),
            current_size: (cols, rows),
            subscribers: 0,
        };
        assert(r@.events =~= Seq::empty());
        r
    }

    fn evict(&mut self)
        requires
            old(self).consistent(),
        ensures
            final(self).wf(),
            final(self)@ == old(self)@.trimmed(),
            final(self).subscribers == old(self).subscribers,
    {
        while self.total_bytes > self.max_bytes as u128 && self.entries.len() > 1
            invariant
                self.consistent(),
                self@.trimmed() == old(self)@.trimmed(),
                self.subscribers == old(self).subscribers,
            decreases self.entries@.len(),
        {
            let ghost before = *self;
            match self.entries.pop_front() {
                Some((_, entry)) => {
                    proof {
                        front_splits(before@.start_size, before@.events);
                        assert(before@.events[0] == entry.event());
                    }
                    self.total_bytes = self.total_bytes - entry.byte_cost() as u128;
                    if let LogEntry::Resize { cols, rows } = entry {
                        self.size_at_oldest = (cols, rows);
                    }
                    assert(self@.events =~= before@.events.drop_first());
                    assert(self@ =~= before@.without_oldest());
                },
                None => {},
            }
        }
        proof {
            if self.entries@.len() == 1 {
                assert(self@.events.drop_last() =~= Seq::empty());
                assert(total_cost(self@.events.drop_last()) == 0);
                assert(self@.events.last() == self.entries@[0].1.event());
                entry_cost_fits(self.entries@[0].1);
            }
        }
    }

    fn push(&mut self, entry: LogEntry) -> (r: u64)
        requires
            old(self).next_seq >= 1,
            old(self).max_bytes >= 1,
            old(self).entries@.len() < old(self).next_seq,
            forall|i: int|
                0 <= i < old(self).entries@.len() ==> (#[trigger] old(self).entries@[i]).0 as int
                    == old(self).next_seq - old(self).entries@.len() + i,
            old(self).total_bytes == total_cost(old(self)@.events),
            size_after_event(
                size_after(old(self)@.start_size, old(self)@.events),
                entry.event(),
            ) == old(self)@.size,
            old(self).next_seq < u64::MAX,
            old(self).total_bytes <= usize::MAX,
        ensures
            final(self).wf(),
            final(self)@ == (Recording {
                events: old(self)@.events.push(entry.event()),
                next_seq: old(self)@.next_seq + 1,
                ..old(self)@
            }).trimmed(),
            final(self).subscribers == old(self).subscribers,
            r == final(self)@.latest_seq(),
    {
        let ghost before = *self;
        let seq: u64 = self.next_seq;
        self.next_seq = self.next_seq + 1;
        self.total_bytes = self.total_bytes + entry.byte_cost() as u128;
        let ghost e = entry.event();
        self.entries.push_back((seq, entry));
        proof {
            assert(self@.events =~= before@.events.push(e));
            assert(self@.events.drop_last() =~= before@.events);
        }
        proof {
            trimming_drops_only_what_it_must(self@);
        }
        self.evict();
        seq
    }

    /// Records child output. Nothing is recorded of an empty slice. Returns the
    /// number given, or the latest number where nothing was recorded.
    pub fn record_output(&mut self, bytes: &[u8]) -> (r: u64)
        requires
            old(self).wf(),
            old(self)@.next_seq < u64::MAX,
        ensures
            final(self).wf(),
            final(self).subscriber_count() == old(self).subscriber_count(),
            final(self)@ == old(self)@.offered(protocol::StreamEvent::Output(bytes@)),
            r == final(self)@.latest_seq(),
    {
        if bytes.len() == 0 {
            return self.latest_seq();
        }
        self.push(LogEntry::Output(owned_bytes(bytes)))
    }

    /// Records a resize. Nothing is recorded where the size is already current.
    /// Returns the number given, or the latest number where nothing was recorded.
    pub fn record_resize(&mut self, cols: u16, rows: u16) -> (r: u64)
        requires
            old(self).wf(),
            old(self)@.next_seq < u64::MAX,
        ensures
            final(self).wf(),
            final(self).subscriber_count() == old(self).subscriber_count(),
            final(self)@ == old(self)@.offered(protocol::StreamEvent::Resize { cols, rows }),
            r == final(self)@.latest_seq(),
    {
        if self.current_size.0 == cols && self.current_size.1 == rows {
            return self.latest_seq();
        }
        let ghost before = *self;
        self.current_size = (cols, rows);
        assert(self@.events =~= before@.events);
        self.push(LogEntry::Resize { cols, rows })
    }

    /// The highest number given out, 0 before the first.
    pub fn latest_seq(&self) -> (r: u64)
        requires
            self.wf(),
        ensures
            r == self@.latest_seq(),
    {
        self.next_seq - 1
    }

    /// The number from which every later event is retained.
    fn min_resumable_seq(&self) -> (r: u64)
        requires
            self.wf(),
        ensures
            r == self@.base_seq(),
    {
        if self.entries.len() == 0 {
            self.latest_seq()
        } else {
            self.entries[0].0 - 1
        }
    }

    /// The retained events numbered above `after`.
    fn events_after(&self, after: u64) -> (r: Vec<(u64, MirrorEventKind)>)
        requires
            self.wf(),
            self@.base_seq() <= after <= self@.latest_seq(),
        ensures
            protocol::numbered(r@) == self@.stream_after(after),
    {
        let mut r: Vec<(u64, MirrorEventKind)> = Vec::new();
        let mut i: usize = 0;
        let ghost skipped = after - self@.base_seq();
        while i < self.entries.len()
            invariant
                self.wf(),
                skipped == after - self@.base_seq(),
                0 <= skipped <= self.entries@.len(),
                i <= self.entries@.len(),
                r@.len() == (if i <= skipped {
                    0
                } else {
                    i - skipped
                }),
                forall|j: int|
                    0 <= j < r@.len() ==> (#[trigger] r@[j]).0 == self.entries@[skipped + j].0
                        && r@[j].1@ == self.entries@[skipped + j].1.event(),
            decreases self.entries@.len() - i,
        {
            let entry = &self.entries[i];
            if entry.0 > after {
                r.push((entry.0, entry.1.to_kind()));
            }
            i = i + 1;
        }
        assert(protocol::numbered(r@) =~= self@.stream_after(after)) by {
            assert forall|j: int| 0 <= j < r@.len() implies #[trigger] protocol::numbered(r@)[j]
                == self@.stream_after(after)[j] by {
                assert(self@.stream_after(after)[j] == self@.stream()[skipped + j]);
                assert(r@[j].0 == self.entries@[skipped + j].0);
            }
        }
        r
    }

    /// What a reader needs to reach the current state. A reader whose number is
    /// covered is continued; any other gets a fresh replay.
    pub fn read_from(&self, after: Option<u64>) -> (r: MirrorRead)
        requires
            self.wf(),
        ensures
            (after matches Some(seq) && self@.covers(seq)) ==> (r matches MirrorRead::Delta {
                events,
            } && protocol::numbered(events@) == self@.stream_after(after->0)),
            !(after matches Some(seq) && self@.covers(seq)) ==> (r matches MirrorRead::Snapshot {
                base_seq,
                cols,
                rows,
                events,
            } && base_seq == self@.base_seq() && (cols, rows) == self@.start_size
                && protocol::numbered(events@) == self@.stream()),
    {
        match after {
            Some(seq) => {
                if seq >= self.min_resumable_seq() && seq <= self.latest_seq() {
                    return MirrorRead::Delta { events: self.events_after(seq) };
                }
            },
            None => {},
        }
        let base_seq: u64 = self.min_resumable_seq();
        let events = self.events_after(base_seq);
        assert(self@.stream_after(base_seq) =~= self@.stream());
        MirrorRead::Snapshot {
            base_seq,
            cols: self.size_at_oldest.0,
            rows: self.size_at_oldest.1,
            events,
        }
    }

    /// Registers a subscriber. The count wraps at the largest `usize`.
    pub fn add_subscriber(&mut self)
        requires
            old(self).wf(),
        ensures
            final(self).wf(),
            final(self)@ == old(self)@,
            final(self).subscriber_count() == (if old(self).subscriber_count() == usize::MAX {
                0
            } else {
                old(self).subscriber_count() + 1
            }),
    {
        let ghost before = *self;
        self.subscribers = self.subscribers.wrapping_add(1);
        assert(self@.events =~= before@.events);
    }

    /// Unregisters a subscriber. The count stays at 0 where there is none.
    pub fn remove_subscriber(&mut self)
        requires
            old(self).wf(),
        ensures
            final(self).wf(),
            final(self)@ == old(self)@,
            final(self).subscriber_count() == (if old(self).subscriber_count() == 0 {
                0
            } else {
                (old(self).subscriber_count() - 1) as nat
            }),
    {
        let ghost before = *self;
        if self.subscribers > 0 {
            self.subscribers = self.subscribers - 1;
        }
        assert(self@.events =~= before@.events);
    }

    /// Whether a subscriber is attached.
    pub fn has_subscribers(&self) -> (r: bool)
        ensures
            r == (self.subscriber_count() > 0),
    {
        self.subscribers > 0
    }
}

/// Trimming keeps the newest events: it drops the fewest oldest events that
/// bring the rest within the limit, never the newest, and starts the rest at the
/// size that the dropped resizes left.
pub proof fn trimming_drops_only_what_it_must(v: Recording)
    ensures
        ({
            let t = v.trimmed();
            let dropped = v.events.len() - t.events.len();
            &&& 0 <= dropped <= v.events.len()
            &&& t.events == v.events.skip(dropped)
            &&& t.start_size == size_after(v.start_size, v.events.take(dropped))
            &&& total_cost(t.events) <= t.limit || t.events.len() <= 1
            &&& v.events.len() >= 1 ==> t.events.len() >= 1
            &&& forall|j: int|
                0 <= j < dropped ==> total_cost(#[trigger] v.events.skip(j)) > v.limit
            &&& t.next_seq == v.next_seq && t.limit == v.limit && t.size == v.size
        }),
    decreases v.events.len(),
{
    if total_cost(v.events) > v.limit && v.events.len() > 1 {
        let w = v.without_oldest();
        trimming_drops_only_what_it_must(w);
        let t = v.trimmed();
        let dropped = v.events.len() - t.events.len();
        assert(t.events =~= v.events.skip(dropped));
        assert forall|j: int| 0 <= j < dropped implies total_cost(#[trigger] v.events.skip(j))
            > v.limit by {
            if j == 0 {
                assert(v.events.skip(0) =~= v.events);
            } else {
                assert(v.events.skip(j) =~= w.events.skip(j - 1));
            }
        }
        let head = v.events.take(dropped);
        front_splits(v.start_size, head);
        assert(head.drop_first() =~= w.events.take(dropped - 1));
    } else {
        assert(v.events.skip(0) =~= v.events);
        assert(v.events.take(0) =~= Seq::empty());
    }
}

/// Recording keeps a log valid. It gives the new event the next number and
/// retains it, and the retained window only moves forward.
pub proof fn recording_keeps_valid(v: Recording, e: protocol::StreamEvent)
    requires
        v.valid(),
    ensures
        v.with(e).valid(),
        v.with(e).latest_seq() == v.latest_seq() + 1,
        v.with(e).base_seq() >= v.base_seq(),
        v.with(e).events.last() == e,
        v.with(e).size == size_after_event(v.size, e),
{
    let w = Recording {
        events: v.events.push(e),
        next_seq: v.next_seq + 1,
        size: size_after_event(v.size, e),
        ..v
    };
    trimming_drops_only_what_it_must(w);
    assert(w.events.drop_last() =~= v.events);
    let t = w.trimmed();
    let dropped = w.events.len() - t.events.len();
    size_after_splits(w.start_size, w.events, dropped);
}

/// A recorded event comes last, under the next number and unchanged. What comes
/// before it is the newest part of what was retained, unchanged.
pub proof fn recording_appends_one_event(v: Recording, e: protocol::StreamEvent)
    requires
        v.valid(),
        v.next_seq < u64::MAX,
        v.accepts(e),
    ensures
        ({
            let w = v.offered(e);
            &&& w.latest_seq() == v.latest_seq() + 1
            &&& w.stream().len() >= 1
            &&& w.stream().last() == ((v.latest_seq() + 1) as u64, e)
            &&& w.stream().len() - 1 <= v.stream().len()
            &&& w.stream().drop_last() == v.stream().skip(
                v.stream().len() - (w.stream().len() - 1),
            )
        }),
{
    recording_keeps_valid(v, e);
    let u = Recording {
        events: v.events.push(e),
        next_seq: v.next_seq + 1,
        size: size_after_event(v.size, e),
        ..v
    };
    trimming_drops_only_what_it_must(u);
    let w = v.offered(e);
    let dropped = u.events.len() - w.events.len();
    assert(w.events == u.events.skip(dropped));
    assert(w.stream().drop_last() =~= v.stream().skip(dropped));
}

/// An event that is not worth recording leaves the log as it is.
pub proof fn ignored_events_leave_no_trace(v: Recording, e: protocol::StreamEvent)
    requires
        !v.accepts(e),
    ensures
        v.offered(e) == v,
{
}

/// Over any run a log that starts empty retains the longest suffix of the events
/// worth recording that is within the limit, or the newest alone where that one
/// exceeds it. So nothing goes while the limit holds, and never the newest.
pub proof fn runs_retain_the_longest_suffix(v: Recording, run: Seq<protocol::StreamEvent>)
    requires
        v.valid(),
        v.events.len() == 0,
    ensures
        ({
            let r = v.offered_all(run);
            let all = accepted(v.size, run);
            let gone = all.len() - r.events.len();
            &&& r.valid()
            &&& 0 <= gone <= all.len()
            &&& r.events == all.skip(gone)
            &&& all.len() > 0 ==> r.events.len() > 0
            &&& total_cost(r.events) <= v.limit || r.events.len() == 1
            &&& forall|j: int| 0 <= j < gone ==> total_cost(#[trigger] all.skip(j)) > v.limit
            &&& total_cost(all) <= v.limit ==> r.events == all
            &&& r.latest_seq() == v.latest_seq() + all.len()
            &&& r.base_seq() == v.latest_seq() + gone
            &&& r.size == size_after(v.size, all)
            &&& r.start_size == size_after(v.size, all.take(gone))
            &&& r.limit == v.limit
        }),
    decreases run.len(),
{
    if run.len() == 0 {
        let all = accepted(v.size, run);
        assert(v.events =~= all);
        assert(all.skip(0) =~= all);
        assert(all.take(0) =~= all);
        assert(size_after(v.start_size, v.events) == v.start_size);
    } else {
        let head = run.drop_last();
        let e = run.last();
        runs_retain_the_longest_suffix(v, head);
        let u = v.offered_all(head);
        let before = accepted(v.size, head);
        if acceptable(size_after(v.size, before), e) {
            recording_keeps_valid(u, e);
            let all = before.push(e);
            assert(all.drop_last() =~= before);
            let kept = before.len() - u.events.len();
            let w = Recording {
                events: u.events.push(e),
                next_seq: u.next_seq + 1,
                size: size_after_event(u.size, e),
                ..u
            };
            trimming_drops_only_what_it_must(w);
            let r = u.with(e);
            let dropped = w.events.len() - r.events.len();
            let gone = all.len() - r.events.len();
            assert(w.events =~= all.skip(kept));
            assert(r.events =~= all.skip(gone));
            assert forall|j: int| 0 <= j < gone implies total_cost(#[trigger] all.skip(j))
                > v.limit by {
                if j < kept {
                    assert(all.skip(j).drop_last() =~= before.skip(j));
                    assert(total_cost(before.skip(j)) > v.limit);
                } else {
                    assert(all.skip(j) =~= w.events.skip(j - kept));
                }
            }
            if gone > 0 {
                assert(total_cost(all.skip(0)) > v.limit);
                assert(all.skip(0) =~= all);
            } else {
                assert(r.events =~= all);
            }
            size_after_splits(v.size, all.take(gone), kept);
            assert(all.take(gone).take(kept) =~= before.take(kept));
            assert(all.take(gone).skip(kept) =~= w.events.take(dropped));
        }
    }
}

/// The size after a run is the size after its tail, started where its head ends.
pub proof fn size_after_splits(
    size: (u16, u16),
    events: Seq<protocol::StreamEvent>,
    k: int,
)
    requires
        0 <= k <= events.len(),
    ensures
        size_after(size, events) == size_after(size_after(size, events.take(k)), events.skip(k)),
    decreases events.len() - k,
{
    if k == events.len() {
        assert(events.take(k) =~= events);
        assert(events.skip(k) =~= Seq::empty());
    } else {
        size_after_splits(size, events.drop_last(), k);
        assert(events.drop_last().take(k) =~= events.take(k));
        assert(events.drop_last().skip(k) =~= events.skip(k).drop_last());
    }
}

/// Within the limit nothing is dropped: a fresh replay is the exact history.
pub proof fn recording_within_limit_drops_nothing(v: Recording, e: protocol::StreamEvent)
    requires
        total_cost(v.events) + event_cost(e) <= v.limit,
    ensures
        v.with(e).events == v.events.push(e),
        v.with(e).start_size == v.start_size,
{
    assert(v.events.push(e).drop_last() =~= v.events);
}

/// A continued reader misses nothing and repeats nothing: what it held of the
/// retained stream followed by the continuation is the retained stream.
pub proof fn continuation_joins_without_gap(v: Recording, seq: u64)
    requires
        v.valid(),
        v.next_seq <= u64::MAX,
        v.covers(seq),
    ensures
        v.stream() == v.stream().take(seq - v.base_seq()) + v.stream_after(seq),
        forall|i: int|
            0 <= i < v.stream_after(seq).len() ==> (#[trigger] v.stream_after(seq)[i]).0 as int
                == seq + 1 + i,
        v.stream_after(seq).len() == v.latest_seq() - seq,
{
    let k = seq - v.base_seq();
    assert(v.stream() =~= v.stream().take(k) + v.stream().skip(k));
}

/// A reader that is caught up gets exactly the next event.
pub proof fn caught_up_reader_gets_the_next_event(v: Recording, e: protocol::StreamEvent)
    requires
        v.valid(),
        v.next_seq < u64::MAX,
    ensures
        v.with(e).covers(v.latest_seq() as u64),
        v.with(e).stream_after(v.latest_seq() as u64) == seq![(v.next_seq as u64, e)],
{
    recording_keeps_valid(v, e);
    trimming_drops_only_what_it_must(
        Recording {
            events: v.events.push(e),
            next_seq: v.next_seq + 1,
            size: size_after_event(v.size, e),
            ..v
        },
    );
    assert(v.with(e).stream_after(v.latest_seq() as u64) =~= seq![(v.next_seq as u64, e)]);
}

} // verus!
