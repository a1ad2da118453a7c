//! What holds of every recording and every reading of a log.
use crate::output_log;
use crate::output_log::Recording;
use crate::protocol::{MirrorEventKind, StreamEvent};
use crate::protocol;
use vstd::prelude::*;

verus! {

/// The bytes of the output of a run, and eight more for each of its resizes.
pub open spec fn weight(events: Seq<StreamEvent>) -> int
    decreases events.len(),
{
    if events.len() == 0 {
        0
    } else {
        weight(events.drop_last()) + match events.last() {
            StreamEvent::Output(bytes) => bytes.len() as int,
            StreamEvent::Resize { .. } => 8,
            StreamEvent::Closed { .. } => 0,
        }
    }
}

/// The size of the last resize of a run, the given one where there is none.
pub open spec fn last_size(size: (u16, u16), events: Seq<StreamEvent>) -> (u16, u16)
    decreases events.len(),
{
    if events.len() == 0 {
        size
    } else {
        match events.last() {
            StreamEvent::Resize { cols, rows } => (cols, rows),
            _ => last_size(size, events.drop_last()),
        }
    }
}

proof fn costs_are_weights(events: Seq<StreamEvent>)
    ensures
        output_log::total_cost(events) == weight(events),
    decreases events.len(),
{
    if events.len() > 0 {
        costs_are_weights(events.drop_last());
    }
}

proof fn sizes_are_last_sizes(size: (u16, u16), events: Seq<StreamEvent>)
    ensures
        output_log::size_after(size, events) == last_size(size, events),
    decreases events.len(),
{
    if events.len() > 0 {
        sizes_are_last_sizes(size, events.drop_last());
    }
}

/// `w` is `v` with one more event: it comes last under the next number, the fewest
/// oldest events went that brought the rest within the limit, never the new one,
/// and a replay starts at the size that the last resize among them left.
pub open spec fn extends(v: Recording, e: StreamEvent, w: Recording) -> bool {
    let all = v.events.push(e);
    let gone = all.len() - w.events.len();
    &&& w.next_seq == v.next_seq + 1
    &&& w.limit == v.limit
    &&& 1 <= w.events.len() <= all.len()
    &&& w.events == all.skip(gone)
    &&& w.events.last() == e
    &&& weight(w.events) <= v.limit || w.events.len() == 1
    &&& forall|j: int| 0 <= j < gone ==> weight(#[trigger] all.skip(j)) > v.limit
    &&& w.start_size == last_size(v.start_size, all.take(gone))
    &&& w.stream().last() == (v.next_seq as u64, e)
}

proof fn recorded_events_extend(v: Recording, e: StreamEvent)
    requires
        v.next_seq < u64::MAX,
    ensures
        extends(v, e, v.with(e)),
        v.with(e).size == output_log::size_after_event(v.size, e),
{
    let u = Recording {
        events: v.events.push(e),
        next_seq: v.next_seq + 1,
        size: output_log::size_after_event(v.size, e),
        ..v
    };
    let all = u.events;
    output_log::trimming_drops_only_what_it_must(u);
    let w = v.with(e);
    let gone = all.len() - w.events.len();
    costs_are_weights(w.events);
    assert forall|j: int| 0 <= j < gone implies weight(#[trigger] all.skip(j)) > v.limit by {
        costs_are_weights(all.skip(j));
    }
    sizes_are_last_sizes(v.start_size, all.take(gone));
}

/// Output is recorded byte for byte where there is any, and leaves the size alone.
/// No output leaves no trace.
pub proof fn output_is_recorded(v: Recording, bytes: Seq<u8>)
    requires
        v.next_seq < u64::MAX,
    ensures
        ({
            let w = v.offered(StreamEvent::Output(bytes));
            &&& bytes.len() == 0 ==> w == v
            &&& bytes.len() > 0 ==> extends(v, StreamEvent::Output(bytes), w)
            &&& w.size == v.size
        }),
{
    recorded_events_extend(v, StreamEvent::Output(bytes));
}

/// After a resize the log is at that size, columns and rows. It is recorded where
/// either was another before, and leaves no trace where neither was.
pub proof fn resizes_are_recorded(v: Recording, cols: u16, rows: u16)
    requires
        v.next_seq < u64::MAX,
    ensures
        ({
            let e = StreamEvent::Resize { cols, rows };
            let w = v.offered(e);
            &&& w.size.0 == cols
            &&& w.size.1 == rows
            &&& v.size.0 != cols || v.size.1 != rows ==> extends(v, e, w)
            &&& v.size.0 == cols && v.size.1 == rows ==> w == v
        }),
{
    recorded_events_extend(v, StreamEvent::Resize { cols, rows });
}

/// The end of a terminal is not recorded: it leaves no trace in the log.
pub proof fn ends_leave_no_trace(v: Recording, e: StreamEvent)
    ensures
        e is Closed ==> v.offered(e) == v,
{
}

/// Events are offered one after the other.
pub proof fn events_are_offered_in_turn(v: Recording, run: Seq<StreamEvent>, e: StreamEvent)
    ensures
        v.offered_all(Seq::empty()) == v,
        v.offered_all(run.push(e)) == v.offered_all(run).offered(e),
{
    assert(run.push(e).drop_last() =~= run);
}

/// A log counts eight bytes for a resize and retains a mebibyte unless told otherwise.
pub proof fn limits_are_as_stated()
    ensures
        output_log::RESIZE_ENTRY_COST == 8,
        output_log::DEFAULT_MIRROR_LOG_LIMIT_BYTES == 1_048_576,
{
    assert(1024 * 1024 == 1_048_576) by (nonlinear_arith);
}

/// The size of a log is that of the last resize it retains, else the one at which a
/// replay starts; and what it retains is within its limit but for a single event.
pub proof fn logs_are_within_their_limit(v: Recording)
    requires
        v.valid(),
    ensures
        v.size == last_size(v.start_size, v.events),
        weight(v.events) <= v.limit || v.events.len() <= 1,
        v.limit >= 1,
        v.events.len() < v.next_seq,
{
    costs_are_weights(v.events);
    sizes_are_last_sizes(v.start_size, v.events);
}

/// A fresh read holds all that is retained, in order, under contiguous numbers that
/// end at the latest; its base is the number before the first of them.
pub proof fn fresh_reads_hold_what_is_retained(v: Recording, i: int)
    requires
        v.valid(),
        v.next_seq <= u64::MAX,
    ensures
        v.latest_seq() == v.next_seq - 1,
        v.base_seq() + v.events.len() == v.next_seq - 1,
        v.stream().len() == v.events.len(),
        0 <= i < v.events.len() ==> v.stream()[i].1 == v.events[i] && v.stream()[i].0 as int
            == v.next_seq - v.events.len() + i,
{
}

/// A reader is continued exactly where nothing above its number was evicted and its
/// number was given out; it then gets all above its number and nothing else.
pub proof fn continued_readers_get_what_is_above(v: Recording, seq: u64, i: int)
    requires
        v.valid(),
        v.next_seq <= u64::MAX,
    ensures
        v.covers(seq) <==> v.next_seq <= seq + 1 + v.events.len() && seq < v.next_seq,
        v.covers(seq) ==> v.stream_after(seq).len() == v.next_seq - 1 - seq,
        v.covers(seq) && 0 <= i < v.next_seq - 1 - seq ==> v.stream_after(seq)[i].0 as int == seq + 1
            + i && v.stream_after(seq)[i].1 == v.events[seq + 1 + v.events.len() - v.next_seq + i],
{
}

/// An event that is sent says what was recorded.
pub proof fn sent_events_say_what_was_recorded(
    bytes: Vec<u8>,
    cols: u16,
    rows: u16,
    reason: Option<String>,
    events: Seq<(u64, MirrorEventKind)>,
    i: int,
)
    ensures
        MirrorEventKind::Output(bytes)@ == StreamEvent::Output(bytes@),
        (MirrorEventKind::Resize { cols, rows })@ == (StreamEvent::Resize { cols, rows }),
        ({
            &&& (MirrorEventKind::Closed { reason })@ matches StreamEvent::Closed { reason: said }
            &&& said is Some <==> reason is Some
            &&& reason is Some ==> said == Some(reason->0@)
        }),
        protocol::numbered(events).len() == events.len(),
        0 <= i < events.len() ==> protocol::numbered(events)[i] == (events[i].0, events[i].1@),
{
}

} // verus!
