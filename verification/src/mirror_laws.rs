//! What holds of every mirror and its emulator.
use crate::local_mirror;
use crate::local_mirror::{EmulatorInput, EmulatorOp, Replay};
use crate::protocol::StreamEvent;
use crate::schema::ScrollMetrics;
use vstd::prelude::*;

verus! {

/// The size of an emulator that was built at `size` and took the inputs.
pub open spec fn emulator_size(size: (u16, u16), inputs: Seq<EmulatorInput>) -> (u16, u16)
    decreases inputs.len(),
{
    if inputs.len() == 0 {
        size
    } else {
        match inputs.last() {
            EmulatorInput::Resize { cols, rows } => (cols, rows),
            _ => emulator_size(size, inputs.drop_last()),
        }
    }
}

/// The larger of a length and one cell.
pub open spec fn cells(n: u16) -> u16 {
    if n > 1 {
        n
    } else {
        1
    }
}

/// A length is at least one cell and stays as it is where it is any.
pub proof fn lengths_are_at_least_one_cell(n: u16, m: u16)
    ensures
        local_mirror::at_least_one(n) == cells(n),
        local_mirror::clamped((n, m)) == (cells(n), cells(m)),
{
}

/// An emulator that took all inputs of its mirror has the size of the mirror,
/// whatever run of events the mirror replayed.
pub proof fn emulators_follow_the_size(
    start: (u16, u16),
    m: Replay,
    events: Seq<(u64, StreamEvent)>,
)
    requires
        emulator_size(start, m.pending) == m.size,
    ensures
        emulator_size(start, m.after_all(events).pending) == m.after_all(events).size,
    decreases events.len(),
{
    if events.len() > 0 {
        let head = events.drop_last();
        emulators_follow_the_size(start, m, head);
        let n = m.after_all(head);
        let (seq, e) = events.last();
        let after = n.after(seq, e);
        events_reach_the_emulator(n, seq, e);
        if after.pending != n.pending {
            assert(after.pending.drop_last() =~= n.pending);
        }
    }
}

/// What an event means to a mirror: output goes to the emulator as it is; a resize
/// sets the size, and the emulator is resized alike where that is another; the end
/// of the terminal changes nothing. The caller draws anew after a resize to another
/// size only, and learns of the end only from the end.
pub proof fn events_reach_the_emulator(m: Replay, seq: u64, e: StreamEvent)
    ensures
        ({
            let n = m.after(seq, e);
            &&& n.scrollback_bytes == m.scrollback_bytes
            &&& match e {
                StreamEvent::Output(bytes) => n.size == m.size && n.pending == m.pending.push(
                    EmulatorInput::Feed(bytes),
                ) && !m.outcome(e).needs_full_redraw && !m.outcome(e).closed,
                StreamEvent::Resize { cols, rows } => {
                    &&& n.size.0 == cells(cols)
                    &&& n.size.1 == cells(rows)
                    &&& n.size == m.size ==> n.pending == m.pending
                    &&& n.size != m.size ==> n.pending == m.pending.push(
                        EmulatorInput::Resize { cols: n.size.0, rows: n.size.1 },
                    )
                    &&& m.outcome(e).needs_full_redraw == (n.size != m.size)
                    &&& !m.outcome(e).closed
                },
                StreamEvent::Closed { .. } => n.size == m.size && n.pending == m.pending
                    && !m.outcome(e).needs_full_redraw && m.outcome(e).closed,
            }
            &&& n.last_seq matches Some(top) && top >= seq && (m.last_seq matches Some(s) ==> top
                >= s) && (top == seq || m.last_seq == Some(top))
        }),
{
    let n = m.after(seq, e);
    match e {
        StreamEvent::Output(bytes) => {
            assert(n.pending =~= m.pending.push(EmulatorInput::Feed(bytes)));
        },
        StreamEvent::Resize { .. } => {
            if n.size != m.size {
                assert(n.pending =~= m.pending.push(
                    EmulatorInput::Resize { cols: n.size.0, rows: n.size.1 },
                ));
            } else {
                assert(n.pending =~= m.pending);
            }
        },
        StreamEvent::Closed { .. } => {
            assert(n.pending =~= m.pending);
        },
    }
}

/// A mirror replays events one after the other.
pub proof fn events_are_replayed_in_turn(
    m: Replay,
    events: Seq<(u64, StreamEvent)>,
    seq: u64,
    e: StreamEvent,
)
    ensures
        m.after_all(Seq::empty()) == m,
        m.after_all(events.push((seq, e))) == m.after_all(events).after(seq, e),
{
    assert(events.push((seq, e)).drop_last() =~= events);
}

/// A mirror starts, and starts over from a snapshot, at the size it was given, with
/// nothing for its emulator to take and the budget it was built with.
pub proof fn mirrors_start_afresh(m: Replay, base: u64, cols: u16, rows: u16, budget: usize)
    ensures
        ({
            let n = Replay::fresh(cols, rows, budget);
            &&& n.size == (cells(cols), cells(rows))
            &&& n.scrollback_bytes == budget
            &&& n.last_seq is None
            &&& n.pending.len() == 0
        }),
        ({
            let n = m.restarted(base, cols, rows);
            &&& n.size == (cells(cols), cells(rows))
            &&& n.scrollback_bytes == m.scrollback_bytes
            &&& n.last_seq == Some(base)
            &&& n.pending.len() == 0
        }),
{
}

/// A local scroll is one more input for the emulator and nothing else.
pub proof fn scrolls_stay_local(m: Replay, input: EmulatorInput)
    ensures
        m.with_input(input).pending.len() == m.pending.len() + 1,
        m.with_input(input).pending.last() == input,
        m.with_input(input).pending.drop_last() == m.pending,
        m.with_input(input).size == m.size,
        m.with_input(input).scrollback_bytes == m.scrollback_bytes,
        m.with_input(input).last_seq == m.last_seq,
{
    assert(m.with_input(input).pending.drop_last() =~= m.pending);
}

/// A viewport is scrolled back where it stands above the live edge.
pub proof fn viewports_above_the_edge_are_scrolled_back(metrics: ScrollMetrics)
    ensures
        local_mirror::scrolled_back(Some(metrics)) <==> metrics.offset_from_bottom != 0,
        !local_mirror::scrolled_back(None),
{
}

/// What an emulator is handed says what was recorded for it.
pub proof fn handed_inputs_say_what_was_recorded(
    bytes: Vec<u8>,
    cols: u16,
    rows: u16,
    lines: usize,
    ops: Seq<EmulatorOp>,
    i: int,
)
    ensures
        EmulatorOp::Feed(bytes)@ == EmulatorInput::Feed(bytes@),
        (EmulatorOp::Resize { cols, rows })@ == (EmulatorInput::Resize { cols, rows }),
        EmulatorOp::ScrollUp(lines)@ == EmulatorInput::ScrollUp(lines),
        EmulatorOp::ScrollDown(lines)@ == EmulatorInput::ScrollDown(lines),
        EmulatorOp::ScrollReset@ == EmulatorInput::ScrollReset,
        EmulatorOp::ScrollTo(lines)@ == EmulatorInput::ScrollTo(lines),
        local_mirror::inputs(ops).len() == ops.len(),
        0 <= i < ops.len() ==> local_mirror::inputs(ops)[i] == ops[i]@,
{
}

} // verus!
