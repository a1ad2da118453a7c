//! What holds of every handover, connection and message of the data plane.
use crate::connection;
use crate::connection::{AfterSend, DataPlane, DataStep, MirrorApply, Outgoing};
use crate::protocol;
use crate::protocol::{ClientMessage, ServerMessage};
use vstd::prelude::*;

verus! {

/// The state between the two writes of a handover to a connected terminal.
pub open spec fn promoted(p: DataPlane, id: Seq<char>) -> DataPlane {
    p.with_focus(None).with_writable(id, true).with_focus(Some(id))
}

/// The state after the previous writer stepped down, where it had to.
pub open spec fn settled(
    p: DataPlane,
    previous: Option<Seq<char>>,
    target: Option<Seq<char>>,
) -> DataPlane {
    if p.must_demote(previous, target) {
        p.with_writable(previous->0, false)
    } else {
        p
    }
}

/// The state after a focus change whose writes all succeeded.
pub open spec fn handed_over(p: DataPlane, target: Option<Seq<char>>) -> DataPlane {
    if p.focused == target {
        p
    } else if target matches Some(id) && p.links.dom().contains(id) {
        settled(promoted(p, target->0), p.focused, target)
    } else {
        settled(p.with_focus(target), p.focused, target)
    }
}

/// The step ends with the state `end` once its write, if it has one, succeeded.
pub open spec fn last_write_leads_to(step: DataStep, p: DataPlane, end: DataPlane) -> bool {
    match step {
        DataStep::Done(Ok(_)) => end == p,
        DataStep::Send { then: AfterSend::Demote { terminal_id }, .. } => end == p.with_writable(
            terminal_id@,
            false,
        ),
        _ => false,
    }
}

/// A focus change that starts with `step` ends as stated. It writes twice at
/// most: it promotes the new writer, then demotes the old one.
pub proof fn focus_changes_end_as_stated(
    p: DataPlane,
    target: Option<Seq<char>>,
    step: DataStep,
    started: DataPlane,
    next: DataStep,
)
    requires
        connection::moves_focus(step, p, started, target),
        step matches DataStep::Send { then: AfterSend::Promote { terminal_id, previous }, .. }
            ==> connection::demotes(
            next,
            started.with_writable(terminal_id@, true).with_focus(Some(terminal_id@)),
            crate::text::opt_text(previous),
            Some(terminal_id@),
        ),
    ensures
        match step {
            DataStep::Send { then: AfterSend::Promote { terminal_id, .. }, .. } => {
                let between = started.with_writable(terminal_id@, true).with_focus(
                    Some(terminal_id@),
                );
                between == promoted(p, terminal_id@) && target == Some(terminal_id@)
                    && last_write_leads_to(next, between, handed_over(p, target))
            },
            _ => last_write_leads_to(step, started, handed_over(p, target)),
        },
{
}

/// A focus change leaves one writer at most, and that is the focused terminal
/// where it is connected.
pub proof fn handover_leaves_a_single_writer(p: DataPlane, target: Option<Seq<char>>)
    requires
        p.single_writer(),
    ensures
        handed_over(p, target).single_writer(),
        handed_over(p, target).focused == target,
        handed_over(p, target).links.dom() == p.links.dom(),
        handed_over(p, target).mirrors == p.mirrors,
        p.focused != target && (target matches Some(id) && p.links.dom().contains(id))
            ==> handed_over(p, target).links[target->0],
{
    assert(handed_over(p, target).links.dom() =~= p.links.dom());
}

/// No key falls between two readers: once the new writer is promoted, and until
/// the previous one steps down, both write.
pub proof fn handover_has_no_gap(p: DataPlane, id: Seq<char>, previous: Seq<char>)
    requires
        p.focused == Some(previous),
        previous != id,
        p.links.dom().contains(id),
        p.links.dom().contains(previous),
        p.links[previous],
    ensures
        promoted(p, id).links[id],
        promoted(p, id).links[previous],
{
}

/// Opening a terminal as the writer leaves it the only one.
pub proof fn opening_a_writer_leaves_a_single_writer(p: DataPlane, id: Seq<char>)
    requires
        p.single_writer(),
    ensures
        settled(p.with_link(id, true), p.focused, Some(id)).single_writer(),
        settled(p.with_link(id, true), p.focused, Some(id)).focused == Some(id),
        settled(p.with_link(id, true), p.focused, Some(id)).links[id],
{
}

/// Opening a reader, losing a connection, and closing a terminal add no writer.
pub proof fn other_changes_add_no_writer(p: DataPlane, id: Seq<char>)
    requires
        p.single_writer(),
    ensures
        p.with_link(id, false).single_writer(),
        p.without_link(id).single_writer(),
        p.without(id).single_writer(),
        p.with_mirror(id).single_writer(),
{
}

/// Closing forgets a terminal's mirror, connection and focus, and touches no other.
pub proof fn closing_forgets_one_terminal(p: DataPlane, id: Seq<char>, other: Seq<char>)
    requires
        other != id,
    ensures
        !p.without(id).mirrors.dom().contains(id),
        !p.without(id).links.dom().contains(id),
        p.without(id).focused != Some(id),
        p.without(id).mirrors.dom().contains(other) == p.mirrors.dom().contains(other),
        p.mirrors.dom().contains(other) ==> p.without(id).mirrors[other] == p.mirrors[other],
        p.without(id).links.dom().contains(other) == p.links.dom().contains(other),
        p.links.dom().contains(other) ==> p.without(id).links[other] == p.links[other],
        p.focused == Some(other) ==> p.without(id).focused == Some(other),
{
}

/// A stream resumes at the highest number that was applied: an event moves it
/// forward or not at all, a snapshot sets it to its base, and the loss of a
/// connection leaves it.
pub proof fn resume_follows_the_highest_number(
    p: DataPlane,
    id: Seq<char>,
    seq: u64,
    e: protocol::StreamEvent,
    cols: u16,
    rows: u16,
)
    requires
        p.mirrors.dom().contains(id),
    ensures
        ({
            let after = DataPlane {
                mirrors: p.mirrors.insert(id, p.mirrors[id].after(seq, e)),
                ..p
            };
            &&& after.resume_from(id) matches Some(n)
            &&& seq <= n
            &&& p.resume_from(id) matches Some(s) ==> s <= n
            &&& n == seq || p.resume_from(id) == Some(n)
        }),
        (DataPlane {
            mirrors: p.mirrors.insert(id, p.mirrors[id].restarted(seq, cols, rows)),
            ..p
        }).resume_from(id) == Some(seq),
        p.without_link(id).resume_from(id) == p.resume_from(id),
{
}

/// Where there is a single writer, input goes to the focused terminal or nowhere.
pub proof fn input_reaches_only_the_focused_terminal(
    p: DataPlane,
    id: Seq<char>,
    r: Option<Outgoing>,
    message: ClientMessage,
)
    requires
        p.single_writer(),
        connection::addresses(r, p, id, message),
        r is Some,
    ensures
        p.focused == Some(id),
        r->0.terminal_id@ == id,
{
}

/// A stream resumes at the number its mirror holds, and from the start where the
/// terminal has no mirror.
pub proof fn streams_resume_where_the_mirror_stands(p: DataPlane, id: Seq<char>)
    ensures
        p.mirrors.dom().contains(id) ==> p.resume_from(id) == p.mirrors[id].last_seq,
        !p.mirrors.dom().contains(id) ==> p.resume_from(id) is None,
{
}

/// Nothing but the maps and the focus of the data plane ever changes with a terminal.
pub open spec fn same_settings(p: DataPlane, q: DataPlane) -> bool {
    q.socket_path == p.socket_path && q.size == p.size && q.scrollback_bytes == p.scrollback_bytes
}

/// A new mirror has the size of the viewport and the budget of the data plane, has seen
/// nothing, and touches neither the other mirrors, nor the connections, nor the focus.
pub proof fn new_mirrors_have_seen_nothing(p: DataPlane, id: Seq<char>, other: Seq<char>)
    ensures
        ({
            let q = p.with_mirror(id);
            let m = q.mirrors[id];
            &&& q.mirrors.dom().contains(id)
            &&& p.size.0 > 0 && p.size.1 > 0 ==> m.size == p.size
            &&& m.scrollback_bytes == p.scrollback_bytes
            &&& m.last_seq is None
            &&& m.pending.len() == 0
            &&& other != id ==> (q.mirrors.dom().contains(other) <==> p.mirrors.dom().contains(
                other,
            )) && q.mirrors[other] == p.mirrors[other]
            &&& q.links == p.links
            &&& q.focused == p.focused
            &&& same_settings(p, q)
        }),
{
}

/// A connection that was made is as writable as it was asked to be; a writer has the
/// focus from then on, a reader leaves it. Nothing else changes.
pub proof fn connections_are_as_writable_as_asked(
    p: DataPlane,
    id: Seq<char>,
    writable: bool,
    other: Seq<char>,
)
    ensures
        ({
            let q = p.with_link(id, writable);
            &&& q.links.dom().contains(id) && q.links[id] == writable
            &&& other != id ==> (q.links.dom().contains(other) <==> p.links.dom().contains(other))
                && q.links[other] == p.links[other]
            &&& writable ==> q.focused == Some(id)
            &&& !writable ==> q.focused == p.focused
            &&& q.mirrors == p.mirrors
            &&& same_settings(p, q)
        }),
{
}

/// Making a connection the writer, or no longer, changes that connection and nothing
/// else, and nothing at all where there is none.
pub proof fn the_writable_bit_is_all_that_moves(
    p: DataPlane,
    id: Seq<char>,
    writable: bool,
    other: Seq<char>,
)
    ensures
        ({
            let q = p.with_writable(id, writable);
            &&& q.links.dom() == p.links.dom()
            &&& p.links.dom().contains(id) ==> q.links[id] == writable
            &&& other != id ==> q.links[other] == p.links[other]
            &&& !p.links.dom().contains(id) ==> q == p
            &&& q.mirrors == p.mirrors
            &&& q.focused == p.focused
            &&& same_settings(p, q)
        }),
{
    assert(p.with_writable(id, writable).links.dom() =~= p.links.dom());
}

/// Moving the focus moves the focus and nothing else.
pub proof fn the_focus_is_all_that_moves(p: DataPlane, target: Option<Seq<char>>)
    ensures
        ({
            let q = p.with_focus(target);
            &&& q.focused == target
            &&& q.links == p.links
            &&& q.mirrors == p.mirrors
            &&& same_settings(p, q)
        }),
{
}

/// Closing a terminal keeps the settings; the loss of its connection keeps all but the
/// connection, so its mirror stays on the screen and the focus where it is.
pub proof fn lost_connections_keep_the_mirror(p: DataPlane, id: Seq<char>, other: Seq<char>)
    ensures
        same_settings(p, p.without(id)),
        p.focused is None ==> p.without(id).focused is None,
        ({
            let q = p.without_link(id);
            &&& !q.links.dom().contains(id)
            &&& other != id ==> (q.links.dom().contains(other) <==> p.links.dom().contains(other))
                && q.links[other] == p.links[other]
            &&& q.mirrors == p.mirrors
            &&& q.focused == p.focused
            &&& same_settings(p, q)
        }),
{
}

/// The step writes a subscription of the terminal to its own connection, from where its
/// mirror stands.
pub open spec fn writes_subscription(
    step: DataStep,
    p: DataPlane,
    id: Seq<char>,
    writable: bool,
) -> bool {
    &&& step matches DataStep::Send { outgoing, .. }
    &&& outgoing.terminal_id@ == id
    &&& outgoing.message matches ClientMessage::MirrorTerminal { target, resume_from, writable: w }
    &&& target@ == id
    &&& resume_from is Some <==> p.mirrors.dom().contains(id) && p.mirrors[id].last_seq is Some
    &&& resume_from is Some ==> resume_from == p.mirrors[id].last_seq
    &&& w == writable
}

/// The previous writer is asked to step down exactly where it is another terminal that
/// is still connected; it is asked to read on from where its mirror stands. Else the
/// operation has ended well.
pub proof fn previous_writers_step_down(
    step: DataStep,
    p: DataPlane,
    previous: Option<Seq<char>>,
    target: Option<Seq<char>>,
)
    requires
        connection::demotes(step, p, previous, target),
    ensures
        ({
            let steps_down = previous is Some && target != previous && p.links.dom().contains(
                previous->0,
            );
            &&& steps_down ==> writes_subscription(step, p, previous->0, false) && (step
                matches DataStep::Send { then: AfterSend::Demote { terminal_id }, .. }
                && terminal_id@ == previous->0)
            &&& !steps_down ==> step == DataStep::Done(Ok(()))
        }),
{
}

/// A focus change asks nothing where the focus stays. A connected target is asked first
/// to write, and the focus rests on no terminal until it does; the previous writer is
/// remembered. Any other target takes the focus at once, and the previous writer is
/// asked to step down.
pub proof fn focus_changes_ask_the_new_writer_first(
    step: DataStep,
    p: DataPlane,
    q: DataPlane,
    target: Option<Seq<char>>,
)
    requires
        connection::moves_focus(step, p, q, target),
    ensures
        ({
            let connected = target is Some && p.links.dom().contains(target->0);
            &&& q.links == p.links && q.mirrors == p.mirrors && same_settings(p, q)
            &&& p.focused == target ==> q.focused == p.focused && step == DataStep::Done(Ok(()))
            &&& p.focused != target && connected ==> q.focused is None && writes_subscription(
                step,
                p,
                target->0,
                true,
            ) && (step matches DataStep::Send {
                then: AfterSend::Promote { terminal_id, previous },
                ..
            } && terminal_id@ == target->0 && crate::text::opt_text(previous) == p.focused)
            &&& p.focused != target && !connected ==> q.focused == target
                && connection::demotes(step, q, p.focused, target)
        }),
{
}

/// A connection is asked for at the socket of the data plane, for the terminal, at the
/// size of the viewport, from where its mirror stands, and as writable as stated; and
/// that is remembered for when it is made.
pub proof fn connections_are_asked_for_as_stated(
    step: DataStep,
    p: DataPlane,
    id: Seq<char>,
    writable: bool,
)
    requires
        connection::connects(step, p, id, writable),
    ensures
        ({
            &&& step matches DataStep::Connect { request, then }
            &&& request.socket_path@ == p.socket_path
            &&& request.terminal_id@ == id && then.terminal_id@ == id
            &&& request.cols == p.size.0 && request.rows == p.size.1
            &&& p.mirrors.dom().contains(id) ==> request.resume_from == p.mirrors[id].last_seq
            &&& !p.mirrors.dom().contains(id) ==> request.resume_from is None
            &&& request.writable == writable && then.writable == writable
        }),
{
}

/// A message concerns the mirror of its terminal and nothing else. A snapshot restarts
/// it where its emulator was built, and changes nothing where it was not; an event goes
/// on with it; any other message, or a terminal without a mirror, changes nothing.
pub proof fn messages_concern_one_mirror(
    p: DataPlane,
    q: DataPlane,
    id: Seq<char>,
    msg: ServerMessage,
    emulator: bool,
    r: MirrorApply,
    other: Seq<char>,
)
    requires
        connection::applies(p, q, id, msg, emulator, r),
    ensures
        q.links == p.links && q.focused == p.focused && same_settings(p, q),
        q.mirrors.dom() == p.mirrors.dom(),
        other != id ==> q.mirrors[other] == p.mirrors[other],
        r == MirrorApply::Unknown <==> !p.mirrors.dom().contains(id),
        !p.mirrors.dom().contains(id) ==> q == p,
        p.mirrors.dom().contains(id) ==> match msg {
            ServerMessage::MirrorSnapshot { base_seq, cols, rows } => {
                &&& r matches MirrorApply::Applied(outcome)
                &&& outcome.needs_full_redraw == emulator && !outcome.closed
                &&& !emulator ==> q == p
                &&& emulator ==> q.mirrors[id].last_seq == Some(base_seq)
                    && q.mirrors[id].pending.len() == 0 && q.mirrors[id].scrollback_bytes
                    == p.mirrors[id].scrollback_bytes && (cols > 0 && rows > 0
                    ==> q.mirrors[id].size == (cols, rows))
            },
            ServerMessage::MirrorEvent { seq, kind } => {
                &&& q.mirrors[id] == p.mirrors[id].after(seq, kind@)
                &&& r == MirrorApply::Applied(p.mirrors[id].outcome(kind@))
            },
            _ => q == p && r == MirrorApply::NotMirror,
        },
{
    assert(q.mirrors.dom() =~= p.mirrors.dom());
}

/// A message is written exactly where the terminal's connection is the writer, to that
/// connection and unchanged.
pub proof fn only_writers_are_written_to(
    p: DataPlane,
    id: Seq<char>,
    r: Option<Outgoing>,
    message: ClientMessage,
)
    requires
        connection::addresses(r, p, id, message),
    ensures
        r is Some <==> p.links.dom().contains(id) && p.links[id],
        r is Some ==> r->0.terminal_id@ == id && r->0.message == message,
{
}

} // verus!
