//! What holds of every call on a pane's terminal.
use crate::local_mirror;
use crate::local_mirror::MirrorRuntime;
use crate::runtime;
use crate::runtime::{PtyId, Route, TerminalRuntime};
use vstd::prelude::*;

verus! {

/// A call on a PTY goes to that PTY as it is, whoever would answer for a mirror.
pub proof fn ptys_answer_for_themselves<C, T>(id: PtyId, call: C, r: Route<C, T>, answer: T)
    ensures
        runtime::backend_answers(TerminalRuntime::Pty(id), call, r)
            || runtime::pty_answers_or(TerminalRuntime::Pty(id), call, r, answer) ==> (r
            matches Route::Pty { id: asked, call: sent } && asked == id && sent == call),
{
}

/// On a mirror its emulator answers the call as it is, or the answer is the given one;
/// no PTY is asked.
pub proof fn mirrors_ask_no_pty<C, T>(m: MirrorRuntime, call: C, r: Route<C, T>, answer: T)
    ensures
        runtime::backend_answers(TerminalRuntime::Mirror(m), call, r) ==> (r
            matches Route::Mirror { call: sent } && sent == call),
        runtime::pty_answers_or(TerminalRuntime::Mirror(m), call, r, answer) ==> (r
            matches Route::Answer(given) && given == answer),
{
}

/// A scroll of a PTY is the PTY's; a scroll of a mirror is one more input for its
/// emulator, last, and leaves the mirror as it is otherwise.
pub proof fn scrolls_go_one_way<C>(
    before: TerminalRuntime,
    after: TerminalRuntime,
    call: C,
    r: Route<C, ()>,
    input: local_mirror::EmulatorInput,
)
    requires
        runtime::scrolls(before, after, call, r, input),
    ensures
        match before {
            TerminalRuntime::Pty(id) => after == before && (r matches Route::Pty {
                id: asked,
                call: sent,
            } && asked == id && sent == call),
            TerminalRuntime::Mirror(m) => r == Route::<C, ()>::Answer(()) && (after
                matches TerminalRuntime::Mirror(n) && n@.size == m@.size && n@.last_seq
                == m@.last_seq && n@.scrollback_bytes == m@.scrollback_bytes && n@.pending.len()
                == m@.pending.len() + 1 && n@.pending.last() == input && n@.pending.drop_last()
                == m@.pending),
        },
{
    if let (TerminalRuntime::Mirror(m), TerminalRuntime::Mirror(n)) = (before, after) {
        assert(n@.pending.drop_last() =~= m@.pending);
    }
}

} // verus!
