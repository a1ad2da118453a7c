//! Who handles a scroll.
use crate::pane::InputState;
use crate::protocol::AttachScrollSource;
use vstd::prelude::*;

verus! {

/// Where a scroll is handled.
#[derive(Clone, Copy, Debug, PartialEq, Eq, Structural)]
pub enum ScrollDisposition {
    /// In the local viewport, without the network.
    Local,
    /// By the application on the server.
    ForwardToServer,
}

/// The wheel always scrolls locally; a page key does where the host owns the
/// page keys. An unknown state leaves them to the application.
pub open spec fn disposition(
    source: AttachScrollSource,
    input_state: Option<InputState>,
) -> ScrollDisposition {
    if source is Wheel || (input_state matches Some(state) && state.host_pages()) {
        ScrollDisposition::Local
    } else {
        ScrollDisposition::ForwardToServer
    }
}

/// Decides who handles a scroll over a mirrored terminal.
pub fn scroll_disposition(
    source: &AttachScrollSource,
    input_state: Option<InputState>,
) -> (r: ScrollDisposition)
    ensures
        r == disposition(*source, input_state),
{
    match source {
        AttachScrollSource::Wheel => ScrollDisposition::Local,
        AttachScrollSource::PageKey { .. } => match input_state {
            Some(state) => if state.plain_page_keys_use_host_scrollback() {
                ScrollDisposition::Local
            } else {
                ScrollDisposition::ForwardToServer
            },
            None => ScrollDisposition::ForwardToServer,
        },
    }
}

/// The bytes of a page key play no part: every page key goes the same way.
pub proof fn page_keys_go_one_way(
    a: Vec<u8>,
    b: Vec<u8>,
    input_state: Option<InputState>,
)
    ensures
        disposition(AttachScrollSource::PageKey { input: a }, input_state) == disposition(
            AttachScrollSource::PageKey { input: b },
            input_state,
        ),
        input_state is None ==> disposition(AttachScrollSource::PageKey { input: a }, input_state)
            == ScrollDisposition::ForwardToServer,
        disposition(AttachScrollSource::Wheel, input_state) == ScrollDisposition::Local,
{
}

} // verus!
