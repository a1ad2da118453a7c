//! Messages of the mirror stream.
use crate::text;
use vstd::prelude::*;
use vstd::slice::slice_to_vec;

verus! {

/// One event of a mirror stream.
#[derive(Clone, Debug, PartialEq, Eq)]
pub enum MirrorEventKind {
    /// Raw bytes read from the child PTY.
    Output(Vec<u8>),
    /// The source terminal was resized.
    Resize { cols: u16, rows: u16 },
    /// The source terminal ended.
    Closed { reason: Option<String> },
}

/// What a mirror event says, as a mathematical value.
pub enum StreamEvent {
    Output(Seq<u8>),
    Resize { cols: u16, rows: u16 },
    Closed { reason: Option<Seq<char>> },
}

impl View for MirrorEventKind {
    type V = StreamEvent;

    open spec fn view(&self) -> StreamEvent {
        match *self {
            MirrorEventKind::Output(bytes) => StreamEvent::Output(bytes@),
            MirrorEventKind::Resize { cols, rows } => StreamEvent::Resize { cols, rows },
            MirrorEventKind::Closed { reason } => StreamEvent::Closed {
                reason: text::opt_text(reason),
            },
        }
    }
}

/// The events of a numbered stream.
pub open spec fn numbered(events: Seq<(u64, MirrorEventKind)>) -> Seq<(u64, StreamEvent)> {
    Seq::new(events.len(), |i: int| (events[i].0, events[i].1@))
}

/// A message of the data plane from the server.
#[derive(Clone, Debug, PartialEq, Eq)]
pub enum ServerMessage {
    /// Start over from a fresh emulator of this size; events continue at `base_seq + 1`.
    MirrorSnapshot { base_seq: u64, cols: u16, rows: u16 },
    /// The next event of the stream.
    MirrorEvent { seq: u64, kind: MirrorEventKind },
    /// Concerns other clients only.
    ReloadSoundConfig,
}

/// A message of the data plane to the server.
#[derive(Clone, Debug, PartialEq, Eq)]
pub enum ClientMessage {
    /// Subscribes to a terminal, optionally resuming, optionally as the writer.
    MirrorTerminal { target: String, resume_from: Option<u64>, writable: bool },
    /// Bytes for the terminal's PTY.
    Input { data: Vec<u8> },
    /// Drives the terminal's size.
    Resize { cols: u16, rows: u16, cell_width_px: u32, cell_height_px: u32 },
    /// Ends the subscription.
    Detach,
}

/// The input that asked for a scroll.
#[derive(Clone, Debug, PartialEq, Eq)]
pub enum AttachScrollSource {
    /// The mouse wheel.
    Wheel,
    /// A page key, with the bytes it would send.
    PageKey { input: Vec<u8> },
}

/// A copy of a byte slice.
pub(crate) fn owned_bytes(bytes: &[u8]) -> (r: Vec<u8>)
    ensures
        r@ == bytes@,
{
    slice_to_vec(bytes)
}

} // verus!
