//! The event loop: what it hands out next and when it ends.
use crate::connection::ClientError;
use crate::protocol::ServerMessage;
use crate::schema::EventEnvelope;
use std::collections::VecDeque;
use vstd::prelude::*;

verus! {

/// An event of the client loop.
#[derive(Debug)]
pub enum ClientLoopEvent {
    StdinInput(Vec<u8>),
    /// Columns, rows, and the size of a cell in pixels.
    Resize(u16, u16, u32, u32),
    ServerMirror { terminal_id: String, msg: ServerMessage },
    ServerMirrorDisconnected { terminal_id: String },
    ControlEvent(Box<EventEnvelope>),
    ControlDisconnected,
    ServerMessage(ServerMessage),
    ServerDisconnected,
    Timer,
}

/// Why the loop ended.
#[derive(Clone, Copy, Debug, PartialEq, Eq, Structural)]
pub enum LoopEnd {
    /// The client is to quit.
    Quit,
    /// The handler asked to stop.
    Handler,
}

/// What a handler asks of the loop.
#[derive(Clone, Copy, Debug, PartialEq, Eq, Structural)]
pub enum LoopFlow {
    Continue,
    Break,
}

/// Events that were read ahead and put back. They come before the channel, so
/// that the order of arrival is kept.
#[derive(Debug)]
pub struct EventQueue<E> {
    pending: VecDeque<E>,
}

impl<E> View for EventQueue<E> {
    type V = Seq<E>;

    closed spec fn view(&self) -> Seq<E> {
        self.pending@
    }
}

impl<E> EventQueue<E> {
    /// A queue without events.
    pub fn new() -> (r: Self)
        ensures
            r@ == Seq::<E>::empty(),
    {
        EventQueue { pending: VecDeque::new() }
    }

    /// The next event that was put back, if any; else the loop has to wait.
    pub fn next_event(&mut self) -> (r: Option<E>)
        ensures
            match r {
                Some(event) => old(self)@.len() > 0 && event == old(self)@[0] && final(self)@
                    == old(self)@.drop_first(),
                None => old(self)@.len() == 0 && final(self)@ == old(self)@,
            },
    {
        self.pending.pop_front()
    }

    /// The next event without waiting: one that was put back, else what the
    /// channel has at hand.
    pub fn try_next(&mut self, channel: impl FnOnce() -> Option<E>) -> (r: Option<E>)
        requires
            call_requires(channel, ()),
        ensures
            old(self)@.len() > 0 ==> r == Some(old(self)@[0]) && final(self)@ == old(
                self,
            )@.drop_first(),
            old(self)@.len() == 0 ==> call_ensures(channel, (), r) && final(self)@ == old(self)@,
    {
        match self.pending.pop_front() {
            Some(event) => Some(event),
            None => channel(),
        }
    }

    /// Puts an event back, to come next.
    pub fn push_front(&mut self, event: E)
        ensures
            final(self)@ == seq![event] + old(self)@,
    {
        self.pending.push_front(event);
    }
}

/// An event that is put back comes next, and leaves the queue as it was.
pub proof fn put_back_events_come_next<E>(queue: Seq<E>, event: E)
    ensures
        (seq![event] + queue).len() > 0,
        (seq![event] + queue)[0] == event,
        (seq![event] + queue).drop_first() == queue,
{
    assert((seq![event] + queue).drop_first() =~= queue);
}

/// The event that ends a wait: what was received, or a timer tick where the
/// channel closed or nothing came in time.
pub fn waited(received: Option<Option<ClientLoopEvent>>) -> (r: ClientLoopEvent)
    ensures
        match received {
            Some(Some(event)) => r == event,
            _ => r == ClientLoopEvent::Timer,
        },
{
    match received {
        Some(Some(event)) => event,
        _ => ClientLoopEvent::Timer,
    }
}

/// Whether the loop ends before it waits for another event.
pub fn loop_gate(should_quit: bool) -> (r: Option<LoopEnd>)
    ensures
        r == (if should_quit {
            Some(LoopEnd::Quit)
        } else {
            None
        }),
{
    if should_quit {
        Some(LoopEnd::Quit)
    } else {
        None
    }
}

/// Whether the loop ends after an event was handled. An error ends it.
pub fn after_handler(handled: Result<LoopFlow, ClientError>) -> (r: Result<
    Option<LoopEnd>,
    ClientError,
>)
    ensures
        match handled {
            Ok(LoopFlow::Continue) => r == Ok::<Option<LoopEnd>, ClientError>(None),
            Ok(LoopFlow::Break) => r == Ok::<Option<LoopEnd>, ClientError>(
                Some(LoopEnd::Handler),
            ),
            Err(err) => r == Err::<Option<LoopEnd>, ClientError>(err),
        },
{
    match handled {
        Ok(LoopFlow::Continue) => Ok(None),
        Ok(LoopFlow::Break) => Ok(Some(LoopEnd::Handler)),
        Err(err) => Err(err),
    }
}

/// What to do with the next event while a burst of mirror messages is drained.
#[derive(Debug)]
pub enum MirrorBurst {
    /// Apply one more message.
    Apply { terminal_id: String, msg: ServerMessage },
    /// The burst is over: put the event back.
    PutBack(ClientLoopEvent),
    /// The burst is over.
    Over,
}

/// Decides on the next event of a burst of mirror messages.
pub fn mirror_burst(next: Option<ClientLoopEvent>) -> (r: MirrorBurst)
    ensures
        match next {
            Some(ClientLoopEvent::ServerMirror { terminal_id, msg }) => r == (MirrorBurst::Apply {
                terminal_id,
                msg,
            }),
            Some(other) => r == MirrorBurst::PutBack(other),
            None => r == MirrorBurst::Over,
        },
{
    match next {
        Some(ClientLoopEvent::ServerMirror { terminal_id, msg }) => MirrorBurst::Apply {
            terminal_id,
            msg,
        },
        Some(other) => MirrorBurst::PutBack(other),
        None => MirrorBurst::Over,
    }
}

/// What to do with the next event while a burst of structural events is drained.
#[derive(Debug)]
pub enum ControlBurst {
    /// Take one more event into the batch.
    Take(Box<EventEnvelope>),
    /// The burst is over: put the event back.
    PutBack(ClientLoopEvent),
    /// The burst is over.
    Over,
}

/// Decides on the next event of a burst of structural events.
pub fn control_burst(next: Option<ClientLoopEvent>) -> (r: ControlBurst)
    ensures
        match next {
            Some(ClientLoopEvent::ControlEvent(envelope)) => r == ControlBurst::Take(envelope),
            Some(other) => r == ControlBurst::PutBack(other),
            None => r == ControlBurst::Over,
        },
{
    match next {
        Some(ClientLoopEvent::ControlEvent(envelope)) => ControlBurst::Take(envelope),
        Some(other) => ControlBurst::PutBack(other),
        None => ControlBurst::Over,
    }
}

} // verus!
