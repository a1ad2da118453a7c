//! The control plane: requests, replies and the structural event feed.
use crate::replica;
use crate::replica::SessionReplica;
use crate::schema::{
    EventData, EventEnvelope, EventKind, LayoutDescription, Method, PaneInfo, Request,
    ResponseResult, SessionSnapshot, Subscription, SubscriptionEventData,
    SubscriptionEventEnvelope, SubscriptionEventKind, TabInfo, WorkspaceInfo,
};
use crate::text;
use crate::text::decimal;
use vstd::prelude::*;

verus! {

/// The server that a client talks to.
#[derive(Debug)]
pub enum ConnectionTarget {
    /// A session on this machine, by name where one is given.
    LocalSession(Option<String>),
    /// An explicit socket.
    SocketPath(String),
}

/// The kinds of I/O error that the client tells apart.
#[derive(Clone, Copy, Debug, PartialEq, Eq, Structural)]
pub enum IoErrorKind {
    TimedOut,
    WouldBlock,
    Other,
}

/// An error of the transport or of the server.
#[derive(Debug)]
pub enum ApiClientError {
    Io { kind: IoErrorKind, message: String },
    Json(String),
    Server(String),
}

/// An error of a control-plane call.
#[derive(Debug)]
pub enum JsonApiError {
    /// The transport or the server failed.
    Client(ApiClientError),
    /// The server answered with a result that was not asked for.
    UnexpectedResult(ResponseResult),
}

impl From<ApiClientError> for JsonApiError {
    fn from(err: ApiClientError) -> (r: Self) {
        JsonApiError::Client(err)
    }
}

impl vstd::std_specs::convert::FromSpecImpl<ApiClientError> for JsonApiError {
    open spec fn obeys_from_spec() -> bool {
        true
    }

    open spec fn from_spec(err: ApiClientError) -> JsonApiError {
        JsonApiError::Client(err)
    }
}

impl JsonApiError {
    /// The message of an error whose transport error or result reads `inner`.
    pub fn message(&self, inner: &str) -> (r: String)
        ensures
            self is Client ==> r@ == inner@,
            self is UnexpectedResult ==> r@ == "unexpected control-plane result: "@ + inner@,
    {
        match self {
            JsonApiError::Client(_) => inner.to_owned(),
            JsonApiError::UnexpectedResult(_) => {
                "unexpected control-plane result: ".to_owned().concat(inner)
            },
        }
    }
}

/// The subscriptions that keep a replica current.
pub open spec fn replica_feed() -> Seq<Subscription> {
    seq![
        Subscription::WorkspaceCreated,
        Subscription::WorkspaceUpdated,
        Subscription::WorkspaceRenamed,
        Subscription::WorkspaceMoved,
        Subscription::WorkspaceClosed,
        Subscription::WorkspaceFocused,
        Subscription::WorktreeCreated,
        Subscription::WorktreeOpened,
        Subscription::WorktreeRemoved,
        Subscription::TabCreated,
        Subscription::TabClosed,
        Subscription::TabFocused,
        Subscription::TabRenamed,
        Subscription::TabMoved,
        Subscription::PaneCreated,
        Subscription::PaneClosed,
        Subscription::PaneFocused,
        Subscription::PaneMoved,
        Subscription::PaneExited,
        Subscription::PaneAgentDetected,
        Subscription::PaneAgentStatusChanged { pane_id: None, agent_status: None },
        Subscription::LayoutUpdated,
        Subscription::NotificationShown,
    ]
}

/// Lists the subscriptions that keep a replica current.
pub fn structural_subscriptions() -> (r: Vec<Subscription>)
    ensures
        r@ == replica_feed(),
{
    vec![
        Subscription::WorkspaceCreated,
        Subscription::WorkspaceUpdated,
        Subscription::WorkspaceRenamed,
        Subscription::WorkspaceMoved,
        Subscription::WorkspaceClosed,
        Subscription::WorkspaceFocused,
        Subscription::WorktreeCreated,
        Subscription::WorktreeOpened,
        Subscription::WorktreeRemoved,
        Subscription::TabCreated,
        Subscription::TabClosed,
        Subscription::TabFocused,
        Subscription::TabRenamed,
        Subscription::TabMoved,
        Subscription::PaneCreated,
        Subscription::PaneClosed,
        Subscription::PaneFocused,
        Subscription::PaneMoved,
        Subscription::PaneExited,
        Subscription::PaneAgentDetected,
        Subscription::PaneAgentStatusChanged { pane_id: None, agent_status: None },
        Subscription::LayoutUpdated,
        Subscription::NotificationShown,
    ]
}

/// The subscription that delivers an event.
pub open spec fn delivering(data: EventData) -> Option<Subscription> {
    match data {
        EventData::WorkspaceCreated { .. } => Some(Subscription::WorkspaceCreated),
        EventData::WorkspaceUpdated { .. } => Some(Subscription::WorkspaceUpdated),
        EventData::WorkspaceClosed { .. } => Some(Subscription::WorkspaceClosed),
        EventData::WorkspaceRenamed { .. } => Some(Subscription::WorkspaceRenamed),
        EventData::WorkspaceMoved { .. } => Some(Subscription::WorkspaceMoved),
        EventData::WorkspaceFocused { .. } => Some(Subscription::WorkspaceFocused),
        EventData::WorktreeCreated { .. } => Some(Subscription::WorktreeCreated),
        EventData::WorktreeOpened { .. } => Some(Subscription::WorktreeOpened),
        EventData::WorktreeRemoved { .. } => Some(Subscription::WorktreeRemoved),
        EventData::TabCreated { .. } => Some(Subscription::TabCreated),
        EventData::TabClosed { .. } => Some(Subscription::TabClosed),
        EventData::TabRenamed { .. } => Some(Subscription::TabRenamed),
        EventData::TabMoved { .. } => Some(Subscription::TabMoved),
        EventData::TabFocused { .. } => Some(Subscription::TabFocused),
        EventData::PaneCreated { .. } => Some(Subscription::PaneCreated),
        EventData::PaneClosed { .. } => Some(Subscription::PaneClosed),
        EventData::PaneExited { .. } => Some(Subscription::PaneExited),
        EventData::PaneFocused { .. } => Some(Subscription::PaneFocused),
        EventData::PaneMoved { .. } => Some(Subscription::PaneMoved),
        EventData::PaneAgentDetected { .. } => Some(Subscription::PaneAgentDetected),
        EventData::PaneAgentStatusChanged { .. } => Some(
            Subscription::PaneAgentStatusChanged { pane_id: None, agent_status: None },
        ),
        EventData::PaneOutputChanged { .. } => None,
        EventData::LayoutUpdated { .. } => Some(Subscription::LayoutUpdated),
        EventData::NotificationShown { .. } => Some(Subscription::NotificationShown),
    }
}

/// Every event that changes a replica or announces anything is subscribed to.
pub proof fn feed_covers_every_change(s: replica::Structure, data: EventData)
    requires
        s.after(data) != s || s.notices(data).len() > 0,
    ensures
        delivering(data) matches Some(sub) && replica_feed().contains(sub),
{
    let feed = replica_feed();
    assert(feed[0] == Subscription::WorkspaceCreated);
    assert(feed[1] == Subscription::WorkspaceUpdated);
    assert(feed[2] == Subscription::WorkspaceRenamed);
    assert(feed[3] == Subscription::WorkspaceMoved);
    assert(feed[4] == Subscription::WorkspaceClosed);
    assert(feed[5] == Subscription::WorkspaceFocused);
    assert(feed[6] == Subscription::WorktreeCreated);
    assert(feed[7] == Subscription::WorktreeOpened);
    assert(feed[8] == Subscription::WorktreeRemoved);
    assert(feed[9] == Subscription::TabCreated);
    assert(feed[10] == Subscription::TabClosed);
    assert(feed[11] == Subscription::TabFocused);
    assert(feed[12] == Subscription::TabRenamed);
    assert(feed[13] == Subscription::TabMoved);
    assert(feed[14] == Subscription::PaneCreated);
    assert(feed[15] == Subscription::PaneClosed);
    assert(feed[16] == Subscription::PaneFocused);
    assert(feed[17] == Subscription::PaneMoved);
    assert(feed[18] == Subscription::PaneExited);
    assert(feed[19] == Subscription::PaneAgentDetected);
    assert(feed[20] == Subscription::PaneAgentStatusChanged { pane_id: None, agent_status: None });
    assert(feed[21] == Subscription::LayoutUpdated);
    assert(feed[22] == Subscription::NotificationShown);
}

/// The id of the `n`th request, for the call `verb`.
pub open spec fn request_id(verb: Seq<char>, n: nat) -> Seq<char> {
    "mirror-control:"@ + verb + ":"@ + text::decimal_text(n)
}

/// Requests with different numbers have different ids, whatever they ask for.
pub proof fn request_ids_differ(v: Seq<char>, m: nat, w: Seq<char>, n: nat)
    requires
        m != n,
    ensures
        request_id(v, m) != request_id(w, n),
{
    reveal_strlit(":");
    let (a, b) = (request_id(v, m), request_id(w, n));
    let (x, y) = (text::decimal_text(m), text::decimal_text(n));
    text::decimals_are_digits(m);
    text::decimals_are_digits(n);
    text::decimals_differ(m, n);
    if a == b {
        let end = a.len() as int;
        assert(a[end - x.len() - 1] == ':');
        assert(b[end - y.len() - 1] == ':');
        if x.len() < y.len() {
            assert(b[end - x.len() - 1] == y[y.len() - x.len() - 1]);
        } else if y.len() < x.len() {
            assert(a[end - y.len() - 1] == x[x.len() - y.len() - 1]);
        } else {
            assert(a.skip(end - x.len()) =~= x);
            assert(b.skip(end - y.len()) =~= y);
        }
    }
}

/// The number of a client's next request once it has made `count` more.
pub open spec fn number_later(number: nat, count: nat) -> nat
    decreases count,
{
    if count == 0 {
        number
    } else {
        JsonApiClient::number_after(number_later(number, (count - 1) as nat))
    }
}

/// The count goes on by one with every request and wraps at the largest `u64`.
proof fn numbers_wrap(number: nat, count: nat)
    requires
        number <= u64::MAX,
    ensures
        number_later(number, count) == ((number + count) as int) % (u64::MAX + 1),
    decreases count,
{
    if count > 0 {
        numbers_wrap(number, (count - 1) as nat);
    }
}

/// Two requests of one client never share an id until the count has wrapped.
pub proof fn requests_of_a_client_have_their_own_ids(
    number: nat,
    i: nat,
    j: nat,
    v: Seq<char>,
    w: Seq<char>,
)
    requires
        number <= u64::MAX,
        i < j <= i + u64::MAX,
    ensures
        request_id(v, number_later(number, i)) != request_id(w, number_later(number, j)),
{
    numbers_wrap(number, i);
    numbers_wrap(number, j);
    request_ids_differ(v, number_later(number, i), w, number_later(number, j));
}

/// Typed control-plane calls. Each call is a request to send and the reading of
/// its reply.
#[derive(Debug)]
pub struct JsonApiClient {
    target: ConnectionTarget,
    next_request_id: u64,
}

impl JsonApiClient {
    /// The server that requests go to.
    pub closed spec fn spec_target(&self) -> ConnectionTarget {
        self.target
    }

    /// The number of the next request.
    pub closed spec fn next_number(&self) -> nat {
        self.next_request_id as nat
    }

    /// The number after `n`; the count wraps at the largest `u64`.
    pub open spec fn number_after(n: nat) -> nat {
        if n == u64::MAX {
            0
        } else {
            n + 1
        }
    }

    /// A client of the given server.
    pub fn new(target: ConnectionTarget) -> (r: Self)
        ensures
            r.spec_target() == target,
            r.next_number() == 0,
    {
        JsonApiClient { target, next_request_id: 0 }
    }

    /// A client of a session on this machine.
    pub fn local(session: Option<String>) -> (r: Self)
        ensures
            r.spec_target() == ConnectionTarget::LocalSession(session),
            r.next_number() == 0,
    {
        Self::new(ConnectionTarget::LocalSession(session))
    }

    /// The server that requests go to.
    pub fn target(&self) -> (r: &ConnectionTarget)
        ensures
            *r == self.spec_target(),
    {
        &self.target
    }

    fn next_id(&mut self, verb: &str) -> (r: String)
        ensures
            r@ == request_id(verb@, old(self).next_number()),
            final(self).next_number() == Self::number_after(old(self).next_number()),
            final(self).spec_target() == old(self).spec_target(),
    {
        let n: u64 = self.next_request_id;
        self.next_request_id = self.next_request_id.wrapping_add(1);
        let number = decimal(n);
        "mirror-control:".to_owned().concat(verb).concat(":").concat(number.as_str())
    }

    /// A request for an arbitrary method.
    pub fn request(&mut self, verb: &str, method: Method) -> (r: Request)
        ensures
            r.id@ == request_id(verb@, old(self).next_number()),
            r.method == method,
            final(self).next_number() == Self::number_after(old(self).next_number()),
            final(self).spec_target() == old(self).spec_target(),
    {
        let id = self.next_id(verb);
        Request { id, method }
    }

    /// The request for a snapshot of the session.
    pub fn session_snapshot_request(&mut self) -> (r: Request)
        ensures
            r.id@ == request_id("session.snapshot"@, old(self).next_number()),
            r.method == Method::SessionSnapshot,
            final(self).next_number() == Self::number_after(old(self).next_number()),
            final(self).spec_target() == old(self).spec_target(),
    {
        self.request("session.snapshot", Method::SessionSnapshot)
    }

    /// The request for the workspaces in display order.
    pub fn workspace_list_request(&mut self) -> (r: Request)
        ensures
            r.id@ == request_id("workspace.list"@, old(self).next_number()),
            r.method == Method::WorkspaceList,
            final(self).next_number() == Self::number_after(old(self).next_number()),
            final(self).spec_target() == old(self).spec_target(),
    {
        self.request("workspace.list", Method::WorkspaceList)
    }

    /// The request for the tabs, of one workspace where one is given.
    pub fn tab_list_request(&mut self, workspace_id: Option<String>) -> (r: Request)
        ensures
            r.id@ == request_id("tab.list"@, old(self).next_number()),
            r.method == (Method::TabList { workspace_id }),
            final(self).next_number() == Self::number_after(old(self).next_number()),
            final(self).spec_target() == old(self).spec_target(),
    {
        self.request("tab.list", Method::TabList { workspace_id })
    }

    /// The request for the panes, of one workspace where one is given.
    pub fn pane_list_request(&mut self, workspace_id: Option<String>) -> (r: Request)
        ensures
            r.id@ == request_id("pane.list"@, old(self).next_number()),
            r.method == (Method::PaneList { workspace_id }),
            final(self).next_number() == Self::number_after(old(self).next_number()),
            final(self).spec_target() == old(self).spec_target(),
    {
        self.request("pane.list", Method::PaneList { workspace_id })
    }

    /// The request for a tab's layout tree, the focused tab's where none is given.
    pub fn layout_export_request(&mut self, tab_id: Option<String>) -> (r: Request)
        ensures
            r.id@ == request_id("layout.export"@, old(self).next_number()),
            r.method == (Method::LayoutExport { tab_id, pane_id: None }),
            final(self).next_number() == Self::number_after(old(self).next_number()),
            final(self).spec_target() == old(self).spec_target(),
    {
        self.request("layout.export", Method::LayoutExport { tab_id, pane_id: None })
    }

    /// The id and the subscriptions with which the event feed is opened.
    pub fn subscribe_request(&mut self) -> (r: (String, Vec<Subscription>))
        ensures
            r.0@ == request_id("events.subscribe"@, old(self).next_number()),
            r.1@ == replica_feed(),
            final(self).next_number() == Self::number_after(old(self).next_number()),
            final(self).spec_target() == old(self).spec_target(),
    {
        let id = self.next_id("events.subscribe");
        (id, structural_subscriptions())
    }

    /// Reads a reply to any call.
    fn call(reply: Result<ResponseResult, ApiClientError>) -> (r: Result<
        ResponseResult,
        JsonApiError,
    >)
        ensures
            match reply {
                Ok(result) => r == Ok::<ResponseResult, JsonApiError>(result),
                Err(err) => r == Err::<ResponseResult, JsonApiError>(JsonApiError::Client(err)),
            },
    {
        match reply {
            Ok(result) => Ok(result),
            Err(err) => Err(JsonApiError::from(err)),
        }
    }

    /// Reads the reply to a snapshot request.
    pub fn session_snapshot(&self, reply: Result<ResponseResult, ApiClientError>) -> (r: Result<
        SessionSnapshot,
        JsonApiError,
    >)
        ensures
            r == snapshot_of(reply),
    {
        match Self::call(reply)? {
            ResponseResult::SessionSnapshot { snapshot } => Ok(*snapshot),
            other => Err(JsonApiError::UnexpectedResult(other)),
        }
    }

    /// Reads the reply to a workspace list request.
    pub fn workspace_list(&self, reply: Result<ResponseResult, ApiClientError>) -> (r: Result<
        Vec<WorkspaceInfo>,
        JsonApiError,
    >)
        ensures
            match reply {
                Ok(ResponseResult::WorkspaceList { workspaces }) => r == Ok::<_, JsonApiError>(
                    workspaces,
                ),
                Ok(other) => r == Err::<Vec<WorkspaceInfo>, _>(
                    JsonApiError::UnexpectedResult(other),
                ),
                Err(err) => r == Err::<Vec<WorkspaceInfo>, _>(JsonApiError::Client(err)),
            },
    {
        match Self::call(reply) {
            Ok(ResponseResult::WorkspaceList { workspaces }) => Ok(workspaces),
            Ok(other) => Err(JsonApiError::UnexpectedResult(other)),
            Err(err) => Err(err),
        }
    }

    /// Reads the reply to a tab list request.
    pub fn tab_list(&self, reply: Result<ResponseResult, ApiClientError>) -> (r: Result<
        Vec<TabInfo>,
        JsonApiError,
    >)
        ensures
            match reply {
                Ok(ResponseResult::TabList { tabs }) => r == Ok::<_, JsonApiError>(tabs),
                Ok(other) => r == Err::<Vec<TabInfo>, _>(JsonApiError::UnexpectedResult(other)),
                Err(err) => r == Err::<Vec<TabInfo>, _>(JsonApiError::Client(err)),
            },
    {
        match Self::call(reply) {
            Ok(ResponseResult::TabList { tabs }) => Ok(tabs),
            Ok(other) => Err(JsonApiError::UnexpectedResult(other)),
            Err(err) => Err(err),
        }
    }

    /// Reads the reply to a pane list request.
    pub fn pane_list(&self, reply: Result<ResponseResult, ApiClientError>) -> (r: Result<
        Vec<PaneInfo>,
        JsonApiError,
    >)
        ensures
            match reply {
                Ok(ResponseResult::PaneList { panes }) => r == Ok::<_, JsonApiError>(panes),
                Ok(other) => r == Err::<Vec<PaneInfo>, _>(JsonApiError::UnexpectedResult(other)),
                Err(err) => r == Err::<Vec<PaneInfo>, _>(JsonApiError::Client(err)),
            },
    {
        match Self::call(reply) {
            Ok(ResponseResult::PaneList { panes }) => Ok(panes),
            Ok(other) => Err(JsonApiError::UnexpectedResult(other)),
            Err(err) => Err(err),
        }
    }

    /// Reads the reply to a layout export request.
    pub fn layout_export(&self, reply: Result<ResponseResult, ApiClientError>) -> (r: Result<
        LayoutDescription,
        JsonApiError,
    >)
        ensures
            match reply {
                Ok(ResponseResult::LayoutExport { layout }) => r == Ok::<_, JsonApiError>(layout),
                Ok(other) => r == Err::<LayoutDescription, _>(
                    JsonApiError::UnexpectedResult(other),
                ),
                Err(err) => r == Err::<LayoutDescription, _>(JsonApiError::Client(err)),
            },
    {
        match Self::call(reply) {
            Ok(ResponseResult::LayoutExport { layout }) => Ok(layout),
            Ok(other) => Err(JsonApiError::UnexpectedResult(other)),
            Err(err) => Err(err),
        }
    }

    /// Reads the reply to a mutation: any result will do.
    pub fn mutate(&self, reply: Result<ResponseResult, ApiClientError>) -> (r: Result<
        ResponseResult,
        JsonApiError,
    >)
        ensures
            match reply {
                Ok(result) => r == Ok::<ResponseResult, JsonApiError>(result),
                Err(err) => r == Err::<ResponseResult, JsonApiError>(JsonApiError::Client(err)),
            },
    {
        Self::call(reply)
    }

    /// Reads the reply to a snapshot request into a fresh replica.
    pub fn build_replica(&self, reply: Result<ResponseResult, ApiClientError>) -> (r: Result<
        SessionReplica,
        JsonApiError,
    >)
        ensures
            match snapshot_of(reply) {
                Ok(snapshot) => r matches Ok(replica) && replica.wf() && replica@
                    == replica::structure_of(snapshot),
                Err(err) => r == Err::<SessionReplica, JsonApiError>(err),
            },
    {
        match self.session_snapshot(reply) {
            Ok(snapshot) => Ok(SessionReplica::from_snapshot(snapshot)),
            Err(err) => Err(err),
        }
    }
}

/// The snapshot in a reply.
pub open spec fn snapshot_of(reply: Result<ResponseResult, ApiClientError>) -> Result<
    SessionSnapshot,
    JsonApiError,
> {
    match reply {
        Ok(ResponseResult::SessionSnapshot { snapshot }) => Ok(*snapshot),
        Ok(other) => Err(JsonApiError::UnexpectedResult(other)),
        Err(err) => Err(JsonApiError::Client(err)),
    }
}

/// What was read from the event feed.
#[derive(Debug)]
pub enum FeedLine {
    /// The server closed the feed.
    Closed,
    /// A line that holds a structural event.
    Event(EventEnvelope),
    /// A line that holds a polled subscription event.
    Subscription(SubscriptionEventEnvelope),
    /// A line that holds neither.
    Malformed(String),
    /// Reading failed.
    Failed(ApiClientError),
}

/// What a line of the event feed comes to.
#[derive(Debug)]
pub enum FeedStep {
    /// The next structural event.
    Event(EventEnvelope),
    /// The feed has ended.
    Ended,
    /// The line holds no structural event: read on.
    ReadOn,
}

/// The structural event feed.
#[derive(Debug)]
pub struct StructuralEventStream {}

impl StructuralEventStream {
    /// Reads one line of the feed. Only the close of the feed ends it; a line
    /// without a structural event is passed over.
    pub fn next_event(&self, line: FeedLine) -> (r: Result<FeedStep, JsonApiError>)
        ensures
            match line {
                FeedLine::Closed => r == Ok::<_, JsonApiError>(FeedStep::Ended),
                FeedLine::Event(envelope) => r == Ok::<_, JsonApiError>(FeedStep::Event(envelope)),
                FeedLine::Subscription(envelope) => match status_event(envelope) {
                    Some(event) => r == Ok::<_, JsonApiError>(FeedStep::Event(event)),
                    None => r == Ok::<_, JsonApiError>(FeedStep::ReadOn),
                },
                FeedLine::Malformed(message) => r == Err::<FeedStep, _>(
                    JsonApiError::Client(ApiClientError::Json(message)),
                ),
                FeedLine::Failed(err) => r == Err::<FeedStep, _>(JsonApiError::Client(err)),
            },
    {
        match line {
            FeedLine::Closed => Ok(FeedStep::Ended),
            FeedLine::Event(envelope) => Ok(FeedStep::Event(envelope)),
            FeedLine::Subscription(envelope) => match subscription_event_to_event(envelope) {
                Some(event) => Ok(FeedStep::Event(event)),
                None => Ok(FeedStep::ReadOn),
            },
            FeedLine::Malformed(message) => Err(
                JsonApiError::Client(ApiClientError::Json(message)),
            ),
            FeedLine::Failed(err) => Err(JsonApiError::Client(err)),
        }
    }
}

/// The structural event that a polled status report stands for.
pub open spec fn status_event(envelope: SubscriptionEventEnvelope) -> Option<EventEnvelope> {
    match (envelope.event, envelope.data) {
        (
            SubscriptionEventKind::PaneAgentStatusChanged,
            SubscriptionEventData::PaneAgentStatusChanged(event),
        ) => Some(
            EventEnvelope {
                event: EventKind::PaneAgentStatusChanged,
                data: EventData::PaneAgentStatusChanged {
                    pane_id: event.pane_id,
                    workspace_id: event.workspace_id,
                    agent_status: event.agent_status,
                    agent: event.agent,
                    title: event.title,
                    display_agent: event.display_agent,
                    custom_status: event.custom_status,
                    state_labels: event.state_labels,
                },
            },
        ),
        _ => None,
    }
}

/// Turns a polled status report into the structural event it stands for.
pub fn subscription_event_to_event(envelope: SubscriptionEventEnvelope) -> (r: Option<
    EventEnvelope,
>)
    ensures
        r == status_event(envelope),
{
    match (envelope.event, envelope.data) {
        (
            SubscriptionEventKind::PaneAgentStatusChanged,
            SubscriptionEventData::PaneAgentStatusChanged(event),
        ) => Some(
            EventEnvelope {
                event: EventKind::PaneAgentStatusChanged,
                data: EventData::PaneAgentStatusChanged {
                    pane_id: event.pane_id,
                    workspace_id: event.workspace_id,
                    agent_status: event.agent_status,
                    agent: event.agent,
                    title: event.title,
                    display_agent: event.display_agent,
                    custom_status: event.custom_status,
                    state_labels: event.state_labels,
                },
            },
        ),
        _ => None,
    }
}

/// What the reader of the event feed does next.
#[derive(Debug)]
pub enum ReaderAction {
    /// Hand the event to the session and read on.
    Deliver(EventEnvelope),
    /// Read on.
    Poll,
    /// Tell the session that the feed is gone, and stop.
    Disconnect,
}

/// Decides what the reader of the event feed does with what it read. An idle
/// timeout is no failure.
pub fn reader_step(read: Result<FeedStep, JsonApiError>) -> (r: ReaderAction)
    ensures
        match read {
            Ok(FeedStep::Event(envelope)) => r == ReaderAction::Deliver(envelope),
            Ok(FeedStep::Ended) => r == ReaderAction::Disconnect,
            Ok(FeedStep::ReadOn) => r == ReaderAction::Poll,
            Err(JsonApiError::Client(ApiClientError::Io { kind, .. })) => r == (if kind
                == IoErrorKind::TimedOut || kind == IoErrorKind::WouldBlock {
                ReaderAction::Poll
            } else {
                ReaderAction::Disconnect
            }),
            Err(_) => r == ReaderAction::Disconnect,
        },
{
    match read {
        Ok(FeedStep::Event(envelope)) => ReaderAction::Deliver(envelope),
        Ok(FeedStep::Ended) => ReaderAction::Disconnect,
        Ok(FeedStep::ReadOn) => ReaderAction::Poll,
        Err(JsonApiError::Client(ApiClientError::Io { kind, .. })) => match kind {
            IoErrorKind::TimedOut => ReaderAction::Poll,
            IoErrorKind::WouldBlock => ReaderAction::Poll,
            IoErrorKind::Other => ReaderAction::Disconnect,
        },
        Err(_) => ReaderAction::Disconnect,
    }
}

} // verus!
