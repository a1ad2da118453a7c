use herdr_mirror::control::{
    reader_step, structural_subscriptions, subscription_event_to_event, ApiClientError,
    ConnectionTarget, FeedLine, FeedStep, IoErrorKind, JsonApiClient, JsonApiError, ReaderAction,
    StructuralEventStream,
};
use herdr_mirror::idmap::IdMap;
use herdr_mirror::schema::{
    AgentStatus, EventData, EventEnvelope, EventKind, LayoutDescription, LayoutNode, LayoutPane,
    Method, PaneAgentStatusEvent, ResponseResult, SessionSnapshot, Subscription,
    SubscriptionEventData, SubscriptionEventEnvelope, SubscriptionEventKind,
};

fn client() -> JsonApiClient {
    JsonApiClient::local(Some("work".to_string()))
}

fn io_error(kind: IoErrorKind) -> ApiClientError {
    ApiClientError::Io { kind, message: "io".to_string() }
}

fn snapshot() -> SessionSnapshot {
    SessionSnapshot {
        version: "test".into(),
        protocol: 1,
        focused_workspace_id: None,
        focused_tab_id: None,
        focused_pane_id: None,
        workspaces: Vec::new(),
        tabs: Vec::new(),
        panes: Vec::new(),
        layouts: Vec::new(),
    }
}

fn status_report() -> SubscriptionEventEnvelope {
    SubscriptionEventEnvelope {
        event: SubscriptionEventKind::PaneAgentStatusChanged,
        data: SubscriptionEventData::PaneAgentStatusChanged(PaneAgentStatusEvent {
            pane_id: "p1".into(),
            workspace_id: "w1".into(),
            agent_status: AgentStatus::Blocked,
            agent: Some("pi".into()),
            title: None,
            display_agent: None,
            custom_status: Some("waiting".into()),
            state_labels: IdMap::new(),
        }),
    }
}

fn focused() -> EventEnvelope {
    EventEnvelope {
        event: EventKind::PaneFocused,
        data: EventData::PaneFocused { pane_id: "p1".into(), workspace_id: "w1".into() },
    }
}

#[test]
fn requests_are_numbered_per_client() {
    let mut client = client();
    assert!(matches!(
        client.target(),
        ConnectionTarget::LocalSession(Some(name)) if name == "work"
    ));
    assert_eq!(client.session_snapshot_request().id, "mirror-control:session.snapshot:0");
    assert_eq!(client.workspace_list_request().id, "mirror-control:workspace.list:1");
    let tabs = client.tab_list_request(Some("w1".to_string()));
    assert_eq!(tabs.id, "mirror-control:tab.list:2");
    assert_eq!(tabs.method, Method::TabList { workspace_id: Some("w1".to_string()) });
    let panes = client.pane_list_request(None);
    assert_eq!(panes.id, "mirror-control:pane.list:3");
    assert_eq!(panes.method, Method::PaneList { workspace_id: None });
    let layout = client.layout_export_request(Some("t1".to_string()));
    assert_eq!(layout.id, "mirror-control:layout.export:4");
    assert_eq!(
        layout.method,
        Method::LayoutExport { tab_id: Some("t1".to_string()), pane_id: None }
    );
    let (id, subscriptions) = client.subscribe_request();
    assert_eq!(id, "mirror-control:events.subscribe:5");
    assert_eq!(subscriptions, structural_subscriptions());
    for _ in 6..12 {
        client.workspace_list_request();
    }
    let focus = client.request("pane.focus", Method::PaneFocus { pane_id: "p1".to_string() });
    assert_eq!(focus.id, "mirror-control:pane.focus:12");
    assert_eq!(focus.method, Method::PaneFocus { pane_id: "p1".to_string() });
    let other = JsonApiClient::new(ConnectionTarget::SocketPath("/run/x.sock".to_string()));
    assert!(matches!(other.target(), ConnectionTarget::SocketPath(path) if path == "/run/x.sock"));
}

#[test]
fn the_feed_holds_every_structural_kind() {
    let feed = structural_subscriptions();
    assert_eq!(feed.len(), 23);
    assert!(feed.contains(&Subscription::WorkspaceCreated));
    assert!(feed.contains(&Subscription::LayoutUpdated));
    assert!(feed.contains(&Subscription::NotificationShown));
    assert!(feed.contains(&Subscription::PaneAgentStatusChanged {
        pane_id: None,
        agent_status: None
    }));
}

#[test]
fn each_reply_is_read_as_what_was_asked_for() {
    let client = client();
    let snap = ResponseResult::SessionSnapshot { snapshot: Box::new(snapshot()) };
    assert_eq!(client.session_snapshot(Ok(snap)).unwrap().version, "test");
    let workspaces = ResponseResult::WorkspaceList { workspaces: Vec::new() };
    assert!(client.workspace_list(Ok(workspaces)).unwrap().is_empty());
    let tabs = ResponseResult::TabList { tabs: Vec::new() };
    assert!(client.tab_list(Ok(tabs)).unwrap().is_empty());
    let panes = ResponseResult::PaneList { panes: Vec::new() };
    assert!(client.pane_list(Ok(panes)).unwrap().is_empty());
    let layout = ResponseResult::LayoutExport {
        layout: LayoutDescription {
            root: LayoutNode::Pane { pane: LayoutPane { pane_id: None, cwd: None } },
            focused_pane_id: "p1".into(),
            zoomed: true,
        },
    };
    assert!(client.layout_export(Ok(layout)).unwrap().zoomed);
    assert!(client.mutate(Ok(ResponseResult::Other("ok".to_string()))).is_ok());
    let snap = ResponseResult::SessionSnapshot { snapshot: Box::new(snapshot()) };
    assert!(client.build_replica(Ok(snap)).unwrap().terminal_ids().is_empty());
}

#[test]
fn other_results_are_unexpected() {
    let client = client();
    let other = || Ok(ResponseResult::Other("pong".to_string()));
    assert!(matches!(
        client.session_snapshot(other()),
        Err(JsonApiError::UnexpectedResult(ResponseResult::Other(text))) if text == "pong"
    ));
    assert!(matches!(client.workspace_list(other()), Err(JsonApiError::UnexpectedResult(_))));
    assert!(matches!(client.tab_list(other()), Err(JsonApiError::UnexpectedResult(_))));
    assert!(matches!(client.pane_list(other()), Err(JsonApiError::UnexpectedResult(_))));
    assert!(matches!(client.layout_export(other()), Err(JsonApiError::UnexpectedResult(_))));
    assert!(matches!(client.build_replica(other()), Err(JsonApiError::UnexpectedResult(_))));
}

#[test]
fn transport_errors_pass_through() {
    let client = client();
    let failed = || Err(ApiClientError::Server("busy".to_string()));
    assert!(matches!(
        client.session_snapshot(failed()),
        Err(JsonApiError::Client(ApiClientError::Server(text))) if text == "busy"
    ));
    assert!(matches!(client.workspace_list(failed()), Err(JsonApiError::Client(_))));
    assert!(matches!(client.tab_list(failed()), Err(JsonApiError::Client(_))));
    assert!(matches!(client.pane_list(failed()), Err(JsonApiError::Client(_))));
    assert!(matches!(client.layout_export(failed()), Err(JsonApiError::Client(_))));
    assert!(matches!(client.mutate(failed()), Err(JsonApiError::Client(_))));
    assert!(matches!(client.build_replica(failed()), Err(JsonApiError::Client(_))));
    assert!(matches!(
        JsonApiError::from(ApiClientError::Json("bad".to_string())),
        JsonApiError::Client(ApiClientError::Json(text)) if text == "bad"
    ));
}

#[test]
fn errors_read_like_their_cause() {
    let client = JsonApiError::Client(ApiClientError::Server("busy".to_string()));
    assert_eq!(client.message("busy"), "busy");
    let unexpected = JsonApiError::UnexpectedResult(ResponseResult::Other("pong".to_string()));
    assert_eq!(unexpected.message("pong"), "unexpected control-plane result: pong");
}

#[test]
fn a_status_report_becomes_a_structural_event() {
    let event = subscription_event_to_event(status_report()).unwrap();
    assert_eq!(event.event, EventKind::PaneAgentStatusChanged);
    let EventData::PaneAgentStatusChanged { pane_id, agent_status, agent, custom_status, .. } =
        event.data
    else {
        panic!("expected a status change");
    };
    assert_eq!(pane_id, "p1");
    assert_eq!(agent_status, AgentStatus::Blocked);
    assert_eq!(agent.as_deref(), Some("pi"));
    assert_eq!(custom_status.as_deref(), Some("waiting"));
    let other = SubscriptionEventEnvelope {
        event: SubscriptionEventKind::Other,
        data: SubscriptionEventData::Other,
    };
    assert!(subscription_event_to_event(other).is_none());
}

#[test]
fn only_its_close_ends_the_feed() {
    let stream = StructuralEventStream {};
    assert!(matches!(stream.next_event(FeedLine::Closed), Ok(FeedStep::Ended)));
    assert!(matches!(stream.next_event(FeedLine::Event(focused())), Ok(FeedStep::Event(_))));
    assert!(matches!(
        stream.next_event(FeedLine::Subscription(status_report())),
        Ok(FeedStep::Event(EventEnvelope { event: EventKind::PaneAgentStatusChanged, .. }))
    ));
    let other = SubscriptionEventEnvelope {
        event: SubscriptionEventKind::Other,
        data: SubscriptionEventData::Other,
    };
    assert!(matches!(stream.next_event(FeedLine::Subscription(other)), Ok(FeedStep::ReadOn)));
    assert!(matches!(
        stream.next_event(FeedLine::Malformed("eof".to_string())),
        Err(JsonApiError::Client(ApiClientError::Json(text))) if text == "eof"
    ));
    assert!(matches!(
        stream.next_event(FeedLine::Failed(io_error(IoErrorKind::Other))),
        Err(JsonApiError::Client(ApiClientError::Io { .. }))
    ));
}

#[test]
fn the_reader_survives_idle_timeouts_only() {
    let failed = |kind| Err(JsonApiError::Client(io_error(kind)));
    assert!(matches!(reader_step(failed(IoErrorKind::TimedOut)), ReaderAction::Poll));
    assert!(matches!(reader_step(failed(IoErrorKind::WouldBlock)), ReaderAction::Poll));
    assert!(matches!(reader_step(failed(IoErrorKind::Other)), ReaderAction::Disconnect));
    assert!(matches!(
        reader_step(Err(JsonApiError::Client(ApiClientError::Json("bad".to_string())))),
        ReaderAction::Disconnect
    ));
    assert!(matches!(reader_step(Ok(FeedStep::Ended)), ReaderAction::Disconnect));
    assert!(matches!(reader_step(Ok(FeedStep::ReadOn)), ReaderAction::Poll));
    assert!(matches!(
        reader_step(Ok(FeedStep::Event(focused()))),
        ReaderAction::Deliver(EventEnvelope { event: EventKind::PaneFocused, .. })
    ));
}

#[test]
fn no_two_requests_of_a_client_share_an_id() {
    let mut client = JsonApiClient::local(None);
    let mut ids = Vec::new();
    for round in 0..120 {
        // The verb may end like a number of another request.
        let verb = format!("verb:{}", round % 12);
        ids.push(client.request(&verb, Method::SessionSnapshot).id);
        ids.push(client.workspace_list_request().id);
    }
    let count = ids.len();
    ids.sort();
    ids.dedup();
    assert_eq!(ids.len(), count);
}
