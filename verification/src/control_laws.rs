//! What holds of every request, reply and line of the event feed.
use crate::control;
use crate::control::{ApiClientError, JsonApiClient, JsonApiError};
use crate::schema::{
    EventData, EventKind, PaneAgentStatusEvent, ResponseResult, SessionSnapshot, Subscription,
    SubscriptionEventData, SubscriptionEventEnvelope, SubscriptionEventKind,
};
use crate::text;
use crate::text_laws;
use vstd::prelude::*;

verus! {

/// An id begins with the mark of the control plane and the verb, and ends with the
/// number of the request, set off by a colon.
pub proof fn request_ids_name_verb_and_number(verb: Seq<char>, n: nat)
    ensures
        ({
            let id = control::request_id(verb, n);
            let digits = text::decimal_text(n);
            let mark = "mirror-control:"@.len() as int;
            &&& id.len() == mark + verb.len() + 1 + digits.len()
            &&& id.take(mark) == "mirror-control:"@
            &&& id.subrange(mark, mark + verb.len()) == verb
            &&& id[mark + verb.len()] == ':'
            &&& text_laws::decimal_value(id.skip(mark + verb.len() + 1)) == n
        }),
{
    reveal_strlit(":");
    let id = control::request_id(verb, n);
    let digits = text::decimal_text(n);
    let mark = "mirror-control:"@.len() as int;
    assert(id.take(mark) =~= "mirror-control:"@);
    assert(id.subrange(mark, mark + verb.len()) =~= verb);
    assert(id.skip(mark + verb.len() + 1) =~= digits);
    text_laws::decimals_read_back(n);
}

/// Requests are counted one by one, and from zero again after the largest number.
pub proof fn requests_are_counted(n: nat)
    requires
        n <= u64::MAX,
    ensures
        n < u64::MAX ==> JsonApiClient::number_after(n) == n + 1,
        n == u64::MAX ==> JsonApiClient::number_after(n) == 0,
{
}

/// A snapshot is what the server sent as one. Any other result is handed on as
/// unexpected, and an error as the error it is.
pub proof fn only_snapshots_are_snapshots(
    snapshot: Box<SessionSnapshot>,
    other: ResponseResult,
    err: ApiClientError,
)
    ensures
        control::snapshot_of(Ok(ResponseResult::SessionSnapshot { snapshot })) == Ok::<
            SessionSnapshot,
            JsonApiError,
        >(*snapshot),
        !(other is SessionSnapshot) ==> control::snapshot_of(Ok(other)) == Err::<
            SessionSnapshot,
            JsonApiError,
        >(JsonApiError::UnexpectedResult(other)),
        control::snapshot_of(Err(err)) == Err::<SessionSnapshot, JsonApiError>(
            JsonApiError::Client(err),
        ),
{
}

/// A polled status report stands for the status event of the same pane with the same
/// fields; any other line stands for none.
pub proof fn polled_reports_stand_for_status_events(
    envelope: SubscriptionEventEnvelope,
    report: PaneAgentStatusEvent,
)
    ensures
        ({
            let told = control::status_event(envelope);
            let polled = envelope.event == SubscriptionEventKind::PaneAgentStatusChanged
                && envelope.data == SubscriptionEventData::PaneAgentStatusChanged(report);
            &&& polled ==> {
                &&& told matches Some(e)
                &&& e.event == EventKind::PaneAgentStatusChanged
                &&& e.data matches EventData::PaneAgentStatusChanged {
                    pane_id,
                    workspace_id,
                    agent_status,
                    agent,
                    title,
                    display_agent,
                    custom_status,
                    state_labels,
                }
                &&& pane_id == report.pane_id
                &&& workspace_id == report.workspace_id
                &&& agent_status == report.agent_status
                &&& agent == report.agent
                &&& title == report.title
                &&& display_agent == report.display_agent
                &&& custom_status == report.custom_status
                &&& state_labels == report.state_labels
            }
            &&& !(envelope.event == SubscriptionEventKind::PaneAgentStatusChanged && envelope.data
                is PaneAgentStatusChanged) ==> told is None
        }),
{
}

/// The feed asks for every kind of change once, and for the status of all panes at once.
pub proof fn the_feed_asks_for_each_kind_once(asked: Subscription)
    ensures
        control::replica_feed().len() == 23,
        control::replica_feed().no_duplicates(),
        control::replica_feed().contains(asked) <==> (asked
            matches Subscription::PaneAgentStatusChanged { pane_id, agent_status } ==> pane_id
            is None && agent_status is None),
{
    let feed = control::replica_feed();
    let all = Subscription::PaneAgentStatusChanged { pane_id: None, agent_status: None };
    assert(feed[0] == Subscription::WorkspaceCreated);
    assert(feed[1] == Subscription::WorkspaceUpdated);
    assert(feed[2] == Subscription::WorkspaceRenamed);
    assert(feed[3] == Subscription::WorkspaceMoved);
    assert(feed[4] == Subscription::WorkspaceClosed);
    assert(feed[5] == Subscription::WorkspaceFocused);
    assert(feed[6] == Subscription::WorktreeCreated);
    assert(feed[7] == Subscription::WorktreeOpened);
    assert(feed[8] == Subscription::WorktreeRemoved);
    assert(feed[9] == Subscription::TabCreated);
    assert(feed[10] == Subscription::TabClosed);
    assert(feed[11] == Subscription::TabFocused);
    assert(feed[12] == Subscription::TabRenamed);
    assert(feed[13] == Subscription::TabMoved);
    assert(feed[14] == Subscription::PaneCreated);
    assert(feed[15] == Subscription::PaneClosed);
    assert(feed[16] == Subscription::PaneFocused);
    assert(feed[17] == Subscription::PaneMoved);
    assert(feed[18] == Subscription::PaneExited);
    assert(feed[19] == Subscription::PaneAgentDetected);
    assert(feed[20] == all);
    assert(feed[21] == Subscription::LayoutUpdated);
    assert(feed[22] == Subscription::NotificationShown);
}

/// An error of the client is handed on as it is.
pub proof fn client_errors_are_handed_on(err: ApiClientError)
    ensures
        <JsonApiError as vstd::std_specs::convert::FromSpec<ApiClientError>>::from_spec(err)
            == JsonApiError::Client(err),
        <JsonApiError as vstd::std_specs::convert::FromSpec<ApiClientError>>::obeys_from_spec(),
{
}

} // verus!
