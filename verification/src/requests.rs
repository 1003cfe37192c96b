//! Tables of open requests.

use crate::messages::{PublishDone, RequestError, Subscribe, SubscribeView};
use crate::model::{self, apply_message_parameter_update, MessageParameter};
use crate::status::{PublishDoneStatusCode, RequestErrorCode, TerminationCode};
use crate::streams::StreamId;
use crate::subscription::{Subscription, SubscriptionView};
use crate::track::Waiter;
use crate::track_name::FullTrackName;
use std::collections::HashMap;
use vstd::prelude::*;

verus! {

/// A SUBSCRIBE request: the message as the subscriber sent it, and as the relay
/// forwarded it.
#[derive(Debug)]
pub struct SubscribeRequest {
    pub original_request_id: u64,
    /// The connection that asked.
    pub requested_by: u64,
    pub original_subscribe_request: Subscribe,
    pub new_subscribe_request: Option<Subscribe>,
}

/// What a [`SubscribeRequest`] stands for.
#[verifier::ext_equal]
pub struct RequestView {
    pub original_request_id: u64,
    pub requested_by: u64,
    pub original: SubscribeView,
    pub forwarded: Option<SubscribeView>,
}

impl View for SubscribeRequest {
    type V = RequestView;

    open spec fn view(&self) -> RequestView {
        RequestView {
            original_request_id: self.original_request_id,
            requested_by: self.requested_by,
            original: self.original_subscribe_request@,
            forwarded: match self.new_subscribe_request {
                Some(subscribe) => Some(subscribe@),
                None => None,
            },
        }
    }
}

impl RequestView {
    /// The request after a REQUEST_UPDATE.
    pub open spec fn updated(self, updates: Seq<MessageParameter>) -> RequestView {
        RequestView {
            original: SubscribeView {
                parameters: model::with_parameters(self.original.parameters, updates),
                ..self.original
            },
            ..self
        }
    }

    /// The request that an answer goes to.
    pub open spec fn waiter(self) -> Waiter {
        Waiter { request_id: self.original_request_id, connection_id: self.requested_by }
    }
}

impl Clone for SubscribeRequest {
    fn clone(&self) -> (copy: Self)
        ensures
            copy@ == self@,
    {
        SubscribeRequest {
            original_request_id: self.original_request_id,
            requested_by: self.requested_by,
            original_subscribe_request: self.original_subscribe_request.clone(),
            new_subscribe_request: match &self.new_subscribe_request {
                Some(subscribe) => Some(subscribe.clone()),
                None => None,
            },
        }
    }
}

impl SubscribeRequest {
    pub fn new(
        original_request_id: u64,
        requested_by: u64,
        original_subscribe_request: Subscribe,
        new_subscribe_request: Option<Subscribe>,
    ) -> (request: SubscribeRequest)
        ensures
            request.original_request_id == original_request_id,
            request.requested_by == requested_by,
            request.original_subscribe_request == original_subscribe_request,
            request.new_subscribe_request == new_subscribe_request,
    {
        SubscribeRequest {
            original_request_id,
            requested_by,
            original_subscribe_request,
            new_subscribe_request,
        }
    }

    /// The request that an answer goes to.
    pub fn waiter(&self) -> (waiter: Waiter)
        ensures
            waiter == self@.waiter(),
    {
        Waiter { request_id: self.original_request_id, connection_id: self.requested_by }
    }

    fn apply_update(&mut self, updates: &Vec<MessageParameter>)
        ensures
            final(self)@ == old(self)@.updated(updates@),
    {
        apply_message_parameter_update(
            &mut self.original_subscribe_request.subscribe_parameters,
            updates,
        );
    }
}

/// An open request of any kind.
#[derive(Debug)]
pub enum PendingRequest {
    Subscribe(SubscribeRequest),
    /// A request of another kind.
    Other,
}

/// What a [`PendingRequest`] stands for.
#[verifier::ext_equal]
pub enum PendingView {
    Subscribe(RequestView),
    Other,
}

impl View for PendingRequest {
    type V = PendingView;

    open spec fn view(&self) -> PendingView {
        match *self {
            PendingRequest::Subscribe(request) => PendingView::Subscribe(request@),
            PendingRequest::Other => PendingView::Other,
        }
    }
}

impl PendingView {
    /// The request after a REQUEST_UPDATE; only a SUBSCRIBE changes.
    pub open spec fn updated(self, updates: Seq<MessageParameter>) -> PendingView {
        match self {
            PendingView::Subscribe(request) => PendingView::Subscribe(request.updated(updates)),
            PendingView::Other => PendingView::Other,
        }
    }
}

/// The requests of one client. Subscribe requests are kept twice, in a table of
/// their own and among the inbound requests of all kinds.
#[derive(Debug)]
pub struct ClientRequests {
    subscribe_requests: HashMap<u64, SubscribeRequest>,
    inbound_requests: HashMap<u64, PendingRequest>,
}

/// What a [`ClientRequests`] stands for.
#[verifier::ext_equal]
pub struct ClientRequestsView {
    pub subscribe: Map<u64, RequestView>,
    pub inbound: Map<u64, PendingView>,
}

impl View for ClientRequests {
    type V = ClientRequestsView;

    closed spec fn view(&self) -> ClientRequestsView {
        ClientRequestsView {
            subscribe: self.subscribe_requests@.map_values(|r: SubscribeRequest| r@),
            inbound: self.inbound_requests@.map_values(|r: PendingRequest| r@),
        }
    }
}

impl ClientRequestsView {
    /// The tables without a request.
    pub open spec fn without(self, request_id: u64) -> ClientRequestsView {
        ClientRequestsView {
            subscribe: self.subscribe.remove(request_id),
            inbound: self.inbound.remove(request_id),
        }
    }

    /// The tables with a subscribe request.
    pub open spec fn with(self, request_id: u64, request: RequestView) -> ClientRequestsView {
        ClientRequestsView {
            subscribe: self.subscribe.insert(request_id, request),
            inbound: self.inbound.insert(request_id, PendingView::Subscribe(request)),
        }
    }

    /// The tables after a REQUEST_UPDATE for a request that is there.
    pub open spec fn updated(
        self,
        request_id: u64,
        updates: Seq<MessageParameter>,
    ) -> ClientRequestsView {
        ClientRequestsView {
            subscribe: self.subscribe.insert(
                request_id,
                self.subscribe[request_id].updated(updates),
            ),
            inbound: if self.inbound.contains_key(request_id) {
                self.inbound.insert(request_id, self.inbound[request_id].updated(updates))
            } else {
                self.inbound
            },
        }
    }
}

impl ClientRequests {
    pub fn new() -> (requests: ClientRequests)
        ensures
            requests@ == (ClientRequestsView { subscribe: Map::empty(), inbound: Map::empty() }),
    {
        let requests = ClientRequests {
            subscribe_requests: HashMap::new(),
            inbound_requests: HashMap::new(),
        };
        proof {
            assert(requests@.subscribe =~= Map::empty());
            assert(requests@.inbound =~= Map::empty());
        }
        requests
    }

    /// Whether a subscribe request is in the table.
    pub fn is_known(&self, request_id: u64) -> (known: bool)
        ensures
            known == self@.subscribe.contains_key(request_id),
    {
        broadcast use vstd::std_specs::hash::group_hash_axioms;

        self.subscribe_requests.contains_key(&request_id)
    }

    /// The track of a subscribe request.
    pub fn track_of(&self, request_id: u64) -> (track: Option<FullTrackName>)
        ensures
            match track {
                Some(name) => self@.subscribe.contains_key(request_id) && name@
                    == self@.subscribe[request_id].original.track,
                None => !self@.subscribe.contains_key(request_id),
            },
    {
        broadcast use vstd::std_specs::hash::group_hash_axioms;

        match self.subscribe_requests.get(&request_id) {
            Some(request) => Some(request.original_subscribe_request.get_full_track_name()),
            None => None,
        }
    }

    /// Enters a subscribe request in both tables.
    pub fn register(&mut self, request_id: u64, request: SubscribeRequest)
        ensures
            final(self)@ == old(self)@.with(request_id, request@),
    {
        broadcast use vstd::std_specs::hash::group_hash_axioms;

        let ghost before = self@;
        let copy: SubscribeRequest = request.clone();
        self.subscribe_requests.insert(request_id, request);
        self.inbound_requests.insert(request_id, PendingRequest::Subscribe(copy));
        proof {
            assert(self@.subscribe =~= before.with(request_id, request@).subscribe);
            assert(self@.inbound =~= before.with(request_id, request@).inbound);
        }
    }

    /// Takes a request out of both tables.
    pub fn forget(&mut self, request_id: u64)
        ensures
            final(self)@ == old(self)@.without(request_id),
    {
        broadcast use vstd::std_specs::hash::group_hash_axioms;

        let ghost before = self@;
        self.subscribe_requests.remove(&request_id);
        self.inbound_requests.remove(&request_id);
        proof {
            assert(self@.subscribe =~= before.without(request_id).subscribe);
            assert(self@.inbound =~= before.without(request_id).inbound);
        }
    }

    /// Applies a REQUEST_UPDATE to a subscribe request, in both tables, and
    /// returns its track. A request that is not there is a protocol violation.
    pub fn apply_update(&mut self, request_id: u64, updates: &Vec<MessageParameter>) -> (track:
        Result<FullTrackName, TerminationCode>)
        ensures
            match track {
                Ok(name) => {
                    &&& old(self)@.subscribe.contains_key(request_id)
                    &&& name@ == old(self)@.subscribe[request_id].original.track
                    &&& final(self)@ == old(self)@.updated(request_id, updates@)
                },
                Err(code) => {
                    &&& !old(self)@.subscribe.contains_key(request_id)
                    &&& code == TerminationCode::ProtocolViolation
                    &&& final(self)@ == old(self)@
                },
            },
    {
        broadcast use vstd::std_specs::hash::group_hash_axioms;

        let ghost before = self@;
        let ghost requests = self.subscribe_requests@;
        let ghost inbound = self.inbound_requests@;
        let mut request: SubscribeRequest = match self.subscribe_requests.remove(&request_id) {
            Some(request) => request,
            None => {
                proof {
                    assert(self.subscribe_requests@ =~= requests);
                }
                return Err(TerminationCode::ProtocolViolation);
            },
        };
        request.apply_update(updates);
        let name: FullTrackName = request.original_subscribe_request.get_full_track_name();
        self.subscribe_requests.insert(request_id, request);
        match self.inbound_requests.remove(&request_id) {
            Some(PendingRequest::Subscribe(copy)) => {
                let mut copy: SubscribeRequest = copy;
                copy.apply_update(updates);
                self.inbound_requests.insert(request_id, PendingRequest::Subscribe(copy));
            },
            Some(other) => {
                self.inbound_requests.insert(request_id, other);
            },
            None => {},
        }
        proof {
            let after = before.updated(request_id, updates@);
            assert(self@.subscribe =~= after.subscribe);
            assert(self@.inbound =~= after.inbound);
        }
        Ok(name)
    }
}

/// The requests that the relay has sent upstream and that wait for their answer.
#[derive(Debug)]
pub struct RelayRequests {
    pending: HashMap<u64, PendingRequest>,
}

impl View for RelayRequests {
    type V = Map<u64, PendingView>;

    closed spec fn view(&self) -> Map<u64, PendingView> {
        self.pending@.map_values(|r: PendingRequest| r@)
    }
}

/// The subscribe request under an id, if there is one.
pub open spec fn subscribe_under(
    requests: Map<u64, PendingView>,
    request_id: u64,
) -> Option<RequestView> {
    if requests.contains_key(request_id) {
        match requests[request_id] {
            PendingView::Subscribe(request) => Some(request),
            PendingView::Other => None,
        }
    } else {
        None
    }
}

impl RelayRequests {
    pub fn new() -> (requests: RelayRequests)
        ensures
            requests@ == Map::<u64, PendingView>::empty(),
    {
        let requests = RelayRequests { pending: HashMap::new() };
        proof {
            assert(requests@ =~= Map::empty());
        }
        requests
    }

    /// Enters a request before it goes upstream, so that its answer finds it.
    pub fn insert(&mut self, request_id: u64, request: PendingRequest)
        ensures
            final(self)@ == old(self)@.insert(request_id, request@),
    {
        broadcast use vstd::std_specs::hash::group_hash_axioms;

        let ghost before = self@;
        self.pending.insert(request_id, request);
        proof {
            assert(self@ =~= before.insert(request_id, request@));
        }
    }

    /// The subscribe request that an acceptance belongs to; the entry stays
    /// until the exchange has ended. An id that is unknown, or that belongs to
    /// another kind of request, gives `None`.
    pub fn find_subscribe(&self, request_id: u64) -> (found: Option<&SubscribeRequest>)
        ensures
            match found {
                Some(request) => subscribe_under(self@, request_id) == Some(request@),
                None => subscribe_under(self@, request_id) is None,
            },
    {
        broadcast use vstd::std_specs::hash::group_hash_axioms;

        match self.pending.get(&request_id) {
            Some(PendingRequest::Subscribe(request)) => Some(request),
            _ => None,
        }
    }

    /// Takes out the request that an error belongs to.
    pub fn take_subscribe(&mut self, request_id: u64) -> (taken: Option<SubscribeRequest>)
        ensures
            final(self)@ == old(self)@.remove(request_id),
            match taken {
                Some(request) => subscribe_under(old(self)@, request_id) == Some(request@),
                None => subscribe_under(old(self)@, request_id) is None,
            },
    {
        broadcast use vstd::std_specs::hash::group_hash_axioms;

        let ghost before = self@;
        let removed: Option<PendingRequest> = self.pending.remove(&request_id);
        proof {
            assert(self@ =~= before.remove(request_id));
        }
        match removed {
            Some(PendingRequest::Subscribe(request)) => Some(request),
            _ => None,
        }
    }

    /// Drops the entry of an exchange that has ended, in whatever way.
    pub fn remove(&mut self, request_id: u64)
        ensures
            final(self)@ == old(self)@.remove(request_id),
    {
        broadcast use vstd::std_specs::hash::group_hash_axioms;

        let ghost before = self@;
        self.pending.remove(&request_id);
        proof {
            assert(self@ =~= before.remove(request_id));
        }
    }
}

/// How a source subscription ends after a switch.
#[derive(Debug)]
pub struct Termination {
    pub done: PublishDone,
    pub to_close: Vec<StreamId>,
}

impl Termination {
    /// Whether this ends the subscription that `request_id` asked for, leaving the
    /// client's requests and the subscription as given.
    pub open spec fn ends(
        self,
        requests: ClientRequestsView,
        source: SubscriptionView,
        request_id: u64,
        requests_after: ClientRequestsView,
        source_after: SubscriptionView,
    ) -> bool {
        &&& requests_after == requests.without(request_id)
        &&& source_after == source.ended()
        &&& self.done.status_code == PublishDoneStatusCode::SubscriptionEnded
        &&& self.done.stream_count == source.opened
        &&& self.to_close@.no_duplicates()
        &&& forall|s: StreamId|
            self.to_close@.contains(s) <==> !source.finished
                && #[trigger] source.last_ids.contains_key(s)
    }
}

/// Ends the subscription that a switch has replaced. Its request leaves the
/// tables first: the subscriber may answer the PUBLISH_DONE with another SWITCH
/// at once, and must then find no trace of it.
pub fn terminate_source(
    requests: &mut ClientRequests,
    source: &mut Subscription,
    request_id: u64,
) -> (termination: Termination)
    ensures
        final(requests)@ == old(requests)@.without(request_id),
        final(source)@.finished,
        !old(source)@.finished ==> final(source)@ == (SubscriptionView {
            finished: true,
            last_ids: Map::empty(),
            ..old(source)@
        }),
        old(source)@.finished ==> final(source)@ == old(source)@
            && termination.to_close@.len() == 0,
        !old(source)@.finished ==> termination.to_close@.no_duplicates() && forall|s: StreamId|
            termination.to_close@.contains(s) <==> #[trigger] old(source)@.last_ids.contains_key(s),
        termination.done.status_code == PublishDoneStatusCode::SubscriptionEnded,
        termination.done.stream_count == old(source)@.opened,
        termination.done.reason@ == "switched to target track"@,
        termination.ends(
            old(requests)@,
            old(source)@,
            request_id,
            final(requests)@,
            final(source)@,
        ),
{
    requests.forget(request_id);
    let done: PublishDone = source.publish_done(
        PublishDoneStatusCode::SubscriptionEnded,
        "switched to target track",
    );
    let to_close: Vec<StreamId> = source.finish();
    Termination { done, to_close }
}

/// How an update of a subscription went.
#[derive(Debug)]
pub enum UpdateResult {
    Updated,
    /// It failed. What went wrong is left out where it is too long for a reason
    /// phrase.
    Failed { detail: Option<String>, opened_stream_count: u64 },
    NoSubscription,
}

/// How a REQUEST_UPDATE is answered.
#[derive(Debug)]
pub enum UpdateReply {
    /// REQUEST_OK.
    Accept,
    /// REQUEST_ERROR; the subscription stays.
    Refuse(RequestError),
    /// REQUEST_ERROR, then PUBLISH_DONE, which ends the subscription.
    Terminate(RequestError, PublishDone),
}

impl UpdateReply {
    /// Whether this is the answer to an update that went as `result` says.
    pub open spec fn answers(self, result: UpdateResult) -> bool {
        match self {
            UpdateReply::Accept => result is Updated,
            UpdateReply::Refuse(error) => {
                &&& result is NoSubscription
                &&& error.error_code == RequestErrorCode::DoesNotExist
            },
            UpdateReply::Terminate(error, done) => {
                &&& result matches UpdateResult::Failed { opened_stream_count, .. }
                &&& error.error_code == RequestErrorCode::InternalError
                &&& done.status_code == PublishDoneStatusCode::UpdateFailed
                &&& done.stream_count == opened_stream_count
            },
        }
    }
}

/// The answer to a REQUEST_UPDATE. An update that fails ends the subscription.
pub fn reply_to_update(result: UpdateResult) -> (reply: UpdateReply)
    ensures
        match (result, reply) {
            (UpdateResult::Updated, UpdateReply::Accept) => true,
            (
                UpdateResult::Failed { detail, opened_stream_count },
                UpdateReply::Terminate(error, done),
            ) => {
                &&& error.error_code == RequestErrorCode::InternalError
                &&& error.retry_interval == 0
                &&& error.reason@ == match detail {
                    Some(detail) => "Update failed: "@ + detail@,
                    None => "Update failed"@,
                }
                &&& done.status_code == PublishDoneStatusCode::UpdateFailed
                &&& done.stream_count == opened_stream_count
                &&& done.reason@ == "REQUEST_UPDATE failed"@
            },
            (UpdateResult::NoSubscription, UpdateReply::Refuse(error)) => {
                &&& error.error_code == RequestErrorCode::DoesNotExist
                &&& error.retry_interval == 0
                &&& error.reason@ == "Subscription not found"@
            },
            _ => false,
        },
        reply.answers(result),
{
    match result {
        UpdateResult::Updated => UpdateReply::Accept,
        UpdateResult::Failed { detail, opened_stream_count } => {
            let reason: String = match detail {
                Some(detail) => {
                    let mut reason: String = "Update failed: ".to_owned();
                    reason.append(detail.as_str());
                    reason
                },
                None => "Update failed".to_owned(),
            };
            UpdateReply::Terminate(
                RequestError::new(RequestErrorCode::InternalError, reason.as_str()),
                PublishDone {
                    status_code: PublishDoneStatusCode::UpdateFailed,
                    stream_count: opened_stream_count,
                    reason: "REQUEST_UPDATE failed".to_owned(),
                },
            )
        },
        UpdateResult::NoSubscription => UpdateReply::Refuse(
            RequestError::new(RequestErrorCode::DoesNotExist, "Subscription not found"),
        ),
    }
}

/// A REQUEST_UPDATE changes one request only.
pub proof fn law_update_touches_one_request(
    requests: ClientRequestsView,
    request_id: u64,
    other: u64,
    updates: Seq<MessageParameter>,
)
    requires
        other != request_id,
    ensures
        requests.updated(request_id, updates).subscribe.contains_key(other)
            == requests.subscribe.contains_key(other),
        requests.updated(request_id, updates).subscribe[other] == requests.subscribe[other],
        requests.updated(request_id, updates).inbound.contains_key(other)
            == requests.inbound.contains_key(other),
        requests.updated(request_id, updates).inbound[other] == requests.inbound[other],
{
}

/// The two tables agree about a request that was entered, and go on agreeing
/// when it is updated.
pub proof fn law_tables_agree(
    requests: ClientRequestsView,
    request_id: u64,
    request: RequestView,
    updates: Seq<MessageParameter>,
)
    ensures
        ({
            let entered = requests.with(request_id, request);
            let updated = entered.updated(request_id, updates);
            &&& entered.inbound[request_id] == PendingView::Subscribe(
                entered.subscribe[request_id],
            )
            &&& updated.inbound[request_id] == PendingView::Subscribe(
                updated.subscribe[request_id],
            )
            &&& !updated.without(request_id).subscribe.contains_key(request_id)
            &&& !updated.without(request_id).inbound.contains_key(request_id)
        }),
{
}

/// A SWITCH that names a subscription which a switch has replaced finds it
/// unknown, so it is dropped.
pub proof fn law_replaced_subscription_is_not_established(
    requests: ClientRequestsView,
    request_id: u64,
    current: crate::switch_handler::CurrentSubscription,
)
    requires
        current.request_known == requests.without(request_id).subscribe.contains_key(request_id),
    ensures
        !current.established(),
{
}

/// A request that is registered is found under its id in both tables, and the other
/// requests stay as they were.
pub proof fn law_registered_request_is_found(
    requests: ClientRequestsView,
    request_id: u64,
    request: RequestView,
    other: u64,
)
    ensures
        ({
            let after = requests.with(request_id, request);
            &&& after.subscribe.contains_key(request_id)
            &&& after.subscribe[request_id] == request
            &&& subscribe_under(after.inbound, request_id) == Some(request)
            &&& other != request_id ==> after.subscribe.contains_key(other)
                == requests.subscribe.contains_key(other)
            &&& other != request_id ==> after.subscribe[other] == requests.subscribe[other]
            &&& other != request_id ==> subscribe_under(after.inbound, other)
                == subscribe_under(requests.inbound, other)
        }),
{
}

/// A request that is forgotten is in neither table, and the other requests stay.
pub proof fn law_forgetting_spares_the_others(
    requests: ClientRequestsView,
    request_id: u64,
    other: u64,
)
    ensures
        ({
            let after = requests.without(request_id);
            &&& !after.subscribe.contains_key(request_id)
            &&& !after.inbound.contains_key(request_id)
            &&& other != request_id ==> after.subscribe.contains_key(other)
                == requests.subscribe.contains_key(other)
            &&& other != request_id && requests.subscribe.contains_key(other)
                ==> after.subscribe[other] == requests.subscribe[other]
            &&& other != request_id ==> after.inbound.contains_key(other)
                == requests.inbound.contains_key(other)
            &&& other != request_id && requests.inbound.contains_key(other)
                ==> after.inbound[other] == requests.inbound[other]
        }),
{
}

/// Only a SUBSCRIBE is found as one, and it is the one that was entered.
pub proof fn law_only_a_subscribe_is_found(requests: Map<u64, PendingView>, request_id: u64)
    ensures
        subscribe_under(requests, request_id) is Some <==> requests.contains_key(request_id)
            && requests[request_id] is Subscribe,
        subscribe_under(requests, request_id) matches Some(request) ==> requests[request_id]
            == PendingView::Subscribe(request),
{
}

/// The one who waits for a request is the connection that made it, under the id that it
/// chose.
pub proof fn law_waiter_is_the_requester(request: RequestView)
    ensures
        request.waiter().request_id == request.original_request_id,
        request.waiter().connection_id == request.requested_by,
{
}

/// An update puts the last value of each kind that it names in force, and leaves who
/// asked, for which track and what went upstream.
pub proof fn law_update_changes_the_parameters_alone(
    request: RequestView,
    updates: Seq<MessageParameter>,
    last: int,
)
    requires
        0 <= last < updates.len(),
        forall|i: int|
            last < i < updates.len() ==> (#[trigger] updates[i]).kind() != updates[last].kind(),
    ensures
        ({
            let after = request.updated(updates);
            &&& model::first_of_kind(after.original.parameters, updates[last].kind()) == Some(
                updates[last],
            )
            &&& after.original.request_id == request.original.request_id
            &&& after.original.track == request.original.track
            &&& after.original_request_id == request.original_request_id
            &&& after.requested_by == request.requested_by
            &&& after.forwarded == request.forwarded
        }),
        PendingView::Subscribe(request).updated(updates) == PendingView::Subscribe(
            request.updated(updates),
        ),
        PendingView::Other.updated(updates) is Other,
{
    model::law_update_puts_the_last_of_a_kind_in_force(
        request.original.parameters,
        updates,
        last,
    );
}

/// A request that is updated stays open, with its new parameters, in each table that
/// holds it.
pub proof fn law_update_reaches_the_request(
    requests: ClientRequestsView,
    request_id: u64,
    updates: Seq<MessageParameter>,
)
    requires
        requests.subscribe.contains_key(request_id),
    ensures
        ({
            let after = requests.updated(request_id, updates);
            &&& after.subscribe.contains_key(request_id)
            &&& after.subscribe[request_id] == requests.subscribe[request_id].updated(updates)
            &&& after.inbound.contains_key(request_id) == requests.inbound.contains_key(
                request_id,
            )
            &&& requests.inbound.contains_key(request_id) ==> after.inbound[request_id]
                == requests.inbound[request_id].updated(updates)
        }),
{
}

/// A source that is terminated is finished and forgotten. Each of its open streams is
/// closed once, its PUBLISH_DONE counts the streams that it opened, and a source that had
/// finished before closes nothing.
pub proof fn law_termination_closes_what_is_open(
    termination: Termination,
    requests: ClientRequestsView,
    source: SubscriptionView,
    request_id: u64,
    requests_after: ClientRequestsView,
    source_after: SubscriptionView,
    stream_id: StreamId,
)
    requires
        termination.ends(requests, source, request_id, requests_after, source_after),
    ensures
        source_after.finished,
        source_after.opened == source.opened,
        termination.done.stream_count == source.opened,
        !requests_after.subscribe.contains_key(request_id),
        !source.finished && source.last_ids.contains_key(stream_id)
            ==> termination.to_close@.contains(stream_id),
        source.finished ==> !termination.to_close@.contains(stream_id),
        !source.finished ==> !source_after.last_ids.contains_key(stream_id),
{
    let was_open = source.last_ids.contains_key(stream_id);
    assert(termination.to_close@.contains(stream_id) <==> !source.finished && was_open);
}

/// An update that failed ends the subscription, one without a subscription is refused,
/// and only one that was applied is accepted.
pub proof fn law_reply_tells_the_result(reply: UpdateReply, result: UpdateResult)
    requires
        reply.answers(result),
    ensures
        reply is Accept <==> result is Updated,
        reply is Refuse <==> result is NoSubscription,
        reply is Terminate <==> result is Failed,
        reply matches UpdateReply::Refuse(error) ==> error.error_code
            == RequestErrorCode::DoesNotExist,
        reply matches UpdateReply::Terminate(error, done) ==> error.error_code
            == RequestErrorCode::InternalError && done.status_code
            == PublishDoneStatusCode::UpdateFailed && done.stream_count
            == result->opened_stream_count,
{
}

} // verus!
