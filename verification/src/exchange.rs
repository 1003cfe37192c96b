//! What happens to a SUBSCRIBE across the tables of the relay: the track that it
//! joins, the requests that go upstream for it, and the requests of its client.
//!
//! A track is handed in as the place where the relay keeps it. A place that is
//! empty afterwards has had its track forgotten.

use crate::messages::{copy_parameters, RequestError, Subscribe, SubscribeView};
use crate::model::MessageParameter;
use crate::requests::{
    self, ClientRequests, ClientRequestsView, PendingRequest, PendingView, RelayRequests,
    RequestView, SubscribeRequest,
};
use crate::status::{PublishDoneStatusCode, TerminationCode};
use crate::streams::{HeaderInfo, StreamId};
use crate::subscribe_handler::unsupported_property_error;
use crate::subscription::{Subscription, SubscriptionView};
use crate::switch_guard::{GuardState, SwitchInFlight};
use crate::track::{
    Departure, SubscribeAnswer, TrackRecord, TrackView, UpstreamFailure, Waiter,
};
use vstd::prelude::*;

verus! {

/// The SUBSCRIBE that goes to a publisher: the same track under a request id of
/// its own, with the parameters that the relay asks for.
pub open spec fn forwarded(
    subscribe: SubscribeView,
    relay_request_id: u64,
    parameters: Seq<MessageParameter>,
) -> SubscribeView {
    SubscribeView { request_id: relay_request_id, track: subscribe.track, parameters }
}

/// The entry under which the answer to a forwarded SUBSCRIBE finds its way back.
pub open spec fn forwarded_entry(
    subscribe: SubscribeView,
    requested_by: u64,
    relay_request_id: u64,
    parameters: Seq<MessageParameter>,
) -> PendingView {
    PendingView::Subscribe(
        RequestView {
            original_request_id: subscribe.request_id,
            requested_by,
            original: subscribe,
            forwarded: Some(forwarded(subscribe, relay_request_id, parameters)),
        },
    )
}

/// The open requests of the relay, with one for each publisher.
pub open spec fn with_forwarded(
    open: Map<u64, PendingView>,
    subscribe: SubscribeView,
    requested_by: u64,
    relay_request_ids: Seq<u64>,
    parameters: Seq<MessageParameter>,
) -> Map<u64, PendingView>
    decreases relay_request_ids.len(),
{
    if relay_request_ids.len() == 0 {
        open
    } else {
        with_forwarded(
            open,
            subscribe,
            requested_by,
            relay_request_ids.drop_last(),
            parameters,
        ).insert(
            relay_request_ids.last(),
            forwarded_entry(subscribe, requested_by, relay_request_ids.last(), parameters),
        )
    }
}

/// Every SUBSCRIBE that was forwarded is found again under its request id, and
/// leads back to the request that it was forwarded for.
pub proof fn law_forwarded_requests_are_found(
    open: Map<u64, PendingView>,
    subscribe: SubscribeView,
    requested_by: u64,
    relay_request_ids: Seq<u64>,
    parameters: Seq<MessageParameter>,
    i: int,
)
    requires
        0 <= i < relay_request_ids.len(),
    ensures
        requests::subscribe_under(
            with_forwarded(open, subscribe, requested_by, relay_request_ids, parameters),
            relay_request_ids[i],
        ) matches Some(request) && request.waiter() == (Waiter {
            request_id: subscribe.request_id,
            connection_id: requested_by,
        }) && request.original == subscribe,
    decreases relay_request_ids.len(),
{
    if i < relay_request_ids.len() - 1 {
        law_forwarded_requests_are_found(
            open,
            subscribe,
            requested_by,
            relay_request_ids.drop_last(),
            parameters,
            i,
        );
    }
}

fn forward(
    open: &mut RelayRequests,
    subscribe: &Subscribe,
    requested_by: u64,
    relay_request_ids: &Vec<u64>,
    parameters: &Vec<MessageParameter>,
) -> (forwards: Vec<Subscribe>)
    ensures
        final(open)@ == with_forwarded(
            old(open)@,
            subscribe@,
            requested_by,
            relay_request_ids@,
            parameters@,
        ),
        forwards@.len() == relay_request_ids@.len(),
        forall|i: int|
            0 <= i < forwards@.len() ==> (#[trigger] forwards@[i])@ == forwarded(
                subscribe@,
                relay_request_ids@[i],
                parameters@,
            ),
{
    let ghost before = open@;
    let mut forwards: Vec<Subscribe> = Vec::new();
    let mut i: usize = 0;
    while i < relay_request_ids.len()
        invariant
            i <= relay_request_ids@.len(),
            open@ == with_forwarded(
                before,
                subscribe@,
                requested_by,
                relay_request_ids@.take(i as int),
                parameters@,
            ),
            forwards@.len() == i,
            forall|k: int|
                0 <= k < i ==> (#[trigger] forwards@[k])@ == forwarded(
                    subscribe@,
                    relay_request_ids@[k],
                    parameters@,
                ),
        decreases relay_request_ids@.len() - i,
    {
        let relay_request_id: u64 = relay_request_ids[i];
        let mut new_subscribe: Subscribe = subscribe.clone();
        new_subscribe.request_id = relay_request_id;
        new_subscribe.subscribe_parameters = copy_parameters(parameters);
        proof {
            assert(new_subscribe@ == forwarded(subscribe@, relay_request_id, parameters@));
            assert(relay_request_ids@.take(i + 1).drop_last() =~= relay_request_ids@.take(
                i as int,
            ));
        }
        let request: SubscribeRequest = SubscribeRequest::new(
            subscribe.request_id,
            requested_by,
            subscribe.clone(),
            Some(new_subscribe.clone()),
        );
        open.insert(relay_request_id, PendingRequest::Subscribe(request));
        forwards.push(new_subscribe);
        i = i + 1;
    }
    proof {
        assert(relay_request_ids@.take(i as int) =~= relay_request_ids@);
    }
    forwards
}

/// Takes a SUBSCRIBE to its track. Returns how it is answered, and what goes
/// upstream. The request that created the track goes to every publisher, under
/// one of `relay_request_ids` each; it is entered among the open requests first,
/// since a publisher may answer at once.
pub fn join_track(
    track: &mut TrackRecord,
    open: &mut RelayRequests,
    subscribe: &Subscribe,
    connection_id: u64,
    is_creator: bool,
    is_switch: bool,
    relay_request_ids: &Vec<u64>,
    upstream_parameters: &Vec<MessageParameter>,
) -> (joined: (SubscribeAnswer, Vec<Subscribe>))
    ensures
        final(track)@ == old(track)@.joined(
            Waiter { request_id: subscribe.request_id, connection_id },
            is_creator,
            is_switch,
            relay_request_ids@.len() as u64,
        ),
        joined.0.answers(old(track)@, connection_id, is_creator, is_switch),
        final(open)@ == if joined.0 is ForwardUpstream {
            with_forwarded(
                old(open)@,
                subscribe@,
                connection_id,
                relay_request_ids@,
                upstream_parameters@,
            )
        } else {
            old(open)@
        },
        joined.1@.len() == if joined.0 is ForwardUpstream {
            relay_request_ids@.len()
        } else {
            0
        },
        forall|i: int|
            0 <= i < joined.1@.len() ==> (#[trigger] joined.1@[i])@ == forwarded(
                subscribe@,
                relay_request_ids@[i],
                upstream_parameters@,
            ),
{
    let waiter: Waiter = Waiter { request_id: subscribe.request_id, connection_id };
    let answer: SubscribeAnswer = track.subscribe(
        waiter,
        is_creator,
        is_switch,
        relay_request_ids.len() as u64,
    );
    match answer {
        SubscribeAnswer::ForwardUpstream => {
            let forwards: Vec<Subscribe> = forward(
                open,
                subscribe,
                connection_id,
                relay_request_ids,
                upstream_parameters,
            );
            (SubscribeAnswer::ForwardUpstream, forwards)
        },
        other => (other, Vec::new()),
    }
}

/// A SUBSCRIBE is recorded for its client, unless it was a duplicate or its
/// answer could not be sent.
pub open spec fn is_recorded(answer: SubscribeAnswer, delivered: bool) -> bool {
    match answer {
        SubscribeAnswer::Duplicate(_) => false,
        SubscribeAnswer::ForwardUpstream | SubscribeAnswer::Wait => true,
        SubscribeAnswer::Accept | SubscribeAnswer::Refuse(_) => delivered,
    }
}

/// Records a SUBSCRIBE for its client, given how it was answered and whether the
/// answer, where there was one, could be sent.
pub fn record_subscribe(
    requests: &mut ClientRequests,
    subscribe: Subscribe,
    connection_id: u64,
    answer: &SubscribeAnswer,
    delivered: bool,
) -> (recorded: bool)
    ensures
        recorded == is_recorded(*answer, delivered),
        final(requests)@ == if recorded {
            old(requests)@.with(
                subscribe.request_id,
                RequestView {
                    original_request_id: subscribe.request_id,
                    requested_by: connection_id,
                    original: subscribe@,
                    forwarded: None,
                },
            )
        } else {
            old(requests)@
        },
{
    let recorded: bool = match answer {
        SubscribeAnswer::Duplicate(_) => false,
        SubscribeAnswer::ForwardUpstream => true,
        SubscribeAnswer::Wait => true,
        SubscribeAnswer::Accept => delivered,
        SubscribeAnswer::Refuse(_) => delivered,
    };
    if recorded {
        let request_id: u64 = subscribe.request_id;
        requests.register(
            request_id,
            SubscribeRequest::new(request_id, connection_id, subscribe, None),
        );
    }
    recorded
}

/// The track at a place, if there is one.
pub open spec fn track_at(place: Option<TrackRecord>) -> Option<TrackView> {
    match place {
        Some(track) => Some(track@),
        None => None,
    }
}

/// Everyone who waits for a request that went upstream. Of a track that has been
/// forgotten, only the request that created it can still be waiting.
pub open spec fn all_waiting(track: Option<TrackView>, creator: Waiter) -> Seq<Waiter> {
    match track {
        Some(track) => track.waiting(creator),
        None => seq![creator],
    }
}

/// Takes an error for a request that went upstream. Returns the requests to
/// answer with it, and forgets the track. An error for a request that is not
/// open, or that is no SUBSCRIBE, changes nothing but that.
pub fn reject_upstream(
    open: &mut RelayRequests,
    request_id: u64,
    error: &RequestError,
    place: &mut Option<TrackRecord>,
) -> (recipients: Option<Vec<Waiter>>)
    ensures
        final(open)@ == old(open)@.remove(request_id),
        match requests::subscribe_under(old(open)@, request_id) {
            Some(request) => {
                &&& recipients matches Some(recipients) && recipients@ == all_waiting(
                    track_at(*old(place)),
                    request.waiter(),
                )
                &&& *final(place) is None
            },
            None => recipients is None && *final(place) == *old(place),
        },
{
    let request: SubscribeRequest = match open.take_subscribe(request_id) {
        Some(request) => request,
        None => {
            return None;
        },
    };
    let creator: Waiter = request.waiter();
    match place.take() {
        Some(track) => {
            let mut track: TrackRecord = track;
            Some(track.reject(error, creator))
        },
        None => {
            let mut recipients: Vec<Waiter> = Vec::new();
            recipients.push(creator);
            proof {
                assert(recipients@ =~= seq![creator]);
            }
            Some(recipients)
        },
    }
}

/// What a SUBSCRIBE_OK of a publisher leads to.
#[derive(Debug)]
pub enum Acceptance {
    /// Nothing: it answers no open SUBSCRIBE, or one whose track is forgotten.
    Ignored,
    /// It cannot be accepted: answer these requests with the error.
    Rejected { error: RequestError, recipients: Vec<Waiter> },
    /// Route the publisher's alias to the track, and answer these requests with
    /// SUBSCRIBE_OK under the relay's own alias.
    Routed { relay_track_id: u64, recipients: Vec<Waiter> },
}

impl Acceptance {
    /// Whether this is what an acceptance from upstream comes to, where it took the open
    /// requests and the track from `before` to `after`.
    pub open spec fn follows(
        self,
        before: (Map<u64, PendingView>, Option<TrackView>),
        request_id: u64,
        publisher: u64,
        track_alias: u64,
        parameters: Seq<MessageParameter>,
        has_unsupported_mandatory: bool,
        after: (Map<u64, PendingView>, Option<TrackView>),
    ) -> bool {
        let (open, track) = before;
        match (self, requests::subscribe_under(open, request_id)) {
            (Acceptance::Ignored, None) => after == before,
            (Acceptance::Ignored, Some(_)) => !has_unsupported_mandatory && track is None && after
                == before,
            (Acceptance::Rejected { error, recipients }, Some(request)) => {
                &&& has_unsupported_mandatory
                &&& error.error_code == crate::status::RequestErrorCode::UnsupportedExtension
                &&& recipients@ == all_waiting(track, request.waiter())
                &&& after == (open.remove(request_id), None::<TrackView>)
            },
            (Acceptance::Routed { relay_track_id, recipients }, Some(request)) => {
                &&& !has_unsupported_mandatory
                &&& track matches Some(track)
                &&& relay_track_id == track.relay_track_id
                &&& recipients@ == track.ok_recipients(request.waiter())
                &&& after == (open, Some(track.after_ok(publisher, track_alias, parameters)))
            },
            _ => false,
        }
    }
}

/// Takes a SUBSCRIBE_OK for a request that went upstream. One with a mandatory
/// track property that the relay does not support is as good as an error.
pub fn accept_upstream(
    open: &mut RelayRequests,
    request_id: u64,
    publisher: u64,
    track_alias: u64,
    parameters: Vec<MessageParameter>,
    has_unsupported_mandatory: bool,
    place: &mut Option<TrackRecord>,
) -> (acceptance: Acceptance)
    ensures
        match requests::subscribe_under(old(open)@, request_id) {
            None => {
                &&& acceptance is Ignored
                &&& final(open)@ == old(open)@
                &&& *final(place) == *old(place)
            },
            Some(request) => if has_unsupported_mandatory {
                &&& acceptance matches Acceptance::Rejected { error, recipients }
                &&& error.error_code == crate::status::RequestErrorCode::UnsupportedExtension
                &&& error.retry_interval == 0
                &&& error.reason@ == "Unsupported mandatory track property"@
                &&& recipients@ == all_waiting(track_at(*old(place)), request.waiter())
                &&& final(open)@ == old(open)@.remove(request_id)
                &&& *final(place) is None
            } else {
                &&& final(open)@ == old(open)@
                &&& match track_at(*old(place)) {
                    None => acceptance is Ignored && *final(place) is None,
                    Some(track) => {
                        &&& acceptance matches Acceptance::Routed { relay_track_id, recipients }
                        &&& relay_track_id == track.relay_track_id
                        &&& recipients@ == track.ok_recipients(request.waiter())
                        &&& track_at(*final(place)) == Some(
                            track.after_ok(publisher, track_alias, parameters@),
                        )
                    },
                }
            },
        },
        acceptance.follows(
            (old(open)@, track_at(*old(place))),
            request_id,
            publisher,
            track_alias,
            parameters@,
            has_unsupported_mandatory,
            (final(open)@, track_at(*final(place))),
        ),
{
    let creator: Waiter = match open.find_subscribe(request_id) {
        Some(request) => request.waiter(),
        None => {
            return Acceptance::Ignored;
        },
    };
    if has_unsupported_mandatory {
        let error: RequestError = unsupported_property_error();
        return match reject_upstream(open, request_id, &error, place) {
            Some(recipients) => Acceptance::Rejected { error, recipients },
            None => Acceptance::Ignored,
        };
    }
    match place.take() {
        Some(track) => {
            let mut track: TrackRecord = track;
            let recipients: Vec<Waiter> = track.subscribe_ok(
                publisher,
                track_alias,
                parameters,
                creator,
            );
            let relay_track_id: u64 = track.relay_track_id();
            *place = Some(track);
            Acceptance::Routed { relay_track_id, recipients }
        },
        None => Acceptance::Ignored,
    }
}

/// What the failure of a subscription upstream leads to.
#[derive(Debug)]
pub enum Failure {
    /// Nothing is owed: others may still accept, others still serve the track,
    /// or nobody waits for this request.
    Quiet,
    /// Answer these requests with the error.
    Rejected { recipients: Vec<Waiter> },
    /// End the accepted subscriptions with PUBLISH_DONE.
    EndDownstream { status_code: PublishDoneStatusCode, reason: String },
}

/// No publisher is left for an accepted track once this one is gone.
pub open spec fn is_last_publisher(track: TrackView, publisher: u64) -> bool {
    forall|other: u64| !#[trigger] track.publishers.remove(publisher).contains_key(other)
}

impl Failure {
    /// Whether this is what a failure upstream comes to, where it took the open requests
    /// and the track from `before` to `after`.
    pub open spec fn follows(
        self,
        before: (Map<u64, PendingView>, Option<TrackView>),
        request_id: u64,
        publisher: u64,
        error: RequestError,
        status_code: PublishDoneStatusCode,
        after: (Map<u64, PendingView>, Option<TrackView>),
    ) -> bool {
        let (open, track) = before;
        let rejects = match track {
            Some(track) => track.failure_rejects(),
            None => true,
        };
        match self {
            Failure::Rejected { recipients } => {
                &&& rejects
                &&& requests::subscribe_under(open, request_id) matches Some(request)
                &&& recipients@ == all_waiting(track, request.waiter())
                &&& after == (open.remove(request_id), None::<TrackView>)
            },
            Failure::EndDownstream { status_code: code, reason } => {
                &&& !rejects
                &&& track matches Some(track)
                &&& track.status is Confirmed
                &&& is_last_publisher(track, publisher)
                &&& code == status_code
                &&& reason@ == error.reason@
                &&& after == (open, Some(track.after_loss(publisher)))
            },
            Failure::Quiet => if rejects {
                &&& requests::subscribe_under(open, request_id) is None
                &&& after.0 == open.remove(request_id)
                &&& after.1 == match track {
                    Some(track) => Some(track.after_decline()),
                    None => None,
                }
            } else {
                &&& track matches Some(track)
                &&& track.status is Confirmed ==> !is_last_publisher(track, publisher)
                &&& after == (
                    open,
                    Some(
                        if track.status is Confirmed {
                            track.after_loss(publisher)
                        } else {
                            track.after_decline()
                        },
                    ),
                )
            },
        }
    }
}

/// Takes the failure of a publisher's subscription: it declined, it stayed
/// silent, or its stream broke.
pub fn fail_upstream(
    open: &mut RelayRequests,
    request_id: u64,
    publisher: u64,
    error: &RequestError,
    status_code: PublishDoneStatusCode,
    place: &mut Option<TrackRecord>,
) -> (failure: Failure)
    ensures
        ({
            let waiting = requests::subscribe_under(old(open)@, request_id);
            let rejects = match track_at(*old(place)) {
                Some(track) => track.failure_rejects(),
                None => true,
            };
            if rejects {
                &&& final(open)@ == old(open)@.remove(request_id)
                &&& match waiting {
                    Some(request) => {
                        &&& failure matches Failure::Rejected { recipients }
                        &&& recipients@ == all_waiting(track_at(*old(place)), request.waiter())
                        &&& *final(place) is None
                    },
                    None => {
                        &&& failure is Quiet
                        &&& track_at(*final(place)) == match track_at(*old(place)) {
                            Some(track) => Some(track.after_decline()),
                            None => None,
                        }
                    },
                }
            } else {
                let track = track_at(*old(place))->0;
                let declined = track.after_decline();
                &&& final(open)@ == old(open)@
                &&& if track.status is Confirmed {
                    &&& track_at(*final(place)) == Some(
                        TrackView {
                            publishers: track.publishers.remove(publisher),
                            ..declined
                        },
                    )
                    &&& if is_last_publisher(track, publisher) {
                        &&& failure matches Failure::EndDownstream { status_code: code, reason }
                        &&& code == status_code
                        &&& reason@ == error.reason@
                    } else {
                        failure is Quiet
                    }
                } else {
                    failure is Quiet && track_at(*final(place)) == Some(declined)
                }
            }
        }),
        failure.follows(
            (old(open)@, track_at(*old(place))),
            request_id,
            publisher,
            *error,
            status_code,
            (final(open)@, track_at(*final(place))),
        ),
{
    match place.take() {
        None => match reject_upstream(open, request_id, error, place) {
            Some(recipients) => Failure::Rejected { recipients },
            None => Failure::Quiet,
        },
        Some(track) => {
            let mut track: TrackRecord = track;
            if track.would_reject() {
                track.count_decline();
                *place = Some(track);
                return match reject_upstream(open, request_id, error, place) {
                    Some(recipients) => Failure::Rejected { recipients },
                    None => Failure::Quiet,
                };
            }
            let nobody: Waiter = Waiter { request_id, connection_id: publisher };
            let outcome: UpstreamFailure = track.upstream_failed(
                publisher,
                error,
                status_code,
                nobody,
            );
            *place = Some(track);
            match outcome {
                UpstreamFailure::OthersMayAccept => Failure::Quiet,
                UpstreamFailure::Reject { .. } => Failure::Quiet,
                UpstreamFailure::StillServed => Failure::Quiet,
                UpstreamFailure::EndDownstream { status_code, reason } => Failure::EndDownstream {
                    status_code,
                    reason,
                },
            }
        },
    }
}

/// What a REQUEST_UPDATE leads to.
#[derive(Debug)]
pub enum UpdateStart {
    /// The request or its track is not there: close the session.
    Violation(TerminationCode),
    /// The track has no subscription of the client: answer that.
    NoSubscription,
    /// The update is in force. Where a stream was held back, open it; then answer.
    Applied { to_open: Option<(StreamId, HeaderInfo)> },
}

/// The subscription at a place, if there is one.
pub open spec fn subscription_at(place: Option<Subscription>) -> Option<SubscriptionView> {
    match place {
        Some(subscription) => Some(subscription@),
        None => None,
    }
}

impl UpdateStart {
    /// Whether this is what a REQUEST_UPDATE comes to, where it took the client's requests
    /// and the subscription from `before` to `after`.
    pub open spec fn follows(
        self,
        before: (ClientRequestsView, Option<SubscriptionView>),
        request_id: u64,
        updates: Seq<MessageParameter>,
        track_present: bool,
        after: (ClientRequestsView, Option<SubscriptionView>),
    ) -> bool {
        let (requests, subscription) = before;
        let known = requests.subscribe.contains_key(request_id);
        &&& after.0 == if known {
            requests.updated(request_id, updates)
        } else {
            requests
        }
        &&& match self {
            UpdateStart::Violation(code) => {
                &&& !known || !track_present
                &&& code == TerminationCode::ProtocolViolation
                &&& after.1 == subscription
            },
            UpdateStart::NoSubscription => known && track_present && subscription is None
                && after.1 is None,
            UpdateStart::Applied { to_open } => {
                &&& known && track_present
                &&& subscription matches Some(subscription)
                &&& to_open == subscription.opened_by_update(updates)
                &&& after.1 == Some(subscription.after_update(updates))
            },
        }
    }
}

/// Takes a REQUEST_UPDATE: to the request in the client's tables first, then to
/// the subscription that the client has on the track of the request.
pub fn update_request(
    requests: &mut ClientRequests,
    request_id: u64,
    updates: &Vec<MessageParameter>,
    track_present: bool,
    place: &mut Option<Subscription>,
) -> (start: UpdateStart)
    ensures
        if old(requests)@.subscribe.contains_key(request_id) {
            &&& final(requests)@ == old(requests)@.updated(request_id, updates@)
            &&& match (track_present, subscription_at(*old(place))) {
                (false, _) => {
                    &&& start matches UpdateStart::Violation(code)
                    &&& code == TerminationCode::ProtocolViolation
                    &&& *final(place) == *old(place)
                },
                (true, None) => start is NoSubscription && *final(place) is None,
                (true, Some(subscription)) => {
                    &&& start matches UpdateStart::Applied { to_open }
                    &&& to_open == subscription.opened_by_update(updates@)
                    &&& subscription_at(*final(place)) == Some(subscription.after_update(updates@))
                },
            }
        } else {
            &&& start matches UpdateStart::Violation(code)
            &&& code == TerminationCode::ProtocolViolation
            &&& final(requests)@ == old(requests)@
            &&& *final(place) == *old(place)
        },
        start.follows(
            (old(requests)@, subscription_at(*old(place))),
            request_id,
            updates@,
            track_present,
            (final(requests)@, subscription_at(*final(place))),
        ),
{
    if let Err(code) = requests.apply_update(request_id, updates) {
        return UpdateStart::Violation(code);
    }
    if !track_present {
        return UpdateStart::Violation(TerminationCode::ProtocolViolation);
    }
    match place.take() {
        Some(subscription) => {
            let mut subscription: Subscription = subscription;
            let to_open: Option<(StreamId, HeaderInfo)> = subscription.update_subscription(updates);
            *place = Some(subscription);
            UpdateStart::Applied { to_open }
        },
        None => UpdateStart::NoSubscription,
    }
}

/// What the cancellation of a subscription leads to.
#[derive(Debug, Clone, Copy, PartialEq, Eq, Structural)]
pub struct Cancellation {
    /// A switch was in flight, and is abandoned.
    pub abandoned_switch: bool,
    /// The request was known.
    pub was_subscribed: bool,
    /// The last subscriber has left: cancel the subscriptions upstream.
    pub cancel_upstream: bool,
}

impl Cancellation {
    /// Whether this is what a subscriber's cancelling comes to, where it took the guard,
    /// the client's requests and the track from `before` to `after`.
    pub open spec fn follows(
        self,
        before: (GuardState, ClientRequestsView, Option<TrackView>),
        request_id: u64,
        connection_id: u64,
        now: u64,
        after: (GuardState, ClientRequestsView, Option<TrackView>),
    ) -> bool {
        let (guard, requests, track) = before;
        let known = requests.subscribe.contains_key(request_id);
        let deserted = match track {
            Some(track) => {
                let left = track.left_by(connection_id);
                known && forall|other: u64| !#[trigger] left.subscribers.contains(other)
            },
            None => false,
        };
        &&& self.abandoned_switch == guard.can_abandon(request_id, now)
        &&& self.was_subscribed == known
        &&& self.cancel_upstream == deserted
        &&& after.0 == if self.abandoned_switch {
            guard.abandon(request_id)
        } else {
            guard
        }
        &&& after.1 == if known {
            requests.without(request_id)
        } else {
            requests
        }
        &&& after.2 == match track {
            Some(track) => if !known {
                Some(track)
            } else if deserted && track.origin == crate::track::TrackOrigin::Subscribe {
                None
            } else {
                Some(track.left_by(connection_id))
            },
            None => None,
        }
    }
}

/// Takes the cancellation of a subscription: its request stream was closed or
/// reset. A switch in flight hears of it first. Where the last subscriber of a
/// track leaves, the subscriptions upstream are cancelled; a track that came from
/// a SUBSCRIBE is then forgotten, so that the next one asks upstream again.
pub fn cancel_subscription(
    guard: &mut SwitchInFlight,
    now: u64,
    requests: &mut ClientRequests,
    request_id: u64,
    connection_id: u64,
    place: &mut Option<TrackRecord>,
) -> (cancellation: Cancellation)
    ensures
        cancellation.abandoned_switch == old(guard)@.can_abandon(request_id, now),
        final(guard)@ == if cancellation.abandoned_switch {
            old(guard)@.abandon(request_id)
        } else {
            old(guard)@
        },
        cancellation.was_subscribed == old(requests)@.subscribe.contains_key(request_id),
        final(requests)@ == if cancellation.was_subscribed {
            old(requests)@.without(request_id)
        } else {
            old(requests)@
        },
        match track_at(*old(place)) {
            Some(track) => if cancellation.was_subscribed {
                let left = TrackView {
                    subscribers: track.subscribers.remove(connection_id),
                    ..track
                };
                &&& cancellation.cancel_upstream <==> forall|other: u64|
                    !#[trigger] left.subscribers.contains(other)
                &&& track_at(*final(place)) == if cancellation.cancel_upstream && track.origin
                    == crate::track::TrackOrigin::Subscribe {
                    None
                } else {
                    Some(left)
                }
            } else {
                !cancellation.cancel_upstream && *final(place) == *old(place)
            },
            None => !cancellation.cancel_upstream && *final(place) is None,
        },
        cancellation.follows(
            (old(guard)@, old(requests)@, track_at(*old(place))),
            request_id,
            connection_id,
            now,
            (final(guard)@, final(requests)@, track_at(*final(place))),
        ),
{
    let abandoned_switch: bool = guard.abandon(request_id, now);
    if !requests.is_known(request_id) {
        return Cancellation { abandoned_switch, was_subscribed: false, cancel_upstream: false };
    }
    let mut cancel_upstream: bool = false;
    if let Some(track) = place.take() {
        let mut track: TrackRecord = track;
        let departure: Departure = track.unsubscribe(connection_id);
        cancel_upstream = departure.cancel_upstream;
        if !departure.remove_track {
            *place = Some(track);
        }
    }
    requests.forget(request_id);
    Cancellation { abandoned_switch, was_subscribed: true, cancel_upstream }
}

/// A cancelled subscription leaves no trace: its request is in neither table and
/// its connection subscribes no more, so the same client may ask again.
pub proof fn law_cancelled_subscriber_may_return(
    track: TrackView,
    requests: ClientRequestsView,
    request_id: u64,
    connection_id: u64,
)
    ensures
        ({
            let left = TrackView {
                subscribers: track.subscribers.remove(connection_id),
                ..track
            };
            !left.is_duplicate(connection_id, false)
        }),
        !requests.without(request_id).subscribe.contains_key(request_id),
        !requests.without(request_id).inbound.contains_key(request_id),
{
}

/// What goes upstream asks for the same track, under the relay's own request id and with
/// the parameters that the relay chose.
pub proof fn law_forwarding_keeps_the_track(
    subscribe: SubscribeView,
    relay_request_id: u64,
    parameters: Seq<MessageParameter>,
)
    ensures
        forwarded(subscribe, relay_request_id, parameters).track == subscribe.track,
        forwarded(subscribe, relay_request_id, parameters).request_id == relay_request_id,
        forwarded(subscribe, relay_request_id, parameters).parameters == parameters,
{
}

/// Each request that goes upstream is open under its own id, and says what was sent for
/// whom. What was open under other ids stays open as it was.
pub proof fn law_forwarding_opens_each_request(
    open: Map<u64, PendingView>,
    subscribe: SubscribeView,
    requested_by: u64,
    relay_request_ids: Seq<u64>,
    parameters: Seq<MessageParameter>,
    id: u64,
)
    ensures
        ({
            let after = with_forwarded(
                open,
                subscribe,
                requested_by,
                relay_request_ids,
                parameters,
            );
            &&& relay_request_ids.contains(id) ==> (requests::subscribe_under(after, id)
                matches Some(request) && request.original_request_id == subscribe.request_id
                && request.requested_by == requested_by && request.original == subscribe
                && request.forwarded == Some(
                SubscribeView { request_id: id, track: subscribe.track, parameters },
            ))
            &&& !relay_request_ids.contains(id) ==> after.contains_key(id) == open.contains_key(id)
                && after[id] == open[id]
        }),
    decreases relay_request_ids.len(),
{
    if relay_request_ids.len() > 0 {
        let shorter = relay_request_ids.drop_last();
        law_forwarding_opens_each_request(
            open,
            subscribe,
            requested_by,
            shorter,
            parameters,
            id,
        );
        assert(relay_request_ids =~= shorter.push(relay_request_ids.last()));
        if relay_request_ids.contains(id) && id != relay_request_ids.last() {
            let i = choose|i: int| 0 <= i < relay_request_ids.len() && relay_request_ids[i] == id;
            assert(shorter[i] == id);
        }
        if shorter.contains(id) {
            let i = choose|i: int| 0 <= i < shorter.len() && shorter[i] == id;
            assert(relay_request_ids[i] == id);
        }
        if id == relay_request_ids.last() {
            assert(relay_request_ids[relay_request_ids.len() - 1] == id);
        }
    }
}

/// A SUBSCRIBE that waits for an answer from upstream is recorded at once, one that was
/// answered only when the answer went out, and a duplicate never.
pub proof fn law_a_duplicate_is_never_recorded(answer: SubscribeAnswer)
    ensures
        answer is Duplicate ==> !is_recorded(answer, true) && !is_recorded(answer, false),
        answer is ForwardUpstream || answer is Wait ==> is_recorded(answer, true)
            && is_recorded(answer, false),
        answer is Accept || answer is Refuse ==> is_recorded(answer, true) && !is_recorded(
            answer,
            false,
        ),
{
}

/// Whoever waits for a rejected track is told, the creator first: also where the track
/// is already forgotten.
pub proof fn law_the_creator_is_always_told(track: Option<TrackView>, creator: Waiter, i: int)
    ensures
        all_waiting(track, creator).len() > 0,
        all_waiting(track, creator)[0] == creator,
        track is None ==> all_waiting(track, creator).len() == 1,
        track matches Some(track) ==> all_waiting(Some(track), creator).len()
            == track.pending.len() + 1 && (0 <= i < track.pending.len() ==> all_waiting(
            Some(track),
            creator,
        )[i + 1] == track.pending[i]),
{
}

/// A publisher is the last one exactly when no other serves the track.
pub proof fn law_last_publisher_has_no_peer(track: TrackView, publisher: u64, other: u64)
    ensures
        is_last_publisher(track, publisher) && track.publishers.contains_key(other)
            ==> other == publisher,
        !is_last_publisher(track, publisher) ==> exists|peer: u64|
            peer != publisher && #[trigger] track.publishers.contains_key(peer),
{
    if is_last_publisher(track, publisher) && other != publisher {
        assert(!track.publishers.remove(publisher).contains_key(other));
    }
    if !is_last_publisher(track, publisher) {
        let peer = choose|peer: u64| #[trigger]
            track.publishers.remove(publisher).contains_key(peer);
        assert(track.publishers.contains_key(peer));
    }
}

/// Cancelling is for one subscriber and one request. The others keep theirs, the upstream
/// request goes only when nobody is left, and a request that is not known changes no
/// track. A track that a PUBLISH created outlives its subscribers.
pub proof fn law_cancelling_is_for_one_subscriber(
    cancellation: Cancellation,
    before: (GuardState, ClientRequestsView, Option<TrackView>),
    request_id: u64,
    connection_id: u64,
    now: u64,
    after: (GuardState, ClientRequestsView, Option<TrackView>),
    other: u64,
)
    requires
        cancellation.follows(before, request_id, connection_id, now, after),
    ensures
        cancellation.was_subscribed <==> before.1.subscribe.contains_key(request_id),
        !after.1.subscribe.contains_key(request_id),
        other != request_id ==> (after.1.subscribe.contains_key(other)
            <==> before.1.subscribe.contains_key(other)),
        !cancellation.was_subscribed ==> after.1 == before.1 && after.2 == before.2
            && !cancellation.cancel_upstream,
        cancellation.was_subscribed && after.2 is Some ==> !after.2->0.subscribers.contains(
            connection_id,
        ),
        before.2 matches Some(track) ==> {
            let stays = other != connection_id && track.subscribers.contains(other);
            &&& stays ==> !cancellation.cancel_upstream && after.2 is Some
            &&& stays ==> after.2->0.subscribers.contains(other)
            &&& track.origin == crate::track::TrackOrigin::Publish ==> after.2 is Some
            &&& after.2 is None ==> cancellation.cancel_upstream
        },
        before.2 is None ==> after.2 is None && !cancellation.cancel_upstream,
        cancellation.abandoned_switch <==> before.0.slots.contains_key(request_id) && now
            < before.0.slots[request_id].deadline && !before.0.slots[request_id].published,
        cancellation.abandoned_switch ==> after.0.slots[request_id].abandoned,
        !cancellation.abandoned_switch ==> after.0 == before.0,
{
    if before.2 is Some {
        let track = before.2->0;
        let left = track.left_by(connection_id);
        if other != connection_id && track.subscribers.contains(other) {
            assert(left.subscribers.contains(other));
        }
    }
}

/// An acceptance from upstream is for a request that is open. It enters the publisher in
/// the track and tells those who wait, the creator first. With a property that is not
/// supported it rejects them all instead, and track and request are forgotten.
pub proof fn law_acceptance_reaches_who_waits(
    acceptance: Acceptance,
    before: (Map<u64, PendingView>, Option<TrackView>),
    request_id: u64,
    publisher: u64,
    track_alias: u64,
    parameters: Seq<MessageParameter>,
    has_unsupported_mandatory: bool,
    after: (Map<u64, PendingView>, Option<TrackView>),
)
    requires
        acceptance.follows(
            before,
            request_id,
            publisher,
            track_alias,
            parameters,
            has_unsupported_mandatory,
            after,
        ),
    ensures
        requests::subscribe_under(before.0, request_id) is None ==> acceptance is Ignored && after
            == before,
        requests::subscribe_under(before.0, request_id) matches Some(request) ==> {
            let creator = Waiter {
                request_id: request.original_request_id,
                connection_id: request.requested_by,
            };
            &&& acceptance is Rejected <==> has_unsupported_mandatory
            &&& acceptance is Routed <==> !has_unsupported_mandatory && before.1 is Some
            &&& acceptance is Ignored ==> after == before
            &&& acceptance matches Acceptance::Rejected { error, recipients }
                ==> recipients@[0] == creator && after.1 is None && !after.0.contains_key(
                request_id,
            ) && error.error_code == crate::status::RequestErrorCode::UnsupportedExtension
            &&& acceptance matches Acceptance::Routed { relay_track_id, recipients } ==> {
                &&& after.0 == before.0
                &&& relay_track_id == before.1->0.relay_track_id
                &&& after.1->0.publishers.contains_key(publisher)
                &&& after.1->0.publishers[publisher] == track_alias
                &&& before.1->0.status is Pending ==> recipients@[0] == creator && recipients@.len()
                    == before.1->0.pending.len() + 1 && after.1->0.pending.len() == 0
                &&& !(before.1->0.status is Pending) ==> recipients@.len() == 0
            }
        },
{
}

/// A failure upstream rejects whoever waits only where no other request may still be
/// accepted. A confirmed track goes on while another publisher serves it, and ends
/// downstream, with the status and the reason of the failure, when none does.
pub proof fn law_failure_reaches_who_waits(
    failure: Failure,
    before: (Map<u64, PendingView>, Option<TrackView>),
    request_id: u64,
    publisher: u64,
    error: RequestError,
    status_code: PublishDoneStatusCode,
    after: (Map<u64, PendingView>, Option<TrackView>),
    other: u64,
)
    requires
        failure.follows(before, request_id, publisher, error, status_code, after),
    ensures
        before.1 matches Some(track) ==> {
            let last_answer = !(track.status is Confirmed) && track.unanswered <= 1;
            &&& failure is Rejected <==> last_answer && requests::subscribe_under(
                before.0,
                request_id,
            ) is Some
            &&& failure is EndDownstream ==> track.status is Confirmed
            &&& track.status is Confirmed && other != publisher && track.publishers.contains_key(
                other,
            ) ==> failure is Quiet && after.1->0.publishers.contains_key(other)
            &&& track.status is Confirmed ==> after.1 is Some
                && !after.1->0.publishers.contains_key(publisher) && after.0 == before.0
            &&& failure is EndDownstream && track.publishers.contains_key(other) ==> other
                == publisher
            &&& !last_answer ==> after.1 is Some && after.0 == before.0
        },
        before.1 is None ==> (failure is Rejected <==> requests::subscribe_under(
            before.0,
            request_id,
        ) is Some),
        failure matches Failure::Rejected { recipients } ==> recipients@.len() > 0
            && recipients@[0].request_id == requests::subscribe_under(
            before.0,
            request_id,
        )->0.original_request_id && after.1 is None && !after.0.contains_key(request_id),
        failure matches Failure::EndDownstream { status_code: code, reason } ==> code
            == status_code && reason@ == error.reason@,
        failure is Quiet && before.1 is None ==> after.1 is None && !after.0.contains_key(
            request_id,
        ),
        failure is Quiet && before.1 is Some ==> after.1 is Some && after.1->0.subscribers
            == before.1->0.subscribers && after.1->0.pending == before.1->0.pending,
        other != request_id ==> (after.0.contains_key(other) <==> before.0.contains_key(other)),
{
    if before.1 is Some {
        law_last_publisher_has_no_peer(before.1->0, publisher, other);
    }
}

/// An update is a violation where no such request is open or the track is gone, and
/// touches the subscription in neither case. Otherwise it is applied to the subscription
/// where there is one.
pub proof fn law_update_needs_an_open_request(
    start: UpdateStart,
    before: (ClientRequestsView, Option<SubscriptionView>),
    request_id: u64,
    updates: Seq<MessageParameter>,
    track_present: bool,
    after: (ClientRequestsView, Option<SubscriptionView>),
)
    requires
        start.follows(before, request_id, updates, track_present, after),
    ensures
        start is Violation <==> !before.0.subscribe.contains_key(request_id) || !track_present,
        start matches UpdateStart::Violation(code) ==> code == TerminationCode::ProtocolViolation
            && after.1 == before.1,
        !before.0.subscribe.contains_key(request_id) ==> after.0 == before.0,
        before.0.subscribe.contains_key(request_id) ==> after.0.subscribe[request_id]
            == before.0.subscribe[request_id].updated(updates),
        start is Applied ==> before.1 is Some && after.1 is Some && after.1->0.state
            == before.1->0.state.updated(updates),
        start is NoSubscription ==> before.1 is None && after.1 is None,
{
}

} // verus!
