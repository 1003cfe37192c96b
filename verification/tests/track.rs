use moqtail::exchange::{
    accept_upstream, cancel_subscription, fail_upstream, join_track, record_subscribe,
    reject_upstream, update_request, Acceptance, Failure, UpdateStart,
};
use moqtail::messages::{RequestError, Subscribe};
use moqtail::model::{subscriber_priority, MessageParameter};
use moqtail::requests::{
    reply_to_update, terminate_source, ClientRequests, PendingRequest, RelayRequests,
    SubscribeRequest, UpdateReply, UpdateResult,
};
use moqtail::status::{PublishDoneStatusCode, RequestErrorCode, TerminationCode};
use moqtail::streams::StreamId;
use moqtail::subscribe_handler::{
    handle, route_subscribe, unsupported_property_error, DelayStep, DelayedSubscribe, Dispatch,
    MessageKind, SubscribeRoute, UpstreamAction, UpstreamEvent, UpstreamExchange,
};
use moqtail::holding_subscribes::HoldingSubscribes;
use moqtail::model::{subscription_filter, FilterType, Location};
use moqtail::subscription::{Subscription, SubscriptionOrigin};
use moqtail::switch_guard::SwitchInFlight;
use moqtail::track::{
    SubscribeAnswer, TrackOrigin, TrackRecord, TrackStatus, UpstreamFailure, Waiter,
};
use moqtail::track_name::{FullTrackName, Tuple, TupleField};

fn subscribe(request_id: u64) -> Subscribe {
    Subscribe::new_latest_object(
        request_id,
        Tuple::new(vec![TupleField::from_utf8("live")]),
        TupleField::from_utf8("a"),
        vec![],
    )
}

fn name() -> FullTrackName {
    FullTrackName::new(
        Tuple::new(vec![TupleField::from_utf8("live")]),
        TupleField::from_utf8("a"),
    )
}

fn waiter(request_id: u64, connection_id: u64) -> Waiter {
    Waiter { request_id, connection_id }
}

fn error() -> RequestError {
    RequestError::new(RequestErrorCode::Unauthorized, "no")
}

/// A track that connection 10 has created with request 1, forwarded to two
/// publishers under the requests 100 and 102.
fn created() -> (Option<TrackRecord>, RelayRequests) {
    let mut track = TrackRecord::new(7, TrackOrigin::Subscribe);
    let mut open = RelayRequests::new();
    let parameters = vec![MessageParameter::new_forward(true)];
    let (answer, forwards) = join_track(
        &mut track,
        &mut open,
        &subscribe(1),
        10,
        true,
        false,
        &vec![100, 102],
        &parameters,
    );
    assert!(matches!(answer, SubscribeAnswer::ForwardUpstream));
    let ids: Vec<u64> = forwards.iter().map(|s| s.request_id).collect();
    assert_eq!(ids, vec![100, 102]);
    assert_eq!(forwards[1].subscribe_parameters, parameters);
    assert!(forwards[1].get_full_track_name().equals(&name()));
    (Some(track), open)
}

fn join(place: &mut Option<TrackRecord>, open: &mut RelayRequests, id: u64, conn: u64) -> SubscribeAnswer {
    let track = place.as_mut().unwrap();
    let (answer, forwards) =
        join_track(track, open, &subscribe(id), conn, false, false, &vec![], &vec![]);
    assert!(forwards.is_empty());
    answer
}

#[test]
fn the_first_acceptance_answers_everyone_who_waits() {
    let (mut place, mut open) = created();
    assert!(matches!(join(&mut place, &mut open, 5, 11), SubscribeAnswer::Wait));
    assert!(matches!(join(&mut place, &mut open, 6, 11), SubscribeAnswer::Duplicate(_)));
    match accept_upstream(&mut open, 100, 50, 3, vec![], false, &mut place) {
        Acceptance::Routed { relay_track_id, recipients } => {
            assert_eq!(relay_track_id, 7);
            assert_eq!(recipients, vec![waiter(1, 10), waiter(5, 11)]);
        }
        other => panic!("expected a route, got {other:?}"),
    }
    match accept_upstream(&mut open, 102, 51, 4, vec![], false, &mut place) {
        Acceptance::Routed { recipients, .. } => assert!(recipients.is_empty()),
        other => panic!("expected a route, got {other:?}"),
    }
    assert!(matches!(join(&mut place, &mut open, 9, 12), SubscribeAnswer::Accept));
    assert!(matches!(
        accept_upstream(&mut open, 999, 51, 4, vec![], false, &mut place),
        Acceptance::Ignored
    ));
    assert!(matches!(place.unwrap().status(), TrackStatus::Confirmed { .. }));
}

#[test]
fn the_last_decline_answers_everyone_who_waits() {
    let (mut place, mut open) = created();
    assert!(matches!(join(&mut place, &mut open, 5, 11), SubscribeAnswer::Wait));
    let status = PublishDoneStatusCode::InternalError;
    assert!(matches!(
        fail_upstream(&mut open, 100, 50, &error(), status, &mut place),
        Failure::Quiet
    ));
    assert!(place.is_some());
    match fail_upstream(&mut open, 102, 51, &error(), status, &mut place) {
        Failure::Rejected { recipients } => {
            assert_eq!(recipients, vec![waiter(1, 10), waiter(5, 11)])
        }
        other => panic!("expected a rejection, got {other:?}"),
    }
    assert!(place.is_none());
    assert!(open.find_subscribe(102).is_none());
}

#[test]
fn an_accepted_track_ends_with_its_last_publisher() {
    let (mut place, mut open) = created();
    for (request, publisher) in [(100, 50), (102, 51)] {
        accept_upstream(&mut open, request, publisher, 3, vec![], false, &mut place);
    }
    let status = PublishDoneStatusCode::TrackEnded;
    assert!(matches!(
        fail_upstream(&mut open, 100, 50, &error(), status, &mut place),
        Failure::Quiet
    ));
    match fail_upstream(&mut open, 102, 51, &error(), status, &mut place) {
        Failure::EndDownstream { status_code, reason } => {
            assert_eq!((status_code, reason.as_str()), (status, "no"))
        }
        other => panic!("expected an end, got {other:?}"),
    }
    assert!(place.is_some());
}

#[test]
fn an_unsupported_property_is_as_good_as_an_error() {
    let (mut place, mut open) = created();
    match accept_upstream(&mut open, 100, 50, 3, vec![], true, &mut place) {
        Acceptance::Rejected { error, recipients } => {
            assert_eq!(error.error_code, RequestErrorCode::UnsupportedExtension);
            assert_eq!(error.reason, unsupported_property_error().reason);
            assert_eq!(recipients, vec![waiter(1, 10)]);
        }
        other => panic!("expected a rejection, got {other:?}"),
    }
    assert!(place.is_none());
    assert_eq!(
        reject_upstream(&mut open, 102, &error(), &mut place),
        Some(vec![waiter(1, 10)])
    );
    assert_eq!(reject_upstream(&mut open, 102, &error(), &mut place), None);
    assert!(matches!(
        fail_upstream(&mut open, 102, 5, &error(), PublishDoneStatusCode::TrackEnded, &mut place),
        Failure::Quiet
    ));
}

#[test]
fn the_last_subscriber_takes_the_track_along() {
    let (mut place, mut open) = created();
    let mut guard = SwitchInFlight::new();
    let mut requests = ClientRequests::new();
    assert!(matches!(join(&mut place, &mut open, 5, 11), SubscribeAnswer::Wait));
    for (id, conn) in [(1, 10), (5, 11)] {
        assert!(record_subscribe(
            &mut requests,
            subscribe(id),
            conn,
            &SubscribeAnswer::Wait,
            false
        ));
    }
    guard.try_admit(1, 0, 100);
    let first = cancel_subscription(&mut guard, 0, &mut requests, 1, 10, &mut place);
    assert!(first.abandoned_switch && first.was_subscribed && !first.cancel_upstream);
    assert!(place.is_some() && !requests.is_known(1));
    let again = cancel_subscription(&mut guard, 0, &mut requests, 1, 10, &mut place);
    assert!(!again.was_subscribed && !again.cancel_upstream);
    assert!(matches!(join(&mut place, &mut open, 20, 10), SubscribeAnswer::Wait));
    let back = cancel_subscription(&mut guard, 0, &mut requests, 20, 10, &mut place);
    assert!(!back.was_subscribed);
    let mut track = place.take().unwrap();
    assert!(!track.unsubscribe(10).cancel_upstream);
    place = Some(track);
    let last = cancel_subscription(&mut guard, 0, &mut requests, 5, 11, &mut place);
    assert!(last.cancel_upstream && place.is_none());
}

#[test]
fn a_pushed_track_stays_without_subscribers() {
    let mut track = TrackRecord::new(7, TrackOrigin::Publish);
    assert_eq!(track.relay_track_id(), 7);
    track.subscribe(waiter(1, 10), false, false, 0);
    assert!(track.has_subscription(10) && !track.has_subscription(11));
    let departure = track.unsubscribe(10);
    assert!(departure.cancel_upstream && !departure.remove_track);
    assert!(!track.has_subscription(10));
}

#[test]
fn a_switch_reuses_the_subscription() {
    let mut track = TrackRecord::new(7, TrackOrigin::Subscribe);
    track.subscribe(waiter(1, 10), true, false, 1);
    match track.subscribe(waiter(3, 10), false, false, 0) {
        SubscribeAnswer::Duplicate(error) => {
            assert_eq!(error.error_code, RequestErrorCode::DuplicateSubscription);
            assert_eq!(error.reason, "already subscribed to this track");
        }
        other => panic!("expected a duplicate, got {other:?}"),
    }
    assert!(matches!(track.subscribe(waiter(3, 10), false, true, 0), SubscribeAnswer::Wait));
    assert!(track.would_reject());
    assert_eq!(track.reject(&error(), waiter(1, 10)), vec![waiter(1, 10), waiter(3, 10)]);
    match track.subscribe(waiter(4, 12), false, false, 0) {
        SubscribeAnswer::Refuse(error) => {
            assert_eq!(error.error_code, RequestErrorCode::Unauthorized);
            assert_eq!(error.reason, "no");
        }
        other => panic!("expected a refusal, got {other:?}"),
    }
}

#[test]
fn publishers_are_counted_down() {
    let mut track = TrackRecord::new(7, TrackOrigin::Subscribe);
    track.subscribe(waiter(1, 10), true, false, 3);
    assert!(!track.would_reject());
    track.count_decline();
    let status = PublishDoneStatusCode::InternalError;
    assert!(matches!(
        track.upstream_failed(51, &error(), status, waiter(1, 10)),
        UpstreamFailure::OthersMayAccept
    ));
    assert!(track.would_reject());
    match track.upstream_failed(52, &error(), status, waiter(1, 10)) {
        UpstreamFailure::Reject { recipients } => assert_eq!(recipients, vec![waiter(1, 10)]),
        other => panic!("expected a rejection, got {other:?}"),
    }
}

#[test]
fn only_answered_subscribes_are_recorded() {
    let mut requests = ClientRequests::new();
    let cases = [
        (SubscribeAnswer::Duplicate(error()), true, false),
        (SubscribeAnswer::ForwardUpstream, false, true),
        (SubscribeAnswer::Wait, false, true),
        (SubscribeAnswer::Accept, true, true),
        (SubscribeAnswer::Accept, false, false),
        (SubscribeAnswer::Refuse(error()), true, true),
        (SubscribeAnswer::Refuse(error()), false, false),
    ];
    for (id, (answer, delivered, recorded)) in cases.into_iter().enumerate() {
        let id = id as u64;
        assert_eq!(
            record_subscribe(&mut requests, subscribe(id), 10, &answer, delivered),
            recorded
        );
        assert_eq!(requests.is_known(id), recorded);
    }
}

#[test]
fn updates_touch_one_request() {
    let mut requests = ClientRequests::new();
    for id in [1, 3] {
        requests.register(id, SubscribeRequest::new(id, 10, subscribe(id), None));
    }
    let update = vec![MessageParameter::SubscriberPriority { priority: 9 }];
    assert!(requests.apply_update(1, &update).unwrap().equals(&name()));
    assert_eq!(requests.apply_update(2, &update).unwrap_err(), TerminationCode::ProtocolViolation);
    assert!(requests.track_of(3).unwrap().equals(&name()));
    assert!(requests.track_of(2).is_none());
    requests.forget(1);
    assert!(!requests.is_known(1) && requests.is_known(3));
}

#[test]
fn an_update_reaches_the_tables_and_the_subscription() {
    let mut requests = ClientRequests::new();
    requests.register(1, SubscribeRequest::new(1, 10, subscribe(1), None));
    let mut place = Some(Subscription::new(7, SubscriptionOrigin::from(subscribe(1))));
    let update = vec![
        MessageParameter::SubscriberPriority { priority: 9 },
        MessageParameter::new_forward(false),
    ];
    match update_request(&mut requests, 1, &update, true, &mut place) {
        UpdateStart::Applied { to_open } => assert_eq!(to_open, None),
        other => panic!("expected an update, got {other:?}"),
    }
    let subscription = place.take().unwrap();
    assert_eq!(subscription.subscription_state.subscriber_priority, 9);
    assert!(!subscription.is_forwarding());
    assert!(matches!(
        update_request(&mut requests, 1, &update, true, &mut place),
        UpdateStart::NoSubscription
    ));
    place = Some(subscription);
    for (id, present) in [(1, false), (2, true)] {
        assert!(matches!(
            update_request(&mut requests, id, &update, present, &mut place),
            UpdateStart::Violation(TerminationCode::ProtocolViolation)
        ));
    }
    assert!(place.is_some());
}

#[test]
fn open_requests_are_found_by_their_kind() {
    let mut open = RelayRequests::new();
    open.insert(1, PendingRequest::Other);
    let request = SubscribeRequest::new(8, 10, subscribe(8), Some(subscribe(2)));
    assert_eq!(request.waiter(), waiter(8, 10));
    open.insert(2, PendingRequest::Subscribe(request.clone()));
    assert!(open.find_subscribe(1).is_none());
    assert_eq!(open.find_subscribe(2).unwrap().original_request_id, 8);
    assert!(open.take_subscribe(1).is_none());
    assert!(open.take_subscribe(2).is_some());
    assert!(open.find_subscribe(2).is_none());
    open.insert(2, PendingRequest::Subscribe(request));
    open.remove(2);
    assert!(open.find_subscribe(2).is_none());
}

#[test]
fn a_replaced_source_leaves_the_tables_first() {
    let mut requests = ClientRequests::new();
    requests.register(1, SubscribeRequest::new(1, 10, subscribe(1), None));
    let mut source = Subscription::new(7, SubscriptionOrigin::from(subscribe(1)));
    let stream = StreamId::new_subgroup(7, 3, Some(0));
    source.count_opened_stream();
    source.stream_started(stream);
    let termination = terminate_source(&mut requests, &mut source, 1);
    assert!(!requests.is_known(1));
    assert!(source.is_finished());
    assert_eq!(termination.to_close, vec![stream]);
    assert_eq!(termination.done.status_code, PublishDoneStatusCode::SubscriptionEnded);
    assert_eq!(termination.done.stream_count, 1);
    assert_eq!(termination.done.reason, "switched to target track");
}

#[test]
fn a_failed_update_ends_the_subscription() {
    assert!(matches!(reply_to_update(UpdateResult::Updated), UpdateReply::Accept));
    let failed = |detail: Option<String>| UpdateResult::Failed { detail, opened_stream_count: 4 };
    match reply_to_update(failed(None)) {
        UpdateReply::Terminate(error, _) => assert_eq!(error.reason, "Update failed"),
        other => panic!("expected an end, got {other:?}"),
    }
    match reply_to_update(failed(Some("x".to_string()))) {
        UpdateReply::Terminate(error, done) => {
            assert_eq!(error.error_code, RequestErrorCode::InternalError);
            assert_eq!(error.reason, "Update failed: x");
            assert_eq!(done.status_code, PublishDoneStatusCode::UpdateFailed);
            assert_eq!((done.stream_count, done.reason.as_str()), (4, "REQUEST_UPDATE failed"));
        }
        other => panic!("expected an end, got {other:?}"),
    }
    match reply_to_update(UpdateResult::NoSubscription) {
        UpdateReply::Refuse(error) => {
            assert_eq!(error.error_code, RequestErrorCode::DoesNotExist);
            assert_eq!(error.reason, "Subscription not found");
        }
        other => panic!("expected a refusal, got {other:?}"),
    }
}

#[test]
fn a_publisher_owes_one_answer() {
    let mut exchange = UpstreamExchange::new();
    match exchange.step(UpstreamEvent::AnswerDeadline) {
        UpstreamAction::FailAndReset(error, status) => {
            assert_eq!(error.error_code, RequestErrorCode::Timeout);
            assert_eq!(error.reason, "Publisher did not answer the subscribe");
            assert_eq!(status, PublishDoneStatusCode::InternalError);
        }
        other => panic!("expected a timeout, got {other:?}"),
    }
    assert!(matches!(exchange.step(UpstreamEvent::SubscribeOk), UpstreamAction::Accept));
    assert!(matches!(exchange.step(UpstreamEvent::AnswerDeadline), UpstreamAction::Continue));
    assert!(matches!(exchange.step(UpstreamEvent::PublishDone), UpstreamAction::RelayDone));
    assert!(matches!(exchange.step(UpstreamEvent::Cancelled), UpstreamAction::Reset));
    let mut fails = |event: UpstreamEvent| match exchange.step(event) {
        UpstreamAction::Fail(error, status) => (error.reason, status),
        other => panic!("expected a failure, got {other:?}"),
    };
    assert_eq!(
        fails(UpstreamEvent::RequestError(error())),
        ("no".to_string(), PublishDoneStatusCode::Unauthorized)
    );
    assert_eq!(
        fails(UpstreamEvent::Unexpected),
        (
            "Unexpected message on upstream subscription stream".to_string(),
            PublishDoneStatusCode::InternalError
        )
    );
    assert_eq!(
        fails(UpstreamEvent::StreamFailed),
        ("Upstream subscription failed".to_string(), PublishDoneStatusCode::TrackEnded)
    );
}

#[test]
fn subscribes_are_routed() {
    let reason = |route: SubscribeRoute| match route {
        SubscribeRoute::Reject(error) => {
            assert_eq!(error.error_code, RequestErrorCode::DoesNotExist);
            error.reason
        }
        other => panic!("expected a rejection, got {other:?}"),
    };
    assert_eq!(reason(route_subscribe(Some("reserved".to_string()), b".probe:10:1", 1)), "reserved");
    assert_eq!(reason(route_subscribe(None, b"video", 0)), "Unknown track namespace");
    assert!(matches!(route_subscribe(None, b"video", 1), SubscribeRoute::Track));
    match route_subscribe(None, b".probe:10:1", 0) {
        SubscribeRoute::Probe { size, priority } => assert_eq!((size, priority), (10, 1)),
        other => panic!("expected a probe, got {other:?}"),
    }
    assert_eq!(handle(MessageKind::Subscribe, None), Ok(Dispatch::Subscribe));
    assert_eq!(handle(MessageKind::Switch, None), Ok(Dispatch::Switch));
    assert_eq!(handle(MessageKind::Other, Some(1)), Ok(Dispatch::Ignore));
    assert_eq!(
        handle(MessageKind::RequestUpdate, Some(4)),
        Ok(Dispatch::RequestUpdate { target_request_id: 4 })
    );
    assert_eq!(handle(MessageKind::RequestUpdate, None), Err(TerminationCode::ProtocolViolation));
}

#[test]
fn a_delayed_subscribe_is_held_until_the_live_edge_is_far_enough() {
    let mut wait = DelayedSubscribe::new(4, 3);
    let mut params = vec![MessageParameter::SubscriberPriority { priority: 2 }];
    let mut holding = HoldingSubscribes::default();
    let edge = |group: u64| Some(Location { group, object: 5 });
    assert_eq!(wait.look(None, None, &mut params, &mut holding), DelayStep::Hold);
    assert_eq!(wait.look(edge(2), Some(0), &mut params, &mut holding), DelayStep::Hold);
    assert_eq!(holding.len(), 1);
    assert_eq!(params.len(), 1);
    let start = Location { group: 2, object: 0 };
    assert_eq!(
        wait.look(edge(4), Some(2), &mut params, &mut holding),
        DelayStep::Resolved { start, clamped: true }
    );
    assert_eq!(holding.len(), 0);
    assert_eq!(
        subscription_filter(&params),
        Some((FilterType::AbsoluteStart, Some(start), None))
    );
    assert_eq!(subscriber_priority(&params), 2);
}
