use moqtail::joining::{finish_joining, replay_range, CachedObject, JoiningReplay};
use moqtail::keyed::KeyedList;
use moqtail::messages::{Publish, Subscribe};
use moqtail::model::{GroupOrder, Location, MessageParameter};
use moqtail::status::PublishDoneStatusCode;
use moqtail::streams::{
    compute_stream_priority, HeaderInfo, StreamId, SubgroupHeader, SubgroupKey,
};
use moqtail::subscription::{
    DatagramStep, ObjectEvent, ObjectStep, ReceiveStep, StreamPlan, Subscription,
    SubscriptionOrigin, TrackEvent, TrackStep, WritePlan,
};
use moqtail::track_name::{Tuple, TupleField};

fn loc(group: u64, object: u64) -> Location {
    Location { group, object }
}

fn subscription(params: Vec<MessageParameter>) -> Subscription {
    let sub = Subscribe::new_absolute_start(
        8,
        Tuple::new(vec![TupleField::from_utf8("live")]),
        TupleField::from_utf8("a"),
        loc(2, 0),
        params,
    );
    Subscription::new(5, SubscriptionOrigin::from(sub))
}

fn header(group_id: u64) -> HeaderInfo {
    HeaderInfo::Subgroup {
        header: SubgroupHeader::new_with_explicit_id(5, group_id, 0, Some(9), false, true, true),
    }
}

fn stream(group_id: u64) -> StreamId {
    StreamId::new_subgroup(5, group_id, Some(0))
}

fn event(location: Location, header_info: Option<HeaderInfo>) -> ObjectEvent {
    ObjectEvent {
        location,
        subgroup_id: Some(0),
        stream_id: stream(location.group),
        header_info,
    }
}

#[test]
fn an_object_opens_a_stream_or_finds_one() {
    let mut sub = subscription(vec![]);
    let priority = sub.subscription_state.subscriber_priority;
    assert_eq!(
        sub.handle_object_event(&event(loc(3, 0), Some(header(3)))),
        ObjectStep::OpenStream {
            stream_id: stream(3),
            header: header(3),
            priority: compute_stream_priority(priority, 9, sub.subscription_state.group_order, 3),
        }
    );
    assert_eq!(
        sub.handle_object_event(&event(loc(3, 1), None)),
        ObjectStep::FindStream { stream_id: stream(3) }
    );
    assert_eq!(
        sub.handle_object_event(&event(loc(3, 2), Some(HeaderInfo::Fetch { request_id: 1 }))),
        ObjectStep::UnusableHeader
    );
    assert_eq!(sub.subscription_state.last_received_object_location, Some(loc(3, 2)));
}

#[test]
fn objects_outside_the_filter_are_dropped() {
    let mut sub = subscription(vec![]);
    assert_eq!(sub.handle_object_event(&event(loc(1, 9), None)), ObjectStep::BeforeStart);
    sub.subscription_state.end_group = Some(4);
    assert_eq!(sub.handle_object_event(&event(loc(5, 0), None)), ObjectStep::BeyondEndGroup);
    assert_eq!(sub.handle_datagram(loc(1, 0)), DatagramStep::BeforeStart);
    assert_eq!(sub.handle_datagram(loc(5, 0)), DatagramStep::BeyondEndGroup);
    assert_eq!(sub.handle_datagram(loc(4, 7)), DatagramStep::Send { track_alias: 5 });
}

#[test]
fn a_paused_subscription_keeps_the_header_for_later() {
    let mut sub = subscription(vec![MessageParameter::new_forward(false)]);
    assert!(!sub.is_active() && !sub.is_forwarding());
    assert_eq!(
        sub.handle_object_event(&event(loc(3, 0), Some(header(3)))),
        ObjectStep::NotForwarding
    );
    assert_eq!(sub.handle_datagram(loc(3, 0)), DatagramStep::NotForwarding);
    let update = vec![MessageParameter::new_forward(true)];
    assert_eq!(sub.update_subscription(&update), Some((stream(3), header(3))));
    assert_eq!(sub.update_subscription(&update), None);
    assert!(sub.is_active());
}

#[test]
fn object_ids_rise_on_a_stream() {
    let mut sub = subscription(vec![]);
    sub.count_opened_stream();
    sub.stream_started(stream(3));
    assert_eq!(sub.plan_write(stream(3), 4), WritePlan::Write { previous_object_id: None });
    sub.object_written(stream(3), loc(3, 4));
    assert_eq!(sub.plan_write(stream(3), 4), WritePlan::Skip);
    assert_eq!(sub.plan_write(stream(3), 5), WritePlan::Write { previous_object_id: Some(4) });
    assert_eq!(sub.plan_write(stream(4), 0), WritePlan::Write { previous_object_id: None });
    sub.object_written(stream(4), loc(4, 0));
    sub.object_written(stream(3), loc(3, 5));
    assert_eq!(sub.subscription_state.last_sent_max_location, Some(loc(4, 0)));
    sub.handle_stream_closed(stream(3));
    assert_eq!(sub.plan_write(stream(3), 0), WritePlan::Write { previous_object_id: None });
    let done = sub.publish_done(PublishDoneStatusCode::TrackEnded, "over");
    assert_eq!((done.stream_count, done.reason.as_str()), (1, "over"));
    assert_eq!(done.status_code, PublishDoneStatusCode::TrackEnded);
    assert_eq!(sub.opened_stream_count(), 1);
}

#[test]
fn the_end_of_a_subscription_closes_its_streams_once() {
    let mut sub = subscription(vec![]);
    sub.stream_started(stream(3));
    sub.stream_started(stream(4));
    let mut closed = sub.finish();
    closed.sort_by_key(|id| format!("{id:?}"));
    assert_eq!(closed, vec![stream(3), stream(4)]);
    assert!(sub.is_finished());
    assert!(sub.finish().is_empty());
    let mut sub = subscription(vec![]);
    sub.stream_started(stream(3));
    assert_eq!(sub.cancel(), vec![stream(3)]);
    assert!(sub.is_finished() && sub.cancel().is_empty());
    let mut sub = subscription(vec![]);
    sub.stream_started(stream(3));
    assert_eq!(sub.reset_data_streams(), vec![stream(3)]);
    assert!(!sub.is_finished());
}

#[test]
fn every_event_of_a_track_is_taken() {
    let mut sub = subscription(vec![]);
    assert!(matches!(
        sub.handle_track_event(TrackEvent::SubgroupObject(event(loc(3, 0), None))),
        TrackStep::Object(ObjectStep::FindStream { .. })
    ));
    assert!(matches!(
        sub.handle_track_event(TrackEvent::Datagram { location: loc(3, 1) }),
        TrackStep::Datagram(DatagramStep::Send { track_alias: 5 })
    ));
    sub.count_opened_stream();
    sub.stream_started(stream(3));
    sub.stream_started(stream(4));
    match sub.handle_track_event(TrackEvent::StreamClosed { stream_id: stream(3) }) {
        TrackStep::CloseStream { stream_id } => assert_eq!(stream_id, stream(3)),
        other => panic!("expected a close, got {other:?}"),
    }
    let gone = || TrackEvent::PublisherDisconnected {
        status_code: PublishDoneStatusCode::TrackEnded,
        reason: "gone".to_string(),
    };
    match sub.handle_track_event(gone()) {
        TrackStep::End { done, to_close } => {
            assert_eq!(done.status_code, PublishDoneStatusCode::TrackEnded);
            assert_eq!((done.stream_count, done.reason.as_str()), (1, "gone"));
            assert_eq!(to_close, vec![stream(4)]);
        }
        other => panic!("expected the end, got {other:?}"),
    }
    assert!(sub.is_finished());
    match sub.handle_track_event(gone()) {
        TrackStep::End { to_close, .. } => assert!(to_close.is_empty()),
        other => panic!("expected the end, got {other:?}"),
    }
}

#[test]
fn a_stream_is_opened_in_the_middle_of_a_subgroup() {
    let sub = subscription(vec![]);
    assert_eq!(sub.find_stream(true, Some(header(3))), StreamPlan::Use);
    assert_eq!(sub.find_stream(false, None), StreamPlan::Missing);
    let (stream_id, priority) = sub.handle_header(&header(3));
    assert_eq!(stream_id, stream(3));
    assert_eq!(
        sub.find_stream(false, Some(header(3))),
        StreamPlan::Open { stream_id, header: header(3), priority }
    );
}

#[test]
fn nothing_goes_out_before_the_alias() {
    let mut sub = subscription(vec![]);
    assert!(sub.waits_for_alias());
    sub.mark_alias_announced();
    assert!(!sub.waits_for_alias());
    let mut sub = subscription(vec![]);
    sub.finish();
    assert!(!sub.waits_for_alias());
}

#[test]
fn a_slow_subscriber_is_shed() {
    let mut sub = subscription(vec![]);
    assert_eq!(sub.receive(10, 11, true), ReceiveStep::Shed);
    assert_eq!(sub.receive(10, 10, true), ReceiveStep::Handle);
    assert_eq!(sub.receive(0, 1_000_000, true), ReceiveStep::Handle);
    assert_eq!(sub.receive(10, 0, false), ReceiveStep::Finish);
    sub.finish();
    assert_eq!(sub.receive(10, 11, true), ReceiveStep::StopReceiving);
}

#[test]
fn a_subscription_can_come_from_a_publish() {
    let publish = Publish {
        request_id: 6,
        track_namespace: Tuple::new(vec![]),
        track_name: TupleField::from_utf8("a"),
        track_alias: 1,
        parameters: vec![MessageParameter::SubscriberPriority { priority: 3 }],
        track_properties: vec![],
    };
    let sub = Subscription::new(5, SubscriptionOrigin::from(publish));
    assert_eq!((sub.request_id, sub.relay_track_id), (6, 5));
    assert_eq!(sub.subscription_state.subscriber_priority, 3);
    assert_eq!(sub.subscription_state.group_order, GroupOrder::Ascending);
    assert!(!sub.subscription_state.is_joining);
}

fn cached(group_id: u64, subgroup_id: u64, object_id: u64) -> CachedObject {
    CachedObject { group_id, subgroup_id, object_id, publisher_priority: 9, has_properties: false }
}

#[test]
fn the_replay_marks_what_it_delivers() {
    let mut sub = subscription(vec![]);
    assert_eq!(replay_range(&sub.subscription_state, None), None);
    assert_eq!(
        replay_range(&sub.subscription_state, Some(3)),
        Some((loc(2, 0), loc(3, u64::MAX)))
    );
    assert_eq!(replay_range(&sub.subscription_state, Some(1)), None);
    let mut replay = JoiningReplay::new(5);
    let first = replay.next(&cached(2, 0, 0));
    match first.header_info {
        Some(HeaderInfo::Subgroup { header }) => {
            assert_eq!((header.group_id, header.publisher_priority), (2, Some(9)));
            assert!(!header.first_object && !header.contains_end_of_group);
        }
        other => panic!("expected a header, got {other:?}"),
    }
    let second = replay.next(&cached(2, 0, 1));
    assert_eq!((second.header_info, second.stream_id), (None, first.stream_id));
    let third = replay.next(&cached(3, 0, 0));
    assert!(third.header_info.is_some() && third.stream_id != first.stream_id);
    finish_joining(&mut sub.subscription_state, Some((loc(3, 0), replay)));
    assert!(!sub.subscription_state.is_joining);
    assert_eq!(replay_range(&sub.subscription_state, Some(3)), None);
    assert_eq!(sub.subscription_state.last_received_object_location, Some(loc(3, 0)));
    assert_eq!(sub.handle_object_event(&event(loc(2, 1), None)), ObjectStep::ReplayDuplicate);
    assert_eq!(
        sub.handle_object_event(&event(loc(2, 2), None)),
        ObjectStep::FindStream { stream_id: stream(2) }
    );
    let straggler = ObjectEvent { subgroup_id: Some(1), ..event(loc(2, 0), None) };
    assert_eq!(
        sub.handle_object_event(&straggler),
        ObjectStep::FindStream { stream_id: stream(2) }
    );
}

#[test]
fn joining_ends_without_a_replay_too() {
    let mut sub = subscription(vec![]);
    finish_joining(&mut sub.subscription_state, None);
    assert!(!sub.subscription_state.is_joining);
    assert_eq!(sub.subscription_state.last_received_object_location, None);
}

#[test]
fn keyed_lists_hold_one_value_for_a_key() {
    let mut list: KeyedList<SubgroupKey, u64> = KeyedList::new();
    let key = |group_id: u64| SubgroupKey { group_id, subgroup_id: 0 };
    list.insert(key(1), 10);
    list.insert(key(2), 20);
    list.insert(key(1), 11);
    assert_eq!(list.entries().len(), 2);
    assert_eq!((list.get(key(1)), list.get(key(3))), (Some(11), None));
    list.remove(key(1));
    assert_eq!(list.get(key(1)), None);
    assert_eq!(list.drain(), vec![key(2)]);
    assert!(list.entries().is_empty());
}
