use moqtail::model::{Location, MessageParameter};
use moqtail::probe::parse_probe_track_name;
use moqtail::status::{PublishDoneStatusCode, RequestErrorCode};
use moqtail::subscribe_handler::{
    compute_delayed_start, parse_delay_groups, publish_done_status_for, DelayedStart,
};


#[test]
fn upstream_errors_map_to_a_publish_done_status() {
    for (error, status) in [
        (
            RequestErrorCode::Unauthorized,
            PublishDoneStatusCode::Unauthorized,
        ),
        (
            RequestErrorCode::GoingAway,
            PublishDoneStatusCode::GoingAway,
        ),
        (
            RequestErrorCode::MalformedTrack,
            PublishDoneStatusCode::MalformedTrack,
        ),
        (
            RequestErrorCode::ExcessiveLoad,
            PublishDoneStatusCode::ExcessiveLoad,
        ),
        (
            RequestErrorCode::DoesNotExist,
            PublishDoneStatusCode::TrackEnded,
        ),
        (
            RequestErrorCode::InvalidRange,
            PublishDoneStatusCode::InternalError,
        ),
        (
            RequestErrorCode::Timeout,
            PublishDoneStatusCode::InternalError,
        ),
    ] {
        assert_eq!(publish_done_status_for(error), status, "for {error:?}");
    }
}


#[test]
fn parse_delay_groups_returns_some_when_present() {
    let params = vec![MessageParameter::new_delay_groups(5)];
    assert_eq!(parse_delay_groups(&params), Some(5));
}

#[test]
fn parse_delay_groups_returns_none_when_absent() {
    let params: Vec<MessageParameter> = vec![];
    assert_eq!(parse_delay_groups(&params), None);
}

#[test]
fn parse_delay_groups_ignores_other_params() {
    let params = vec![MessageParameter::new_object_delivery_timeout(99)];
    assert_eq!(parse_delay_groups(&params), None);
}

#[test]
fn parse_delay_groups_tolerates_duplicate_returns_first() {
    let params = vec![
        MessageParameter::new_delay_groups(7),
        MessageParameter::new_delay_groups(11),
    ];
    assert_eq!(parse_delay_groups(&params), Some(7));
}


fn loc(group: u64, object: u64) -> Location {
    Location { group, object }
}

#[test]
fn ready_when_largest_is_well_above_delay_and_target_in_cache() {
    let result = compute_delayed_start(Some(loc(100, 0)), 2, Some(0));
    assert_eq!(result, DelayedStart::Ready(loc(98, 0)));
}

#[test]
fn hold_when_largest_below_delay() {
    let result = compute_delayed_start(Some(loc(1, 0)), 5, Some(0));
    assert_eq!(result, DelayedStart::Hold { delay_groups: 5 });
}

#[test]
fn ready_when_largest_exactly_equals_delay() {
    let result = compute_delayed_start(Some(loc(5, 0)), 5, Some(0));
    assert_eq!(result, DelayedStart::Ready(loc(0, 0)));
}

#[test]
fn hold_when_largest_is_none() {
    let result = compute_delayed_start(None, 5, None);
    assert_eq!(result, DelayedStart::Hold { delay_groups: 5 });
}

#[test]
fn clamped_to_oldest_when_target_below_cache_window() {
    let result = compute_delayed_start(Some(loc(100, 0)), 80, Some(50));
    assert_eq!(result, DelayedStart::ClampedToOldest(loc(50, 0)));
}

#[test]
fn ready_when_delay_is_zero() {
    let result = compute_delayed_start(Some(loc(100, 0)), 0, Some(0));
    assert_eq!(result, DelayedStart::Ready(loc(100, 0)));
}

#[test]
fn ready_when_target_exactly_equals_oldest_cached() {
    let result = compute_delayed_start(Some(loc(100, 0)), 50, Some(50));
    assert_eq!(result, DelayedStart::Ready(loc(50, 0)));
}

#[test]
fn ready_when_oldest_cached_is_none() {
    let result = compute_delayed_start(Some(loc(100, 0)), 80, None);
    assert_eq!(result, DelayedStart::Ready(loc(20, 0)));
}


#[test]
fn parses_size_and_priority() {
    assert_eq!(parse_probe_track_name(b".probe:4096:1"), Some((4096, 1)));
}

#[test]
fn rejects_non_probe_names() {
    assert_eq!(parse_probe_track_name(b"video-720p"), None);
    assert_eq!(parse_probe_track_name(b".probe:0:1"), None);
    assert_eq!(parse_probe_track_name(b".probe:10:1:extra"), None);
}
