use moqtail::messages::Subscribe;
use moqtail::model::{GroupOrder, Location};
use moqtail::streams::{breaks_stream_monotonicity, compute_stream_priority, SubgroupKey};
use moqtail::subscription::{SubscriptionOrigin, SubscriptionState};
use moqtail::track_name::{Tuple, TupleField};

fn namespace() -> Tuple {
    Tuple::new(vec![TupleField::from_utf8("test")])
}

fn track_name() -> TupleField {
    TupleField::from_utf8("video")
}

#[test]
fn test_highest_priority_near_i32_max() {
    let p = compute_stream_priority(0, 0, GroupOrder::Ascending, 0);
    assert!(
        p > 2_100_000_000,
        "highest priority should be near i32::MAX, got {p}"
    );
}

#[test]
fn test_lowest_priority_near_i32_min() {
    let p = compute_stream_priority(255, 255, GroupOrder::Ascending, 0);
    assert!(
        p < -2_100_000_000,
        "lowest priority should be near i32::MIN, got {p}"
    );
}

#[test]
fn test_ascending_lower_group_higher_priority() {
    let p0 = compute_stream_priority(0, 0, GroupOrder::Ascending, 0);
    let p1 = compute_stream_priority(0, 0, GroupOrder::Ascending, 1);
    assert!(p0 > p1, "group 0 should outrank group 1 in Ascending order");
}

#[test]
fn test_descending_higher_group_higher_priority() {
    let p0 = compute_stream_priority(0, 0, GroupOrder::Descending, 0);
    let p1 = compute_stream_priority(0, 0, GroupOrder::Descending, 1);
    assert!(
        p1 > p0,
        "group 1 should outrank group 0 in Descending order"
    );
}

#[test]
fn test_original_same_as_ascending() {
    for g in [0u64, 1, 100, 65535] {
        assert_eq!(
            compute_stream_priority(10, 20, GroupOrder::Original, g),
            compute_stream_priority(10, 20, GroupOrder::Ascending, g),
            "Original should behave like Ascending for group {g}"
        );
    }
}

#[test]
fn test_subscriber_priority_dominates() {
    let high = compute_stream_priority(0, 255, GroupOrder::Ascending, 0);
    let low = compute_stream_priority(1, 0, GroupOrder::Ascending, 0);
    assert!(
        high > low,
        "subscriber priority must dominate publisher priority"
    );
}

#[test]
fn test_publisher_priority_tie_break() {
    let high = compute_stream_priority(10, 0, GroupOrder::Ascending, 0);
    let low = compute_stream_priority(10, 1, GroupOrder::Ascending, 0);
    assert!(high > low, "lower pub_prio number = higher priority");
}

#[test]
fn test_all_values_within_i32_range() {
    for sub in [0u8, 128, 255] {
        for pub_ in [0u8, 128, 255] {
            for &order in &[
                GroupOrder::Ascending,
                GroupOrder::Descending,
                GroupOrder::Original,
            ] {
                for group in [0u64, 1, 65534, 65535, 65536, u64::MAX] {
                    let _ = compute_stream_priority(sub, pub_, order, group); // must not panic/overflow
                }
            }
        }
    }
}

#[test]
fn is_joining_is_true_when_start_location_is_some() {
    let sub = Subscribe::new_absolute_start(
        1,
        namespace(),
        track_name(),
        Location {
            group: 50,
            object: 0,
        },
        vec![],
    );
    let state = SubscriptionState::from(SubscriptionOrigin::from(sub));
    assert_eq!(
        state.start_location,
        Some(Location {
            group: 50,
            object: 0
        })
    );
    assert!(
        state.is_joining,
        "is_joining must be true when start_location is set, otherwise the \
          cache-replay path silently drops cached objects"
    );
}

#[test]
fn is_joining_is_false_when_start_location_is_none() {
    let sub = Subscribe::new_latest_object(1, namespace(), track_name(), vec![]);
    let state = SubscriptionState::from(SubscriptionOrigin::from(sub));
    assert_eq!(state.start_location, None);
    assert!(!state.is_joining);
}

fn state_with_watermark(group: u64, subgroup: u64, max_object: u64) -> SubscriptionState {
    let sub = Subscribe::new_absolute_start(
        1,
        namespace(),
        track_name(),
        Location { group, object: 0 },
        vec![],
    );
    let mut state = SubscriptionState::from(SubscriptionOrigin::from(sub));
    state
        .replay_watermarks
        .insert(SubgroupKey { group_id: group, subgroup_id: subgroup }, max_object);
    state
}

#[test]
fn object_at_or_below_watermark_is_duplicate() {
    let state = state_with_watermark(10, 0, 5);
    assert!(state.is_replay_duplicate(
        &Location {
            group: 10,
            object: 5
        },
        Some(0)
    ));
    assert!(state.is_replay_duplicate(
        &Location {
            group: 10,
            object: 0
        },
        Some(0)
    ));
}

#[test]
fn object_above_watermark_passes() {
    let state = state_with_watermark(10, 0, 5);
    assert!(!state.is_replay_duplicate(
        &Location {
            group: 10,
            object: 6
        },
        Some(0)
    ));
}

#[test]
fn interleaved_subgroup_straggler_passes() {
    let state = state_with_watermark(10, 0, 9);
    assert!(!state.is_replay_duplicate(
        &Location {
            group: 10,
            object: 3
        },
        Some(1)
    ));
}

#[test]
fn older_group_straggler_passes() {
    let state = state_with_watermark(10, 0, 9);
    assert!(!state.is_replay_duplicate(
        &Location {
            group: 9,
            object: 2
        },
        Some(0)
    ));
}

#[test]
fn object_without_subgroup_passes() {
    let state = state_with_watermark(10, 0, 9);
    assert!(!state.is_replay_duplicate(
        &Location {
            group: 10,
            object: 1
        },
        None
    ));
}

#[test]
fn empty_watermarks_never_filter() {
    let sub = Subscribe::new_latest_object(
        1,
        namespace(),
        track_name(),
        vec![],
    );
    let state = SubscriptionState::from(SubscriptionOrigin::from(sub));
    assert!(!state.is_replay_duplicate(
        &Location {
            group: 0,
            object: 0
        },
        Some(0)
    ));
}

fn unbounded_state() -> SubscriptionState {
    let sub = Subscribe::new_latest_object(
        1,
        namespace(),
        track_name(),
        vec![],
    );
    SubscriptionState::from(SubscriptionOrigin::from(sub))
}

#[test]
fn bound_at_group_zero_is_a_real_bound() {
    let mut state = unbounded_state();
    state.end_group = Some(0);
    assert!(state.exceeds_end_group(1), "Group 1 must be filtered");
    assert!(!state.exceeds_end_group(0), "Group 0 itself must pass");
}

#[test]
fn none_means_unbounded() {
    let state = unbounded_state();
    assert_eq!(state.end_group, None);
    assert!(!state.exceeds_end_group(0));
    assert!(!state.exceeds_end_group(u64::MAX));
}

#[test]
fn bound_is_inclusive() {
    let mut state = unbounded_state();
    state.end_group = Some(5);
    assert!(!state.exceeds_end_group(5));
    assert!(state.exceeds_end_group(6));
}

#[test]
fn fresh_stream_never_blocks() {
    assert!(!breaks_stream_monotonicity(None, 0));
    assert!(!breaks_stream_monotonicity(None, u64::MAX));
}

#[test]
fn increasing_ids_pass() {
    assert!(!breaks_stream_monotonicity(Some(2), 3));
    assert!(!breaks_stream_monotonicity(Some(2), 10));
}

#[test]
fn duplicate_id_is_blocked() {
    assert!(breaks_stream_monotonicity(Some(3), 3));
}

#[test]
fn late_lower_id_is_blocked() {
    assert!(breaks_stream_monotonicity(Some(3), 0));
    assert!(breaks_stream_monotonicity(Some(3), 2));
}
