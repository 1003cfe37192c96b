use moqtail::model::{FilterType, GroupOrder, Location, MessageParameter};
use moqtail::streams::compute_stream_priority;
use moqtail::subscription::{SubscriptionOrigin, SubscriptionState};
use moqtail::switch_delivery::{
    backfill_range, build_switch_live_sub, drain_complete, seam_end_group_bound, switch_catchup_priority,
    switch_catchup_range, switch_subscriber_priority, switch_target_parameters, target_live_edge,
};
use moqtail::switch_selection::{compute_switch_group, SwitchSelection};
use moqtail::track_name::{Tuple, TupleField};
use std::collections::BTreeSet;

fn loc(group: u64, object: u64) -> Location {
    Location { group, object }
}

fn namespace() -> Tuple {
    Tuple::new(vec![TupleField::from_utf8("test")])
}

fn track_name() -> TupleField {
    TupleField::from_utf8("video")
}


#[test]
fn seam_bound_for_g_switch_one_is_a_real_bound_at_group_zero() {
    assert_eq!(seam_end_group_bound(1), Some(0));
}

#[test]
fn seam_bound_for_g_switch_zero_is_unbounded() {
    assert_eq!(seam_end_group_bound(0), None);
}

#[test]
fn seam_bound_is_g_switch_minus_one() {
    assert_eq!(seam_end_group_bound(10), Some(9));
}


#[test]
fn drain_not_complete_when_nothing_sent_but_target_exists() {
    assert!(!drain_complete(None, Some(&loc(0, 2))));
    assert!(!drain_complete(None, Some(&loc(3, 7))));
}

#[test]
fn drain_complete_when_nothing_below_seam_is_held() {
    assert!(drain_complete(None, None));
    assert!(drain_complete(Some(&loc(9, 9)), None));
}

#[test]
fn mid_group_tail_holds_the_drain() {
    assert!(!drain_complete(Some(&loc(4, 3)), Some(&loc(4, 7))));
    assert!(drain_complete(Some(&loc(4, 7)), Some(&loc(4, 7))));
}

#[test]
fn shared_hole_below_seam_converges() {
    assert!(drain_complete(Some(&loc(2, 5)), Some(&loc(2, 5))));
    assert!(!drain_complete(Some(&loc(2, 4)), Some(&loc(2, 5))));
}

#[test]
fn drain_complete_when_source_already_past_seam() {
    assert!(drain_complete(Some(&loc(7, 2)), Some(&loc(4, 9))));
}


#[test]
fn catchup_range_is_half_open() {
    assert_eq!(switch_catchup_range(2, 6), Some((loc(2, 0), loc(5, 0))));
}

#[test]
fn catchup_skipped_at_or_above_live_edge() {
    assert_eq!(switch_catchup_range(6, 6), None);
    assert_eq!(switch_catchup_range(7, 6), None);
}

#[test]
fn catchup_range_at_live_edge_one_does_not_underflow() {
    assert_eq!(switch_catchup_range(0, 1), Some((loc(0, 0), loc(0, 0))));
}


#[test]
fn catchup_priority_outranks_every_live_group_of_the_target() {
    for pub_prio in [0u8, 1, 4, 128, 255] {
        for group in [0u64, 1, 100, 65_535] {
            assert!(
                switch_catchup_priority(128)
                    >= compute_stream_priority(128, pub_prio, GroupOrder::Ascending, group)
            );
        }
    }
}

#[test]
fn catchup_priority_respects_the_subscriber_band() {
    assert!(
        compute_stream_priority(0, 255, GroupOrder::Ascending, 65_535) > switch_catchup_priority(128)
    );
}


#[test]
fn target_parameters_drop_relay_owned_fields() {
    let raw: Vec<MessageParameter> = vec![
        MessageParameter::new_forward(false),
        MessageParameter::new_delay_groups(3),
        MessageParameter::new_largest_object(loc(9, 9)),
    ];
    let params = switch_target_parameters(&raw);
    assert_eq!(params, vec![MessageParameter::new_delay_groups(3)]);
    assert_eq!(switch_subscriber_priority(&params), 128);
}


#[test]
fn live_sub_starts_at_live_edge_when_seam_below_edge() {
    let sub = build_switch_live_sub(42, namespace(), track_name(), 3, 7, Vec::new());
    let state = SubscriptionState::from(SubscriptionOrigin::from(sub));
    assert_eq!(state.start_location, Some(loc(7, 0)));
}

#[test]
fn live_sub_starts_at_g_switch_when_seam_above_edge() {
    let sub = build_switch_live_sub(42, namespace(), track_name(), 9, 7, Vec::new());
    let state = SubscriptionState::from(SubscriptionOrigin::from(sub));
    assert_eq!(state.start_location, Some(loc(9, 0)));
}

#[test]
fn live_sub_uses_absolute_start_and_engages_joining_replay() {
    let sub = build_switch_live_sub(42, namespace(), track_name(), 3, 7, Vec::new());
    assert_eq!(sub.request_id, 42);
    let state = SubscriptionState::from(SubscriptionOrigin::from(sub));
    assert!(matches!(state.filter_type, FilterType::AbsoluteStart));
    assert_eq!(state.end_group, None, "live sub must be unbounded");
    assert!(state.forward);
    assert!(
        state.is_joining,
        "AbsoluteStart must set is_joining so the cache replay covers the \
          already-received head of the start group"
    );
}

#[test]
fn history_that_only_the_upstream_has_is_fetched() {
    let held = |groups: &[u64]| -> BTreeSet<u64> { groups.iter().copied().collect() };
    assert_eq!(backfill_range(0, &held(&[]), Some(2)), Some((loc(0, 0), loc(2, 0))));
    assert_eq!(backfill_range(1, &held(&[]), Some(2)), Some((loc(1, 0), loc(2, 0))));
    assert_eq!(backfill_range(0, &held(&[0, 4]), Some(4)), Some((loc(1, 0), loc(3, 0))));
    assert_eq!(backfill_range(0, &held(&[0, 2, 4]), Some(4)), Some((loc(1, 0), loc(3, 0))));
    assert_eq!(backfill_range(0, &held(&[0, 1, 2]), Some(2)), None);
    assert_eq!(backfill_range(3, &held(&[]), Some(2)), None);
    assert_eq!(backfill_range(0, &held(&[]), None), None);
    let newest = u64::MAX;
    assert_eq!(
        backfill_range(newest, &held(&[]), Some(newest)),
        Some((loc(newest, 0), loc(newest, 0)))
    );
    assert_eq!(backfill_range(newest, &held(&[newest]), Some(newest)), None);
}

#[test]
fn a_backfilled_target_is_switched_to_at_the_minimum() {
    let source: BTreeSet<u64> = (0..=2).collect();
    let mut target = BTreeSet::new();
    let edge = target_live_edge(None, Some(2));
    assert_eq!(edge, 2);
    assert_eq!(compute_switch_group(0, &source, &target, edge), SwitchSelection::NoCommonBoundary);
    let (start, end) = backfill_range(0, &target, Some(edge)).unwrap();
    target.extend(start.group..=end.group);
    assert_eq!(compute_switch_group(0, &source, &target, edge), SwitchSelection::Ready(0));
    assert_eq!(switch_catchup_range(0, edge), Some((loc(0, 0), loc(1, 0))));
    assert_eq!(target_live_edge(Some(5), Some(2)), 5);
    assert_eq!(target_live_edge(Some(1), Some(2)), 2);
    assert_eq!(target_live_edge(Some(1), None), 1);
    assert_eq!(target_live_edge(None, None), 0);
}
