use std::collections::BTreeSet;

use moqtail::messages::Subscribe;
use moqtail::model::{Location, MessageParameter};
use moqtail::status::PublishDoneStatusCode;
use moqtail::streams::StreamId;
use moqtail::subscription::{SubscriptionOrigin, SubscriptionState};
use moqtail::switch_delivery::{restore_source_end_group, switch_catchup_priority};
use moqtail::switch_guard::{SwitchFailure, SwitchInFlight, DEFAULT_T_SWITCH};
use moqtail::switch_handler::{
    enter_switch, find_target, refuse_switch, Attached, CheckNext, Claimed, ClaimNext,
    CurrentSubscription, DrainNext, Draining, Entered, Failing, Resolved, ScanNext, SelectNext,
    Selecting, SwitchEntry, TargetSource,
};
use moqtail::switch_transition::SwitchTransition;
use moqtail::track_name::{FullTrackName, Tuple, TupleField};

const ESTABLISHED: CurrentSubscription =
    CurrentSubscription { request_known: true, track_present: true, subscription_live: true };

fn target() -> FullTrackName {
    FullTrackName::new(
        Tuple::new(vec![TupleField::from_utf8("live")]),
        TupleField::from_utf8("b"),
    )
}

fn groups(list: &[u64]) -> BTreeSet<u64> {
    list.iter().copied().collect()
}

fn loc(group: u64, object: u64) -> Location {
    Location { group, object }
}

fn source() -> SubscriptionState {
    let sub = Subscribe::new_latest_object(
        1,
        Tuple::new(vec![TupleField::from_utf8("live")]),
        TupleField::from_utf8("a"),
        vec![],
    );
    SubscriptionState::from(SubscriptionOrigin::from(sub))
}

fn entered(guard: &mut SwitchInFlight, now: u64) -> Entered {
    match enter_switch(guard, &ESTABLISHED, 1, now, DEFAULT_T_SWITCH) {
        SwitchEntry::Entered(entered) => entered,
        other => panic!("expected an entry, got {other:?}"),
    }
}

fn selecting(guard: &mut SwitchInFlight, minimum_group: u64) -> Selecting {
    let parameters = vec![
        MessageParameter::SubscriberPriority { priority: 7 },
        MessageParameter::new_largest_object(loc(99, 9)),
    ];
    match entered(guard, 0).resolve_target(target(), Some(2), 100, minimum_group, &parameters) {
        Resolved::Selecting(selecting) => selecting,
        other => panic!("expected a search, got {other:?}"),
    }
}

fn scan(selecting: Selecting, guard: &SwitchInFlight, avail: (u64, u64), now: u64) -> Selecting {
    match selecting.poll(guard, false, avail, now) {
        SelectNext::Scan(selecting) => selecting,
        other => panic!("expected a scan, got {other:?}"),
    }
}

fn draining(guard: &mut SwitchInFlight) -> Draining {
    let selecting = selecting(guard, 0);
    let selecting = scan(selecting, guard, (1, 1), 0);
    match selecting.scan(&groups(&[0, 1, 2, 3]), &groups(&[2, 3, 4]), 4, 0) {
        ScanNext::Draining(draining) => draining,
        other => panic!("expected a boundary, got {other:?}"),
    }
}

fn claimed(guard: &mut SwitchInFlight) -> Claimed {
    match draining(guard).claim(guard) {
        ClaimNext::Claimed(claimed) => claimed,
        other => panic!("expected the claim, got {other:?}"),
    }
}

fn check_report(failing: &Failing, alias: u64, failure: SwitchFailure) {
    assert_eq!(failing.failure(), failure);
    let report = failing.report();
    assert_eq!(report.publish.request_id, 100);
    assert_eq!(report.publish.track_alias, alias);
    assert_eq!(report.publish.track_name.as_bytes(), b"b");
    assert_eq!(report.done.status_code, failure.status_code());
    assert_eq!(report.done.stream_count, 0);
    assert_eq!(report.done.reason, format!("switch: {}", failure.name()));
    assert_eq!(
        report.publish.parameters[0],
        MessageParameter::Forward { forward: false }
    );
    assert_eq!(
        SwitchTransition::from_parameters(&report.publish.parameters),
        Some(SwitchTransition::new(0, 0))
    );
}

#[test]
fn a_switch_runs_from_its_receipt_to_its_publish() {
    let mut guard = SwitchInFlight::new();
    let draining = draining(&mut guard);
    assert!(draining.must_drain(true));
    assert!(!draining.must_drain(false));
    let boundary = draining.g_switch();
    let draining = match draining.poll(&guard, 1) {
        DrainNext::ReadTarget(draining) => draining,
        other => panic!("expected a read, got {other:?}"),
    };
    let draining = draining.target_read(Some(loc(boundary - 1, 5)));
    let draining = match draining.check(Some(loc(boundary - 1, 4)), 10) {
        CheckNext::Wait(draining) => draining,
        other => panic!("expected a wait, got {other:?}"),
    };
    let draining = match draining.poll(&guard, 1) {
        DrainNext::Check(draining) => draining,
        other => panic!("expected a look, got {other:?}"),
    };
    let draining = match draining.check(Some(loc(boundary - 1, 5)), 10) {
        CheckNext::Claim(draining) => draining,
        other => panic!("expected a drained source, got {other:?}"),
    };
    let claimed = match draining.claim(&mut guard) {
        ClaimNext::Claimed(claimed) => claimed,
        other => panic!("expected the claim, got {other:?}"),
    };
    let mut source = source();
    let claimed = claimed.bind_source(&mut source);
    assert_eq!(source.end_group, Some(boundary - 1));
    let promotion = claimed.promote(4);
    assert_eq!(promotion.live_sub().request_id, 100);
    let announcement = match promotion.attached(true, vec![]) {
        Attached::Announcement(announcement) => announcement,
        other => panic!("expected an announcement, got {other:?}"),
    };
    let publish = announcement.publish();
    assert_eq!((publish.request_id, publish.track_alias), (100, 2));
    assert_eq!(
        SwitchTransition::from_parameters(&publish.parameters),
        Some(SwitchTransition::new(boundary, 4))
    );
    assert_eq!(announcement.live_sub().request_id, 100);
    let catchup = announcement.catchup().unwrap();
    assert_eq!(catchup.stream_id, StreamId::Fetch { track_alias: 2, request_id: 100 });
    assert_eq!((catchup.start, catchup.end), (loc(boundary, 0), loc(3, 0)));
    assert_eq!(catchup.priority, switch_catchup_priority(7));
    assert!(guard.is_in_flight(1, 10));
    announcement.release(&mut guard);
    assert!(!guard.is_in_flight(1, 10));
}

#[test]
fn a_switch_of_no_subscription_is_dropped() {
    let mut guard = SwitchInFlight::new();
    for lacking in [
        CurrentSubscription { request_known: false, ..ESTABLISHED },
        CurrentSubscription { track_present: false, ..ESTABLISHED },
        CurrentSubscription { subscription_live: false, ..ESTABLISHED },
    ] {
        assert_eq!(
            enter_switch(&mut guard, &lacking, 1, 0, DEFAULT_T_SWITCH),
            SwitchEntry::Dropped
        );
        assert!(!guard.is_in_flight(1, 0));
    }
}

#[test]
fn a_second_switch_is_answered_with_excessive_load() {
    let mut guard = SwitchInFlight::new();
    let _first = entered(&mut guard, 0);
    assert_eq!(
        enter_switch(&mut guard, &ESTABLISHED, 1, 1, DEFAULT_T_SWITCH),
        SwitchEntry::Refused
    );
    let report = refuse_switch(100, &target());
    assert_eq!(report.done.status_code, PublishDoneStatusCode::ExcessiveLoad);
    assert_eq!((report.publish.request_id, report.publish.track_alias), (100, 0));
    assert!(matches!(
        enter_switch(&mut guard, &ESTABLISHED, 3, 1, DEFAULT_T_SWITCH),
        SwitchEntry::Entered(_)
    ));
}

#[test]
fn an_unknown_target_is_asked_for_first() {
    assert_eq!(find_target(Some(4), 0), TargetSource::Carried { alias: 4 });
    assert_eq!(find_target(None, 1), TargetSource::Establish);
    assert_eq!(find_target(None, 0), TargetSource::Missing);
    let mut guard = SwitchInFlight::new();
    match entered(&mut guard, 0).resolve_target(target(), None, 100, 0, &vec![]) {
        Resolved::Failing(failing) => {
            check_report(&failing, 0, SwitchFailure::TargetTrackMissing);
            failing.release(&mut guard);
            assert!(!guard.is_in_flight(1, 0));
        }
        other => panic!("expected a failure, got {other:?}"),
    }
}

#[test]
fn a_search_waits_for_a_boundary_until_its_deadline() {
    let mut guard = SwitchInFlight::new();
    let search = selecting(&mut guard, 3);
    let search = scan(search, &guard, (1, 1), 0);
    let search = match search.scan(&groups(&[0, 1]), &groups(&[0, 1]), 1, 0) {
        ScanNext::Wait(search) => search,
        other => panic!("expected a wait, got {other:?}"),
    };
    let search = match search.poll(&guard, false, (1, 1), 5) {
        SelectNext::Wait(search) => search,
        other => panic!("expected a wait, got {other:?}"),
    };
    let search = scan(search, &guard, (2, 2), 5);
    match search.scan(&groups(&[0, 1, 2, 3]), &groups(&[0, 1, 2, 3]), 3, DEFAULT_T_SWITCH) {
        ScanNext::Draining(draining) => assert_eq!(draining.g_switch(), 3),
        other => panic!("expected a boundary, got {other:?}"),
    }
}

#[test]
fn a_search_without_a_boundary_fails_at_its_deadline() {
    let mut guard = SwitchInFlight::new();
    let search = selecting(&mut guard, 3);
    let search = scan(search, &guard, (1, 1), 0);
    match search.scan(&groups(&[0]), &groups(&[0]), 0, DEFAULT_T_SWITCH) {
        ScanNext::Failing(failing) => check_report(&failing, 2, SwitchFailure::NoCommonBoundary),
        other => panic!("expected a failure, got {other:?}"),
    }
    let mut guard = SwitchInFlight::new();
    let search = selecting(&mut guard, 3);
    let search = scan(search, &guard, (1, 1), 0);
    match search.poll(&guard, false, (1, 1), DEFAULT_T_SWITCH) {
        SelectNext::Failing(failing) => check_report(&failing, 2, SwitchFailure::NoCommonBoundary),
        other => panic!("expected a failure, got {other:?}"),
    }
}

#[test]
fn a_rejected_target_ends_the_search() {
    let mut guard = SwitchInFlight::new();
    match selecting(&mut guard, 0).poll(&guard, true, (1, 1), 0) {
        SelectNext::Failing(failing) => {
            check_report(&failing, 2, SwitchFailure::TargetTrackMissing)
        }
        other => panic!("expected a failure, got {other:?}"),
    }
}

#[test]
fn a_cancel_during_the_search_or_the_drain_is_reported() {
    let mut guard = SwitchInFlight::new();
    let search = selecting(&mut guard, 0);
    assert!(guard.abandon(1, 1));
    match search.poll(&guard, false, (1, 1), 1) {
        SelectNext::Failing(failing) => {
            check_report(&failing, 2, SwitchFailure::SubscriptionEnded);
            assert_eq!(
                failing.report().done.status_code,
                PublishDoneStatusCode::SubscriptionEnded
            );
        }
        other => panic!("expected a failure, got {other:?}"),
    }
    let mut guard = SwitchInFlight::new();
    let drain = draining(&mut guard);
    assert!(guard.abandon(1, 1));
    let drain = match drain.poll(&guard, 1) {
        DrainNext::Claim(drain) => drain,
        other => panic!("expected the claim, got {other:?}"),
    };
    match drain.claim(&mut guard) {
        ClaimNext::Failing(failing) => check_report(&failing, 2, SwitchFailure::SubscriptionEnded),
        other => panic!("expected a failure, got {other:?}"),
    }
}

#[test]
fn a_source_that_does_not_drain_keeps_its_subscription() {
    let mut guard = SwitchInFlight::new();
    let drain = draining(&mut guard).target_read(Some(loc(1, 5)));
    match drain.check(Some(loc(1, 4)), DEFAULT_T_SWITCH) {
        CheckNext::Failing(failing) => check_report(&failing, 2, SwitchFailure::DrainTimeout),
        other => panic!("expected a failure, got {other:?}"),
    }
}

#[test]
fn a_task_that_was_overtaken_reports_a_timeout() {
    let mut guard = SwitchInFlight::new();
    let drain = draining(&mut guard);
    let _newer = entered(&mut guard, DEFAULT_T_SWITCH);
    match drain.claim(&mut guard) {
        ClaimNext::Failing(failing) => {
            check_report(&failing, 2, SwitchFailure::Superseded);
            assert_eq!(failing.report().done.status_code, PublishDoneStatusCode::Timeout);
            failing.release(&mut guard);
        }
        other => panic!("expected a failure, got {other:?}"),
    }
    assert!(guard.is_in_flight(1, DEFAULT_T_SWITCH));
}

#[test]
fn a_target_that_cannot_be_attached_gives_the_source_its_bound_back() {
    let mut guard = SwitchInFlight::new();
    let claim = claimed(&mut guard);
    let mut source = source();
    source.end_group = Some(50);
    let promotion = claim.bind_source(&mut source).promote(4);
    assert_ne!(source.end_group, Some(50));
    match promotion.attached(false, vec![]) {
        Attached::Failing(failing, undo) => {
            check_report(&failing, 2, SwitchFailure::PublishBuildFailed);
            restore_source_end_group(&mut source, undo.unwrap().prior_end_group);
        }
        other => panic!("expected a failure, got {other:?}"),
    }
    assert_eq!(source.end_group, Some(50));
}
