use moqtail::status::PublishDoneStatusCode;
use moqtail::switch_guard::{
    AdmitResult, ClaimResult, SwitchFailure, SwitchInFlight, DEFAULT_T_SWITCH,
};

/// A fixed origin, in nanoseconds; tests advance from it.
fn t0() -> u64 {
    1_000_000_000_000
}

fn millis(count: u64) -> u64 {
    count * 1_000_000
}

const T: u64 = DEFAULT_T_SWITCH;

fn admitted(g: &mut SwitchInFlight, id: u64, now: u64) -> u64 {
    match g.try_admit(id, now, T) {
        AdmitResult::Admitted { generation } => generation,
        AdmitResult::Rejected => panic!("expected admission for sub {id}"),
    }
}

#[test]
fn admits_first_switch() {
    let mut g = SwitchInFlight::new();
    assert!(matches!(
        g.try_admit(1, t0(), T),
        AdmitResult::Admitted { .. }
    ));
}

#[test]
fn rejects_second_switch_within_budget() {
    let mut g = SwitchInFlight::new();
    let now = t0();
    admitted(&mut g, 1, now);
    assert_eq!(
        g.try_admit(1, now + millis(500), T),
        AdmitResult::Rejected
    );
}

#[test]
fn readmits_after_deadline_expires_with_fresh_generation() {
    let mut g = SwitchInFlight::new();
    let now = t0();
    let gen1 = admitted(&mut g, 1, now);
    let gen2 = admitted(&mut g, 1, now + T + millis(1));
    assert_ne!(gen1, gen2);
}

#[test]
fn complete_releases_slot_immediately() {
    let mut g = SwitchInFlight::new();
    let now = t0();
    let token = admitted(&mut g, 1, now);
    g.complete(1, token);
    assert!(matches!(
        g.try_admit(1, now + millis(10), T),
        AdmitResult::Admitted { .. }
    ));
}

#[test]
fn complete_is_idempotent() {
    let mut g = SwitchInFlight::new();
    g.complete(42, 7); // never admitted; must not panic
    g.complete(42, 7);
}

#[test]
fn distinct_subscriptions_are_independent() {
    let mut g = SwitchInFlight::new();
    let now = t0();
    admitted(&mut g, 1, now);
    assert!(matches!(
        g.try_admit(2, now, T),
        AdmitResult::Admitted { .. }
    ));
    assert_eq!(g.try_admit(1, now, T), AdmitResult::Rejected);
}

#[test]
fn is_in_flight_reflects_state() {
    let mut g = SwitchInFlight::new();
    let now = t0();
    assert!(!g.is_in_flight(1, now));
    let token = admitted(&mut g, 1, now);
    assert!(g.is_in_flight(1, now + millis(100)));
    assert!(!g.is_in_flight(1, now + T + millis(1)));
    g.complete(1, token);
    assert!(!g.is_in_flight(1, now));
}

#[test]
fn abandon_before_publish_wins_race() {
    let mut g = SwitchInFlight::new();
    let now = t0();
    let token = admitted(&mut g, 1, now);
    assert!(g.abandon(1, now + millis(100)));
    assert!(g.is_abandoned(1, token));
    assert_eq!(g.mark_published(1, token), ClaimResult::Abandoned);
}

#[test]
fn publish_before_abandon_wins_race() {
    let mut g = SwitchInFlight::new();
    let now = t0();
    let token = admitted(&mut g, 1, now);
    assert_eq!(g.mark_published(1, token), ClaimResult::Claimed);
    assert!(!g.abandon(1, now + millis(100)));
    assert!(!g.is_abandoned(1, token));
}

#[test]
fn abandon_without_in_flight_switch_is_noop() {
    let mut g = SwitchInFlight::new();
    assert!(!g.abandon(1, t0()));
    assert!(!g.is_abandoned(1, 0));
}

#[test]
fn abandon_after_deadline_expiry_is_noop() {
    let mut g = SwitchInFlight::new();
    let now = t0();
    admitted(&mut g, 1, now);
    assert!(!g.abandon(1, now + T + millis(1)));
}

#[test]
fn readmission_gets_clean_state() {
    let mut g = SwitchInFlight::new();
    let now = t0();
    let gen1 = admitted(&mut g, 1, now);
    g.abandon(1, now);
    g.complete(1, gen1);
    let gen2 = admitted(&mut g, 1, now + millis(10));
    assert!(!g.is_abandoned(1, gen2));
    assert_eq!(g.mark_published(1, gen2), ClaimResult::Claimed);
}

#[test]
fn complete_clears_abandon_and_publish_state() {
    let mut g = SwitchInFlight::new();
    let now = t0();
    let gen1 = admitted(&mut g, 1, now);
    g.mark_published(1, gen1);
    g.complete(1, gen1);
    assert!(!g.is_abandoned(1, gen1));
    admitted(&mut g, 1, now + millis(10));
    assert!(g.abandon(1, now + millis(20)));
}


#[test]
fn superseded_task_cannot_claim_publish() {
    let mut g = SwitchInFlight::new();
    let now = t0();
    let old_gen = admitted(&mut g, 1, now);
    let new_gen = admitted(&mut g, 1, now + T + millis(1));
    assert_eq!(g.mark_published(1, old_gen), ClaimResult::Superseded);
    assert_eq!(g.mark_published(1, new_gen), ClaimResult::Claimed);
}

#[test]
fn superseded_complete_does_not_release_new_switchs_slot() {
    let mut g = SwitchInFlight::new();
    let now = t0();
    let old_gen = admitted(&mut g, 1, now);
    let reclaim_at = now + T + millis(1);
    admitted(&mut g, 1, reclaim_at);
    g.complete(1, old_gen);
    assert_eq!(
        g.try_admit(1, reclaim_at + millis(10), T),
        AdmitResult::Rejected,
        "the new switch's slot must survive the superseded task's complete()"
    );
}

#[test]
fn stale_generation_does_not_observe_new_switchs_abandon() {
    let mut g = SwitchInFlight::new();
    let now = t0();
    let old_gen = admitted(&mut g, 1, now);
    let reclaim_at = now + T + millis(1);
    let new_gen = admitted(&mut g, 1, reclaim_at);
    assert!(g.abandon(1, reclaim_at + millis(5)));
    assert!(g.is_abandoned(1, new_gen));
    assert!(!g.is_abandoned(1, old_gen));
}

#[test]
fn failure_status_code_mapping() {
    assert_eq!(
        SwitchFailure::TargetTrackMissing.status_code(),
        PublishDoneStatusCode::DoesNotExist
    );
    assert_eq!(SwitchFailure::NoCommonBoundary.status_code(), PublishDoneStatusCode::Timeout);
    assert_eq!(
        SwitchFailure::AlreadyInFlight.status_code(),
        PublishDoneStatusCode::ExcessiveLoad
    );
    assert_eq!(SwitchFailure::Unauthorized.status_code(), PublishDoneStatusCode::Unauthorized);
    assert_eq!(SwitchFailure::NotSupported.status_code(), PublishDoneStatusCode::NotSupported);
    assert_eq!(
        SwitchFailure::SubscriptionEnded.status_code(),
        PublishDoneStatusCode::SubscriptionEnded
    );
    assert_eq!(SwitchFailure::DrainTimeout.status_code(), PublishDoneStatusCode::Timeout);
    assert_eq!(
        SwitchFailure::PublishBuildFailed.status_code(),
        PublishDoneStatusCode::InternalError
    );
    assert_eq!(SwitchFailure::Superseded.status_code(), PublishDoneStatusCode::Timeout);
}

#[test]
fn a_switch_needs_a_deadline_that_can_be_told() {
    let guard = SwitchInFlight::new();
    assert!(guard.has_room(t0(), DEFAULT_T_SWITCH));
    assert!(guard.has_room(u64::MAX - 5, 5));
    assert!(!guard.has_room(u64::MAX - 5, 6));
}
