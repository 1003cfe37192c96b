//! Failure discipline of the SWITCH message.
//!
//! 1. [`SwitchInFlight`] is the single-in-flight guard. At most one SWITCH per
//!    Current Subscribe Request ID is processed at a time; a second one inside
//!    the relay's `T_switch` budget is rejected. Entries expire at `T_switch`,
//!    so a stuck switch cannot hold its subscription forever.
//!
//! 2. [`SwitchFailure`] says why a SWITCH could not complete and which
//!    PUBLISH_DONE status reports it.
//!
//! Time is handed in as a reading of a monotonic clock, in nanoseconds.

use crate::status::PublishDoneStatusCode;
use std::collections::HashMap;
use vstd::prelude::*;

verus! {

/// Default `T_switch` budget of the relay, in nanoseconds: three seconds, no
/// longer than the subscriber waits for a transition.
pub const DEFAULT_T_SWITCH: u64 = 3_000_000_000;

/// Result of asking for a SWITCH for a subscription.
#[derive(Debug, Clone, Copy, PartialEq, Eq, Structural)]
pub enum AdmitResult {
    /// The SWITCH proceeds. `generation` is its ownership token: the switch
    /// task hands it back with every later call, so that a task whose slot was
    /// reclaimed cannot act on a newer switch's entry.
    Admitted { generation: u64 },
    /// A switch for this subscription is already in flight.
    Rejected,
}

/// Result of a switch task's attempt to claim the target PUBLISH.
#[derive(Debug, Clone, Copy, PartialEq, Eq, Structural)]
pub enum ClaimResult {
    /// The task owns the PUBLISH; from here on an UNSUBSCRIBE is ordinary
    /// teardown.
    Claimed,
    /// An UNSUBSCRIBE came first.
    Abandoned,
    /// A newer SWITCH has reclaimed the slot after the deadline.
    Superseded,
}

/// State of one admitted SWITCH.
#[derive(Debug, Clone, Copy, PartialEq, Eq, Structural)]
pub struct InFlightEntry {
    /// Clock reading at which the slot may be reclaimed.
    pub deadline: u64,
    /// Ownership token; increases with every admission.
    pub generation: u64,
    /// An UNSUBSCRIBE came before the target PUBLISH was opened.
    pub abandoned: bool,
    /// The target PUBLISH has been claimed.
    pub published: bool,
}

/// What a guard holds: the entry of each subscription, and how many switches
/// have been admitted so far.
#[verifier::ext_equal]
pub struct GuardState {
    pub slots: Map<u64, InFlightEntry>,
    pub admissions: nat,
}

impl GuardState {
    /// No two entries share a token, and no entry holds a token that has not
    /// been handed out.
    pub open spec fn wf(self) -> bool {
        &&& forall|id: u64|
            #[trigger] self.slots.contains_key(id) ==> 0 < self.slots[id].generation
                <= self.admissions
        &&& forall|a: u64, b: u64|
            #[trigger] self.slots.contains_key(a) && #[trigger] self.slots.contains_key(b) && a
                != b ==> self.slots[a].generation != self.slots[b].generation
    }

    /// A switch for `id` is in flight and has not expired at `now`.
    pub open spec fn in_flight(self, id: u64, now: u64) -> bool {
        self.slots.contains_key(id) && now < self.slots[id].deadline
    }

    /// The slot of `id` belongs to the switch admitted as `generation`.
    pub open spec fn owns(self, id: u64, generation: u64) -> bool {
        self.slots.contains_key(id) && self.slots[id].generation == generation
    }

    /// The state after a new switch for `id` has been admitted until `deadline`.
    pub open spec fn with_admission(self, id: u64, deadline: u64) -> GuardState {
        GuardState {
            slots: self.slots.insert(
                id,
                InFlightEntry {
                    deadline,
                    generation: (self.admissions + 1) as u64,
                    abandoned: false,
                    published: false,
                },
            ),
            admissions: self.admissions + 1,
        }
    }

    /// An UNSUBSCRIBE for `id` at `now` can still abandon the switch.
    pub open spec fn can_abandon(self, id: u64, now: u64) -> bool {
        self.in_flight(id, now) && !self.slots[id].published
    }

    /// The state after the switch of `id` has been abandoned.
    pub open spec fn abandon(self, id: u64) -> GuardState {
        GuardState {
            slots: self.slots.insert(id, InFlightEntry { abandoned: true, ..self.slots[id] }),
            ..self
        }
    }

    /// The answer to the PUBLISH claim of the switch admitted as `generation`.
    pub open spec fn claim(self, id: u64, generation: u64) -> ClaimResult {
        if !self.owns(id, generation) {
            ClaimResult::Superseded
        } else if self.slots[id].abandoned {
            ClaimResult::Abandoned
        } else {
            ClaimResult::Claimed
        }
    }

    /// The state after the PUBLISH of `id` has been claimed.
    pub open spec fn publish(self, id: u64) -> GuardState {
        GuardState {
            slots: self.slots.insert(id, InFlightEntry { published: true, ..self.slots[id] }),
            ..self
        }
    }

    /// The state after the switch admitted as `generation` has ended.
    pub open spec fn complete(self, id: u64, generation: u64) -> GuardState {
        if self.owns(id, generation) {
            GuardState { slots: self.slots.remove(id), ..self }
        } else {
            self
        }
    }
}

/// Per Current Subscribe Request ID, the SWITCH that is in flight.
#[derive(Debug)]
pub struct SwitchInFlight {
    entries: HashMap<u64, InFlightEntry>,
    next_generation: u64,
}

impl View for SwitchInFlight {
    type V = GuardState;

    closed spec fn view(&self) -> GuardState {
        GuardState { slots: self.entries@, admissions: self.next_generation as nat }
    }
}

impl Default for SwitchInFlight {
    fn default() -> (guard: Self)
        ensures
            guard@ == (GuardState { slots: Map::empty(), admissions: 0 }),
            guard@.wf(),
    {
        SwitchInFlight::new()
    }
}

impl SwitchInFlight {
    /// A guard with nothing in flight.
    pub fn new() -> (guard: Self)
        ensures
            guard@ == (GuardState { slots: Map::empty(), admissions: 0 }),
            guard@.wf(),
    {
        SwitchInFlight { entries: HashMap::new(), next_generation: 0 }
    }

    /// Whether one more switch can be admitted: its deadline can be told, and
    /// there is a token left for it.
    pub fn has_room(&self, now: u64, t_switch: u64) -> (room: bool)
        ensures
            room == (now + t_switch <= u64::MAX && self@.admissions < u64::MAX),
    {
        now <= u64::MAX - t_switch && self.next_generation < u64::MAX
    }

    /// Tries to let in a SWITCH for `sub_request_id`: refused exactly while an
    /// unexpired one is in flight. An admission replaces an expired entry,
    /// which takes the expired task's token out of force. The caller passes
    /// the same `now` that it derives its own deadline from.
    pub fn try_admit(&mut self, sub_request_id: u64, now: u64, t_switch: u64) -> (result:
        AdmitResult)
        requires
            old(self)@.in_flight(sub_request_id, now) || (now + t_switch <= u64::MAX && old(self)@.admissions < u64::MAX),
        ensures
            old(self)@.in_flight(sub_request_id, now) ==> result == AdmitResult::Rejected && final(self)@ == old(self)@,
            !old(self)@.in_flight(sub_request_id, now) ==> result == (AdmitResult::Admitted {
                generation: (old(self)@.admissions + 1) as u64,
            }) && final(self)@ == old(self)@.with_admission(sub_request_id, (now + t_switch) as u64),
            old(self)@.wf() ==> final(self)@.wf(),
    {
        broadcast use vstd::std_specs::hash::group_hash_axioms;

        if let Some(entry) = self.entries.get(&sub_request_id) {
            if now < entry.deadline {
                return AdmitResult::Rejected;
            }
        }
        self.next_generation = self.next_generation + 1;
        let generation: u64 = self.next_generation;
        self.entries.insert(
            sub_request_id,
            InFlightEntry {
                deadline: now + t_switch,
                generation,
                abandoned: false,
                published: false,
            },
        );
        AdmitResult::Admitted { generation }
    }

    /// The subscriber's side of the race with an UNSUBSCRIBE: marks the switch
    /// in flight for `sub_request_id` abandoned. Returns `true` exactly when
    /// an unexpired switch is in flight whose PUBLISH is not claimed; the
    /// switch task then answers SUBSCRIPTION_ENDED. It abandons whichever
    /// switch is in flight, so it takes no token.
    pub fn abandon(&mut self, sub_request_id: u64, now: u64) -> (won: bool)
        ensures
            won == old(self)@.can_abandon(sub_request_id, now),
            final(self)@ == if won {
                old(self)@.abandon(sub_request_id)
            } else {
                old(self)@
            },
            old(self)@.wf() ==> final(self)@.wf(),
    {
        broadcast use vstd::std_specs::hash::group_hash_axioms;

        let found: Option<InFlightEntry> = self.lookup(sub_request_id);
        match found {
            Some(entry) => {
                if now < entry.deadline && !entry.published {
                    self.entries.insert(sub_request_id, InFlightEntry { abandoned: true, ..entry });
                    true
                } else {
                    false
                }
            },
            None => false,
        }
    }

    /// Whether the switch admitted as `generation` has been abandoned. With a
    /// token that is out of force the answer is `false`: a newer switch's
    /// state is not the old task's to see.
    pub fn is_abandoned(&self, sub_request_id: u64, generation: u64) -> (abandoned: bool)
        ensures
            abandoned == (self@.owns(sub_request_id, generation)
                && self@.slots[sub_request_id].abandoned),
    {
        match self.lookup(sub_request_id) {
            Some(entry) => entry.generation == generation && entry.abandoned,
            None => false,
        }
    }

    /// The switch task's side of the race: claims the right to open the target
    /// PUBLISH. After [`ClaimResult::Claimed`] an UNSUBSCRIBE no longer
    /// abandons the switch.
    pub fn mark_published(&mut self, sub_request_id: u64, generation: u64) -> (result: ClaimResult)
        ensures
            result == old(self)@.claim(sub_request_id, generation),
            final(self)@ == if result == ClaimResult::Claimed {
                old(self)@.publish(sub_request_id)
            } else {
                old(self)@
            },
            old(self)@.wf() ==> final(self)@.wf(),
    {
        broadcast use vstd::std_specs::hash::group_hash_axioms;

        let found: Option<InFlightEntry> = self.lookup(sub_request_id);
        match found {
            Some(entry) => {
                if entry.generation != generation {
                    ClaimResult::Superseded
                } else if entry.abandoned {
                    ClaimResult::Abandoned
                } else {
                    self.entries.insert(sub_request_id, InFlightEntry { published: true, ..entry });
                    ClaimResult::Claimed
                }
            },
            None => ClaimResult::Superseded,
        }
    }

    /// Releases the slot once the switch admitted as `generation` has ended.
    /// Nothing happens when the slot is free or belongs to a newer switch.
    pub fn complete(&mut self, sub_request_id: u64, generation: u64)
        ensures
            final(self)@ == old(self)@.complete(sub_request_id, generation),
            old(self)@.wf() ==> final(self)@.wf(),
    {
        broadcast use vstd::std_specs::hash::group_hash_axioms;

        let found: Option<InFlightEntry> = self.lookup(sub_request_id);
        if let Some(entry) = found {
            if entry.generation == generation {
                self.entries.remove(&sub_request_id);
            }
        }
    }

    /// Whether an unexpired switch is in flight for this subscription.
    pub fn is_in_flight(&self, sub_request_id: u64, now: u64) -> (live: bool)
        ensures
            live == self@.in_flight(sub_request_id, now),
    {
        match self.lookup(sub_request_id) {
            Some(entry) => now < entry.deadline,
            None => false,
        }
    }

    fn lookup(&self, sub_request_id: u64) -> (entry: Option<InFlightEntry>)
        ensures
            entry == if self@.slots.contains_key(sub_request_id) {
                Some(self@.slots[sub_request_id])
            } else {
                None::<InFlightEntry>
            },
    {
        broadcast use vstd::std_specs::hash::group_hash_axioms;

        match self.entries.get(&sub_request_id) {
            Some(entry) => Some(*entry),
            None => None,
        }
    }
}

/// Why a SWITCH could not complete once its Current Subscribe Request ID had
/// been found established.
#[derive(Debug, Clone, Copy, PartialEq, Eq, Structural)]
pub enum SwitchFailure {
    /// The target track is unknown.
    TargetTrackMissing,
    /// No common boundary was found within `T_switch`.
    NoCommonBoundary,
    /// Another SWITCH for the same subscription is in flight.
    AlreadyInFlight,
    /// Authorization failed for the target track.
    Unauthorized,
    /// The relay does not implement SWITCH.
    NotSupported,
    /// The subscription being switched from has ended.
    SubscriptionEnded,
    /// The source could not be drained below the boundary within `T_switch`.
    DrainTimeout,
    /// The target PUBLISH could not be built or sent.
    PublishBuildFailed,
    /// A newer SWITCH reclaimed the slot after this one's deadline.
    Superseded,
}

impl SwitchFailure {
    /// The PUBLISH_DONE status that reports this failure.
    pub open spec fn spec_status_code(self) -> PublishDoneStatusCode {
        match self {
            SwitchFailure::TargetTrackMissing => PublishDoneStatusCode::DoesNotExist,
            SwitchFailure::NoCommonBoundary => PublishDoneStatusCode::Timeout,
            SwitchFailure::AlreadyInFlight => PublishDoneStatusCode::ExcessiveLoad,
            SwitchFailure::Unauthorized => PublishDoneStatusCode::Unauthorized,
            SwitchFailure::NotSupported => PublishDoneStatusCode::NotSupported,
            SwitchFailure::SubscriptionEnded => PublishDoneStatusCode::SubscriptionEnded,
            SwitchFailure::DrainTimeout => PublishDoneStatusCode::Timeout,
            SwitchFailure::PublishBuildFailed => PublishDoneStatusCode::InternalError,
            SwitchFailure::Superseded => PublishDoneStatusCode::Timeout,
        }
    }

    /// The PUBLISH_DONE status that reports this failure.
    #[verifier::when_used_as_spec(spec_status_code)]
    pub fn status_code(self) -> (code: PublishDoneStatusCode)
        ensures
            code == self.spec_status_code(),
    {
        match self {
            SwitchFailure::TargetTrackMissing => PublishDoneStatusCode::DoesNotExist,
            SwitchFailure::NoCommonBoundary => PublishDoneStatusCode::Timeout,
            SwitchFailure::AlreadyInFlight => PublishDoneStatusCode::ExcessiveLoad,
            SwitchFailure::Unauthorized => PublishDoneStatusCode::Unauthorized,
            SwitchFailure::NotSupported => PublishDoneStatusCode::NotSupported,
            SwitchFailure::SubscriptionEnded => PublishDoneStatusCode::SubscriptionEnded,
            SwitchFailure::DrainTimeout => PublishDoneStatusCode::Timeout,
            SwitchFailure::PublishBuildFailed => PublishDoneStatusCode::InternalError,
            SwitchFailure::Superseded => PublishDoneStatusCode::Timeout,
        }
    }
}

/// An UNSUBSCRIBE that wins the race is final: the switch task's claim is
/// answered `Abandoned` and changes nothing.
pub proof fn law_abandon_beats_publish(guard: GuardState, id: u64, generation: u64, now: u64)
    requires
        guard.can_abandon(id, now),
        guard.owns(id, generation),
    ensures
        guard.abandon(id).claim(id, generation) == ClaimResult::Abandoned,
        guard.abandon(id).owns(id, generation),
{
}

/// A claim that wins the race is final: no later UNSUBSCRIBE abandons the
/// switch, at any time.
pub proof fn law_publish_beats_abandon(guard: GuardState, id: u64, generation: u64, later: u64)
    requires
        guard.claim(id, generation) == ClaimResult::Claimed,
    ensures
        !guard.publish(id).can_abandon(id, later),
        !guard.publish(id).slots[id].abandoned,
        guard.publish(id).owns(id, generation),
{
}

/// While a switch is in flight exactly one of the two sides of the race wins,
/// whichever of them comes first.
pub proof fn law_exactly_one_side_wins(guard: GuardState, id: u64, generation: u64, now: u64)
    requires
        guard.in_flight(id, now),
        guard.owns(id, generation),
        !guard.slots[id].abandoned,
        !guard.slots[id].published,
    ensures
        guard.can_abandon(id, now),
        guard.abandon(id).claim(id, generation) == ClaimResult::Abandoned,
        guard.claim(id, generation) == ClaimResult::Claimed,
        !guard.publish(id).can_abandon(id, now),
{
}

/// Once a newer switch holds the slot, the old task's token is out of force:
/// its claim is refused as superseded, it sees no abandon, and its completion
/// leaves the newer entry in place.
pub proof fn law_old_token_is_out_of_force(
    guard: GuardState,
    id: u64,
    old_generation: u64,
    deadline: u64,
)
    requires
        guard.wf(),
        guard.owns(id, old_generation),
        guard.admissions < u64::MAX,
    ensures
        ({
            let newer = guard.with_admission(id, deadline);
            &&& newer.claim(id, old_generation) == ClaimResult::Superseded
            &&& !newer.owns(id, old_generation)
            &&& newer.complete(id, old_generation) == newer
            &&& newer.claim(id, (guard.admissions + 1) as u64) == ClaimResult::Claimed
        }),
{
}

/// A readmitted subscription starts clean: neither abandoned nor published.
pub proof fn law_readmission_is_clean(guard: GuardState, id: u64, now: u64, deadline: u64)
    requires
        now < deadline,
        guard.admissions < u64::MAX,
    ensures
        guard.with_admission(id, deadline).can_abandon(id, now),
        guard.with_admission(id, deadline).claim(id, (guard.admissions + 1) as u64) == ClaimResult::Claimed,
{
}

/// Completion frees the slot at once, and doing it again changes nothing.
pub proof fn law_complete_releases_and_is_idempotent(
    guard: GuardState,
    id: u64,
    generation: u64,
    now: u64,
)
    ensures
        guard.owns(id, generation) ==> !guard.complete(id, generation).in_flight(id, now),
        guard.complete(id, generation).complete(id, generation) == guard.complete(id, generation),
{
}

/// A switch expires at its deadline: from then on it is not in flight, so a
/// new one is admitted, and an UNSUBSCRIBE has nothing to abandon.
pub proof fn law_slot_expires_at_deadline(guard: GuardState, id: u64, deadline: u64, now: u64)
    requires
        deadline <= now,
    ensures
        !guard.with_admission(id, deadline).in_flight(id, now),
        !guard.with_admission(id, deadline).can_abandon(id, now),
{
}

/// Subscriptions are independent: no operation on one changes the entry of
/// another.
pub proof fn law_subscriptions_are_independent(
    guard: GuardState,
    id: u64,
    other: u64,
    generation: u64,
    deadline: u64,
)
    requires
        id != other,
    ensures
        guard.with_admission(id, deadline).slots.contains_key(other) == guard.slots.contains_key(other),
        guard.with_admission(id, deadline).slots[other] == guard.slots[other],
        guard.abandon(id).slots.contains_key(other) == guard.slots.contains_key(other),
        guard.abandon(id).slots[other] == guard.slots[other],
        guard.publish(id).slots.contains_key(other) == guard.slots.contains_key(other),
        guard.publish(id).slots[other] == guard.slots[other],
        guard.complete(id, generation).slots.contains_key(other) == guard.slots.contains_key(other),
        guard.slots.contains_key(other) ==> guard.complete(id, generation).slots[other]
            == guard.slots[other],
{
}

/// A switch is in flight from its admission until just before its deadline, and no
/// longer; an admission hands out a token that no entry holds, and starts neither
/// abandoned nor published.
pub proof fn law_admission_holds_until_the_deadline(
    guard: GuardState,
    id: u64,
    deadline: u64,
    now: u64,
    other: u64,
)
    requires
        guard.wf(),
        guard.admissions < u64::MAX,
    ensures
        ({
            let after = guard.with_admission(id, deadline);
            &&& after.in_flight(id, now) <==> now < deadline
            &&& after.slots.contains_key(id)
            &&& after.slots[id].deadline == deadline
            &&& !after.slots[id].abandoned && !after.slots[id].published
            &&& after.slots[id].generation == guard.admissions + 1
            &&& after.admissions == guard.admissions + 1
            &&& !guard.owns(other, after.slots[id].generation)
            &&& after.wf()
        }),
{
}

/// What is in flight is what has an entry whose deadline lies ahead; without an
/// entry nothing is.
pub proof fn law_in_flight_means_before_the_deadline(guard: GuardState, id: u64, now: u64)
    ensures
        !guard.slots.contains_key(id) ==> !guard.in_flight(id, now),
        guard.slots.contains_key(id) ==> (guard.in_flight(id, now) <==> now
            < guard.slots[id].deadline),
        guard.can_abandon(id, now) <==> guard.slots.contains_key(id) && now
            < guard.slots[id].deadline && !guard.slots[id].published,
{
}

/// A claim succeeds for the holder of the token alone, and only where the switch
/// was not abandoned.
pub proof fn law_only_the_holder_claims(guard: GuardState, id: u64, generation: u64)
    ensures
        guard.claim(id, generation) == ClaimResult::Claimed <==> guard.slots.contains_key(id)
            && guard.slots[id].generation == generation && !guard.slots[id].abandoned,
        guard.claim(id, generation) == ClaimResult::Abandoned <==> guard.slots.contains_key(id)
            && guard.slots[id].generation == generation && guard.slots[id].abandoned,
        guard.claim(id, generation) == ClaimResult::Superseded <==> !(guard.slots.contains_key(id)
            && guard.slots[id].generation == generation),
{
}

/// Abandoning and claiming set their own mark and leave the deadline, the token
/// and the other mark as they were; neither lets a switch in.
pub proof fn law_marks_are_set_alone(guard: GuardState, id: u64)
    requires
        guard.slots.contains_key(id),
    ensures
        guard.abandon(id).slots[id] == (InFlightEntry { abandoned: true, ..guard.slots[id] }),
        guard.publish(id).slots[id] == (InFlightEntry { published: true, ..guard.slots[id] }),
        guard.abandon(id).admissions == guard.admissions,
        guard.publish(id).admissions == guard.admissions,
        guard.abandon(id).slots.dom() == guard.slots.dom(),
        guard.publish(id).slots.dom() == guard.slots.dom(),
{
    assert(guard.abandon(id).slots.dom() =~= guard.slots.dom());
    assert(guard.publish(id).slots.dom() =~= guard.slots.dom());
}

/// Ending a switch frees its slot for the holder of the token alone.
pub proof fn law_only_the_holder_releases(guard: GuardState, id: u64, generation: u64)
    ensures
        guard.complete(id, generation).slots.contains_key(id) <==> guard.slots.contains_key(id)
            && guard.slots[id].generation != generation,
        guard.complete(id, generation).admissions == guard.admissions,
        guard.slots.contains_key(id) && guard.slots[id].generation != generation
            ==> guard.complete(id, generation).slots[id] == guard.slots[id],
{
}

/// The status of a failed switch says why it failed: a budget that ran out is a
/// timeout, and every other cause has a status of its own.
pub proof fn law_failures_have_their_status(failure: SwitchFailure)
    ensures
        failure.status_code() == PublishDoneStatusCode::Timeout <==> failure
            == SwitchFailure::NoCommonBoundary || failure == SwitchFailure::DrainTimeout || failure
            == SwitchFailure::Superseded,
        failure.status_code() == PublishDoneStatusCode::DoesNotExist <==> failure
            == SwitchFailure::TargetTrackMissing,
        failure.status_code() == PublishDoneStatusCode::ExcessiveLoad <==> failure
            == SwitchFailure::AlreadyInFlight,
        failure.status_code() == PublishDoneStatusCode::Unauthorized <==> failure
            == SwitchFailure::Unauthorized,
        failure.status_code() == PublishDoneStatusCode::NotSupported <==> failure
            == SwitchFailure::NotSupported,
        failure.status_code() == PublishDoneStatusCode::SubscriptionEnded <==> failure
            == SwitchFailure::SubscriptionEnded,
        failure.status_code() == PublishDoneStatusCode::InternalError <==> failure
            == SwitchFailure::PublishBuildFailed,
{
}

} // verus!
