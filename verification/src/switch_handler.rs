//! The course of one SWITCH, from its receipt to its answer.
//!
//! A switch identifies its boundary, waits until the source has delivered
//! everything below it, claims the target's PUBLISH, and only then bounds and
//! ends the source and announces the target. Each stage is a type of its own
//! that only the stage before it can give, so the order is fixed:
//!
//! [`enter_switch`] -> [`Entered`] -> [`Selecting`] -> [`Draining`] ->
//! [`Claimed`] -> [`Promotion`] -> [`Announcement`], and from every stage before
//! the announcement possibly [`Failing`].
//!
//! Only [`Claimed`] can touch the source, and only a successful claim gives one:
//! every earlier failure leaves the current subscription as it was. Every stage
//! holds the token of its admission, and the last one, [`Failing`] or
//! [`Announcement`], gives the slot back.

use crate::messages::{copy_parameters, Publish, Subscribe, SubscribeView};
use crate::model::{self, Location, MessageParameter};
use crate::streams::StreamId;
use crate::subscription::{StateView, SubscriptionState};
use crate::switch_delivery::{
    self, apply_seam_bound, build_switch_live_sub, conclude_select, plan_switch_catchup,
    switch_catchup_priority, switch_failure, switch_publish, switch_subscriber_priority,
    switch_target_parameters, CatchupStream, DrainOutcome, DrainPoll, DrainStep, SeamBoundUndo,
    SelectOutcome, SelectPoll, SelectStep, SwitchReport,
};
use crate::switch_guard::{
    AdmitResult, ClaimResult, GuardState, SwitchFailure, SwitchInFlight,
};
use crate::switch_selection::{self, compute_switch_group, SwitchSelection};
use crate::switch_transition::{KeyValuePair, SwitchTransition};
use crate::track_name::{FullTrackName, TrackNameView};
use std::collections::BTreeSet;
use vstd::prelude::*;

verus! {

/// What the relay knows of the subscription that a SWITCH names.
#[derive(Debug, Clone, Copy, PartialEq, Eq, Structural)]
pub struct CurrentSubscription {
    /// The request is in the client's table.
    pub request_known: bool,
    /// Its track still exists.
    pub track_present: bool,
    /// The track has a live subscription of this connection.
    pub subscription_live: bool,
}

impl CurrentSubscription {
    /// The Current Subscribe Request ID identifies an established
    /// subscription: a leftover entry in a table is not enough.
    pub open spec fn established(self) -> bool {
        self.request_known && self.track_present && self.subscription_live
    }
}

/// A switch that has been let in.
#[derive(Debug, Clone, Copy, PartialEq, Eq, Structural)]
pub struct Entered {
    current_request_id: u64,
    generation: u64,
    deadline: u64,
}

/// What a stage holds of the switch it belongs to.
#[verifier::ext_equal]
pub struct EnteredView {
    pub current_request_id: u64,
    pub generation: u64,
    pub deadline: u64,
}

impl View for Entered {
    type V = EnteredView;

    closed spec fn view(&self) -> EnteredView {
        EnteredView {
            current_request_id: self.current_request_id,
            generation: self.generation,
            deadline: self.deadline,
        }
    }
}

/// How a SWITCH is received.
#[derive(Debug, Clone, Copy, PartialEq, Eq, Structural)]
pub enum SwitchEntry {
    /// The subscription is not established: no PUBLISH, no change of state, and
    /// no answer at all.
    Dropped,
    /// Another switch of the subscription is in flight: report
    /// [`SwitchFailure::AlreadyInFlight`].
    Refused,
    /// The switch proceeds.
    Entered(Entered),
}

impl SwitchEntry {
    /// Whether this is what becomes of a SWITCH that comes in, where it took the guard
    /// from `guard` to `after`.
    pub open spec fn follows(
        self,
        guard: GuardState,
        current: CurrentSubscription,
        current_request_id: u64,
        now: u64,
        t_switch: u64,
        after: GuardState,
    ) -> bool {
        match self {
            SwitchEntry::Dropped => !current.established() && after == guard,
            SwitchEntry::Refused => {
                &&& current.established()
                &&& guard.in_flight(current_request_id, now)
                &&& after == guard
            },
            SwitchEntry::Entered(entered) => {
                &&& current.established()
                &&& !guard.in_flight(current_request_id, now)
                &&& entered@.current_request_id == current_request_id
                &&& entered@.generation == guard.admissions + 1
                &&& entered@.deadline == now + t_switch
                &&& after == guard.with_admission(current_request_id, entered@.deadline)
            },
        }
    }
}

/// Receives a SWITCH. The entry check comes before everything else, and the guard
/// before the target is looked for. One deadline covers the whole operation: the
/// same `now` sets both the guard entry's expiry and the task's own.
pub fn enter_switch(
    guard: &mut SwitchInFlight,
    current: &CurrentSubscription,
    current_request_id: u64,
    now: u64,
    t_switch: u64,
) -> (entry: SwitchEntry)
    requires
        current.established() ==> old(guard)@.in_flight(current_request_id, now) || (now + t_switch
            <= u64::MAX && old(guard)@.admissions < u64::MAX),
    ensures
        old(guard)@.wf() ==> final(guard)@.wf(),
        match entry {
            SwitchEntry::Dropped => !current.established() && final(guard)@ == old(guard)@,
            SwitchEntry::Refused => {
                &&& current.established()
                &&& old(guard)@.in_flight(current_request_id, now)
                &&& final(guard)@ == old(guard)@
            },
            SwitchEntry::Entered(entered) => {
                &&& current.established()
                &&& !old(guard)@.in_flight(current_request_id, now)
                &&& entered@ == (EnteredView {
                    current_request_id,
                    generation: (old(guard)@.admissions + 1) as u64,
                    deadline: (now + t_switch) as u64,
                })
                &&& final(guard)@ == old(guard)@.with_admission(
                    current_request_id,
                    (now + t_switch) as u64,
                )
                &&& final(guard)@.owns(current_request_id, entered@.generation)
            },
        },
        entry.follows(
            old(guard)@,
            *current,
            current_request_id,
            now,
            t_switch,
            final(guard)@,
        ),
{
    if !(current.request_known && current.track_present && current.subscription_live) {
        return SwitchEntry::Dropped;
    }
    match guard.try_admit(current_request_id, now, t_switch) {
        AdmitResult::Admitted { generation } => SwitchEntry::Entered(
            Entered { current_request_id, generation, deadline: now + t_switch },
        ),
        AdmitResult::Rejected => SwitchEntry::Refused,
    }
}

/// What a SWITCH asks for, and the request that the relay answers it under.
#[derive(Debug)]
pub struct SwitchTarget {
    pub target: FullTrackName,
    /// The relay allocates the request of the target's PUBLISH.
    pub request_id: u64,
    /// The relay's alias of the target track.
    pub alias: u64,
    pub minimum_group: u64,
    /// The parameters of the SWITCH without those that the relay owns.
    pub parameters: Vec<MessageParameter>,
}

/// What a [`SwitchTarget`] stands for.
#[verifier::ext_equal]
pub struct TargetView {
    pub target: TrackNameView,
    pub request_id: u64,
    pub alias: u64,
    pub minimum_group: u64,
    pub parameters: Seq<MessageParameter>,
}

impl View for SwitchTarget {
    type V = TargetView;

    open spec fn view(&self) -> TargetView {
        TargetView {
            target: self.target@,
            request_id: self.request_id,
            alias: self.alias,
            minimum_group: self.minimum_group,
            parameters: self.parameters@,
        }
    }
}

/// A switch that has failed: the report goes out first, then the slot is given
/// back.
#[derive(Debug)]
pub struct Failing {
    entered: Entered,
    failure: SwitchFailure,
    report: SwitchReport,
}

impl Failing {
    /// The switch that failed.
    pub closed spec fn switch(&self) -> EnteredView {
        self.entered@
    }

    pub closed spec fn spec_failure(&self) -> SwitchFailure {
        self.failure
    }

    pub closed spec fn spec_report(&self) -> SwitchReport {
        self.report
    }

    /// Why the switch failed.
    #[verifier::when_used_as_spec(spec_failure)]
    pub fn failure(&self) -> (failure: SwitchFailure)
        ensures
            failure == self.spec_failure(),
    {
        self.failure
    }

    /// The report to send.
    pub fn report(&self) -> (report: &SwitchReport)
        ensures
            *report == self.spec_report(),
    {
        &self.report
    }

    /// This is the failure of `entered` for the given reason, reported for the
    /// given target.
    pub open spec fn fails(
        &self,
        entered: EnteredView,
        request_id: u64,
        target: TrackNameView,
        alias: u64,
        failure: SwitchFailure,
    ) -> bool {
        &&& self.switch() == entered
        &&& self.failure() == failure
        &&& self.spec_report().reports(request_id, target, alias, failure)
    }

    /// Gives the slot back, after the report has gone out. Where a newer switch
    /// holds it, it stays with that one.
    pub fn release(self, guard: &mut SwitchInFlight)
        ensures
            final(guard)@ == old(guard)@.complete(
                self.switch().current_request_id,
                self.switch().generation,
            ),
            old(guard)@.wf() ==> final(guard)@.wf(),
    {
        guard.complete(self.entered.current_request_id, self.entered.generation);
    }
}

fn fail(
    entered: Entered,
    request_id: u64,
    target: &FullTrackName,
    alias: u64,
    failure: SwitchFailure,
) -> (failing: Failing)
    ensures
        failing.fails(entered@, request_id, target@, alias, failure),
{
    Failing { entered, failure, report: switch_failure(request_id, target, alias, failure) }
}

/// The switch looks for its boundary.
#[derive(Debug)]
pub struct Selecting {
    entered: Entered,
    target: SwitchTarget,
    poll: SelectPoll,
}

impl Selecting {
    pub closed spec fn switch(&self) -> EnteredView {
        self.entered@
    }

    pub closed spec fn target(&self) -> TargetView {
        self.target@
    }

    /// The generations of the caches at the last scan.
    pub closed spec fn last_avail(&self) -> Option<(u64, u64)> {
        self.poll.last_avail
    }
}

/// Where the target of a switch comes from.
#[derive(Debug, Clone, Copy, PartialEq, Eq, Structural)]
pub enum TargetSource {
    /// The relay carries it, under this alias.
    Carried { alias: u64 },
    /// The relay does not carry it yet, but can ask for it: enter it as a track
    /// under an alias of the relay, forward a SUBSCRIBE for it, and go on. Once
    /// the upstream has said how far the track goes, its history is fetched as
    /// [`switch_delivery::backfill_range`](crate::switch_delivery::backfill_range)
    /// says.
    Establish,
    /// Nobody supplies it.
    Missing,
}

/// Decides where the target of a switch comes from, given the alias under which
/// the relay carries it and how many connections it could be asked of. A target
/// that is merely unknown to the relay is no failure.
pub fn find_target(carried: Option<u64>, supplier_count: usize) -> (source: TargetSource)
    ensures
        source == match carried {
            Some(alias) => TargetSource::Carried { alias },
            None => if supplier_count > 0 {
                TargetSource::Establish
            } else {
                TargetSource::Missing
            },
        },
{
    match carried {
        Some(alias) => TargetSource::Carried { alias },
        None => if supplier_count > 0 {
            TargetSource::Establish
        } else {
            TargetSource::Missing
        },
    }
}

/// What looking up the target gives.
#[derive(Debug)]
pub enum Resolved {
    Failing(Failing),
    Selecting(Selecting),
}

impl Entered {
    /// Goes on with the target that is carried or has been entered, or fails
    /// where there is none.
    /// The report of a missing target names alias 0.
    pub fn resolve_target(
        self,
        target: FullTrackName,
        alias: Option<u64>,
        request_id: u64,
        minimum_group: u64,
        switch_parameters: &Vec<MessageParameter>,
    ) -> (resolved: Resolved)
        ensures
            match (resolved, alias) {
                (Resolved::Failing(failing), None) => failing.fails(
                    self@,
                    request_id,
                    target@,
                    0,
                    SwitchFailure::TargetTrackMissing,
                ),
                (Resolved::Selecting(selecting), Some(alias)) => {
                    &&& selecting.switch() == self@
                    &&& selecting.last_avail() is None
                    &&& selecting.target() == (TargetView {
                        target: target@,
                        request_id,
                        alias,
                        minimum_group,
                        parameters: switch_delivery::target_parameters_of(switch_parameters@),
                    })
                },
                _ => false,
            },
    {
        match alias {
            None => Resolved::Failing(
                fail(self, request_id, &target, 0, SwitchFailure::TargetTrackMissing),
            ),
            Some(alias) => {
                let parameters: Vec<MessageParameter> = switch_target_parameters(
                    switch_parameters,
                );
                Resolved::Selecting(
                    Selecting {
                        entered: self,
                        target: SwitchTarget {
                            target,
                            request_id,
                            alias,
                            minimum_group,
                            parameters,
                        },
                        poll: SelectPoll::new(),
                    },
                )
            },
        }
    }
}

/// What one poll of the boundary gives.
#[derive(Debug)]
pub enum SelectNext {
    /// Read what the two tracks hold and call [`Selecting::scan`].
    Scan(Selecting),
    /// Wait, then poll again.
    Wait(Selecting),
    Failing(Failing),
}

/// What a scan of the two tracks gives.
#[derive(Debug)]
pub enum ScanNext {
    Draining(Draining),
    /// Wait, then poll again.
    Wait(Selecting),
    Failing(Failing),
}

impl ScanNext {
    /// Whether this is what a look at the available groups comes to.
    pub open spec fn follows(
        self,
        from: Selecting,
        current: Set<u64>,
        target: Set<u64>,
        live_edge: u64,
        now: u64,
    ) -> bool {
        let minimum_group = from.target().minimum_group;
        let selection = match self {
            ScanNext::Draining(draining) => SwitchSelection::Ready(draining.boundary()),
            _ => SwitchSelection::NoCommonBoundary,
        };
        &&& switch_selection::is_selection(minimum_group, current, target, live_edge, selection)
        &&& match self {
            ScanNext::Draining(draining) => draining.switch() == from.switch()
                && draining.target() == from.target(),
            ScanNext::Wait(selecting) => selecting == from && now < from.switch().deadline,
            ScanNext::Failing(failing) => now >= from.switch().deadline && failing.failure()
                == SwitchFailure::NoCommonBoundary,
        }
    }
}

impl Selecting {
    /// One poll of the boundary. A cancelled source and a rejected target end
    /// the search; caches that have not changed since the last scan need no new
    /// one; and the deadline ends a search that has found nothing.
    pub fn poll(
        self,
        guard: &SwitchInFlight,
        target_rejected: bool,
        avail: (u64, u64),
        now: u64,
    ) -> (next: SelectNext)
        ensures
            ({
                let abandoned = guard@.owns(
                    self.switch().current_request_id,
                    self.switch().generation,
                ) && guard@.slots[self.switch().current_request_id].abandoned;
                let unchanged = self.last_avail() == Some(avail);
                let late = now >= self.switch().deadline;
                let t = self.target();
                match next {
                    SelectNext::Failing(failing) => {
                        ||| abandoned && failing.fails(
                            self.switch(),
                            t.request_id,
                            t.target,
                            t.alias,
                            SwitchFailure::SubscriptionEnded,
                        )
                        ||| !abandoned && target_rejected && failing.fails(
                            self.switch(),
                            t.request_id,
                            t.target,
                            t.alias,
                            SwitchFailure::TargetTrackMissing,
                        )
                        ||| !abandoned && !target_rejected && unchanged && late && failing.fails(
                            self.switch(),
                            t.request_id,
                            t.target,
                            t.alias,
                            SwitchFailure::NoCommonBoundary,
                        )
                    },
                    SelectNext::Scan(selecting) => {
                        &&& !abandoned && !target_rejected && !unchanged
                        &&& selecting.switch() == self.switch()
                        &&& selecting.target() == t
                        &&& selecting.last_avail() == Some(avail)
                    },
                    SelectNext::Wait(selecting) => {
                        &&& !abandoned && !target_rejected && unchanged && !late
                        &&& selecting == self
                    },
                }
            }),
    {
        let abandoned: bool = guard.is_abandoned(
            self.entered.current_request_id,
            self.entered.generation,
        );
        let mut poll: SelectPoll = self.poll;
        match poll.begin(abandoned, target_rejected, avail) {
            SelectStep::Done(outcome) => {
                let failure: SwitchFailure = match outcome {
                    SelectOutcome::Abandoned => SwitchFailure::SubscriptionEnded,
                    _ => SwitchFailure::TargetTrackMissing,
                };
                SelectNext::Failing(
                    fail(
                        self.entered,
                        self.target.request_id,
                        &self.target.target,
                        self.target.alias,
                        failure,
                    ),
                )
            },
            SelectStep::Scan => SelectNext::Scan(
                Selecting { entered: self.entered, target: self.target, poll },
            ),
            SelectStep::NoScan => match conclude_select(None, now, self.entered.deadline) {
                Some(_) => SelectNext::Failing(
                    fail(
                        self.entered,
                        self.target.request_id,
                        &self.target.target,
                        self.target.alias,
                        SwitchFailure::NoCommonBoundary,
                    ),
                ),
                None => SelectNext::Wait(self),
            },
        }
    }

    /// Selects the boundary from what the two tracks hold. A boundary that is
    /// there is taken even past the deadline; where there is none, the switch
    /// waits for one to come up until the deadline.
    pub fn scan(
        self,
        current_available: &BTreeSet<u64>,
        target_available: &BTreeSet<u64>,
        target_live_edge: u64,
        now: u64,
    ) -> (next: ScanNext)
        ensures
            ({
                let t = self.target();
                match next {
                    ScanNext::Draining(draining) => {
                        &&& switch_selection::is_selection(
                            t.minimum_group,
                            current_available@,
                            target_available@,
                            target_live_edge,
                            SwitchSelection::Ready(draining.boundary()),
                        )
                        &&& draining.switch() == self.switch()
                        &&& draining.target() == t
                        &&& draining.awaited() == (DrainPoll {
                            drain_target: None,
                            last_avail: None,
                        })
                    },
                    ScanNext::Wait(selecting) => {
                        &&& switch_selection::is_selection(
                            t.minimum_group,
                            current_available@,
                            target_available@,
                            target_live_edge,
                            SwitchSelection::NoCommonBoundary,
                        )
                        &&& now < self.switch().deadline
                        &&& selecting == self
                    },
                    ScanNext::Failing(failing) => {
                        &&& switch_selection::is_selection(
                            t.minimum_group,
                            current_available@,
                            target_available@,
                            target_live_edge,
                            SwitchSelection::NoCommonBoundary,
                        )
                        &&& now >= self.switch().deadline
                        &&& failing.fails(
                            self.switch(),
                            t.request_id,
                            t.target,
                            t.alias,
                            SwitchFailure::NoCommonBoundary,
                        )
                    },
                }
            }),
            next.follows(
                self,
                current_available@,
                target_available@,
                target_live_edge,
                now,
            ),
    {
        let selection: SwitchSelection = compute_switch_group(
            self.target.minimum_group,
            current_available,
            target_available,
            target_live_edge,
        );
        match conclude_select(Some(selection), now, self.entered.deadline) {
            Some(SelectOutcome::Ready(g_switch)) => ScanNext::Draining(
                Draining {
                    entered: self.entered,
                    target: self.target,
                    g_switch,
                    poll: DrainPoll::new(),
                },
            ),
            Some(_) => ScanNext::Failing(
                fail(
                    self.entered,
                    self.target.request_id,
                    &self.target.target,
                    self.target.alias,
                    SwitchFailure::NoCommonBoundary,
                ),
            ),
            None => ScanNext::Wait(self),
        }
    }
}

/// The switch waits until the source has delivered everything below the
/// boundary. The source is not touched.
#[derive(Debug)]
pub struct Draining {
    entered: Entered,
    target: SwitchTarget,
    g_switch: u64,
    poll: DrainPoll,
}

/// What one poll of the drain gives.
#[derive(Debug)]
pub enum DrainNext {
    /// Read the highest location that the source's cache holds below the
    /// boundary and call [`Draining::target_read`].
    ReadTarget(Draining),
    /// Look at what the source has sent and call [`Draining::check`].
    Check(Draining),
    /// The source was cancelled: go on to the claim, which will say so.
    Claim(Draining),
}

/// What a look at the source gives.
#[derive(Debug)]
pub enum CheckNext {
    /// The source is drained: claim the PUBLISH.
    Claim(Draining),
    /// Wait, then poll again.
    Wait(Draining),
    Failing(Failing),
}

/// What the claim gives.
#[derive(Debug)]
pub enum ClaimNext {
    Claimed(Claimed),
    Failing(Failing),
}

impl CheckNext {
    /// Whether this is what a look at what the source has sent comes to.
    pub open spec fn follows(
        self,
        from: Draining,
        last_sent: Option<Location>,
        now: u64,
    ) -> bool {
        let drained = switch_delivery::is_drained(last_sent, from.awaited().drain_target);
        match self {
            CheckNext::Claim(draining) => drained && draining == from,
            CheckNext::Wait(draining) => !drained && draining == from && now
                < from.switch().deadline,
            CheckNext::Failing(failing) => !drained && now >= from.switch().deadline
                && failing.failure() == SwitchFailure::DrainTimeout,
        }
    }
}

impl ClaimNext {
    /// Whether this is what the claim of a PUBLISH comes to, where it took the guard from
    /// `guard` to `after`.
    pub open spec fn follows(self, from: Draining, guard: GuardState, after: GuardState) -> bool {
        let id = from.switch().current_request_id;
        let answer = guard.claim(id, from.switch().generation);
        match self {
            ClaimNext::Claimed(claimed) => {
                &&& answer == ClaimResult::Claimed
                &&& after == guard.publish(id)
                &&& claimed.switch() == from.switch()
                &&& claimed.target() == from.target()
                &&& claimed.boundary() == from.boundary()
            },
            ClaimNext::Failing(failing) => {
                &&& answer != ClaimResult::Claimed
                &&& after == guard
                &&& failing.failure() == if answer == ClaimResult::Abandoned {
                    SwitchFailure::SubscriptionEnded
                } else {
                    SwitchFailure::Superseded
                }
            },
        }
    }
}

impl Draining {
    pub closed spec fn switch(&self) -> EnteredView {
        self.entered@
    }

    pub closed spec fn target(&self) -> TargetView {
        self.target@
    }

    /// The boundary of the switch.
    pub closed spec fn boundary(&self) -> u64 {
        self.g_switch
    }

    /// The location that the source has to reach, and the cache generation that
    /// it was read at.
    pub closed spec fn awaited(&self) -> DrainPoll {
        self.poll
    }

    /// The boundary of the switch.
    pub fn g_switch(&self) -> (g_switch: u64)
        ensures
            g_switch == self.boundary(),
    {
        self.g_switch
    }

    /// Whether there is anything to wait for: a boundary at group 0 has nothing
    /// below it, and a source that is gone will send no more.
    pub fn must_drain(&self, source_present: bool) -> (wait: bool)
        ensures
            wait == (self.boundary() != 0 && source_present),
    {
        self.g_switch != 0 && source_present
    }

    /// One poll of the drain.
    pub fn poll(self, guard: &SwitchInFlight, avail: u64) -> (next: DrainNext)
        ensures
            ({
                let abandoned = guard@.owns(
                    self.switch().current_request_id,
                    self.switch().generation,
                ) && guard@.slots[self.switch().current_request_id].abandoned;
                let unchanged = self.awaited().last_avail == Some(avail);
                match next {
                    DrainNext::Claim(draining) => abandoned && draining == self,
                    DrainNext::Check(draining) => !abandoned && unchanged && draining == self,
                    DrainNext::ReadTarget(draining) => {
                        &&& !abandoned && !unchanged
                        &&& draining.switch() == self.switch()
                        &&& draining.target() == self.target()
                        &&& draining.boundary() == self.boundary()
                        &&& draining.awaited() == (DrainPoll {
                            last_avail: Some(avail),
                            ..self.awaited()
                        })
                    },
                }
            }),
    {
        let abandoned: bool = guard.is_abandoned(
            self.entered.current_request_id,
            self.entered.generation,
        );
        let mut poll: DrainPoll = self.poll;
        match poll.begin(abandoned, avail) {
            DrainStep::Done(_) => DrainNext::Claim(self),
            DrainStep::ReadTarget => DrainNext::ReadTarget(
                Draining {
                    entered: self.entered,
                    target: self.target,
                    g_switch: self.g_switch,
                    poll,
                },
            ),
            DrainStep::KeepTarget => DrainNext::Check(self),
        }
    }

    /// Takes the highest location that the source's cache holds below the
    /// boundary.
    pub fn target_read(self, drain_target: Option<Location>) -> (draining: Draining)
        ensures
            draining.switch() == self.switch(),
            draining.target() == self.target(),
            draining.boundary() == self.boundary(),
            draining.awaited() == (DrainPoll { drain_target, ..self.awaited() }),
    {
        Draining {
            entered: self.entered,
            target: self.target,
            g_switch: self.g_switch,
            poll: DrainPoll { drain_target, last_avail: self.poll.last_avail },
        }
    }

    /// Looks at what the source has sent. A source that cannot be drained in
    /// time fails the switch and keeps its subscription.
    pub fn check(self, last_sent: Option<Location>, now: u64) -> (next: CheckNext)
        ensures
            ({
                let drained = switch_delivery::is_drained(last_sent, self.awaited().drain_target);
                let late = now >= self.switch().deadline;
                let t = self.target();
                match next {
                    CheckNext::Claim(draining) => drained && draining == self,
                    CheckNext::Wait(draining) => !drained && !late && draining == self,
                    CheckNext::Failing(failing) => !drained && late && failing.fails(
                        self.switch(),
                        t.request_id,
                        t.target,
                        t.alias,
                        SwitchFailure::DrainTimeout,
                    ),
                }
            }),
            next.follows(self, last_sent, now),
    {
        match self.poll.conclude(last_sent, now, self.entered.deadline) {
            Some(DrainOutcome::TimedOut) => CheckNext::Failing(
                fail(
                    self.entered,
                    self.target.request_id,
                    &self.target.target,
                    self.target.alias,
                    SwitchFailure::DrainTimeout,
                ),
            ),
            Some(_) => CheckNext::Claim(self),
            None => CheckNext::Wait(self),
        }
    }

    /// Claims the right to open the target's PUBLISH. A cancel that came first
    /// is answered SUBSCRIPTION_ENDED, and a slot that a newer switch has taken
    /// over is answered TIMEOUT; in neither case is the source touched.
    pub fn claim(self, guard: &mut SwitchInFlight) -> (next: ClaimNext)
        ensures
            old(guard)@.wf() ==> final(guard)@.wf(),
            ({
                let id = self.switch().current_request_id;
                let answer = old(guard)@.claim(id, self.switch().generation);
                let t = self.target();
                match next {
                    ClaimNext::Claimed(claimed) => {
                        &&& answer == ClaimResult::Claimed
                        &&& final(guard)@ == old(guard)@.publish(id)
                        &&& claimed.switch() == self.switch()
                        &&& claimed.target() == t
                        &&& claimed.boundary() == self.boundary()
                        &&& claimed.undo() is None
                    },
                    ClaimNext::Failing(failing) => {
                        &&& final(guard)@ == old(guard)@
                        &&& {
                            ||| answer == ClaimResult::Abandoned && failing.fails(
                                self.switch(),
                                t.request_id,
                                t.target,
                                t.alias,
                                SwitchFailure::SubscriptionEnded,
                            )
                            ||| answer == ClaimResult::Superseded && failing.fails(
                                self.switch(),
                                t.request_id,
                                t.target,
                                t.alias,
                                SwitchFailure::Superseded,
                            )
                        }
                    },
                }
            }),
            next.follows(self, old(guard)@, final(guard)@),
    {
        let failure: SwitchFailure = match guard.mark_published(
            self.entered.current_request_id,
            self.entered.generation,
        ) {
            ClaimResult::Claimed => {
                return ClaimNext::Claimed(
                    Claimed {
                        entered: self.entered,
                        target: self.target,
                        g_switch: self.g_switch,
                        undo: None,
                    },
                );
            },
            ClaimResult::Abandoned => SwitchFailure::SubscriptionEnded,
            ClaimResult::Superseded => SwitchFailure::Superseded,
        };
        ClaimNext::Failing(
            fail(
                self.entered,
                self.target.request_id,
                &self.target.target,
                self.target.alias,
                failure,
            ),
        )
    }
}

/// The switch has won the claim: it may bound the source.
#[derive(Debug)]
pub struct Claimed {
    entered: Entered,
    target: SwitchTarget,
    g_switch: u64,
    undo: Option<SeamBoundUndo>,
}

impl Claimed {
    /// Whether this is the claim `before` after it has bound the source, which took the
    /// source from `source` to `after`.
    pub open spec fn has_bound(&self, before: Claimed, source: StateView, after: StateView) -> bool {
        &&& self.switch() == before.switch()
        &&& self.target() == before.target()
        &&& self.boundary() == before.boundary()
        &&& if before.boundary() > 0 {
            &&& after == (StateView {
                end_group: switch_delivery::seam_bound(before.boundary()),
                ..source
            })
            &&& self.undo() matches Some(undo) && undo.prior_end_group == source.end_group
        } else {
            after == source && self.undo() is None
        }
    }

    pub closed spec fn switch(&self) -> EnteredView {
        self.entered@
    }

    pub closed spec fn target(&self) -> TargetView {
        self.target@
    }

    pub closed spec fn boundary(&self) -> u64 {
        self.g_switch
    }

    /// What the seam bound has replaced on the source.
    pub closed spec fn undo(&self) -> Option<SeamBoundUndo> {
        self.undo
    }

    /// Bounds the source at the seam. Where the source is gone, this is left
    /// out.
    pub fn bind_source(self, source: &mut SubscriptionState) -> (claimed: Claimed)
        ensures
            claimed.switch() == self.switch(),
            claimed.target() == self.target(),
            claimed.boundary() == self.boundary(),
            self.boundary() > 0 ==> {
                &&& final(source)@ == (StateView {
                    end_group: switch_delivery::seam_bound(self.boundary()),
                    ..old(source)@
                })
                &&& claimed.undo() == Some(
                    SeamBoundUndo { prior_end_group: old(source)@.end_group },
                )
            },
            self.boundary() == 0 ==> final(source)@ == old(source)@ && claimed.undo() is None,
            claimed.has_bound(self, old(source)@, final(source)@),
    {
        let undo: Option<SeamBoundUndo> = apply_seam_bound(source, self.g_switch);
        Claimed { entered: self.entered, target: self.target, g_switch: self.g_switch, undo }
    }

    /// Prepares the target with its live edge as it is now, when the PUBLISH
    /// opens. The source is to be ended next, then the live subscription
    /// attached.
    pub fn promote(self, live_edge: u64) -> (promotion: Promotion)
        ensures
            promotion.switch() == self.switch(),
            promotion.target() == self.target(),
            promotion.boundary() == self.boundary(),
            promotion.live_edge() == live_edge,
            promotion.undo() == self.undo(),
            promotion.spec_live_sub()@ == (SubscribeView {
                request_id: self.target().request_id,
                track: self.target().target,
                parameters: switch_delivery::live_parameters(
                    self.boundary(),
                    live_edge,
                    self.target().parameters,
                ),
            }),
            promotion.continues(self, live_edge),
    {
        let live_sub: Subscribe = build_switch_live_sub(
            self.target.request_id,
            self.target.target.namespace.clone(),
            self.target.target.name.clone(),
            self.g_switch,
            live_edge,
            copy_parameters(&self.target.parameters),
        );
        Promotion {
            entered: self.entered,
            target: self.target,
            g_switch: self.g_switch,
            live_edge,
            undo: self.undo,
            live_sub,
        }
    }
}

/// The target is about to take over.
#[derive(Debug)]
pub struct Promotion {
    entered: Entered,
    target: SwitchTarget,
    g_switch: u64,
    live_edge: u64,
    undo: Option<SeamBoundUndo>,
    live_sub: Subscribe,
}

/// The PUBLISH announces the target at this boundary and this live edge, and the
/// catch-up stream delivers what lies between them.
pub open spec fn hands_over(
    publish: Publish,
    catchup: Option<CatchupStream>,
    target: TargetView,
    g_switch: u64,
    live_edge: u64,
) -> bool {
    &&& publish.request_id == target.request_id
    &&& publish.track_alias == target.alias
    &&& publish.parameters@ == switch_delivery::announce_parameters(
        target.parameters,
        Location { group: live_edge, object: 0 },
        SwitchTransition::new(g_switch, live_edge),
    )
    &&& match (catchup, switch_delivery::catchup_range(g_switch, live_edge)) {
        (Some(stream), Some((start, end))) => {
            &&& stream.start == start
            &&& stream.end == end
            &&& stream.request_id == publish.request_id
            &&& stream.stream_id == (StreamId::Fetch {
                track_alias: publish.track_alias,
                request_id: publish.request_id,
            })
            &&& stream.priority == switch_delivery::catchup_priority(
                model::subscriber_priority_of(target.parameters),
            )
        },
        (None, None) => true,
        _ => false,
    }
}

/// What attaching the live subscription gives.
#[derive(Debug)]
pub enum Attached {
    Announcement(Announcement),
    /// It could not be attached. Where the source was bounded, its own bound is
    /// to be put back.
    Failing(Failing, Option<SeamBoundUndo>),
}

impl Promotion {
    /// Whether this carries a claim on to the live edge.
    pub open spec fn continues(&self, claimed: Claimed, live_edge: u64) -> bool {
        let live_sub = self.spec_live_sub()@;
        &&& self.switch() == claimed.switch()
        &&& self.target() == claimed.target()
        &&& self.boundary() == claimed.boundary()
        &&& self.live_edge() == live_edge
        &&& self.undo() == claimed.undo()
        &&& live_sub.request_id == claimed.target().request_id
        &&& live_sub.track == claimed.target().target
        &&& live_sub.parameters == switch_delivery::live_parameters(
            claimed.boundary(),
            live_edge,
            claimed.target().parameters,
        )
    }

    pub closed spec fn switch(&self) -> EnteredView {
        self.entered@
    }

    pub closed spec fn target(&self) -> TargetView {
        self.target@
    }

    pub closed spec fn boundary(&self) -> u64 {
        self.g_switch
    }

    pub closed spec fn live_edge(&self) -> u64 {
        self.live_edge
    }

    pub closed spec fn undo(&self) -> Option<SeamBoundUndo> {
        self.undo
    }

    pub closed spec fn spec_live_sub(&self) -> Subscribe {
        self.live_sub
    }

    /// The subscription to attach to the target.
    pub fn live_sub(&self) -> (live_sub: &Subscribe)
        ensures
            *live_sub == self.spec_live_sub(),
    {
        &self.live_sub
    }

    /// Goes on once the live subscription has been attached, or fails where it
    /// has not.
    pub fn attached(self, attached: bool, track_properties: Vec<KeyValuePair>) -> (next: Attached)
        ensures
            match next {
                Attached::Announcement(announcement) => {
                    let t = self.target();
                    let g = self.boundary();
                    let edge = self.live_edge();
                    let priority = model::subscriber_priority_of(t.parameters);
                    &&& attached
                    &&& announcement.switch() == self.switch()
                    &&& announcement.spec_publish().request_id == t.request_id
                    &&& announcement.spec_publish().track_namespace@ == t.target.namespace
                    &&& announcement.spec_publish().track_name@ == t.target.name
                    &&& announcement.spec_publish().track_alias == t.alias
                    &&& announcement.spec_publish().parameters@ == switch_delivery::announce_parameters(
                        t.parameters,
                        Location { group: edge, object: 0 },
                        SwitchTransition::new(g, edge),
                    )
                    &&& announcement.spec_publish().track_properties == track_properties
                    &&& announcement.spec_live_sub() == self.spec_live_sub()
                    &&& announcement.spec_catchup() == if g < edge {
                        Some(
                            CatchupStream {
                                stream_id: StreamId::Fetch {
                                    track_alias: t.alias,
                                    request_id: t.request_id,
                                },
                                request_id: t.request_id,
                                priority: switch_delivery::catchup_priority(priority) as i32,
                                start: Location { group: g, object: 0 },
                                end: Location { group: (edge - 1) as u64, object: 0 },
                            },
                        )
                    } else {
                        None
                    }
                    &&& hands_over(announcement.spec_publish(), announcement.spec_catchup(), t, g, edge)
                },
                Attached::Failing(failing, undo) => {
                    let t = self.target();
                    &&& !attached
                    &&& undo == self.undo()
                    &&& failing.fails(
                        self.switch(),
                        t.request_id,
                        t.target,
                        t.alias,
                        SwitchFailure::PublishBuildFailed,
                    )
                },
            },
    {
        if !attached {
            let failing: Failing = fail(
                self.entered,
                self.target.request_id,
                &self.target.target,
                self.target.alias,
                SwitchFailure::PublishBuildFailed,
            );
            return Attached::Failing(failing, self.undo);
        }
        let priority: i32 = switch_catchup_priority(
            switch_subscriber_priority(&self.target.parameters),
        );
        let catchup: Option<CatchupStream> = plan_switch_catchup(
            self.target.alias,
            self.target.request_id,
            self.g_switch,
            self.live_edge,
            priority,
        );
        let publish: Publish = switch_publish(
            self.target.request_id,
            &self.target.target,
            self.target.alias,
            Location::new(self.live_edge, 0),
            &self.target.parameters,
            SwitchTransition::new(self.g_switch, self.live_edge),
            track_properties,
        );
        Attached::Announcement(
            Announcement { entered: self.entered, live_sub: self.live_sub, publish, catchup },
        )
    }
}

/// The switch is carried out: register the live subscription's request, send the
/// PUBLISH, start the catch-up stream, then give the slot back.
#[derive(Debug)]
pub struct Announcement {
    entered: Entered,
    live_sub: Subscribe,
    publish: Publish,
    catchup: Option<CatchupStream>,
}

impl Announcement {
    pub closed spec fn switch(&self) -> EnteredView {
        self.entered@
    }

    pub closed spec fn spec_live_sub(&self) -> Subscribe {
        self.live_sub
    }

    pub closed spec fn spec_publish(&self) -> Publish {
        self.publish
    }

    pub closed spec fn spec_catchup(&self) -> Option<CatchupStream> {
        self.catchup
    }

    /// The live subscription, to be registered under its request.
    pub fn live_sub(&self) -> (live_sub: &Subscribe)
        ensures
            *live_sub == self.spec_live_sub(),
    {
        &self.live_sub
    }

    /// The PUBLISH to send.
    pub fn publish(&self) -> (publish: &Publish)
        ensures
            *publish == self.spec_publish(),
    {
        &self.publish
    }

    /// The catch-up stream to start, if any.
    #[verifier::when_used_as_spec(spec_catchup)]
    pub fn catchup(&self) -> (catchup: Option<CatchupStream>)
        ensures
            catchup == self.spec_catchup(),
    {
        self.catchup
    }

    /// Gives the slot back.
    pub fn release(self, guard: &mut SwitchInFlight)
        ensures
            final(guard)@ == old(guard)@.complete(
                self.switch().current_request_id,
                self.switch().generation,
            ),
            old(guard)@.wf() ==> final(guard)@.wf(),
    {
        guard.complete(self.entered.current_request_id, self.entered.generation);
    }
}

/// The report of a switch that was refused because another is in flight. It
/// holds no slot, so there is none to give back.
pub fn refuse_switch(request_id: u64, target: &FullTrackName) -> (report: SwitchReport)
    ensures
        report.reports(request_id, target@, 0, SwitchFailure::AlreadyInFlight),
{
    switch_failure(request_id, target, 0, SwitchFailure::AlreadyInFlight)
}

/// A task whose slot a newer switch has taken over never gets to the source: its
/// claim fails, and the failure it reports is TIMEOUT.
pub proof fn law_superseded_task_never_claims(
    guard: GuardState,
    switch: EnteredView,
    deadline: u64,
)
    requires
        guard.wf(),
        guard.owns(switch.current_request_id, switch.generation),
        guard.admissions < u64::MAX,
    ensures
        guard.with_admission(switch.current_request_id, deadline).claim(
            switch.current_request_id,
            switch.generation,
        ) == ClaimResult::Superseded,
        SwitchFailure::Superseded.status_code()
            == crate::status::PublishDoneStatusCode::Timeout,
{
}

/// The slot becomes reclaimable exactly when the task's own polls begin to time
/// out: both go by the deadline that was set when the switch entered.
pub proof fn law_guard_and_task_share_the_deadline(
    guard: GuardState,
    switch: EnteredView,
    now: u64,
)
    requires
        guard.owns(switch.current_request_id, switch.generation),
        guard.slots[switch.current_request_id].deadline == switch.deadline,
    ensures
        guard.in_flight(switch.current_request_id, now) <==> now < switch.deadline,
{
}

/// After a switch has ended, its slot is free for the next one, unless a newer
/// switch holds it already.
pub proof fn law_ended_switch_holds_no_slot(guard: GuardState, switch: EnteredView)
    ensures
        !guard.complete(switch.current_request_id, switch.generation).owns(
            switch.current_request_id,
            switch.generation,
        ),
{
}

/// A poll that skips the scan misses nothing: with the caches unchanged a scan
/// would select what the last one selected.
pub proof fn law_skipped_scan_would_find_the_same(
    min_group: u64,
    current: Set<u64>,
    target: Set<u64>,
    live_edge: u64,
    last: SwitchSelection,
    again: SwitchSelection,
)
    requires
        switch_selection::is_selection(min_group, current, target, live_edge, last),
        switch_selection::is_selection(min_group, current, target, live_edge, again),
    ensures
        last == again,
{
    switch_selection::law_selection_is_unique(min_group, current, target, live_edge, last, again);
}

/// What a switch announces is what it delivers: the PUBLISH tells the live edge and
/// the seam, the catch-up stream answers the PUBLISH's request with exactly the
/// groups from the seam up to the live edge, ahead of every live stream of the
/// subscriber, and the live subscription of the same switch delivers the rest.
pub proof fn law_switch_delivers_what_it_announces(
    publish: Publish,
    catchup: Option<CatchupStream>,
    target: TargetView,
    g_switch: u64,
    live_edge: u64,
    group: u64,
    pub_prio: u8,
    order: model::GroupOrder,
)
    requires
        hands_over(publish, catchup, target, g_switch, live_edge),
    ensures
        model::first_of_kind(
            publish.parameters@,
            model::ParameterKind::LargestObject,
        ) == Some(
            MessageParameter::LargestObject { location: Location { group: live_edge, object: 0 } },
        ),
        crate::switch_transition::transition_of(publish.parameters@) matches Some(seam)
            && seam.switching_group_id == g_switch && seam.live_edge_group_id == live_edge,
        catchup is Some <==> g_switch < live_edge,
        catchup matches Some(stream) ==> {
            &&& stream.request_id == publish.request_id
            &&& stream.start.group <= group <= stream.end.group <==> g_switch <= group && group
                < live_edge
            &&& stream.start.object == 0
            &&& stream.priority >= crate::streams::stream_priority(
                model::subscriber_priority_of(target.parameters),
                pub_prio,
                order,
                group,
            )
        },
        ({
            let state = crate::subscription::initial_state(
                switch_delivery::live_parameters(g_switch, live_edge, target.parameters),
                true,
            );
            let live = state.start_location matches Some(start) && start.group <= group;
            let caught_up = catchup matches Some(stream) && stream.start.group <= group
                <= stream.end.group;
            g_switch <= group ==> (live <==> !caught_up)
        }),
{
    let edge = Location { group: live_edge, object: 0 };
    let seam = SwitchTransition::new(g_switch, live_edge);
    switch_delivery::law_publish_tells_the_live_edge(
        target.parameters,
        edge,
        seam,
        model::ParameterKind::Forward,
    );
    switch_delivery::law_publish_carries_the_seam(target.parameters, edge, seam);
    switch_delivery::law_live_subscription_joins_at_the_edge(
        g_switch,
        live_edge,
        target.parameters,
    );
    switch_delivery::law_catchup_outranks_live_streams(
        model::subscriber_priority_of(target.parameters),
        pub_prio,
        order,
        group,
    );
    switch_delivery::law_target_delivers_every_group_once(g_switch, live_edge, group);
}

/// A switch needs a known request, a track that is there, and a live subscription
/// on it.
pub proof fn law_established_needs_all_three(current: CurrentSubscription)
    ensures
        current.established() <==> current.request_known && current.track_present
            && current.subscription_live,
{
}

/// A SWITCH enters exactly where the subscription that it replaces is established and no
/// other switch of it is in flight. It then holds the slot until its deadline, claims it
/// under its own token, and leaves the other slots alone.
pub proof fn law_one_switch_enters_at_a_time(
    entry: SwitchEntry,
    guard: GuardState,
    current: CurrentSubscription,
    id: u64,
    now: u64,
    t_switch: u64,
    after: GuardState,
    later: u64,
    other: u64,
)
    requires
        entry.follows(guard, current, id, now, t_switch, after),
        guard.admissions < u64::MAX,
    ensures
        entry is Dropped <==> !(current.request_known && current.track_present
            && current.subscription_live),
        entry is Refused ==> guard.slots.contains_key(id) && now < guard.slots[id].deadline,
        entry is Entered ==> !(guard.slots.contains_key(id) && now < guard.slots[id].deadline),
        !(entry is Entered) ==> after == guard,
        entry matches SwitchEntry::Entered(entered) ==> {
            &&& entered@.current_request_id == id
            &&& entered@.deadline == now + t_switch
            &&& after.in_flight(id, later) <==> later < now + t_switch
            &&& after.claim(id, entered@.generation) == ClaimResult::Claimed
            &&& other != id ==> after.slots.contains_key(other) == guard.slots.contains_key(other)
                && after.slots[other] == guard.slots[other]
        },
{
}

/// The boundary that a scan finds is not below the smallest group that was asked for, and
/// both tracks have it. No smaller one would do. Without one the switch waits until its
/// deadline and then fails for that.
pub proof fn law_scan_finds_the_first_common_boundary(
    next: ScanNext,
    from: Selecting,
    current: Set<u64>,
    target: Set<u64>,
    live_edge: u64,
    now: u64,
    group: u64,
)
    requires
        next.follows(from, current, target, live_edge, now),
    ensures
        next matches ScanNext::Draining(draining) ==> {
            &&& from.target().minimum_group <= draining.boundary()
            &&& current.contains(draining.boundary()) && target.contains(draining.boundary())
            &&& draining.switch() == from.switch()
            &&& draining.target() == from.target()
        },
        from.target().minimum_group <= group && current.contains(group) && target.contains(group)
            && (forall|h: u64|
            group <= h && h < live_edge && #[trigger] current.contains(h) ==> target.contains(h))
            ==> (next matches ScanNext::Draining(draining) && draining.boundary() <= group),
        next is Wait ==> now < from.switch().deadline,
        next matches ScanNext::Failing(failing) ==> from.switch().deadline <= now
            && failing.failure() == SwitchFailure::NoCommonBoundary,
{
    let minimum_group = from.target().minimum_group;
    if next is Draining {
        let boundary = next->Draining_0.boundary();
        switch_selection::law_boundary_conditions(
            minimum_group,
            current,
            target,
            live_edge,
            boundary,
            group,
        );
    }
    let selection = match next {
        ScanNext::Draining(draining) => SwitchSelection::Ready(draining.boundary()),
        _ => SwitchSelection::NoCommonBoundary,
    };
    if minimum_group <= group && current.contains(group) && target.contains(group) && (forall|h:
        u64|
        group <= h && h < live_edge && #[trigger] current.contains(h) ==> target.contains(h)) {
        switch_selection::law_selection_is_the_first_boundary(
            minimum_group,
            current,
            target,
            live_edge,
            selection,
            group,
        );
    }
}

/// A switch goes on to its claim exactly when the source has sent what was awaited, waits
/// for that until its deadline and fails behind it.
pub proof fn law_draining_ends_when_all_is_sent(
    next: CheckNext,
    from: Draining,
    last_sent: Option<Location>,
    now: u64,
)
    requires
        next.follows(from, last_sent, now),
    ensures
        next is Claim <==> (from.awaited().drain_target matches Some(awaited) ==> (
        last_sent matches Some(sent) && (awaited.group < sent.group || (awaited.group
            == sent.group && awaited.object <= sent.object)))),
        next is Wait ==> now < from.switch().deadline,
        next matches CheckNext::Failing(failing) ==> from.switch().deadline <= now
            && failing.failure() == SwitchFailure::DrainTimeout,
        next matches CheckNext::Claim(draining) ==> draining == from,
        next matches CheckNext::Wait(draining) ==> draining == from,
{
    if from.awaited().drain_target is Some {
        switch_delivery::law_drained_means_sent(last_sent, from.awaited().drain_target->0);
    }
}

/// A claim succeeds exactly where the slot is still the switch's own and nobody has
/// abandoned it. From then on nobody can. A claim that fails changes nothing and says
/// which of the two it was.
pub proof fn law_claim_is_final(
    next: ClaimNext,
    from: Draining,
    guard: GuardState,
    after: GuardState,
    now: u64,
)
    requires
        next.follows(from, guard, after),
    ensures
        ({
            let id = from.switch().current_request_id;
            let own = guard.slots.contains_key(id) && guard.slots[id].generation
                == from.switch().generation;
            &&& next is Claimed <==> own && !guard.slots[id].abandoned
            &&& next is Claimed ==> after.slots[id].published && !after.can_abandon(id, now)
            &&& next matches ClaimNext::Claimed(claimed) ==> claimed.boundary()
                == from.boundary() && claimed.target() == from.target()
            &&& next matches ClaimNext::Failing(failing) ==> after == guard && failing.failure()
                == if own {
                SwitchFailure::SubscriptionEnded
            } else {
                SwitchFailure::Superseded
            }
        }),
{
}

/// A source that is bound drops every group from the boundary on and none below it, and
/// what it had is kept to be undone. A boundary at the very first group binds nothing.
pub proof fn law_bound_source_stops_below_the_boundary(
    claimed: Claimed,
    before: Claimed,
    source: StateView,
    after: StateView,
    group: u64,
)
    requires
        claimed.has_bound(before, source, after),
    ensures
        claimed.boundary() == before.boundary(),
        before.boundary() > 0 ==> (after.beyond_end(group) <==> before.boundary() <= group),
        before.boundary() == 0 ==> after == source && claimed.undo() is None,
        claimed.undo() matches Some(undo) ==> source == (StateView {
            end_group: undo.prior_end_group,
            ..after
        }),
        after.start_location == source.start_location,
        after.forward == source.forward,
{
    switch_delivery::law_source_stops_below_the_boundary(before.boundary());
}

/// The live subscription of a promotion is for the target, under the request of the
/// switch, and starts at the live edge or at the boundary, whichever is later.
pub proof fn law_promotion_goes_on_at_the_edge(
    promotion: Promotion,
    claimed: Claimed,
    live_edge: u64,
)
    requires
        promotion.continues(claimed, live_edge),
    ensures
        promotion.boundary() == claimed.boundary(),
        promotion.live_edge() == live_edge,
        promotion.undo() == claimed.undo(),
        promotion.spec_live_sub()@.request_id == claimed.target().request_id,
        promotion.spec_live_sub()@.track == claimed.target().target,
        model::first_of_kind(
            promotion.spec_live_sub()@.parameters,
            model::ParameterKind::SubscriptionFilter,
        ) matches Some(MessageParameter::SubscriptionFilter { start_location, end_group, .. })
            && end_group is None && (start_location matches Some(start) && start.object == 0
            && start.group == if claimed.boundary() < live_edge {
            live_edge
        } else {
            claimed.boundary()
        }),
{
    switch_delivery::law_live_subscription_asks_for_the_edge(
        claimed.boundary(),
        live_edge,
        claimed.target().parameters,
        model::ParameterKind::Forward,
    );
}

} // verus!
