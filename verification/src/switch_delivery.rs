//! Hand-over of a subscription from its current track to the target of a
//! SWITCH: the seam bound of the source, the wait until the source is drained,
//! the catch-up range, and the messages that announce the outcome.

use crate::messages::{copy_parameters, Publish, PublishDone, Subscribe, SubscribeView};
use crate::model::{
    self, set_param, subscriber_priority, FilterType, GroupOrder, Location, MessageParameter,
    ParameterKind,
};
use crate::streams::{self, compute_stream_priority, StreamId};
use crate::subscription::{StateView, SubscriptionState};
use crate::switch_guard::SwitchFailure;
use crate::switch_selection::SwitchSelection;
use crate::switch_transition::{KeyValuePair, SwitchTransition};
use crate::track_name::{FullTrackName, TrackNameView, Tuple, TupleField};
use std::collections::BTreeSet;
use vstd::prelude::*;

verus! {

/// Time between two polls of a switch, in nanoseconds: 50 milliseconds.
pub const SWITCH_DRAIN_POLL: u64 = 50_000_000;

/// Send priority of the catch-up stream: the top of the highest publisher band
/// of its subscriber.
pub open spec fn catchup_priority(subscriber_priority: u8) -> int {
    streams::stream_priority(subscriber_priority, 0, GroupOrder::Ascending, 0)
}

/// Send priority of the catch-up stream. What it carries comes before every
/// live group of the target, so it outranks them all.
pub fn switch_catchup_priority(subscriber_priority: u8) -> (priority: i32)
    ensures
        priority == catchup_priority(subscriber_priority),
{
    compute_stream_priority(subscriber_priority, 0, GroupOrder::Ascending, 0)
}

/// The subscriber priority that a switch's target runs at: the one that the
/// SWITCH names, else the default.
pub fn switch_subscriber_priority(params: &Vec<MessageParameter>) -> (priority: u8)
    ensures
        priority == model::subscriber_priority_of(params@),
{
    subscriber_priority(params)
}

/// A parameter that the relay states itself and never takes from a SWITCH.
pub open spec fn relay_owned(parameter: MessageParameter) -> bool {
    parameter is Forward || parameter is LargestObject || parameter is SubscriptionFilter
        || parameter is SwitchTransition
}

/// The parameters of a SWITCH that enter the target's PUBLISH: all of them, in
/// order, but for those that the relay owns.
pub open spec fn target_parameters_of(params: Seq<MessageParameter>) -> Seq<MessageParameter> {
    params.filter(|p: MessageParameter| !relay_owned(p))
}

/// The parameters of a SWITCH that enter the target's PUBLISH. Nothing comes
/// from the current subscription.
pub fn switch_target_parameters(params: &Vec<MessageParameter>) -> (kept: Vec<MessageParameter>)
    ensures
        kept@ == target_parameters_of(params@),
{
    let ghost keep = |p: MessageParameter| !relay_owned(p);
    let mut kept: Vec<MessageParameter> = Vec::new();
    let mut i: usize = 0;
    proof {
        reveal(Seq::filter);
        assert(params@.take(0).filter(keep) =~= Seq::empty());
    }
    while i < params.len()
        invariant
            i <= params.len(),
            keep == (|p: MessageParameter| !relay_owned(p)),
            kept@ == params@.take(i as int).filter(keep),
        decreases params.len() - i,
    {
        let p: MessageParameter = params[i];
        let owned: bool = match p {
            MessageParameter::Forward { .. } => true,
            MessageParameter::LargestObject { .. } => true,
            MessageParameter::SubscriptionFilter { .. } => true,
            MessageParameter::SwitchTransition { .. } => true,
            _ => false,
        };
        if !owned {
            kept.push(p);
        }
        i = i + 1;
        proof {
            reveal(Seq::filter);
            assert(params@.take(i as int).drop_last() =~= params@.take(i - 1));
            assert(params@.take(i as int).last() == p);
        }
    }
    proof {
        assert(params@.take(i as int) =~= params@);
    }
    kept
}

/// The groups that the catch-up stream delivers: from `g_switch` up to, but
/// without, the live edge.
pub open spec fn in_catchup(g_switch: u64, live_edge: u64, group: u64) -> bool {
    g_switch <= group < live_edge
}

/// The range that the catch-up stream delivers: first and last location, both by
/// whole groups; `None` when there is nothing to deliver.
pub open spec fn catchup_range(g_switch: u64, live_edge: u64) -> Option<(Location, Location)> {
    if g_switch < live_edge {
        Some(
            (
                Location { group: g_switch, object: 0 },
                Location { group: (live_edge - 1) as u64, object: 0 },
            ),
        )
    } else {
        None
    }
}

/// The catch-up range: first and last location to read, both by whole groups.
/// `None` when the switch lands at or above the live edge.
pub fn switch_catchup_range(g_switch: u64, live_edge: u64) -> (range: Option<(Location, Location)>)
    ensures
        match range {
            Some((start, end)) => {
                &&& g_switch < live_edge
                &&& start == (Location { group: g_switch, object: 0 })
                &&& end == (Location { group: (live_edge - 1) as u64, object: 0 })
                &&& forall|group: u64|
                    #[trigger] in_catchup(g_switch, live_edge, group) <==> start.group <= group
                        <= end.group
            },
            None => {
                &&& g_switch >= live_edge
                &&& forall|group: u64| !#[trigger] in_catchup(g_switch, live_edge, group)
            },
        },
        range == catchup_range(g_switch, live_edge),
{
    if g_switch >= live_edge {
        return None;
    }
    Some((Location::new(g_switch, 0), Location::new(live_edge - 1, 0)))
}

/// A group that a switch may need of its target and that only the upstream has:
/// at or above the minimum, no newer than the upstream's newest group, and not
/// held by the relay.
pub open spec fn is_missing(
    minimum_group: u64,
    held: Set<u64>,
    upstream_largest: Option<u64>,
    group: u64,
) -> bool {
    &&& upstream_largest matches Some(largest)
    &&& minimum_group <= group <= largest
    &&& !held.contains(group)
}

/// What to FETCH from the upstream so that the relay holds the history of a
/// switch target: first and last location, both by whole groups. The range runs
/// from the first group that is missing to the last one; `None` when none is.
pub fn backfill_range(
    minimum_group: u64,
    held: &BTreeSet<u64>,
    upstream_largest: Option<u64>,
) -> (range: Option<(Location, Location)>)
    ensures
        match range {
            Some((start, end)) => {
                &&& start.object == 0
                &&& end.object == 0
                &&& is_missing(minimum_group, held@, upstream_largest, start.group)
                &&& is_missing(minimum_group, held@, upstream_largest, end.group)
                &&& forall|group: u64|
                    #[trigger] is_missing(minimum_group, held@, upstream_largest, group)
                        ==> start.group <= group <= end.group
            },
            None => forall|group: u64|
                !#[trigger] is_missing(minimum_group, held@, upstream_largest, group),
        },
{
    broadcast use vstd::std_specs::btree::group_btree_axioms;

    let largest: u64 = match upstream_largest {
        Some(largest) => largest,
        None => {
            return None;
        },
    };
    if minimum_group > largest {
        return None;
    }
    let mut first: u64 = minimum_group;
    while held.contains(&first)
        invariant
            minimum_group <= first <= largest,
            upstream_largest == Some(largest),
            forall|group: u64|
                #[trigger] is_missing(minimum_group, held@, upstream_largest, group) ==> first
                    <= group,
        decreases largest - first,
    {
        if first == largest {
            return None;
        }
        first = first + 1;
    }
    let mut last: u64 = largest;
    while held.contains(&last)
        invariant
            minimum_group <= first <= last <= largest,
            upstream_largest == Some(largest),
            is_missing(minimum_group, held@, upstream_largest, first),
            forall|group: u64|
                #[trigger] is_missing(minimum_group, held@, upstream_largest, group) ==> first
                    <= group <= last,
        decreases last,
    {
        last = last - 1;
    }
    Some((Location::new(first, 0), Location::new(last, 0)))
}

/// The newest group that is known of a switch target.
pub open spec fn known_live_edge(received: Option<u64>, upstream_largest: Option<u64>) -> u64 {
    match (received, upstream_largest) {
        (Some(a), Some(b)) => if a < b {
            b
        } else {
            a
        },
        (Some(a), None) => a,
        (None, Some(b)) => b,
        (None, None) => 0,
    }
}

/// The newest group of a switch target, from what the relay has received of it
/// and what the upstream has told: the newer of the two, and group 0 where
/// neither is known.
pub fn target_live_edge(received: Option<u64>, upstream_largest: Option<u64>) -> (edge: u64)
    ensures
        edge == match (received, upstream_largest) {
            (Some(a), Some(b)) => if a < b {
                b
            } else {
                a
            },
            (Some(a), None) => a,
            (None, Some(b)) => b,
            (None, None) => 0,
        },
        edge == known_live_edge(received, upstream_largest),
{
    match (received, upstream_largest) {
        (Some(a), Some(b)) => if a < b {
            b
        } else {
            a
        },
        (Some(a), None) => a,
        (None, Some(b)) => b,
        (None, None) => 0,
    }
}

/// With what the FETCH brings, the relay holds every group of the target from the
/// minimum to the upstream's newest one.
pub proof fn law_backfill_leaves_no_gap(
    minimum_group: u64,
    held: Set<u64>,
    upstream_largest: u64,
    start: u64,
    end: u64,
    group: u64,
)
    requires
        forall|g: u64|
            #[trigger] is_missing(minimum_group, held, Some(upstream_largest), g) ==> start <= g
                <= end,
        minimum_group <= group <= upstream_largest,
    ensures
        held.contains(group) || start <= group <= end,
{
    if !held.contains(group) {
        assert(is_missing(minimum_group, held, Some(upstream_largest), group));
    }
}

/// The last group that the source forwards at the seam; `None` when the seam is
/// at group 0 and nothing lies below it.
pub open spec fn seam_bound(g_switch: u64) -> Option<u64> {
    if g_switch == 0 {
        None
    } else {
        Some((g_switch - 1) as u64)
    }
}

/// The last group that the source forwards at the seam.
pub fn seam_end_group_bound(g_switch: u64) -> (bound: Option<u64>)
    ensures
        bound == seam_bound(g_switch),
{
    g_switch.checked_sub(1)
}

/// The source has sent everything up to `drain_target`, the highest location
/// that the cache holds below the seam.
pub open spec fn is_drained(last_sent: Option<Location>, drain_target: Option<Location>) -> bool {
    match drain_target {
        None => true,
        Some(target) => last_sent matches Some(sent) && !sent.precedes(target),
    }
}

/// Whether the source has delivered everything that the cache holds below the
/// seam.
pub fn drain_complete(last_sent: Option<&Location>, drain_target: Option<&Location>) -> (complete:
    bool)
    ensures
        complete == is_drained(
            match last_sent {
                Some(l) => Some(*l),
                None => None,
            },
            match drain_target {
                Some(l) => Some(*l),
                None => None,
            },
        ),
{
    match drain_target {
        None => true,
        Some(target) => match last_sent {
            Some(sent) => !sent.precedes(*target),
            None => false,
        },
    }
}

/// The first group of the live subscription on the target.
pub open spec fn live_start(g_switch: u64, live_edge: u64) -> u64 {
    if g_switch < live_edge {
        live_edge
    } else {
        g_switch
    }
}

/// The parameters of the live subscription on the target: those of the SWITCH,
/// with forwarding on and an absolute start.
pub open spec fn live_parameters(
    g_switch: u64,
    live_edge: u64,
    parameters: Seq<MessageParameter>,
) -> Seq<MessageParameter> {
    model::with_parameter(
        model::with_parameter(parameters, MessageParameter::Forward { forward: true }),
        MessageParameter::SubscriptionFilter {
            filter_type: FilterType::AbsoluteStart,
            start_location: Some(Location { group: live_start(g_switch, live_edge), object: 0 }),
            end_group: None,
        },
    )
}

/// The live subscription that the relay attaches to the target: it starts at the
/// live edge or at the seam, whichever is later, so that the joining replay
/// covers the head of that group, and has no end.
pub fn build_switch_live_sub(
    target_request_id: u64,
    track_namespace: Tuple,
    track_name: TupleField,
    g_switch: u64,
    live_edge: u64,
    parameters: Vec<MessageParameter>,
) -> (subscribe: Subscribe)
    ensures
        subscribe@ == (SubscribeView {
            request_id: target_request_id,
            track: TrackNameView { namespace: track_namespace@, name: track_name@ },
            parameters: live_parameters(g_switch, live_edge, parameters@),
        }),
{
    let mut params: Vec<MessageParameter> = parameters;
    set_param(&mut params, MessageParameter::new_forward(true));
    let start: u64 = if g_switch < live_edge {
        live_edge
    } else {
        g_switch
    };
    Subscribe::new_absolute_start(
        target_request_id,
        track_namespace,
        track_name,
        Location::new(start, 0),
        params,
    )
}

/// The parameters of the PUBLISH that announces a switch: those of the SWITCH,
/// with forwarding on, the live edge, and the seam.
pub open spec fn announce_parameters(
    parameters: Seq<MessageParameter>,
    live_edge: Location,
    transition: SwitchTransition,
) -> Seq<MessageParameter> {
    model::with_parameter(
        model::with_parameter(
            model::with_parameter(parameters, MessageParameter::Forward { forward: true }),
            MessageParameter::LargestObject { location: live_edge },
        ),
        transition.to_message_parameter(),
    )
}

/// The PUBLISH that announces a switch.
pub fn switch_publish(
    publish_request_id: u64,
    target: &FullTrackName,
    relay_track_id: u64,
    live_edge: Location,
    target_parameters: &Vec<MessageParameter>,
    transition: SwitchTransition,
    track_properties: Vec<KeyValuePair>,
) -> (publish: Publish)
    ensures
        publish.request_id == publish_request_id,
        publish.track_namespace@ == target@.namespace,
        publish.track_name@ == target@.name,
        publish.track_alias == relay_track_id,
        publish.parameters@ == announce_parameters(target_parameters@, live_edge, transition),
        publish.track_properties == track_properties,
{
    let mut parameters: Vec<MessageParameter> = copy_parameters(target_parameters);
    set_param(&mut parameters, MessageParameter::new_forward(true));
    set_param(&mut parameters, MessageParameter::new_largest_object(live_edge));
    set_param(&mut parameters, transition.to_message_parameter());
    Publish {
        request_id: publish_request_id,
        track_namespace: target.namespace.clone(),
        track_name: target.name.clone(),
        track_alias: relay_track_id,
        parameters,
        track_properties,
    }
}

impl SwitchFailure {
    /// The name of a failure, as it stands in the reason of a PUBLISH_DONE.
    pub open spec fn spec_name(self) -> Seq<char> {
        match self {
            SwitchFailure::TargetTrackMissing => "TargetTrackMissing"@,
            SwitchFailure::NoCommonBoundary => "NoCommonBoundary"@,
            SwitchFailure::AlreadyInFlight => "AlreadyInFlight"@,
            SwitchFailure::Unauthorized => "Unauthorized"@,
            SwitchFailure::NotSupported => "NotSupported"@,
            SwitchFailure::SubscriptionEnded => "SubscriptionEnded"@,
            SwitchFailure::DrainTimeout => "DrainTimeout"@,
            SwitchFailure::PublishBuildFailed => "PublishBuildFailed"@,
            SwitchFailure::Superseded => "Superseded"@,
        }
    }

    /// The name of a failure, as it stands in the reason of a PUBLISH_DONE.
    pub fn name(self) -> (name: &'static str)
        ensures
            name@ == self.spec_name(),
    {
        match self {
            SwitchFailure::TargetTrackMissing => "TargetTrackMissing",
            SwitchFailure::NoCommonBoundary => "NoCommonBoundary",
            SwitchFailure::AlreadyInFlight => "AlreadyInFlight",
            SwitchFailure::Unauthorized => "Unauthorized",
            SwitchFailure::NotSupported => "NotSupported",
            SwitchFailure::SubscriptionEnded => "SubscriptionEnded",
            SwitchFailure::DrainTimeout => "DrainTimeout",
            SwitchFailure::PublishBuildFailed => "PublishBuildFailed",
            SwitchFailure::Superseded => "Superseded",
        }
    }
}

/// The two messages that report a failed switch, to be sent one right after the
/// other on the request stream of the PUBLISH.
#[derive(Debug)]
pub struct SwitchReport {
    pub publish: Publish,
    pub done: PublishDone,
}

impl SwitchReport {
    /// This report answers for `failure`: a PUBLISH for the target that carries
    /// no data (forwarding off, the transition zero) and a PUBLISH_DONE with
    /// the failure's status.
    pub open spec fn reports(
        self,
        publish_request_id: u64,
        target: TrackNameView,
        track_alias: u64,
        failure: SwitchFailure,
    ) -> bool {
        &&& self.publish.request_id == publish_request_id
        &&& self.publish.track_namespace@ == target.namespace
        &&& self.publish.track_name@ == target.name
        &&& self.publish.track_alias == track_alias
        &&& self.publish.parameters@ == seq![
            MessageParameter::Forward { forward: false },
            SwitchTransition::new(0, 0).to_message_parameter(),
        ]
        &&& self.publish.track_properties@.len() == 0
        &&& self.done.status_code == failure.status_code()
        &&& self.done.stream_count == 0
        &&& self.done.reason@ == "switch: "@ + failure.spec_name()
    }
}

/// The report of a failed switch. Every failure past the entry check is reported this
/// way; the subscriber tells the outcome from the status code.
pub fn switch_failure(
    publish_request_id: u64,
    target: &FullTrackName,
    track_alias: u64,
    failure: SwitchFailure,
) -> (report: SwitchReport)
    ensures
        report.reports(publish_request_id, target@, track_alias, failure),
{
    let mut parameters: Vec<MessageParameter> = Vec::new();
    parameters.push(MessageParameter::new_forward(false));
    parameters.push(SwitchTransition::new(0, 0).to_message_parameter());
    proof {
        assert(parameters@ =~= seq![
            MessageParameter::Forward { forward: false },
            SwitchTransition::new(0, 0).to_message_parameter(),
        ]);
    }
    let publish: Publish = Publish {
        request_id: publish_request_id,
        track_namespace: target.namespace.clone(),
        track_name: target.name.clone(),
        track_alias,
        parameters,
        track_properties: Vec::new(),
    };
    let mut reason: String = "switch: ".to_owned();
    reason.append(failure.name());
    let done: PublishDone = PublishDone {
        status_code: failure.status_code(),
        stream_count: 0,
        reason,
    };
    SwitchReport { publish, done }
}

/// A catch-up stream: its identity, the request that it answers, its priority
/// and the range that it delivers.
#[derive(Debug, Clone, Copy, PartialEq, Eq, Structural)]
pub struct CatchupStream {
    pub stream_id: StreamId,
    pub request_id: u64,
    pub priority: i32,
    pub start: Location,
    pub end: Location,
}

/// The catch-up stream of a switch. It is a fetch stream under the request of
/// the target's PUBLISH, so that the subscriber hands its objects to the same
/// receiver as the live ones. It is opened and closed even when the range turns
/// out to hold nothing; there is none only when there is no range.
pub fn plan_switch_catchup(
    relay_track_id: u64,
    publish_request_id: u64,
    g_switch: u64,
    live_edge: u64,
    priority: i32,
) -> (stream: Option<CatchupStream>)
    ensures
        match stream {
            Some(stream) => {
                &&& g_switch < live_edge
                &&& stream == (CatchupStream {
                    stream_id: StreamId::Fetch {
                        track_alias: relay_track_id,
                        request_id: publish_request_id,
                    },
                    request_id: publish_request_id,
                    priority,
                    start: Location { group: g_switch, object: 0 },
                    end: Location { group: (live_edge - 1) as u64, object: 0 },
                })
            },
            None => g_switch >= live_edge,
        },
        match (stream, catchup_range(g_switch, live_edge)) {
            (Some(stream), Some((start, end))) => stream.start == start && stream.end == end,
            (None, None) => true,
            _ => false,
        },
{
    match switch_catchup_range(g_switch, live_edge) {
        Some((start, end)) => Some(
            CatchupStream {
                stream_id: StreamId::new_fetch(relay_track_id, publish_request_id),
                request_id: publish_request_id,
                priority,
                start,
                end,
            },
        ),
        None => None,
    }
}

/// How the search for `G_switch` ended.
#[derive(Debug, Clone, Copy, PartialEq, Eq, Structural)]
pub enum SelectOutcome {
    /// A boundary was found.
    Ready(u64),
    /// None came up before the deadline.
    TimedOut,
    /// The source subscription was cancelled meanwhile.
    Abandoned,
    /// The target turned out not to be available.
    TargetRejected,
}

/// What one poll of the search asks for.
#[derive(Debug, Clone, Copy, PartialEq, Eq, Structural)]
pub enum SelectStep {
    /// The search is over.
    Done(SelectOutcome),
    /// The caches have changed: read what the tracks hold, select, and conclude.
    Scan,
    /// Nothing has changed since the last scan: conclude without one.
    NoScan,
}

/// The search for `G_switch`: a poll that scans the caches only when one of them
/// has changed.
#[derive(Debug, Clone, Copy)]
pub struct SelectPoll {
    /// The generations of the two caches at the last scan.
    pub last_avail: Option<(u64, u64)>,
}

impl SelectPoll {
    pub fn new() -> (poll: SelectPoll)
        ensures
            poll.last_avail is None,
    {
        SelectPoll { last_avail: None }
    }

    /// Begins one poll.
    pub fn begin(&mut self, abandoned: bool, target_rejected: bool, avail: (u64, u64)) -> (step:
        SelectStep)
        ensures
            step == if abandoned {
                SelectStep::Done(SelectOutcome::Abandoned)
            } else if target_rejected {
                SelectStep::Done(SelectOutcome::TargetRejected)
            } else if old(self).last_avail == Some(avail) {
                SelectStep::NoScan
            } else {
                SelectStep::Scan
            },
            final(self).last_avail == if step == SelectStep::Scan {
                Some(avail)
            } else {
                old(self).last_avail
            },
    {
        if abandoned {
            return SelectStep::Done(SelectOutcome::Abandoned);
        }
        if target_rejected {
            return SelectStep::Done(SelectOutcome::TargetRejected);
        }
        let unchanged: bool = match self.last_avail {
            Some((current, target)) => current == avail.0 && target == avail.1,
            None => false,
        };
        if unchanged {
            SelectStep::NoScan
        } else {
            self.last_avail = Some(avail);
            SelectStep::Scan
        }
    }
}

/// Concludes one poll: `None` means wait and poll again.
pub fn conclude_select(selection: Option<SwitchSelection>, now: u64, deadline: u64) -> (outcome:
    Option<SelectOutcome>)
    ensures
        outcome == match selection {
            Some(SwitchSelection::Ready(g)) => Some(SelectOutcome::Ready(g)),
            _ => if now >= deadline {
                Some(SelectOutcome::TimedOut)
            } else {
                None
            },
        },
{
    if let Some(SwitchSelection::Ready(g)) = selection {
        return Some(SelectOutcome::Ready(g));
    }
    if now >= deadline {
        Some(SelectOutcome::TimedOut)
    } else {
        None
    }
}

/// How the wait for the source ended.
#[derive(Debug, Clone, Copy, PartialEq, Eq, Structural)]
pub enum DrainOutcome {
    /// Everything below the seam has been delivered. The source is not bounded
    /// yet: that comes after the PUBLISH has been claimed.
    Drained,
    /// It did not happen before the deadline.
    TimedOut,
    /// The source subscription was cancelled meanwhile.
    Abandoned,
}

/// What one poll of the drain asks for.
#[derive(Debug, Clone, Copy, PartialEq, Eq, Structural)]
pub enum DrainStep {
    Done(DrainOutcome),
    /// The cache has changed: read the highest location below the seam.
    ReadTarget,
    /// The target location still holds.
    KeepTarget,
}

/// The wait until the source has delivered everything below the seam.
#[derive(Debug, Clone, Copy, PartialEq, Eq, Structural)]
pub struct DrainPoll {
    pub drain_target: Option<Location>,
    /// The generation of the source's cache when the target was read.
    pub last_avail: Option<u64>,
}

impl DrainPoll {
    pub fn new() -> (poll: DrainPoll)
        ensures
            poll == (DrainPoll { drain_target: None, last_avail: None }),
    {
        DrainPoll { drain_target: None, last_avail: None }
    }

    /// Begins one poll.
    pub fn begin(&mut self, abandoned: bool, avail: u64) -> (step: DrainStep)
        ensures
            step == if abandoned {
                DrainStep::Done(DrainOutcome::Abandoned)
            } else if old(self).last_avail == Some(avail) {
                DrainStep::KeepTarget
            } else {
                DrainStep::ReadTarget
            },
            *final(self) == if step == DrainStep::ReadTarget {
                DrainPoll { last_avail: Some(avail), ..*old(self) }
            } else {
                *old(self)
            },
    {
        if abandoned {
            return DrainStep::Done(DrainOutcome::Abandoned);
        }
        let unchanged: bool = match self.last_avail {
            Some(last) => last == avail,
            None => false,
        };
        if unchanged {
            DrainStep::KeepTarget
        } else {
            self.last_avail = Some(avail);
            DrainStep::ReadTarget
        }
    }

    /// Concludes one poll: `None` means wait and poll again.
    pub fn conclude(&self, last_sent: Option<Location>, now: u64, deadline: u64) -> (outcome:
        Option<DrainOutcome>)
        ensures
            outcome == if is_drained(last_sent, self.drain_target) {
                Some(DrainOutcome::Drained)
            } else if now >= deadline {
                Some(DrainOutcome::TimedOut)
            } else {
                None
            },
    {
        if drain_complete(last_sent.as_ref(), self.drain_target.as_ref()) {
            Some(DrainOutcome::Drained)
        } else if now >= deadline {
            Some(DrainOutcome::TimedOut)
        } else {
            None
        }
    }
}

/// What the seam bound replaced on the source.
#[derive(Debug, Clone, Copy, PartialEq, Eq, Structural)]
pub struct SeamBoundUndo {
    pub prior_end_group: Option<u64>,
}

/// Bounds the source at the seam, so that it does not forward groups at or above
/// `g_switch` beside the target. With the seam at group 0 there is nothing to
/// bound.
pub fn apply_seam_bound(source: &mut SubscriptionState, g_switch: u64) -> (undo: Option<
    SeamBoundUndo,
>)
    ensures
        match undo {
            Some(undo) => {
                &&& g_switch > 0
                &&& undo.prior_end_group == old(source)@.end_group
                &&& final(source)@ == (StateView {
                    end_group: seam_bound(g_switch),
                    ..old(source)@
                })
            },
            None => g_switch == 0 && final(source)@ == old(source)@,
        },
{
    match seam_end_group_bound(g_switch) {
        Some(bound) => {
            let prior: Option<u64> = source.end_group;
            source.end_group = Some(bound);
            Some(SeamBoundUndo { prior_end_group: prior })
        },
        None => None,
    }
}

/// Puts the source's own bound back.
pub fn restore_source_end_group(source: &mut SubscriptionState, prior_end_group: Option<u64>)
    ensures
        final(source)@ == (StateView { end_group: prior_end_group, ..old(source)@ }),
{
    source.end_group = prior_end_group;
}

/// The seam loses no group and doubles none: every group comes from exactly one
/// of the bounded source, the catch-up stream, and the live subscription.
pub proof fn law_seam_partitions_groups(
    source: StateView,
    g_switch: u64,
    live_edge: u64,
    group: u64,
)
    requires
        source.end_group == seam_bound(g_switch),
        g_switch > 0,
    ensures
        ({
            let from_source = !source.beyond_end(group);
            let from_catchup = in_catchup(g_switch, live_edge, group);
            let from_live = live_start(g_switch, live_edge) <= group;
            &&& from_source || from_catchup || from_live
            &&& !(from_source && from_catchup)
            &&& !(from_source && from_live)
            &&& !(from_catchup && from_live)
            &&& from_source <==> group < g_switch
        }),
{
}

/// With the seam at group 0 the catch-up stream and the live subscription share
/// all groups between them.
pub proof fn law_seam_at_zero(live_edge: u64, group: u64)
    ensures
        in_catchup(0, live_edge, group) <==> !(live_start(0, live_edge) <= group),
{
}

/// The bound and its undo cancel out: the source is as it was.
pub proof fn law_seam_bound_is_undone(source: StateView, g_switch: u64)
    ensures
        (StateView {
            end_group: source.end_group,
            ..(StateView { end_group: seam_bound(g_switch), ..source })
        }) == source,
{
}

/// When the source is drained, it has sent every location that the cache holds
/// below the seam, provided that `drain_target` is the highest of them.
pub proof fn law_drained_source_has_sent_everything(
    held_below_seam: Set<Location>,
    last_sent: Option<Location>,
    drain_target: Option<Location>,
    location: Location,
)
    requires
        is_drained(last_sent, drain_target),
        held_below_seam.contains(location),
        drain_target matches Some(target) && forall|l: Location| #[trigger]
            held_below_seam.contains(l) ==> !target.precedes(l),
    ensures
        last_sent matches Some(sent) && !sent.precedes(location),
{
}

/// The catch-up stream outranks every live stream of its subscriber.
pub proof fn law_catchup_outranks_live_streams(
    subscriber_priority: u8,
    pub_prio: u8,
    order: GroupOrder,
    group: u64,
)
    ensures
        catchup_priority(subscriber_priority) >= streams::stream_priority(
            subscriber_priority,
            pub_prio,
            order,
            group,
        ),
{
}

/// The catch-up stream of one subscriber never outranks a stream of a more
/// urgent one.
pub proof fn law_catchup_stays_in_its_subscribers_band(
    urgent: u8,
    other: u8,
    pub_prio: u8,
    order: GroupOrder,
    group: u64,
)
    requires
        urgent < other,
    ensures
        streams::stream_priority(urgent, pub_prio, order, group) > catchup_priority(other),
{
}

/// The live subscription of a switch starts joining at the later of seam and
/// live edge, forwards, and has no end, whatever the SWITCH asked for.
pub proof fn law_live_subscription_joins_at_the_edge(
    g_switch: u64,
    live_edge: u64,
    parameters: Seq<MessageParameter>,
)
    ensures
        ({
            let state = crate::subscription::initial_state(
                live_parameters(g_switch, live_edge, parameters),
                true,
            );
            &&& state.is_joining
            &&& state.forward
            &&& state.filter_type == FilterType::AbsoluteStart
            &&& state.end_group is None
            &&& state.start_location == Some(
                Location { group: live_start(g_switch, live_edge), object: 0 },
            )
            &&& state.subscriber_priority == model::subscriber_priority_of(parameters)
        }),
{
    let forward = MessageParameter::Forward { forward: true };
    let filter = MessageParameter::SubscriptionFilter {
        filter_type: FilterType::AbsoluteStart,
        start_location: Some(Location { group: live_start(g_switch, live_edge), object: 0 }),
        end_group: None,
    };
    let first = model::with_parameter(parameters, forward);
    model::law_set_parameter_is_read_back(parameters, forward);
    model::law_set_parameter_is_read_back(first, filter);
    model::law_set_parameter_keeps_other_kinds(first, filter, model::ParameterKind::Forward);
    model::law_set_parameter_keeps_other_kinds(
        first,
        filter,
        model::ParameterKind::SubscriberPriority,
    );
    model::law_set_parameter_keeps_other_kinds(
        parameters,
        forward,
        model::ParameterKind::SubscriberPriority,
    );
}

/// The PUBLISH of a switch carries its seam, and the one of a failed switch
/// carries the zero seam with forwarding off.
pub proof fn law_publish_carries_the_seam(
    parameters: Seq<MessageParameter>,
    live_edge: Location,
    transition: SwitchTransition,
)
    ensures
        crate::switch_transition::transition_of(
            announce_parameters(parameters, live_edge, transition),
        ) == Some(transition),
        model::forward_of(announce_parameters(parameters, live_edge, transition)),
{
    let forward = MessageParameter::Forward { forward: true };
    let largest = MessageParameter::LargestObject { location: live_edge };
    let seam = transition.to_message_parameter();
    let first = model::with_parameter(parameters, forward);
    let second = model::with_parameter(first, largest);
    model::law_set_parameter_is_read_back(parameters, forward);
    model::law_set_parameter_keeps_other_kinds(first, largest, model::ParameterKind::Forward);
    model::law_set_parameter_keeps_other_kinds(second, seam, model::ParameterKind::Forward);
    model::law_set_parameter_is_read_back(second, seam);
}

/// A SWITCH cannot set what the relay owns: none of those parameters is left
/// after the filter, and every other one is.
pub proof fn law_switch_cannot_set_relay_parameters(
    params: Seq<MessageParameter>,
    parameter: MessageParameter,
)
    ensures
        target_parameters_of(params).contains(parameter) <==> params.contains(parameter)
            && !relay_owned(parameter),
{
    broadcast use vstd::seq_lib::group_filter_ensures;

    let keep = |p: MessageParameter| !relay_owned(p);
    let kept = params.filter(keep);
    if params.contains(parameter) && !relay_owned(parameter) {
        let i = choose|i: int| 0 <= i < params.len() && params[i] == parameter;
        assert(keep(params[i]));
        assert(kept.contains(params[i]));
    }
    if kept.contains(parameter) {
        let i = choose|i: int| 0 <= i < kept.len() && kept[i] == parameter;
        assert(keep(kept[i]));
        lemma_filter_source(params, parameter);
    }
}

proof fn lemma_filter_source(params: Seq<MessageParameter>, parameter: MessageParameter)
    requires
        target_parameters_of(params).contains(parameter),
    ensures
        params.contains(parameter),
    decreases params.len(),
{
    reveal(Seq::filter);
    if params.len() > 0 {
        let rest = target_parameters_of(params.drop_last());
        let i = choose|i: int|
            0 <= i < target_parameters_of(params).len() && target_parameters_of(params)[i]
                == parameter;
        if i < rest.len() {
            assert(rest[i] == parameter);
            lemma_filter_source(params.drop_last(), parameter);
            let j = choose|j: int|
                0 <= j < params.drop_last().len() && params.drop_last()[j] == parameter;
            assert(params[j] == parameter);
        } else {
            assert(params[params.len() - 1] == parameter);
        }
    }
}

/// The PUBLISH that announces a switch tells the target's live edge as the largest
/// object, the seam as the transition, and that objects follow. Every other
/// parameter is the one of the SWITCH.
pub proof fn law_publish_tells_the_live_edge(
    parameters: Seq<MessageParameter>,
    live_edge: Location,
    transition: SwitchTransition,
    kind: ParameterKind,
)
    ensures
        ({
            let announced = announce_parameters(parameters, live_edge, transition);
            &&& model::first_of_kind(announced, ParameterKind::LargestObject) == Some(
                MessageParameter::LargestObject { location: live_edge },
            )
            &&& model::first_of_kind(announced, ParameterKind::Forward) == Some(
                MessageParameter::Forward { forward: true },
            )
            &&& model::first_of_kind(announced, ParameterKind::SwitchTransition) == Some(
                MessageParameter::SwitchTransition {
                    switching_group_id: transition.switching_group_id,
                    live_edge_group_id: transition.live_edge_group_id,
                },
            )
            &&& kind != ParameterKind::LargestObject && kind != ParameterKind::Forward && kind
                != ParameterKind::SwitchTransition ==> model::first_of_kind(announced, kind)
                == model::first_of_kind(parameters, kind)
        }),
{
    let forward = MessageParameter::Forward { forward: true };
    let edge = MessageParameter::LargestObject { location: live_edge };
    let seam = transition.to_message_parameter();
    let one = model::with_parameter(parameters, forward);
    let two = model::with_parameter(one, edge);
    model::law_set_parameter_is_read_back(parameters, forward);
    model::law_set_parameter_is_read_back(one, edge);
    model::law_set_parameter_is_read_back(two, seam);
    model::law_set_parameter_keeps_other_kinds(one, edge, ParameterKind::Forward);
    model::law_set_parameter_keeps_other_kinds(two, seam, ParameterKind::Forward);
    model::law_set_parameter_keeps_other_kinds(two, seam, ParameterKind::LargestObject);
    if kind != ParameterKind::LargestObject && kind != ParameterKind::Forward && kind
        != ParameterKind::SwitchTransition {
        model::law_set_parameter_keeps_other_kinds(parameters, forward, kind);
        model::law_set_parameter_keeps_other_kinds(one, edge, kind);
        model::law_set_parameter_keeps_other_kinds(two, seam, kind);
    }
}

/// The live subscription of a switch starts with the first object of the live edge
/// or of the boundary, whichever is later, has no end, and is forwarded. Every
/// other parameter is the one of the SWITCH.
pub proof fn law_live_subscription_asks_for_the_edge(
    g_switch: u64,
    live_edge: u64,
    parameters: Seq<MessageParameter>,
    kind: ParameterKind,
)
    ensures
        ({
            let live = live_parameters(g_switch, live_edge, parameters);
            &&& model::first_of_kind(live, ParameterKind::SubscriptionFilter) matches Some(
                MessageParameter::SubscriptionFilter { filter_type, start_location, end_group },
            ) && filter_type == FilterType::AbsoluteStart && end_group is None && (
            start_location matches Some(start) && start.object == 0 && start.group >= g_switch
                && start.group >= live_edge && (start.group == g_switch || start.group
                == live_edge))
            &&& model::first_of_kind(live, ParameterKind::Forward) == Some(
                MessageParameter::Forward { forward: true },
            )
            &&& kind != ParameterKind::SubscriptionFilter && kind != ParameterKind::Forward
                ==> model::first_of_kind(live, kind) == model::first_of_kind(parameters, kind)
        }),
{
    let forward = MessageParameter::Forward { forward: true };
    let filter = MessageParameter::SubscriptionFilter {
        filter_type: FilterType::AbsoluteStart,
        start_location: Some(Location { group: live_start(g_switch, live_edge), object: 0 }),
        end_group: None,
    };
    let one = model::with_parameter(parameters, forward);
    model::law_set_parameter_is_read_back(parameters, forward);
    model::law_set_parameter_is_read_back(one, filter);
    model::law_set_parameter_keeps_other_kinds(one, filter, ParameterKind::Forward);
    if kind != ParameterKind::SubscriptionFilter && kind != ParameterKind::Forward {
        model::law_set_parameter_keeps_other_kinds(parameters, forward, kind);
        model::law_set_parameter_keeps_other_kinds(one, filter, kind);
    }
}

/// Of the parameters of a SWITCH exactly four kinds are the relay's to set: the
/// forward state, the largest object, the filter and the transition. The others
/// stay, in their order.
pub proof fn law_switch_keeps_its_own_parameters(
    params: Seq<MessageParameter>,
    parameter: MessageParameter,
)
    ensures
        target_parameters_of(params).contains(parameter) <==> params.contains(parameter) && !(
        parameter is Forward || parameter is LargestObject || parameter is SubscriptionFilter
            || parameter is SwitchTransition),
        target_parameters_of(params) == params.filter(
            |p: MessageParameter|
                !(p is Forward || p is LargestObject || p is SubscriptionFilter
                    || p is SwitchTransition),
        ),
{
    law_switch_cannot_set_relay_parameters(params, parameter);
    let a = |p: MessageParameter| !relay_owned(p);
    let b = |p: MessageParameter|
        !(p is Forward || p is LargestObject || p is SubscriptionFilter || p is SwitchTransition);
    assert(a =~= b);
}

/// The catch-up stream delivers whole groups, from the boundary up to the live
/// edge and without it, and there is none exactly where that range is empty.
pub proof fn law_catchup_reaches_the_live_edge(g_switch: u64, live_edge: u64, group: u64)
    ensures
        match catchup_range(g_switch, live_edge) {
            Some((start, end)) => {
                &&& start.group == g_switch
                &&& end.group + 1 == live_edge
                &&& start.object == 0 && end.object == 0
                &&& start.group <= group <= end.group <==> g_switch <= group < live_edge
            },
            None => live_edge <= g_switch,
        },
        in_catchup(g_switch, live_edge, group) <==> g_switch <= group && group < live_edge,
{
}

/// Every group from the boundary on is delivered once, by the catch-up stream or
/// by the live subscription.
pub proof fn law_target_delivers_every_group_once(g_switch: u64, live_edge: u64, group: u64)
    ensures
        ({
            let caught_up = catchup_range(g_switch, live_edge) matches Some((start, end))
                && start.group <= group <= end.group;
            let live = live_start(g_switch, live_edge) <= group;
            &&& g_switch <= group <==> caught_up || live
            &&& !(caught_up && live)
        }),
{
}

/// The source is bounded just below the boundary: it forwards every group below
/// and none at or above. At group 0 there is nothing to forward and no bound.
pub proof fn law_source_stops_below_the_boundary(g_switch: u64)
    ensures
        match seam_bound(g_switch) {
            Some(last) => last + 1 == g_switch,
            None => g_switch == 0,
        },
{
}

/// A source is drained exactly when there was nothing to send, or it has sent a
/// location that is not before the last one held below the boundary.
pub proof fn law_drained_means_sent(last_sent: Option<Location>, target: Location)
    ensures
        is_drained(last_sent, None),
        !is_drained(None, Some(target)),
        is_drained(Some(target), Some(target)),
        is_drained(last_sent, Some(target)) <==> (last_sent matches Some(sent) && (target.group
            < sent.group || (target.group == sent.group && target.object <= sent.object))),
{
}

/// The live edge of a target is the newest group that anyone knows of.
pub proof fn law_live_edge_is_the_newest_group(
    received: Option<u64>,
    upstream_largest: Option<u64>,
)
    ensures
        ({
            let edge = known_live_edge(received, upstream_largest);
            &&& received matches Some(group) ==> group <= edge
            &&& upstream_largest matches Some(group) ==> group <= edge
            &&& received == Some(edge) || upstream_largest == Some(edge) || (received is None
                && upstream_largest is None && edge == 0)
        }),
{
}

/// A group is to be fetched exactly when the upstream has it, the switch may need
/// it, and the relay lacks it.
pub proof fn law_missing_groups_are_upstream_only(
    minimum_group: u64,
    held: Set<u64>,
    largest: u64,
    group: u64,
)
    ensures
        !is_missing(minimum_group, held, None, group),
        is_missing(minimum_group, held, Some(largest), group) <==> minimum_group <= group && group
            <= largest && !held.contains(group),
{
}

/// The report of a failed switch is told from a success: it says that no objects
/// follow, its transition is zero, no stream was opened, and its status is that
/// of the failure.
pub proof fn law_failure_is_told_from_success(
    report: SwitchReport,
    request_id: u64,
    target: TrackNameView,
    alias: u64,
    failure: SwitchFailure,
)
    requires
        report.reports(request_id, target, alias, failure),
    ensures
        model::forward_of(report.publish.parameters@) == false,
        crate::switch_transition::transition_of(report.publish.parameters@) matches Some(seam)
            && seam.switching_group_id == 0 && seam.live_edge_group_id == 0,
        report.publish.request_id == request_id,
        report.publish.track_alias == alias,
        report.publish.track_namespace@ == target.namespace,
        report.publish.track_name@ == target.name,
        report.publish.track_properties@.len() == 0,
        report.done.stream_count == 0,
        report.done.status_code == failure.status_code(),
        report.done.reason@.skip(8) == failure.spec_name(),
        report.done.reason@.take(8) == seq!['s', 'w', 'i', 't', 'c', 'h', ':', ' '],
{
    reveal_strlit("switch: ");
    assert(report.done.reason@.skip(8) =~= failure.spec_name());
    assert(report.done.reason@.take(8) =~= seq!['s', 'w', 'i', 't', 'c', 'h', ':', ' ']);
    let params = report.publish.parameters@;
    assert(params[0] == (MessageParameter::Forward { forward: false }));
    model::law_first_value_counts(params, 0);
    assert(params[1] is SwitchTransition);
    reveal_with_fuel(model::first_of_kind, 3);
    assert(params.skip(1)[0] == params[1]);
}

/// No two failures are called the same.
pub proof fn law_failures_are_told_apart(a: SwitchFailure, b: SwitchFailure)
    ensures
        a.spec_name() == b.spec_name() ==> a == b,
{
    reveal_strlit("TargetTrackMissing");
    reveal_strlit("NoCommonBoundary");
    reveal_strlit("AlreadyInFlight");
    reveal_strlit("Unauthorized");
    reveal_strlit("NotSupported");
    reveal_strlit("SubscriptionEnded");
    reveal_strlit("DrainTimeout");
    reveal_strlit("PublishBuildFailed");
    reveal_strlit("Superseded");
    assert("TargetTrackMissing"@.len() == 18);
    assert("NoCommonBoundary"@.len() == 16);
    assert("AlreadyInFlight"@.len() == 15);
    assert("Unauthorized"@.len() == 12);
    assert("NotSupported"@.len() == 12);
    assert("SubscriptionEnded"@.len() == 17);
    assert("DrainTimeout"@.len() == 12);
    assert("PublishBuildFailed"@.len() == 18);
    assert("Superseded"@.len() == 10);
    assert("Unauthorized"@[0] != "NotSupported"@[0]);
    assert("Unauthorized"@[0] != "DrainTimeout"@[0]);
    assert("NotSupported"@[0] != "DrainTimeout"@[0]);
    assert("TargetTrackMissing"@[0] != "PublishBuildFailed"@[0]);
}

} // verus!
