//! One subscriber's subscription to one track: what it asks for, what has been
//! delivered, and what happens to each object of the track.
//!
//! A [`Subscription`] decides; its owner does the work on the network.
//! [`Subscription::handle_track_event`] takes each event of the track. Of an
//! object it says whether it goes out and on which stream; the owner opens that
//! stream, or finds it as [`Subscription::find_stream`] says;
//! [`Subscription::plan_write`] says whether the object may be written there, and
//! [`Subscription::object_written`] records the write.

use crate::keyed::KeyedList;
use crate::messages::{Publish, PublishDone, Subscribe};
use crate::model::{
    self, apply_message_parameter_update, forward_state, group_order, subscriber_priority,
    subscription_filter, FilterType, GroupOrder, Location, MessageParameter,
};
use crate::status::PublishDoneStatusCode;
use crate::streams::{
    self, breaks_stream_monotonicity, build_stream_id, compute_stream_priority, HeaderInfo,
    StreamId, SubgroupKey, DEFAULT_PUBLISHER_PRIORITY,
};
use vstd::prelude::*;

verus! {

/// The message that a subscription began with.
#[derive(Debug)]
pub enum SubscriptionOrigin {
    Subscribe(Subscribe),
    Publish(Publish),
}

impl SubscriptionOrigin {
    pub open spec fn spec_request_id(&self) -> u64 {
        match self {
            SubscriptionOrigin::Subscribe(s) => s.request_id,
            SubscriptionOrigin::Publish(p) => p.request_id,
        }
    }

    /// The parameters that the message carries.
    pub open spec fn parameters(&self) -> Seq<MessageParameter> {
        match self {
            SubscriptionOrigin::Subscribe(s) => s.subscribe_parameters@,
            SubscriptionOrigin::Publish(p) => p.parameters@,
        }
    }

    /// The request that the message opened.
    #[verifier::when_used_as_spec(spec_request_id)]
    pub fn request_id(&self) -> (request_id: u64)
        ensures
            request_id == self.spec_request_id(),
    {
        match self {
            SubscriptionOrigin::Subscribe(s) => s.request_id,
            SubscriptionOrigin::Publish(p) => p.request_id,
        }
    }
}

impl From<Subscribe> for SubscriptionOrigin {
    fn from(msg: Subscribe) -> (origin: Self) {
        SubscriptionOrigin::Subscribe(msg)
    }
}

impl vstd::std_specs::convert::FromSpecImpl<Subscribe> for SubscriptionOrigin {
    open spec fn obeys_from_spec() -> bool {
        true
    }

    open spec fn from_spec(msg: Subscribe) -> Self {
        SubscriptionOrigin::Subscribe(msg)
    }
}

impl From<Publish> for SubscriptionOrigin {
    fn from(msg: Publish) -> (origin: Self) {
        SubscriptionOrigin::Publish(msg)
    }
}

impl vstd::std_specs::convert::FromSpecImpl<Publish> for SubscriptionOrigin {
    open spec fn obeys_from_spec() -> bool {
        true
    }

    open spec fn from_spec(msg: Publish) -> Self {
        SubscriptionOrigin::Publish(msg)
    }
}

/// What a subscription asks for and how far it has come.
#[derive(Debug)]
pub struct SubscriptionState {
    pub subscriber_priority: u8,
    pub group_order: GroupOrder,
    pub forward: bool,
    pub filter_type: FilterType,
    pub start_location: Option<Location>,
    /// The last group to forward; `None` is unbounded.
    pub end_group: Option<u64>,
    pub subscribe_parameters: Vec<MessageParameter>,
    pub last_sent_max_location: Option<Location>,
    pub last_received_object_location: Option<Location>,
    /// Cached objects are still to be replayed before live ones flow.
    pub is_joining: bool,
    /// Per subgroup, the highest object id that the joining replay delivered.
    /// Ids increase within a subgroup and the replay reads a snapshot, so an
    /// object at or below its subgroup's mark is one that was replayed; an
    /// object of any other subgroup was not.
    pub replay_watermarks: KeyedList<SubgroupKey, u64>,
}

/// What a [`SubscriptionState`] stands for.
#[verifier::ext_equal]
pub struct StateView {
    pub subscriber_priority: u8,
    pub group_order: GroupOrder,
    pub forward: bool,
    pub filter_type: FilterType,
    pub start_location: Option<Location>,
    pub end_group: Option<u64>,
    pub subscribe_parameters: Seq<MessageParameter>,
    pub last_sent_max_location: Option<Location>,
    pub last_received_object_location: Option<Location>,
    pub is_joining: bool,
    pub replay_watermarks: Map<SubgroupKey, u64>,
}

impl View for SubscriptionState {
    type V = StateView;

    open spec fn view(&self) -> StateView {
        StateView {
            subscriber_priority: self.subscriber_priority,
            group_order: self.group_order,
            forward: self.forward,
            filter_type: self.filter_type,
            start_location: self.start_location,
            end_group: self.end_group,
            subscribe_parameters: self.subscribe_parameters@,
            last_sent_max_location: self.last_sent_max_location,
            last_received_object_location: self.last_received_object_location,
            is_joining: self.is_joining,
            replay_watermarks: self.replay_watermarks@,
        }
    }
}

/// The state that a message begins with. A SUBSCRIBE that names a start location
/// has the cached objects from there on replayed first; a PUBLISH never has.
pub open spec fn initial_state(params: Seq<MessageParameter>, from_subscribe: bool) -> StateView {
    let (filter_type, start_location, end_group) = match model::filter_of(params) {
        Some(filter) => filter,
        None => (FilterType::LatestObject, None, None),
    };
    StateView {
        subscriber_priority: model::subscriber_priority_of(params),
        group_order: model::group_order_of(params),
        forward: model::forward_of(params),
        filter_type,
        start_location,
        end_group,
        subscribe_parameters: params,
        last_sent_max_location: None,
        last_received_object_location: None,
        is_joining: from_subscribe && start_location is Some,
        replay_watermarks: Map::empty(),
    }
}

fn state_from_parameters(params: Vec<MessageParameter>, from_subscribe: bool) -> (state:
    SubscriptionState)
    ensures
        state@ == initial_state(params@, from_subscribe),
{
    let (filter_type, start_location, end_group): (
        FilterType,
        Option<Location>,
        Option<u64>,
    ) = match subscription_filter(&params) {
        Some(filter) => filter,
        None => (FilterType::LatestObject, None, None),
    };
    SubscriptionState {
        subscriber_priority: subscriber_priority(&params),
        group_order: group_order(&params),
        forward: forward_state(&params),
        filter_type,
        start_location,
        end_group,
        subscribe_parameters: params,
        last_sent_max_location: None,
        last_received_object_location: None,
        is_joining: from_subscribe && start_location.is_some(),
        replay_watermarks: KeyedList::new(),
    }
}

impl From<SubscriptionOrigin> for SubscriptionState {
    fn from(origin: SubscriptionOrigin) -> (state: Self)
        ensures
            state@ == initial_state(origin.parameters(), origin is Subscribe),
    {
        match origin {
            SubscriptionOrigin::Subscribe(subscribe) => state_from_parameters(
                subscribe.subscribe_parameters,
                true,
            ),
            SubscriptionOrigin::Publish(publish) => state_from_parameters(
                publish.parameters,
                false,
            ),
        }
    }
}

impl vstd::std_specs::convert::FromSpecImpl<SubscriptionOrigin> for SubscriptionState {
    open spec fn obeys_from_spec() -> bool {
        false
    }

    open spec fn from_spec(origin: SubscriptionOrigin) -> Self {
        arbitrary()
    }
}

/// Priority, forward state, and whether forward has gone from off to on: where
/// they stand after one more parameter of an update.
pub open spec fn update_step(before: (u8, bool, bool), parameter: MessageParameter) -> (
    u8,
    bool,
    bool,
) {
    match parameter {
        MessageParameter::SubscriberPriority { priority } => (priority, before.1, before.2),
        MessageParameter::Forward { forward } => (
            before.0,
            forward,
            before.2 || (forward && !before.1),
        ),
        _ => before,
    }
}

/// Priority, forward state, and whether forward has gone from off to on, after
/// the parameters of an update have been taken in turn.
pub open spec fn update_fold(before: (u8, bool, bool), updates: Seq<MessageParameter>) -> (
    u8,
    bool,
    bool,
)
    decreases updates.len(),
{
    if updates.len() == 0 {
        before
    } else {
        update_step(update_fold(before, updates.drop_last()), updates.last())
    }
}

impl StateView {
    /// The joining replay has delivered this very object.
    pub open spec fn replayed(self, location: Location, subgroup_id: Option<u64>) -> bool {
        match subgroup_id {
            Some(subgroup_id) => {
                let key = SubgroupKey { group_id: location.group, subgroup_id };
                self.replay_watermarks.contains_key(key) && location.object
                    <= self.replay_watermarks[key]
            },
            None => false,
        }
    }

    /// The group lies beyond the last one to forward.
    pub open spec fn beyond_end(self, group: u64) -> bool {
        self.end_group matches Some(end) && group > end
    }

    /// The location lies before the start of the subscription.
    pub open spec fn before_start(self, location: Location) -> bool {
        self.start_location matches Some(start) && location.precedes(start)
    }

    /// The state after an object has arrived.
    pub open spec fn received(self, location: Location) -> StateView {
        StateView {
            last_received_object_location: Some(
                model::later_of(self.last_received_object_location, location),
            ),
            ..self
        }
    }

    /// The state after an object has been sent.
    pub open spec fn sent(self, location: Location) -> StateView {
        StateView {
            last_sent_max_location: Some(
                model::later_of(self.last_sent_max_location, location),
            ),
            ..self
        }
    }

    /// The state after a REQUEST_UPDATE. Its filter replaces what it names and
    /// keeps the rest; no parameter is removed.
    pub open spec fn updated(self, updates: Seq<MessageParameter>) -> StateView {
        let (priority, forward, _) = update_fold(
            (self.subscriber_priority, self.forward, false),
            updates,
        );
        let filter = model::filter_of(updates);
        StateView {
            subscriber_priority: priority,
            forward,
            filter_type: match filter {
                Some((filter_type, _, _)) => filter_type,
                None => self.filter_type,
            },
            start_location: match filter {
                Some((_, Some(start), _)) => Some(start),
                _ => self.start_location,
            },
            end_group: match filter {
                Some((_, _, Some(end))) => Some(end),
                _ => self.end_group,
            },
            subscribe_parameters: model::with_parameters(self.subscribe_parameters, updates),
            ..self
        }
    }

    /// A REQUEST_UPDATE turns forwarding on at some point.
    pub open spec fn turns_forward_on(self, updates: Seq<MessageParameter>) -> bool {
        update_fold((self.subscriber_priority, self.forward, false), updates).2
    }
}

impl SubscriptionState {
    /// Whether the joining replay has already delivered this very object.
    /// Objects without a subgroup id never appear in a replay.
    pub fn is_replay_duplicate(&self, location: &Location, subgroup_id: Option<u64>) -> (duplicate:
        bool)
        ensures
            duplicate == self@.replayed(*location, subgroup_id),
    {
        match subgroup_id {
            Some(subgroup_id) => {
                match self.replay_watermarks.get(
                    SubgroupKey { group_id: location.group, subgroup_id },
                ) {
                    Some(mark) => location.object <= mark,
                    None => false,
                }
            },
            None => false,
        }
    }

    /// Whether a group lies beyond the subscription's last one. `Some(0)` is a
    /// real bound: only group 0 passes.
    pub fn exceeds_end_group(&self, group: u64) -> (exceeds: bool)
        ensures
            exceeds == self@.beyond_end(group),
    {
        match self.end_group {
            Some(end) => group > end,
            None => false,
        }
    }

    /// Whether a location lies before the subscription's start.
    pub fn precedes_start(&self, location: &Location) -> (before: bool)
        ensures
            before == self@.before_start(*location),
    {
        match self.start_location {
            Some(start) => location.precedes(start),
            None => false,
        }
    }

    /// Raises the largest location sent.
    pub fn update_last_sent_max_location(&mut self, location: Location)
        ensures
            final(self)@ == old(self)@.sent(location),
    {
        match self.last_sent_max_location {
            Some(max) => {
                if max.precedes(location) {
                    self.last_sent_max_location = Some(location);
                }
            },
            None => {
                self.last_sent_max_location = Some(location);
            },
        }
    }

    /// Raises the largest location received.
    pub fn update_last_received_object_location(&mut self, location: Location)
        ensures
            final(self)@ == old(self)@.received(location),
    {
        match self.last_received_object_location {
            Some(max) => {
                if max.precedes(location) {
                    self.last_received_object_location = Some(location);
                }
            },
            None => {
                self.last_received_object_location = Some(location);
            },
        }
    }

    /// Applies a REQUEST_UPDATE. Returns whether forwarding went from off to on
    /// on the way.
    pub fn apply_update(&mut self, updates: &Vec<MessageParameter>) -> (turned_on: bool)
        ensures
            final(self)@ == old(self)@.updated(updates@),
            turned_on == old(self)@.turns_forward_on(updates@),
    {
        let ghost before = self@;
        let ghost start = (self.subscriber_priority, self.forward, false);
        let filter: Option<(FilterType, Option<Location>, Option<u64>)> = subscription_filter(
            updates,
        );
        let mut priority: u8 = self.subscriber_priority;
        let mut forward: bool = self.forward;
        let mut turned_on: bool = false;
        let mut i: usize = 0;
        while i < updates.len()
            invariant
                i <= updates.len(),
                (priority, forward, turned_on) == update_fold(start, updates@.take(i as int)),
            decreases updates.len() - i,
        {
            match updates[i] {
                MessageParameter::SubscriberPriority { priority: new_priority } => {
                    priority = new_priority;
                },
                MessageParameter::Forward { forward: new_forward } => {
                    if new_forward && !forward {
                        turned_on = true;
                    }
                    forward = new_forward;
                },
                _ => {},
            }
            i = i + 1;
            proof {
                assert(updates@.take(i as int).drop_last() =~= updates@.take(i - 1));
            }
        }
        proof {
            assert(updates@.take(i as int) =~= updates@);
        }
        self.subscriber_priority = priority;
        self.forward = forward;
        if let Some((filter_type, start_location, end_group)) = filter {
            self.filter_type = filter_type;
            if let Some(start) = start_location {
                self.start_location = Some(start);
            }
            if let Some(end) = end_group {
                self.end_group = Some(end);
            }
        }
        apply_message_parameter_update(&mut self.subscribe_parameters, updates);
        proof {
            assert(self@ =~= before.updated(updates@));
        }
        turned_on
    }
}

/// A subscription: its state, its open streams, and how it stands with the
/// subscriber.
#[derive(Debug)]
pub struct Subscription {
    pub request_id: u64,
    pub relay_track_id: u64,
    pub subscription_state: SubscriptionState,
    /// Per open stream, the id of the last object written on it.
    pub send_stream_last_object_ids: KeyedList<StreamId, Option<u64>>,
    /// Streams opened so far, the empty ones too; the Stream Count of
    /// PUBLISH_DONE.
    pub opened_stream_count: u64,
    pub finished: bool,
    /// The header of a stream that was not opened because forwarding is off.
    pub pending_header: Option<(StreamId, HeaderInfo)>,
    /// The subscriber has been told its track alias. Streams carry only the
    /// alias, so nothing goes out before.
    pub alias_announced: bool,
}

/// What a [`Subscription`] stands for.
#[verifier::ext_equal]
pub struct SubscriptionView {
    pub request_id: u64,
    pub relay_track_id: u64,
    pub state: StateView,
    pub last_ids: Map<StreamId, Option<u64>>,
    pub opened: u64,
    pub finished: bool,
    pub pending_header: Option<(StreamId, HeaderInfo)>,
    pub alias_announced: bool,
}

impl View for Subscription {
    type V = SubscriptionView;

    open spec fn view(&self) -> SubscriptionView {
        SubscriptionView {
            request_id: self.request_id,
            relay_track_id: self.relay_track_id,
            state: self.subscription_state@,
            last_ids: self.send_stream_last_object_ids@,
            opened: self.opened_stream_count,
            finished: self.finished,
            pending_header: self.pending_header,
            alias_announced: self.alias_announced,
        }
    }
}

/// An object of a subgroup stream, as it reaches a subscription.
#[derive(Debug, Clone, Copy, PartialEq, Eq, Structural)]
pub struct ObjectEvent {
    pub location: Location,
    pub subgroup_id: Option<u64>,
    /// The stream toward the subscriber that the object belongs on.
    pub stream_id: StreamId,
    /// The stream's header, with the first object of the stream.
    pub header_info: Option<HeaderInfo>,
}

/// What becomes of an object.
#[derive(Debug, Clone, Copy, PartialEq, Eq, Structural)]
pub enum ObjectStep {
    /// Dropped: it lies before the start of the subscription.
    BeforeStart,
    /// Dropped: the joining replay has delivered it.
    ReplayDuplicate,
    /// Dropped: it lies beyond the last group.
    BeyondEndGroup,
    /// Dropped: forwarding is off. A header it came with is kept.
    NotForwarding,
    /// Dropped: it came with a header that is not a subgroup's.
    UnusableHeader,
    /// Open a stream with this header and priority, then write it.
    OpenStream { stream_id: StreamId, header: HeaderInfo, priority: i32 },
    /// Write it on this stream, which [`Subscription::find_stream`] finds.
    FindStream { stream_id: StreamId },
}

/// What becomes of a datagram.
#[derive(Debug, Clone, Copy, PartialEq, Eq, Structural)]
pub enum DatagramStep {
    BeforeStart,
    BeyondEndGroup,
    NotForwarding,
    /// Send it under the relay's track alias.
    Send { track_alias: u64 },
}

/// How the stream is got that an object without a header belongs on.
#[derive(Debug, Clone, Copy, PartialEq, Eq, Structural)]
pub enum StreamPlan {
    /// It is open.
    Use,
    /// The subscriber joined in the middle of the subgroup: open it with the
    /// header that the track keeps for it.
    Open { stream_id: StreamId, header: HeaderInfo, priority: i32 },
    /// There is none: the object is dropped.
    Missing,
}

/// What happens on a track, as it reaches a subscription.
#[derive(Debug)]
pub enum TrackEvent {
    /// An object of a subgroup stream.
    SubgroupObject(ObjectEvent),
    Datagram { location: Location },
    /// A stream of the track has been closed.
    StreamClosed { stream_id: StreamId },
    /// The track has ended, or its publisher is gone.
    PublisherDisconnected { status_code: PublishDoneStatusCode, reason: String },
}

/// What to do about it.
#[derive(Debug)]
pub enum TrackStep {
    Object(ObjectStep),
    Datagram(DatagramStep),
    /// Close this stream toward the subscriber.
    CloseStream { stream_id: StreamId },
    /// Send PUBLISH_DONE, then close these streams: the subscription is over.
    End { done: PublishDone, to_close: Vec<StreamId> },
}

/// Whether an object may be written on a stream.
#[derive(Debug, Clone, Copy, PartialEq, Eq, Structural)]
pub enum WritePlan {
    /// The stream is past this object; the cache still holds it for others.
    Skip,
    /// Write it, encoded against the last object of the stream.
    Write { previous_object_id: Option<u64> },
}

/// What to do after a wait for the next track event.
#[derive(Debug, Clone, Copy, PartialEq, Eq, Structural)]
pub enum ReceiveStep {
    /// The subscriber is too far behind: stop receiving, reset its streams with
    /// TOO_FAR_BEHIND and finish.
    Shed,
    /// Handle the event.
    Handle,
    /// The subscription is over: stop receiving.
    StopReceiving,
    /// The track is gone: finish and stop receiving.
    Finish,
}

impl SubscriptionView {
    /// What to do after a wait for the next event.
    pub open spec fn receive_step(
        self,
        max_lag: u64,
        backlog: u64,
        event_arrived: bool,
    ) -> ReceiveStep {
        if too_far_behind(max_lag, backlog, self.finished) {
            ReceiveStep::Shed
        } else if !event_arrived {
            ReceiveStep::Finish
        } else if self.finished {
            ReceiveStep::StopReceiving
        } else {
            ReceiveStep::Handle
        }
    }

    /// How to get the stream of an object that came without a header.
    pub open spec fn stream_plan(self, is_open: bool, kept: Option<HeaderInfo>) -> StreamPlan {
        if is_open {
            StreamPlan::Use
        } else {
            match kept {
                Some(header) => StreamPlan::Open {
                    stream_id: header.stream_id(self.relay_track_id),
                    header,
                    priority: self.header_priority(header) as i32,
                },
                None => StreamPlan::Missing,
            }
        }
    }

    /// Whether an object is written on a stream.
    pub open spec fn write_plan(self, stream_id: StreamId, object_id: u64) -> WritePlan {
        if streams::breaks_monotonicity(self.last_id(stream_id), object_id) {
            WritePlan::Skip
        } else {
            WritePlan::Write { previous_object_id: self.last_id(stream_id) }
        }
    }

    /// A subscription as a message begins it.
    pub open spec fn initial(
        relay_track_id: u64,
        request_id: u64,
        params: Seq<MessageParameter>,
        from_subscribe: bool,
    ) -> SubscriptionView {
        SubscriptionView {
            request_id,
            relay_track_id,
            state: initial_state(params, from_subscribe),
            last_ids: Map::empty(),
            opened: 0,
            finished: false,
            pending_header: None,
            alias_announced: false,
        }
    }

    /// The send priority of the stream that a header opens.
    pub open spec fn header_priority(self, header: HeaderInfo) -> int {
        let (pub_prio, group_id) = match header {
            HeaderInfo::Subgroup { header } => (
                match header.publisher_priority {
                    Some(priority) => priority,
                    None => DEFAULT_PUBLISHER_PRIORITY,
                },
                header.group_id,
            ),
            HeaderInfo::Fetch { .. } => (DEFAULT_PUBLISHER_PRIORITY, 0u64),
        };
        streams::stream_priority(
            self.state.subscriber_priority,
            pub_prio,
            self.state.group_order,
            group_id,
        )
    }

    /// What becomes of a datagram.
    pub open spec fn datagram_step(self, location: Location) -> DatagramStep {
        if self.state.before_start(location) {
            DatagramStep::BeforeStart
        } else if self.state.beyond_end(location.group) {
            DatagramStep::BeyondEndGroup
        } else if !self.state.forward {
            DatagramStep::NotForwarding
        } else {
            DatagramStep::Send { track_alias: self.relay_track_id }
        }
    }

    /// The subscription once it is over. One that is over stays as it is.
    pub open spec fn ended(self) -> SubscriptionView {
        if self.finished {
            self
        } else {
            SubscriptionView { finished: true, last_ids: Map::empty(), ..self }
        }
    }

    /// What becomes of an object.
    pub open spec fn object_step(self, event: ObjectEvent) -> ObjectStep {
        if self.state.before_start(event.location) {
            ObjectStep::BeforeStart
        } else if self.state.replayed(event.location, event.subgroup_id) {
            ObjectStep::ReplayDuplicate
        } else if self.state.beyond_end(event.location.group) {
            ObjectStep::BeyondEndGroup
        } else if !self.state.forward {
            ObjectStep::NotForwarding
        } else {
            match event.header_info {
                Some(HeaderInfo::Subgroup { header }) => ObjectStep::OpenStream {
                    stream_id: HeaderInfo::Subgroup { header }.stream_id(self.relay_track_id),
                    header: HeaderInfo::Subgroup { header },
                    priority: self.header_priority(HeaderInfo::Subgroup { header }) as i32,
                },
                Some(HeaderInfo::Fetch { .. }) => ObjectStep::UnusableHeader,
                None => ObjectStep::FindStream { stream_id: event.stream_id },
            }
        }
    }

    /// The subscription after an object has arrived: the location counts as
    /// received whatever becomes of the object; a header that cannot be used
    /// because forwarding is off is kept, and with forwarding on an older one
    /// is let go.
    pub open spec fn after_object(self, event: ObjectEvent) -> SubscriptionView {
        SubscriptionView {
            state: self.state.received(event.location),
            pending_header: match self.object_step(event) {
                ObjectStep::NotForwarding => match event.header_info {
                    Some(header) => Some((event.stream_id, header)),
                    None => self.pending_header,
                },
                ObjectStep::OpenStream { .. }
                | ObjectStep::UnusableHeader
                | ObjectStep::FindStream { .. } => None,
                _ => self.pending_header,
            },
            ..self
        }
    }

    /// The stream that a REQUEST_UPDATE opens: the one that was held back, where
    /// the update turns forwarding on.
    pub open spec fn opened_by_update(self, updates: Seq<MessageParameter>) -> Option<
        (StreamId, HeaderInfo),
    > {
        if self.state.turns_forward_on(updates) {
            self.pending_header
        } else {
            None
        }
    }

    /// The subscription after a REQUEST_UPDATE.
    pub open spec fn after_update(self, updates: Seq<MessageParameter>) -> SubscriptionView {
        SubscriptionView {
            state: self.state.updated(updates),
            pending_header: if self.state.turns_forward_on(updates) {
                None
            } else {
                self.pending_header
            },
            ..self
        }
    }

    /// The id of the last object written on a stream, if there is one.
    pub open spec fn last_id(self, stream_id: StreamId) -> Option<u64> {
        if self.last_ids.contains_key(stream_id) {
            self.last_ids[stream_id]
        } else {
            None
        }
    }

    /// The subscription after an object has been written.
    pub open spec fn written(self, stream_id: StreamId, location: Location) -> SubscriptionView {
        SubscriptionView {
            state: self.state.sent(location),
            last_ids: self.last_ids.insert(stream_id, Some(location.object)),
            ..self
        }
    }
}

/// Whether waiting for the next event shows a subscriber too far behind.
pub open spec fn too_far_behind(max_lag: u64, backlog: u64, finished: bool) -> bool {
    max_lag > 0 && backlog > max_lag && !finished
}

impl Subscription {
    /// A subscription as a SUBSCRIBE or a PUBLISH begins it.
    pub fn new(relay_track_id: u64, origin: SubscriptionOrigin) -> (subscription: Subscription)
        ensures
            subscription@ == SubscriptionView::initial(
                relay_track_id,
                origin.request_id(),
                origin.parameters(),
                origin is Subscribe,
            ),
    {
        let request_id: u64 = origin.request_id();
        Subscription {
            request_id,
            relay_track_id,
            subscription_state: SubscriptionState::from(origin),
            send_stream_last_object_ids: KeyedList::new(),
            opened_stream_count: 0,
            finished: false,
            pending_header: None,
            alias_announced: false,
        }
    }

    /// The subscriber has been sent its track alias, so forwarding may begin.
    pub fn mark_alias_announced(&mut self)
        ensures
            final(self)@ == (SubscriptionView { alias_announced: true, ..old(self)@ }),
    {
        self.alias_announced = true;
    }

    /// Whether forwarding has to wait for the alias: neither announced nor over.
    pub fn waits_for_alias(&self) -> (waits: bool)
        ensures
            waits == (!self@.alias_announced && !self@.finished),
    {
        !self.alias_announced && !self.finished
    }

    pub fn is_finished(&self) -> (finished: bool)
        ensures
            finished == self@.finished,
    {
        self.finished
    }

    pub fn is_forwarding(&self) -> (forwarding: bool)
        ensures
            forwarding == self@.state.forward,
    {
        self.subscription_state.forward
    }

    /// Whether objects flow: not finished, and forwarding is on.
    pub fn is_active(&self) -> (active: bool)
        ensures
            active == (!self@.finished && self@.state.forward),
    {
        !self.is_finished() && self.is_forwarding()
    }

    /// Streams opened so far, the empty ones too.
    pub fn opened_stream_count(&self) -> (count: u64)
        ensures
            count == self@.opened,
    {
        self.opened_stream_count
    }

    /// Applies a REQUEST_UPDATE. Where it turns forwarding on in the middle of
    /// a group, the stream that was held back is handed out to be opened.
    pub fn update_subscription(&mut self, updates: &Vec<MessageParameter>) -> (to_open: Option<
        (StreamId, HeaderInfo),
    >)
        ensures
            to_open == old(self)@.opened_by_update(updates@),
            final(self)@ == old(self)@.after_update(updates@),
    {
        let turned_on: bool = self.subscription_state.apply_update(updates);
        if turned_on {
            let pending: Option<(StreamId, HeaderInfo)> = self.pending_header;
            self.pending_header = None;
            pending
        } else {
            None
        }
    }

    /// Ends the subscription and hands out the streams to close. A second call
    /// changes nothing and hands out none.
    pub fn finish(&mut self) -> (to_close: Vec<StreamId>)
        ensures
            final(self)@.finished,
            old(self)@.finished ==> final(self)@ == old(self)@ && to_close@.len() == 0,
            !old(self)@.finished ==> {
                &&& final(self)@ == (SubscriptionView {
                    finished: true,
                    last_ids: Map::empty(),
                    ..old(self)@
                })
                &&& to_close@.no_duplicates()
                &&& forall|s: StreamId|
                    to_close@.contains(s) <==> #[trigger] old(self)@.last_ids.contains_key(s)
            },
    {
        if self.finished {
            return Vec::new();
        }
        self.finished = true;
        self.send_stream_last_object_ids.drain()
    }

    /// Hands out every open stream to be reset, so that none of them is closed
    /// afterwards.
    pub fn reset_data_streams(&mut self) -> (to_reset: Vec<StreamId>)
        ensures
            final(self)@ == (SubscriptionView { last_ids: Map::empty(), ..old(self)@ }),
            to_reset@.no_duplicates(),
            forall|s: StreamId|
                to_reset@.contains(s) <==> #[trigger] old(self)@.last_ids.contains_key(s),
    {
        self.send_stream_last_object_ids.drain()
    }

    /// Ends the subscription because the subscriber cancelled it: its streams
    /// are reset, not finished, since it no longer wants what was written.
    pub fn cancel(&mut self) -> (to_reset: Vec<StreamId>)
        ensures
            final(self)@ == (SubscriptionView {
                finished: true,
                last_ids: Map::empty(),
                ..old(self)@
            }),
            to_reset@.no_duplicates(),
            forall|s: StreamId|
                to_reset@.contains(s) <==> #[trigger] old(self)@.last_ids.contains_key(s),
    {
        let to_reset: Vec<StreamId> = self.reset_data_streams();
        let _to_close: Vec<StreamId> = self.finish();
        to_reset
    }

    /// Decides what to do after a wait for the next event. A lag limit of 0
    /// means that no subscriber is ever shed.
    pub fn receive(&self, max_lag: u64, backlog: u64, event_arrived: bool) -> (step: ReceiveStep)
        ensures
            step == if too_far_behind(max_lag, backlog, self@.finished) {
                ReceiveStep::Shed
            } else if !event_arrived {
                ReceiveStep::Finish
            } else if self@.finished {
                ReceiveStep::StopReceiving
            } else {
                ReceiveStep::Handle
            },
            step == self@.receive_step(max_lag, backlog, event_arrived),
    {
        if max_lag > 0 && backlog > max_lag && !self.finished {
            ReceiveStep::Shed
        } else if !event_arrived {
            ReceiveStep::Finish
        } else if self.finished {
            ReceiveStep::StopReceiving
        } else {
            ReceiveStep::Handle
        }
    }

    /// The stream that a header opens, and its send priority.
    pub fn handle_header(&self, header: &HeaderInfo) -> (stream: (StreamId, i32))
        ensures
            stream.0 == header.stream_id(self@.relay_track_id),
            stream.1 == self@.header_priority(*header),
    {
        let (pub_prio, group_id): (u8, u64) = match header {
            HeaderInfo::Subgroup { header } => (
                match header.publisher_priority {
                    Some(priority) => priority,
                    None => DEFAULT_PUBLISHER_PRIORITY,
                },
                header.group_id,
            ),
            HeaderInfo::Fetch { .. } => (DEFAULT_PUBLISHER_PRIORITY, 0u64),
        };
        let priority: i32 = compute_stream_priority(
            self.subscription_state.subscriber_priority,
            pub_prio,
            self.subscription_state.group_order,
            group_id,
        );
        (build_stream_id(self.relay_track_id, header), priority)
    }

    /// Takes an object of the track and says what becomes of it.
    pub fn handle_object_event(&mut self, event: &ObjectEvent) -> (step: ObjectStep)
        ensures
            step == old(self)@.object_step(*event),
            final(self)@ == old(self)@.after_object(*event),
    {
        let ghost before = self@;
        self.subscription_state.update_last_received_object_location(event.location);
        if self.subscription_state.precedes_start(&event.location) {
            return ObjectStep::BeforeStart;
        }
        if self.subscription_state.is_replay_duplicate(&event.location, event.subgroup_id) {
            return ObjectStep::ReplayDuplicate;
        }
        if self.subscription_state.exceeds_end_group(event.location.group) {
            return ObjectStep::BeyondEndGroup;
        }
        if !self.subscription_state.forward {
            if let Some(header) = event.header_info {
                self.pending_header = Some((event.stream_id, header));
            }
            return ObjectStep::NotForwarding;
        }
        self.pending_header = None;
        match event.header_info {
            Some(HeaderInfo::Subgroup { header }) => {
                let info: HeaderInfo = HeaderInfo::Subgroup { header };
                let (stream_id, priority): (StreamId, i32) = self.handle_header(&info);
                ObjectStep::OpenStream { stream_id, header: info, priority }
            },
            Some(HeaderInfo::Fetch { .. }) => ObjectStep::UnusableHeader,
            None => ObjectStep::FindStream { stream_id: event.stream_id },
        }
    }

    /// Takes a datagram of the track and says what becomes of it. It is under
    /// the same filter and forward state as any object, but nothing is kept
    /// for later: a datagram missed while forwarding is off stays missed.
    pub fn handle_datagram(&mut self, location: Location) -> (step: DatagramStep)
        ensures
            step == old(self)@.datagram_step(location),
            final(self)@ == (SubscriptionView {
                state: old(self)@.state.received(location),
                ..old(self)@
            }),
    {
        self.subscription_state.update_last_received_object_location(location);
        if self.subscription_state.precedes_start(&location) {
            DatagramStep::BeforeStart
        } else if self.subscription_state.exceeds_end_group(location.group) {
            DatagramStep::BeyondEndGroup
        } else if !self.subscription_state.forward {
            DatagramStep::NotForwarding
        } else {
            DatagramStep::Send { track_alias: self.relay_track_id }
        }
    }

    /// Takes an event of the track and says what to do.
    pub fn handle_track_event(&mut self, event: TrackEvent) -> (step: TrackStep)
        ensures
            match event {
                TrackEvent::SubgroupObject(object) => {
                    &&& step == TrackStep::Object(old(self)@.object_step(object))
                    &&& final(self)@ == old(self)@.after_object(object)
                },
                TrackEvent::Datagram { location } => {
                    &&& step == TrackStep::Datagram(old(self)@.datagram_step(location))
                    &&& final(self)@ == (SubscriptionView {
                        state: old(self)@.state.received(location),
                        ..old(self)@
                    })
                },
                TrackEvent::StreamClosed { stream_id } => {
                    &&& step == (TrackStep::CloseStream { stream_id })
                    &&& final(self)@ == (SubscriptionView {
                        last_ids: old(self)@.last_ids.remove(stream_id),
                        ..old(self)@
                    })
                },
                TrackEvent::PublisherDisconnected { status_code, reason } => {
                    &&& step matches TrackStep::End { done, to_close }
                    &&& done.status_code == status_code
                    &&& done.stream_count == old(self)@.opened
                    &&& done.reason@ == reason@
                    &&& to_close@.no_duplicates()
                    &&& forall|s: StreamId|
                        to_close@.contains(s) <==> !old(self)@.finished
                            && #[trigger] old(self)@.last_ids.contains_key(s)
                    &&& final(self)@ == old(self)@.ended()
                },
            },
    {
        match event {
            TrackEvent::SubgroupObject(object) => TrackStep::Object(
                self.handle_object_event(&object),
            ),
            TrackEvent::Datagram { location } => TrackStep::Datagram(
                self.handle_datagram(location),
            ),
            TrackEvent::StreamClosed { stream_id } => {
                self.handle_stream_closed(stream_id);
                TrackStep::CloseStream { stream_id }
            },
            TrackEvent::PublisherDisconnected { status_code, reason } => {
                let done: PublishDone = self.publish_done(status_code, reason.as_str());
                let to_close: Vec<StreamId> = self.finish();
                TrackStep::End { done, to_close }
            },
        }
    }

    /// Decides how to get the stream of an object that came without a header,
    /// given whether it is open and the header that the track keeps for it.
    pub fn find_stream(&self, is_open: bool, kept: Option<HeaderInfo>) -> (plan: StreamPlan)
        ensures
            plan == if is_open {
                StreamPlan::Use
            } else {
                match kept {
                    Some(header) => StreamPlan::Open {
                        stream_id: header.stream_id(self@.relay_track_id),
                        header,
                        priority: self@.header_priority(header) as i32,
                    },
                    None => StreamPlan::Missing,
                }
            },
            plan == self@.stream_plan(is_open, kept),
    {
        if is_open {
            return StreamPlan::Use;
        }
        match kept {
            Some(header) => {
                let (stream_id, priority): (StreamId, i32) = self.handle_header(&header);
                StreamPlan::Open { stream_id, header, priority }
            },
            None => StreamPlan::Missing,
        }
    }

    /// Counts a stream that has been opened, modulo 2^64.
    pub fn count_opened_stream(&mut self)
        ensures
            final(self)@ == (SubscriptionView {
                opened: ((old(self)@.opened + 1) % 0x1_0000_0000_0000_0000) as u64,
                ..old(self)@
            }),
    {
        self.opened_stream_count = self.opened_stream_count.wrapping_add(1);
    }

    /// Records that a stream opened with its own header has carried nothing
    /// yet.
    pub fn stream_started(&mut self, stream_id: StreamId)
        ensures
            final(self)@ == (SubscriptionView {
                last_ids: old(self)@.last_ids.insert(stream_id, None),
                ..old(self)@
            }),
    {
        self.send_stream_last_object_ids.insert(stream_id, None);
    }

    /// Whether an object may be written on a stream, and against which object
    /// it is encoded.
    pub fn plan_write(&self, stream_id: StreamId, object_id: u64) -> (plan: WritePlan)
        ensures
            plan == if streams::breaks_monotonicity(self@.last_id(stream_id), object_id) {
                WritePlan::Skip
            } else {
                WritePlan::Write { previous_object_id: self@.last_id(stream_id) }
            },
            plan == self@.write_plan(stream_id, object_id),
    {
        let previous: Option<u64> = match self.send_stream_last_object_ids.get(stream_id) {
            Some(last) => last,
            None => None,
        };
        if breaks_stream_monotonicity(previous, object_id) {
            WritePlan::Skip
        } else {
            WritePlan::Write { previous_object_id: previous }
        }
    }

    /// Records an object that has been written.
    pub fn object_written(&mut self, stream_id: StreamId, location: Location)
        ensures
            final(self)@ == old(self)@.written(stream_id, location),
    {
        self.send_stream_last_object_ids.insert(stream_id, Some(location.object));
        self.subscription_state.update_last_sent_max_location(location);
    }

    /// A stream of the track has been closed: it is forgotten here, and the
    /// owner closes it toward the subscriber.
    pub fn handle_stream_closed(&mut self, stream_id: StreamId)
        ensures
            final(self)@ == (SubscriptionView {
                last_ids: old(self)@.last_ids.remove(stream_id),
                ..old(self)@
            }),
    {
        self.send_stream_last_object_ids.remove(stream_id);
    }

    /// The PUBLISH_DONE that ends this subscription.
    pub fn publish_done(&self, status_code: PublishDoneStatusCode, reason: &str) -> (done:
        PublishDone)
        ensures
            done.status_code == status_code,
            done.stream_count == self@.opened,
            done.reason@ == reason@,
    {
        PublishDone {
            status_code,
            stream_count: self.opened_stream_count,
            reason: reason.to_owned(),
        }
    }
}

/// Object ids on a stream increase strictly: after a write, exactly the larger
/// ids may follow, so no object is written twice on it.
pub proof fn law_stream_ids_increase(
    subscription: SubscriptionView,
    stream_id: StreamId,
    location: Location,
    next: u64,
)
    ensures
        !streams::breaks_monotonicity(
            subscription.written(stream_id, location).last_id(stream_id),
            next,
        ) <==> location.object < next,
{
}

/// A write on one stream leaves what may be written on the others as it was.
pub proof fn law_streams_are_independent(
    subscription: SubscriptionView,
    stream_id: StreamId,
    other: StreamId,
    location: Location,
)
    requires
        stream_id != other,
    ensures
        subscription.written(stream_id, location).last_id(other) == subscription.last_id(other),
{
}

/// Nothing beyond the last group goes out, and nothing before the start.
pub proof fn law_filter_bounds_delivery(subscription: SubscriptionView, event: ObjectEvent)
    requires
        subscription.object_step(event) is OpenStream || subscription.object_step(
            event,
        ) is FindStream,
    ensures
        subscription.state.end_group matches Some(end) ==> event.location.group <= end,
        subscription.state.start_location matches Some(start) ==> !event.location.precedes(start),
        subscription.state.forward,
        !subscription.state.replayed(event.location, event.subgroup_id),
{
}

/// With forwarding off no stream is opened and none is written to.
pub proof fn law_paused_subscription_sends_nothing(
    subscription: SubscriptionView,
    event: ObjectEvent,
)
    requires
        !subscription.state.forward,
    ensures
        !(subscription.object_step(event) is OpenStream),
        !(subscription.object_step(event) is FindStream),
{
}

proof fn lemma_forward_turns_on(before: (u8, bool, bool), updates: Seq<MessageParameter>)
    requires
        before.1 ==> before.2,
    ensures
        update_fold(before, updates).1 ==> update_fold(before, updates).2,
        before.2 || updates.contains(MessageParameter::Forward { forward: true })
            ==> update_fold(before, updates).2,
    decreases updates.len(),
{
    let on = MessageParameter::Forward { forward: true };
    if updates.len() > 0 {
        lemma_forward_turns_on(before, updates.drop_last());
        if updates.contains(on) && updates.last() != on {
            let i = choose|i: int| 0 <= i < updates.len() && updates[i] == on;
            assert(updates.drop_last()[i] == on);
        }
    }
}

/// A header that arrives while forwarding is off is the stream that is opened
/// when an update turns forwarding on.
pub proof fn law_held_header_opens_on_update(
    subscription: SubscriptionView,
    event: ObjectEvent,
    header: HeaderInfo,
    updates: Seq<MessageParameter>,
)
    requires
        subscription.object_step(event) is NotForwarding,
        event.header_info == Some(header),
        updates.contains(MessageParameter::Forward { forward: true }),
    ensures
        subscription.after_object(event).opened_by_update(updates) == Some(
            (event.stream_id, header),
        ),
        subscription.after_object(event).after_update(updates).pending_header is None,
{
    let state = subscription.after_object(event).state;
    lemma_forward_turns_on((state.subscriber_priority, state.forward, false), updates);
}

/// The largest location received never goes back, and neither does the largest
/// location sent.
pub proof fn law_progress_is_monotone(state: StateView, location: Location)
    ensures
        state.last_received_object_location matches Some(before) ==> (state.received(
            location,
        ).last_received_object_location matches Some(after) && !after.precedes(before)),
        state.last_sent_max_location matches Some(before) ==> (state.sent(
            location,
        ).last_sent_max_location matches Some(after) && !after.precedes(before)),
        state.sent(location).last_sent_max_location matches Some(after) && !after.precedes(
            location,
        ),
{
}

/// An update that names neither filter, priority nor forward state leaves what
/// the subscription asks for as it was.
pub proof fn law_update_keeps_what_it_does_not_name(
    state: StateView,
    updates: Seq<MessageParameter>,
)
    requires
        forall|i: int|
            0 <= i < updates.len() ==> !((#[trigger] updates[i]) is SubscriberPriority)
                && !(updates[i] is Forward) && !(updates[i] is SubscriptionFilter),
    ensures
        state.updated(updates) == (StateView {
            subscribe_parameters: model::with_parameters(state.subscribe_parameters, updates),
            ..state
        }),
        !state.turns_forward_on(updates),
{
    lemma_update_fold_keeps((state.subscriber_priority, state.forward, false), updates);
    lemma_no_filter(updates);
}

proof fn lemma_update_fold_keeps(before: (u8, bool, bool), updates: Seq<MessageParameter>)
    requires
        forall|i: int|
            0 <= i < updates.len() ==> !((#[trigger] updates[i]) is SubscriberPriority)
                && !(updates[i] is Forward),
    ensures
        update_fold(before, updates) == before,
    decreases updates.len(),
{
    if updates.len() > 0 {
        lemma_update_fold_keeps(before, updates.drop_last());
    }
}

proof fn lemma_no_filter(updates: Seq<MessageParameter>)
    requires
        forall|i: int| 0 <= i < updates.len() ==> !((#[trigger] updates[i]) is SubscriptionFilter),
    ensures
        model::first_of_kind(updates, model::ParameterKind::SubscriptionFilter) is None,
    decreases updates.len(),
{
    if updates.len() > 0 {
        assert(!(updates[0] is SubscriptionFilter));
        lemma_no_filter(updates.skip(1));
    }
}

/// Nothing that was asked for is held back: with forwarding on, an object at or
/// behind the start, in a group up to and with the last one, that the replay has
/// not delivered, is sent. With a subgroup header its stream is opened, under the
/// relay's alias; without one it goes on the stream that it belongs on.
pub proof fn law_wanted_objects_are_sent(subscription: SubscriptionView, event: ObjectEvent)
    requires
        subscription.state.forward,
        subscription.state.start_location matches Some(start) ==> start.group < event.location.group
            || (start.group == event.location.group && start.object <= event.location.object),
        subscription.state.end_group matches Some(end) ==> event.location.group <= end,
        event.subgroup_id matches Some(subgroup_id) ==> {
            let key = SubgroupKey { group_id: event.location.group, subgroup_id };
            subscription.state.replay_watermarks.contains_key(key)
                ==> subscription.state.replay_watermarks[key] < event.location.object
        },
    ensures
        event.header_info matches Some(HeaderInfo::Subgroup { header }) ==> (
        subscription.object_step(event) matches ObjectStep::OpenStream {
            stream_id,
            header: opened,
            ..
        } && opened == (HeaderInfo::Subgroup { header }) && stream_id == (StreamId::Subgroup {
            track_alias: subscription.relay_track_id,
            group_id: header.group_id,
            subgroup_id: header.subgroup_id,
        })),
        event.header_info is None ==> subscription.object_step(event) == (ObjectStep::FindStream {
            stream_id: event.stream_id,
        }),
{
}

/// Each object that is not sent is dropped for the first reason that applies: it
/// lies before the start, it was replayed, its group is greater than the last
/// one, forwarding is off, or its header is no subgroup's.
pub proof fn law_objects_are_dropped_for_a_reason(
    subscription: SubscriptionView,
    event: ObjectEvent,
)
    ensures
        ({
            let step = subscription.object_step(event);
            let state = subscription.state;
            let place = event.location;
            let early = state.start_location matches Some(start) && (place.group < start.group || (
            place.group == start.group && place.object < start.object));
            let again = event.subgroup_id matches Some(subgroup_id) && {
                let key = SubgroupKey { group_id: place.group, subgroup_id };
                state.replay_watermarks.contains_key(key) && place.object
                    <= state.replay_watermarks[key]
            };
            let late = state.end_group matches Some(end) && place.group > end;
            &&& step is BeforeStart <==> early
            &&& step is ReplayDuplicate <==> !early && again
            &&& step is BeyondEndGroup <==> !early && !again && late
            &&& step is NotForwarding <==> !early && !again && !late && !state.forward
            &&& step is UnusableHeader <==> !early && !again && !late && state.forward && (
            event.header_info matches Some(HeaderInfo::Fetch { .. }))
            &&& step is OpenStream ==> event.header_info is Some
            &&& step is FindStream ==> event.header_info is None
        }),
{
}

/// The bounds of a subscription are inclusive: the object that it starts with and
/// every object of its last group are neither early nor late.
pub proof fn law_bounds_are_inclusive(state: StateView, start: Location, end: u64, object: u64)
    requires
        state.start_location == Some(start),
        state.end_group == Some(end),
    ensures
        !state.before_start(start),
        state.before_start(Location { group: start.group, object }) <==> object < start.object,
        !state.beyond_end(end),
        end < u64::MAX ==> state.beyond_end((end + 1) as u64),
{
}

/// A stream is opened at the priority of its subscriber first, then of its
/// publisher, which is 128 where none is named, then of its group.
pub proof fn law_streams_open_at_their_priority(
    subscription: SubscriptionView,
    event: ObjectEvent,
    header: streams::SubgroupHeader,
)
    requires
        event.header_info == Some(HeaderInfo::Subgroup { header }),
        subscription.object_step(event) is OpenStream,
    ensures
        subscription.object_step(event)->priority == streams::stream_priority(
            subscription.state.subscriber_priority,
            match header.publisher_priority {
                Some(priority) => priority,
                None => 128,
            },
            subscription.state.group_order,
            header.group_id,
        ),
{
    streams::law_priority_fits(
        subscription.state.subscriber_priority,
        match header.publisher_priority {
            Some(priority) => priority,
            None => 128,
        },
        subscription.state.group_order,
        header.group_id,
    );
}

/// An object that arrives changes how far the track has come, and which header is
/// held back, and nothing else. A header is held back only while forwarding is
/// off, and is let go with the first object that could be sent.
pub proof fn law_an_object_changes_nothing_else(
    subscription: SubscriptionView,
    event: ObjectEvent,
)
    ensures
        ({
            let after = subscription.after_object(event);
            let step = subscription.object_step(event);
            &&& after == (SubscriptionView {
                state: StateView {
                    last_received_object_location: after.state.last_received_object_location,
                    ..subscription.state
                },
                pending_header: after.pending_header,
                ..subscription
            })
            &&& step is NotForwarding && event.header_info is Some ==> after.pending_header
                == Some((event.stream_id, event.header_info->0))
            &&& step is NotForwarding && event.header_info is None ==> after.pending_header
                == subscription.pending_header
            &&& step is OpenStream || step is FindStream || step is UnusableHeader
                ==> after.pending_header is None
            &&& step is BeforeStart || step is ReplayDuplicate || step is BeyondEndGroup
                ==> after.pending_header == subscription.pending_header
        }),
{
}

/// The largest location received or sent is the largest of those there were:
/// one of the two, and neither is later.
pub proof fn law_progress_is_the_maximum(state: StateView, location: Location)
    ensures
        ({
            let before = state.last_received_object_location;
            state.received(location).last_received_object_location matches Some(now) && {
                &&& now == location || before == Some(now)
                &&& !(now.group < location.group || (now.group == location.group && now.object
                    < location.object))
                &&& before matches Some(b) ==> !(now.group < b.group || (now.group == b.group
                    && now.object < b.object))
            }
        }),
        ({
            let before = state.last_sent_max_location;
            state.sent(location).last_sent_max_location matches Some(now) && {
                &&& now == location || before == Some(now)
                &&& !(now.group < location.group || (now.group == location.group && now.object
                    < location.object))
                &&& before matches Some(b) ==> !(now.group < b.group || (now.group == b.group
                    && now.object < b.object))
            }
        }),
        state.sent(location) == (StateView {
            last_sent_max_location: state.sent(location).last_sent_max_location,
            ..state
        }),
        state.received(location) == (StateView {
            last_received_object_location: state.received(location).last_received_object_location,
            ..state
        }),
{
}

/// A datagram is sent, under the relay's alias, exactly when it is not before the
/// start, not in a group behind the last one, and forwarding is on.
pub proof fn law_wanted_datagrams_are_sent(subscription: SubscriptionView, location: Location)
    ensures
        ({
            let step = subscription.datagram_step(location);
            let state = subscription.state;
            let early = state.start_location matches Some(start) && (location.group < start.group
                || (location.group == start.group && location.object < start.object));
            let late = state.end_group matches Some(end) && location.group > end;
            &&& step is BeforeStart <==> early
            &&& step is BeyondEndGroup <==> !early && late
            &&& step is NotForwarding <==> !early && !late && !state.forward
            &&& step is Send <==> !early && !late && state.forward
            &&& step matches DatagramStep::Send { track_alias } ==> track_alias
                == subscription.relay_track_id
        }),
{
}

/// The filter of an update takes effect: the first one of the update sets the
/// filter type, the last group where it names one, and the start where it names
/// one. What it does not name stays.
pub proof fn law_update_sets_the_filter(state: StateView, updates: Seq<MessageParameter>, i: int)
    requires
        0 <= i < updates.len(),
        updates[i] is SubscriptionFilter,
        forall|j: int| 0 <= j < i ==> !((#[trigger] updates[j]) is SubscriptionFilter),
    ensures
        updates[i] matches MessageParameter::SubscriptionFilter {
            filter_type,
            start_location,
            end_group,
        } && {
            let after = state.updated(updates);
            &&& after.filter_type == filter_type
            &&& end_group is Some ==> after.end_group == end_group
            &&& end_group is None ==> after.end_group == state.end_group
            &&& start_location is Some ==> after.start_location == start_location
            &&& start_location is None ==> after.start_location == state.start_location
        },
{
    model::law_first_value_counts(updates, i);
}

/// After an update that names a last group, every group above it is dropped and
/// none up to it is.
pub proof fn law_updated_end_is_in_force(
    state: StateView,
    updates: Seq<MessageParameter>,
    i: int,
    end: u64,
    group: u64,
)
    requires
        0 <= i < updates.len(),
        updates[i] matches MessageParameter::SubscriptionFilter { end_group, .. } && end_group
            == Some(end),
        forall|j: int| 0 <= j < i ==> !((#[trigger] updates[j]) is SubscriptionFilter),
    ensures
        state.updated(updates).beyond_end(group) <==> group > end,
{
    law_update_sets_the_filter(state, updates, i);
}

proof fn lemma_last_value_counts(before: (u8, bool, bool), updates: Seq<MessageParameter>, i: int)
    requires
        0 <= i < updates.len(),
        forall|j: int| i < j < updates.len() ==> (#[trigger] updates[j]).kind() != updates[i].kind(),
    ensures
        updates[i] matches MessageParameter::SubscriberPriority { priority } ==> update_fold(
            before,
            updates,
        ).0 == priority,
        updates[i] matches MessageParameter::Forward { forward } ==> update_fold(before, updates).1
            == forward,
    decreases updates.len(),
{
    if i < updates.len() - 1 {
        lemma_last_value_counts(before, updates.drop_last(), i);
        assert(updates[updates.len() - 1].kind() != updates[i].kind());
    }
}

/// The last priority and the last forward state of an update are in force
/// afterwards.
pub proof fn law_update_puts_the_last_value_in_force(
    state: StateView,
    updates: Seq<MessageParameter>,
    i: int,
)
    requires
        0 <= i < updates.len(),
        forall|j: int| i < j < updates.len() ==> (#[trigger] updates[j]).kind() != updates[i].kind(),
    ensures
        updates[i] matches MessageParameter::SubscriberPriority { priority } ==> state.updated(
            updates,
        ).subscriber_priority == priority,
        updates[i] matches MessageParameter::Forward { forward } ==> state.updated(updates).forward
            == forward,
        model::first_of_kind(
            state.updated(updates).subscribe_parameters,
            updates[i].kind(),
        ) == Some(updates[i]),
{
    lemma_last_value_counts((state.subscriber_priority, state.forward, false), updates, i);
    model::law_update_puts_the_last_of_a_kind_in_force(state.subscribe_parameters, updates, i);
}

proof fn lemma_unnamed_values_stay(before: (u8, bool, bool), updates: Seq<MessageParameter>)
    ensures
        (forall|i: int| 0 <= i < updates.len() ==> !((#[trigger] updates[i]) is SubscriberPriority))
            ==> update_fold(before, updates).0 == before.0,
        (forall|i: int| 0 <= i < updates.len() ==> !((#[trigger] updates[i]) is Forward))
            ==> update_fold(before, updates).1 == before.1,
    decreases updates.len(),
{
    if updates.len() > 0 {
        lemma_unnamed_values_stay(before, updates.drop_last());
        assert forall|i: int| 0 <= i < updates.drop_last().len() implies updates.drop_last()[i]
            == #[trigger] updates[i] by {}
        assert(updates.last() == updates[updates.len() - 1]);
    }
}

/// An update leaves each of filter, priority and forward state as it was where it
/// does not name it, and never touches the group order, what was sent and
/// received, or the replay.
pub proof fn law_update_leaves_the_rest(state: StateView, updates: Seq<MessageParameter>)
    ensures
        ({
            let after = state.updated(updates);
            &&& (forall|i: int|
                0 <= i < updates.len() ==> !((#[trigger] updates[i]) is SubscriberPriority))
                ==> after.subscriber_priority == state.subscriber_priority
            &&& (forall|i: int| 0 <= i < updates.len() ==> !((#[trigger] updates[i]) is Forward))
                ==> after.forward == state.forward
            &&& (forall|i: int|
                0 <= i < updates.len() ==> !((#[trigger] updates[i]) is SubscriptionFilter))
                ==> after.filter_type == state.filter_type && after.start_location
                == state.start_location && after.end_group == state.end_group
            &&& after.group_order == state.group_order
            &&& after.last_sent_max_location == state.last_sent_max_location
            &&& after.last_received_object_location == state.last_received_object_location
            &&& after.is_joining == state.is_joining
            &&& after.replay_watermarks == state.replay_watermarks
        }),
{
    lemma_unnamed_values_stay((state.subscriber_priority, state.forward, false), updates);
    model::law_defaults(updates);
}

proof fn lemma_forward_goes_on(before: (u8, bool, bool), updates: Seq<MessageParameter>)
    requires
        !before.2,
    ensures
        update_fold(before, updates).2 <==> goes_on(before.1, updates),
        update_fold(before, updates).1 ==> before.1 || update_fold(before, updates).2,
        !update_fold(before, updates).1 ==> !before.1 || updates.contains(
            MessageParameter::Forward { forward: false },
        ),
    decreases updates.len(),
{
    let on = MessageParameter::Forward { forward: true };
    let off = MessageParameter::Forward { forward: false };
    if updates.len() > 0 {
        let rest = updates.drop_last();
        let n = updates.len() - 1;
        lemma_forward_goes_on(before, rest);
        assert(updates[n] == updates.last());
        if goes_on(before.1, rest) {
            let i = choose|i: int| #[trigger] goes_on_at(before.1, rest, i);
            assert(goes_on_at(before.1, updates, i)) by {
                if before.1 {
                    let j = choose|j: int| 0 <= j < i && #[trigger] rest[j] == off;
                    assert(updates[j] == off);
                }
            }
        }
        if rest.contains(off) {
            let j = choose|j: int| 0 <= j < rest.len() && rest[j] == off;
            assert(updates[j] == off);
        }
        if updates.last() == on && !update_fold(before, rest).1 {
            assert(goes_on_at(before.1, updates, n)) by {
                if before.1 {
                    let j = choose|j: int| 0 <= j < rest.len() && rest[j] == off;
                    assert(updates[j] == off);
                }
            }
        }
        if goes_on(before.1, updates) && !goes_on(before.1, rest) {
            let i = choose|i: int| #[trigger] goes_on_at(before.1, updates, i);
            if i < n {
                assert(rest[i] == on);
                assert(goes_on_at(before.1, rest, i)) by {
                    if before.1 {
                        let j = choose|j: int| 0 <= j < i && #[trigger] updates[j] == off;
                        assert(rest[j] == off);
                    }
                }
            } else if before.1 {
                let j = choose|j: int| 0 <= j < i && #[trigger] updates[j] == off;
                lemma_off_without_on(before, rest, j);
            } else {
                lemma_stays_off(before, rest);
            }
        }
    }
}

/// An update asks for forwarding at place `i`, where it was off at first or has
/// been turned off before.
spec fn goes_on_at(forward: bool, updates: Seq<MessageParameter>, i: int) -> bool {
    &&& 0 <= i < updates.len()
    &&& updates[i] == MessageParameter::Forward { forward: true }
    &&& !forward || exists|j: int|
        0 <= j < i && #[trigger] updates[j] == (MessageParameter::Forward { forward: false })
}

spec fn goes_on(forward: bool, updates: Seq<MessageParameter>) -> bool {
    exists|i: int| #[trigger] goes_on_at(forward, updates, i)
}

proof fn lemma_stays_off(before: (u8, bool, bool), updates: Seq<MessageParameter>)
    requires
        !before.1,
        !before.2,
        !goes_on(before.1, updates),
    ensures
        !update_fold(before, updates).1,
    decreases updates.len(),
{
    if updates.len() > 0 {
        let rest = updates.drop_last();
        if goes_on(before.1, rest) {
            let i = choose|i: int| #[trigger] goes_on_at(before.1, rest, i);
            assert(goes_on_at(before.1, updates, i));
        }
        lemma_stays_off(before, rest);
        if updates.last() == (MessageParameter::Forward { forward: true }) {
            assert(goes_on_at(before.1, updates, updates.len() - 1));
        }
    }
}

proof fn lemma_off_without_on(before: (u8, bool, bool), updates: Seq<MessageParameter>, j: int)
    requires
        0 <= j < updates.len(),
        updates[j] == (MessageParameter::Forward { forward: false }),
        !goes_on(before.1, updates),
    ensures
        !update_fold(before, updates).1,
    decreases updates.len(),
{
    let rest = updates.drop_last();
    let n = updates.len() - 1;
    assert(updates[n] == updates.last());
    if j < n {
        assert(rest[j] == updates[j]);
        if goes_on(before.1, rest) {
            let i = choose|i: int| #[trigger] goes_on_at(before.1, rest, i);
            assert(goes_on_at(before.1, updates, i)) by {
                if before.1 {
                    let k = choose|k: int|
                        0 <= k < i && #[trigger] rest[k] == (MessageParameter::Forward {
                            forward: false,
                        });
                    assert(updates[k] == rest[k]);
                }
            }
        }
        lemma_off_without_on(before, rest, j);
        if updates.last() == (MessageParameter::Forward { forward: true }) {
            assert(goes_on_at(before.1, updates, n));
        }
    }
}

/// An update turns forwarding on exactly when it asks for it somewhere, and it was
/// off at first or is turned off earlier in the same update.
pub proof fn law_forward_turns_on(state: StateView, updates: Seq<MessageParameter>)
    ensures
        state.turns_forward_on(updates) <==> exists|i: int|
            0 <= i < updates.len() && #[trigger] updates[i] == (MessageParameter::Forward {
                forward: true,
            }) && (!state.forward || exists|j: int|
                0 <= j < i && #[trigger] updates[j] == (MessageParameter::Forward {
                    forward: false,
                })),
{
    lemma_forward_goes_on((state.subscriber_priority, state.forward, false), updates);
    if goes_on(state.forward, updates) {
        let i = choose|i: int| #[trigger] goes_on_at(state.forward, updates, i);
        assert(updates[i] == (MessageParameter::Forward { forward: true }));
    }
    if exists|i: int|
        0 <= i < updates.len() && #[trigger] updates[i] == (MessageParameter::Forward {
            forward: true,
        }) && (!state.forward || exists|j: int|
            0 <= j < i && #[trigger] updates[j] == (MessageParameter::Forward { forward: false })) {
        let i = choose|i: int|
            0 <= i < updates.len() && #[trigger] updates[i] == (MessageParameter::Forward {
                forward: true,
            }) && (!state.forward || exists|j: int|
                0 <= j < i && #[trigger] updates[j] == (MessageParameter::Forward {
                    forward: false,
                }));
        assert(goes_on_at(state.forward, updates, i));
    }
}

/// An update opens the stream that was held back exactly when it turns forwarding
/// on, and then holds none back; beyond that only what the subscription asks for
/// changes.
pub proof fn law_update_opens_the_held_stream(
    subscription: SubscriptionView,
    updates: Seq<MessageParameter>,
)
    ensures
        subscription.state.turns_forward_on(updates) ==> subscription.opened_by_update(updates)
            == subscription.pending_header && subscription.after_update(updates).pending_header
            is None,
        !subscription.state.turns_forward_on(updates) ==> subscription.opened_by_update(
            updates,
        ) is None && subscription.after_update(updates).pending_header
            == subscription.pending_header,
        subscription.after_update(updates) == (SubscriptionView {
            state: subscription.state.updated(updates),
            pending_header: subscription.after_update(updates).pending_header,
            ..subscription
        }),
{
}

/// A subscription asks for what its message asks for first, and has sent and
/// received nothing. It replays cached objects exactly where it is a SUBSCRIBE that
/// names a start.
pub proof fn law_a_subscription_begins_as_asked(
    params: Seq<MessageParameter>,
    from_subscribe: bool,
)
    ensures
        ({
            let state = initial_state(params, from_subscribe);
            &&& state.subscriber_priority == model::subscriber_priority_of(params)
            &&& state.group_order == model::group_order_of(params)
            &&& state.forward == model::forward_of(params)
            &&& match model::filter_of(params) {
                Some((filter_type, start, end)) => state.filter_type == filter_type
                    && state.start_location == start && state.end_group == end,
                None => state.filter_type == FilterType::LatestObject && state.start_location
                    is None && state.end_group is None,
            }
            &&& state.is_joining <==> from_subscribe && state.start_location is Some
            &&& state.subscribe_parameters == params
            &&& state.last_sent_max_location is None
            &&& state.last_received_object_location is None
            &&& forall|key: SubgroupKey| !#[trigger] state.replay_watermarks.contains_key(key)
        }),
{
}

/// A subscription begins with no stream open, its alias not announced, and not
/// over; the first event is handled.
pub proof fn law_a_subscription_begins_fresh(
    relay_track_id: u64,
    request_id: u64,
    params: Seq<MessageParameter>,
    from_subscribe: bool,
    stream_id: StreamId,
    backlog: u64,
)
    ensures
        ({
            let subscription = SubscriptionView::initial(
                relay_track_id,
                request_id,
                params,
                from_subscribe,
            );
            &&& subscription.relay_track_id == relay_track_id
            &&& subscription.request_id == request_id
            &&& !subscription.last_ids.contains_key(stream_id)
            &&& subscription.last_id(stream_id) is None
            &&& subscription.opened == 0
            &&& !subscription.finished
            &&& !subscription.alias_announced
            &&& subscription.pending_header is None
            &&& !too_far_behind(0, backlog, subscription.finished)
        }),
{
}

/// A write is remembered on its stream alone: the id written is the last one
/// there, and every other stream stays open or closed as it was.
pub proof fn law_a_write_is_remembered(
    subscription: SubscriptionView,
    stream_id: StreamId,
    other: StreamId,
    location: Location,
)
    ensures
        ({
            let after = subscription.written(stream_id, location);
            &&& after.last_id(stream_id) == Some(location.object)
            &&& after.last_ids.contains_key(stream_id)
            &&& other != stream_id ==> (after.last_ids.contains_key(other)
                <==> subscription.last_ids.contains_key(other)) && after.last_id(other)
                == subscription.last_id(other)
            &&& after == (SubscriptionView {
                state: subscription.state.sent(location),
                last_ids: after.last_ids,
                ..subscription
            })
        }),
{
}

/// The end of a subscription closes every stream, happens once, and changes
/// nothing else.
pub proof fn law_the_end_closes_every_stream(subscription: SubscriptionView, stream_id: StreamId)
    ensures
        subscription.ended().finished,
        subscription.ended().ended() == subscription.ended(),
        subscription.finished ==> subscription.ended() == subscription,
        !subscription.finished ==> !subscription.ended().last_ids.contains_key(stream_id),
        subscription.ended() == (SubscriptionView {
            finished: true,
            last_ids: subscription.ended().last_ids,
            ..subscription
        }),
{
}

/// A subscriber is shed only beyond the limit: with no limit never, at the limit
/// not yet, beyond it always while the subscription is not over.
pub proof fn law_shedding_begins_beyond_the_limit(max_lag: u64, backlog: u64, more: u64)
    ensures
        !too_far_behind(0, backlog, false),
        !too_far_behind(max_lag, max_lag, false),
        !too_far_behind(max_lag, backlog, true),
        0 < max_lag < backlog ==> too_far_behind(max_lag, backlog, false),
        too_far_behind(max_lag, backlog, false) && backlog <= more ==> too_far_behind(
            max_lag,
            more,
            false,
        ),
        too_far_behind(max_lag, backlog, false) ==> max_lag < backlog,
{
}

/// A subscriber that is beyond the lag limit is shed before anything else. Otherwise an
/// event is handled exactly where one came and the subscription is not over.
pub proof fn law_events_are_handled_while_in_time(
    subscription: SubscriptionView,
    max_lag: u64,
    backlog: u64,
    event_arrived: bool,
)
    ensures
        ({
            let step = subscription.receive_step(max_lag, backlog, event_arrived);
            let late = max_lag > 0 && backlog > max_lag && !subscription.finished;
            &&& step is Shed <==> late
            &&& step is Finish <==> !late && !event_arrived
            &&& step is Handle <==> !late && event_arrived && !subscription.finished
            &&& step is StopReceiving <==> event_arrived && subscription.finished
        }),
{
}

/// A stream that is open is used. One that is not is opened with the header that was
/// kept for it, and without one the object has no stream.
pub proof fn law_streams_are_reopened_by_their_header(
    subscription: SubscriptionView,
    is_open: bool,
    kept: Option<HeaderInfo>,
)
    ensures
        ({
            let plan = subscription.stream_plan(is_open, kept);
            &&& plan is Use <==> is_open
            &&& plan is Missing <==> !is_open && kept is None
            &&& plan matches StreamPlan::Open { stream_id, header, .. } ==> kept == Some(header)
                && stream_id == header.stream_id(subscription.relay_track_id)
        }),
{
}

/// An object is written on a stream exactly where its id is higher than the last one
/// written there, against which it is then encoded.
pub proof fn law_objects_are_written_in_rising_order(
    subscription: SubscriptionView,
    stream_id: StreamId,
    object_id: u64,
)
    ensures
        subscription.write_plan(stream_id, object_id) is Write <==> (subscription.last_id(
            stream_id,
        ) matches Some(last) ==> last < object_id),
        subscription.write_plan(stream_id, object_id) matches WritePlan::Write {
            previous_object_id,
        } ==> previous_object_id == subscription.last_id(stream_id),
{
}

} // verus!
