//! Handling of SUBSCRIBE, and of the answers that publishers give to it.

use crate::holding_subscribes::{self, HoldingSubscribes, PendingSubscribe};
use crate::messages::RequestError;
use crate::model::{
    self, find_parameter, set_param, FilterType, Location, MessageParameter, ParameterKind,
};
use crate::probe::{self, parse_probe_track_name};
use crate::status::{PublishDoneStatusCode, RequestErrorCode, TerminationCode};
use vstd::prelude::*;

verus! {

/// The delay that a SUBSCRIBE asks for: the first DELAY_GROUPS parameter.
pub fn parse_delay_groups(params: &Vec<MessageParameter>) -> (delay: Option<u64>)
    ensures
        delay == model::delay_groups_of(params@),
{
    match find_parameter(params, ParameterKind::DelayGroups) {
        Some(MessageParameter::DelayGroups { groups }) => Some(groups),
        _ => None,
    }
}

/// Where a SUBSCRIBE with a delay starts.
#[derive(Debug, Clone, Copy, PartialEq, Eq, Structural)]
pub enum DelayedStart {
    /// The place that was asked for.
    Ready(Location),
    /// The oldest group in the cache, because the place that was asked for is
    /// gone.
    ClampedToOldest(Location),
    /// Nowhere yet: the track is too young.
    Hold { delay_groups: u64 },
}

/// Where a SUBSCRIBE with a delay starts: so many groups behind the live edge,
/// but not before the oldest group in the cache, and not before the live edge
/// has come that far.
pub open spec fn delayed_start(
    largest: Option<Location>,
    delay_groups: u64,
    oldest_cached_group: Option<u64>,
) -> DelayedStart {
    match largest {
        Some(largest) => if largest.group < delay_groups {
            DelayedStart::Hold { delay_groups }
        } else {
            let group = (largest.group - delay_groups) as u64;
            match oldest_cached_group {
                Some(oldest) => if group < oldest {
                    DelayedStart::ClampedToOldest(Location { group: oldest, object: 0 })
                } else {
                    DelayedStart::Ready(Location { group, object: 0 })
                },
                None => DelayedStart::Ready(Location { group, object: 0 }),
            }
        },
        None => DelayedStart::Hold { delay_groups },
    }
}

/// Decides where a SUBSCRIBE with a delay starts, from the live edge, the delay,
/// and the oldest group in the cache.
pub fn compute_delayed_start(
    largest: Option<Location>,
    delay_groups: u64,
    oldest_cached_group: Option<u64>,
) -> (start: DelayedStart)
    ensures
        start == delayed_start(largest, delay_groups, oldest_cached_group),
{
    let largest: Location = match largest {
        Some(largest) => largest,
        None => {
            return DelayedStart::Hold { delay_groups };
        },
    };
    if largest.group < delay_groups {
        return DelayedStart::Hold { delay_groups };
    }
    let group: u64 = largest.group - delay_groups;
    if let Some(oldest) = oldest_cached_group {
        if group < oldest {
            return DelayedStart::ClampedToOldest(Location { group: oldest, object: 0 });
        }
    }
    DelayedStart::Ready(Location { group, object: 0 })
}

/// The wait of a SUBSCRIBE with a delay for the live edge to come far enough.
#[derive(Debug, Clone, Copy, PartialEq, Eq, Structural)]
pub struct DelayedSubscribe {
    pub request_id: u64,
    pub delay_groups: u64,
    /// The SUBSCRIBE has been entered among the held ones.
    pub registered: bool,
}

/// What one look at the live edge gives.
#[derive(Debug, Clone, Copy, PartialEq, Eq, Structural)]
pub enum DelayStep {
    /// The SUBSCRIBE now starts here.
    Resolved { start: Location, clamped: bool },
    /// Wait for the live edge to advance, then look again.
    Hold,
}

impl DelayStep {
    /// Whether this is what a look at the live edge gives, where it took the wait, the
    /// SUBSCRIBE's parameters and the held ones from `before` to `after`.
    pub open spec fn follows(
        self,
        before: (DelayedSubscribe, Seq<MessageParameter>, Seq<PendingSubscribe>),
        largest: Option<Location>,
        oldest_cached_group: Option<u64>,
        after: (DelayedSubscribe, Seq<MessageParameter>, Seq<PendingSubscribe>),
    ) -> bool {
        let (wait, params, held) = before;
        let found = delayed_start(largest, wait.delay_groups, oldest_cached_group);
        match self {
            DelayStep::Hold => {
                &&& found is Hold
                &&& after.0 == (DelayedSubscribe { registered: true, ..wait })
                &&& after.1 == params
                &&& after.2 == if wait.registered {
                    held
                } else {
                    held.push(
                        PendingSubscribe {
                            request_id: wait.request_id,
                            delay_groups: wait.delay_groups,
                        },
                    )
                }
            },
            DelayStep::Resolved { start, clamped } => {
                &&& found == if clamped {
                    DelayedStart::ClampedToOldest(start)
                } else {
                    DelayedStart::Ready(start)
                }
                &&& after.0 == wait
                &&& after.1 == with_absolute_start(params, start)
                &&& after.2 == held_after(largest, wait, held)
            },
        }
    }
}

impl DelayedSubscribe {
    pub fn new(request_id: u64, delay_groups: u64) -> (wait: DelayedSubscribe)
        ensures
            wait == (DelayedSubscribe { request_id, delay_groups, registered: false }),
    {
        DelayedSubscribe { request_id, delay_groups, registered: false }
    }

    /// Looks at the live edge. Once the start is known, the SUBSCRIBE's filter
    /// becomes an absolute start there, so that the cache serves the backlog;
    /// one that was held has the held ones resolved. Until then the SUBSCRIBE
    /// is entered among the held ones, once.
    pub fn look(
        &mut self,
        largest: Option<Location>,
        oldest_cached_group: Option<u64>,
        params: &mut Vec<MessageParameter>,
        holding: &mut HoldingSubscribes,
    ) -> (step: DelayStep)
        ensures
            ({
                let before = *old(self);
                match delayed_start(largest, before.delay_groups, oldest_cached_group) {
                    DelayedStart::Hold { .. } => {
                        &&& step == DelayStep::Hold
                        &&& final(params)@ == old(params)@
                        &&& *final(self) == (DelayedSubscribe { registered: true, ..before })
                        &&& final(holding)@ == if before.registered {
                            old(holding)@
                        } else {
                            old(holding)@.push(
                                PendingSubscribe {
                                    request_id: before.request_id,
                                    delay_groups: before.delay_groups,
                                },
                            )
                        }
                    },
                    DelayedStart::Ready(start) => {
                        &&& step == (DelayStep::Resolved { start, clamped: false })
                        &&& final(params)@ == with_absolute_start(old(params)@, start)
                        &&& final(holding)@ == held_after(largest, before, old(holding)@)
                        &&& *final(self) == before
                    },
                    DelayedStart::ClampedToOldest(start) => {
                        &&& step == (DelayStep::Resolved { start, clamped: true })
                        &&& final(params)@ == with_absolute_start(old(params)@, start)
                        &&& final(holding)@ == held_after(largest, before, old(holding)@)
                        &&& *final(self) == before
                    },
                }
            }),
            step.follows(
                (*old(self), old(params)@, old(holding)@),
                largest,
                oldest_cached_group,
                (*final(self), final(params)@, final(holding)@),
            ),
    {
        let (start, clamped): (Location, bool) = match compute_delayed_start(
            largest,
            self.delay_groups,
            oldest_cached_group,
        ) {
            DelayedStart::Ready(start) => (start, false),
            DelayedStart::ClampedToOldest(start) => (start, true),
            DelayedStart::Hold { delay_groups } => {
                if !self.registered {
                    holding.register(self.request_id, delay_groups);
                    self.registered = true;
                }
                return DelayStep::Hold;
            },
        };
        set_param(
            params,
            MessageParameter::new_subscription_filter(FilterType::AbsoluteStart, Some(start), None),
        );
        if self.registered {
            if let Some(largest) = largest {
                let _resolved = holding.try_resolve(largest);
            }
        }
        DelayStep::Resolved { start, clamped }
    }
}

/// The parameters of a SUBSCRIBE whose start has become known.
pub open spec fn with_absolute_start(
    params: Seq<MessageParameter>,
    start: Location,
) -> Seq<MessageParameter> {
    model::with_parameter(
        params,
        MessageParameter::SubscriptionFilter {
            filter_type: FilterType::AbsoluteStart,
            start_location: Some(start),
            end_group: None,
        },
    )
}

/// The held SUBSCRIBEs after one has become known.
pub open spec fn held_after(
    largest: Option<Location>,
    wait: DelayedSubscribe,
    held: Seq<PendingSubscribe>,
) -> Seq<PendingSubscribe> {
    match largest {
        Some(largest) => if wait.registered {
            holding_subscribes::still_held(held, largest.group)
        } else {
            held
        },
        None => held,
    }
}

/// How a SUBSCRIBE is routed.
#[derive(Debug)]
pub enum SubscribeRoute {
    /// Answer REQUEST_ERROR.
    Reject(RequestError),
    /// Answer it as a probe.
    Probe { size: usize, priority: u8 },
    /// Take it to its track.
    Track,
}

impl SubscribeRoute {
    /// Whether this is where a SUBSCRIBE goes, by whether its namespace is reserved, the
    /// name of the track and how many publish it.
    pub open spec fn follows(
        self,
        reserved: bool,
        track_name: Seq<u8>,
        publisher_count: usize,
    ) -> bool {
        match self {
            SubscribeRoute::Reject(error) => {
                &&& reserved || (probe::probe_of(track_name) is None && publisher_count == 0)
                &&& error.error_code == RequestErrorCode::DoesNotExist
            },
            SubscribeRoute::Probe { size, priority } => !reserved && probe::probe_of(track_name)
                == Some((size, priority)),
            SubscribeRoute::Track => !reserved && probe::probe_of(track_name) is None
                && publisher_count > 0,
        }
    }
}

/// Routes a SUBSCRIBE. A reserved namespace is refused and never goes upstream;
/// a probe is answered by the relay alone; a track that nobody publishes is
/// unknown.
pub fn route_subscribe(
    reserved_reason: Option<String>,
    track_name: &[u8],
    publisher_count: usize,
) -> (route: SubscribeRoute)
    ensures
        match route {
            SubscribeRoute::Reject(error) => {
                &&& error.error_code == RequestErrorCode::DoesNotExist
                &&& error.retry_interval == 0
                &&& match reserved_reason {
                    Some(reason) => error.reason@ == reason@,
                    None => {
                        &&& probe::probe_of(track_name@) is None
                        &&& publisher_count == 0
                        &&& error.reason@ == "Unknown track namespace"@
                    },
                }
            },
            SubscribeRoute::Probe { size, priority } => {
                &&& reserved_reason is None
                &&& probe::probe_of(track_name@) == Some((size, priority))
            },
            SubscribeRoute::Track => {
                &&& reserved_reason is None
                &&& probe::probe_of(track_name@) is None
                &&& publisher_count > 0
            },
        },
        route.follows(reserved_reason is Some, track_name@, publisher_count),
{
    if let Some(reason) = reserved_reason {
        return SubscribeRoute::Reject(
            RequestError::new(RequestErrorCode::DoesNotExist, reason.as_str()),
        );
    }
    if let Some((size, priority)) = parse_probe_track_name(track_name) {
        return SubscribeRoute::Probe { size, priority };
    }
    if publisher_count == 0 {
        return SubscribeRoute::Reject(
            RequestError::new(RequestErrorCode::DoesNotExist, "Unknown track namespace"),
        );
    }
    SubscribeRoute::Track
}

/// The PUBLISH_DONE status that carries an upstream error downstream. Few of the
/// two sets of codes line up; the rest is a failure like any other.
pub open spec fn done_status_for(error_code: RequestErrorCode) -> PublishDoneStatusCode {
    match error_code {
        RequestErrorCode::Unauthorized => PublishDoneStatusCode::Unauthorized,
        RequestErrorCode::GoingAway => PublishDoneStatusCode::GoingAway,
        RequestErrorCode::MalformedTrack => PublishDoneStatusCode::MalformedTrack,
        RequestErrorCode::ExcessiveLoad => PublishDoneStatusCode::ExcessiveLoad,
        RequestErrorCode::DoesNotExist => PublishDoneStatusCode::TrackEnded,
        _ => PublishDoneStatusCode::InternalError,
    }
}

/// The PUBLISH_DONE status that carries an upstream error downstream.
pub fn publish_done_status_for(error_code: RequestErrorCode) -> (status: PublishDoneStatusCode)
    ensures
        status == done_status_for(error_code),
{
    match error_code {
        RequestErrorCode::Unauthorized => PublishDoneStatusCode::Unauthorized,
        RequestErrorCode::GoingAway => PublishDoneStatusCode::GoingAway,
        RequestErrorCode::MalformedTrack => PublishDoneStatusCode::MalformedTrack,
        RequestErrorCode::ExcessiveLoad => PublishDoneStatusCode::ExcessiveLoad,
        RequestErrorCode::DoesNotExist => PublishDoneStatusCode::TrackEnded,
        _ => PublishDoneStatusCode::InternalError,
    }
}

/// What happens on the stream of an upstream SUBSCRIBE.
#[derive(Debug)]
pub enum UpstreamEvent {
    /// The last subscriber downstream has left.
    Cancelled,
    /// The time for the first answer is up.
    AnswerDeadline,
    SubscribeOk,
    RequestError(RequestError),
    PublishDone,
    /// A message that does not belong there.
    Unexpected,
    /// The stream broke.
    StreamFailed,
}

/// What to do about it.
#[derive(Debug)]
pub enum UpstreamAction {
    /// Go on reading.
    Continue,
    /// Take the acceptance, then go on reading.
    Accept,
    /// Reset the stream with CANCELLED.
    Reset,
    /// End the subscription with this error, or, where it was accepted, with
    /// this status; then reset the stream with CANCELLED.
    FailAndReset(RequestError, PublishDoneStatusCode),
    /// The same, but the stream needs no reset.
    Fail(RequestError, PublishDoneStatusCode),
    /// Wait for the publisher's streams to arrive, then hand its PUBLISH_DONE
    /// on.
    RelayDone,
}

impl UpstreamAction {
    /// Whether this is what an event on the stream calls for.
    pub open spec fn answers(self, event: UpstreamEvent, answered: bool) -> bool {
        match self {
            UpstreamAction::Continue => event is AnswerDeadline && answered,
            UpstreamAction::Accept => event is SubscribeOk,
            UpstreamAction::Reset => event is Cancelled,
            UpstreamAction::RelayDone => event is PublishDone,
            UpstreamAction::FailAndReset(error, _) => event is AnswerDeadline && !answered
                && error.error_code == RequestErrorCode::Timeout,
            UpstreamAction::Fail(error, status) => match event {
                UpstreamEvent::RequestError(e) => error == e && status == done_status_for(
                    e.error_code,
                ),
                UpstreamEvent::Unexpected => error.error_code == RequestErrorCode::InternalError
                    && status == PublishDoneStatusCode::InternalError,
                UpstreamEvent::StreamFailed => error.error_code == RequestErrorCode::InternalError
                    && status == PublishDoneStatusCode::TrackEnded,
                _ => false,
            },
        }
    }
}

/// The exchange with one publisher about one SUBSCRIBE.
///
/// A publisher owes one answer. One that stays silent would keep the subscriber
/// waiting and the other publishers' answers from being acted on, so the first
/// answer has a deadline; after that the stream lives as long as the
/// subscription does.
#[derive(Debug, Clone, Copy, PartialEq, Eq, Structural)]
pub struct UpstreamExchange {
    /// Something has come on the stream.
    pub answered: bool,
}

impl UpstreamExchange {
    pub fn new() -> (exchange: UpstreamExchange)
        ensures
            !exchange.answered,
    {
        UpstreamExchange { answered: false }
    }

    /// Takes an event and says what to do.
    pub fn step(&mut self, event: UpstreamEvent) -> (action: UpstreamAction)
        ensures
            final(self).answered == (old(self).answered || !(event is Cancelled || event is AnswerDeadline)),
            match event {
                UpstreamEvent::Cancelled => action is Reset,
                UpstreamEvent::AnswerDeadline => if old(self).answered {
                    action is Continue
                } else {
                    action matches UpstreamAction::FailAndReset(error, status) && error.error_code
                        == RequestErrorCode::Timeout && error.retry_interval == 0
                        && error.reason@ == "Publisher did not answer the subscribe"@ && status
                        == PublishDoneStatusCode::InternalError
                },
                UpstreamEvent::SubscribeOk => action is Accept,
                UpstreamEvent::RequestError(e) => action matches UpstreamAction::Fail(
                    error,
                    status,
                ) && error == e && status == done_status_for(e.error_code),
                UpstreamEvent::PublishDone => action is RelayDone,
                UpstreamEvent::Unexpected => action matches UpstreamAction::Fail(error, status)
                    && error.error_code == RequestErrorCode::InternalError && error.retry_interval
                    == 0 && error.reason@
                    == "Unexpected message on upstream subscription stream"@ && status
                    == PublishDoneStatusCode::InternalError,
                UpstreamEvent::StreamFailed => action matches UpstreamAction::Fail(error, status)
                    && error.error_code == RequestErrorCode::InternalError && error.retry_interval
                    == 0 && error.reason@ == "Upstream subscription failed"@ && status
                    == PublishDoneStatusCode::TrackEnded,
            },
            action.answers(event, old(self).answered),
    {
        match event {
            UpstreamEvent::Cancelled => {
                return UpstreamAction::Reset;
            },
            UpstreamEvent::AnswerDeadline => {
                if self.answered {
                    return UpstreamAction::Continue;
                }
                return UpstreamAction::FailAndReset(
                    RequestError::new(
                        RequestErrorCode::Timeout,
                        "Publisher did not answer the subscribe",
                    ),
                    PublishDoneStatusCode::InternalError,
                );
            },
            _ => {},
        }
        self.answered = true;
        match event {
            UpstreamEvent::SubscribeOk => UpstreamAction::Accept,
            UpstreamEvent::RequestError(error) => {
                let status: PublishDoneStatusCode = publish_done_status_for(error.error_code);
                UpstreamAction::Fail(error, status)
            },
            UpstreamEvent::PublishDone => UpstreamAction::RelayDone,
            UpstreamEvent::StreamFailed => UpstreamAction::Fail(
                RequestError::new(RequestErrorCode::InternalError, "Upstream subscription failed"),
                PublishDoneStatusCode::TrackEnded,
            ),
            _ => UpstreamAction::Fail(
                RequestError::new(
                    RequestErrorCode::InternalError,
                    "Unexpected message on upstream subscription stream",
                ),
                PublishDoneStatusCode::InternalError,
            ),
        }
    }
}

/// The error that answers a SUBSCRIBE_OK with a mandatory track property that
/// the relay does not support.
pub fn unsupported_property_error() -> (error: RequestError)
    ensures
        error.error_code == RequestErrorCode::UnsupportedExtension,
        error.retry_interval == 0,
        error.reason@ == "Unsupported mandatory track property"@,
{
    RequestError::new(
        RequestErrorCode::UnsupportedExtension,
        "Unsupported mandatory track property",
    )
}

/// A control message that this module may be handed.
#[derive(Debug, Clone, Copy, PartialEq, Eq, Structural)]
pub enum MessageKind {
    Subscribe,
    RequestUpdate,
    Switch,
    Other,
}

/// Which handler takes a message.
#[derive(Debug, Clone, Copy, PartialEq, Eq, Structural)]
pub enum Dispatch {
    Subscribe,
    /// Update the request that opened the stream.
    RequestUpdate { target_request_id: u64 },
    Switch,
    Ignore,
}

/// Dispatches a message. A REQUEST_UPDATE on a stream that no request opened is
/// a protocol violation.
pub fn handle(kind: MessageKind, opening_request_id: Option<u64>) -> (dispatch: Result<
    Dispatch,
    TerminationCode,
>)
    ensures
        dispatch == match (kind, opening_request_id) {
            (MessageKind::Subscribe, _) => Ok(Dispatch::Subscribe),
            (MessageKind::RequestUpdate, Some(id)) => Ok(
                Dispatch::RequestUpdate { target_request_id: id },
            ),
            (MessageKind::RequestUpdate, None) => Err(TerminationCode::ProtocolViolation),
            (MessageKind::Switch, _) => Ok(Dispatch::Switch),
            (MessageKind::Other, _) => Ok(Dispatch::Ignore),
        },
{
    match kind {
        MessageKind::Subscribe => Ok(Dispatch::Subscribe),
        MessageKind::RequestUpdate => match opening_request_id {
            Some(target_request_id) => Ok(Dispatch::RequestUpdate { target_request_id }),
            None => Err(TerminationCode::ProtocolViolation),
        },
        MessageKind::Switch => Ok(Dispatch::Switch),
        MessageKind::Other => Ok(Dispatch::Ignore),
    }
}

/// A delayed start never lies before the cache and never past the live edge.
pub proof fn law_delayed_start_is_in_the_cache(
    largest: Location,
    delay_groups: u64,
    oldest: Option<u64>,
)
    requires
        oldest matches Some(oldest) ==> oldest <= largest.group,
    ensures
        match delayed_start(Some(largest), delay_groups, oldest) {
            DelayedStart::Ready(start) => {
                &&& start.group + delay_groups == largest.group
                &&& oldest matches Some(oldest) ==> oldest <= start.group
            },
            DelayedStart::ClampedToOldest(start) => {
                &&& oldest == Some(start.group)
                &&& start.group <= largest.group
                &&& start.group + delay_groups > largest.group
            },
            DelayedStart::Hold { .. } => largest.group < delay_groups,
        },
{
}

/// With the live edge a delay resolves and stays resolved: once a start is known
/// for one live edge, it is known for every later one.
pub proof fn law_delay_resolves_for_good(
    earlier: Location,
    later: Location,
    delay_groups: u64,
    oldest_earlier: Option<u64>,
    oldest_later: Option<u64>,
)
    requires
        earlier.group <= later.group,
        !(delayed_start(Some(earlier), delay_groups, oldest_earlier) is Hold),
    ensures
        !(delayed_start(Some(later), delay_groups, oldest_later) is Hold),
{
}

/// A delayed SUBSCRIBE joins at its start: the subscription that it begins
/// replays the cache from there.
pub proof fn law_delayed_subscribe_joins(params: Seq<MessageParameter>, start: Location)
    ensures
        ({
            let state = crate::subscription::initial_state(
                with_absolute_start(params, start),
                true,
            );
            state.is_joining && state.start_location == Some(start) && state.end_group is None
        }),
{
    model::law_set_parameter_is_read_back(
        params,
        MessageParameter::SubscriptionFilter {
            filter_type: FilterType::AbsoluteStart,
            start_location: Some(start),
            end_group: None,
        },
    );
}

/// A delayed start is the first object of its group, whatever object the live edge
/// has come to: the start depends on the live edge's group only.
pub proof fn law_delayed_start_is_a_group_start(
    largest: Location,
    object: u64,
    delay_groups: u64,
    oldest: Option<u64>,
)
    ensures
        match delayed_start(Some(largest), delay_groups, oldest) {
            DelayedStart::Ready(start) => start.object == 0,
            DelayedStart::ClampedToOldest(start) => start.object == 0,
            DelayedStart::Hold { .. } => true,
        },
        delayed_start(Some(Location { group: largest.group, object }), delay_groups, oldest)
            == delayed_start(Some(largest), delay_groups, oldest),
{
}

/// A delayed SUBSCRIBE starts so many groups behind the live edge, or with the
/// oldest group in the cache where that is later, and waits only where the track
/// is too young or unknown.
pub proof fn law_delayed_start_is_behind_the_edge(
    largest: Option<Location>,
    delay_groups: u64,
    oldest: Option<u64>,
)
    ensures
        match delayed_start(largest, delay_groups, oldest) {
            DelayedStart::Ready(start) => largest matches Some(edge) && start.group + delay_groups
                == edge.group && (oldest matches Some(o) ==> o <= start.group),
            DelayedStart::ClampedToOldest(start) => largest matches Some(edge) && oldest == Some(
                start.group,
            ) && edge.group < start.group + delay_groups && delay_groups <= edge.group,
            DelayedStart::Hold { delay_groups: wanted } => wanted == delay_groups && (
            largest matches Some(edge) ==> edge.group < delay_groups),
        },
{
}

/// A SUBSCRIBE that gets its start asks for nothing else than before: its filter
/// is an absolute start there without an end, and no other parameter changes.
pub proof fn law_absolute_start_changes_the_filter_alone(
    params: Seq<MessageParameter>,
    start: Location,
    kind: ParameterKind,
)
    ensures
        model::first_of_kind(
            with_absolute_start(params, start),
            ParameterKind::SubscriptionFilter,
        ) == Some(
            MessageParameter::SubscriptionFilter {
                filter_type: FilterType::AbsoluteStart,
                start_location: Some(start),
                end_group: None,
            },
        ),
        kind != ParameterKind::SubscriptionFilter ==> model::first_of_kind(
            with_absolute_start(params, start),
            kind,
        ) == model::first_of_kind(params, kind),
{
    let filter = MessageParameter::SubscriptionFilter {
        filter_type: FilterType::AbsoluteStart,
        start_location: Some(start),
        end_group: None,
    };
    model::law_set_parameter_is_read_back(params, filter);
    if kind != ParameterKind::SubscriptionFilter {
        model::law_set_parameter_keeps_other_kinds(params, filter, kind);
    }
}

/// A SUBSCRIBE that never waited leaves those that wait alone; one that did wait
/// has every one resolved that is old enough.
pub proof fn law_resolution_drains_the_held(
    largest: Location,
    wait: DelayedSubscribe,
    held: Seq<PendingSubscribe>,
    p: PendingSubscribe,
)
    ensures
        !wait.registered ==> held_after(Some(largest), wait, held) == held,
        wait.registered ==> (held_after(Some(largest), wait, held).contains(p) <==> held.contains(p)
            && largest.group < p.delay_groups),
{
    holding_subscribes::law_the_young_are_held(held, largest.group, p);
}

/// Those errors that a PUBLISH_DONE can name are named, a track that does not
/// exist has ended, and any other error is internal.
pub proof fn law_errors_keep_their_meaning_downstream(code: RequestErrorCode)
    ensures
        done_status_for(code) == PublishDoneStatusCode::Unauthorized <==> code
            == RequestErrorCode::Unauthorized,
        done_status_for(code) == PublishDoneStatusCode::GoingAway <==> code
            == RequestErrorCode::GoingAway,
        done_status_for(code) == PublishDoneStatusCode::MalformedTrack <==> code
            == RequestErrorCode::MalformedTrack,
        done_status_for(code) == PublishDoneStatusCode::ExcessiveLoad <==> code
            == RequestErrorCode::ExcessiveLoad,
        done_status_for(code) == PublishDoneStatusCode::TrackEnded <==> code
            == RequestErrorCode::DoesNotExist,
        done_status_for(code) == PublishDoneStatusCode::InternalError <==> !(code
            == RequestErrorCode::Unauthorized || code == RequestErrorCode::GoingAway || code
            == RequestErrorCode::MalformedTrack || code == RequestErrorCode::ExcessiveLoad || code
            == RequestErrorCode::DoesNotExist),
{
}

/// A reserved namespace is always refused. Otherwise a probe is answered whether or not
/// anybody publishes, and a track goes on exactly where somebody does.
pub proof fn law_reserved_names_never_go_upstream(
    route: SubscribeRoute,
    reserved: bool,
    track_name: Seq<u8>,
    publisher_count: usize,
)
    requires
        route.follows(reserved, track_name, publisher_count),
    ensures
        reserved ==> route is Reject,
        !reserved ==> (route is Probe <==> probe::probe_of(track_name) is Some),
        !reserved && probe::probe_of(track_name) is None ==> (route is Track <==> publisher_count
            > 0),
        route matches SubscribeRoute::Reject(error) ==> error.error_code
            == RequestErrorCode::DoesNotExist,
        route matches SubscribeRoute::Probe { size, priority } ==> probe::probe_of(track_name)
            == Some((size, priority)),
{
}

/// A publisher that is silent fails at the deadline, and one that has answered does not.
/// An acceptance is taken, an error is handed on as it came, and only the deadline and a
/// cancellation reset the stream.
pub proof fn law_silence_fails_only_at_the_deadline(
    action: UpstreamAction,
    event: UpstreamEvent,
    answered: bool,
)
    requires
        action.answers(event, answered),
    ensures
        action is FailAndReset <==> event is AnswerDeadline && !answered,
        action is Continue <==> event is AnswerDeadline && answered,
        action is Accept <==> event is SubscribeOk,
        action is Reset <==> event is Cancelled,
        action is RelayDone <==> event is PublishDone,
        action is Fail <==> event is RequestError || event is Unexpected || event is StreamFailed,
        event matches UpstreamEvent::RequestError(e) ==> (action matches UpstreamAction::Fail(
            error,
            status,
        ) && error == e && status == done_status_for(e.error_code)),
        event is StreamFailed ==> (action matches UpstreamAction::Fail(_, status) && status
            == PublishDoneStatusCode::TrackEnded),
{
}

/// A delayed SUBSCRIBE is held exactly while the live edge is not far enough, and is
/// entered among the held ones once, with its own delay. When it resolves it asks for the
/// start that was found, which is the first object of a group.
pub proof fn law_delayed_subscribe_is_held_once(
    step: DelayStep,
    before: (DelayedSubscribe, Seq<MessageParameter>, Seq<PendingSubscribe>),
    largest: Option<Location>,
    oldest_cached_group: Option<u64>,
    after: (DelayedSubscribe, Seq<MessageParameter>, Seq<PendingSubscribe>),
)
    requires
        step.follows(before, largest, oldest_cached_group, after),
    ensures
        step is Hold <==> (largest matches Some(edge) ==> edge.group < before.0.delay_groups),
        after.0.request_id == before.0.request_id,
        after.0.delay_groups == before.0.delay_groups,
        step is Hold ==> after.0.registered && after.1 == before.1,
        step is Hold && before.0.registered ==> after.2 == before.2,
        step is Hold && !before.0.registered ==> after.2.len() == before.2.len() + 1
            && after.2.last().request_id == before.0.request_id && after.2.last().delay_groups
            == before.0.delay_groups,
        step matches DelayStep::Resolved { start, clamped } ==> {
            &&& start.object == 0
            &&& clamped ==> oldest_cached_group == Some(start.group)
            &&& !clamped ==> (largest matches Some(edge) && start.group + before.0.delay_groups
                == edge.group)
            &&& model::first_of_kind(after.1, model::ParameterKind::SubscriptionFilter) == Some(
                MessageParameter::SubscriptionFilter {
                    filter_type: FilterType::AbsoluteStart,
                    start_location: Some(start),
                    end_group: None,
                },
            )
            &&& !before.0.registered ==> after.2 == before.2
        },
{
    law_delayed_start_is_behind_the_edge(largest, before.0.delay_groups, oldest_cached_group);
    if step is Resolved {
        let start = step->start;
        model::law_set_parameter_is_read_back(
            before.1,
            MessageParameter::SubscriptionFilter {
                filter_type: FilterType::AbsoluteStart,
                start_location: Some(start),
                end_group: None,
            },
        );
    }
}

} // verus!
