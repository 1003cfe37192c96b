//! What the relay keeps of one track: who serves it, who subscribes to it, and
//! who still waits for an answer.
//!
//! A request stream takes exactly one response. The record sees to that: whoever
//! waits is answered when the first publisher accepts or the last one declines,
//! and never again.

use crate::messages::RequestError;
use crate::model::MessageParameter;
use crate::status::{PublishDoneStatusCode, RequestErrorCode};
use std::collections::{HashMap, HashSet};
use vstd::prelude::*;

verus! {

/// How a track came to be known to the relay.
#[derive(Debug, Clone, Copy, PartialEq, Eq, Structural)]
pub enum TrackOrigin {
    /// A subscriber asked for it.
    Subscribe,
    /// A publisher pushes it.
    Publish,
}

/// Whether a track's publisher has answered.
#[derive(Debug)]
pub enum TrackStatus {
    Pending,
    Confirmed { upstream_parameters: Vec<MessageParameter> },
    Rejected { error_code: RequestErrorCode, reason: String },
}

/// What a [`TrackStatus`] stands for.
#[verifier::ext_equal]
pub enum StatusView {
    Pending,
    Confirmed { upstream_parameters: Seq<MessageParameter> },
    Rejected { error_code: RequestErrorCode, reason: Seq<char> },
}

impl View for TrackStatus {
    type V = StatusView;

    open spec fn view(&self) -> StatusView {
        match *self {
            TrackStatus::Pending => StatusView::Pending,
            TrackStatus::Confirmed { upstream_parameters } => StatusView::Confirmed {
                upstream_parameters: upstream_parameters@,
            },
            TrackStatus::Rejected { error_code, reason } => StatusView::Rejected {
                error_code,
                reason: reason@,
            },
        }
    }
}

/// A request of a connection that waits for its answer.
#[derive(Debug, Clone, Copy, PartialEq, Eq, Structural)]
pub struct Waiter {
    pub request_id: u64,
    pub connection_id: u64,
}

/// One track of the relay.
#[derive(Debug)]
pub struct TrackRecord {
    relay_track_id: u64,
    origin: TrackOrigin,
    status: TrackStatus,
    pending_subscribers: Vec<Waiter>,
    publisher_aliases: HashMap<u64, u64>,
    pending_upstream_subscribe_count: u64,
    subscribers: HashSet<u64>,
}

/// What a [`TrackRecord`] stands for.
#[verifier::ext_equal]
pub struct TrackView {
    pub relay_track_id: u64,
    pub origin: TrackOrigin,
    pub status: StatusView,
    /// The requests that wait beside the one that created the track.
    pub pending: Seq<Waiter>,
    /// The publishers that serve the track, by connection, with their alias.
    pub publishers: Map<u64, u64>,
    /// How many publishers have not answered yet.
    pub unanswered: u64,
    /// The connections that subscribe to the track.
    pub subscribers: Set<u64>,
}

impl View for TrackRecord {
    type V = TrackView;

    closed spec fn view(&self) -> TrackView {
        TrackView {
            relay_track_id: self.relay_track_id,
            origin: self.origin,
            status: self.status@,
            pending: self.pending_subscribers@,
            publishers: self.publisher_aliases@,
            unanswered: self.pending_upstream_subscribe_count,
            subscribers: self.subscribers@,
        }
    }
}

/// What happens to a SUBSCRIBE.
#[derive(Debug)]
pub enum SubscribeAnswer {
    /// The connection subscribes already.
    Duplicate(RequestError),
    /// It created the track: forward it to every publisher and answer later.
    ForwardUpstream,
    /// The track is confirmed: answer SUBSCRIBE_OK.
    Accept,
    /// The track is not confirmed yet: answer later.
    Wait,
    /// The track was rejected: answer with the same error.
    Refuse(RequestError),
}

impl SubscribeAnswer {
    /// The answer to a SUBSCRIBE of a connection for a track.
    pub open spec fn answers(
        self,
        track: TrackView,
        connection_id: u64,
        is_creator: bool,
        is_switch: bool,
    ) -> bool {
        if track.is_duplicate(connection_id, is_switch) {
            &&& self matches SubscribeAnswer::Duplicate(error)
            &&& error.error_code == RequestErrorCode::DuplicateSubscription
            &&& error.retry_interval == 0
            &&& error.reason@ == "already subscribed to this track"@
        } else if is_creator {
            self is ForwardUpstream
        } else {
            match track.status {
                StatusView::Confirmed { .. } => self is Accept,
                StatusView::Pending => self is Wait,
                StatusView::Rejected { error_code, reason } => {
                    &&& self matches SubscribeAnswer::Refuse(error)
                    &&& error.error_code == error_code
                    &&& error.retry_interval == 0
                    &&& error.reason@ == reason
                },
            }
        }
    }
}

/// What happens when a publisher declines or fails.
#[derive(Debug)]
pub enum UpstreamFailure {
    /// Others have yet to answer: the subscribers wait on.
    OthersMayAccept,
    /// The last publisher has declined: answer these requests with the error,
    /// and forget the track.
    Reject { recipients: Vec<Waiter> },
    /// Another publisher still serves the track.
    StillServed,
    /// No publisher is left: end the accepted subscriptions with PUBLISH_DONE.
    EndDownstream { status_code: PublishDoneStatusCode, reason: String },
}

/// What happens when a subscriber leaves.
#[derive(Debug, Clone, Copy, PartialEq, Eq, Structural)]
pub struct Departure {
    /// Nobody is left: cancel the subscriptions upstream.
    pub cancel_upstream: bool,
    /// Forget the track: its upstream subscription is gone, so what is cached
    /// of it grows stale. A track that a publisher pushes stays.
    pub remove_track: bool,
}

/// One less, wrapping at zero.
pub open spec fn one_less(count: u64) -> u64 {
    if count == 0 {
        u64::MAX
    } else {
        (count - 1) as u64
    }
}

impl UpstreamFailure {
    /// Whether this is the outcome of losing a publisher, which took the track from
    /// `before` to `after`.
    pub open spec fn follows(
        self,
        before: TrackView,
        publisher: u64,
        error: RequestError,
        status_code: PublishDoneStatusCode,
        creator: Waiter,
        after: TrackView,
    ) -> bool {
        match self {
            UpstreamFailure::OthersMayAccept => after == before.after_decline() && !(
            before.status is Confirmed) && !before.failure_rejects(),
            UpstreamFailure::Reject { recipients } => {
                &&& before.failure_rejects()
                &&& recipients@ == before.waiting(creator)
                &&& after == before.after_decline().after_reject(error.error_code, error.reason@)
            },
            UpstreamFailure::StillServed => {
                &&& before.status is Confirmed
                &&& after == before.after_loss(publisher)
                &&& exists|other: u64| #[trigger] after.publishers.contains_key(other)
            },
            UpstreamFailure::EndDownstream { status_code: code, reason } => {
                &&& before.status is Confirmed
                &&& after == before.after_loss(publisher)
                &&& forall|other: u64| !#[trigger] after.publishers.contains_key(other)
                &&& code == status_code
                &&& reason@ == error.reason@
            },
        }
    }
}

impl Departure {
    /// Whether this is what a subscriber's leaving asks for, where it took the track
    /// from `before` to `after`.
    pub open spec fn follows(
        self,
        before: TrackView,
        connection_id: u64,
        after: TrackView,
    ) -> bool {
        let deserted = forall|other: u64| !#[trigger] after.subscribers.contains(other);
        &&& after == before.left_by(connection_id)
        &&& self.cancel_upstream == deserted
        &&& self.remove_track == (deserted && before.origin == TrackOrigin::Subscribe)
    }
}

impl TrackView {
    /// The track without one subscriber.
    pub open spec fn left_by(self, connection_id: u64) -> TrackView {
        TrackView { subscribers: self.subscribers.remove(connection_id), ..self }
    }

    /// The track after a publisher that served it is gone.
    pub open spec fn after_loss(self, publisher: u64) -> TrackView {
        TrackView { publishers: self.publishers.remove(publisher), ..self.after_decline() }
    }

    /// A track as it is created.
    pub open spec fn created(relay_track_id: u64, origin: TrackOrigin) -> TrackView {
        TrackView {
            relay_track_id,
            origin,
            status: StatusView::Pending,
            pending: Seq::empty(),
            publishers: Map::empty(),
            unanswered: 0,
            subscribers: Set::empty(),
        }
    }

    /// The connection may not subscribe: it does already, and this is no switch.
    pub open spec fn is_duplicate(self, connection_id: u64, is_switch: bool) -> bool {
        self.subscribers.contains(connection_id) && !is_switch
    }

    /// The track after a SUBSCRIBE. The request that created it counts the
    /// publishers; another one waits while the track is not answered.
    pub open spec fn joined(
        self,
        waiter: Waiter,
        is_creator: bool,
        is_switch: bool,
        publisher_count: u64,
    ) -> TrackView {
        let subscribed = TrackView {
            subscribers: self.subscribers.insert(waiter.connection_id),
            ..self
        };
        if self.is_duplicate(waiter.connection_id, is_switch) {
            self
        } else if is_creator {
            TrackView { unanswered: publisher_count, ..subscribed }
        } else if self.status is Pending {
            TrackView { pending: self.pending.push(waiter), ..subscribed }
        } else {
            subscribed
        }
    }

    /// Everyone who waits for the answer: the request that created the track,
    /// then the others in the order in which they came.
    pub open spec fn waiting(self, creator: Waiter) -> Seq<Waiter> {
        seq![creator] + self.pending
    }

    /// Whom a publisher's acceptance answers: the first one everyone who waits,
    /// a later one nobody.
    pub open spec fn ok_recipients(self, creator: Waiter) -> Seq<Waiter> {
        if self.status is Pending {
            self.waiting(creator)
        } else {
            Seq::empty()
        }
    }

    /// The track after a publisher has accepted.
    pub open spec fn after_ok(
        self,
        publisher: u64,
        track_alias: u64,
        upstream_parameters: Seq<MessageParameter>,
    ) -> TrackView {
        let served = TrackView {
            publishers: self.publishers.insert(publisher, track_alias),
            unanswered: one_less(self.unanswered),
            ..self
        };
        if self.status is Pending {
            TrackView {
                status: StatusView::Confirmed { upstream_parameters },
                pending: Seq::empty(),
                ..served
            }
        } else {
            served
        }
    }

    /// The track after one more publisher has declined, others being left.
    pub open spec fn after_decline(self) -> TrackView {
        TrackView { unanswered: one_less(self.unanswered), ..self }
    }

    /// A publisher's failure now would answer those who wait with an error.
    pub open spec fn failure_rejects(self) -> bool {
        !(self.status is Confirmed) && self.unanswered <= 1
    }

    /// The track after it has been rejected.
    pub open spec fn after_reject(self, error_code: RequestErrorCode, reason: Seq<char>) -> TrackView {
        TrackView {
            status: StatusView::Rejected { error_code, reason },
            pending: Seq::empty(),
            ..self
        }
    }
}

impl TrackRecord {
    pub fn new(relay_track_id: u64, origin: TrackOrigin) -> (track: TrackRecord)
        ensures
            track@ == TrackView::created(relay_track_id, origin),
    {
        TrackRecord {
            relay_track_id,
            origin,
            status: TrackStatus::Pending,
            pending_subscribers: Vec::new(),
            publisher_aliases: HashMap::new(),
            pending_upstream_subscribe_count: 0,
            subscribers: HashSet::new(),
        }
    }

    pub fn relay_track_id(&self) -> (id: u64)
        ensures
            id == self@.relay_track_id,
    {
        self.relay_track_id
    }

    pub fn status(&self) -> (status: &TrackStatus)
        ensures
            status@ == self@.status,
    {
        &self.status
    }

    /// Whether a connection has a live subscription on the track.
    pub fn has_subscription(&self, connection_id: u64) -> (live: bool)
        ensures
            live == self@.subscribers.contains(connection_id),
    {
        broadcast use vstd::std_specs::hash::group_hash_axioms;

        self.subscribers.contains(&connection_id)
    }

    /// Takes a SUBSCRIBE. A connection holds one subscription per track; a
    /// switch is the exception and reuses the one that is there. The request
    /// that created the track goes to all `publisher_count` publishers, which
    /// are counted before any of them can answer.
    pub fn subscribe(
        &mut self,
        waiter: Waiter,
        is_creator: bool,
        is_switch: bool,
        publisher_count: u64,
    ) -> (answer: SubscribeAnswer)
        ensures
            final(self)@ == old(self)@.joined(waiter, is_creator, is_switch, publisher_count),
            answer.answers(old(self)@, waiter.connection_id, is_creator, is_switch),
    {
        broadcast use vstd::std_specs::hash::group_hash_axioms;

        if self.subscribers.contains(&waiter.connection_id) && !is_switch {
            return SubscribeAnswer::Duplicate(
                RequestError::new(
                    RequestErrorCode::DuplicateSubscription,
                    "already subscribed to this track",
                ),
            );
        }
        let ghost before = self@;
        self.subscribers.insert(waiter.connection_id);
        if is_creator {
            self.pending_upstream_subscribe_count = publisher_count;
            return SubscribeAnswer::ForwardUpstream;
        }
        match &self.status {
            TrackStatus::Confirmed { .. } => SubscribeAnswer::Accept,
            TrackStatus::Pending => {
                self.pending_subscribers.push(waiter);
                SubscribeAnswer::Wait
            },
            TrackStatus::Rejected { error_code, reason } => SubscribeAnswer::Refuse(
                RequestError::new(*error_code, reason.as_str()),
            ),
        }
    }

    /// Takes a publisher's SUBSCRIBE_OK and returns the requests to answer with
    /// SUBSCRIBE_OK. Every publisher that accepts serves the track; only the
    /// first one confirms it, and only then is anyone answered.
    pub fn subscribe_ok(
        &mut self,
        publisher: u64,
        track_alias: u64,
        upstream_parameters: Vec<MessageParameter>,
        creator: Waiter,
    ) -> (recipients: Vec<Waiter>)
        ensures
            recipients@ == old(self)@.ok_recipients(creator),
            final(self)@ == old(self)@.after_ok(publisher, track_alias, upstream_parameters@),
    {
        broadcast use vstd::std_specs::hash::group_hash_axioms;

        self.publisher_aliases.insert(publisher, track_alias);
        self.pending_upstream_subscribe_count =
            self.pending_upstream_subscribe_count.wrapping_sub(1);
        let confirmed_now: bool = match &self.status {
            TrackStatus::Pending => true,
            _ => false,
        };
        if !confirmed_now {
            return Vec::new();
        }
        self.status = TrackStatus::Confirmed { upstream_parameters };
        self.take_waiting(creator)
    }

    /// Takes out everyone who waits.
    fn take_waiting(&mut self, creator: Waiter) -> (recipients: Vec<Waiter>)
        ensures
            recipients@ == old(self)@.waiting(creator),
            final(self)@ == (TrackView { pending: Seq::empty(), ..old(self)@ }),
    {
        let ghost before = self.pending_subscribers@;
        let mut waiting: Vec<Waiter> = Vec::new();
        std::mem::swap(&mut waiting, &mut self.pending_subscribers);
        let mut recipients: Vec<Waiter> = Vec::new();
        recipients.push(creator);
        recipients.append(&mut waiting);
        proof {
            assert(recipients@ =~= seq![creator] + before);
        }
        recipients
    }

    /// Rejects the track and returns the requests to answer with the error.
    pub fn reject(&mut self, error: &RequestError, creator: Waiter) -> (recipients: Vec<Waiter>)
        ensures
            recipients@ == old(self)@.waiting(creator),
            final(self)@ == old(self)@.after_reject(error.error_code, error.reason@),
    {
        self.status = TrackStatus::Rejected {
            error_code: error.error_code,
            reason: error.reason.clone(),
        };
        self.take_waiting(creator)
    }

    /// Takes the failure of a publisher's subscription.
    ///
    /// Which message ends a downstream subscription depends on how far it got:
    /// one that still waits is answered with the error, but only when no other
    /// publisher may still accept; one that was accepted has had its response,
    /// and only PUBLISH_DONE can end it, when no other publisher serves the
    /// track.
    pub fn upstream_failed(
        &mut self,
        publisher: u64,
        error: &RequestError,
        status_code: PublishDoneStatusCode,
        creator: Waiter,
    ) -> (outcome: UpstreamFailure)
        ensures
            ({
                let before = old(self)@;
                let counted = before.after_decline();
                let dropped = TrackView {
                    publishers: before.publishers.remove(publisher),
                    ..counted
                };
                match outcome {
                    UpstreamFailure::OthersMayAccept => {
                        &&& !(before.status is Confirmed)
                        &&& !before.failure_rejects()
                        &&& final(self)@ == counted
                    },
                    UpstreamFailure::Reject { recipients } => {
                        &&& before.failure_rejects()
                        &&& recipients@ == before.waiting(creator)
                        &&& final(self)@ == counted.after_reject(error.error_code, error.reason@)
                    },
                    UpstreamFailure::StillServed => {
                        &&& before.status is Confirmed
                        &&& exists|other: u64| #[trigger] before.publishers.remove(
                            publisher,
                        ).contains_key(other)
                        &&& final(self)@ == dropped
                    },
                    UpstreamFailure::EndDownstream { status_code: code, reason } => {
                        &&& before.status is Confirmed
                        &&& forall|other: u64| !#[trigger] before.publishers.remove(
                            publisher,
                        ).contains_key(other)
                        &&& code == status_code
                        &&& reason@ == error.reason@
                        &&& final(self)@ == dropped
                    },
                }
            }),
            outcome.follows(old(self)@, publisher, *error, status_code, creator, final(self)@),
    {
        broadcast use vstd::std_specs::hash::group_hash_axioms;

        let others_may_still_accept: bool = self.pending_upstream_subscribe_count > 1;
        self.pending_upstream_subscribe_count =
            self.pending_upstream_subscribe_count.wrapping_sub(1);
        let confirmed: bool = match &self.status {
            TrackStatus::Confirmed { .. } => true,
            _ => false,
        };
        if !confirmed {
            if others_may_still_accept {
                return UpstreamFailure::OthersMayAccept;
            }
            let recipients: Vec<Waiter> = self.reject(error, creator);
            return UpstreamFailure::Reject { recipients };
        }
        self.publisher_aliases.remove(&publisher);
        if !self.publisher_aliases.is_empty() {
            proof {
                let map = self.publisher_aliases@;
                assert(exists|other: u64| #[trigger] map.contains_key(other)) by {
                    if forall|other: u64| !#[trigger] map.contains_key(other) {
                        assert(map.dom() =~= Set::empty());
                    }
                }
            }
            return UpstreamFailure::StillServed;
        }
        UpstreamFailure::EndDownstream { status_code, reason: error.reason.clone() }
    }

    /// Whether a publisher's failure now would answer those who wait with an
    /// error.
    pub fn would_reject(&self) -> (rejects: bool)
        ensures
            rejects == self@.failure_rejects(),
    {
        match &self.status {
            TrackStatus::Confirmed { .. } => false,
            _ => self.pending_upstream_subscribe_count <= 1,
        }
    }

    /// Counts one more publisher that has declined.
    pub fn count_decline(&mut self)
        ensures
            final(self)@ == old(self)@.after_decline(),
    {
        self.pending_upstream_subscribe_count =
            self.pending_upstream_subscribe_count.wrapping_sub(1);
    }

    /// Takes a subscriber's departure.
    pub fn unsubscribe(&mut self, connection_id: u64) -> (departure: Departure)
        ensures
            final(self)@ == (TrackView {
                subscribers: old(self)@.subscribers.remove(connection_id),
                ..old(self)@
            }),
            departure.cancel_upstream <==> forall|other: u64|
                !#[trigger] final(self)@.subscribers.contains(other),
            departure.remove_track <==> departure.cancel_upstream && old(self)@.origin
                == TrackOrigin::Subscribe,
            departure.follows(old(self)@, connection_id, final(self)@),
    {
        broadcast use vstd::std_specs::hash::group_hash_axioms;

        self.subscribers.remove(&connection_id);
        let last: bool = self.subscribers.is_empty();
        proof {
            let left = self@.subscribers;
            if last {
                assert(left =~= Set::empty());
                assert(forall|other: u64| !#[trigger] left.contains(other));
            } else {
                let other = choose|other: u64| left.contains(other);
                assert(left.contains(other)) by {
                    if forall|other: u64| !#[trigger] left.contains(other) {
                        assert(left =~= Set::empty());
                    }
                }
            }
        }
        Departure {
            cancel_upstream: last,
            remove_track: last && self.origin == TrackOrigin::Subscribe,
        }
    }
}

/// A request stream takes one response: once the track is confirmed, no later
/// acceptance answers anyone, and no failure answers anyone with an error.
pub proof fn law_confirmed_track_answers_nobody(
    track: TrackView,
    publisher: u64,
    track_alias: u64,
    parameters: Seq<MessageParameter>,
    creator: Waiter,
)
    requires
        track.status is Confirmed,
    ensures
        track.ok_recipients(creator).len() == 0,
        !track.failure_rejects(),
        track.after_ok(publisher, track_alias, parameters).status == track.status,
{
}

/// The first acceptance answers everyone who waits and leaves nobody waiting.
pub proof fn law_first_acceptance_answers_everyone(
    track: TrackView,
    publisher: u64,
    track_alias: u64,
    parameters: Seq<MessageParameter>,
    creator: Waiter,
    waiter: Waiter,
)
    requires
        track.status is Pending,
    ensures
        track.ok_recipients(creator).contains(creator),
        track.pending.contains(waiter) ==> track.ok_recipients(creator).contains(waiter),
        track.after_ok(publisher, track_alias, parameters).pending.len() == 0,
        track.after_ok(publisher, track_alias, parameters).status is Confirmed,
{
    let all = track.waiting(creator);
    assert(all[0] == creator);
    if track.pending.contains(waiter) {
        let i = choose|i: int| 0 <= i < track.pending.len() && track.pending[i] == waiter;
        assert(all[i + 1] == waiter);
    }
}

/// The track after `declined` publishers have declined.
pub open spec fn after_declines(track: TrackView, declined: nat) -> TrackView
    decreases declined,
{
    if declined == 0 {
        track
    } else {
        after_declines(track, (declined - 1) as nat).after_decline()
    }
}

/// Of several publishers that all decline, exactly the last one makes the
/// subscribers hear of it.
pub proof fn law_last_decline_decides(track: TrackView, declined: nat)
    requires
        track.status is Pending,
        declined < track.unanswered,
    ensures
        after_declines(track, declined).failure_rejects() <==> declined + 1 == track.unanswered,
{
    lemma_declines_count_down(track, declined);
}

proof fn lemma_declines_count_down(track: TrackView, declined: nat)
    requires
        declined <= track.unanswered,
    ensures
        after_declines(track, declined) == (TrackView {
            unanswered: (track.unanswered - declined) as u64,
            ..track
        }),
    decreases declined,
{
    if declined > 0 {
        lemma_declines_count_down(track, (declined - 1) as nat);
    }
}

/// A new track is pending, and nobody serves it, waits for it or subscribes to it.
pub proof fn law_a_track_begins_pending(
    relay_track_id: u64,
    origin: TrackOrigin,
    connection_id: u64,
)
    ensures
        ({
            let track = TrackView::created(relay_track_id, origin);
            &&& track.relay_track_id == relay_track_id
            &&& track.origin == origin
            &&& track.status is Pending
            &&& track.pending.len() == 0
            &&& !track.publishers.contains_key(connection_id)
            &&& track.unanswered == 0
            &&& !track.subscribers.contains(connection_id)
        }),
{
}

/// Whoever subscribes is a subscriber afterwards. Nobody else comes or goes, and the
/// track's identity, status and publishers stay.
pub proof fn law_joining_adds_one_subscriber(
    track: TrackView,
    waiter: Waiter,
    is_creator: bool,
    is_switch: bool,
    publisher_count: u64,
    other: u64,
)
    ensures
        ({
            let after = track.joined(waiter, is_creator, is_switch, publisher_count);
            &&& after.subscribers.contains(waiter.connection_id)
            &&& other != waiter.connection_id ==> after.subscribers.contains(other)
                == track.subscribers.contains(other)
            &&& after.relay_track_id == track.relay_track_id
            &&& after.origin == track.origin
            &&& after.status == track.status
            &&& after.publishers == track.publishers
        }),
{
}

/// The one who created the track counts its publishers and waits in no list. Any other
/// waits at the end of the list while the track is pending, and only then. A second
/// subscription of a connection changes nothing, unless it is a switch.
pub proof fn law_joining_waits_while_pending(
    track: TrackView,
    waiter: Waiter,
    is_creator: bool,
    is_switch: bool,
    publisher_count: u64,
    i: int,
)
    ensures
        ({
            let after = track.joined(waiter, is_creator, is_switch, publisher_count);
            let refused = track.subscribers.contains(waiter.connection_id) && !is_switch;
            let waits = !refused && !is_creator && track.status is Pending;
            &&& refused ==> after == track
            &&& after.unanswered == if !refused && is_creator {
                publisher_count
            } else {
                track.unanswered
            }
            &&& after.pending.len() == track.pending.len() + if waits {
                1int
            } else {
                0int
            }
            &&& 0 <= i < track.pending.len() ==> after.pending[i] == track.pending[i]
            &&& waits ==> after.pending[track.pending.len() as int] == waiter
        }),
{
}

/// The answer to a SUBSCRIBE says which case it was: a duplicate is refused, the
/// creator's goes upstream, and any other is answered as the track stands, a rejected
/// one with the error that rejected it.
pub proof fn law_answer_tells_the_case(
    answer: SubscribeAnswer,
    track: TrackView,
    connection_id: u64,
    is_creator: bool,
    is_switch: bool,
)
    requires
        answer.answers(track, connection_id, is_creator, is_switch),
    ensures
        ({
            let refused = track.subscribers.contains(connection_id) && !is_switch;
            &&& answer is Duplicate <==> refused
            &&& answer is ForwardUpstream <==> !refused && is_creator
            &&& answer is Accept <==> !refused && !is_creator && track.status is Confirmed
            &&& answer is Wait <==> !refused && !is_creator && track.status is Pending
            &&& answer is Refuse <==> !refused && !is_creator && track.status is Rejected
        }),
        answer matches SubscribeAnswer::Duplicate(error) ==> error.error_code
            == RequestErrorCode::DuplicateSubscription && error.retry_interval == 0
            && error.reason@ == "already subscribed to this track"@,
        answer matches SubscribeAnswer::Refuse(error) ==> track.status == (
        StatusView::Rejected { error_code: error.error_code, reason: error.reason@ })
            && error.retry_interval == 0,
{
}

/// An acceptance is announced to the creator first and then to the others in the order
/// in which they came.
pub proof fn law_recipients_are_in_order(track: TrackView, creator: Waiter, i: int)
    requires
        track.status is Pending,
    ensures
        track.ok_recipients(creator).len() == track.pending.len() + 1,
        track.ok_recipients(creator)[0] == creator,
        0 <= i < track.pending.len() ==> track.ok_recipients(creator)[i + 1]
            == track.pending[i],
        track.waiting(creator) == track.ok_recipients(creator),
{
}

/// Whoever is turned down is told in that order too, whatever the track's status.
pub proof fn law_everyone_who_waits_is_told(track: TrackView, creator: Waiter, i: int)
    ensures
        track.waiting(creator).len() == track.pending.len() + 1,
        track.waiting(creator)[0] == creator,
        0 <= i < track.pending.len() ==> track.waiting(creator)[i + 1] == track.pending[i],
{
}

/// An acceptance enters the publisher with its alias, keeps the other publishers and the
/// subscribers, and answers one request. The first one decides the track's parameters;
/// a later one does not change them.
pub proof fn law_acceptance_enters_the_publisher(
    track: TrackView,
    publisher: u64,
    track_alias: u64,
    parameters: Seq<MessageParameter>,
    other: u64,
)
    ensures
        ({
            let after = track.after_ok(publisher, track_alias, parameters);
            &&& after.publishers.contains_key(publisher)
            &&& after.publishers[publisher] == track_alias
            &&& other != publisher ==> (after.publishers.contains_key(other)
                <==> track.publishers.contains_key(other))
            &&& other != publisher && track.publishers.contains_key(other)
                ==> after.publishers[other] == track.publishers[other]
            &&& track.unanswered > 0 ==> after.unanswered + 1 == track.unanswered
            &&& track.status is Pending ==> after.status == (StatusView::Confirmed {
                upstream_parameters: parameters,
            })
            &&& track.status is Pending ==> after.pending.len() == 0
            &&& !(track.status is Pending) ==> after.status == track.status && after.pending
                == track.pending
            &&& after.subscribers == track.subscribers
            &&& after.relay_track_id == track.relay_track_id
            &&& after.origin == track.origin
        }),
{
}

/// A decline counts one answer, wrapping below none, and changes nothing else.
pub proof fn law_decline_counts_one(track: TrackView)
    ensures
        track.unanswered > 0 ==> track.after_decline().unanswered + 1 == track.unanswered,
        track.unanswered == 0 ==> track.after_decline().unanswered == u64::MAX,
        track.after_decline().status == track.status,
        track.after_decline().pending == track.pending,
        track.after_decline().publishers == track.publishers,
        track.after_decline().subscribers == track.subscribers,
        track.after_decline().origin == track.origin,
        track.after_decline().relay_track_id == track.relay_track_id,
{
}

/// A rejected track keeps the error, and nobody waits for it any longer.
pub proof fn law_rejection_is_kept(
    track: TrackView,
    error_code: RequestErrorCode,
    reason: Seq<char>,
)
    ensures
        ({
            let after = track.after_reject(error_code, reason);
            &&& after.status == (StatusView::Rejected { error_code, reason })
            &&& after.pending.len() == 0
            &&& after.subscribers == track.subscribers
            &&& after.publishers == track.publishers
            &&& after.unanswered == track.unanswered
            &&& after.origin == track.origin
            &&& after.relay_track_id == track.relay_track_id
        }),
{
}

/// A failure rejects a track that was never confirmed when no other request is open, and
/// then every one who waits is told. A confirmed track is never rejected: it goes on
/// while another publisher serves it and ends downstream when none does.
pub proof fn law_failure_spares_a_served_track(
    outcome: UpstreamFailure,
    before: TrackView,
    publisher: u64,
    other: u64,
    error: RequestError,
    status_code: PublishDoneStatusCode,
    creator: Waiter,
    after: TrackView,
)
    requires
        outcome.follows(before, publisher, error, status_code, creator, after),
    ensures
        outcome is Reject <==> !(before.status is Confirmed) && before.unanswered <= 1,
        outcome is OthersMayAccept <==> !(before.status is Confirmed) && before.unanswered > 1,
        before.status is Confirmed && other != publisher && before.publishers.contains_key(
            other,
        ) ==> outcome is StillServed && after.publishers.contains_key(other)
            && after.publishers[other] == before.publishers[other],
        before.status is Confirmed ==> after.status == before.status
            && !after.publishers.contains_key(publisher),
        outcome matches UpstreamFailure::Reject { recipients } ==> recipients@.contains(creator)
            && after.pending.len() == 0 && after.status == (StatusView::Rejected {
            error_code: error.error_code,
            reason: error.reason@,
        }),
        outcome matches UpstreamFailure::EndDownstream { status_code: code, reason }
            ==> code == status_code && reason@ == error.reason@ && (
        before.publishers.contains_key(other) ==> other == publisher),
        after.subscribers == before.subscribers,
        before.unanswered > 0 ==> after.unanswered + 1 == before.unanswered,
{
    if outcome is Reject {
        assert(before.waiting(creator)[0] == creator);
    }
    if before.status is Confirmed && other != publisher && before.publishers.contains_key(other) {
        assert(before.after_loss(publisher).publishers.contains_key(other));
    }
    if outcome is EndDownstream && before.publishers.contains_key(other) && other != publisher {
        assert(after.publishers.contains_key(other));
    }
}

/// A subscriber that leaves is gone and the others stay. The upstream request is
/// cancelled when nobody is left, and only a track that a SUBSCRIBE created is forgotten
/// with it.
pub proof fn law_leaving_spares_the_others(
    departure: Departure,
    before: TrackView,
    connection_id: u64,
    other: u64,
    after: TrackView,
)
    requires
        departure.follows(before, connection_id, after),
    ensures
        !after.subscribers.contains(connection_id),
        other != connection_id ==> after.subscribers.contains(other)
            == before.subscribers.contains(other),
        other != connection_id && before.subscribers.contains(other)
            ==> !departure.cancel_upstream,
        !departure.cancel_upstream ==> exists|left: u64|
            left != connection_id && #[trigger] before.subscribers.contains(left),
        departure.remove_track ==> departure.cancel_upstream && before.origin
            == TrackOrigin::Subscribe,
        departure.cancel_upstream && before.origin == TrackOrigin::Subscribe
            ==> departure.remove_track,
        after.publishers == before.publishers,
        after.pending == before.pending,
        after.status == before.status,
        after.unanswered == before.unanswered,
{
    if other != connection_id && before.subscribers.contains(other) {
        assert(after.subscribers.contains(other));
    }
    if !departure.cancel_upstream {
        let left = choose|left: u64| #[trigger] after.subscribers.contains(left);
        assert(before.subscribers.contains(left));
    }
}

} // verus!
