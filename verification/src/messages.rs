//! Control messages that the relay reads and writes.

use crate::model::{self, set_param, FilterType, Location, MessageParameter};
use crate::status::{PublishDoneStatusCode, RequestErrorCode};
use crate::switch_transition::KeyValuePair;
use crate::track_name::{FullTrackName, TrackNameView, Tuple, TupleField};
use vstd::prelude::*;

verus! {

/// SUBSCRIBE: a subscriber asks for a track.
#[derive(Debug)]
pub struct Subscribe {
    pub request_id: u64,
    pub track_namespace: Tuple,
    pub track_name: TupleField,
    pub subscribe_parameters: Vec<MessageParameter>,
}

/// What a [`Subscribe`] stands for.
#[verifier::ext_equal]
pub struct SubscribeView {
    pub request_id: u64,
    pub track: TrackNameView,
    pub parameters: Seq<MessageParameter>,
}

impl View for Subscribe {
    type V = SubscribeView;

    open spec fn view(&self) -> SubscribeView {
        SubscribeView {
            request_id: self.request_id,
            track: TrackNameView { namespace: self.track_namespace@, name: self.track_name@ },
            parameters: self.subscribe_parameters@,
        }
    }
}

/// A copy of a parameter list.
pub fn copy_parameters(params: &Vec<MessageParameter>) -> (copy: Vec<MessageParameter>)
    ensures
        copy@ == params@,
{
    let mut copy: Vec<MessageParameter> = Vec::new();
    let mut i: usize = 0;
    while i < params.len()
        invariant
            i <= params.len(),
            copy@ == params@.take(i as int),
        decreases params.len() - i,
    {
        copy.push(params[i]);
        i = i + 1;
        proof {
            assert(params@.take(i as int) =~= params@.take(i - 1).push(params@[i - 1]));
        }
    }
    proof {
        assert(params@.take(i as int) =~= params@);
    }
    copy
}

impl Clone for Subscribe {
    fn clone(&self) -> (copy: Self)
        ensures
            copy@ == self@,
    {
        Subscribe {
            request_id: self.request_id,
            track_namespace: self.track_namespace.clone(),
            track_name: self.track_name.clone(),
            subscribe_parameters: copy_parameters(&self.subscribe_parameters),
        }
    }
}

impl Subscribe {
    /// A SUBSCRIBE that starts with the latest object.
    pub fn new_latest_object(
        request_id: u64,
        track_namespace: Tuple,
        track_name: TupleField,
        subscribe_parameters: Vec<MessageParameter>,
    ) -> (subscribe: Subscribe)
        ensures
            subscribe@ == (SubscribeView {
                request_id,
                track: TrackNameView { namespace: track_namespace@, name: track_name@ },
                parameters: model::with_parameter(
                    subscribe_parameters@,
                    MessageParameter::SubscriptionFilter {
                        filter_type: FilterType::LatestObject,
                        start_location: None,
                        end_group: None,
                    },
                ),
            }),
    {
        let mut subscribe_parameters: Vec<MessageParameter> = subscribe_parameters;
        set_param(
            &mut subscribe_parameters,
            MessageParameter::new_subscription_filter(FilterType::LatestObject, None, None),
        );
        Subscribe { request_id, track_namespace, track_name, subscribe_parameters }
    }

    /// A SUBSCRIBE that starts at a given location and has no end.
    pub fn new_absolute_start(
        request_id: u64,
        track_namespace: Tuple,
        track_name: TupleField,
        start_location: Location,
        subscribe_parameters: Vec<MessageParameter>,
    ) -> (subscribe: Subscribe)
        ensures
            subscribe@ == (SubscribeView {
                request_id,
                track: TrackNameView { namespace: track_namespace@, name: track_name@ },
                parameters: model::with_parameter(
                    subscribe_parameters@,
                    MessageParameter::SubscriptionFilter {
                        filter_type: FilterType::AbsoluteStart,
                        start_location: Some(start_location),
                        end_group: None,
                    },
                ),
            }),
    {
        let mut subscribe_parameters: Vec<MessageParameter> = subscribe_parameters;
        set_param(
            &mut subscribe_parameters,
            MessageParameter::new_subscription_filter(
                FilterType::AbsoluteStart,
                Some(start_location),
                None,
            ),
        );
        Subscribe { request_id, track_namespace, track_name, subscribe_parameters }
    }

    /// The track that is asked for.
    pub fn get_full_track_name(&self) -> (name: FullTrackName)
        ensures
            name@ == self@.track,
    {
        FullTrackName {
            namespace: self.track_namespace.clone(),
            name: self.track_name.clone(),
        }
    }
}

/// PUBLISH: a track is offered to the peer.
#[derive(Debug)]
pub struct Publish {
    pub request_id: u64,
    pub track_namespace: Tuple,
    pub track_name: TupleField,
    pub track_alias: u64,
    pub parameters: Vec<MessageParameter>,
    pub track_properties: Vec<KeyValuePair>,
}

/// PUBLISH_DONE: a subscription has ended.
#[derive(Debug)]
pub struct PublishDone {
    pub status_code: PublishDoneStatusCode,
    pub stream_count: u64,
    pub reason: String,
}

/// REQUEST_ERROR: a request is refused.
#[derive(Debug)]
pub struct RequestError {
    pub error_code: RequestErrorCode,
    pub retry_interval: u64,
    pub reason: String,
}

impl RequestError {
    /// An error that names no retry interval.
    pub fn new(error_code: RequestErrorCode, reason: &str) -> (error: RequestError)
        ensures
            error.error_code == error_code,
            error.retry_interval == 0,
            error.reason@ == reason@,
    {
        RequestError { error_code, retry_interval: 0, reason: reason.to_owned() }
    }
}

} // verus!
