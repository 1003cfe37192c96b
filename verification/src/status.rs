//! Status and error codes carried by MoQ control messages and streams.

use vstd::prelude::*;

verus! {

/// Status code of a PUBLISH_DONE message.
#[derive(Debug, Clone, Copy, PartialEq, Eq, Structural)]
pub enum PublishDoneStatusCode {
    InternalError,
    Unauthorized,
    TrackEnded,
    SubscriptionEnded,
    GoingAway,
    MalformedTrack,
    DoesNotExist,
    ExcessiveLoad,
    NotSupported,
    Timeout,
    UpdateFailed,
}

/// Code of a REQUEST_ERROR message.
#[derive(Debug, Clone, Copy, PartialEq, Eq, Structural)]
pub enum RequestErrorCode {
    InternalError,
    Unauthorized,
    Timeout,
    NotSupported,
    DoesNotExist,
    InvalidRange,
    MalformedTrack,
    DuplicateSubscription,
    UnsupportedExtension,
    ExcessiveLoad,
    GoingAway,
}

/// Reason for closing a whole session.
#[derive(Debug, Clone, Copy, PartialEq, Eq, Structural)]
pub enum TerminationCode {
    InternalError,
    ProtocolViolation,
    VersionNegotiationFailed,
}

/// Reason for resetting one data stream.
#[derive(Debug, Clone, Copy, PartialEq, Eq, Structural)]
pub enum StreamResetCode {
    Cancelled,
    TooFarBehind,
}

} // verus!
