//! The session of a publisher with a relay.

use crate::decimal::{self, parse_number};
use crate::messages::{Publish, RequestError};
use crate::model::{Location, MessageParameter};
use crate::status::RequestErrorCode;
use crate::streams::SubgroupHeader;
use crate::switch_transition::KeyValuePair;
use crate::text::{self, find_char, reduce_text, trim_text};
use crate::track_name::{Tuple, TupleField};
use vstd::prelude::*;

verus! {

/// The protocol versions that a publisher offers, separated by commas.
pub const CLIENT_SUPPORTED_VERSIONS: &'static str = "moqt-18";

/// The port of an authority that names none.
pub const DEFAULT_PORT: u16 = 443;

/// How to reach a relay.
#[derive(Debug, Clone)]
pub enum RelayEndpoint {
    /// Over QUIC. The authority and the path go into the setup message.
    Quic { authority: String, path: String },
    /// Over WebTransport, at a URL.
    WebTransport { url: String },
}

/// What a [`RelayEndpoint`] stands for.
#[verifier::ext_equal]
pub enum EndpointView {
    Quic { authority: Seq<char>, path: Seq<char> },
    WebTransport { url: Seq<char> },
}

impl View for RelayEndpoint {
    type V = EndpointView;

    open spec fn view(&self) -> EndpointView {
        match *self {
            RelayEndpoint::Quic { authority, path } => EndpointView::Quic {
                authority: authority@,
                path: path@,
            },
            RelayEndpoint::WebTransport { url } => EndpointView::WebTransport { url: url@ },
        }
    }
}

/// How an endpoint reaches a relay: `moqt://` is QUIC, with a path from the
/// first slash on; anything else is a URL.
pub open spec fn endpoint_of(endpoint: Seq<char>) -> EndpointView {
    if "moqt://"@.is_prefix_of(endpoint) {
        let rest = endpoint.skip(7);
        let slash = text::position_of(rest, 0, '/');
        EndpointView::Quic { authority: rest.take(slash), path: rest.skip(slash) }
    } else {
        EndpointView::WebTransport { url: endpoint }
    }
}

/// Reads an endpoint.
pub fn parse_endpoint(endpoint: &str) -> (parsed: RelayEndpoint)
    ensures
        parsed@ == endpoint_of(endpoint@),
{
    proof {
        reveal_strlit("moqt://");
    }
    let len: usize = endpoint.unicode_len();
    let is_quic: bool = len >= 7 && endpoint.get_char(0) == 'm' && endpoint.get_char(1) == 'o'
        && endpoint.get_char(2) == 'q' && endpoint.get_char(3) == 't' && endpoint.get_char(4)
        == ':' && endpoint.get_char(5) == '/' && endpoint.get_char(6) == '/';
    proof {
        if is_quic {
            assert("moqt://"@ =~= endpoint@.take(7));
            assert("moqt://"@.is_prefix_of(endpoint@));
        } else if "moqt://"@.is_prefix_of(endpoint@) {
            assert(forall|i: int| 0 <= i < 7 ==> "moqt://"@[i] == endpoint@[i]);
            assert(false);
        }
    }
    if !is_quic {
        return RelayEndpoint::WebTransport { url: endpoint.to_owned() };
    }
    let rest: &str = endpoint.substring_char(7, len);
    proof {
        assert(rest@ =~= endpoint@.skip(7));
    }
    let slash: usize = find_char(rest, 0, '/');
    let authority: &str = rest.substring_char(0, slash);
    let path: &str = rest.substring_char(slash, len - 7);
    proof {
        assert(authority@ =~= rest@.take(slash as int));
        assert(path@ =~= rest@.skip(slash as int));
    }
    RelayEndpoint::Quic { authority: authority.to_owned(), path: path.to_owned() }
}

/// The position of the last `c`; `None` when there is none.
pub open spec fn last_position(text: Seq<char>, c: char) -> Option<int>
    decreases text.len(),
{
    if text.len() == 0 {
        None
    } else if text.last() == c {
        Some(text.len() - 1)
    } else {
        last_position(text.drop_last(), c)
    }
}

fn find_last_char(text: &str, c: char) -> (position: Option<usize>)
    ensures
        match position {
            Some(i) => i < text@.len() && last_position(text@, c) == Some(i as int),
            None => last_position(text@, c) is None,
        },
{
    let len: usize = text.unicode_len();
    let mut end: usize = len;
    proof {
        assert(text@.take(len as int) =~= text@);
    }
    while end > 0
        invariant
            end <= len,
            len == text@.len(),
            last_position(text@, c) == last_position(text@.take(end as int), c),
        decreases end,
    {
        proof {
            assert(text@.take(end as int).drop_last() =~= text@.take(end - 1));
        }
        if text.get_char(end - 1) == c {
            return Some(end - 1);
        }
        end = end - 1;
    }
    None
}

/// The host and the port of an authority: the port stands behind the last
/// colon. `None` when what stands there is no port.
pub open spec fn host_and_port(authority: Seq<char>) -> Option<(Seq<char>, u16)> {
    match last_position(authority, ':') {
        None => Some((authority, DEFAULT_PORT)),
        Some(colon) => match decimal::number(
            text::reduced_text(authority.skip(colon + 1)),
            u16::MAX as u64,
        ) {
            Ok(port) => Some((authority.take(colon), port as u16)),
            Err(_) => None,
        },
    }
}

/// An authority with a port that is none.
pub open spec fn invalid_port_text(authority: Seq<char>) -> Seq<char> {
    "invalid port in moqt:// authority: "@ + authority
}

/// Splits an authority into host and port.
pub fn split_authority(authority: &str) -> (result: Result<(String, u16), String>)
    ensures
        match (result, host_and_port(authority@)) {
            (Ok((host, port)), Some(expected)) => host@ == expected.0 && port == expected.1,
            (Err(text), None) => text@ == invalid_port_text(authority@),
            _ => false,
        },
{
    let colon: usize = match find_last_char(authority, ':') {
        Some(colon) => colon,
        None => {
            return Ok((authority.to_owned(), DEFAULT_PORT));
        },
    };
    let len: usize = authority.unicode_len();
    let port: &str = authority.substring_char(colon + 1, len);
    proof {
        assert(port@ =~= authority@.skip(colon + 1));
        assert(authority@.subrange(0, colon as int) =~= authority@.take(colon as int));
    }
    let digits: Vec<u8> = reduce_text(port);
    proof {
        assert(digits@.subrange(0, digits@.len() as int) =~= digits@);
    }
    match parse_number(digits.as_slice(), 0, digits.len(), u16::MAX as u64) {
        Ok(port) => Ok((authority.substring_char(0, colon).to_owned(), port as u16)),
        Err(_) => {
            let mut text: String = "invalid port in moqt:// authority: ".to_owned();
            text.append(authority);
            Err(text)
        },
    }
}

/// Versions from position `start` on as a header lists them: each in quotes,
/// with commas between them.
pub open spec fn quoted_versions(versions: Seq<char>, start: int) -> Seq<char>
    decreases versions.len() - start,
{
    let end = text::position_of(versions, start, ',');
    let quoted = "\""@ + text::trimmed_text(versions.subrange(start, end)) + "\""@;
    if 0 <= start && start <= end && end < versions.len() {
        quoted + ", "@ + quoted_versions(versions, end + 1)
    } else {
        quoted
    }
}

/// Lists versions that are separated by commas as a header has them.
pub fn available_protocols(versions: &str) -> (header: String)
    ensures
        header@ == quoted_versions(versions@, 0),
{
    let mut header: String = "".to_owned();
    let len: usize = versions.unicode_len();
    let mut start: usize = 0;
    proof {
        reveal_strlit("");
        assert(header@ + quoted_versions(versions@, 0) =~= quoted_versions(versions@, 0));
    }
    loop
        invariant
            start <= len,
            len == versions@.len(),
            quoted_versions(versions@, 0) == header@ + quoted_versions(versions@, start as int),
        decreases len - start,
    {
        let end: usize = find_char(versions, start, ',');
        let ghost before = header@;
        header.append("\"");
        header.append(trim_text(versions.substring_char(start, end)));
        header.append("\"");
        if end >= len {
            proof {
                assert(header@ =~= before + quoted_versions(versions@, start as int));
            }
            return header;
        }
        header.append(", ");
        proof {
            assert(header@ + quoted_versions(versions@, end + 1) =~= before + quoted_versions(
                versions@,
                start as int,
            ));
        }
        start = end + 1;
    }
}

/// A text without its spaces.
pub open spec fn without_spaces(text: Seq<char>) -> Seq<char> {
    text.filter(|c: char| c != ' ')
}

/// Lists versions that are separated by commas one by one, without spaces.
pub fn protocol_names(versions: &str) -> (names: Vec<String>)
    ensures
        names@.len() == text::pieces(versions@, 0, ',').len(),
        forall|i: int|
            0 <= i < names@.len() ==> (#[trigger] names@[i])@ == without_spaces(
                text::pieces(versions@, 0, ',')[i],
            ),
{
    let mut names: Vec<String> = Vec::new();
    let len: usize = versions.unicode_len();
    let ghost all = text::pieces(versions@, 0, ',');
    let mut start: usize = 0;
    loop
        invariant
            start <= len,
            len == versions@.len(),
            all.len() == names@.len() + text::pieces(versions@, start as int, ',').len(),
            forall|i: int|
                0 <= i < text::pieces(versions@, start as int, ',').len() ==> all[names@.len() + i]
                    == #[trigger] text::pieces(versions@, start as int, ',')[i],
            forall|i: int|
                0 <= i < names@.len() ==> (#[trigger] names@[i])@ == without_spaces(all[i]),
            all == text::pieces(versions@, 0, ','),
        decreases len - start,
    {
        let ghost rest = text::pieces(versions@, start as int, ',');
        let end: usize = find_char(versions, start, ',');
        proof {
            assert(rest[0] == versions@.subrange(start as int, end as int));
            assert(all[names@.len() + 0int] == rest[0]);
        }
        let ghost count = names@.len();
        names.push(remove_spaces(versions.substring_char(start, end)));
        if end >= len {
            return names;
        }
        proof {
            let next = text::pieces(versions@, end + 1, ',');
            assert forall|i: int| 0 <= i < next.len() implies all[count + 1 + i]
                == #[trigger] next[i] by {
                assert(rest[i + 1] == next[i]);
                assert(all[count + (i + 1)] == rest[i + 1]);
            }
        }
        start = end + 1;
    }
}

fn remove_spaces(text: &str) -> (kept: String)
    ensures
        kept@ == without_spaces(text@),
{
    let len: usize = text.unicode_len();
    let mut kept: String = "".to_owned();
    let mut i: usize = 0;
    let ghost keep = |c: char| c != ' ';
    proof {
        reveal_strlit("");
        reveal(Seq::filter);
        assert(text@.take(0) =~= Seq::empty());
    }
    while i < len
        invariant
            i <= len,
            len == text@.len(),
            keep == (|c: char| c != ' '),
            kept@ == text@.take(i as int).filter(keep),
        decreases len - i,
    {
        proof {
            reveal(Seq::filter);
            assert(text@.take(i + 1).drop_last() =~= text@.take(i as int));
        }
        if text.get_char(i) != ' ' {
            kept.append(text.substring_char(i, i + 1));
            proof {
                assert(text@.subrange(i as int, i + 1) =~= seq![text@[i as int]]);
                assert(kept@ =~= text@.take(i as int).filter(keep).push(text@[i as int]));
            }
        }
        i = i + 1;
    }
    proof {
        assert(text@.take(i as int) =~= text@);
    }
    kept
}

/// Gives out the numbers of requests. Those of a client are even.
#[derive(Debug, Clone, Copy)]
pub struct RequestIds {
    next: u64,
}

impl RequestIds {
    #[verifier::type_invariant]
    spec fn wf(self) -> bool {
        self.next % 2 == 0
    }

    /// The number of the next request.
    pub closed spec fn upcoming(&self) -> u64 {
        self.next
    }

    /// Starts with zero.
    pub fn new() -> (ids: RequestIds)
        ensures
            ids.upcoming() == 0,
    {
        RequestIds { next: 0 }
    }

    /// Returns the number of the next request.
    pub fn take(&mut self) -> (id: u64)
        requires
            old(self).upcoming() + 2 <= u64::MAX,
        ensures
            id == old(self).upcoming(),
            id % 2 == 0,
            final(self).upcoming() == id + 2,
    {
        proof {
            use_type_invariant(&*self);
        }
        let id: u64 = self.next;
        self.next = id + 2;
        id
    }
}

/// Returns the PUBLISH for a track: objects are to be sent, and the largest one
/// so far is the very first.
pub fn publish_request(
    request_id: u64,
    namespace: Tuple,
    track_name: &str,
    track_alias: u64,
) -> (publish: Publish)
    ensures
        publish.request_id == request_id,
        publish.track_namespace == namespace,
        publish.track_name@ == vstd::utf8::encode_utf8(track_name@),
        publish.track_alias == track_alias,
        publish.parameters@ == seq![
            MessageParameter::Forward { forward: true },
            MessageParameter::LargestObject { location: Location { group: 0, object: 0 } },
        ],
        publish.track_properties@ == Seq::<KeyValuePair>::empty(),
{
    let mut parameters: Vec<MessageParameter> = Vec::new();
    parameters.push(MessageParameter::new_forward(true));
    parameters.push(MessageParameter::new_largest_object(Location { group: 0, object: 0 }));
    Publish {
        request_id,
        track_namespace: namespace,
        track_name: TupleField::from_utf8(track_name),
        track_alias,
        parameters,
        track_properties: Vec::new(),
    }
}

/// What comes back on the stream of a PUBLISH. What is not the wanted answer
/// comes with the form in which it is shown.
#[derive(Debug)]
pub enum PublishReply {
    /// REQUEST_OK, which may carry track properties.
    Accepted { has_track_properties: bool },
    /// REQUEST_ERROR.
    Refused { error: RequestError, shown: String },
    /// Some other message.
    Unexpected { shown: String },
    /// Nothing that could be read, for this reason.
    Failed { shown: String },
}

/// Why a track could not be published.
#[derive(Debug)]
pub enum PublishFailure {
    TrackProperties,
    Refused { error: RequestError, shown: String },
    Unexpected { shown: String },
    Failed { shown: String },
}

impl PublishFailure {
    pub open spec fn spec_text(self) -> Seq<char> {
        match self {
            PublishFailure::TrackProperties => "PUBLISH_OK carried Track Properties"@,
            PublishFailure::Refused { shown, .. } => "PUBLISH rejected: "@ + shown@,
            PublishFailure::Unexpected { shown } => "Expected REQUEST_OK, got "@ + shown@,
            PublishFailure::Failed { shown } => "Failed waiting for REQUEST_OK: "@ + shown@,
        }
    }

    /// The failure in words, with what the relay answered.
    pub fn text(&self) -> (text: String)
        ensures
            text@ == self.spec_text(),
    {
        let (what, shown): (&str, &str) = match self {
            PublishFailure::TrackProperties => {
                return "PUBLISH_OK carried Track Properties".to_owned();
            },
            PublishFailure::Refused { shown, .. } => ("PUBLISH rejected: ", shown.as_str()),
            PublishFailure::Unexpected { shown } => ("Expected REQUEST_OK, got ", shown.as_str()),
            PublishFailure::Failed { shown } => (
                "Failed waiting for REQUEST_OK: ",
                shown.as_str(),
            ),
        };
        let mut text: String = what.to_owned();
        text.append(shown);
        text
    }
}

/// Decides whether a track has been published. Only a REQUEST_OK without track
/// properties says so.
pub fn check_publish_reply(reply: PublishReply) -> (result: Result<(), PublishFailure>)
    ensures
        result == match reply {
            PublishReply::Accepted { has_track_properties: false } => Ok(()),
            PublishReply::Accepted { has_track_properties: true } => Err(
                PublishFailure::TrackProperties,
            ),
            PublishReply::Refused { error, shown } => Err(
                PublishFailure::Refused { error, shown },
            ),
            PublishReply::Unexpected { shown } => Err(PublishFailure::Unexpected { shown }),
            PublishReply::Failed { shown } => Err(PublishFailure::Failed { shown }),
        },
{
    match reply {
        PublishReply::Accepted { has_track_properties } => if has_track_properties {
            Err(PublishFailure::TrackProperties)
        } else {
            Ok(())
        },
        PublishReply::Refused { error, shown } => Err(PublishFailure::Refused { error, shown }),
        PublishReply::Unexpected { shown } => Err(PublishFailure::Unexpected { shown }),
        PublishReply::Failed { shown } => Err(PublishFailure::Failed { shown }),
    }
}

/// A request that a relay opens a stream for.
#[derive(Debug, Clone, Copy, PartialEq, Eq, Structural)]
pub enum RelayRequest {
    Fetch,
    TrackStatus,
    Other,
}

/// What is answered to a relay.
#[derive(Debug)]
pub enum RelayAnswer {
    /// REQUEST_OK without parameters.
    Accepted,
    Error(RequestError),
}

/// Answers a request of a relay. A publisher keeps no history to fetch from.
pub fn answer_request(request: RelayRequest) -> (answer: RelayAnswer)
    ensures
        match request {
            RelayRequest::TrackStatus => answer is Accepted,
            RelayRequest::Fetch => answer matches RelayAnswer::Error(error) && error.error_code
                == RequestErrorCode::NotSupported && error.retry_interval == 0 && error.reason@
                == "publisher keeps no history"@,
            RelayRequest::Other => answer matches RelayAnswer::Error(error) && error.error_code
                == RequestErrorCode::NotSupported && error.retry_interval == 0 && error.reason@
                == "not supported"@,
        },
{
    match request {
        RelayRequest::Fetch => RelayAnswer::Error(
            RequestError::new(RequestErrorCode::NotSupported, "publisher keeps no history"),
        ),
        RelayRequest::TrackStatus => RelayAnswer::Accepted,
        RelayRequest::Other => RelayAnswer::Error(
            RequestError::new(RequestErrorCode::NotSupported, "not supported"),
        ),
    }
}

/// Returns the header of the stream of a catalog: the only subgroup of its
/// group, at the highest priority.
pub fn catalog_header(track_alias: u64, group_id: u64) -> (header: SubgroupHeader)
    ensures
        header == (SubgroupHeader {
            track_alias,
            group_id,
            subgroup_id: Some(0),
            publisher_priority: Some(0),
            has_properties: false,
            contains_end_of_group: true,
            first_object: true,
        }),
{
    SubgroupHeader::new_with_explicit_id(track_alias, group_id, 0, Some(0), false, true, true)
}

/// An endpoint is taken apart without loss. A `moqt://` one is the scheme, an authority
/// without a slash and a path that is empty or starts with one. Any other is a
/// WebTransport URL as it stands.
pub proof fn law_endpoint_is_taken_apart(endpoint: Seq<char>)
    ensures
        endpoint_of(endpoint) is Quic <==> "moqt://"@.is_prefix_of(endpoint),
        match endpoint_of(endpoint) {
            EndpointView::Quic { authority, path } => {
                &&& "moqt://"@ + authority + path == endpoint
                &&& !authority.contains('/')
                &&& path.len() > 0 ==> path[0] == '/'
            },
            EndpointView::WebTransport { url } => url == endpoint,
        },
{
    reveal_strlit("moqt://");
    if "moqt://"@.is_prefix_of(endpoint) {
        let rest = endpoint.skip(7);
        text::law_first_position_is_found(rest, 0, '/');
        let slash = text::position_of(rest, 0, '/');
        assert("moqt://"@ =~= endpoint.take(7));
        assert("moqt://"@ + rest.take(slash) + rest.skip(slash) =~= endpoint);
        assert forall|i: int| 0 <= i < rest.take(slash).len() implies rest.take(slash)[i]
            != '/' by {
            assert(rest[i] != '/');
        }
    }
}

/// The last position of a character is one where it stands, with none behind it. There
/// is one wherever the character stands in the text.
pub proof fn law_last_position_is_the_last(text: Seq<char>, c: char, i: int)
    ensures
        last_position(text, c) matches Some(last) ==> 0 <= last < text.len() && text[last] == c
            && (last < i < text.len() ==> text[i] != c),
        0 <= i < text.len() && text[i] == c ==> last_position(text, c) is Some,
    decreases text.len(),
{
    if text.len() > 0 && text.last() != c {
        law_last_position_is_the_last(text.drop_last(), c, i);
        if i == text.len() - 1 {
            assert(text[i] == text.last());
        } else if 0 <= i < text.len() {
            assert(text.drop_last()[i] == text[i]);
        }
    }
}

/// An authority without a colon is a host at the default port. One with a colon is a host
/// and a port number behind the last one, and refused where that is no port number.
pub proof fn law_authority_is_host_and_port(authority: Seq<char>)
    ensures
        !authority.contains(':') ==> host_and_port(authority) == Some((authority, 443u16)),
        authority.contains(':') ==> {
            let colon = last_position(authority, ':')->0;
            let digits = authority.skip(colon + 1);
            &&& authority.take(colon) + seq![':'] + digits == authority
            &&& !digits.contains(':')
            &&& host_and_port(authority) matches Some((host, port)) ==> host == authority.take(
                colon,
            ) && decimal::decimal(text::reduced_text(digits), 65_535) == Some(port as u64)
            &&& host_and_port(authority) is None ==> decimal::decimal(
                text::reduced_text(digits),
                65_535,
            ) is None
        },
{
    law_last_position_is_the_last(authority, ':', 0);
    if authority.contains(':') {
        let at = choose|i: int| 0 <= i < authority.len() && authority[i] == ':';
        law_last_position_is_the_last(authority, ':', at);
        let colon = last_position(authority, ':')->0;
        let digits = authority.skip(colon + 1);
        assert(authority.take(colon) + seq![':'] + digits =~= authority);
        assert forall|i: int| 0 <= i < digits.len() implies digits[i] != ':' by {
            law_last_position_is_the_last(authority, ':', colon + 1 + i);
        }
        decimal::law_number_reads_decimals(text::reduced_text(digits), 65_535);
    } else if last_position(authority, ':') is Some {
        assert(authority.contains(authority[last_position(authority, ':')->0]));
    }
}

/// A single version is offered trimmed and in quotes. Of a list, the first is offered so,
/// then a comma and a space, and then the rest.
pub proof fn law_versions_are_quoted_one_by_one(first: Seq<char>, rest: Seq<char>)
    requires
        !first.contains(','),
    ensures
        quoted_versions(first, 0) == seq!['"'] + text::trimmed_text(first) + seq!['"'],
        quoted_versions(first + seq![','] + rest, 0) == quoted_versions(first, 0) + seq![',', ' ']
            + quoted_versions(rest, 0),
{
    reveal_strlit("\"");
    reveal_strlit(", ");
    let list = first + seq![','] + rest;
    text::law_first_position_is_found(first, 0, ',');
    text::law_first_position_is_found(list, 0, ',');
    let alone = text::position_of(first, 0, ',');
    if alone < first.len() {
        assert(first.contains(first[alone]));
    }
    let end = text::position_of(list, 0, ',');
    assert(list[first.len() as int] == ',');
    if end < first.len() {
        assert(first[end] == list[end]);
        assert(first.contains(first[end]));
    }
    assert(end == first.len());
    assert(first.subrange(0, alone) =~= first);
    assert(list.subrange(0, end) =~= first);
    assert(quoted_versions(first, 0) =~= seq!['"'] + text::trimmed_text(first) + seq!['"']);
    assert(list.skip(end + 1) =~= rest);
    lemma_versions_shift(list, rest, end + 1, 0);
    assert(seq![',', ' '] =~= ", "@);
    assert("\""@ =~= seq!['"']);
}

proof fn lemma_versions_shift(list: Seq<char>, rest: Seq<char>, offset: int, start: int)
    requires
        0 <= offset <= list.len(),
        list.skip(offset) == rest,
        0 <= start <= rest.len(),
    ensures
        quoted_versions(list, offset + start) == quoted_versions(rest, start),
    decreases rest.len() - start,
{
    lemma_position_shift(list, rest, offset, start);
    text::law_first_position_is_found(rest, start, ',');
    let end = text::position_of(rest, start, ',');
    assert(list.subrange(offset + start, offset + end) =~= rest.subrange(start, end));
    if end < rest.len() {
        lemma_versions_shift(list, rest, offset, end + 1);
    }
}

proof fn lemma_position_shift(list: Seq<char>, rest: Seq<char>, offset: int, start: int)
    requires
        0 <= offset <= list.len(),
        list.skip(offset) == rest,
        0 <= start <= rest.len(),
    ensures
        text::position_of(list, offset + start, ',') == offset + text::position_of(
            rest,
            start,
            ',',
        ),
    decreases rest.len() - start,
{
    if start < rest.len() {
        assert(list.skip(offset)[start] == list[offset + start]);
        if rest[start] != ',' {
            lemma_position_shift(list, rest, offset, start + 1);
        }
    }
}

/// Spaces are dropped, and every other character stays, in its place among the others.
pub proof fn law_only_spaces_are_dropped(first: Seq<char>, second: Seq<char>, c: char)
    ensures
        without_spaces(first + second) == without_spaces(first) + without_spaces(second),
        c == ' ' ==> without_spaces(seq![c]).len() == 0,
        c != ' ' ==> without_spaces(seq![c]) == seq![c],
{
    let kept = |c: char| c != ' ';
    Seq::filter_distributes_over_add(first, second, kept);
    reveal(Seq::filter);
    assert(seq![c].drop_last() =~= Seq::<char>::empty());
    assert(seq![c].drop_last().filter(kept) =~= Seq::<char>::empty());
    assert(Seq::<char>::empty().push(c) =~= seq![c]);
}

/// The error of a bad port ends in the authority that has it, and that of a refused
/// PUBLISH in what was answered.
pub proof fn law_connection_errors_show_their_cause(
    authority: Seq<char>,
    failure: PublishFailure,
)
    ensures
        invalid_port_text(authority).skip(invalid_port_text(authority).len() - authority.len())
            == authority,
        ({
            let text = failure.spec_text();
            match failure {
                PublishFailure::TrackProperties => true,
                PublishFailure::Refused { shown, .. } => text.skip(text.len() - shown@.len())
                    == shown@,
                PublishFailure::Unexpected { shown } => text.skip(text.len() - shown@.len())
                    == shown@,
                PublishFailure::Failed { shown } => text.skip(text.len() - shown@.len())
                    == shown@,
            }
        }),
{
    assert(invalid_port_text(authority).skip(
        invalid_port_text(authority).len() - authority.len(),
    ) =~= authority);
    let text = failure.spec_text();
    match failure {
        PublishFailure::TrackProperties => {},
        PublishFailure::Refused { shown, .. } => {
            assert(text.skip(text.len() - shown@.len()) =~= shown@);
        },
        PublishFailure::Unexpected { shown } => {
            assert(text.skip(text.len() - shown@.len()) =~= shown@);
        },
        PublishFailure::Failed { shown } => {
            assert(text.skip(text.len() - shown@.len()) =~= shown@);
        },
    }
}

} // verus!
