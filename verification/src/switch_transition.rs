//! SWITCH_TRANSITION: the parameter of the PUBLISH that a relay opens in answer
//! to a SWITCH, which tells the subscriber where the seam is.
//!
//! ```text
//! SWITCH_TRANSITION {
//!   Switching Group ID (i),   // first group on the new track
//!   Live Edge Group ID (i)    // target's live edge when the PUBLISH opened
//! }
//! ```
//!
//! On the wire it is a parameter of an odd type, so its value is a
//! length-prefixed byte string: the two variable-length integers.

use crate::model::{self, find_parameter, MessageParameter, ParameterKind};
use crate::payload::{self, bytes_advance, bytes_as_slice, bytes_from_vec};
use crate::track_name::copy_bytes;
use crate::varint::{self, get_vi, put_vi, ParseError, VARINT_LIMIT};
use bytes::Bytes;
use vstd::prelude::*;

verus! {

/// The parameter type of SWITCH_TRANSITION.
pub const SWITCH_TRANSITION_TYPE: u64 = 0x73;

#[derive(Debug, Clone, Copy, PartialEq, Eq, Structural)]
pub struct SwitchTransition {
    /// The first group delivered on the target track.
    pub switching_group_id: u64,
    /// The target track's live edge when the PUBLISH opened.
    pub live_edge_group_id: u64,
}

/// The payload of a SWITCH_TRANSITION: its two integers, one after the other.
pub open spec fn transition_bytes(transition: SwitchTransition) -> Seq<u8> {
    varint::varint_bytes(transition.switching_group_id) + varint::varint_bytes(transition.live_edge_group_id)
}

/// Reads a payload that holds two integers and nothing after them.
pub open spec fn parse_transition(value: Seq<u8>) -> Result<SwitchTransition, ParseError> {
    match varint::parse_varint(value) {
        None => Err(ParseError::NotEnoughBytes),
        Some((switching_group_id, n)) => match varint::parse_varint(value.skip(n)) {
            None => Err(ParseError::NotEnoughBytes),
            Some((live_edge_group_id, m)) => if n + m < value.len() {
                Err(ParseError::KeyValueFormattingError)
            } else {
                Ok(SwitchTransition { switching_group_id, live_edge_group_id })
            },
        },
    }
}

/// The transition that a parameter list carries, if any.
pub open spec fn transition_of(params: Seq<MessageParameter>) -> Option<SwitchTransition> {
    match model::first_of_kind(params, ParameterKind::SwitchTransition) {
        Some(MessageParameter::SwitchTransition { switching_group_id, live_edge_group_id }) => Some(
            SwitchTransition { switching_group_id, live_edge_group_id },
        ),
        _ => None,
    }
}

impl SwitchTransition {
    pub open spec fn spec_new(switching_group_id: u64, live_edge_group_id: u64) -> Self {
        SwitchTransition { switching_group_id, live_edge_group_id }
    }

    #[verifier::when_used_as_spec(spec_new)]
    pub fn new(switching_group_id: u64, live_edge_group_id: u64) -> (transition: Self)
        ensures
            transition == Self::spec_new(switching_group_id, live_edge_group_id),
    {
        SwitchTransition { switching_group_id, live_edge_group_id }
    }

    pub open spec fn spec_to_message_parameter(&self) -> MessageParameter {
        MessageParameter::SwitchTransition {
            switching_group_id: self.switching_group_id,
            live_edge_group_id: self.live_edge_group_id,
        }
    }

    /// The typed parameter, for a PUBLISH's parameter list.
    #[verifier::when_used_as_spec(spec_to_message_parameter)]
    pub fn to_message_parameter(&self) -> (parameter: MessageParameter)
        ensures
            parameter == self.spec_to_message_parameter(),
    {
        MessageParameter::SwitchTransition {
            switching_group_id: self.switching_group_id,
            live_edge_group_id: self.live_edge_group_id,
        }
    }

    /// Encodes the payload. It fails exactly when a group id is too large for
    /// a variable-length integer.
    pub fn to_bytes(&self) -> (result: Result<Bytes, ParseError>)
        ensures
            match result {
                Ok(payload) => {
                    &&& self.switching_group_id < VARINT_LIMIT
                    &&& self.live_edge_group_id < VARINT_LIMIT
                    &&& payload::contents(payload) == transition_bytes(*self)
                },
                Err(e) => {
                    &&& self.switching_group_id >= VARINT_LIMIT || self.live_edge_group_id
                        >= VARINT_LIMIT
                    &&& e == ParseError::VarIntOverflow
                },
            },
    {
        let mut payload: Vec<u8> = Vec::new();
        match put_vi(&mut payload, self.switching_group_id) {
            Ok(()) => {},
            Err(e) => {
                return Err(e);
            },
        }
        match put_vi(&mut payload, self.live_edge_group_id) {
            Ok(()) => {},
            Err(e) => {
                return Err(e);
            },
        }
        proof {
            assert(payload@ =~= transition_bytes(*self));
        }
        Ok(bytes_from_vec(payload))
    }

    /// Decodes a payload; bytes after the two integers are an error.
    pub fn from_bytes(value: Bytes) -> (result: Result<Self, ParseError>)
        ensures
            result == parse_transition(payload::contents(value)),
    {
        let data: &[u8] = bytes_as_slice(&value);
        proof {
            assert(data@.skip(0) =~= data@);
        }
        let (switching_group_id, n): (u64, usize) = match get_vi(data, 0) {
            Ok(read) => read,
            Err(e) => {
                return Err(e);
            },
        };
        let (live_edge_group_id, m): (u64, usize) = match get_vi(data, n) {
            Ok(read) => read,
            Err(e) => {
                return Err(e);
            },
        };
        if m < data.len() {
            return Err(ParseError::KeyValueFormattingError);
        }
        Ok(SwitchTransition { switching_group_id, live_edge_group_id })
    }

    /// The first SWITCH_TRANSITION parameter of a list, if any.
    pub fn from_parameters(params: &Vec<MessageParameter>) -> (found: Option<Self>)
        ensures
            found == transition_of(params@),
    {
        match find_parameter(params, ParameterKind::SwitchTransition) {
            Some(MessageParameter::SwitchTransition { switching_group_id, live_edge_group_id }) =>
                Some(SwitchTransition { switching_group_id, live_edge_group_id }),
            _ => None,
        }
    }

    /// The parameter in its wire form.
    pub fn to_key_value_pair(&self) -> (result: Result<KeyValuePair, ParseError>)
        ensures
            match result {
                Ok(pair) => {
                    &&& self.switching_group_id < VARINT_LIMIT
                    &&& self.live_edge_group_id < VARINT_LIMIT
                    &&& pair@ == (PairView::Bytes {
                        type_value: SWITCH_TRANSITION_TYPE,
                        value: transition_bytes(*self),
                    })
                },
                Err(e) => {
                    &&& self.switching_group_id >= VARINT_LIMIT || self.live_edge_group_id
                        >= VARINT_LIMIT
                    &&& e == ParseError::VarIntOverflow
                },
            },
    {
        match self.to_bytes() {
            Ok(payload) => Ok(
                KeyValuePair::Bytes {
                    type_value: SWITCH_TRANSITION_TYPE,
                    value: copy_bytes(bytes_as_slice(&payload)),
                },
            ),
            Err(e) => Err(e),
        }
    }

    /// Reads the typed parameter from its wire form.
    pub fn from_key_value_pair(pair: &KeyValuePair) -> (result: Result<
        MessageParameter,
        ParseError,
    >)
        ensures
            result == match pair@ {
                PairView::Bytes { type_value, value } => if type_value == SWITCH_TRANSITION_TYPE {
                    match parse_transition(value) {
                        Ok(transition) => Ok(transition.to_message_parameter()),
                        Err(e) => Err(e),
                    }
                } else {
                    Err(ParseError::KeyValueFormattingError)
                },
                PairView::VarInt { .. } => Err(ParseError::KeyValueFormattingError),
            },
    {
        match pair {
            KeyValuePair::Bytes { type_value, value } => {
                if *type_value != SWITCH_TRANSITION_TYPE {
                    return Err(ParseError::KeyValueFormattingError);
                }
                match SwitchTransition::from_bytes(
                    bytes_from_vec(copy_bytes(value.as_slice())),
                ) {
                    Ok(transition) => Ok(transition.to_message_parameter()),
                    Err(e) => Err(e),
                }
            },
            KeyValuePair::VarInt { .. } => Err(ParseError::KeyValueFormattingError),
        }
    }
}

/// A parameter in its wire form: a type, and by the type's parity an integer
/// (even) or a byte string (odd).
#[derive(Debug)]
pub enum KeyValuePair {
    VarInt { type_value: u64, number: u64 },
    Bytes { type_value: u64, value: Vec<u8> },
}

/// What a [`KeyValuePair`] stands for.
#[verifier::ext_equal]
pub enum PairView {
    VarInt { type_value: u64, number: u64 },
    Bytes { type_value: u64, value: Seq<u8> },
}

impl View for KeyValuePair {
    type V = PairView;

    open spec fn view(&self) -> PairView {
        match *self {
            KeyValuePair::VarInt { type_value, number } => PairView::VarInt { type_value, number },
            KeyValuePair::Bytes { type_value, value } => PairView::Bytes {
                type_value,
                value: value@,
            },
        }
    }
}

impl PairView {
    /// The type has the parity that the value calls for: a number has an even
    /// one, bytes have an odd one.
    pub open spec fn has_parity(self) -> bool {
        match self {
            PairView::VarInt { type_value, .. } => type_value % 2 == 0,
            PairView::Bytes { type_value, .. } => type_value % 2 == 1,
        }
    }

    /// The type has the parity that the value calls for, and every integer of
    /// the wire form fits.
    pub open spec fn wf(self) -> bool {
        match self {
            PairView::VarInt { type_value, number } => {
                &&& type_value % 2 == 0
                &&& type_value < VARINT_LIMIT
                &&& number < VARINT_LIMIT
            },
            PairView::Bytes { type_value, value } => {
                &&& type_value % 2 == 1
                &&& type_value < VARINT_LIMIT
                &&& value.len() < VARINT_LIMIT
            },
        }
    }

    /// The wire form.
    pub open spec fn wire(self) -> Seq<u8> {
        match self {
            PairView::VarInt { type_value, number } => varint::varint_bytes(type_value)
                + varint::varint_bytes(number),
            PairView::Bytes { type_value, value } => varint::varint_bytes(type_value) + varint::varint_bytes(
                value.len() as u64,
            ) + value,
        }
    }
}

/// Reads the pair at the start of `bytes`: the pair and its length.
pub open spec fn parse_pair(bytes: Seq<u8>) -> Option<(PairView, int)> {
    match varint::parse_varint(bytes) {
        None => None,
        Some((type_value, n)) => match varint::parse_varint(bytes.skip(n)) {
            None => None,
            Some((second, m)) => if type_value % 2 == 0 {
                Some((PairView::VarInt { type_value, number: second }, n + m))
            } else if n + m + second > bytes.len() {
                None
            } else {
                Some(
                    (
                        PairView::Bytes {
                            type_value,
                            value: bytes.subrange(n + m, n + m + second),
                        },
                        n + m + second,
                    ),
                )
            },
        },
    }
}

impl KeyValuePair {
    /// The parameter type.
    pub fn get_type(&self) -> (type_value: u64)
        ensures
            type_value == match self@ {
                PairView::VarInt { type_value, .. } => type_value,
                PairView::Bytes { type_value, .. } => type_value,
            },
    {
        match self {
            KeyValuePair::VarInt { type_value, .. } => *type_value,
            KeyValuePair::Bytes { type_value, .. } => *type_value,
        }
    }

    /// The wire form. It fails exactly on a pair that has none: on a type of the
    /// wrong parity, else on an integer that is too large.
    pub fn serialize(&self) -> (result: Result<Bytes, ParseError>)
        ensures
            match result {
                Ok(buffer) => self@.wf() && payload::contents(buffer) == self@.wire(),
                Err(e) => !self@.wf() && e == if self@.has_parity() {
                    ParseError::VarIntOverflow
                } else {
                    ParseError::KeyValueFormattingError
                },
            },
    {
        let mut buffer: Vec<u8> = Vec::new();
        match self {
            KeyValuePair::VarInt { type_value, number } => {
                if *type_value % 2 != 0 {
                    return Err(ParseError::KeyValueFormattingError);
                }
                match put_vi(&mut buffer, *type_value) {
                    Ok(()) => {},
                    Err(e) => {
                        return Err(e);
                    },
                }
                match put_vi(&mut buffer, *number) {
                    Ok(()) => {},
                    Err(e) => {
                        return Err(e);
                    },
                }
            },
            KeyValuePair::Bytes { type_value, value } => {
                if *type_value % 2 != 1 {
                    return Err(ParseError::KeyValueFormattingError);
                }
                match put_vi(&mut buffer, *type_value) {
                    Ok(()) => {},
                    Err(e) => {
                        return Err(e);
                    },
                }
                match put_vi(&mut buffer, value.len() as u64) {
                    Ok(()) => {},
                    Err(e) => {
                        return Err(e);
                    },
                }
                let mut copy: Vec<u8> = copy_bytes(value.as_slice());
                buffer.append(&mut copy);
            },
        }
        proof {
            assert(buffer@ =~= self@.wire());
        }
        Ok(bytes_from_vec(buffer))
    }

    /// Takes the pair at the front of a buffer. Where there is none, the
    /// buffer stays as it was.
    pub fn deserialize(buffer: &mut Bytes) -> (result: Result<KeyValuePair, ParseError>)
        ensures
            match (result, parse_pair(payload::contents(*old(buffer)))) {
                (Ok(pair), Some((view, n))) => pair@ == view && payload::contents(*final(buffer))
                    == payload::contents(*old(buffer)).skip(n),
                (Err(e), None) => e == ParseError::NotEnoughBytes && payload::contents(*final(buffer))
                    == payload::contents(*old(buffer)),
                _ => false,
            },
    {
        let data: &[u8] = bytes_as_slice(buffer);
        proof {
            assert(data@.skip(0) =~= data@);
        }
        let (type_value, n): (u64, usize) = match get_vi(data, 0) {
            Ok(read) => read,
            Err(e) => {
                return Err(e);
            },
        };
        let (second, m): (u64, usize) = match get_vi(data, n) {
            Ok(read) => read,
            Err(e) => {
                return Err(e);
            },
        };
        if type_value % 2 == 0 {
            bytes_advance(buffer, m);
            return Ok(KeyValuePair::VarInt { type_value, number: second });
        }
        if second > (data.len() - m) as u64 {
            return Err(ParseError::NotEnoughBytes);
        }
        let end: usize = m + second as usize;
        let value: Vec<u8> = copy_bytes(vstd::slice::slice_subrange(data, m, end));
        bytes_advance(buffer, end);
        Ok(KeyValuePair::Bytes { type_value, value })
    }
}

/// A payload that was encoded is decoded to the same transition.
pub proof fn law_transition_round_trip(transition: SwitchTransition)
    requires
        transition.switching_group_id < VARINT_LIMIT,
        transition.live_edge_group_id < VARINT_LIMIT,
    ensures
        parse_transition(transition_bytes(transition)) == Ok::<SwitchTransition, ParseError>(
            transition,
        ),
{
    let first = varint::varint_bytes(transition.switching_group_id);
    let second = varint::varint_bytes(transition.live_edge_group_id);
    varint::law_varint_round_trip(transition.switching_group_id, second);
    varint::law_varint_round_trip(transition.live_edge_group_id, Seq::empty());
    assert((first + second).skip(first.len() as int) =~= second);
    assert(second + Seq::<u8>::empty() =~= second);
}

/// Bytes after the two integers are always refused.
pub proof fn law_trailing_bytes_are_refused(transition: SwitchTransition, extra: Seq<u8>)
    requires
        transition.switching_group_id < VARINT_LIMIT,
        transition.live_edge_group_id < VARINT_LIMIT,
        extra.len() > 0,
    ensures
        parse_transition(transition_bytes(transition) + extra) == Err::<
            SwitchTransition,
            ParseError,
        >(ParseError::KeyValueFormattingError),
{
    let first = varint::varint_bytes(transition.switching_group_id);
    let second = varint::varint_bytes(transition.live_edge_group_id);
    let all = transition_bytes(transition) + extra;
    assert(all =~= first + (second + extra));
    varint::law_varint_round_trip(transition.switching_group_id, second + extra);
    varint::law_varint_round_trip(transition.live_edge_group_id, extra);
    assert(all.skip(first.len() as int) =~= second + extra);
}

/// A pair that was written is read back, whatever follows it.
pub proof fn law_pair_round_trip(pair: PairView, rest: Seq<u8>)
    requires
        pair.wf(),
    ensures
        parse_pair(pair.wire() + rest) == Some((pair, pair.wire().len() as int)),
{
    let all = pair.wire() + rest;
    match pair {
        PairView::VarInt { type_value, number } => {
            let first = varint::varint_bytes(type_value);
            let second = varint::varint_bytes(number);
            assert(all =~= first + (second + rest));
            varint::law_varint_round_trip(type_value, second + rest);
            varint::law_varint_round_trip(number, rest);
            assert(all.skip(first.len() as int) =~= second + rest);
        },
        PairView::Bytes { type_value, value } => {
            let first = varint::varint_bytes(type_value);
            let second = varint::varint_bytes(value.len() as u64);
            assert(all =~= first + (second + (value + rest)));
            varint::law_varint_round_trip(type_value, second + (value + rest));
            varint::law_varint_round_trip(value.len() as u64, value + rest);
            assert(all.skip(first.len() as int) =~= second + (value + rest));
            let n = first.len() as int;
            let m = second.len() as int;
            assert(all.subrange(n + m, n + m + value.len()) =~= value);
        },
    }
}

/// A transition survives the whole way through a parameter list's wire form.
pub proof fn law_transition_survives_the_wire(transition: SwitchTransition, rest: Seq<u8>)
    requires
        transition.switching_group_id < VARINT_LIMIT,
        transition.live_edge_group_id < VARINT_LIMIT,
    ensures
        ({
            let pair = PairView::Bytes {
                type_value: SWITCH_TRANSITION_TYPE,
                value: transition_bytes(transition),
            };
            &&& pair.wf()
            &&& parse_pair(pair.wire() + rest) == Some((pair, pair.wire().len() as int))
            &&& parse_transition(transition_bytes(transition)) == Ok::<
                SwitchTransition,
                ParseError,
            >(transition)
            &&& transition_of(seq![transition.to_message_parameter()]) == Some(transition)
        }),
{
    law_transition_round_trip(transition);
    law_pair_round_trip(
        PairView::Bytes {
            type_value: SWITCH_TRANSITION_TYPE,
            value: transition_bytes(transition),
        },
        rest,
    );
}

/// The payload is the group that the new track starts with, then the live edge,
/// each as a variable-length integer.
pub proof fn law_payload_names_the_switching_group_first(transition: SwitchTransition)
    requires
        transition.switching_group_id < VARINT_LIMIT,
        transition.live_edge_group_id < VARINT_LIMIT,
    ensures
        ({
            let payload = transition_bytes(transition);
            varint::parse_varint(payload) matches Some((first, n)) && first
                == transition.switching_group_id && (varint::parse_varint(
                payload.skip(n),
            ) matches Some((second, m)) && second == transition.live_edge_group_id && n + m
                == payload.len())
        }),
{
    let a = varint::varint_bytes(transition.switching_group_id);
    let b = varint::varint_bytes(transition.live_edge_group_id);
    varint::law_varint_round_trip(transition.switching_group_id, b);
    varint::law_varint_round_trip(transition.live_edge_group_id, Seq::empty());
    assert((a + b).skip(a.len() as int) =~= b);
    assert(b + Seq::<u8>::empty() =~= b);
}

/// A payload is read exactly where it is two integers and nothing else; the first
/// is the switching group.
pub proof fn law_reading_a_payload(value: Seq<u8>)
    ensures
        match parse_transition(value) {
            Ok(transition) => varint::parse_varint(value) matches Some((first, n)) && first
                == transition.switching_group_id && (varint::parse_varint(
                value.skip(n),
            ) matches Some((second, m)) && second == transition.live_edge_group_id && n + m
                >= value.len()),
            Err(ParseError::KeyValueFormattingError) => varint::parse_varint(value) matches Some(
                (_, n),
            ) && (varint::parse_varint(value.skip(n)) matches Some((_, m)) && n + m < value.len()),
            Err(e) => e == ParseError::NotEnoughBytes && (varint::parse_varint(value) matches Some(
                (_, n),
            ) ==> varint::parse_varint(value.skip(n)) is None),
        },
{
}

/// The transition of a list is that of the first such parameter, field by field.
pub proof fn law_transition_is_read_field_by_field(
    params: Seq<MessageParameter>,
    i: int,
    transition: SwitchTransition,
)
    requires
        0 <= i < params.len(),
        forall|j: int| 0 <= j < i ==> !((#[trigger] params[j]) is SwitchTransition),
    ensures
        params[i] matches MessageParameter::SwitchTransition {
            switching_group_id,
            live_edge_group_id,
        } ==> (transition_of(params) matches Some(found) && found.switching_group_id
            == switching_group_id && found.live_edge_group_id == live_edge_group_id),
        transition.to_message_parameter() == (MessageParameter::SwitchTransition {
            switching_group_id: transition.switching_group_id,
            live_edge_group_id: transition.live_edge_group_id,
        }),
{
    model::law_first_of_a_kind_is_found(params, ParameterKind::SwitchTransition);
    if params[i] is SwitchTransition {
        let found = model::first_of_kind(params, ParameterKind::SwitchTransition)->0;
        let k = choose|k: int|
            0 <= k < params.len() && #[trigger] params[k] == found && found.kind()
                == ParameterKind::SwitchTransition && forall|j: int|
                0 <= j < k ==> (#[trigger] params[j]).kind() != ParameterKind::SwitchTransition;
        assert(params[i].kind() == ParameterKind::SwitchTransition);
        assert(params[k] is SwitchTransition);
    }
}

/// A pair is its type, then its number or the length of its bytes and the bytes.
pub proof fn law_pair_layout(pair: PairView)
    requires
        pair.wf(),
    ensures
        ({
            let wire = pair.wire();
            varint::parse_varint(wire) matches Some((first, n)) && match pair {
                PairView::VarInt { type_value, number } => first == type_value
                    && varint::parse_varint(wire.skip(n)) == Some((number, wire.len() - n)),
                PairView::Bytes { type_value, value } => first == type_value && (
                varint::parse_varint(wire.skip(n)) matches Some((len, m)) && len == value.len()
                    && wire.skip(n + m) == value),
            }
        }),
{
    match pair {
        PairView::VarInt { type_value, number } => {
            let a = varint::varint_bytes(type_value);
            let b = varint::varint_bytes(number);
            varint::law_varint_round_trip(type_value, b);
            varint::law_varint_round_trip(number, Seq::empty());
            assert((a + b).skip(a.len() as int) =~= b);
            assert(b + Seq::<u8>::empty() =~= b);
        },
        PairView::Bytes { type_value, value } => {
            let a = varint::varint_bytes(type_value);
            let b = varint::varint_bytes(value.len() as u64);
            varint::law_varint_round_trip(type_value, b + value);
            varint::law_varint_round_trip(value.len() as u64, value);
            assert(pair.wire() =~= a + (b + value));
            assert(pair.wire().skip(a.len() as int) =~= b + value);
            assert(pair.wire().skip((a.len() + b.len()) as int) =~= value);
        },
    }
}

} // verus!
