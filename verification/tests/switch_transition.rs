use bytes::Bytes;
use moqtail::model::MessageParameter;
use moqtail::switch_transition::{KeyValuePair, SwitchTransition, SWITCH_TRANSITION_TYPE};
use moqtail::varint::ParseError;

#[test]
fn payload_roundtrip() {
    let st = SwitchTransition::new(42, 100);
    let bytes = st.to_bytes().unwrap();
    assert_eq!(SwitchTransition::from_bytes(bytes).unwrap(), st);
}

#[test]
fn roundtrip_via_message_parameter_wire_form() {
    let st = SwitchTransition::new(7, 9);
    let kvp: KeyValuePair = st.to_key_value_pair().unwrap();
    assert_eq!(kvp.get_type(), SWITCH_TRANSITION_TYPE);
    let mut buf = kvp.serialize().unwrap();
    let parsed = KeyValuePair::deserialize(&mut buf).unwrap();
    let param = SwitchTransition::from_key_value_pair(&parsed).unwrap();
    assert_eq!(SwitchTransition::from_parameters(&vec![param]).unwrap(), st);
}

#[test]
fn from_parameters_ignores_other_params() {
    let other = MessageParameter::new_delay_groups(5);
    assert!(SwitchTransition::from_parameters(&vec![other]).is_none());
    assert!(SwitchTransition::from_parameters(&vec![]).is_none());
}

#[test]
fn trailing_bytes_are_rejected() {
    let payload: Vec<u8> = vec![1, 2, 3];
    assert!(SwitchTransition::from_bytes(Bytes::from(payload)).is_err());
}

#[test]
fn large_group_ids_roundtrip() {
    let st = SwitchTransition::new(1_000_000, 2u64.pow(30));
    assert_eq!(
        SwitchTransition::from_bytes(st.to_bytes().unwrap()).unwrap(),
        st
    );
}

#[test]
fn the_payload_is_two_variable_length_integers() {
    let st = SwitchTransition::new(37, 15293);
    assert_eq!(st.to_bytes().unwrap().as_ref(), &[0x25, 0x7b, 0xbd]);
    let pair = st.to_key_value_pair().unwrap();
    assert_eq!(pair.serialize().unwrap().as_ref(), &[0x40, 0x73, 0x03, 0x25, 0x7b, 0xbd]);
}

#[test]
fn deserializing_takes_only_its_own_bytes() {
    let mut buf = Bytes::from(vec![0x02, 0x05, 0xaa, 0xbb]);
    match KeyValuePair::deserialize(&mut buf).unwrap() {
        KeyValuePair::VarInt { type_value, number } => assert_eq!((type_value, number), (2, 5)),
        KeyValuePair::Bytes { .. } => panic!("an even type has a number"),
    }
    assert_eq!(buf.as_ref(), &[0xaa, 0xbb]);
}

#[test]
fn group_ids_beyond_the_wire_are_refused() {
    assert!(SwitchTransition::new(1 << 62, 0).to_bytes().is_err());
    assert!(SwitchTransition::new(0, 1 << 62).to_bytes().is_err());
    assert!(SwitchTransition::new((1 << 62) - 1, 0).to_bytes().is_ok());
    assert!(SwitchTransition::from_bytes(Bytes::from(vec![1])).is_err());
    assert!(SwitchTransition::from_bytes(Bytes::new()).is_err());
}

#[test]
fn a_pair_without_a_wire_form_says_why() {
    let too_large = 1u64 << 62;
    let pair = |type_value: u64, number: u64| KeyValuePair::VarInt { type_value, number };
    assert_eq!(pair(1, 0).serialize().unwrap_err(), ParseError::KeyValueFormattingError);
    assert_eq!(pair(1, too_large).serialize().unwrap_err(), ParseError::KeyValueFormattingError);
    assert_eq!(pair(2, too_large).serialize().unwrap_err(), ParseError::VarIntOverflow);
    assert_eq!(pair(too_large, 0).serialize().unwrap_err(), ParseError::VarIntOverflow);
    let bytes = KeyValuePair::Bytes { type_value: 2, value: vec![1] };
    assert_eq!(bytes.serialize().unwrap_err(), ParseError::KeyValueFormattingError);
    let bytes = KeyValuePair::Bytes { type_value: too_large + 1, value: vec![1] };
    assert_eq!(bytes.serialize().unwrap_err(), ParseError::VarIntOverflow);
}
