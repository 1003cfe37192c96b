use bytes::Bytes;
use moqtail::decimal::{find_byte, parse_decimal, parse_number, NumberError};
use moqtail::model::{
    apply_message_parameter_update, find_parameter, forward_state, group_order, set_param,
    subscriber_priority, subscription_filter, FilterType, GroupOrder, Location, MessageParameter,
    ParameterKind,
};
use moqtail::probe::{
    parse_probe_track_name, plan_probe, probe_chunks, ProbePayload, PROBE_ALIAS_BASE,
    PROBE_CHUNK_SIZE, PROBE_MAX_SIZE,
};
use moqtail::switch_transition::{KeyValuePair, SwitchTransition};
use moqtail::text::{find_char, push_decimal, push_padded_decimal, trim_text};
use moqtail::varint::{get_vi, put_vi, ParseError, VARINT_LIMIT};

#[test]
fn varints_have_four_lengths() {
    for (value, bytes) in [
        (0u64, vec![0u8]),
        (63, vec![63]),
        (64, vec![0x40, 64]),
        (16383, vec![0x7f, 0xff]),
        (16384, vec![0x80, 0, 0x40, 0]),
        (1_073_741_823, vec![0xbf, 0xff, 0xff, 0xff]),
        (1_073_741_824, vec![0xc0, 0, 0, 0, 0x40, 0, 0, 0]),
        (VARINT_LIMIT - 1, vec![0xff; 8]),
    ] {
        let mut buf = vec![9u8];
        put_vi(&mut buf, value).unwrap();
        assert_eq!(&buf[1..], bytes.as_slice());
        assert_eq!(get_vi(&buf, 1), Ok((value, buf.len())));
        for len in 1..buf.len() {
            assert!(get_vi(&buf[..len], 1).is_err());
        }
    }
    let mut buf = vec![];
    assert!(put_vi(&mut buf, VARINT_LIMIT).is_err());
    assert!(buf.is_empty());
    let _: Result<(u64, usize), ParseError> = get_vi(&[], 0);
}

#[test]
fn pairs_survive_the_wire_one_behind_the_other() {
    let pairs = vec![
        KeyValuePair::VarInt { type_value: 2, number: 77 },
        SwitchTransition::new(5, 9).to_key_value_pair().unwrap(),
    ];
    let mut wire: Vec<u8> = vec![];
    for pair in &pairs {
        wire.extend_from_slice(&pair.serialize().unwrap());
    }
    wire.push(1);
    let mut buffer = Bytes::from(wire);
    let first = KeyValuePair::deserialize(&mut buffer).unwrap();
    assert_eq!(first.get_type(), 2);
    let second = KeyValuePair::deserialize(&mut buffer).unwrap();
    assert_eq!(
        SwitchTransition::from_key_value_pair(&second).unwrap(),
        SwitchTransition::new(5, 9).to_message_parameter()
    );
    assert_eq!(buffer.len(), 1);
    assert!(KeyValuePair::deserialize(&mut buffer).is_err());
}

#[test]
fn numbers_are_read_and_written() {
    assert_eq!(parse_number(b"x0123y", 1, 5, 200), Ok(123));
    assert_eq!(parse_number(b"+7", 0, 2, 200), Ok(7));
    assert_eq!(parse_number(b"", 0, 0, 200), Err(NumberError::Empty));
    assert_eq!(parse_number(b"1a", 0, 2, 200), Err(NumberError::InvalidDigit));
    assert_eq!(parse_number(b"201", 0, 3, 200), Err(NumberError::Overflow));
    assert_eq!(NumberError::Overflow.text(), "number too large to fit in target type");
    assert_eq!(parse_decimal(b"18446744073709551615", 0, 20, u64::MAX), Some(u64::MAX));
    assert_eq!(parse_decimal(b"18446744073709551616", 0, 20, u64::MAX), None);
    assert_eq!((find_byte(b"a:b:c", 2, b':'), find_byte(b"abc", 0, b':')), (3, 3));
    let mut text = String::new();
    push_decimal(&mut text, 0);
    text.push(' ');
    push_decimal(&mut text, u64::MAX);
    text.push(' ');
    push_padded_decimal(&mut text, 42, 6);
    text.push(' ');
    push_padded_decimal(&mut text, 1_234_567, 6);
    assert_eq!(text, "0 18446744073709551615 000042 1234567");
}

#[test]
fn text_is_trimmed_as_std_trims_it() {
    for text in ["", "  ", " a b ", "\t\u{a0}x\u{2003}\n", "\u{85}y", "\u{200b}z", "\u{feff}w "] {
        assert_eq!(trim_text(text), text.trim());
    }
    assert_eq!(find_char("h\u{e9}llo", 0, 'l'), 2);
    assert_eq!(find_char("hello", 3, 'l'), 3);
    assert_eq!(find_char("hello", 0, 'x'), 5);
}

#[test]
fn parameters_are_set_once() {
    let mut params = vec![
        MessageParameter::new_forward(false),
        MessageParameter::SubscriberPriority { priority: 9 },
    ];
    set_param(&mut params, MessageParameter::new_forward(true));
    assert!(forward_state(&params));
    assert_eq!(params.len(), 2);
    assert_eq!(
        find_parameter(&params, ParameterKind::SubscriberPriority),
        Some(MessageParameter::SubscriberPriority { priority: 9 })
    );
    apply_message_parameter_update(
        &mut params,
        &vec![
            MessageParameter::GroupOrder { order: GroupOrder::Descending },
            MessageParameter::SubscriberPriority { priority: 4 },
        ],
    );
    assert_eq!((subscriber_priority(&params), group_order(&params)), (4, GroupOrder::Descending));
    assert!(forward_state(&params));
    assert_eq!(subscription_filter(&params), None);
    set_param(
        &mut params,
        MessageParameter::new_subscription_filter(
            FilterType::AbsoluteRange,
            Some(Location::new(1, 2)),
            Some(3),
        ),
    );
    assert_eq!(
        subscription_filter(&params),
        Some((FilterType::AbsoluteRange, Some(Location { group: 1, object: 2 }), Some(3)))
    );
    assert!(Location::new(1, 9).precedes(Location::new(2, 0)));
    assert!(!Location::new(1, 9).precedes(Location::new(1, 9)));
}

#[test]
fn probes_are_paid_out_in_chunks() {
    assert_eq!(parse_probe_track_name(b".probe:1000:5"), Some((1000, 5)));
    let plan = plan_probe(3, 7);
    assert_eq!(plan.track_alias, PROBE_ALIAS_BASE + 3);
    let size = 2 * PROBE_CHUNK_SIZE + 10;
    let chunks = probe_chunks(size);
    let total: usize = chunks.iter().map(|c| c.len).sum();
    assert_eq!((chunks.len(), total), (3, size));
    let mut payload = ProbePayload::new(PROBE_CHUNK_SIZE);
    assert!(payload.next_chunk().is_some());
    assert!(payload.next_chunk().is_none());
    assert!(probe_chunks(0).is_empty());
    let too_large = format!(".probe:{}:5", PROBE_MAX_SIZE + 1);
    assert_eq!(parse_probe_track_name(too_large.as_bytes()), None);
}
