use moqtail::events::{emit, enabled, event_record, init, EventLog, RelayEvent};
use moqtail::track_cache::{CacheStats, EvictionCause};
use serde_json::Value;

fn object(members: &[(&str, Value)]) -> Value {
    let mut map = serde_json::Map::new();
    for (key, value) in members {
        map.insert(key.to_string(), value.clone());
    }
    Value::Object(map)
}

#[test]
fn emit_is_a_noop_when_not_initialised() {
    let log = EventLog::new();
    assert_eq!(emit(&log, "TEST", Value::from(1.5), object(&[("a", Value::from(1))])), None);
    assert!(!enabled(&log));
}

#[test]
fn the_log_is_on_once_its_file_is_open() {
    let mut log = EventLog::new();
    init(&mut log, "", true);
    assert!(!enabled(&log));
    init(&mut log, "/tmp/events", false);
    assert!(!enabled(&log));
    init(&mut log, "/tmp/events", true);
    assert!(enabled(&log));
    init(&mut log, "", false);
    assert!(enabled(&log));
}

#[test]
fn records_are_one_line_of_json() {
    let mut log = EventLog::new();
    init(&mut log, "events", true);
    let line = emit(
        &log,
        "PROBE",
        Value::from(1234.5),
        object(&[("conn", Value::from(7)), ("text", Value::from("a\"b\n"))]),
    )
    .unwrap();
    assert!(!line.contains('\n'));
    let read: Value = serde_json::from_str(&line).unwrap();
    assert_eq!(
        read,
        object(&[
            ("ts", Value::from(1234.5)),
            ("src", Value::from("relay")),
            ("event", Value::from("PROBE")),
            ("conn", Value::from(7)),
            ("text", Value::from("a\"b\n")),
        ])
    );
}

#[test]
fn fields_come_last_and_must_be_an_object() {
    let record = event_record("E", Value::from(1), object(&[("event", Value::from("mine"))]));
    assert_eq!(record.get("event"), Some(&Value::from("mine")));
    assert_eq!(record.get("src"), Some(&Value::from("relay")));
    let record = event_record("E", Value::from(1), Value::from("no object"));
    assert_eq!(
        record,
        object(&[
            ("ts", Value::from(1)),
            ("src", Value::from("relay")),
            ("event", Value::from("E")),
        ])
    );
}

#[test]
fn subscribes_are_described() {
    let event = RelayEvent::SubscribeDelayed {
        conn: 1,
        request_id: 2,
        track: "t".to_string(),
        is_switch: false,
        delay_groups: 3,
        clamped: true,
        largest_group: Some(9),
        oldest_cached_group: None,
        start_group: 7,
        held: true,
    };
    assert_eq!(event.name(), "SUBSCRIBE_RECV");
    assert_eq!(
        event.fields(),
        object(&[
            ("conn", Value::from(1u64)),
            ("request_id", Value::from(2u64)),
            ("track", Value::from("t")),
            ("is_switch", Value::from(false)),
            ("delay_groups", Value::from(3u64)),
            ("decision", Value::from("clamped")),
            ("largest_group", Value::from(9u64)),
            ("oldest_cached_group", Value::Null),
            ("start_group", Value::from(7u64)),
            ("held", Value::from(true)),
        ])
    );
    let live = RelayEvent::SubscribeLive {
        conn: 1,
        request_id: 2,
        track: "t".to_string(),
        is_switch: true,
        largest_group: None,
    };
    assert_eq!(live.name(), "SUBSCRIBE_RECV");
    assert_eq!(live.fields().get("decision"), Some(&Value::from("live")));
    assert_eq!(live.fields().get("delay_groups"), Some(&Value::Null));
    let hold = RelayEvent::SubscribeHold {
        conn: 1,
        request_id: 2,
        track: "t".to_string(),
        delay_groups: 5,
        largest_group: Some(2),
    };
    assert_eq!(hold.name(), "SUBSCRIBE_HOLD");
    assert_eq!(hold.fields().get("delay_groups"), Some(&Value::from(5u64)));
}

#[test]
fn switches_probes_and_evictions_are_described() {
    let received = RelayEvent::SwitchReceived {
        conn: 1,
        old_request_id: 2,
        minimum_switching_group: 3,
        track: "t".to_string(),
    };
    assert_eq!(received.name(), "SWITCH_RECV");
    assert_eq!(received.fields().get("request_id"), Some(&Value::Null));
    assert_eq!(received.fields().get("minimum_switching_group"), Some(&Value::from(3u64)));
    let promoted = RelayEvent::SwitchPromoted {
        conn: 1,
        relay_track_id: 2,
        track: "t".to_string(),
        request_id: 4,
        trigger_group: 6,
        start_group: 5,
        live_edge_group: 6,
        live_edge_object: 7,
    };
    assert_eq!(promoted.name(), "SWITCH_PROMOTED");
    assert_eq!(promoted.fields().get("trigger_group"), Some(&Value::from(6u64)));
    assert_eq!(promoted.fields().get("start_group"), Some(&Value::from(5u64)));
    assert_eq!(promoted.fields().get("live_edge_group"), Some(&Value::from(6u64)));
    assert_eq!(promoted.fields().get("live_edge_object"), Some(&Value::from(7u64)));
    let failed = RelayEvent::SwitchFailed {
        conn: 1,
        track: "t".to_string(),
        request_id: 4,
        failure: "Timeout".to_string(),
        status_code: 5,
    };
    assert_eq!(failed.name(), "SWITCH_FAILED");
    assert_eq!(failed.fields().get("failure"), Some(&Value::from("Timeout")));
    let probe = RelayEvent::Probe { conn: 1, request_id: 2, size: 4096, priority: 9 };
    assert_eq!(probe.name(), "PROBE");
    assert_eq!(probe.fields().get("priority"), Some(&Value::from(9u64)));
    let stats = CacheStats { groups: 2, bytes: 9, oldest_group: Some(1), newest_group: None };
    let held = RelayEvent::CacheStats { relay_track_id: 3, stats };
    assert_eq!(held.name(), "CACHE_STATS");
    assert_eq!(held.fields().get("relay_track_id"), Some(&Value::from(3u64)));
    assert_eq!(held.fields().get("groups"), Some(&Value::from(2u64)));
    assert_eq!(held.fields().get("bytes"), Some(&Value::from(9u64)));
    assert_eq!(held.fields().get("oldest_group"), Some(&Value::from(1u64)));
    assert_eq!(held.fields().get("newest_group"), Some(&Value::Null));
    let entered = RelayEvent::CacheGroup { relay_track_id: 3, group: 4, first_object: 5 };
    assert_eq!(entered.name(), "CACHE_GROUP");
    assert_eq!(entered.fields().get("relay_track_id"), Some(&Value::from(3u64)));
    assert_eq!(entered.fields().get("group"), Some(&Value::from(4u64)));
    assert_eq!(entered.fields().get("first_object"), Some(&Value::from(5u64)));
    let evict = RelayEvent::CacheEvict {
        relay_track_id: 1,
        group: 2,
        objects: 3,
        bytes: 4,
        cause: EvictionCause::Expired,
    };
    assert_eq!(evict.name(), "CACHE_EVICT");
    assert_eq!(evict.fields().get("cause"), Some(&Value::from("Expired")));
}
