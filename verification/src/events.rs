//! The event log: one JSON record for each line.

use crate::json::{
    self, json_extend, json_from_bool, json_from_object, json_from_str, json_from_unsigned,
    json_insert, json_into_object, json_line, json_null, json_object, Json,
};
use crate::track_cache::{CacheStats, EvictionCause};
use serde_json::Value;
use vstd::prelude::*;

verus! {

/// The event log of a relay. It is off until a file has been opened for it.
#[derive(Debug)]
pub struct EventLog {
    path: Option<String>,
}

impl EventLog {
    /// The file that is written to.
    pub closed spec fn path(&self) -> Option<Seq<char>> {
        match self.path {
            Some(path) => Some(path@),
            None => None,
        }
    }

    /// A log that is off.
    pub fn new() -> (log: EventLog)
        ensures
            log.path() is None,
    {
        EventLog { path: None }
    }
}

/// Turns the log on for a file, given whether the file could be opened. An empty
/// path leaves the log as it is. Only the first file counts.
pub fn init(log: &mut EventLog, path: &str, opened: bool)
    ensures
        final(log).path() == if old(log).path() is None && path@.len() > 0 && opened {
            Some(path@)
        } else {
            old(log).path()
        },
{
    if path.unicode_len() == 0 || !opened || enabled(log) {
        return ;
    }
    log.path = Some(path.to_owned());
}

/// Whether the log is on.
pub fn enabled(log: &EventLog) -> (enabled: bool)
    ensures
        enabled == log.path() is Some,
{
    log.path.is_some()
}

/// The members of a record: the time, the source, the name of the event, and the
/// fields of the event, which come last.
pub open spec fn record_members(event: Seq<char>, ts: Json, fields: Json) -> Map<Seq<char>, Json> {
    let common = json::no_members().insert("ts"@, ts).insert(
        "src"@,
        Json::Text("relay"@),
    ).insert("event"@, Json::Text(event));
    match fields {
        Json::Object(extra) => common.union_prefer_right(extra),
        _ => common,
    }
}

/// Returns the record of an event.
pub fn event_record(event: &str, ts: Value, fields: Value) -> (record: Value)
    ensures
        json::json(record) == Json::Object(
            record_members(event@, json::json(ts), json::json(fields)),
        ),
{
    let mut record: serde_json::Map<String, Value> = json_object();
    json_insert(&mut record, "ts".to_owned(), ts);
    json_insert(&mut record, "src".to_owned(), json_from_str("relay"));
    json_insert(&mut record, "event".to_owned(), json_from_str(event));
    if let Some(extra) = json_into_object(fields) {
        json_extend(&mut record, extra);
    }
    json_from_object(record)
}

/// Returns the line of an event, or nothing when the log is off.
pub fn emit(log: &EventLog, event: &str, ts: Value, fields: Value) -> (line: Option<String>)
    ensures
        match line {
            Some(line) => log.path() is Some && line@ == json::compact_text(
                Json::Object(record_members(event@, json::json(ts), json::json(fields))),
            ),
            None => log.path() is None,
        },
{
    if !enabled(log) {
        return None;
    }
    let record: Value = event_record(event, ts, fields);
    Some(json_line(&record))
}

/// Every record names its event and its source and carries a time, unless a
/// field of the event has the same name; and it carries every field.
pub proof fn law_records_carry_everything(event: Seq<char>, ts: Json, fields: Json, key: Seq<char>)
    ensures
        ({
            let members = record_members(event, ts, fields);
            &&& members.dom().contains("ts"@)
            &&& members.dom().contains("src"@)
            &&& members.dom().contains("event"@)
            &&& fields.member(key) matches Some(value) ==> members.dom().contains(key)
                && members[key] == value
            &&& fields.member("ts"@) is None ==> members["ts"@] == ts
            &&& fields.member("src"@) is None ==> members["src"@] == Json::Text("relay"@)
            &&& fields.member("event"@) is None ==> members["event"@] == Json::Text(event)
        }),
{
    reveal_strlit("ts");
    reveal_strlit("src");
    reveal_strlit("event");
    assert("ts"@.len() == 2);
    assert("src"@.len() == 3);
    assert("event"@.len() == 5);
}

/// What happens in a relay.
#[derive(Debug, Clone)]
pub enum RelayEvent {
    /// A SUBSCRIBE behind the live edge got its start.
    SubscribeDelayed {
        conn: u64,
        request_id: u64,
        track: String,
        is_switch: bool,
        delay_groups: u64,
        clamped: bool,
        largest_group: Option<u64>,
        oldest_cached_group: Option<u64>,
        start_group: u64,
        held: bool,
    },
    /// A SUBSCRIBE at the live edge came in.
    SubscribeLive {
        conn: u64,
        request_id: u64,
        track: String,
        is_switch: bool,
        largest_group: Option<u64>,
    },
    /// A SUBSCRIBE behind the live edge waits for the live edge.
    SubscribeHold {
        conn: u64,
        request_id: u64,
        track: String,
        delay_groups: u64,
        largest_group: Option<u64>,
    },
    /// A SWITCH came in.
    SwitchReceived {
        conn: u64,
        old_request_id: u64,
        minimum_switching_group: u64,
        track: String,
    },
    /// A switch was carried out.
    SwitchPromoted {
        conn: u64,
        relay_track_id: u64,
        track: String,
        request_id: u64,
        /// The newest group of the new track when it took over.
        trigger_group: u64,
        /// The group that the new track starts at.
        start_group: u64,
        live_edge_group: u64,
        live_edge_object: u64,
    },
    /// A switch failed.
    SwitchFailed {
        conn: u64,
        track: String,
        request_id: u64,
        failure: String,
        status_code: u64,
    },
    /// A probe was served.
    Probe { conn: u64, request_id: u64, size: u64, priority: u8 },
    /// What the cache of a track holds, once a second.
    CacheStats { relay_track_id: u64, stats: CacheStats },
    /// The first object of a group came into the cache of a track.
    CacheGroup { relay_track_id: u64, group: u64, first_object: u64 },
    /// A group left the cache.
    CacheEvict { relay_track_id: u64, group: u64, objects: u64, bytes: u64, cause: EvictionCause },
}

/// A number that may be missing.
pub open spec fn optional(number: Option<u64>) -> Json {
    match number {
        Some(number) => Json::Unsigned(number),
        None => Json::Null,
    }
}

impl RelayEvent {
    /// The name of the event in the log.
    pub open spec fn spec_name(self) -> Seq<char> {
        match self {
            RelayEvent::SubscribeDelayed { .. } => "SUBSCRIBE_RECV"@,
            RelayEvent::SubscribeLive { .. } => "SUBSCRIBE_RECV"@,
            RelayEvent::SubscribeHold { .. } => "SUBSCRIBE_HOLD"@,
            RelayEvent::SwitchReceived { .. } => "SWITCH_RECV"@,
            RelayEvent::SwitchPromoted { .. } => "SWITCH_PROMOTED"@,
            RelayEvent::SwitchFailed { .. } => "SWITCH_FAILED"@,
            RelayEvent::Probe { .. } => "PROBE"@,
            RelayEvent::CacheStats { .. } => "CACHE_STATS"@,
            RelayEvent::CacheGroup { .. } => "CACHE_GROUP"@,
            RelayEvent::CacheEvict { .. } => "CACHE_EVICT"@,
        }
    }

    /// The fields of the event in the log.
    pub open spec fn members(self) -> Map<Seq<char>, Json> {
        match self {
            RelayEvent::SubscribeDelayed {
                conn,
                request_id,
                track,
                is_switch,
                delay_groups,
                clamped,
                largest_group,
                oldest_cached_group,
                start_group,
                held,
            } => json::no_members().insert("conn"@, Json::Unsigned(conn)).insert(
                "request_id"@,
                Json::Unsigned(request_id),
            ).insert("track"@, Json::Text(track@)).insert("is_switch"@, Json::Bool(is_switch)).insert(
                "delay_groups"@,
                Json::Unsigned(delay_groups),
            ).insert(
                "decision"@,
                Json::Text(
                    if clamped {
                        "clamped"@
                    } else {
                        "ready"@
                    },
                ),
            ).insert("largest_group"@, optional(largest_group)).insert(
                "oldest_cached_group"@,
                optional(oldest_cached_group),
            ).insert("start_group"@, Json::Unsigned(start_group)).insert("held"@, Json::Bool(held)),
            RelayEvent::SubscribeLive { conn, request_id, track, is_switch, largest_group } =>
            json::no_members().insert("conn"@, Json::Unsigned(conn)).insert(
                "request_id"@,
                Json::Unsigned(request_id),
            ).insert("track"@, Json::Text(track@)).insert("is_switch"@, Json::Bool(is_switch)).insert(
                "delay_groups"@,
                Json::Null,
            ).insert("decision"@, Json::Text("live"@)).insert(
                "largest_group"@,
                optional(largest_group),
            ),
            RelayEvent::SubscribeHold { conn, request_id, track, delay_groups, largest_group } =>
            json::no_members().insert("conn"@, Json::Unsigned(conn)).insert(
                "request_id"@,
                Json::Unsigned(request_id),
            ).insert("track"@, Json::Text(track@)).insert(
                "delay_groups"@,
                Json::Unsigned(delay_groups),
            ).insert("largest_group"@, optional(largest_group)),
            RelayEvent::SwitchReceived {
                conn,
                old_request_id,
                minimum_switching_group,
                track,
            } => json::no_members().insert("conn"@, Json::Unsigned(conn)).insert(
                "request_id"@,
                Json::Null,
            ).insert("old_request_id"@, Json::Unsigned(old_request_id)).insert(
                "minimum_switching_group"@,
                Json::Unsigned(minimum_switching_group),
            ).insert("track"@, Json::Text(track@)),
            RelayEvent::SwitchPromoted {
                conn,
                relay_track_id,
                track,
                request_id,
                trigger_group,
                start_group,
                live_edge_group,
                live_edge_object,
            } => json::no_members().insert("conn"@, Json::Unsigned(conn)).insert(
                "relay_track_id"@,
                Json::Unsigned(relay_track_id),
            ).insert("track"@, Json::Text(track@)).insert(
                "request_id"@,
                Json::Unsigned(request_id),
            ).insert("trigger_group"@, Json::Unsigned(trigger_group)).insert(
                "start_group"@,
                Json::Unsigned(start_group),
            ).insert("live_edge_group"@, Json::Unsigned(live_edge_group)).insert(
                "live_edge_object"@,
                Json::Unsigned(live_edge_object),
            ),
            RelayEvent::SwitchFailed { conn, track, request_id, failure, status_code } =>
            json::no_members().insert("conn"@, Json::Unsigned(conn)).insert(
                "track"@,
                Json::Text(track@),
            ).insert("request_id"@, Json::Unsigned(request_id)).insert(
                "failure"@,
                Json::Text(failure@),
            ).insert("status_code"@, Json::Unsigned(status_code)),
            RelayEvent::Probe { conn, request_id, size, priority } => json::no_members().insert(
                "conn"@,
                Json::Unsigned(conn),
            ).insert("request_id"@, Json::Unsigned(request_id)).insert(
                "size"@,
                Json::Unsigned(size),
            ).insert("priority"@, Json::Unsigned(priority as u64)),
            RelayEvent::CacheStats { relay_track_id, stats } => json::no_members().insert(
                "relay_track_id"@,
                Json::Unsigned(relay_track_id),
            ).insert("groups"@, Json::Unsigned(stats.groups)).insert(
                "bytes"@,
                Json::Unsigned(stats.bytes),
            ).insert("oldest_group"@, optional(stats.oldest_group)).insert(
                "newest_group"@,
                optional(stats.newest_group),
            ),
            RelayEvent::CacheGroup { relay_track_id, group, first_object } =>
            json::no_members().insert("relay_track_id"@, Json::Unsigned(relay_track_id)).insert(
                "group"@,
                Json::Unsigned(group),
            ).insert("first_object"@, Json::Unsigned(first_object)),
            RelayEvent::CacheEvict { relay_track_id, group, objects, bytes, cause } =>
            json::no_members().insert("relay_track_id"@, Json::Unsigned(relay_track_id)).insert(
                "group"@,
                Json::Unsigned(group),
            ).insert("objects"@, Json::Unsigned(objects)).insert(
                "bytes"@,
                Json::Unsigned(bytes),
            ).insert("cause"@, Json::Text(cause.spec_label())),
        }
    }

    /// The name of the event in the log.
    pub fn name(&self) -> (name: &'static str)
        ensures
            name@ == self.spec_name(),
    {
        match self {
            RelayEvent::SubscribeDelayed { .. } => "SUBSCRIBE_RECV",
            RelayEvent::SubscribeLive { .. } => "SUBSCRIBE_RECV",
            RelayEvent::SubscribeHold { .. } => "SUBSCRIBE_HOLD",
            RelayEvent::SwitchReceived { .. } => "SWITCH_RECV",
            RelayEvent::SwitchPromoted { .. } => "SWITCH_PROMOTED",
            RelayEvent::SwitchFailed { .. } => "SWITCH_FAILED",
            RelayEvent::Probe { .. } => "PROBE",
            RelayEvent::CacheStats { .. } => "CACHE_STATS",
            RelayEvent::CacheGroup { .. } => "CACHE_GROUP",
            RelayEvent::CacheEvict { .. } => "CACHE_EVICT",
        }
    }

    /// The fields of the event in the log.
    pub fn fields(&self) -> (fields: Value)
        ensures
            json::json(fields) == Json::Object(self.members()),
    {
        let mut m: serde_json::Map<String, Value> = json_object();
        match self {
            RelayEvent::SubscribeDelayed {
                conn,
                request_id,
                track,
                is_switch,
                delay_groups,
                clamped,
                largest_group,
                oldest_cached_group,
                start_group,
                held,
            } => {
                set_number(&mut m, "conn", *conn);
                set_number(&mut m, "request_id", *request_id);
                set_text(&mut m, "track", track.as_str());
                set_truth(&mut m, "is_switch", *is_switch);
                set_number(&mut m, "delay_groups", *delay_groups);
                set_text(
                    &mut m,
                    "decision",
                    if *clamped {
                        "clamped"
                    } else {
                        "ready"
                    },
                );
                set_optional(&mut m, "largest_group", *largest_group);
                set_optional(&mut m, "oldest_cached_group", *oldest_cached_group);
                set_number(&mut m, "start_group", *start_group);
                set_truth(&mut m, "held", *held);
            },
            RelayEvent::SubscribeLive { conn, request_id, track, is_switch, largest_group } => {
                set_number(&mut m, "conn", *conn);
                set_number(&mut m, "request_id", *request_id);
                set_text(&mut m, "track", track.as_str());
                set_truth(&mut m, "is_switch", *is_switch);
                set_optional(&mut m, "delay_groups", None);
                set_text(&mut m, "decision", "live");
                set_optional(&mut m, "largest_group", *largest_group);
            },
            RelayEvent::SubscribeHold {
                conn,
                request_id,
                track,
                delay_groups,
                largest_group,
            } => {
                set_number(&mut m, "conn", *conn);
                set_number(&mut m, "request_id", *request_id);
                set_text(&mut m, "track", track.as_str());
                set_number(&mut m, "delay_groups", *delay_groups);
                set_optional(&mut m, "largest_group", *largest_group);
            },
            RelayEvent::SwitchReceived {
                conn,
                old_request_id,
                minimum_switching_group,
                track,
            } => {
                set_number(&mut m, "conn", *conn);
                set_optional(&mut m, "request_id", None);
                set_number(&mut m, "old_request_id", *old_request_id);
                set_number(&mut m, "minimum_switching_group", *minimum_switching_group);
                set_text(&mut m, "track", track.as_str());
            },
            RelayEvent::SwitchPromoted {
                conn,
                relay_track_id,
                track,
                request_id,
                trigger_group,
                start_group,
                live_edge_group,
                live_edge_object,
            } => {
                set_number(&mut m, "conn", *conn);
                set_number(&mut m, "relay_track_id", *relay_track_id);
                set_text(&mut m, "track", track.as_str());
                set_number(&mut m, "request_id", *request_id);
                set_number(&mut m, "trigger_group", *trigger_group);
                set_number(&mut m, "start_group", *start_group);
                set_number(&mut m, "live_edge_group", *live_edge_group);
                set_number(&mut m, "live_edge_object", *live_edge_object);
            },
            RelayEvent::SwitchFailed { conn, track, request_id, failure, status_code } => {
                set_number(&mut m, "conn", *conn);
                set_text(&mut m, "track", track.as_str());
                set_number(&mut m, "request_id", *request_id);
                set_text(&mut m, "failure", failure.as_str());
                set_number(&mut m, "status_code", *status_code);
            },
            RelayEvent::Probe { conn, request_id, size, priority } => {
                set_number(&mut m, "conn", *conn);
                set_number(&mut m, "request_id", *request_id);
                set_number(&mut m, "size", *size);
                set_number(&mut m, "priority", *priority as u64);
            },
            RelayEvent::CacheStats { relay_track_id, stats } => {
                set_number(&mut m, "relay_track_id", *relay_track_id);
                set_number(&mut m, "groups", stats.groups);
                set_number(&mut m, "bytes", stats.bytes);
                set_optional(&mut m, "oldest_group", stats.oldest_group);
                set_optional(&mut m, "newest_group", stats.newest_group);
            },
            RelayEvent::CacheGroup { relay_track_id, group, first_object } => {
                set_number(&mut m, "relay_track_id", *relay_track_id);
                set_number(&mut m, "group", *group);
                set_number(&mut m, "first_object", *first_object);
            },
            RelayEvent::CacheEvict { relay_track_id, group, objects, bytes, cause } => {
                set_number(&mut m, "relay_track_id", *relay_track_id);
                set_number(&mut m, "group", *group);
                set_number(&mut m, "objects", *objects);
                set_number(&mut m, "bytes", *bytes);
                set_text(&mut m, "cause", cause.label());
            },
        }
        json_from_object(m)
    }
}

fn set_number(members: &mut serde_json::Map<String, Value>, key: &str, number: u64)
    ensures
        json::object_members(*final(members)) == json::object_members(*old(members)).insert(
            key@,
            Json::Unsigned(number),
        ),
{
    json_insert(members, key.to_owned(), json_from_unsigned(number));
}

fn set_text(members: &mut serde_json::Map<String, Value>, key: &str, text: &str)
    ensures
        json::object_members(*final(members)) == json::object_members(*old(members)).insert(
            key@,
            Json::Text(text@),
        ),
{
    json_insert(members, key.to_owned(), json_from_str(text));
}

fn set_truth(members: &mut serde_json::Map<String, Value>, key: &str, truth: bool)
    ensures
        json::object_members(*final(members)) == json::object_members(*old(members)).insert(
            key@,
            Json::Bool(truth),
        ),
{
    json_insert(members, key.to_owned(), json_from_bool(truth));
}

fn set_optional(members: &mut serde_json::Map<String, Value>, key: &str, number: Option<u64>)
    ensures
        json::object_members(*final(members)) == json::object_members(*old(members)).insert(
            key@,
            optional(number),
        ),
{
    let value: Value = match number {
        Some(number) => json_from_unsigned(number),
        None => json_null(),
    };
    json_insert(members, key.to_owned(), value);
}

/// A SUBSCRIBE with a delay is logged with its connection, its request, the delay, what
/// was decided, and the groups that the decision went by.
/// No other member is written.
pub proof fn law_delayed_subscribe_is_logged(event: RelayEvent, key: Seq<char>)
    requires
        event is SubscribeDelayed,
    ensures
        event matches RelayEvent::SubscribeDelayed {
            conn,
            request_id,
            track,
            is_switch,
            delay_groups,
            clamped,
            largest_group,
            oldest_cached_group,
            start_group,
            held,
        } ==> {
            let members = event.members();
            &&& members["conn"@] == Json::Unsigned(conn)
            &&& members["request_id"@] == Json::Unsigned(request_id)
            &&& members["track"@] == Json::Text(track@)
            &&& members["is_switch"@] == Json::Bool(is_switch)
            &&& members["delay_groups"@] == Json::Unsigned(delay_groups)
            &&& members["decision"@] == Json::Text(
                if clamped {
                    "clamped"@
                } else {
                    "ready"@
                },
            )
            &&& members["largest_group"@] == optional(largest_group)
            &&& members["oldest_cached_group"@] == optional(oldest_cached_group)
            &&& members["start_group"@] == Json::Unsigned(start_group)
            &&& members["held"@] == Json::Bool(held)
            &&& members.dom().contains(key) <==> key == "conn"@
                || key == "request_id"@
                || key == "track"@
                || key == "is_switch"@
                || key == "delay_groups"@
                || key == "decision"@
                || key == "largest_group"@
                || key == "oldest_cached_group"@
                || key == "start_group"@
                || key == "held"@
        },
{
    reveal_strlit("conn");
    reveal_strlit("request_id");
    reveal_strlit("track");
    reveal_strlit("is_switch");
    reveal_strlit("delay_groups");
    reveal_strlit("decision");
    reveal_strlit("largest_group");
    reveal_strlit("oldest_cached_group");
    reveal_strlit("start_group");
    reveal_strlit("held");
    assert("conn"@.len() == 4);
    assert("request_id"@.len() == 10);
    assert("track"@.len() == 5);
    assert("is_switch"@.len() == 9);
    assert("delay_groups"@.len() == 12);
    assert("decision"@.len() == 8);
    assert("largest_group"@.len() == 13);
    assert("oldest_cached_group"@.len() == 19);
    assert("start_group"@.len() == 11);
    assert("held"@.len() == 4);
    assert("conn"@[0] != "held"@[0]);
}

/// A SUBSCRIBE without a delay is logged as live, with no delay.
/// No other member is written.
pub proof fn law_live_subscribe_is_logged(event: RelayEvent, key: Seq<char>)
    requires
        event is SubscribeLive,
    ensures
        event matches RelayEvent::SubscribeLive {
            conn,
            request_id,
            track,
            is_switch,
            largest_group,
        } ==> {
            let members = event.members();
            &&& members["conn"@] == Json::Unsigned(conn)
            &&& members["request_id"@] == Json::Unsigned(request_id)
            &&& members["track"@] == Json::Text(track@)
            &&& members["is_switch"@] == Json::Bool(is_switch)
            &&& members["delay_groups"@] == Json::Null
            &&& members["decision"@] == Json::Text("live"@)
            &&& members["largest_group"@] == optional(largest_group)
            &&& members.dom().contains(key) <==> key == "conn"@
                || key == "request_id"@
                || key == "track"@
                || key == "is_switch"@
                || key == "delay_groups"@
                || key == "decision"@
                || key == "largest_group"@
        },
{
    reveal_strlit("conn");
    reveal_strlit("request_id");
    reveal_strlit("track");
    reveal_strlit("is_switch");
    reveal_strlit("delay_groups");
    reveal_strlit("decision");
    reveal_strlit("largest_group");
    assert("conn"@.len() == 4);
    assert("request_id"@.len() == 10);
    assert("track"@.len() == 5);
    assert("is_switch"@.len() == 9);
    assert("delay_groups"@.len() == 12);
    assert("decision"@.len() == 8);
    assert("largest_group"@.len() == 13);
}

/// A SUBSCRIBE that is held is logged with its delay and the largest group at hand.
/// No other member is written.
pub proof fn law_held_subscribe_is_logged(event: RelayEvent, key: Seq<char>)
    requires
        event is SubscribeHold,
    ensures
        event matches RelayEvent::SubscribeHold {
            conn,
            request_id,
            track,
            delay_groups,
            largest_group,
        } ==> {
            let members = event.members();
            &&& members["conn"@] == Json::Unsigned(conn)
            &&& members["request_id"@] == Json::Unsigned(request_id)
            &&& members["track"@] == Json::Text(track@)
            &&& members["delay_groups"@] == Json::Unsigned(delay_groups)
            &&& members["largest_group"@] == optional(largest_group)
            &&& members.dom().contains(key) <==> key == "conn"@
                || key == "request_id"@
                || key == "track"@
                || key == "delay_groups"@
                || key == "largest_group"@
        },
{
    reveal_strlit("conn");
    reveal_strlit("request_id");
    reveal_strlit("track");
    reveal_strlit("delay_groups");
    reveal_strlit("largest_group");
    assert("conn"@.len() == 4);
    assert("request_id"@.len() == 10);
    assert("track"@.len() == 5);
    assert("delay_groups"@.len() == 12);
    assert("largest_group"@.len() == 13);
}

/// A SWITCH is logged with the request that it replaces and the group that it may not
/// begin before. It has no request id of its own yet.
/// No other member is written.
pub proof fn law_received_switch_is_logged(event: RelayEvent, key: Seq<char>)
    requires
        event is SwitchReceived,
    ensures
        event matches RelayEvent::SwitchReceived {
            conn,
            old_request_id,
            minimum_switching_group,
            track,
        } ==> {
            let members = event.members();
            &&& members["conn"@] == Json::Unsigned(conn)
            &&& members["request_id"@] == Json::Null
            &&& members["old_request_id"@] == Json::Unsigned(old_request_id)
            &&& members["minimum_switching_group"@] == Json::Unsigned(minimum_switching_group)
            &&& members["track"@] == Json::Text(track@)
            &&& members.dom().contains(key) <==> key == "conn"@
                || key == "request_id"@
                || key == "old_request_id"@
                || key == "minimum_switching_group"@
                || key == "track"@
        },
{
    reveal_strlit("conn");
    reveal_strlit("request_id");
    reveal_strlit("old_request_id");
    reveal_strlit("minimum_switching_group");
    reveal_strlit("track");
    assert("conn"@.len() == 4);
    assert("request_id"@.len() == 10);
    assert("old_request_id"@.len() == 14);
    assert("minimum_switching_group"@.len() == 23);
    assert("track"@.len() == 5);
}

/// A SWITCH that is promoted is logged with the group that set it off, the group that it
/// begins at and the live edge.
/// No other member is written.
pub proof fn law_promoted_switch_is_logged(event: RelayEvent, key: Seq<char>)
    requires
        event is SwitchPromoted,
    ensures
        event matches RelayEvent::SwitchPromoted {
            conn,
            relay_track_id,
            track,
            request_id,
            trigger_group,
            start_group,
            live_edge_group,
            live_edge_object,
        } ==> {
            let members = event.members();
            &&& members["conn"@] == Json::Unsigned(conn)
            &&& members["relay_track_id"@] == Json::Unsigned(relay_track_id)
            &&& members["track"@] == Json::Text(track@)
            &&& members["request_id"@] == Json::Unsigned(request_id)
            &&& members["trigger_group"@] == Json::Unsigned(trigger_group)
            &&& members["start_group"@] == Json::Unsigned(start_group)
            &&& members["live_edge_group"@] == Json::Unsigned(live_edge_group)
            &&& members["live_edge_object"@] == Json::Unsigned(live_edge_object)
            &&& members.dom().contains(key) <==> key == "conn"@
                || key == "relay_track_id"@
                || key == "track"@
                || key == "request_id"@
                || key == "trigger_group"@
                || key == "start_group"@
                || key == "live_edge_group"@
                || key == "live_edge_object"@
        },
{
    reveal_strlit("conn");
    reveal_strlit("relay_track_id");
    reveal_strlit("track");
    reveal_strlit("request_id");
    reveal_strlit("trigger_group");
    reveal_strlit("start_group");
    reveal_strlit("live_edge_group");
    reveal_strlit("live_edge_object");
    assert("conn"@.len() == 4);
    assert("relay_track_id"@.len() == 14);
    assert("track"@.len() == 5);
    assert("request_id"@.len() == 10);
    assert("trigger_group"@.len() == 13);
    assert("start_group"@.len() == 11);
    assert("live_edge_group"@.len() == 15);
    assert("live_edge_object"@.len() == 16);
}

/// A SWITCH that failed is logged with what failed and the status that was sent.
/// No other member is written.
pub proof fn law_failed_switch_is_logged(event: RelayEvent, key: Seq<char>)
    requires
        event is SwitchFailed,
    ensures
        event matches RelayEvent::SwitchFailed {
            conn,
            track,
            request_id,
            failure,
            status_code,
        } ==> {
            let members = event.members();
            &&& members["conn"@] == Json::Unsigned(conn)
            &&& members["track"@] == Json::Text(track@)
            &&& members["request_id"@] == Json::Unsigned(request_id)
            &&& members["failure"@] == Json::Text(failure@)
            &&& members["status_code"@] == Json::Unsigned(status_code)
            &&& members.dom().contains(key) <==> key == "conn"@
                || key == "track"@
                || key == "request_id"@
                || key == "failure"@
                || key == "status_code"@
        },
{
    reveal_strlit("conn");
    reveal_strlit("track");
    reveal_strlit("request_id");
    reveal_strlit("failure");
    reveal_strlit("status_code");
    assert("conn"@.len() == 4);
    assert("track"@.len() == 5);
    assert("request_id"@.len() == 10);
    assert("failure"@.len() == 7);
    assert("status_code"@.len() == 11);
}

/// A probe is logged with its size and priority.
/// No other member is written.
pub proof fn law_probe_is_logged(event: RelayEvent, key: Seq<char>)
    requires
        event is Probe,
    ensures
        event matches RelayEvent::Probe { conn, request_id, size, priority } ==> {
            let members = event.members();
            &&& members["conn"@] == Json::Unsigned(conn)
            &&& members["request_id"@] == Json::Unsigned(request_id)
            &&& members["size"@] == Json::Unsigned(size)
            &&& members["priority"@] == Json::Unsigned(priority as u64)
            &&& members.dom().contains(key) <==> key == "conn"@
                || key == "request_id"@
                || key == "size"@
                || key == "priority"@
        },
{
    reveal_strlit("conn");
    reveal_strlit("request_id");
    reveal_strlit("size");
    reveal_strlit("priority");
    assert("conn"@.len() == 4);
    assert("request_id"@.len() == 10);
    assert("size"@.len() == 4);
    assert("priority"@.len() == 8);
    assert("conn"@[0] != "size"@[0]);
}

/// What a cache holds is logged with the bounds of its groups.
/// No other member is written.
pub proof fn law_cache_stats_is_logged(event: RelayEvent, key: Seq<char>)
    requires
        event is CacheStats,
    ensures
        event matches RelayEvent::CacheStats { relay_track_id, stats } ==> {
            let members = event.members();
            &&& members["relay_track_id"@] == Json::Unsigned(relay_track_id)
            &&& members["groups"@] == Json::Unsigned(stats.groups)
            &&& members["bytes"@] == Json::Unsigned(stats.bytes)
            &&& members["oldest_group"@] == optional(stats.oldest_group)
            &&& members["newest_group"@] == optional(stats.newest_group)
            &&& members.dom().contains(key) <==> key == "relay_track_id"@
                || key == "groups"@
                || key == "bytes"@
                || key == "oldest_group"@
                || key == "newest_group"@
        },
{
    reveal_strlit("relay_track_id");
    reveal_strlit("groups");
    reveal_strlit("bytes");
    reveal_strlit("oldest_group");
    reveal_strlit("newest_group");
    assert("relay_track_id"@.len() == 14);
    assert("groups"@.len() == 6);
    assert("bytes"@.len() == 5);
    assert("oldest_group"@.len() == 12);
    assert("newest_group"@.len() == 12);
    assert("oldest_group"@[0] != "newest_group"@[0]);
}

/// A group that enters the cache is logged with its first object.
/// No other member is written.
pub proof fn law_cached_group_is_logged(event: RelayEvent, key: Seq<char>)
    requires
        event is CacheGroup,
    ensures
        event matches RelayEvent::CacheGroup { relay_track_id, group, first_object } ==> {
            let members = event.members();
            &&& members["relay_track_id"@] == Json::Unsigned(relay_track_id)
            &&& members["group"@] == Json::Unsigned(group)
            &&& members["first_object"@] == Json::Unsigned(first_object)
            &&& members.dom().contains(key) <==> key == "relay_track_id"@
                || key == "group"@
                || key == "first_object"@
        },
{
    reveal_strlit("relay_track_id");
    reveal_strlit("group");
    reveal_strlit("first_object");
    assert("relay_track_id"@.len() == 14);
    assert("group"@.len() == 5);
    assert("first_object"@.len() == 12);
}

/// A group that leaves the cache is logged with its size and the cause.
/// No other member is written.
pub proof fn law_evicted_group_is_logged(event: RelayEvent, key: Seq<char>)
    requires
        event is CacheEvict,
    ensures
        event matches RelayEvent::CacheEvict {
            relay_track_id,
            group,
            objects,
            bytes,
            cause,
        } ==> {
            let members = event.members();
            &&& members["relay_track_id"@] == Json::Unsigned(relay_track_id)
            &&& members["group"@] == Json::Unsigned(group)
            &&& members["objects"@] == Json::Unsigned(objects)
            &&& members["bytes"@] == Json::Unsigned(bytes)
            &&& members["cause"@] == Json::Text(cause.spec_label())
            &&& members.dom().contains(key) <==> key == "relay_track_id"@
                || key == "group"@
                || key == "objects"@
                || key == "bytes"@
                || key == "cause"@
        },
{
    reveal_strlit("relay_track_id");
    reveal_strlit("group");
    reveal_strlit("objects");
    reveal_strlit("bytes");
    reveal_strlit("cause");
    assert("relay_track_id"@.len() == 14);
    assert("group"@.len() == 5);
    assert("objects"@.len() == 7);
    assert("bytes"@.len() == 5);
    assert("cause"@.len() == 5);
    assert("group"@[0] != "bytes"@[0]);
    assert("group"@[0] != "cause"@[0]);
    assert("bytes"@[0] != "cause"@[0]);
}

/// Two events bear the same name only where they are of one kind, or both answer a
/// SUBSCRIBE: one with a delay and one without.
pub proof fn law_events_are_named_apart(a: RelayEvent, b: RelayEvent)
    requires
        a.spec_name() == b.spec_name(),
    ensures
        a is SubscribeDelayed || a is SubscribeLive <==> b is SubscribeDelayed
            || b is SubscribeLive,
        a is SubscribeHold <==> b is SubscribeHold,
        a is SwitchReceived <==> b is SwitchReceived,
        a is SwitchPromoted <==> b is SwitchPromoted,
        a is SwitchFailed <==> b is SwitchFailed,
        a is Probe <==> b is Probe,
        a is CacheStats <==> b is CacheStats,
        a is CacheGroup <==> b is CacheGroup,
        a is CacheEvict <==> b is CacheEvict,
{
    reveal_strlit("SUBSCRIBE_RECV");
    reveal_strlit("SUBSCRIBE_HOLD");
    reveal_strlit("SWITCH_RECV");
    reveal_strlit("SWITCH_PROMOTED");
    reveal_strlit("SWITCH_FAILED");
    reveal_strlit("PROBE");
    reveal_strlit("CACHE_STATS");
    reveal_strlit("CACHE_GROUP");
    reveal_strlit("CACHE_EVICT");
    assert("SUBSCRIBE_RECV"@.len() == 14);
    assert("SUBSCRIBE_HOLD"@.len() == 14);
    assert("SWITCH_RECV"@.len() == 11);
    assert("SWITCH_PROMOTED"@.len() == 15);
    assert("SWITCH_FAILED"@.len() == 13);
    assert("PROBE"@.len() == 5);
    assert("CACHE_STATS"@.len() == 11);
    assert("CACHE_GROUP"@.len() == 11);
    assert("CACHE_EVICT"@.len() == 11);
    assert("SUBSCRIBE_RECV"@[10] != "SUBSCRIBE_HOLD"@[10]);
    assert("SWITCH_RECV"@[0] != "CACHE_STATS"@[0]);
    assert("SWITCH_RECV"@[0] != "CACHE_GROUP"@[0]);
    assert("CACHE_STATS"@[6] != "CACHE_GROUP"@[6]);
    assert("SWITCH_RECV"@[0] != "CACHE_EVICT"@[0]);
    assert("CACHE_STATS"@[6] != "CACHE_EVICT"@[6]);
    assert("CACHE_GROUP"@[6] != "CACHE_EVICT"@[6]);
}

/// A number that is missing is logged as null, and any other as itself.
pub proof fn law_missing_numbers_are_null(number: Option<u64>)
    ensures
        number is None ==> optional(number) is Null,
        number matches Some(number) ==> optional(Some(number)) == Json::Unsigned(number),
{
}

} // verus!
