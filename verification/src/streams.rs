//! Data streams: their identity, their headers, and their place in the QUIC
//! send schedule.

use crate::keyed::Key;
use crate::model::GroupOrder;
use vstd::prelude::*;

verus! {

/// Publisher priority of objects whose publisher names none.
pub const DEFAULT_PUBLISHER_PRIORITY: u8 = 128;

/// Number of priority values that one pair of priorities takes up.
pub const BAND_SIZE: i64 = 65536;

/// Identity of a data stream toward one subscriber.
#[derive(Debug, Clone, Copy, PartialEq, Eq, Structural)]
pub enum StreamId {
    Subgroup { track_alias: u64, group_id: u64, subgroup_id: Option<u64> },
    Fetch { track_alias: u64, request_id: u64 },
}

impl Key for StreamId {
    fn same(self, other: Self) -> (same: bool) {
        self == other
    }
}

impl StreamId {
    pub fn new_subgroup(track_alias: u64, group_id: u64, subgroup_id: Option<u64>) -> (id: StreamId)
        ensures
            id == (StreamId::Subgroup { track_alias, group_id, subgroup_id }),
    {
        StreamId::Subgroup { track_alias, group_id, subgroup_id }
    }

    pub fn new_fetch(track_alias: u64, request_id: u64) -> (id: StreamId)
        ensures
            id == (StreamId::Fetch { track_alias, request_id }),
    {
        StreamId::Fetch { track_alias, request_id }
    }
}

/// One subgroup of one group.
#[derive(Debug, Clone, Copy, PartialEq, Eq, Structural)]
pub struct SubgroupKey {
    pub group_id: u64,
    pub subgroup_id: u64,
}

impl Key for SubgroupKey {
    fn same(self, other: Self) -> (same: bool) {
        self == other
    }
}

/// Header of a subgroup stream.
#[derive(Debug, Clone, Copy, PartialEq, Eq, Structural)]
pub struct SubgroupHeader {
    pub track_alias: u64,
    pub group_id: u64,
    pub subgroup_id: Option<u64>,
    pub publisher_priority: Option<u8>,
    pub has_properties: bool,
    pub contains_end_of_group: bool,
    pub first_object: bool,
}

impl SubgroupHeader {
    /// A header that names its subgroup.
    pub fn new_with_explicit_id(
        track_alias: u64,
        group_id: u64,
        subgroup_id: u64,
        publisher_priority: Option<u8>,
        has_properties: bool,
        contains_end_of_group: bool,
        first_object: bool,
    ) -> (header: SubgroupHeader)
        ensures
            header == (SubgroupHeader {
                track_alias,
                group_id,
                subgroup_id: Some(subgroup_id),
                publisher_priority,
                has_properties,
                contains_end_of_group,
                first_object,
            }),
    {
        SubgroupHeader {
            track_alias,
            group_id,
            subgroup_id: Some(subgroup_id),
            publisher_priority,
            has_properties,
            contains_end_of_group,
            first_object,
        }
    }
}

/// Header of a data stream.
#[derive(Debug, Clone, Copy, PartialEq, Eq, Structural)]
pub enum HeaderInfo {
    Subgroup { header: SubgroupHeader },
    Fetch { request_id: u64 },
}

impl HeaderInfo {
    /// The stream toward the subscriber that a header opens.
    pub open spec fn stream_id(self, relay_track_id: u64) -> StreamId {
        match self {
            HeaderInfo::Subgroup { header } => StreamId::Subgroup {
                track_alias: relay_track_id,
                group_id: header.group_id,
                subgroup_id: header.subgroup_id,
            },
            HeaderInfo::Fetch { request_id } => StreamId::Fetch {
                track_alias: relay_track_id,
                request_id,
            },
        }
    }
}

/// The stream toward the subscriber that a header opens.
pub fn build_stream_id(relay_track_id: u64, header: &HeaderInfo) -> (id: StreamId)
    ensures
        id == header.stream_id(relay_track_id),
{
    match header {
        HeaderInfo::Subgroup { header } => StreamId::new_subgroup(
            relay_track_id,
            header.group_id,
            header.subgroup_id,
        ),
        HeaderInfo::Fetch { request_id } => StreamId::new_fetch(relay_track_id, *request_id),
    }
}

/// Send priority of a stream. The `i32` range is cut into bands, one for each
/// pair of subscriber and publisher priority, the most urgent pair at the top.
/// Inside its band a stream stands by its group: counted down from the top for
/// ascending and original order, counted up from the bottom for descending.
pub open spec fn stream_priority(
    sub_prio: u8,
    pub_prio: u8,
    group_order: GroupOrder,
    group_id: u64,
) -> int {
    let band_min = i32::MIN + ((255 - sub_prio) * 256 + (255 - pub_prio)) * 65536;
    let slot = group_id as int % 65536;
    match group_order {
        GroupOrder::Ascending | GroupOrder::Original => band_min + 65535 - slot,
        GroupOrder::Descending => band_min + slot,
    }
}

/// Computes the QUIC send priority of a stream.
pub fn compute_stream_priority(
    sub_prio: u8,
    pub_prio: u8,
    group_order: GroupOrder,
    group_id: u64,
) -> (priority: i32)
    ensures
        priority == stream_priority(sub_prio, pub_prio, group_order, group_id),
{
    let priority_index: i64 = (255 - sub_prio as i64) * 256 + (255 - pub_prio as i64);
    let band_min: i64 = i32::MIN as i64 + priority_index * BAND_SIZE;
    let group_slot: i64 = (group_id % 65536) as i64;
    match group_order {
        GroupOrder::Ascending | GroupOrder::Original => {
            (band_min + BAND_SIZE - 1 - group_slot) as i32
        },
        GroupOrder::Descending => (band_min + group_slot) as i32,
    }
}

/// Every priority fits in an `i32`.
pub proof fn law_priority_fits(sub_prio: u8, pub_prio: u8, order: GroupOrder, group_id: u64)
    ensures
        i32::MIN <= stream_priority(sub_prio, pub_prio, order, group_id) <= i32::MAX,
{
}

/// A more urgent subscriber outranks a less urgent one, whatever the publisher
/// priorities, orders and groups.
pub proof fn law_subscriber_priority_dominates(
    urgent: u8,
    other: u8,
    urgent_pub: u8,
    other_pub: u8,
    urgent_order: GroupOrder,
    other_order: GroupOrder,
    urgent_group: u64,
    other_group: u64,
)
    requires
        urgent < other,
    ensures
        stream_priority(urgent, urgent_pub, urgent_order, urgent_group) > stream_priority(
            other,
            other_pub,
            other_order,
            other_group,
        ),
{
}

/// Between streams of equal subscriber priority the publisher priority decides,
/// whatever the orders and groups.
pub proof fn law_publisher_priority_breaks_ties(
    sub_prio: u8,
    urgent_pub: u8,
    other_pub: u8,
    urgent_order: GroupOrder,
    other_order: GroupOrder,
    urgent_group: u64,
    other_group: u64,
)
    requires
        urgent_pub < other_pub,
    ensures
        stream_priority(sub_prio, urgent_pub, urgent_order, urgent_group) > stream_priority(
            sub_prio,
            other_pub,
            other_order,
            other_group,
        ),
{
}

/// Within one run of 65536 groups an earlier group outranks a later one in
/// ascending order, and the other way round in descending order.
pub proof fn law_group_order_decides_in_band(
    sub_prio: u8,
    pub_prio: u8,
    earlier: u64,
    later: u64,
)
    requires
        earlier < later,
        earlier / 65536 == later / 65536,
    ensures
        stream_priority(sub_prio, pub_prio, GroupOrder::Ascending, earlier) > stream_priority(
            sub_prio,
            pub_prio,
            GroupOrder::Ascending,
            later,
        ),
        stream_priority(sub_prio, pub_prio, GroupOrder::Descending, earlier) < stream_priority(
            sub_prio,
            pub_prio,
            GroupOrder::Descending,
            later,
        ),
{
}

/// Original order is scheduled like ascending order.
pub proof fn law_original_order_is_ascending(sub_prio: u8, pub_prio: u8, group_id: u64)
    ensures
        stream_priority(sub_prio, pub_prio, GroupOrder::Original, group_id) == stream_priority(
            sub_prio,
            pub_prio,
            GroupOrder::Ascending,
            group_id,
        ),
{
}

/// Whether writing `object_id` on a stream whose last object is `previous`
/// would break the stream: object ids on a subgroup stream increase strictly.
pub open spec fn breaks_monotonicity(previous: Option<u64>, object_id: u64) -> bool {
    previous matches Some(prev) && object_id <= prev
}

/// Whether writing `object_id` on a stream whose last object is `previous`
/// would break the stream. A repeated id and a late lower one both do; a stream
/// that has carried nothing takes any id.
pub fn breaks_stream_monotonicity(previous: Option<u64>, object_id: u64) -> (breaks: bool)
    ensures
        breaks == breaks_monotonicity(previous, object_id),
{
    match previous {
        Some(prev) => object_id <= prev,
        None => false,
    }
}

/// The highest priority is that of the first group of the most urgent stream, the
/// lowest that of the last slot of the least urgent one, and one group more or
/// less is one step.
pub proof fn law_priorities_fill_the_range(sub_prio: u8, pub_prio: u8, group_id: u64)
    ensures
        stream_priority(0, 0, GroupOrder::Ascending, 0) == i32::MAX,
        stream_priority(255, 255, GroupOrder::Descending, 0) == i32::MIN,
        stream_priority(255, 255, GroupOrder::Ascending, 65535) == i32::MIN,
        group_id % 65536 != 65535 && group_id < u64::MAX ==> stream_priority(
            sub_prio,
            pub_prio,
            GroupOrder::Ascending,
            group_id,
        ) == stream_priority(
            sub_prio,
            pub_prio,
            GroupOrder::Ascending,
            (group_id + 1) as u64,
        ) + 1,
        stream_priority(sub_prio, pub_prio, GroupOrder::Ascending, group_id) - stream_priority(
            sub_prio,
            pub_prio,
            GroupOrder::Descending,
            group_id,
        ) == 65535 - 2 * (group_id % 65536),
{
}

/// A stream is told apart by its track, its group and its subgroup, or by its
/// track and its request.
pub proof fn law_stream_ids_tell_streams_apart(
    relay_track_id: u64,
    other_track_id: u64,
    a: HeaderInfo,
    b: HeaderInfo,
)
    ensures
        a.stream_id(relay_track_id) == b.stream_id(other_track_id) <==> relay_track_id
            == other_track_id && match (a, b) {
            (HeaderInfo::Subgroup { header: x }, HeaderInfo::Subgroup { header: y }) => x.group_id
                == y.group_id && x.subgroup_id == y.subgroup_id,
            (HeaderInfo::Fetch { request_id: x }, HeaderInfo::Fetch { request_id: y }) => x == y,
            _ => false,
        },
{
}

/// The alias on a stream is the relay's own, whatever the header says.
pub proof fn law_streams_carry_the_relays_alias(relay_track_id: u64, header: HeaderInfo)
    ensures
        match header.stream_id(relay_track_id) {
            StreamId::Subgroup { track_alias, group_id, subgroup_id } => track_alias
                == relay_track_id && (header matches HeaderInfo::Subgroup { header: h } && h.group_id
                == group_id && h.subgroup_id == subgroup_id),
            StreamId::Fetch { track_alias, request_id } => track_alias == relay_track_id && (
            header matches HeaderInfo::Fetch { request_id: r } && r == request_id),
        },
{
}

/// On a fresh stream any object may come first; then exactly those with a larger
/// id than the last may follow.
pub proof fn law_ids_on_a_stream_grow(previous: u64, object_id: u64)
    ensures
        !breaks_monotonicity(None, object_id),
        breaks_monotonicity(Some(previous), object_id) <==> object_id <= previous,
{
}

} // verus!
