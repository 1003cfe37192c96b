//! Bandwidth probes: a SUBSCRIBE to `.probe:<size>:<priority>` is answered by the
//! relay itself with `size` zero bytes on one stream.

use crate::decimal::{self, find_byte, parse_decimal};
use crate::messages::PublishDone;
use crate::model::{Location, MessageParameter};
use crate::status::PublishDoneStatusCode;
use crate::streams::{StreamId, SubgroupHeader};
use crate::track_name::bytes_equal;
use vstd::prelude::*;

verus! {

/// First alias of probe tracks. It lies far above any alias that a track of the
/// relay gets, and below the limit of a variable-length integer.
pub const PROBE_ALIAS_BASE: u64 = 0x1000_0000_0000_0000;

/// Largest probe.
pub const PROBE_MAX_SIZE: usize = 16_777_216;

/// Payload bytes of one object of a probe. A receiver sees one read per object,
/// so several objects give it several samples of the arrival times.
pub const PROBE_CHUNK_SIZE: usize = 4096;

/// What a probe's track name begins with: `.probe:`.
pub open spec fn probe_prefix() -> Seq<u8> {
    seq![0x2eu8, 0x70u8, 0x72u8, 0x6fu8, 0x62u8, 0x65u8, 0x3au8]
}

/// The probe that a track name asks for: `.probe:<size>:<priority>`, with a size
/// between 1 and [`PROBE_MAX_SIZE`] and a priority that fits in a byte.
pub open spec fn probe_of(name: Seq<u8>) -> Option<(usize, u8)> {
    let colon = decimal::position_of(name, 7, 0x3a);
    if name.len() < 7 || name.take(7) != probe_prefix() || colon >= name.len() {
        None
    } else {
        match (
            decimal::decimal(name.subrange(7, colon), PROBE_MAX_SIZE as u64),
            decimal::decimal(name.subrange(colon + 1, name.len() as int), 255),
        ) {
            (Some(size), Some(priority)) => if size == 0 {
                None
            } else {
                Some((size as usize, priority as u8))
            },
            _ => None,
        }
    }
}

/// Reads `.probe:<size>:<priority>` from a track name. Every other name gives
/// `None`.
pub fn parse_probe_track_name(name_bytes: &[u8]) -> (probe: Option<(usize, u8)>)
    ensures
        probe == probe_of(name_bytes@),
{
    let prefix: [u8; 7] = [0x2e, 0x70, 0x72, 0x6f, 0x62, 0x65, 0x3a];
    proof {
        assert(prefix@ =~= probe_prefix());
    }
    if name_bytes.len() < 7 {
        return None;
    }
    proof {
        assert(name_bytes@.subrange(0, 7) =~= name_bytes@.take(7));
    }
    if !bytes_equal(vstd::slice::slice_subrange(name_bytes, 0, 7), prefix.as_slice()) {
        return None;
    }
    let colon: usize = find_byte(name_bytes, 7, 0x3a);
    if colon >= name_bytes.len() {
        return None;
    }
    let size: u64 = match parse_decimal(name_bytes, 7, colon, PROBE_MAX_SIZE as u64) {
        Some(size) => size,
        None => {
            return None;
        },
    };
    let priority: u64 = match parse_decimal(name_bytes, colon + 1, name_bytes.len(), 255) {
        Some(priority) => priority,
        None => {
            return None;
        },
    };
    if size == 0 {
        return None;
    }
    Some((size as usize, priority as u8))
}

/// Every name of the form `.probe:<size>:<priority>` is a probe, and it is read
/// back as it was written.
pub proof fn law_probe_name_is_read_back(
    size_text: Seq<u8>,
    priority_text: Seq<u8>,
    size: u64,
    priority: u64,
)
    requires
        decimal::decimal(size_text, PROBE_MAX_SIZE as u64) == Some(size),
        decimal::decimal(priority_text, 255) == Some(priority),
        size > 0,
    ensures
        probe_of(probe_prefix() + size_text + seq![0x3au8] + priority_text) == Some(
            (size as usize, priority as u8),
        ),
{
    let name = probe_prefix() + size_text + seq![0x3au8] + priority_text;
    let n = size_text.len() as int;
    let colon = decimal::position_of(name, 7, 0x3a);
    decimal::lemma_position_of(name, 7, 0x3a);
    assert(name.take(7) =~= probe_prefix());
    assert(name[7 + n] == 0x3a);
    assert forall|j: int| 7 <= j < 7 + n implies name[j] != 0x3a by {
        let at = j - 7;
        assert(name[j] == size_text[at]);
        let digits = decimal::without_plus(size_text);
        if digits == size_text {
            assert(decimal::is_digit(digits[at]));
        } else if at > 0 {
            assert(digits[at - 1] == size_text[at]);
            assert(decimal::is_digit(digits[at - 1]));
        }
    }
    assert(colon == 7 + n);
    assert(name.subrange(7, colon) =~= size_text);
    assert(name.subrange(colon + 1, name.len() as int) =~= priority_text);
}

/// What the relay sends for a probe, before the payload.
#[derive(Debug)]
pub struct ProbePlan {
    pub track_alias: u64,
    /// The parameters of the SUBSCRIBE_OK.
    pub ok_parameters: Vec<MessageParameter>,
    pub header: SubgroupHeader,
    pub stream_id: StreamId,
    /// Send priority of the stream: 0, behind real media.
    pub priority: i32,
    /// PUBLISH_DONE, sent as soon as the stream is open: the probe is one group
    /// on one stream.
    pub done: PublishDone,
}

/// Plans the answer to a probe. `probes_before` counts the probes before it, so
/// that each gets an alias of its own. A probe of priority 0 is published at
/// the lowest priority, every other one at the highest.
pub fn plan_probe(probes_before: u64, probe_priority: u8) -> (plan: ProbePlan)
    requires
        PROBE_ALIAS_BASE + probes_before <= u64::MAX,
    ensures
        plan.track_alias == PROBE_ALIAS_BASE + probes_before,
        plan.ok_parameters@ == seq![
            MessageParameter::LargestObject { location: Location { group: 0, object: 0 } },
        ],
        plan.header == (SubgroupHeader {
            track_alias: plan.track_alias,
            group_id: 0,
            subgroup_id: Some(0),
            publisher_priority: Some(
                if probe_priority == 0 {
                    255u8
                } else {
                    0u8
                },
            ),
            has_properties: false,
            contains_end_of_group: true,
            first_object: true,
        }),
        plan.stream_id == (StreamId::Subgroup {
            track_alias: plan.track_alias,
            group_id: 0,
            subgroup_id: Some(0),
        }),
        plan.priority == 0,
        plan.done.status_code == PublishDoneStatusCode::TrackEnded,
        plan.done.stream_count == 1,
        plan.done.reason@ == "probe complete"@,
{
    let track_alias: u64 = PROBE_ALIAS_BASE + probes_before;
    let mut ok_parameters: Vec<MessageParameter> = Vec::new();
    ok_parameters.push(MessageParameter::new_largest_object(Location::new(0, 0)));
    let publisher_priority: u8 = if probe_priority == 0 {
        255
    } else {
        0
    };
    proof {
        assert(ok_parameters@ =~= seq![
            MessageParameter::LargestObject { location: Location { group: 0, object: 0 } },
        ]);
    }
    ProbePlan {
        track_alias,
        ok_parameters,
        header: SubgroupHeader::new_with_explicit_id(
            track_alias,
            0,
            0,
            Some(publisher_priority),
            false,
            true,
            true,
        ),
        stream_id: StreamId::new_subgroup(track_alias, 0, Some(0)),
        priority: 0,
        done: PublishDone {
            status_code: PublishDoneStatusCode::TrackEnded,
            stream_count: 1,
            reason: "probe complete".to_owned(),
        },
    }
}

/// One object of a probe.
#[derive(Debug, Clone, Copy, PartialEq, Eq, Structural)]
pub struct ProbeChunk {
    pub object_id: u64,
    pub previous_object_id: Option<u64>,
    pub len: usize,
}

/// The payload of a probe, object by object.
#[derive(Debug, Clone, Copy, PartialEq, Eq, Structural)]
pub struct ProbePayload {
    /// The object that comes next.
    pub object_id: u64,
    pub bytes_remaining: usize,
}

/// The bytes that the objects of a probe carry together.
pub open spec fn total_len(chunks: Seq<ProbeChunk>) -> int
    decreases chunks.len(),
{
    if chunks.len() == 0 {
        0
    } else {
        total_len(chunks.drop_last()) + chunks.last().len
    }
}

impl ProbePayload {
    pub fn new(size: usize) -> (payload: ProbePayload)
        ensures
            payload == (ProbePayload { object_id: 0, bytes_remaining: size }),
    {
        ProbePayload { object_id: 0, bytes_remaining: size }
    }

    /// The next object, as large as a chunk may be; `None` once all bytes have
    /// been handed out.
    pub fn next_chunk(&mut self) -> (chunk: Option<ProbeChunk>)
        requires
            old(self).object_id < u64::MAX,
        ensures
            match chunk {
                Some(chunk) => {
                    &&& old(self).bytes_remaining > 0
                    &&& chunk.object_id == old(self).object_id
                    &&& chunk.previous_object_id == if old(self).object_id == 0 {
                        None
                    } else {
                        Some((old(self).object_id - 1) as u64)
                    }
                    &&& chunk.len == if old(self).bytes_remaining < PROBE_CHUNK_SIZE {
                        old(self).bytes_remaining
                    } else {
                        PROBE_CHUNK_SIZE
                    }
                    &&& *final(self) == (ProbePayload {
                        object_id: (old(self).object_id + 1) as u64,
                        bytes_remaining: (old(self).bytes_remaining - chunk.len) as usize,
                    })
                },
                None => old(self).bytes_remaining == 0 && *final(self) == *old(self),
            },
    {
        if self.bytes_remaining == 0 {
            return None;
        }
        let len: usize = if self.bytes_remaining < PROBE_CHUNK_SIZE {
            self.bytes_remaining
        } else {
            PROBE_CHUNK_SIZE
        };
        let object_id: u64 = self.object_id;
        self.object_id = object_id + 1;
        self.bytes_remaining = self.bytes_remaining - len;
        Some(ProbeChunk { object_id, previous_object_id: object_id.checked_sub(1), len })
    }
}

/// All objects of a probe of `size` bytes.
pub fn probe_chunks(size: usize) -> (chunks: Vec<ProbeChunk>)
    requires
        size <= PROBE_MAX_SIZE,
    ensures
        total_len(chunks@) == size,
        chunks@.len() == (size + PROBE_CHUNK_SIZE - 1) / PROBE_CHUNK_SIZE as int,
        forall|i: int|
            0 <= i < chunks@.len() ==> {
                let chunk = #[trigger] chunks@[i];
                &&& chunk.object_id == i
                &&& chunk.previous_object_id == if i == 0 {
                    None
                } else {
                    Some((i - 1) as u64)
                }
                &&& 0 < chunk.len <= PROBE_CHUNK_SIZE
                &&& i + 1 < chunks@.len() ==> chunk.len == PROBE_CHUNK_SIZE
            },
{
    let mut payload: ProbePayload = ProbePayload::new(size);
    let mut chunks: Vec<ProbeChunk> = Vec::new();
    while payload.bytes_remaining > 0
        invariant
            size <= PROBE_MAX_SIZE,
            payload.object_id == chunks@.len(),
            payload.bytes_remaining <= size,
            chunks@.len() <= size,
            total_len(chunks@) == size - payload.bytes_remaining,
            payload.bytes_remaining > 0 ==> size - payload.bytes_remaining == chunks@.len()
                * PROBE_CHUNK_SIZE,
            payload.bytes_remaining == 0 ==> chunks@.len() == (size + PROBE_CHUNK_SIZE - 1)
                / PROBE_CHUNK_SIZE as int,
            forall|i: int|
                0 <= i < chunks@.len() ==> {
                    let chunk = #[trigger] chunks@[i];
                    &&& chunk.object_id == i
                    &&& chunk.previous_object_id == if i == 0 {
                        None
                    } else {
                        Some((i - 1) as u64)
                    }
                    &&& 0 < chunk.len <= PROBE_CHUNK_SIZE
                    &&& (i + 1 < chunks@.len() || payload.bytes_remaining > 0) ==> chunk.len
                        == PROBE_CHUNK_SIZE
                },
        decreases payload.bytes_remaining,
    {
        let ghost before = chunks@;
        if let Some(chunk) = payload.next_chunk() {
            chunks.push(chunk);
            proof {
                assert(chunks@.drop_last() =~= before);
            }
        }
    }
    chunks
}

/// What is read as a probe is `.probe:`, a size of at least one byte and at most 16
/// MiB, a colon, and a priority of one byte.
pub proof fn law_probe_names_have_one_form(name: Seq<u8>)
    ensures
        probe_of(name) matches Some((size, priority)) ==> {
            &&& 0 < size <= 16_777_216
            &&& name.len() > 7
            &&& name[0] == 0x2e && name[1] == 0x70 && name[2] == 0x72 && name[3] == 0x6f && name[4]
                == 0x62 && name[5] == 0x65 && name[6] == 0x3a
            &&& exists|colon: int|
                7 < colon < name.len() - 1 && name[colon] == 0x3a && #[trigger] decimal::decimal(
                    name.subrange(7, colon),
                    16_777_216,
                ) == Some(size as u64) && decimal::decimal(
                    name.subrange(colon + 1, name.len() as int),
                    255,
                ) == Some(priority as u64)
        },
{
    if let Some((size, priority)) = probe_of(name) {
        let colon = decimal::position_of(name, 7, 0x3a);
        decimal::lemma_position_of(name, 7, 0x3a);
        let prefix = name.take(7);
        assert(prefix[0] == name[0] && prefix[1] == name[1] && prefix[2] == name[2] && prefix[3]
            == name[3] && prefix[4] == name[4] && prefix[5] == name[5] && prefix[6] == name[6]);
        assert(decimal::decimal(name.subrange(7, colon), 16_777_216) == Some(size as u64));
        assert(name.subrange(7, colon).len() > 0);
        assert(name.subrange(colon + 1, name.len() as int).len() > 0);
    }
}

/// The lengths of chunks add up.
pub proof fn law_total_len_adds_up(chunks: Seq<ProbeChunk>, chunk: ProbeChunk)
    ensures
        total_len(Seq::<ProbeChunk>::empty()) == 0,
        total_len(chunks.push(chunk)) == total_len(chunks) + chunk.len,
{
    assert(chunks.push(chunk).drop_last() =~= chunks);
}

} // verus!
