//! The cache of encoded video: file names, groups of pictures and metadata.

use crate::encoder::{self, EncodedGop};
use crate::payload::{self, bytes_as_slice, bytes_from_vec};
use crate::text::{self, push_padded_decimal};
use bytes::Bytes;
use vstd::prelude::*;

verus! {

/// The version of the file formats. A cache of another version is refused.
pub const SCHEMA_VERSION: u32 = 1;

/// A path and a relative path below it. An absolute path stands alone.
pub open spec fn joined(base: Seq<char>, part: Seq<char>) -> Seq<char> {
    if part.len() > 0 && part[0] == '/' {
        part
    } else if base.len() == 0 || base.last() == '/' {
        base + part
    } else {
        base + "/"@ + part
    }
}

pub(crate) fn join(base: &str, part: &str) -> (path: String)
    ensures
        path@ == joined(base@, part@),
{
    if part.unicode_len() > 0 && part.get_char(0) == '/' {
        return part.to_owned();
    }
    let mut path: String = base.to_owned();
    let len: usize = base.unicode_len();
    if len > 0 && base.get_char(len - 1) != '/' {
        path.append("/");
    }
    path.append(part);
    path
}

/// The directory of a variant.
pub fn variant_dir(root: &str, quality: &str) -> (path: String)
    ensures
        path@ == joined(root@, quality@),
{
    join(root, quality)
}

/// The name of the file of a group of pictures.
pub open spec fn gop_file_name(index: u64) -> Seq<char> {
    text::padded_decimal_text(index as nat, 6) + ".gop"@
}

/// The file of a group of pictures.
pub fn gop_path(variant_dir: &str, index: u64) -> (path: String)
    ensures
        path@ == joined(variant_dir@, gop_file_name(index)),
{
    let mut name: String = "".to_owned();
    proof {
        reveal_strlit("");
    }
    push_padded_decimal(&mut name, index, 6);
    name.append(".gop");
    proof {
        assert(name@ =~= gop_file_name(index));
    }
    join(variant_dir, name.as_str())
}

/// Whether a cache is complete, given the names of the files in its root: its
/// metadata is written last.
pub fn is_complete(files: &Vec<String>) -> (complete: bool)
    ensures
        complete == exists|i: int|
            0 <= i < files@.len() && (#[trigger] files@[i])@ == "meta.json"@,
{
    let wanted: String = "meta.json".to_owned();
    let mut i: usize = 0;
    while i < files.len()
        invariant
            i <= files@.len(),
            wanted@ == "meta.json"@,
            forall|k: int| 0 <= k < i ==> (#[trigger] files@[k])@ != "meta.json"@,
        decreases files@.len() - i,
    {
        if files[i] == wanted {
            return true;
        }
        i = i + 1;
    }
    false
}

/// Six digits and `.gop`.
pub open spec fn is_gop_file_name(name: Seq<char>) -> bool {
    &&& name.len() == 10
    &&& forall|i: int| 0 <= i < 6 ==> '0' <= #[trigger] name[i] <= '9'
    &&& name.skip(6) == ".gop"@
}

fn check_gop_file_name(name: &str) -> (is_gop: bool)
    ensures
        is_gop == is_gop_file_name(name@),
{
    proof {
        reveal_strlit(".gop");
    }
    if name.unicode_len() != 10 {
        return false;
    }
    let mut i: usize = 0;
    while i < 6
        invariant
            i <= 6,
            name@.len() == 10,
            forall|k: int| 0 <= k < i ==> '0' <= #[trigger] name@[k] <= '9',
        decreases 6 - i,
    {
        let c: char = name.get_char(i);
        if c < '0' || c > '9' {
            return false;
        }
        i = i + 1;
    }
    let is_gop: bool = name.get_char(6) == '.' && name.get_char(7) == 'g' && name.get_char(8)
        == 'o' && name.get_char(9) == 'p';
    proof {
        if is_gop {
            assert(name@.skip(6) =~= ".gop"@);
        } else {
            assert(name@.skip(6)[0] == name@[6]);
            assert(name@.skip(6)[1] == name@[7]);
            assert(name@.skip(6)[2] == name@[8]);
            assert(name@.skip(6)[3] == name@[9]);
        }
    }
    is_gop
}

/// How many of the names are those of groups of pictures.
pub open spec fn count_gops(names: Seq<Seq<char>>) -> nat
    decreases names.len(),
{
    if names.len() == 0 {
        0
    } else {
        count_gops(names.drop_last()) + if is_gop_file_name(names.last()) {
            1nat
        } else {
            0
        }
    }
}

/// The views of a list of texts.
pub open spec fn views(names: Seq<String>) -> Seq<Seq<char>> {
    Seq::new(names.len(), |i: int| names[i]@)
}

/// Counts the groups of pictures of a variant, given the names of the files in
/// its directory.
pub fn gop_count(names: &Vec<String>) -> (count: u64)
    ensures
        count == count_gops(views(names@)),
{
    let mut count: u64 = 0;
    let mut i: usize = 0;
    while i < names.len()
        invariant
            i <= names@.len(),
            count <= i,
            count == count_gops(views(names@).take(i as int)),
        decreases names@.len() - i,
    {
        proof {
            assert(views(names@).take(i + 1).drop_last() =~= views(names@).take(i as int));
        }
        if check_gop_file_name(names[i].as_str()) {
            count = count + 1;
        }
        i = i + 1;
    }
    proof {
        assert(views(names@).take(i as int) =~= views(names@));
    }
    count
}

/// A number in four bytes, the lowest first.
pub open spec fn le_bytes(number: u32) -> Seq<u8> {
    seq![
        (number % 0x100) as u8,
        (number / 0x100 % 0x100) as u8,
        (number / 0x1_0000 % 0x100) as u8,
        (number / 0x100_0000) as u8,
    ]
}

/// The number that four bytes write, the lowest first.
pub open spec fn le_number(bytes: Seq<u8>) -> nat {
    (bytes[0] + bytes[1] * 0x100 + bytes[2] * 0x1_0000 + bytes[3] * 0x100_0000) as nat
}

fn push_le(data: &mut Vec<u8>, number: u32)
    ensures
        final(data)@ == old(data)@ + le_bytes(number),
{
    let ghost before = data@;
    data.push((number % 0x100) as u8);
    data.push((number / 0x100 % 0x100) as u8);
    data.push((number / 0x1_0000 % 0x100) as u8);
    data.push((number / 0x100_0000) as u8);
    proof {
        assert(data@ =~= before + le_bytes(number));
    }
}

fn push_slice(data: &mut Vec<u8>, slice: &[u8])
    ensures
        final(data)@ == old(data)@ + slice@,
{
    let ghost before = data@;
    let mut i: usize = 0;
    while i < slice.len()
        invariant
            i <= slice@.len(),
            data@ == before + slice@.take(i as int),
        decreases slice@.len() - i,
    {
        data.push(slice[i]);
        i = i + 1;
        proof {
            assert(data@ =~= before + slice@.take(i as int));
        }
    }
    proof {
        assert(slice@.take(i as int) =~= slice@);
    }
}

/// Why a group of pictures cannot be written or read.
#[derive(Debug, Clone, Copy, PartialEq, Eq, Structural)]
pub enum GopError {
    /// There are too many packets to count.
    PacketCountOverflow,
    /// A packet is too long.
    PacketLengthOverflow,
    /// The data ends in the number of packets.
    ReadPacketCount,
    /// The data ends in the length of a packet.
    ReadPacketLength,
    /// The data ends in a packet.
    ReadPacketPayload,
}

impl GopError {
    pub open spec fn spec_text(self) -> Seq<char> {
        match self {
            GopError::PacketCountOverflow => "packet_count overflow at "@,
            GopError::PacketLengthOverflow => "packet length overflow at "@,
            GopError::ReadPacketCount => "read packet_count at "@,
            GopError::ReadPacketLength => "read packet_len at "@,
            GopError::ReadPacketPayload => "read packet payload at "@,
        }
    }

    /// The error in words, with the file that it is about.
    pub fn text(self, path: &str) -> (text: String)
        ensures
            text@ == self.spec_text() + path@,
    {
        let mut text: String = match self {
            GopError::PacketCountOverflow => "packet_count overflow at ",
            GopError::PacketLengthOverflow => "packet length overflow at ",
            GopError::ReadPacketCount => "read packet_count at ",
            GopError::ReadPacketLength => "read packet_len at ",
            GopError::ReadPacketPayload => "read packet payload at ",
        }.to_owned();
        text.append(path);
        text
    }
}

/// The packets, each behind its length.
pub open spec fn framed(packets: Seq<Seq<u8>>) -> Seq<u8>
    decreases packets.len(),
{
    if packets.len() == 0 {
        Seq::empty()
    } else {
        framed(packets.drop_last()) + le_bytes(packets.last().len() as u32) + packets.last()
    }
}

/// The packets fit the file format.
pub open spec fn packets_fit(packets: Seq<Seq<u8>>) -> bool {
    forall|i: int| 0 <= i < packets.len() ==> (#[trigger] packets[i]).len() <= u32::MAX
}

/// A group of pictures as it is written: the number of packets, and the packets.
pub open spec fn gop_data(packets: Seq<Seq<u8>>) -> Seq<u8> {
    le_bytes(packets.len() as u32) + framed(packets)
}

/// Returns the content of the file of a group of pictures.
pub fn write_gop(gop: &EncodedGop) -> (result: Result<Vec<u8>, GopError>)
    ensures
        match result {
            Ok(data) => {
                &&& gop.packets@.len() <= u32::MAX
                &&& packets_fit(encoder::packet_contents(gop.packets@))
                &&& data@ == gop_data(encoder::packet_contents(gop.packets@))
            },
            Err(e) => if gop.packets@.len() > u32::MAX {
                e == GopError::PacketCountOverflow
            } else {
                &&& e == GopError::PacketLengthOverflow
                &&& !packets_fit(encoder::packet_contents(gop.packets@))
            },
        },
{
    let ghost packets = encoder::packet_contents(gop.packets@);
    let count: usize = gop.packets.len();
    if count > 0xffff_ffff {
        return Err(GopError::PacketCountOverflow);
    }
    let mut data: Vec<u8> = Vec::new();
    push_le(&mut data, count as u32);
    let mut i: usize = 0;
    proof {
        assert(data@ =~= le_bytes(count as u32) + framed(packets.take(0)));
    }
    while i < count
        invariant
            i <= count,
            count == gop.packets@.len(),
            count <= u32::MAX,
            packets == encoder::packet_contents(gop.packets@),
            forall|k: int| 0 <= k < i ==> (#[trigger] packets[k]).len() <= u32::MAX,
            data@ == le_bytes(count as u32) + framed(packets.take(i as int)),
        decreases count - i,
    {
        let packet: &[u8] = bytes_as_slice(&gop.packets[i]);
        proof {
            assert(packets[i as int] == packet@);
            assert(packets.take(i + 1).drop_last() =~= packets.take(i as int));
            assert(packets.take(i + 1).last() == packet@);
        }
        if packet.len() > 0xffff_ffff {
            return Err(GopError::PacketLengthOverflow);
        }
        let ghost before = data@;
        push_le(&mut data, packet.len() as u32);
        push_slice(&mut data, packet);
        i = i + 1;
        proof {
            assert(data@ =~= le_bytes(count as u32) + framed(packets.take(i as int)));
        }
    }
    proof {
        assert(packets.take(i as int) =~= packets);
    }
    Ok(data)
}

/// Reads `count` packets from position `at` on.
pub open spec fn read_packets(data: Seq<u8>, at: int, count: nat) -> Result<
    Seq<Seq<u8>>,
    GopError,
>
    decreases count,
{
    if count == 0 {
        Ok(Seq::empty())
    } else if at + 4 > data.len() {
        Err(GopError::ReadPacketLength)
    } else {
        let len = le_number(data.subrange(at, at + 4));
        if at + 4 + len > data.len() {
            Err(GopError::ReadPacketPayload)
        } else {
            match read_packets(data, at + 4 + len, (count - 1) as nat) {
                Err(e) => Err(e),
                Ok(rest) => Ok(seq![data.subrange(at + 4, at + 4 + len)] + rest),
            }
        }
    }
}

/// Reads the packets of a group of pictures. What stands behind them is ignored.
pub open spec fn gop_packets(data: Seq<u8>) -> Result<Seq<Seq<u8>>, GopError> {
    if data.len() < 4 {
        Err(GopError::ReadPacketCount)
    } else {
        read_packets(data, 4, le_number(data.take(4)))
    }
}

fn read_le(data: &[u8], at: usize) -> (number: u32)
    requires
        at + 4 <= data@.len(),
    ensures
        number == le_number(data@.subrange(at as int, at + 4)),
{
    let ghost four = data@.subrange(at as int, at + 4);
    let a: u32 = data[at] as u32;
    let b: u32 = data[at + 1] as u32;
    let c: u32 = data[at + 2] as u32;
    let d: u32 = data[at + 3] as u32;
    proof {
        assert(four[0] == a && four[1] == b && four[2] == c && four[3] == d);
    }
    a + b * 0x100 + c * 0x1_0000 + d * 0x100_0000
}

/// Reads a group of pictures from the content of its file.
pub fn read_gop(data: &[u8], group_id: u64) -> (result: Result<EncodedGop, GopError>)
    ensures
        match (result, gop_packets(data@)) {
            (Ok(gop), Ok(packets)) => gop.group_id == group_id && encoder::packet_contents(
                gop.packets@,
            ) == packets,
            (Err(e), Err(expected)) => e == expected,
            _ => false,
        },
{
    let len: usize = data.len();
    if len < 4 {
        return Err(GopError::ReadPacketCount);
    }
    proof {
        assert(data@.subrange(0, 4) =~= data@.take(4));
    }
    let count: u32 = read_le(data, 0);
    let mut at: usize = 4;
    let mut packets: Vec<Bytes> = Vec::new();
    let mut i: u32 = 0;
    proof {
        if let Ok(all) = read_packets(data@, 4, count as nat) {
            assert(encoder::packet_contents(packets@) + all =~= all);
        }
    }
    while i < count
        invariant
            i <= count,
            at <= len,
            len == data@.len(),
            gop_packets(data@) == read_packets(data@, 4, count as nat),
            match read_packets(data@, at as int, (count - i) as nat) {
                Ok(rest) => gop_packets(data@) == Ok::<Seq<Seq<u8>>, GopError>(
                    encoder::packet_contents(packets@) + rest,
                ),
                Err(e) => gop_packets(data@) == Err::<Seq<Seq<u8>>, GopError>(e),
            },
        decreases count - i,
    {
        if len - at < 4 {
            return Err(GopError::ReadPacketLength);
        }
        let size: u32 = read_le(data, at);
        at = at + 4;
        if len - at < size as usize {
            return Err(GopError::ReadPacketPayload);
        }
        let end: usize = at + size as usize;
        let ghost before = encoder::packet_contents(packets@);
        let payload: Vec<u8> = vstd::slice::slice_to_vec(
            vstd::slice::slice_subrange(data, at, end),
        );
        packets.push(bytes_from_vec(payload));
        proof {
            let packet = data@.subrange(at as int, end as int);
            assert(encoder::packet_contents(packets@) =~= before.push(packet));
            if let Ok(rest) = read_packets(data@, end as int, (count - i - 1) as nat) {
                assert(before.push(packet) + rest =~= before + (seq![packet] + rest));
            }
        }
        at = end;
        i = i + 1;
    }
    proof {
        assert(encoder::packet_contents(packets@) + Seq::<Seq<u8>>::empty()
            =~= encoder::packet_contents(packets@));
    }
    Ok(EncodedGop { group_id, packets })
}

proof fn lemma_le_round_trip(number: u32)
    ensures
        le_bytes(number).len() == 4,
        le_number(le_bytes(number)) == number,
{
}

proof fn lemma_framed_from_front(packets: Seq<Seq<u8>>)
    requires
        packets.len() > 0,
    ensures
        framed(packets) == le_bytes(packets[0].len() as u32) + packets[0] + framed(
            packets.skip(1),
        ),
    decreases packets.len(),
{
    let rest = packets.skip(1);
    if packets.len() == 1 {
        assert(packets.drop_last() =~= Seq::empty());
        assert(rest =~= Seq::empty());
        assert(framed(packets) =~= le_bytes(packets[0].len() as u32) + packets[0] + framed(rest));
    } else {
        lemma_framed_from_front(packets.drop_last());
        assert(packets.drop_last().skip(1) =~= rest.drop_last());
        assert(framed(packets) =~= le_bytes(packets[0].len() as u32) + packets[0] + framed(rest));
    }
}

proof fn lemma_packets_are_read_back(before: Seq<u8>, packets: Seq<Seq<u8>>, behind: Seq<u8>)
    requires
        packets_fit(packets),
    ensures
        read_packets(before + framed(packets) + behind, before.len() as int, packets.len()) == Ok::<
            Seq<Seq<u8>>,
            GopError,
        >(packets),
    decreases packets.len(),
{
    let data = before + framed(packets) + behind;
    if packets.len() > 0 {
        let first = packets[0];
        let rest = packets.skip(1);
        let head = le_bytes(first.len() as u32);
        lemma_framed_from_front(packets);
        lemma_le_round_trip(first.len() as u32);
        let at = before.len() as int;
        assert(data.subrange(at, at + 4) =~= head);
        assert(data.subrange(at + 4, at + 4 + first.len()) =~= first);
        assert(packets_fit(rest));
        lemma_packets_are_read_back(before + head + first, rest, behind);
        assert(before + head + first + framed(rest) + behind =~= data);
        assert(seq![first] + rest =~= packets);
    } else {
        assert(packets =~= Seq::empty());
    }
}

/// Whatever packets are written are read back, whatever stands behind them.
pub proof fn law_gop_round_trip(packets: Seq<Seq<u8>>, behind: Seq<u8>)
    requires
        packets.len() <= u32::MAX,
        packets_fit(packets),
    ensures
        gop_packets(gop_data(packets) + behind) == Ok::<Seq<Seq<u8>>, GopError>(packets),
{
    let data = gop_data(packets) + behind;
    let head = le_bytes(packets.len() as u32);
    lemma_le_round_trip(packets.len() as u32);
    assert(data.take(4) =~= head);
    lemma_packets_are_read_back(head, packets, behind);
    assert(head + framed(packets) + behind =~= data);
}

proof fn lemma_padded(index: nat)
    ensures
        text::padded_decimal_text(index, 6).len() >= 6,
        index < 1_000_000 ==> text::padded_decimal_text(index, 6).len() == 6,
        index >= 1_000_000 ==> text::padded_decimal_text(index, 6).len() > 6,
        forall|i: int|
            0 <= i < text::padded_decimal_text(index, 6).len() ==> '0'
                <= #[trigger] text::padded_decimal_text(index, 6)[i] <= '9',
{
    let padded = text::padded_decimal_text(index, 6);
    text::law_decimal_text_len(index);
    reveal_with_fuel(text::decimal_len, 8);
    assert forall|i: int| 0 <= i < padded.len() implies '0' <= #[trigger] padded[i] <= '9' by {
        let pad = padded.len() - text::decimal_text(index).len();
        if i >= pad {
            assert(padded[i] == text::decimal_text(index)[i - pad]);
            text::lemma_decimal_text_is_digits(index, i - pad);
        } else {
            assert(padded[i] == text::zeros(pad as nat)[i]);
        }
    }
}

/// The file of a group of pictures is counted as one, as long as its index has
/// at most six digits, and only then.
pub proof fn law_gop_files_are_counted(index: u64)
    ensures
        is_gop_file_name(gop_file_name(index)) <==> index < 1_000_000,
{
    reveal_strlit(".gop");
    lemma_padded(index as nat);
    let name = gop_file_name(index);
    let padded = text::padded_decimal_text(index as nat, 6);
    if index < 1_000_000 {
        assert(name.skip(6) =~= ".gop"@);
        assert forall|i: int| 0 <= i < 6 implies '0' <= #[trigger] name[i] <= '9' by {
            assert(name[i] == padded[i]);
        }
    }
}

/// The files of a variant sort by name in the order of their groups, as long as
/// the indices have at most six digits.
pub proof fn law_gop_files_sort_by_index(a: u64, b: u64)
    requires
        a < b < 1_000_000,
    ensures
        text::sorts_before(gop_file_name(a), gop_file_name(b)),
{
    let pa = text::padded_decimal_text(a as nat, 6);
    let pb = text::padded_decimal_text(b as nat, 6);
    reveal_with_fuel(text::decimal_len, 8);
    text::law_padded_decimal_text_sorts_by_value(a as nat, b as nat, 6);
    let i = choose|i: int| #[trigger] text::differs_first(pa, pb, i);
    assert(gop_file_name(a).take(i) =~= pa.take(i));
    assert(gop_file_name(b).take(i) =~= pb.take(i));
    assert(text::differs_first(gop_file_name(a), gop_file_name(b), i));
}

/// Different groups of pictures are in different files.
pub proof fn law_gop_files_are_distinct(a: u64, b: u64)
    ensures
        gop_file_name(a) == gop_file_name(b) ==> a == b,
{
    if gop_file_name(a) == gop_file_name(b) {
        let pa = text::padded_decimal_text(a as nat, 6);
        let pb = text::padded_decimal_text(b as nat, 6);
        reveal_strlit(".gop");
        assert(gop_file_name(a).len() == pa.len() + 4);
        assert(gop_file_name(b).len() == pb.len() + 4);
        assert(pa =~= gop_file_name(a).take(pa.len() as int));
        assert(pb =~= gop_file_name(b).take(pa.len() as int));
        text::law_padded_decimal_text_is_injective(a as nat, b as nat, 6);
    }
}

/// A relative part is joined behind the base with one slash between them, which is not
/// doubled where the base ends in one. An absolute part stands alone.
pub proof fn law_joining_keeps_both_parts(base: Seq<char>, part: Seq<char>)
    ensures
        part.len() > 0 && part[0] == '/' ==> joined(base, part) == part,
        !(part.len() > 0 && part[0] == '/') ==> {
            let path = joined(base, part);
            &&& path.take(base.len() as int) == base
            &&& path.skip(path.len() - part.len()) == part
            &&& base.len() > 0 ==> path[path.len() - part.len() - 1] == '/'
            &&& base.len() == 0 || base.last() == '/' ==> path.len() == base.len() + part.len()
            &&& base.len() > 0 && base.last() != '/' ==> path.len() == base.len() + 1
                + part.len()
        },
{
    reveal_strlit("/");
    if !(part.len() > 0 && part[0] == '/') {
        let path = joined(base, part);
        assert(path.take(base.len() as int) =~= base);
        assert(path.skip(path.len() - part.len()) =~= part);
    }
}

/// A group's file is called by its index, six digits at least, and ends in `.gop`.
pub proof fn law_gop_files_are_called_by_index(index: u64)
    ensures
        ({
            let name = gop_file_name(index);
            let digits = name.take(name.len() - 4);
            &&& name.len() >= 10
            &&& name.skip(name.len() - 4) == seq!['.', 'g', 'o', 'p']
            &&& digits == text::padded_decimal_text(index as nat, 6)
        }),
{
    reveal_strlit(".gop");
    lemma_padded(index as nat);
    let name = gop_file_name(index);
    assert(name.skip(name.len() - 4) =~= seq!['.', 'g', 'o', 'p']);
    assert(name.take(name.len() - 4) =~= text::padded_decimal_text(index as nat, 6));
}

/// Groups are counted file by file: a file that is called like a group counts once, and
/// any other does not count.
pub proof fn law_gops_are_counted_file_by_file(
    first: Seq<Seq<char>>,
    second: Seq<Seq<char>>,
    name: Seq<char>,
)
    ensures
        count_gops(first + second) == count_gops(first) + count_gops(second),
        is_gop_file_name(name) ==> count_gops(seq![name]) == 1,
        !is_gop_file_name(name) ==> count_gops(seq![name]) == 0,
    decreases second.len(),
{
    reveal_with_fuel(count_gops, 2);
    assert(seq![name].drop_last() =~= Seq::<Seq<char>>::empty());
    if second.len() == 0 {
        assert(first + second =~= first);
    } else {
        law_gops_are_counted_file_by_file(first, second.drop_last(), name);
        assert((first + second).drop_last() =~= first + second.drop_last());
    }
}

/// A file name counts as a group's where it is six digits and `.gop`.
pub proof fn law_gop_names_are_six_digits(name: Seq<char>, i: int)
    requires
        is_gop_file_name(name),
    ensures
        name.len() == 10,
        0 <= i < 6 ==> '0' <= name[i] <= '9',
        name[6] == '.',
        name[7] == 'g',
        name[8] == 'o',
        name[9] == 'p',
{
    reveal_strlit(".gop");
    assert(name.skip(6)[0] == name[6]);
    assert(name.skip(6)[1] == name[7]);
    assert(name.skip(6)[2] == name[8]);
    assert(name.skip(6)[3] == name[9]);
}

/// A number is written in four bytes, the lowest first.
pub proof fn law_numbers_are_little_endian(number: u32)
    ensures
        le_bytes(number).len() == 4,
        number == le_bytes(number)[0] + 0x100 * le_bytes(number)[1] + 0x1_0000 * le_bytes(
            number,
        )[2] + 0x100_0000 * le_bytes(number)[3],
{
    lemma_le_round_trip(number);
}

/// A group's file begins with the number of packets. Then comes each packet behind its
/// length, the first one first.
pub proof fn law_gop_layout(packets: Seq<Seq<u8>>)
    requires
        0 < packets.len() <= u32::MAX,
        packets_fit(packets),
    ensures
        ({
            let data = gop_data(packets);
            let len = packets[0].len() as int;
            &&& data.len() >= 8 + len
            &&& packets.len() == data[0] + 0x100 * data[1] + 0x1_0000 * data[2] + 0x100_0000
                * data[3]
            &&& len == data[4] + 0x100 * data[5] + 0x1_0000 * data[6] + 0x100_0000 * data[7]
            &&& data.subrange(8, 8 + len) == packets[0]
            &&& data.skip(8 + len) == framed(packets.skip(1))
        }),
{
    let data = gop_data(packets);
    let len = packets[0].len() as int;
    law_numbers_are_little_endian(packets.len() as u32);
    law_numbers_are_little_endian(packets[0].len() as u32);
    lemma_framed_from_front(packets);
    assert(data.len() == 8 + len + framed(packets.skip(1)).len());
    assert(data.subrange(8, 8 + len) =~= packets[0]);
    assert(data.skip(8 + len) =~= framed(packets.skip(1)));
}

proof fn lemma_le_of_bytes(bytes: Seq<u8>)
    requires
        bytes.len() == 4,
    ensures
        le_number(bytes) <= u32::MAX,
        le_bytes(le_number(bytes) as u32) == bytes,
{
    let (a, b, c, d) = (bytes[0] as int, bytes[1] as int, bytes[2] as int, bytes[3] as int);
    let number = a + b * 0x100 + c * 0x1_0000 + d * 0x100_0000;
    assert(0 <= number <= 0xffff_ffff);
    assert(number % 0x100 == a);
    assert(number / 0x100 == b + c * 0x100 + d * 0x1_0000);
    assert(number / 0x100 % 0x100 == b);
    assert(number / 0x1_0000 == c + d * 0x100);
    assert(number / 0x1_0000 % 0x100 == c);
    assert(number / 0x100_0000 == d);
    assert(le_bytes(le_number(bytes) as u32) =~= bytes);
}

proof fn lemma_read_packets_stand_there(data: Seq<u8>, at: int, count: nat)
    requires
        0 <= at <= data.len(),
    ensures
        read_packets(data, at, count) matches Ok(packets) ==> {
            let end = at + framed(packets).len();
            &&& packets.len() == count
            &&& packets_fit(packets)
            &&& end <= data.len()
            &&& data.subrange(at, end) == framed(packets)
        },
    decreases count,
{
    if read_packets(data, at, count) is Ok {
        let packets = read_packets(data, at, count)->Ok_0;
        if count == 0 {
            assert(data.subrange(at, at) =~= framed(packets));
        } else {
            let prefix = data.subrange(at, at + 4);
            let len = le_number(prefix) as int;
            lemma_le_of_bytes(prefix);
            lemma_read_packets_stand_there(data, at + 4 + len, (count - 1) as nat);
            let rest = read_packets(data, at + 4 + len, (count - 1) as nat)->Ok_0;
            let first = data.subrange(at + 4, at + 4 + len);
            assert(packets =~= seq![first] + rest);
            assert(packets.skip(1) =~= rest);
            assert(packets[0] == first);
            assert forall|i: int| 0 <= i < packets.len() implies (#[trigger] packets[i]).len()
                <= u32::MAX by {
                if i > 0 {
                    assert(packets[i] == rest[i - 1]);
                }
            }
            lemma_framed_from_front(packets);
            let end = at + framed(packets).len();
            assert(data.subrange(at, end) =~= prefix + first + data.subrange(at + 4 + len, end));
        }
    }
}

/// What is read of a file stands there as it would be written: a file that breaks off is
/// never read as a group.
pub proof fn law_read_gop_stands_in_the_file(data: Seq<u8>)
    ensures
        gop_packets(data) matches Ok(packets) ==> {
            &&& packets.len() <= u32::MAX
            &&& packets_fit(packets)
            &&& gop_data(packets).is_prefix_of(data)
        },
        data.len() < 4 <==> gop_packets(data) == Err::<Seq<Seq<u8>>, GopError>(
            GopError::ReadPacketCount,
        ),
{
    if data.len() >= 4 {
        lemma_le_of_bytes(data.take(4));
        lemma_read_packets_stand_there(data, 4, le_number(data.take(4)));
        if gop_packets(data) is Ok {
            let packets = gop_packets(data)->Ok_0;
            let written = gop_data(packets);
            assert(written =~= data.take(4) + data.subrange(4, 4int + framed(packets).len()));
            assert(written =~= data.subrange(0, written.len() as int));
        }
        lemma_count_error_is_apart(data, 4, le_number(data.take(4)));
    }
}

proof fn lemma_count_error_is_apart(data: Seq<u8>, at: int, count: nat)
    ensures
        read_packets(data, at, count) matches Err(error) ==> error is ReadPacketLength
            || error is ReadPacketPayload,
    decreases count,
{
    if count > 0 && at + 4 <= data.len() {
        let len = le_number(data.subrange(at, at + 4));
        if at + 4 + len <= data.len() {
            lemma_count_error_is_apart(data, at + 4 + len, (count - 1) as nat);
        }
    }
}

/// The errors of a group's file are told apart by their texts.
pub proof fn law_gop_errors_are_told_apart(a: GopError, b: GopError)
    ensures
        a.spec_text() == b.spec_text() ==> a == b,
{
    reveal_strlit("packet_count overflow at ");
    reveal_strlit("packet length overflow at ");
    reveal_strlit("read packet_count at ");
    reveal_strlit("read packet_len at ");
    reveal_strlit("read packet payload at ");
    assert("packet_count overflow at "@.len() == 25);
    assert("packet length overflow at "@.len() == 26);
    assert("read packet_count at "@.len() == 21);
    assert("read packet_len at "@.len() == 19);
    assert("read packet payload at "@.len() == 23);
}

} // verus!
