//! Variable-length integers of RFC 9000, section 16: the two high bits of the
//! first byte give the length, and the rest is the value in network order.

use vstd::prelude::*;

verus! {

/// Why bytes could not be read or written.
#[derive(Debug, Clone, Copy, PartialEq, Eq, Structural)]
pub enum ParseError {
    /// The value is too large for a variable-length integer.
    VarIntOverflow,
    /// The bytes end inside a value.
    NotEnoughBytes,
    /// A value is well formed but is not what the parameter holds.
    KeyValueFormattingError,
}

/// One past the largest value that can be written.
pub const VARINT_LIMIT: u64 = 0x4000_0000_0000_0000;

/// The shortest encoding of a value below [`VARINT_LIMIT`].
pub open spec fn varint_bytes(value: u64) -> Seq<u8> {
    if value < 0x40 {
        seq![value as u8]
    } else if value < 0x4000 {
        seq![(0x40 + value / 0x100) as u8, (value % 0x100) as u8]
    } else if value < 0x4000_0000 {
        seq![
            (0x80 + value / 0x100_0000) as u8,
            (value / 0x1_0000 % 0x100) as u8,
            (value / 0x100 % 0x100) as u8,
            (value % 0x100) as u8,
        ]
    } else {
        seq![
            (0xc0 + value / 0x100_0000_0000_0000) as u8,
            (value / 0x1_0000_0000_0000 % 0x100) as u8,
            (value / 0x100_0000_0000 % 0x100) as u8,
            (value / 0x1_0000_0000 % 0x100) as u8,
            (value / 0x100_0000 % 0x100) as u8,
            (value / 0x1_0000 % 0x100) as u8,
            (value / 0x100 % 0x100) as u8,
            (value % 0x100) as u8,
        ]
    }
}

/// The number of bytes that a first byte announces.
pub open spec fn varint_len(first: u8) -> int {
    if first < 0x40 {
        1
    } else if first < 0x80 {
        2
    } else if first < 0xc0 {
        4
    } else {
        8
    }
}

/// The value of bytes in network order.
pub open spec fn big_endian(bytes: Seq<u8>) -> int
    decreases bytes.len(),
{
    if bytes.len() == 0 {
        0
    } else {
        big_endian(bytes.drop_last()) * 0x100 + bytes.last()
    }
}

/// The integer at the start of `bytes`: its value and its length. `None` when
/// the bytes end before it does.
pub open spec fn parse_varint(bytes: Seq<u8>) -> Option<(u64, int)> {
    if bytes.len() == 0 || bytes.len() < varint_len(bytes[0]) {
        None
    } else {
        let len = varint_len(bytes[0]);
        let digits = bytes.take(len).update(0, bytes[0] % 0x40);
        Some((big_endian(digits) as u64, len))
    }
}

/// Appends the encoding of `value`.
pub fn put_vi(buf: &mut Vec<u8>, value: u64) -> (result: Result<(), ParseError>)
    ensures
        result is Ok <==> value < VARINT_LIMIT,
        result matches Err(e) ==> e == ParseError::VarIntOverflow,
        final(buf)@ == if value < VARINT_LIMIT {
            old(buf)@ + varint_bytes(value)
        } else {
            old(buf)@
        },
{
    let ghost before = buf@;
    if value < 0x40 {
        buf.push(value as u8);
    } else if value < 0x4000 {
        buf.push((0x40 + value / 0x100) as u8);
        buf.push((value % 0x100) as u8);
    } else if value < 0x4000_0000 {
        buf.push((0x80 + value / 0x100_0000) as u8);
        buf.push((value / 0x1_0000 % 0x100) as u8);
        buf.push((value / 0x100 % 0x100) as u8);
        buf.push((value % 0x100) as u8);
    } else if value < VARINT_LIMIT {
        buf.push((0xc0 + value / 0x100_0000_0000_0000) as u8);
        buf.push((value / 0x1_0000_0000_0000 % 0x100) as u8);
        buf.push((value / 0x100_0000_0000 % 0x100) as u8);
        buf.push((value / 0x1_0000_0000 % 0x100) as u8);
        buf.push((value / 0x100_0000 % 0x100) as u8);
        buf.push((value / 0x1_0000 % 0x100) as u8);
        buf.push((value / 0x100 % 0x100) as u8);
        buf.push((value % 0x100) as u8);
    } else {
        return Err(ParseError::VarIntOverflow);
    }
    proof {
        assert(buf@ =~= before + varint_bytes(value));
    }
    Ok(())
}

proof fn lemma_big_endian_bound(bytes: Seq<u8>)
    requires
        0 < bytes.len() <= 8,
        bytes[0] < 0x40,
    ensures
        0 <= big_endian(bytes) < VARINT_LIMIT,
        bytes.len() == 1 ==> big_endian(bytes) < 0x40,
        bytes.len() == 2 ==> big_endian(bytes) < 0x4000,
        bytes.len() == 3 ==> big_endian(bytes) < 0x40_0000,
        bytes.len() == 4 ==> big_endian(bytes) < 0x4000_0000,
        bytes.len() == 5 ==> big_endian(bytes) < 0x40_0000_0000,
        bytes.len() == 6 ==> big_endian(bytes) < 0x4000_0000_0000,
        bytes.len() == 7 ==> big_endian(bytes) < 0x40_0000_0000_0000,
    decreases bytes.len(),
{
    reveal_with_fuel(big_endian, 2);
    if bytes.len() > 1 {
        lemma_big_endian_bound(bytes.drop_last());
    }
}

/// Reads the integer that starts at `pos`: its value, and the position after
/// it.
pub fn get_vi(bytes: &[u8], pos: usize) -> (result: Result<(u64, usize), ParseError>)
    requires
        pos <= bytes.len(),
    ensures
        match result {
            Ok((value, next)) => {
                &&& parse_varint(bytes@.skip(pos as int)) == Some((value, next - pos))
                &&& pos < next <= bytes.len()
                &&& value < VARINT_LIMIT
            },
            Err(e) => {
                &&& parse_varint(bytes@.skip(pos as int)) is None
                &&& e == ParseError::NotEnoughBytes
            },
        },
{
    let ghost rest = bytes@.skip(pos as int);
    if pos >= bytes.len() {
        return Err(ParseError::NotEnoughBytes);
    }
    let first: u8 = bytes[pos];
    let len: usize = if first < 0x40 {
        1
    } else if first < 0x80 {
        2
    } else if first < 0xc0 {
        4
    } else {
        8
    };
    if bytes.len() - pos < len {
        return Err(ParseError::NotEnoughBytes);
    }
    let ghost digits = rest.take(len as int).update(0, (first % 0x40) as u8);
    let mut value: u64 = (first % 0x40) as u64;
    let mut i: usize = 1;
    proof {
        reveal_with_fuel(big_endian, 2);
        assert(digits.take(1).drop_last() =~= Seq::<u8>::empty());
    }
    while i < len
        invariant
            1 <= i <= len <= 8,
            pos + len <= bytes.len(),
            digits.len() == len,
            digits[0] < 0x40,
            forall|j: int| 1 <= j < len ==> digits[j] == bytes@[pos + j],
            value == big_endian(digits.take(i as int)),
        decreases len - i,
    {
        proof {
            lemma_big_endian_bound(digits.take(i as int));
            lemma_big_endian_bound(digits.take(i + 1));
            assert(digits.take(i + 1).drop_last() =~= digits.take(i as int));
        }
        value = value * 0x100 + bytes[pos + i] as u64;
        i = i + 1;
    }
    proof {
        assert(digits.take(len as int) =~= digits);
        lemma_big_endian_bound(digits);
    }
    Ok((value, pos + len))
}

/// What was written is read back, whatever follows it.
pub proof fn law_varint_round_trip(value: u64, rest: Seq<u8>)
    requires
        value < VARINT_LIMIT,
    ensures
        parse_varint(varint_bytes(value) + rest) == Some((value, varint_bytes(value).len() as int)),
{
    let code = varint_bytes(value);
    let all = code + rest;
    let len = code.len() as int;
    let digits = code.update(0, code[0] % 0x40);
    lemma_varint_digits(value);
    assert(all[0] == code[0]);
    assert(all.take(len) =~= code);
    assert(all.take(len).update(0, all[0] % 0x40) =~= digits);
}

/// The encoding announces its own length, and its digits are the value.
proof fn lemma_varint_digits(value: u64)
    requires
        value < VARINT_LIMIT,
    ensures
        ({
            let code = varint_bytes(value);
            &&& code.len() == varint_len(code[0])
            &&& big_endian(code.update(0, code[0] % 0x40)) == value
        }),
{
    let code = varint_bytes(value);
    let digits = code.update(0, code[0] % 0x40);
    if value < 0x40 {
        lemma_big_endian_of_1(digits);
    } else if value < 0x4000 {
        lemma_big_endian_of_2(digits);
    } else if value < 0x4000_0000 {
        lemma_big_endian_of_4(digits);
        lemma_divide_by_bytes(value);
    } else {
        lemma_big_endian_of_8(digits);
        lemma_divide_by_bytes(value);
    }
}

/// Dividing by a power of 256 is dividing by 256 again and again.
proof fn lemma_divide_by_bytes(value: u64)
    ensures
        value / 0x1_0000 == value / 0x100 / 0x100,
        value / 0x100_0000 == value / 0x1_0000 / 0x100,
        value / 0x1_0000_0000 == value / 0x100_0000 / 0x100,
        value / 0x100_0000_0000 == value / 0x1_0000_0000 / 0x100,
        value / 0x1_0000_0000_0000 == value / 0x100_0000_0000 / 0x100,
        value / 0x100_0000_0000_0000 == value / 0x1_0000_0000_0000 / 0x100,
{
    let v = value as int;
    vstd::arithmetic::div_mod::lemma_div_denominator(v, 0x100, 0x100);
    vstd::arithmetic::div_mod::lemma_div_denominator(v, 0x1_0000, 0x100);
    vstd::arithmetic::div_mod::lemma_div_denominator(v, 0x100_0000, 0x100);
    vstd::arithmetic::div_mod::lemma_div_denominator(v, 0x1_0000_0000, 0x100);
    vstd::arithmetic::div_mod::lemma_div_denominator(v, 0x100_0000_0000, 0x100);
    vstd::arithmetic::div_mod::lemma_div_denominator(v, 0x1_0000_0000_0000, 0x100);
}

proof fn lemma_big_endian_of_1(d: Seq<u8>)
    requires
        d.len() == 1,
    ensures
        big_endian(d) == d[0],
{
    reveal_with_fuel(big_endian, 2);
}

proof fn lemma_big_endian_of_2(d: Seq<u8>)
    requires
        d.len() == 2,
    ensures
        big_endian(d) == d[0] * 0x100 + d[1],
{
    lemma_big_endian_of_1(d.drop_last());
}

proof fn lemma_big_endian_of_4(d: Seq<u8>)
    requires
        d.len() == 4,
    ensures
        big_endian(d) == d[0] * 0x100_0000 + d[1] * 0x1_0000 + d[2] * 0x100 + d[3],
{
    lemma_big_endian_of_2(d.drop_last().drop_last());
    assert(big_endian(d.drop_last()) == big_endian(d.drop_last().drop_last()) * 0x100 + d[2]);
}

proof fn lemma_big_endian_of_8(d: Seq<u8>)
    requires
        d.len() == 8,
    ensures
        big_endian(d) == d[0] * 0x100_0000_0000_0000 + d[1] * 0x1_0000_0000_0000 + d[2]
            * 0x100_0000_0000 + d[3] * 0x1_0000_0000 + d[4] * 0x100_0000 + d[5] * 0x1_0000 + d[6]
            * 0x100 + d[7],
{
    let d7 = d.drop_last();
    let d6 = d7.drop_last();
    let d5 = d6.drop_last();
    lemma_big_endian_of_4(d5.drop_last());
    assert(big_endian(d5) == big_endian(d5.drop_last()) * 0x100 + d[4]);
    assert(big_endian(d6) == big_endian(d5) * 0x100 + d[5]);
    assert(big_endian(d7) == big_endian(d6) * 0x100 + d[6]);
}

/// An integer is written in network order with its length in the two high bits of
/// the first byte: without them the bytes are the value, and no shorter form would
/// hold it.
pub proof fn law_varint_layout(value: u64)
    requires
        value < VARINT_LIMIT,
    ensures
        ({
            let code = varint_bytes(value);
            &&& code.len() == 1 || code.len() == 2 || code.len() == 4 || code.len() == 8
            &&& code.len() == 1 <==> value < 0x40
            &&& code.len() <= 2 <==> value < 0x4000
            &&& code.len() <= 4 <==> value < 0x4000_0000
            &&& code[0] / 0x40 == if code.len() == 1 {
                0int
            } else if code.len() == 2 {
                1
            } else if code.len() == 4 {
                2
            } else {
                3
            }
            &&& big_endian(code.update(0, code[0] % 0x40)) == value
        }),
{
    lemma_varint_digits(value);
}

/// The value of bytes in network order: each byte counts 256 times the one behind
/// it.
pub proof fn law_network_order(bytes: Seq<u8>, last: u8)
    ensures
        big_endian(Seq::<u8>::empty()) == 0,
        big_endian(bytes.push(last)) == 256 * big_endian(bytes) + last,
{
    assert(bytes.push(last).drop_last() =~= bytes);
}

/// An integer is read as far as its first byte says, and only where so many bytes
/// are there.
pub proof fn law_reading_takes_the_announced_length(bytes: Seq<u8>)
    ensures
        match parse_varint(bytes) {
            Some((value, n)) => {
                &&& n == varint_len(bytes[0])
                &&& 0 < n <= bytes.len()
                &&& bytes[0] < 0x40 ==> n == 1 && value == bytes[0]
                &&& 0x40 <= bytes[0] < 0x80 ==> n == 2
                &&& 0x80 <= bytes[0] < 0xc0 ==> n == 4
                &&& 0xc0 <= bytes[0] ==> n == 8
            },
            None => bytes.len() == 0 || bytes.len() < varint_len(bytes[0]),
        },
{
    if bytes.len() > 0 && bytes[0] < 0x40 {
        let digits = bytes.take(1).update(0, bytes[0] % 0x40);
        lemma_big_endian_of_1(digits);
    }
}

} // verus!
