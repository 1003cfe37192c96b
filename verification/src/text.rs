//! Numbers as text.

use vstd::prelude::*;

verus! {

/// The character of a decimal digit.
pub open spec fn digit_char(digit: int) -> char {
    (0x30 + digit) as char
}

/// A number in decimal.
pub open spec fn decimal_text(value: nat) -> Seq<char>
    decreases value,
{
    if value < 10 {
        seq![digit_char(value as int)]
    } else {
        decimal_text(value / 10).push(digit_char((value % 10) as int))
    }
}

fn digit_str(digit: u64) -> (text: &'static str)
    requires
        digit < 10,
    ensures
        text@ == seq![digit_char(digit as int)],
{
    proof {
        reveal_strlit("0");
        reveal_strlit("1");
        reveal_strlit("2");
        reveal_strlit("3");
        reveal_strlit("4");
        reveal_strlit("5");
        reveal_strlit("6");
        reveal_strlit("7");
        reveal_strlit("8");
        reveal_strlit("9");
    }
    let text: &'static str = match digit {
        0 => "0",
        1 => "1",
        2 => "2",
        3 => "3",
        4 => "4",
        5 => "5",
        6 => "6",
        7 => "7",
        8 => "8",
        _ => "9",
    };
    proof {
        assert(text@ =~= seq![digit_char(digit as int)]);
    }
    text
}

/// Appends a number in decimal.
pub fn push_decimal(text: &mut String, value: u64)
    ensures
        final(text)@ == old(text)@ + decimal_text(value as nat),
    decreases value,
{
    let ghost before = text@;
    if value >= 10 {
        push_decimal(text, value / 10);
    }
    text.append(digit_str(value % 10));
    proof {
        assert(text@ =~= before + decimal_text(value as nat));
    }
}

/// The number of decimal digits of a number.
pub open spec fn decimal_len(value: nat) -> nat
    decreases value,
{
    if value < 10 {
        1
    } else {
        decimal_len(value / 10) + 1
    }
}

/// `count` zeros.
pub open spec fn zeros(count: nat) -> Seq<char> {
    Seq::new(count, |i: int| '0')
}

/// A number in decimal, with zeros in front where it has fewer than `width`
/// digits.
pub open spec fn padded_decimal_text(value: nat, width: nat) -> Seq<char> {
    if decimal_len(value) < width {
        zeros((width - decimal_len(value)) as nat) + decimal_text(value)
    } else {
        decimal_text(value)
    }
}

fn count_digits(value: u64) -> (count: usize)
    ensures
        count == decimal_len(value as nat),
        count <= 20,
{
    let mut count: usize = 1;
    let mut rest: u64 = value;
    proof {
        lemma_decimal_len_bound(value);
    }
    while rest >= 10
        invariant
            count - 1 + decimal_len(rest as nat) == decimal_len(value as nat),
            1 <= count,
            decimal_len(value as nat) <= 20,
            decimal_len(rest as nat) >= 1,
        decreases rest,
    {
        rest = rest / 10;
        count = count + 1;
        proof {
            lemma_decimal_len_positive(rest as nat);
        }
    }
    count
}

proof fn lemma_decimal_len_positive(value: nat)
    ensures
        decimal_len(value) >= 1,
{
}

proof fn lemma_decimal_len_bound(value: u64)
    ensures
        1 <= decimal_len(value as nat) <= 20,
{
    reveal_with_fuel(decimal_len, 21);
}

/// Appends a number in decimal, with zeros in front up to a width.
pub fn push_padded_decimal(text: &mut String, value: u64, width: usize)
    ensures
        final(text)@ == old(text)@ + padded_decimal_text(value as nat, width as nat),
{
    let ghost before = text@;
    let digits: usize = count_digits(value);
    let mut i: usize = digits;
    proof {
        reveal_strlit("0");
        assert(zeros(0) =~= Seq::empty());
    }
    while i < width
        invariant
            digits <= i,
            i <= width || i == digits,
            "0"@ == seq!['0'],
            text@ == before + zeros((i - digits) as nat),
        decreases width - i,
    {
        text.append("0");
        i = i + 1;
        proof {
            assert(zeros((i - digits) as nat) =~= zeros((i - 1 - digits) as nat) + seq!['0']);
        }
    }
    push_decimal(text, value);
    proof {
        assert(text@ =~= before + padded_decimal_text(value as nat, width as nat));
    }
}

/// A number is written with as many characters as it has digits.
pub proof fn law_decimal_text_len(value: nat)
    ensures
        decimal_text(value).len() == decimal_len(value),
    decreases value,
{
    if value >= 10 {
        law_decimal_text_len(value / 10);
    }
}

/// A number is written in digits only.
pub proof fn lemma_decimal_text_is_digits(value: nat, i: int)
    requires
        0 <= i < decimal_text(value).len(),
    ensures
        '0' <= decimal_text(value)[i] <= '9',
    decreases value,
{
    if value >= 10 && i < decimal_text(value).len() - 1 {
        lemma_decimal_text_is_digits(value / 10, i);
    }
}

/// Different numbers are written differently.
pub proof fn law_decimal_text_is_injective(a: nat, b: nat)
    ensures
        decimal_text(a) == decimal_text(b) ==> a == b,
    decreases a,
{
    if decimal_text(a) == decimal_text(b) {
        law_decimal_text_len(a);
        law_decimal_text_len(b);
        lemma_decimal_len_positive(a / 10);
        lemma_decimal_len_positive(b / 10);
        let ta = decimal_text(a);
        let tb = decimal_text(b);
        assert(ta.last() == tb.last());
        if a >= 10 && b >= 10 {
            assert(ta.drop_last() =~= decimal_text(a / 10));
            assert(tb.drop_last() =~= decimal_text(b / 10));
            law_decimal_text_is_injective(a / 10, b / 10);
            assert(digit_char((a % 10) as int) == digit_char((b % 10) as int));
        } else if a < 10 && b < 10 {
            assert(digit_char(a as int) == digit_char(b as int));
        }
    }
}

/// The value that a run of digits writes.
spec fn value_of(text: Seq<char>) -> int
    decreases text.len(),
{
    if text.len() == 0 {
        0
    } else {
        value_of(text.drop_last()) * 10 + (text.last() as int - 0x30)
    }
}

proof fn lemma_value_of_padded(count: nat, value: nat)
    ensures
        value_of(zeros(count) + decimal_text(value)) == value,
    decreases value, count,
{
    let text = zeros(count) + decimal_text(value);
    if value >= 10 {
        lemma_value_of_padded(count, value / 10);
        assert(text.drop_last() =~= zeros(count) + decimal_text(value / 10));
    } else {
        assert(text.drop_last() =~= zeros(count));
        lemma_value_of_zeros(count);
    }
}

proof fn lemma_value_of_zeros(count: nat)
    ensures
        value_of(zeros(count)) == 0,
    decreases count,
{
    if count > 0 {
        assert(zeros(count).drop_last() =~= zeros((count - 1) as nat));
        lemma_value_of_zeros((count - 1) as nat);
    }
}

/// One text comes before another in the order of their characters.
pub open spec fn sorts_before(a: Seq<char>, b: Seq<char>) -> bool {
    exists|i: int| #[trigger] differs_first(a, b, i)
}

/// The texts are the same up to position `i`; there the first one ends, or has
/// the smaller character.
pub open spec fn differs_first(a: Seq<char>, b: Seq<char>, i: int) -> bool {
    &&& 0 <= i <= a.len()
    &&& i < b.len()
    &&& a.take(i) == b.take(i)
    &&& i == a.len() || a[i] < b[i]
}

spec fn is_digits(text: Seq<char>) -> bool {
    forall|i: int| 0 <= i < text.len() ==> '0' <= #[trigger] text[i] <= '9'
}

proof fn lemma_same_value_same_digits(a: Seq<char>, b: Seq<char>)
    requires
        is_digits(a),
        is_digits(b),
        a.len() == b.len(),
        value_of(a) == value_of(b),
    ensures
        a == b,
    decreases a.len(),
{
    if a.len() > 0 {
        assert('0' <= a[a.len() - 1] <= '9');
        assert('0' <= b[b.len() - 1] <= '9');
        lemma_same_value_same_digits(a.drop_last(), b.drop_last());
        assert(a =~= a.drop_last().push(a.last()));
        assert(b =~= b.drop_last().push(b.last()));
    } else {
        assert(a =~= b);
    }
}

proof fn lemma_smaller_value_sorts_before(a: Seq<char>, b: Seq<char>)
    requires
        is_digits(a),
        is_digits(b),
        a.len() == b.len(),
        value_of(a) < value_of(b),
    ensures
        sorts_before(a, b),
    decreases a.len(),
{
    if a.len() > 0 {
        let n = a.len() - 1;
        assert('0' <= a[n] <= '9');
        assert('0' <= b[n] <= '9');
        let (front_a, front_b) = (a.drop_last(), b.drop_last());
        if value_of(front_a) < value_of(front_b) {
            lemma_smaller_value_sorts_before(front_a, front_b);
            let i = choose|i: int| #[trigger] differs_first(front_a, front_b, i);
            assert(a.take(i) =~= front_a.take(i));
            assert(b.take(i) =~= front_b.take(i));
            assert(differs_first(a, b, i));
        } else {
            lemma_same_value_same_digits(front_a, front_b);
            assert(a.take(n) =~= front_a);
            assert(b.take(n) =~= front_b);
            assert(differs_first(a, b, n));
        }
    }
}

/// Numbers that fit in the width sort as text in the order of their values.
pub proof fn law_padded_decimal_text_sorts_by_value(a: nat, b: nat, width: nat)
    requires
        a < b,
        decimal_len(a) <= width,
        decimal_len(b) <= width,
    ensures
        padded_decimal_text(a, width).len() == width,
        padded_decimal_text(b, width).len() == width,
        sorts_before(padded_decimal_text(a, width), padded_decimal_text(b, width)),
{
    let ta = zeros((width - decimal_len(a)) as nat) + decimal_text(a);
    let tb = zeros((width - decimal_len(b)) as nat) + decimal_text(b);
    assert(ta =~= padded_decimal_text(a, width));
    assert(tb =~= padded_decimal_text(b, width));
    law_decimal_text_len(a);
    law_decimal_text_len(b);
    lemma_value_of_padded((width - decimal_len(a)) as nat, a);
    lemma_value_of_padded((width - decimal_len(b)) as nat, b);
    assert forall|i: int| 0 <= i < ta.len() implies '0' <= #[trigger] ta[i] <= '9' by {
        let pad = width - decimal_len(a);
        if i >= pad {
            lemma_decimal_text_is_digits(a, i - pad);
        }
    }
    assert forall|i: int| 0 <= i < tb.len() implies '0' <= #[trigger] tb[i] <= '9' by {
        let pad = width - decimal_len(b);
        if i >= pad {
            lemma_decimal_text_is_digits(b, i - pad);
        }
    }
    lemma_smaller_value_sorts_before(ta, tb);
}

/// Different numbers are written differently, also with zeros in front.
pub proof fn law_padded_decimal_text_is_injective(a: nat, b: nat, width: nat)
    ensures
        padded_decimal_text(a, width) == padded_decimal_text(b, width) ==> a == b,
{
    let za = if decimal_len(a) < width {
        (width - decimal_len(a)) as nat
    } else {
        0
    };
    let zb = if decimal_len(b) < width {
        (width - decimal_len(b)) as nat
    } else {
        0
    };
    assert(zeros(za) + decimal_text(a) =~= padded_decimal_text(a, width));
    assert(zeros(zb) + decimal_text(b) =~= padded_decimal_text(b, width));
    lemma_value_of_padded(za, a);
    lemma_value_of_padded(zb, b);
}

/// White space, as Unicode has it.
pub open spec fn is_white_space(c: char) -> bool {
    ||| 0x9 <= c as u32 <= 0xd
    ||| c as u32 == 0x20
    ||| c as u32 == 0x85
    ||| c as u32 == 0xa0
    ||| c as u32 == 0x1680
    ||| 0x2000 <= c as u32 <= 0x200a
    ||| c as u32 == 0x2028
    ||| c as u32 == 0x2029
    ||| c as u32 == 0x202f
    ||| c as u32 == 0x205f
    ||| c as u32 == 0x3000
}

/// A character reduced to one byte: white space is a space, other ASCII is
/// itself, and anything else is a byte that is no character.
pub open spec fn reduced(c: char) -> u8 {
    if is_white_space(c) {
        0x20
    } else if (c as u32) < 0x80 {
        c as u8
    } else {
        0xff
    }
}

/// A text reduced character by character.
pub open spec fn reduced_text(text: Seq<char>) -> Seq<u8> {
    text.map_values(|c: char| reduced(c))
}

fn reduce(c: char) -> (byte: u8)
    ensures
        byte == reduced(c),
{
    let code: u32 = c as u32;
    if (0x9 <= code && code <= 0xd) || code == 0x20 || code == 0x85 || code == 0xa0 || code
        == 0x1680 || (0x2000 <= code && code <= 0x200a) || code == 0x2028 || code == 0x2029 || code
        == 0x202f || code == 0x205f || code == 0x3000 {
        0x20
    } else if code < 0x80 {
        code as u8
    } else {
        0xff
    }
}

/// Reduces a text character by character.
pub fn reduce_text(text: &str) -> (bytes: Vec<u8>)
    ensures
        bytes@ == reduced_text(text@),
{
    let len: usize = text.unicode_len();
    let mut bytes: Vec<u8> = Vec::new();
    let mut i: usize = 0;
    while i < len
        invariant
            i <= len,
            len == text@.len(),
            bytes@ =~= reduced_text(text@.take(i as int)),
        decreases len - i,
    {
        bytes.push(reduce(text.get_char(i)));
        i = i + 1;
    }
    proof {
        assert(text@.take(i as int) =~= text@);
    }
    bytes
}

/// A reduced text without the white space at its ends.
pub open spec fn trimmed(text: Seq<u8>) -> Seq<u8>
    decreases text.len(),
{
    if text.len() > 0 && text[0] == 0x20 {
        trimmed(text.skip(1))
    } else if text.len() > 0 && text.last() == 0x20 {
        trimmed(text.drop_last())
    } else {
        text
    }
}

/// The bounds of a stretch of a reduced text without the white space at its ends.
pub fn trim(text: &[u8], start: usize, end: usize) -> (bounds: (usize, usize))
    requires
        start <= end <= text.len(),
    ensures
        start <= bounds.0 <= bounds.1 <= end,
        text@.subrange(bounds.0 as int, bounds.1 as int) == trimmed(
            text@.subrange(start as int, end as int),
        ),
{
    let ghost whole = text@.subrange(start as int, end as int);
    let mut first: usize = start;
    while first < end && text[first] == 0x20
        invariant
            start <= first <= end <= text.len(),
            trimmed(whole) == trimmed(text@.subrange(first as int, end as int)),
        decreases end - first,
    {
        proof {
            let rest = text@.subrange(first as int, end as int);
            assert(rest[0] == 0x20);
            assert(rest.skip(1) =~= text@.subrange(first + 1, end as int));
        }
        first = first + 1;
    }
    let mut last: usize = end;
    while last > first && text[last - 1] == 0x20
        invariant
            start <= first <= last <= end <= text.len(),
            first < last ==> text@[first as int] != 0x20,
            trimmed(whole) == trimmed(text@.subrange(first as int, last as int)),
        decreases last,
    {
        proof {
            let rest = text@.subrange(first as int, last as int);
            assert(rest[0] == text@[first as int]);
            assert(rest.last() == 0x20);
            assert(rest.drop_last() =~= text@.subrange(first as int, last - 1));
        }
        last = last - 1;
    }
    proof {
        let rest = text@.subrange(first as int, last as int);
        if rest.len() > 0 {
            assert(rest[0] == text@[first as int]);
            assert(rest.last() == text@[last - 1]);
        }
    }
    (first, last)
}

/// The position of the first `c` at or behind `start`; the end of the text when
/// there is none.
pub open spec fn position_of(text: Seq<char>, start: int, c: char) -> int
    decreases text.len() - start,
{
    if start >= text.len() {
        text.len() as int
    } else if text[start] == c {
        start
    } else {
        position_of(text, start + 1, c)
    }
}

/// The position of the first `c` at or behind `start`; the end of the text when
/// there is none.
pub fn find_char(text: &str, start: usize, c: char) -> (position: usize)
    requires
        start <= text@.len(),
    ensures
        position == position_of(text@, start as int, c),
        start <= position <= text@.len(),
{
    let len: usize = text.unicode_len();
    let mut i: usize = start;
    while i < len
        invariant
            start <= i <= len,
            len == text@.len(),
            position_of(text@, start as int, c) == position_of(text@, i as int, c),
        decreases len - i,
    {
        if text.get_char(i) == c {
            return i;
        }
        i = i + 1;
    }
    i
}

/// The pieces of a text from position `start` on, between separators.
pub open spec fn pieces(text: Seq<char>, start: int, separator: char) -> Seq<Seq<char>>
    decreases text.len() - start,
{
    let end = position_of(text, start, separator);
    if 0 <= start && start <= end && end < text.len() {
        seq![text.subrange(start, end)] + pieces(text, end + 1, separator)
    } else {
        seq![text.subrange(start, end)]
    }
}

/// A text without the white space at its ends.
pub open spec fn trimmed_text(text: Seq<char>) -> Seq<char>
    decreases text.len(),
{
    if text.len() > 0 && is_white_space(text[0]) {
        trimmed_text(text.skip(1))
    } else if text.len() > 0 && is_white_space(text.last()) {
        trimmed_text(text.drop_last())
    } else {
        text
    }
}

fn white_space(c: char) -> (white: bool)
    ensures
        white == is_white_space(c),
{
    let byte: u8 = reduce(c);
    byte == 0x20
}

/// Returns a text without the white space at its ends.
pub fn trim_text(text: &str) -> (trimmed: &str)
    ensures
        trimmed@ == trimmed_text(text@),
{
    let len: usize = text.unicode_len();
    let ghost whole = text@;
    proof {
        assert(whole.subrange(0, len as int) =~= whole);
    }
    let mut first: usize = 0;
    while first < len && white_space(text.get_char(first))
        invariant
            first <= len,
            len == whole.len(),
            whole == text@,
            trimmed_text(whole) == trimmed_text(whole.subrange(first as int, len as int)),
        decreases len - first,
    {
        proof {
            let rest = whole.subrange(first as int, len as int);
            assert(rest[0] == whole[first as int]);
            assert(rest.skip(1) =~= whole.subrange(first + 1, len as int));
        }
        first = first + 1;
    }
    let mut last: usize = len;
    while last > first && white_space(text.get_char(last - 1))
        invariant
            first <= last <= len,
            len == whole.len(),
            whole == text@,
            first < last ==> !is_white_space(whole[first as int]),
            trimmed_text(whole) == trimmed_text(whole.subrange(first as int, last as int)),
        decreases last,
    {
        proof {
            let rest = whole.subrange(first as int, last as int);
            assert(rest[0] == whole[first as int]);
            assert(rest.last() == whole[last - 1]);
            assert(rest.drop_last() =~= whole.subrange(first as int, last - 1));
        }
        last = last - 1;
    }
    proof {
        let rest = whole.subrange(first as int, last as int);
        if rest.len() > 0 {
            assert(rest[0] == whole[first as int]);
            assert(rest.last() == whole[last - 1]);
        }
    }
    text.substring_char(first, last)
}

/// Padding only puts zeros in front, and only as many as the width asks for.
pub proof fn law_padding_is_zeros_in_front(value: nat, width: nat, i: int)
    ensures
        ({
            let padded = padded_decimal_text(value, width);
            let plain = decimal_text(value);
            &&& plain.len() >= width ==> padded == plain
            &&& plain.len() < width ==> padded.len() == width
            &&& padded.skip(padded.len() - plain.len()) == plain
            &&& 0 <= i < padded.len() - plain.len() ==> padded[i] == '0'
        }),
{
    law_decimal_text_len(value);
    let padded = padded_decimal_text(value, width);
    assert(padded.skip(padded.len() - decimal_text(value).len()) =~= decimal_text(value));
}

/// White space is what Unicode counts as such.
pub proof fn law_white_space_is_unicode(c: char)
    ensures
        is_white_space(c) <==> seq![
            0x9u32,
            0xa,
            0xb,
            0xc,
            0xd,
            0x20,
            0x85,
            0xa0,
            0x1680,
            0x2000,
            0x2001,
            0x2002,
            0x2003,
            0x2004,
            0x2005,
            0x2006,
            0x2007,
            0x2008,
            0x2009,
            0x200a,
            0x2028,
            0x2029,
            0x202f,
            0x205f,
            0x3000,
        ].contains(c as u32),
{
    let codes = seq![
        0x9u32,
        0xa,
        0xb,
        0xc,
        0xd,
        0x20,
        0x85,
        0xa0,
        0x1680,
        0x2000,
        0x2001,
        0x2002,
        0x2003,
        0x2004,
        0x2005,
        0x2006,
        0x2007,
        0x2008,
        0x2009,
        0x200a,
        0x2028,
        0x2029,
        0x202f,
        0x205f,
        0x3000,
    ];
    assert(codes[0] == 0x9 && codes[1] == 0xa && codes[2] == 0xb && codes[3] == 0xc && codes[4]
        == 0xd && codes[5] == 0x20 && codes[6] == 0x85 && codes[7] == 0xa0 && codes[8] == 0x1680
        && codes[9] == 0x2000 && codes[10] == 0x2001 && codes[11] == 0x2002 && codes[12] == 0x2003
        && codes[13] == 0x2004 && codes[14] == 0x2005 && codes[15] == 0x2006 && codes[16] == 0x2007
        && codes[17] == 0x2008 && codes[18] == 0x2009 && codes[19] == 0x200a && codes[20] == 0x2028
        && codes[21] == 0x2029 && codes[22] == 0x202f && codes[23] == 0x205f && codes[24]
        == 0x3000);
}

proof fn lemma_reduced(c: char)
    ensures
        reduced(c) == 0x20 <==> is_white_space(c),
        reduced(c) < 0x80 && reduced(c) != 0x20 ==> c as u32 == reduced(c),
        (c as u32) < 0x80 && !is_white_space(c) ==> reduced(c) == c as u32,
{
}

/// Reducing a text keeps its length and its visible ASCII, and makes a space of all
/// white space and nothing else.
pub proof fn law_reducing_keeps_ascii(text: Seq<char>, i: int)
    requires
        0 <= i < text.len(),
    ensures
        reduced_text(text).len() == text.len(),
        reduced_text(text)[i] == 0x20 <==> is_white_space(text[i]),
        reduced_text(text)[i] < 0x80 && reduced_text(text)[i] != 0x20 ==> text[i] as u32
            == reduced_text(text)[i],
        (text[i] as u32) < 0x80 && !is_white_space(text[i]) ==> reduced_text(text)[i]
            == text[i] as u32,
{
    lemma_reduced(text[i]);
}

/// Trimming takes spaces off both ends, all of them and nothing else.
pub proof fn law_trimming_takes_the_outer_spaces(text: Seq<u8>) -> (bounds: (int, int))
    ensures
        0 <= bounds.0 <= bounds.1 <= text.len(),
        trimmed(text) == text.subrange(bounds.0, bounds.1),
        forall|i: int| 0 <= i < bounds.0 ==> #[trigger] text[i] == 0x20,
        forall|i: int| bounds.1 <= i < text.len() ==> #[trigger] text[i] == 0x20,
        trimmed(text).len() > 0 ==> trimmed(text)[0] != 0x20 && trimmed(text).last() != 0x20,
    decreases text.len(),
{
    if text.len() > 0 && text[0] == 0x20 {
        let inner = text.skip(1);
        let (start, end) = law_trimming_takes_the_outer_spaces(inner);
        assert(inner.subrange(start, end) =~= text.subrange(start + 1, end + 1));
        assert forall|i: int| 0 <= i < start + 1 implies #[trigger] text[i] == 0x20 by {
            if i > 0 {
                assert(inner[i - 1] == text[i]);
            }
        }
        assert forall|i: int| end + 1 <= i < text.len() implies #[trigger] text[i] == 0x20 by {
            assert(inner[i - 1] == text[i]);
        }
        (start + 1, end + 1)
    } else if text.len() > 0 && text.last() == 0x20 {
        let inner = text.drop_last();
        let (start, end) = law_trimming_takes_the_outer_spaces(inner);
        assert(inner.subrange(start, end) =~= text.subrange(start, end));
        assert forall|i: int| 0 <= i < start implies #[trigger] text[i] == 0x20 by {
            assert(inner[i] == text[i]);
        }
        assert forall|i: int| end <= i < text.len() implies #[trigger] text[i] == 0x20 by {
            if i < inner.len() {
                assert(inner[i] == text[i]);
            }
        }
        (start, end)
    } else {
        assert(text.subrange(0, text.len() as int) =~= text);
        (0, text.len() as int)
    }
}

/// Trimming a text takes white space off both ends, all of it and nothing else.
pub proof fn law_trimming_takes_the_outer_white_space(text: Seq<char>) -> (bounds: (int, int))
    ensures
        0 <= bounds.0 <= bounds.1 <= text.len(),
        trimmed_text(text) == text.subrange(bounds.0, bounds.1),
        forall|i: int| 0 <= i < bounds.0 ==> is_white_space(#[trigger] text[i]),
        forall|i: int| bounds.1 <= i < text.len() ==> is_white_space(#[trigger] text[i]),
        trimmed_text(text).len() > 0 ==> !is_white_space(trimmed_text(text)[0])
            && !is_white_space(trimmed_text(text).last()),
    decreases text.len(),
{
    if text.len() > 0 && is_white_space(text[0]) {
        let inner = text.skip(1);
        let (start, end) = law_trimming_takes_the_outer_white_space(inner);
        assert(inner.subrange(start, end) =~= text.subrange(start + 1, end + 1));
        assert forall|i: int| 0 <= i < start + 1 implies is_white_space(#[trigger] text[i]) by {
            if i > 0 {
                assert(inner[i - 1] == text[i]);
            }
        }
        assert forall|i: int| end + 1 <= i < text.len() implies is_white_space(
            #[trigger] text[i],
        ) by {
            assert(inner[i - 1] == text[i]);
        }
        (start + 1, end + 1)
    } else if text.len() > 0 && is_white_space(text.last()) {
        let inner = text.drop_last();
        let (start, end) = law_trimming_takes_the_outer_white_space(inner);
        assert(inner.subrange(start, end) =~= text.subrange(start, end));
        assert forall|i: int| 0 <= i < start implies is_white_space(#[trigger] text[i]) by {
            assert(inner[i] == text[i]);
        }
        assert forall|i: int| end <= i < text.len() implies is_white_space(#[trigger] text[i]) by {
            if i < inner.len() {
                assert(inner[i] == text[i]);
            }
        }
        (start, end)
    } else {
        assert(text.subrange(0, text.len() as int) =~= text);
        (0, text.len() as int)
    }
}

/// The position of a character is its first one at or behind the start, and the end of
/// the text where there is none.
pub proof fn law_first_position_is_found(text: Seq<char>, start: int, c: char)
    requires
        0 <= start <= text.len(),
    ensures
        start <= position_of(text, start, c) <= text.len(),
        forall|j: int| start <= j < position_of(text, start, c) ==> #[trigger] text[j] != c,
        position_of(text, start, c) < text.len() ==> text[position_of(text, start, c)] == c,
    decreases text.len() - start,
{
    if start < text.len() && text[start] != c {
        law_first_position_is_found(text, start + 1, c);
    }
}

/// Pieces that are put together again, with the separator between them.
pub open spec fn with_separators(pieces: Seq<Seq<char>>, separator: char) -> Seq<char>
    decreases pieces.len(),
{
    if pieces.len() == 0 {
        Seq::empty()
    } else if pieces.len() == 1 {
        pieces[0]
    } else {
        pieces[0] + seq![separator] + with_separators(pieces.drop_first(), separator)
    }
}

/// A text is its pieces with the separator between them, and none of them holds it.
pub proof fn law_pieces_make_up_the_text(text: Seq<char>, start: int, separator: char)
    requires
        0 <= start <= text.len(),
    ensures
        pieces(text, start, separator).len() > 0,
        with_separators(pieces(text, start, separator), separator) == text.skip(start),
        forall|i: int|
            0 <= i < pieces(text, start, separator).len() ==> !(#[trigger] pieces(
                text,
                start,
                separator,
            )[i]).contains(separator),
    decreases text.len() - start,
{
    law_first_position_is_found(text, start, separator);
    let end = position_of(text, start, separator);
    let parts = pieces(text, start, separator);
    let first = text.subrange(start, end);
    assert(!first.contains(separator)) by {
        assert forall|i: int| 0 <= i < first.len() implies first[i] != separator by {
            assert(first[i] == text[start + i]);
        }
    }
    if end < text.len() {
        law_pieces_make_up_the_text(text, end + 1, separator);
        let rest = pieces(text, end + 1, separator);
        assert(parts =~= seq![first] + rest);
        assert(parts.drop_first() =~= rest);
        assert(first + seq![separator] + text.skip(end + 1) =~= text.skip(start));
        assert forall|i: int| 0 <= i < parts.len() implies !(#[trigger] parts[i]).contains(
            separator,
        ) by {
            if i > 0 {
                assert(parts[i] == rest[i - 1]);
            }
        }
    } else {
        assert(first =~= text.skip(start));
    }
}

/// A space before or behind a text does not survive trimming.
pub proof fn law_outer_spaces_do_not_matter(text: Seq<u8>)
    ensures
        trimmed(seq![0x20u8] + text) == trimmed(text),
        trimmed(text.push(0x20)) == trimmed(text),
    decreases text.len(),
{
    assert((seq![0x20u8] + text).skip(1) =~= text);
    let longer = text.push(0x20);
    if text.len() == 0 {
        assert(longer.skip(1) =~= text);
    } else if text[0] == 0x20 {
        law_outer_spaces_do_not_matter(text.skip(1));
        assert(longer.skip(1) =~= text.skip(1).push(0x20));
    } else {
        assert(longer.drop_last() =~= text);
    }
}

} // verus!
