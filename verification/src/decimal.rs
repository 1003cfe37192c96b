//! Unsigned decimal numbers in text.

use vstd::prelude::*;

verus! {

pub open spec fn is_digit(byte: u8) -> bool {
    0x30 <= byte <= 0x39
}

/// All bytes are digits.
pub open spec fn all_digits(text: Seq<u8>) -> bool {
    forall|i: int| 0 <= i < text.len() ==> is_digit(#[trigger] text[i])
}

/// The value of a run of digits.
pub open spec fn digits_value(text: Seq<u8>) -> nat
    decreases text.len(),
{
    if text.len() == 0 {
        0
    } else {
        digits_value(text.drop_last()) * 10 + (text.last() - 0x30) as nat
    }
}

/// A number without its plus sign, where it has one.
pub open spec fn without_plus(text: Seq<u8>) -> Seq<u8> {
    if text.len() > 0 && text[0] == 0x2b {
        text.skip(1)
    } else {
        text
    }
}

/// The number that a text writes: at least one digit, behind an optional plus
/// sign, and nothing else. `None` when it is no number or exceeds `max`.
pub open spec fn decimal(text: Seq<u8>, max: u64) -> Option<u64> {
    let digits = without_plus(text);
    if digits.len() > 0 && all_digits(digits) && digits_value(digits) <= max {
        Some(digits_value(digits) as u64)
    } else {
        None
    }
}

/// Why a text is no number.
#[derive(Debug, Clone, Copy, PartialEq, Eq, Structural)]
pub enum NumberError {
    /// There is nothing to read.
    Empty,
    /// Something that is not a digit.
    InvalidDigit,
    /// The number is too large.
    Overflow,
}

impl NumberError {
    pub open spec fn spec_text(self) -> Seq<char> {
        match self {
            NumberError::Empty => "cannot parse integer from empty string"@,
            NumberError::InvalidDigit => "invalid digit found in string"@,
            NumberError::Overflow => "number too large to fit in target type"@,
        }
    }

    /// The error in words.
    pub fn text(self) -> (text: &'static str)
        ensures
            text@ == self.spec_text(),
    {
        match self {
            NumberError::Empty => "cannot parse integer from empty string",
            NumberError::InvalidDigit => "invalid digit found in string",
            NumberError::Overflow => "number too large to fit in target type",
        }
    }
}

/// Goes on reading digits at position `i` with the value so far. The first
/// character that is no digit, or that makes the number too large, is the error.
pub open spec fn read_digits(text: Seq<u8>, i: int, value: nat, max: u64) -> Result<
    u64,
    NumberError,
>
    decreases text.len() - i,
{
    if i >= text.len() {
        Ok(value as u64)
    } else if !is_digit(text[i]) {
        Err(NumberError::InvalidDigit)
    } else if value * 10 + (text[i] - 0x30) > max {
        Err(NumberError::Overflow)
    } else {
        read_digits(text, i + 1, (value * 10 + (text[i] - 0x30)) as nat, max)
    }
}

/// Reads a number of at most `max`, with an optional plus sign.
pub open spec fn number(text: Seq<u8>, max: u64) -> Result<u64, NumberError> {
    if text.len() == 0 {
        Err(NumberError::Empty)
    } else if without_plus(text).len() == 0 {
        Err(NumberError::InvalidDigit)
    } else {
        read_digits(without_plus(text), 0, 0, max)
    }
}

proof fn lemma_read_digits(text: Seq<u8>, i: int, max: u64)
    requires
        0 <= i <= text.len(),
        all_digits(text.take(i)),
        digits_value(text.take(i)) <= max,
    ensures
        read_digits(text, i, digits_value(text.take(i)), max) is Ok <==> all_digits(text)
            && digits_value(text) <= max,
        read_digits(text, i, digits_value(text.take(i)), max) matches Ok(v) ==> v == digits_value(
            text,
        ),
    decreases text.len() - i,
{
    if i < text.len() {
        let next = text.take(i + 1);
        assert(next.drop_last() =~= text.take(i));
        if is_digit(text[i]) {
            assert forall|j: int| 0 <= j < next.len() implies is_digit(#[trigger] next[j]) by {
                if j < i {
                    assert(is_digit(text.take(i)[j]));
                }
            }
            if digits_value(next) <= max {
                lemma_read_digits(text, i + 1, max);
            } else if all_digits(text) {
                lemma_value_grows(text, i + 1);
            }
        }
    } else {
        assert(text.take(i) =~= text);
    }
}

/// A text is read as a number exactly when it is one, and as that one.
pub proof fn law_number_reads_decimals(text: Seq<u8>, max: u64)
    ensures
        match number(text, max) {
            Ok(value) => decimal(text, max) == Some(value),
            Err(_) => decimal(text, max) is None,
        },
{
    let digits = without_plus(text);
    assert(digits.take(0) =~= Seq::empty());
    lemma_read_digits(digits, 0, max);
}

proof fn lemma_value_grows(text: Seq<u8>, n: int)
    requires
        0 <= n <= text.len(),
        all_digits(text),
    ensures
        digits_value(text.take(n)) <= digits_value(text),
    decreases text.len() - n,
{
    if n < text.len() {
        lemma_value_grows(text, n + 1);
        assert(text.take(n + 1).drop_last() =~= text.take(n));
        assert(is_digit(text.take(n + 1).last()));
    } else {
        assert(text.take(n) =~= text);
    }
}

/// Reads the number that stands between two positions of a text.
pub fn parse_number(text: &[u8], start: usize, end: usize, max: u64) -> (result: Result<
    u64,
    NumberError,
>)
    requires
        start <= end <= text.len(),
    ensures
        result == number(text@.subrange(start as int, end as int), max),
        result matches Ok(value) ==> value <= max,
{
    let ghost whole = text@.subrange(start as int, end as int);
    if start == end {
        return Err(NumberError::Empty);
    }
    let first: usize = if text[start] == 0x2b {
        start + 1
    } else {
        start
    };
    let ghost digits = without_plus(whole);
    proof {
        assert(digits =~= text@.subrange(first as int, end as int));
    }
    if first == end {
        return Err(NumberError::InvalidDigit);
    }
    let mut value: u64 = 0;
    let mut i: usize = first;
    while i < end
        invariant
            first <= i <= end <= text.len(),
            digits == text@.subrange(first as int, end as int),
            value <= max,
            number(whole, max) == read_digits(digits, 0, 0, max),
            whole == text@.subrange(start as int, end as int),
            start <= end,
            read_digits(digits, 0, 0, max) == read_digits(
                digits,
                i - first,
                value as nat,
                max,
            ),
        decreases end - i,
    {
        let byte: u8 = text[i];
        proof {
            assert(digits[i - first] == byte);
        }
        if byte < 0x30 || byte > 0x39 {
            return Err(NumberError::InvalidDigit);
        }
        let digit: u64 = (byte - 0x30) as u64;
        if digit > max || value > (max - digit) / 10 {
            return Err(NumberError::Overflow);
        }
        value = value * 10 + digit;
        i = i + 1;
    }
    Ok(value)
}

/// Reads the number that stands between two positions of a text.
pub fn parse_decimal(text: &[u8], start: usize, end: usize, max: u64) -> (value: Option<u64>)
    requires
        start <= end <= text.len(),
    ensures
        value == decimal(text@.subrange(start as int, end as int), max),
{
    proof {
        law_number_reads_decimals(text@.subrange(start as int, end as int), max);
    }
    match parse_number(text, start, end, max) {
        Ok(value) => Some(value),
        Err(_) => None,
    }
}

/// The position of the first `byte` at or behind `start`; the end of the text
/// when there is none.
pub open spec fn position_of(text: Seq<u8>, start: int, byte: u8) -> int
    decreases text.len() - start,
{
    if start >= text.len() {
        text.len() as int
    } else if text[start] == byte {
        start
    } else {
        position_of(text, start + 1, byte)
    }
}

/// Nothing before the position is the byte, and the position is, where it lies
/// inside the text.
pub proof fn lemma_position_of(text: Seq<u8>, start: int, byte: u8)
    requires
        0 <= start <= text.len(),
    ensures
        start <= position_of(text, start, byte) <= text.len(),
        forall|j: int| start <= j < position_of(text, start, byte) ==> text[j] != byte,
        position_of(text, start, byte) < text.len() ==> text[position_of(text, start, byte)]
            == byte,
    decreases text.len() - start,
{
    if start < text.len() && text[start] != byte {
        lemma_position_of(text, start + 1, byte);
    }
}

/// The position of the first `byte` at or behind `start`; the end of the text
/// when there is none.
pub fn find_byte(text: &[u8], start: usize, byte: u8) -> (position: usize)
    requires
        start <= text.len(),
    ensures
        position == position_of(text@, start as int, byte),
        start <= position <= text.len(),
{
    let mut i: usize = start;
    while i < text.len()
        invariant
            start <= i <= text.len(),
            position_of(text@, start as int, byte) == position_of(text@, i as int, byte),
        decreases text.len() - i,
    {
        if text[i] == byte {
            return i;
        }
        i = i + 1;
    }
    i
}

proof fn lemma_digits_errors(text: Seq<u8>, i: int, max: u64)
    requires
        0 <= i <= text.len(),
        all_digits(text.take(i)),
        digits_value(text.take(i)) <= max,
    ensures
        read_digits(text, i, digits_value(text.take(i)), max) matches Err(error) ==> {
            ||| error is Overflow && exists|n: int|
                i < n <= text.len() && all_digits(#[trigger] text.take(n)) && digits_value(
                    text.take(n),
                ) > max
            ||| error is InvalidDigit && exists|n: int|
                i <= n < text.len() && !is_digit(#[trigger] text[n]) && all_digits(text.take(n))
                    && digits_value(text.take(n)) <= max
        },
    decreases text.len() - i,
{
    if i < text.len() && is_digit(text[i]) {
        let next = text.take(i + 1);
        assert(next.drop_last() =~= text.take(i));
        assert(all_digits(next)) by {
            assert forall|k: int| 0 <= k < next.len() implies is_digit(#[trigger] next[k]) by {
                if k < i {
                    assert(text.take(i)[k] == next[k]);
                }
            }
        }
        assert(digits_value(next) == digits_value(text.take(i)) * 10 + (text[i] - 0x30));
        if digits_value(next) <= max {
            lemma_digits_errors(text, i + 1, max);
        }
    }
}

/// Each error has its cause: no text, a byte that is no digit behind digits that still
/// fit, or digits that no longer fit.
pub proof fn law_number_errors_have_a_cause(text: Seq<u8>, max: u64)
    ensures
        number(text, max) == Err::<u64, NumberError>(NumberError::Empty) <==> text.len() == 0,
        number(text, max) == Err::<u64, NumberError>(NumberError::InvalidDigit) ==> {
            ||| text.len() == 1 && text[0] == 0x2b
            ||| exists|n: int|
                0 <= n < without_plus(text).len() && !is_digit(#[trigger] without_plus(text)[n])
        },
        number(text, max) == Err::<u64, NumberError>(NumberError::Overflow) ==> exists|n: int|
            0 < n <= without_plus(text).len() && all_digits(#[trigger] without_plus(text).take(n))
                && digits_value(without_plus(text).take(n)) > max,
{
    let digits = without_plus(text);
    assert(digits.take(0) =~= Seq::<u8>::empty());
    if digits.len() > 0 {
        lemma_digits_errors(digits, 0, max);
    }
}

/// A single plus sign in front of a number changes nothing.
pub proof fn law_a_plus_sign_is_skipped(text: Seq<u8>, max: u64)
    requires
        text.len() > 0,
        text[0] != 0x2b,
    ensures
        number(seq![0x2bu8] + text, max) == number(text, max),
        decimal(seq![0x2bu8] + text, max) == decimal(text, max),
{
    assert((seq![0x2bu8] + text).skip(1) =~= text);
}

proof fn lemma_zeros_add_nothing(text: Seq<u8>)
    ensures
        digits_value(seq![0x30u8] + text) == digits_value(text),
    decreases text.len(),
{
    let longer = seq![0x30u8] + text;
    if text.len() == 0 {
        assert(longer.drop_last() =~= Seq::<u8>::empty());
        reveal_with_fuel(digits_value, 2);
    } else {
        assert(longer.drop_last() =~= seq![0x30u8] + text.drop_last());
        lemma_zeros_add_nothing(text.drop_last());
    }
}

/// A zero in front of digits does not change their value, and a further digit behind
/// them counts for ten times less than what stands before it.
pub proof fn law_digits_count_by_place(text: Seq<u8>, digit: u8)
    requires
        is_digit(digit),
    ensures
        digits_value(seq![0x30u8] + text) == digits_value(text),
        digits_value(text.push(digit)) == 10 * digits_value(text) + (digit - 0x30),
        digits_value(seq![digit]) == digit - 0x30,
{
    lemma_zeros_add_nothing(text);
    assert(text.push(digit).drop_last() =~= text);
    reveal_with_fuel(digits_value, 2);
    assert(seq![digit].drop_last() =~= Seq::<u8>::empty());
}

/// The causes of a bad number are told apart by their texts.
pub proof fn law_number_errors_are_told_apart(a: NumberError, b: NumberError)
    ensures
        a.spec_text() == b.spec_text() ==> a == b,
{
    reveal_strlit("cannot parse integer from empty string");
    reveal_strlit("invalid digit found in string");
    reveal_strlit("number too large to fit in target type");
    assert("cannot parse integer from empty string"@.len() == 38);
    assert("invalid digit found in string"@.len() == 29);
    assert("number too large to fit in target type"@.len() == 38);
    assert("cannot parse integer from empty string"@[0] != "number too large to fit in target type"@[0]);
}

/// There are ten digits, and each counts for its distance from the first.
pub proof fn law_there_are_ten_digits(byte: u8)
    ensures
        is_digit(byte) <==> '0' as int <= byte && byte <= '9' as int,
        is_digit(byte) ==> digits_value(seq![byte]) == byte - '0' as int,
{
    reveal_with_fuel(digits_value, 2);
    assert(seq![byte].drop_last() =~= Seq::<u8>::empty());
}

} // verus!
