//! Ladder specifications as they are written, and how they are read back.

use crate::adaptive::{self, LadderError, LadderView};
use crate::decimal;
use crate::text;
use vstd::prelude::*;

verus! {

/// A rung as it is written: `<height>p@<bitrate>`.
pub open spec fn rung_text(rung: (u16, u32)) -> Seq<char> {
    text::decimal_text(rung.0 as nat) + seq!['p', '@'] + text::decimal_text(rung.1 as nat)
}

/// The items of a list, with commas between them.
pub open spec fn listed(items: Seq<Seq<char>>) -> Seq<char>
    decreases items.len(),
{
    if items.len() == 0 {
        Seq::empty()
    } else if items.len() == 1 {
        items[0]
    } else {
        items[0] + seq![','] + listed(items.drop_first())
    }
}

/// Bitrates as they are written.
pub open spec fn bitrate_texts(bitrates_kbps: Seq<u32>) -> Seq<Seq<char>> {
    bitrates_kbps.map_values(|bitrate: u32| text::decimal_text(bitrate as nat))
}

/// Rungs as they are written.
pub open spec fn rung_texts(rungs: Seq<(u16, u32)>) -> Seq<Seq<char>> {
    rungs.map_values(|rung: (u16, u32)| rung_text(rung))
}

/// A ladder as it is written: `default`, `<height>p:<bitrate>,<bitrate>,...` or
/// `<height>p@<bitrate>,<height>p@<bitrate>,...`.
pub open spec fn ladder_text(ladder: LadderView) -> Seq<char> {
    match ladder {
        LadderView::Default => "default"@,
        LadderView::SingleRes { height, bitrates_kbps } => text::decimal_text(height as nat) + seq![
            'p',
            ':',
        ] + listed(bitrate_texts(bitrates_kbps)),
        LadderView::MultiRes { rungs } => listed(rung_texts(rungs)),
    }
}

/// Every character is a digit.
spec fn is_digits(text: Seq<char>) -> bool {
    forall|i: int| 0 <= i < text.len() ==> '0' <= #[trigger] text[i] <= '9'
}

proof fn lemma_reduced_digits(text: Seq<char>)
    requires
        is_digits(text),
    ensures
        text::reduced_text(text).len() == text.len(),
        decimal::all_digits(text::reduced_text(text)),
        text::trimmed(text::reduced_text(text)) == text::reduced_text(text),
{
    let t = text::reduced_text(text);
    assert forall|i: int| 0 <= i < t.len() implies decimal::is_digit(#[trigger] t[i]) by {
        assert('0' <= text[i] <= '9');
        assert(t[i] == text[i] as u8);
    }
    if t.len() > 0 {
        assert(decimal::is_digit(t[0]));
        assert(decimal::is_digit(t[t.len() - 1]));
    }
}

proof fn lemma_decimal_text(value: nat)
    ensures
        is_digits(text::decimal_text(value)),
        text::decimal_text(value).len() > 0,
        decimal::digits_value(text::reduced_text(text::decimal_text(value))) == value,
    decreases value,
{
    let written = text::decimal_text(value);
    let t = text::reduced_text(written);
    assert forall|i: int| 0 <= i < written.len() implies '0' <= #[trigger] written[i] <= '9' by {
        text::lemma_decimal_text_is_digits(value, i);
    }
    if value < 10 {
        assert(t.drop_last() =~= Seq::empty());
        assert(decimal::digits_value(t.drop_last()) == 0);
        assert(t.last() == 0x30 + value);
    } else {
        lemma_decimal_text(value / 10);
        assert(t.drop_last() =~= text::reduced_text(text::decimal_text(value / 10)));
        assert(t.last() == 0x30 + value % 10);
    }
}

/// A number is read back from its decimal form.
pub proof fn law_decimal_text_is_read_back(value: u64, max: u64)
    requires
        value <= max,
    ensures
        decimal::number(text::reduced_text(text::decimal_text(value as nat)), max) == Ok::<
            u64,
            decimal::NumberError,
        >(value),
{
    let t = text::reduced_text(text::decimal_text(value as nat));
    lemma_decimal_text(value as nat);
    lemma_reduced_digits(text::decimal_text(value as nat));
    assert(decimal::is_digit(t[0]));
    decimal::law_number_reads_decimals(t, max);
}

proof fn lemma_position(t: Seq<u8>, start: int, byte: u8, position: int)
    requires
        0 <= start <= position <= t.len(),
        forall|j: int| start <= j < position ==> #[trigger] t[j] != byte,
        position < t.len() ==> t[position] == byte,
    ensures
        decimal::position_of(t, start, byte) == position,
{
    decimal::lemma_position_of(t, start, byte);
    let found = decimal::position_of(t, start, byte);
    if found < position {
        assert(t[found] != byte);
    }
}

/// Whether a comma stands in a text.
spec fn has_comma(text: Seq<char>) -> bool {
    exists|i: int| 0 <= i < text.len() && #[trigger] text::reduced(text[i]) == 0x2c
}

proof fn lemma_first_item(before: Seq<char>, items: Seq<Seq<char>>)
    requires
        items.len() > 0,
        !has_comma(items[0]),
    ensures
        ({
            let spec_text = before + listed(items);
            let start = before.len() as int;
            let end = decimal::position_of(text::reduced_text(spec_text), start, 0x2c);
            &&& end == start + items[0].len()
            &&& spec_text.subrange(start, end) == items[0]
            &&& items.len() == 1 ==> end == spec_text.len()
            &&& items.len() > 1 ==> end < spec_text.len() && spec_text == before + items[0] + seq![
                ',',
            ] + listed(items.drop_first())
        }),
{
    let spec_text = before + listed(items);
    let t = text::reduced_text(spec_text);
    let start = before.len() as int;
    let end = start + items[0].len();
    assert forall|j: int| start <= j < end implies #[trigger] t[j] != 0x2c by {
        assert(spec_text[j] == items[0][j - start]);
        assert(text::reduced(items[0][j - start]) != 0x2c);
    }
    if items.len() > 1 {
        assert(spec_text =~= before + items[0] + seq![','] + listed(items.drop_first()));
        assert(spec_text[end] == ',');
        assert(t[end] == 0x2c);
    }
    lemma_position(t, start, 0x2c, end);
    assert(spec_text.subrange(start, end) =~= items[0]);
}

proof fn lemma_digits_have_no_comma(text: Seq<char>)
    requires
        is_digits(text),
    ensures
        !has_comma(text),
{
    assert forall|i: int| 0 <= i < text.len() implies #[trigger] text::reduced(text[i]) != 0x2c by {
        assert('0' <= text[i] <= '9');
    }
}

proof fn lemma_bitrates_are_read_back(before: Seq<char>, bitrates_kbps: Seq<u32>)
    requires
        bitrates_kbps.len() > 0,
    ensures
        adaptive::read_bitrates(
            before + listed(bitrate_texts(bitrates_kbps)),
            before.len() as int,
        ) == Ok::<Seq<u32>, LadderError>(bitrates_kbps),
    decreases bitrates_kbps.len(),
{
    let items = bitrate_texts(bitrates_kbps);
    let bitrate = bitrates_kbps[0];
    lemma_decimal_text(bitrate as nat);
    lemma_reduced_digits(items[0]);
    lemma_digits_have_no_comma(items[0]);
    lemma_first_item(before, items);
    law_decimal_text_is_read_back(bitrate as u64, u32::MAX as u64);
    if bitrates_kbps.len() > 1 {
        let rest = bitrates_kbps.drop_first();
        assert(items.drop_first() =~= bitrate_texts(rest));
        lemma_bitrates_are_read_back(before + items[0] + seq![','], rest);
        assert(seq![bitrate] + rest =~= bitrates_kbps);
    } else {
        assert(seq![bitrate] =~= bitrates_kbps);
    }
}

proof fn lemma_rung_is_read_back(rung: (u16, u32))
    ensures
        adaptive::read_rung(rung_text(rung)) == Ok::<(u16, u32), LadderError>(rung),
        !has_comma(rung_text(rung)),
        '0' <= rung_text(rung)[0] <= '9',
        exists|i: int| 0 <= i < rung_text(rung).len() && #[trigger] rung_text(rung)[i] == '@',
{
    let height = text::decimal_text(rung.0 as nat);
    let bitrate = text::decimal_text(rung.1 as nat);
    let written = rung_text(rung);
    let t = text::reduced_text(written);
    let n = height.len() as int;
    lemma_decimal_text(rung.0 as nat);
    lemma_decimal_text(rung.1 as nat);
    lemma_reduced_digits(height);
    lemma_reduced_digits(bitrate);
    assert(written[n] == 'p');
    assert(written[n + 1] == '@');
    assert(t[n] == 0x70);
    assert(t[n + 1] == 0x40);
    assert forall|j: int| 0 <= j < n implies '0' <= #[trigger] written[j] <= '9' by {
        assert(written[j] == height[j]);
    }
    assert forall|j: int| n + 2 <= j < written.len() implies '0' <= #[trigger] written[j]
        <= '9' by {
        assert(written[j] == bitrate[j - n - 2]);
    }
    assert forall|j: int| 0 <= j < n + 1 implies #[trigger] t[j] != 0x40 by {
        if j < n {
            assert('0' <= written[j] <= '9');
        }
    }
    lemma_position(t, 0, 0x40, n + 1);
    assert forall|i: int| 0 <= i < written.len() implies #[trigger] text::reduced(written[i])
        != 0x2c by {
        if i < n || i >= n + 2 {
            assert('0' <= written[i] <= '9');
        }
    }
    let resolution = t.take(n + 1);
    assert(decimal::is_digit(text::reduced_text(height)[0]));
    assert(resolution[0] == text::reduced_text(height)[0]);
    assert(resolution.last() == 0x70);
    assert(text::trimmed(resolution) == resolution);
    assert(resolution.drop_last() =~= text::reduced_text(height));
    assert(t.skip(n + 2) =~= text::reduced_text(bitrate));
    law_decimal_text_is_read_back(rung.0 as u64, u16::MAX as u64);
    law_decimal_text_is_read_back(rung.1 as u64, u32::MAX as u64);
}

proof fn lemma_rungs_are_read_back(before: Seq<char>, rungs: Seq<(u16, u32)>)
    requires
        rungs.len() > 0,
    ensures
        adaptive::read_rungs(before + listed(rung_texts(rungs)), before.len() as int) == Ok::<
            Seq<(u16, u32)>,
            LadderError,
        >(rungs),
    decreases rungs.len(),
{
    let items = rung_texts(rungs);
    lemma_rung_is_read_back(rungs[0]);
    lemma_first_item(before, items);
    if rungs.len() > 1 {
        let rest = rungs.drop_first();
        assert(items.drop_first() =~= rung_texts(rest));
        lemma_rungs_are_read_back(before + items[0] + seq![','], rest);
        assert(seq![rungs[0]] + rest =~= rungs);
    } else {
        assert(seq![rungs[0]] =~= rungs);
    }
}

proof fn lemma_list_of_digits(bitrates_kbps: Seq<u32>, i: int)
    requires
        0 <= i < listed(bitrate_texts(bitrates_kbps)).len(),
    ensures
        ({
            let c = listed(bitrate_texts(bitrates_kbps))[i];
            '0' <= c <= '9' || c == ','
        }),
    decreases bitrates_kbps.len(),
{
    let items = bitrate_texts(bitrates_kbps);
    if items.len() > 0 {
        lemma_decimal_text(bitrates_kbps[0] as nat);
        if i < items[0].len() {
            assert(listed(items)[i] == items[0][i]);
        } else if i > items[0].len() {
            let rest = bitrates_kbps.drop_first();
            assert(items.drop_first() =~= bitrate_texts(rest));
            lemma_list_of_digits(rest, i - items[0].len() - 1);
        }
    }
}

/// A ladder that is written as a specification is read back. One with rungs must
/// have at least one.
pub proof fn law_ladder_is_read_back(ladder: LadderView)
    requires
        match ladder {
            LadderView::Default => true,
            LadderView::SingleRes { bitrates_kbps, .. } => bitrates_kbps.len() > 0,
            LadderView::MultiRes { rungs } => rungs.len() > 0,
        },
    ensures
        adaptive::read_ladder(ladder_text(ladder)) == Ok::<LadderView, LadderError>(ladder),
{
    reveal_strlit("default");
    let written = ladder_text(ladder);
    let t = text::reduced_text(written);
    assert("default"@[0] == 'd');
    match ladder {
        LadderView::Default => {},
        LadderView::MultiRes { rungs } => {
            let items = rung_texts(rungs);
            lemma_rung_is_read_back(rungs[0]);
            let at = choose|i: int| 0 <= i < items[0].len() && #[trigger] items[0][i] == '@';
            assert(written[0] == items[0][0]);
            assert(written[at] == '@');
            assert(t[at] == 0x40);
            decimal::lemma_position_of(t, 0, 0x40);
            assert(Seq::<char>::empty() + listed(items) =~= written);
            lemma_rungs_are_read_back(Seq::empty(), rungs);
        },
        LadderView::SingleRes { height, bitrates_kbps } => {
            let h = text::decimal_text(height as nat);
            let list = listed(bitrate_texts(bitrates_kbps));
            let n = h.len() as int;
            lemma_decimal_text(height as nat);
            lemma_decimal_text(bitrates_kbps[0] as nat);
            assert(list.len() > 0);
            assert(written[0] == h[0]);
            assert(written[n] == 'p');
            assert(written[n + 1] == ':');
            assert forall|j: int| 0 <= j < written.len() implies #[trigger] t[j] != 0x40 && (t[j]
                == 0x3a ==> j == n + 1) by {
                if j < n {
                    assert(written[j] == h[j]);
                } else if j >= n + 2 {
                    assert(written[j] == list[j - n - 2]);
                    lemma_list_of_digits(bitrates_kbps, j - n - 2);
                }
            }
            lemma_position(t, 0, 0x40, t.len() as int);
            assert(t[n] == 0x70);
            assert(t[n + 1] == 0x3a);
            lemma_position(t, 0, 0x3a, n + 1);
            assert(t.subrange(0, n) =~= text::reduced_text(h));
            law_decimal_text_is_read_back(height as u64, u16::MAX as u64);
            lemma_bitrates_are_read_back(h + seq!['p', ':'], bitrates_kbps);
        },
    }
}

/// A number beyond the limit is refused, however it is written out.
pub proof fn law_decimal_text_beyond_the_limit_is_refused(value: u64, max: u64)
    requires
        value > max,
    ensures
        decimal::number(text::reduced_text(text::decimal_text(value as nat)), max) is Err,
{
    let read = text::reduced_text(text::decimal_text(value as nat));
    lemma_decimal_text(value as nat);
    lemma_reduced_digits(text::decimal_text(value as nat));
    assert(decimal::is_digit(read[0]));
    decimal::law_number_reads_decimals(read, max);
}

/// A written ladder starts with its height or its first rung, and lists what follows in
/// order, a comma between two.
pub proof fn law_lists_put_commas_between(first: Seq<char>, items: Seq<Seq<char>>)
    ensures
        listed(seq![first]) == first,
        items.len() > 0 ==> listed(seq![first] + items) == first + seq![','] + listed(items),
{
    assert((seq![first] + items).drop_first() =~= items);
}

} // verus!
