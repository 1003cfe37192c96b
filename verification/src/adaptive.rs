//! The ladder of qualities that a source is published in.

use crate::decimal::{self, find_byte, parse_number, NumberError};
use crate::text::{self, push_decimal, reduce_text, trim};
use crate::video::VideoInfo;
use vstd::prelude::*;

verus! {

/// Which ladder to build.
#[derive(Debug, Clone, PartialEq, Eq)]
pub enum LadderSpec {
    /// The built-in ladder, by resolution.
    Default,
    /// One resolution at several bitrates.
    SingleRes { height: u16, bitrates_kbps: Vec<u32> },
    /// A resolution and a bitrate for each rung.
    MultiRes { rungs: Vec<(u16, u32)> },
}

/// What a [`LadderSpec`] stands for.
#[verifier::ext_equal]
pub enum LadderView {
    Default,
    SingleRes { height: u16, bitrates_kbps: Seq<u32> },
    MultiRes { rungs: Seq<(u16, u32)> },
}

impl View for LadderSpec {
    type V = LadderView;

    open spec fn view(&self) -> LadderView {
        match *self {
            LadderSpec::Default => LadderView::Default,
            LadderSpec::SingleRes { height, bitrates_kbps } => LadderView::SingleRes {
                height,
                bitrates_kbps: bitrates_kbps@,
            },
            LadderSpec::MultiRes { rungs } => LadderView::MultiRes { rungs: rungs@ },
        }
    }
}

/// Why a ladder specification cannot be read.
#[verifier::ext_equal]
pub enum LadderError {
    RungWithoutAt { rung: Seq<char> },
    RungSuffix { rung: Seq<char> },
    RungHeight { rung: Seq<char>, cause: NumberError },
    RungBitrate { rung: Seq<char>, cause: NumberError },
    MissingColon { spec: Seq<char> },
    EmptySection { spec: Seq<char> },
    Suffix { spec: Seq<char> },
    Height { spec: Seq<char>, cause: NumberError },
    Bitrate { bitrate: Seq<char>, cause: NumberError },
}

impl LadderError {
    /// The error in words.
    pub open spec fn text(self) -> Seq<char> {
        match self {
            LadderError::RungWithoutAt { rung } => "ladder-spec: rung '"@ + rung
                + "' missing '@'"@,
            LadderError::RungSuffix { rung } =>
                "ladder-spec: rung resolution must end in 'p' in '"@ + rung + "'"@,
            LadderError::RungHeight { rung, cause } => "ladder-spec: bad height in '"@ + rung
                + "': "@ + cause.spec_text(),
            LadderError::RungBitrate { rung, cause } => "ladder-spec: bad bitrate in '"@ + rung
                + "': "@ + cause.spec_text(),
            LadderError::MissingColon { spec } => "ladder-spec: missing ':' in '"@ + spec + "'"@,
            LadderError::EmptySection { spec } => "ladder-spec: empty section in '"@ + spec
                + "'"@,
            LadderError::Suffix { spec } => "ladder-spec: resolution must end in 'p' in '"@
                + spec + "'"@,
            LadderError::Height { spec, cause } => "ladder-spec: bad height in '"@ + spec + "': "@
                + cause.spec_text(),
            LadderError::Bitrate { bitrate, cause } => "ladder-spec: bad bitrate '"@ + bitrate
                + "': "@ + cause.spec_text(),
        }
    }
}

/// Reads one rung: `<height>p@<bitrate>`, with white space around either part.
pub open spec fn read_rung(rung: Seq<char>) -> Result<(u16, u32), LadderError> {
    let t = text::reduced_text(rung);
    let at = decimal::position_of(t, 0, 0x40);
    if at >= t.len() {
        Err(LadderError::RungWithoutAt { rung })
    } else {
        let resolution = text::trimmed(t.take(at));
        if resolution.len() == 0 || resolution.last() != 0x70 {
            Err(LadderError::RungSuffix { rung })
        } else {
            match decimal::number(resolution.drop_last(), u16::MAX as u64) {
                Err(cause) => Err(LadderError::RungHeight { rung, cause }),
                Ok(height) => match decimal::number(
                    text::trimmed(t.skip(at + 1)),
                    u32::MAX as u64,
                ) {
                    Err(cause) => Err(LadderError::RungBitrate { rung, cause }),
                    Ok(bitrate) => Ok((height as u16, bitrate as u32)),
                },
            }
        }
    }
}

/// Reads the rungs from position `start` on, separated by commas; the first one
/// that cannot be read is the error.
pub open spec fn read_rungs(spec: Seq<char>, start: int) -> Result<Seq<(u16, u32)>, LadderError>
    decreases spec.len() - start,
{
    if start < 0 || start > spec.len() {
        Ok(Seq::empty())
    } else {
        let end = decimal::position_of(text::reduced_text(spec), start, 0x2c);
        match read_rung(spec.subrange(start, end)) {
            Err(e) => Err(e),
            Ok(rung) => if start <= end && end < spec.len() {
                match read_rungs(spec, end + 1) {
                    Err(e) => Err(e),
                    Ok(rest) => Ok(seq![rung] + rest),
                }
            } else {
                Ok(seq![rung])
            },
        }
    }
}

/// Reads the bitrates from position `start` on, separated by commas, with white
/// space around each; the first one that cannot be read is the error.
pub open spec fn read_bitrates(spec: Seq<char>, start: int) -> Result<Seq<u32>, LadderError>
    decreases spec.len() - start,
{
    if start < 0 || start > spec.len() {
        Ok(Seq::empty())
    } else {
        let end = decimal::position_of(text::reduced_text(spec), start, 0x2c);
        let bitrate = spec.subrange(start, end);
        match decimal::number(text::trimmed(text::reduced_text(bitrate)), u32::MAX as u64) {
            Err(cause) => Err(LadderError::Bitrate { bitrate, cause }),
            Ok(value) => if start <= end && end < spec.len() {
                match read_bitrates(spec, end + 1) {
                    Err(e) => Err(e),
                    Ok(rest) => Ok(seq![value as u32] + rest),
                }
            } else {
                Ok(seq![value as u32])
            },
        }
    }
}

/// Reads a ladder specification: `default`; with an `@` in it a list of rungs;
/// else `<height>p:<bitrates>`.
pub open spec fn read_ladder(spec: Seq<char>) -> Result<LadderView, LadderError> {
    let t = text::reduced_text(spec);
    let colon = decimal::position_of(t, 0, 0x3a);
    if spec == "default"@ {
        Ok(LadderView::Default)
    } else if decimal::position_of(t, 0, 0x40) < t.len() {
        match read_rungs(spec, 0) {
            Ok(rungs) => Ok(LadderView::MultiRes { rungs }),
            Err(e) => Err(e),
        }
    } else if colon >= t.len() {
        Err(LadderError::MissingColon { spec })
    } else if colon == 0 || colon + 1 == t.len() {
        Err(LadderError::EmptySection { spec })
    } else if t[colon - 1] != 0x70 {
        Err(LadderError::Suffix { spec })
    } else {
        match decimal::number(t.subrange(0, colon - 1), u16::MAX as u64) {
            Err(cause) => Err(LadderError::Height { spec, cause }),
            Ok(height) => match read_bitrates(spec, colon + 1) {
                Ok(bitrates_kbps) => Ok(
                    LadderView::SingleRes { height: height as u16, bitrates_kbps },
                ),
                Err(e) => Err(e),
            },
        }
    }
}

fn message(before: &str, shown: &str, after: &str, cause: Option<NumberError>) -> (text: String)
    ensures
        text@ == match cause {
            Some(cause) => before@ + shown@ + after@ + cause.spec_text(),
            None => before@ + shown@ + after@,
        },
{
    let mut text: String = before.to_owned();
    text.append(shown);
    text.append(after);
    if let Some(cause) = cause {
        text.append(cause.text());
    }
    text
}

fn parse_rung(spec: &str, t: &Vec<u8>, start: usize, end: usize) -> (result: Result<
    (u16, u32),
    String,
>)
    requires
        t@ == text::reduced_text(spec@),
        start <= end <= t@.len(),
    ensures
        match (result, read_rung(spec@.subrange(start as int, end as int))) {
            (Ok(rung), Ok(expected)) => rung == expected,
            (Err(text), Err(e)) => text@ == e.text(),
            _ => false,
        },
{
    let rung: &str = spec.substring_char(start, end);
    let piece: &[u8] = vstd::slice::slice_subrange(t.as_slice(), start, end);
    proof {
        assert(piece@ =~= text::reduced_text(rung@));
    }
    let len: usize = end - start;
    let at: usize = find_byte(piece, 0, 0x40);
    if at >= len {
        return Err(message("ladder-spec: rung '", rung, "' missing '@'", None));
    }
    let (first, last): (usize, usize) = trim(piece, 0, at);
    proof {
        assert(piece@.subrange(0, at as int) =~= piece@.take(at as int));
        assert(piece@.subrange(at + 1, len as int) =~= piece@.skip(at + 1));
    }
    let ghost resolution = piece@.subrange(first as int, last as int);
    if first == last || piece[last - 1] != 0x70 {
        proof {
            if first != last {
                assert(resolution.last() == piece@[last - 1]);
            }
        }
        return Err(
            message("ladder-spec: rung resolution must end in 'p' in '", rung, "'", None),
        );
    }
    proof {
        assert(resolution.last() == piece@[last - 1]);
        assert(resolution.drop_last() =~= piece@.subrange(first as int, last - 1));
    }
    let height: u64 = match parse_number(piece, first, last - 1, u16::MAX as u64) {
        Ok(height) => height,
        Err(cause) => {
            return Err(message("ladder-spec: bad height in '", rung, "': ", Some(cause)));
        },
    };
    let (first, last): (usize, usize) = trim(piece, at + 1, len);
    match parse_number(piece, first, last, u32::MAX as u64) {
        Ok(bitrate) => Ok((height as u16, bitrate as u32)),
        Err(cause) => Err(message("ladder-spec: bad bitrate in '", rung, "': ", Some(cause))),
    }
}

fn parse_rungs(spec: &str, t: &Vec<u8>) -> (result: Result<Vec<(u16, u32)>, String>)
    requires
        t@ == text::reduced_text(spec@),
    ensures
        match (result, read_rungs(spec@, 0)) {
            (Ok(rungs), Ok(expected)) => rungs@ == expected,
            (Err(text), Err(e)) => text@ == e.text(),
            _ => false,
        },
{
    let mut rungs: Vec<(u16, u32)> = Vec::new();
    let mut start: usize = 0;
    let len: usize = t.len();
    loop
        invariant
            t@ == text::reduced_text(spec@),
            start <= len,
            len == t@.len(),
            len == spec@.len(),
            match read_rungs(spec@, start as int) {
                Ok(rest) => read_rungs(spec@, 0) == Ok::<Seq<(u16, u32)>, LadderError>(
                    rungs@ + rest,
                ),
                Err(e) => read_rungs(spec@, 0) == Err::<Seq<(u16, u32)>, LadderError>(e),
            },
        decreases len - start,
    {
        let end: usize = find_byte(t.as_slice(), start, 0x2c);
        let ghost before = rungs@;
        let rung: (u16, u32) = match parse_rung(spec, t, start, end) {
            Ok(rung) => rung,
            Err(text) => {
                return Err(text);
            },
        };
        rungs.push(rung);
        if end >= len {
            proof {
                assert(rungs@ =~= before + seq![rung]);
            }
            return Ok(rungs);
        }
        proof {
            if let Ok(rest) = read_rungs(spec@, end + 1) {
                assert(rungs@ + rest =~= before + (seq![rung] + rest));
            }
        }
        start = end + 1;
    }
}

fn parse_bitrates(spec: &str, t: &Vec<u8>, from: usize) -> (result: Result<Vec<u32>, String>)
    requires
        t@ == text::reduced_text(spec@),
        from <= t@.len(),
    ensures
        match (result, read_bitrates(spec@, from as int)) {
            (Ok(bitrates), Ok(expected)) => bitrates@ == expected,
            (Err(text), Err(e)) => text@ == e.text(),
            _ => false,
        },
{
    let mut bitrates: Vec<u32> = Vec::new();
    let mut start: usize = from;
    let len: usize = t.len();
    proof {
        if let Ok(all) = read_bitrates(spec@, from as int) {
            assert(bitrates@ + all =~= all);
        }
    }
    loop
        invariant
            t@ == text::reduced_text(spec@),
            from <= start <= len,
            len == t@.len(),
            len == spec@.len(),
            match read_bitrates(spec@, start as int) {
                Ok(rest) => read_bitrates(spec@, from as int) == Ok::<Seq<u32>, LadderError>(
                    bitrates@ + rest,
                ),
                Err(e) => read_bitrates(spec@, from as int) == Err::<Seq<u32>, LadderError>(e),
            },
        decreases len - start,
    {
        let end: usize = find_byte(t.as_slice(), start, 0x2c);
        let ghost before = bitrates@;
        let ghost piece = spec@.subrange(start as int, end as int);
        proof {
            assert(text::reduced_text(piece) =~= t@.subrange(start as int, end as int));
        }
        let (first, last): (usize, usize) = trim(t.as_slice(), start, end);
        let bitrate: u32 = match parse_number(t.as_slice(), first, last, u32::MAX as u64) {
            Ok(bitrate) => bitrate as u32,
            Err(cause) => {
                return Err(
                    message(
                        "ladder-spec: bad bitrate '",
                        spec.substring_char(start, end),
                        "': ",
                        Some(cause),
                    ),
                );
            },
        };
        bitrates.push(bitrate);
        if end >= len {
            proof {
                assert(bitrates@ =~= before + seq![bitrate]);
            }
            return Ok(bitrates);
        }
        proof {
            if let Ok(rest) = read_bitrates(spec@, end + 1) {
                assert(bitrates@ + rest =~= before + (seq![bitrate] + rest));
            }
        }
        start = end + 1;
    }
}

impl LadderSpec {
    /// Reads a ladder specification: `default`,
    /// `<height>p:<bitrate>,<bitrate>,...` or
    /// `<height>p@<bitrate>,<height>p@<bitrate>,...`, with bitrates in kbps.
    pub fn parse(s: &str) -> (result: Result<LadderSpec, String>)
        ensures
            match (result, read_ladder(s@)) {
                (Ok(ladder), Ok(expected)) => ladder@ == expected,
                (Err(text), Err(e)) => text@ == e.text(),
                _ => false,
            },
    {
        if s.to_owned() == "default".to_owned() {
            return Ok(LadderSpec::Default);
        }
        let t: Vec<u8> = reduce_text(s);
        let len: usize = t.len();
        if find_byte(t.as_slice(), 0, 0x40) < len {
            return match parse_rungs(s, &t) {
                Ok(rungs) => Ok(LadderSpec::MultiRes { rungs }),
                Err(text) => Err(text),
            };
        }
        let colon: usize = find_byte(t.as_slice(), 0, 0x3a);
        if colon >= len {
            return Err(message("ladder-spec: missing ':' in '", s, "'", None));
        }
        if colon == 0 || colon + 1 == len {
            return Err(message("ladder-spec: empty section in '", s, "'", None));
        }
        if t[colon - 1] != 0x70 {
            return Err(message("ladder-spec: resolution must end in 'p' in '", s, "'", None));
        }
        let height: u64 = match parse_number(t.as_slice(), 0, colon - 1, u16::MAX as u64) {
            Ok(height) => height,
            Err(cause) => {
                return Err(message("ladder-spec: bad height in '", s, "': ", Some(cause)));
            },
        };
        match parse_bitrates(s, &t, colon + 1) {
            Ok(bitrates_kbps) => Ok(
                LadderSpec::SingleRes { height: height as u16, bitrates_kbps },
            ),
            Err(text) => Err(text),
        }
    }
}

/// A rung of the ladder, by name.
#[derive(Debug, Clone, Copy, PartialEq, Eq, Structural)]
pub enum Quality {
    Q360p,
    Q480p,
    Q720p,
    Q1080p,
    /// A rung that a specification names. Several may share a resolution.
    SameResRung { height: u16, bitrate_kbps: u32 },
}

impl Quality {
    /// The name of the rung, which is also the name of its track.
    pub open spec fn name(self) -> Seq<char> {
        match self {
            Quality::Q360p => "360p"@,
            Quality::Q480p => "480p"@,
            Quality::Q720p => "720p"@,
            Quality::Q1080p => "1080p"@,
            Quality::SameResRung { height, bitrate_kbps } => text::decimal_text(height as nat)
                + "p-"@ + text::decimal_text(bitrate_kbps as nat) + "k"@,
        }
    }

    /// The name of the rung, which is also the name of its track.
    pub fn to_string(&self) -> (name: String)
        ensures
            name@ == self.name(),
    {
        match *self {
            Quality::Q360p => "360p".to_owned(),
            Quality::Q480p => "480p".to_owned(),
            Quality::Q720p => "720p".to_owned(),
            Quality::Q1080p => "1080p".to_owned(),
            Quality::SameResRung { height, bitrate_kbps } => {
                let mut name: String = "".to_owned();
                proof {
                    reveal_strlit("");
                }
                push_decimal(&mut name, height as u64);
                name.append("p-");
                push_decimal(&mut name, bitrate_kbps as u64);
                name.append("k");
                proof {
                    assert(name@ =~= self.name());
                }
                name
            },
        }
    }
}

/// A quality that the source is encoded in.
#[derive(Debug, Clone, Copy, PartialEq, Eq, Structural)]
pub struct QualityVariant {
    pub quality: Quality,
    pub width: u16,
    pub height: u16,
    pub bitrate_kbps: u32,
}

/// The built-in ladder, from the highest tier down.
pub open spec fn tiers() -> Seq<QualityVariant> {
    seq![
        QualityVariant { quality: Quality::Q1080p, width: 1920, height: 1080, bitrate_kbps: 4000 },
        QualityVariant { quality: Quality::Q720p, width: 1280, height: 720, bitrate_kbps: 2000 },
        QualityVariant { quality: Quality::Q480p, width: 854, height: 480, bitrate_kbps: 1000 },
        QualityVariant { quality: Quality::Q360p, width: 640, height: 360, bitrate_kbps: 500 },
    ]
}

/// The tiers that are no higher than the source.
pub open spec fn tiers_within(height: u16) -> Seq<QualityVariant> {
    tiers().filter(|v: QualityVariant| v.height <= height)
}

/// The first tiers and the last one, `max` in all but never fewer than two.
pub open spec fn trimmed_ladder(variants: Seq<QualityVariant>, max: nat) -> Seq<
    QualityVariant,
> {
    let kept: nat = if max < 2 {
        2
    } else {
        max
    };
    if variants.len() > kept {
        variants.take(kept - 1).push(variants.last())
    } else {
        variants
    }
}

/// Why a ladder cannot be built for a source.
#[verifier::ext_equal]
pub enum VariantError {
    /// The specification cannot be read.
    Spec { error: LadderError },
    /// The source is lower than the lowest tier.
    BelowMinimum { width: u16, height: u16 },
    /// A rung has a height for which no width is known.
    UnsupportedHeight { height: u16 },
    /// The one resolution is higher than the source.
    ExceedsSource { height: u16, source_height: u16 },
    /// A rung is higher than the source.
    RungExceedsSource { height: u16, source_height: u16 },
}

impl VariantError {
    /// The error in words.
    pub open spec fn text(self) -> Seq<char> {
        match self {
            VariantError::Spec { error } => error.text(),
            VariantError::BelowMinimum { width, height } => "source resolution "@
                + text::decimal_text(width as nat) + "x"@ + text::decimal_text(height as nat)
                + " is below the minimum supported tier (360p)"@,
            VariantError::UnsupportedHeight { height } =>
                "ladder-spec: unsupported rung height "@ + text::decimal_text(height as nat)
                + "p"@,
            VariantError::ExceedsSource { height, source_height } =>
                "LadderSpec::SingleRes: height "@ + text::decimal_text(height as nat)
                + " exceeds source height "@ + text::decimal_text(source_height as nat),
            VariantError::RungExceedsSource { height, source_height } =>
                "LadderSpec::MultiRes: rung "@ + text::decimal_text(height as nat)
                + "p exceeds source height "@ + text::decimal_text(source_height as nat),
        }
    }
}

/// A result is the expected one, with its error in words.
pub open spec fn ladder_result(
    result: Result<Vec<QualityVariant>, String>,
    expected: Result<Seq<QualityVariant>, VariantError>,
) -> bool {
    match (result, expected) {
        (Ok(variants), Ok(expected)) => variants@ == expected,
        (Err(text), Err(e)) => text@ == e.text(),
        _ => false,
    }
}

/// The built-in ladder for a source, trimmed to `max_variants`.
pub open spec fn default_ladder(info: VideoInfo, max_variants: nat) -> Result<
    Seq<QualityVariant>,
    VariantError,
> {
    if tiers_within(info.height).len() == 0 {
        Err(VariantError::BelowMinimum { width: info.width, height: info.height })
    } else {
        Ok(trimmed_ladder(tiers_within(info.height), max_variants))
    }
}

fn with_number(before: &str, number: u16, after: &str) -> (text: String)
    ensures
        text@ == before@ + text::decimal_text(number as nat) + after@,
{
    let mut text: String = before.to_owned();
    push_decimal(&mut text, number as u64);
    text.append(after);
    text
}

/// Returns the built-in ladder for a source: the tiers that are no higher than
/// it. Where there are more than `max_variants`, tiers from the middle are
/// dropped, the lower ones first; the highest and the lowest stay.
pub fn quality_variants(info: &VideoInfo, max_variants: usize) -> (result: Result<
    Vec<QualityVariant>,
    String,
>)
    ensures
        ladder_result(result, default_ladder(*info, max_variants as nat)),
{
    let all: [QualityVariant; 4] = [
        QualityVariant { quality: Quality::Q1080p, width: 1920, height: 1080, bitrate_kbps: 4000 },
        QualityVariant { quality: Quality::Q720p, width: 1280, height: 720, bitrate_kbps: 2000 },
        QualityVariant { quality: Quality::Q480p, width: 854, height: 480, bitrate_kbps: 1000 },
        QualityVariant { quality: Quality::Q360p, width: 640, height: 360, bitrate_kbps: 500 },
    ];
    let ghost within = |v: QualityVariant| v.height <= info.height;
    let mut variants: Vec<QualityVariant> = Vec::new();
    let mut i: usize = 0;
    proof {
        reveal(Seq::filter);
        assert(all@ =~= tiers());
        assert(tiers().take(0).filter(within) =~= Seq::empty());
    }
    while i < 4
        invariant
            i <= 4,
            all@ == tiers(),
            within == (|v: QualityVariant| v.height <= info.height),
            variants@ == tiers().take(i as int).filter(within),
            variants@.len() <= i,
        decreases 4 - i,
    {
        let tier: QualityVariant = all[i];
        proof {
            reveal(Seq::filter);
            assert(tiers().take(i + 1).drop_last() =~= tiers().take(i as int));
            assert(tiers().take(i + 1).last() == tier);
        }
        if tier.height <= info.height {
            variants.push(tier);
        }
        i = i + 1;
    }
    proof {
        assert(tiers().take(4) =~= tiers());
    }
    if variants.len() == 0 {
        let mut text: String = with_number("source resolution ", info.width, "x");
        push_decimal(&mut text, info.height as u64);
        text.append(" is below the minimum supported tier (360p)");
        return Err(text);
    }
    let ghost before = variants@;
    while variants.len() > max_variants && variants.len() > 2
        invariant
            before.len() >= 1,
            1 <= variants@.len() <= before.len(),
            variants@.last() == before.last(),
            variants@.take(variants@.len() - 1) == before.take(variants@.len() - 1),
            variants@.len() < before.len() ==> variants@.len() >= 2 && variants@.len()
                >= max_variants,
        decreases variants@.len(),
    {
        let ghost previous = variants@;
        let second_to_last: usize = variants.len() - 2;
        variants.remove(second_to_last);
        proof {
            assert(variants@.last() == previous.last());
            assert forall|k: int| 0 <= k < variants@.len() - 1 implies variants@[k]
                == before[k] by {
                assert(previous.take(previous.len() - 1)[k] == before.take(previous.len() - 1)[k]);
            }
            assert(variants@.take(variants@.len() - 1) =~= before.take(variants@.len() - 1));
        }
    }
    proof {
        assert(variants@ =~= variants@.take(variants@.len() - 1).push(variants@.last()));
        assert(before =~= before.take(before.len() - 1).push(before.last()));
        assert(variants@ =~= trimmed_ladder(before, max_variants as nat));
    }
    Ok(variants)
}

/// The width that goes with a height in 16:9.
pub open spec fn width_16x9(height: u16) -> Option<u16> {
    if height == 2160 {
        Some(3840)
    } else if height == 1080 {
        Some(1920)
    } else if height == 720 {
        Some(1280)
    } else if height == 480 {
        Some(854)
    } else if height == 360 {
        Some(640)
    } else if height == 240 {
        Some(426)
    } else {
        None
    }
}

/// Returns the width that goes with a height in 16:9.
pub fn width_for_height_16x9(height: u16) -> (result: Result<u16, String>)
    ensures
        match (result, width_16x9(height)) {
            (Ok(width), Some(expected)) => width == expected,
            (Err(text), None) => text@ == (VariantError::UnsupportedHeight { height }).text(),
            _ => false,
        },
{
    match height {
        2160 => Ok(3840),
        1080 => Ok(1920),
        720 => Ok(1280),
        480 => Ok(854),
        360 => Ok(640),
        240 => Ok(426),
        _ => Err(with_number("ladder-spec: unsupported rung height ", height, "p")),
    }
}

/// The variant of a rung that a specification names.
pub open spec fn rung(width: u16, height: u16, bitrate_kbps: u32) -> QualityVariant {
    QualityVariant {
        quality: Quality::SameResRung { height, bitrate_kbps },
        width,
        height,
        bitrate_kbps,
    }
}

/// The variants of a list of rungs. The first rung that no variant fits is the
/// error.
pub open spec fn rung_variants(info: VideoInfo, rungs: Seq<(u16, u32)>) -> Result<
    Seq<QualityVariant>,
    VariantError,
>
    decreases rungs.len(),
{
    if rungs.len() == 0 {
        Ok(Seq::empty())
    } else {
        match rung_variants(info, rungs.drop_last()) {
            Err(e) => Err(e),
            Ok(variants) => {
                let (height, bitrate_kbps) = rungs.last();
                match width_16x9(height) {
                    None => Err(VariantError::UnsupportedHeight { height }),
                    Some(width) => if height > info.height {
                        Err(
                            VariantError::RungExceedsSource {
                                height,
                                source_height: info.height,
                            },
                        )
                    } else {
                        Ok(variants.push(rung(width, height, bitrate_kbps)))
                    },
                }
            },
        }
    }
}

/// The variants at one resolution.
pub open spec fn single_resolution(
    info: VideoInfo,
    height: u16,
    bitrates_kbps: Seq<u32>,
) -> Result<Seq<QualityVariant>, VariantError> {
    match width_16x9(height) {
        None => Err(VariantError::UnsupportedHeight { height }),
        Some(width) => if height > info.height {
            Err(VariantError::ExceedsSource { height, source_height: info.height })
        } else {
            Ok(
                Seq::new(
                    bitrates_kbps.len(),
                    |i: int| rung(width, height, bitrates_kbps[i]),
                ),
            )
        },
    }
}

/// The variants that a specification gives for a source, where the built-in
/// ladder is trimmed to `max_variants`.
pub open spec fn ladder_variants(
    info: VideoInfo,
    spec: LadderView,
    max_variants: nat,
) -> Result<Seq<QualityVariant>, VariantError> {
    match spec {
        LadderView::Default => default_ladder(info, max_variants),
        LadderView::SingleRes { height, bitrates_kbps } => single_resolution(
            info,
            height,
            bitrates_kbps,
        ),
        LadderView::MultiRes { rungs } => rung_variants(info, rungs),
    }
}

proof fn lemma_first_error_stays(info: VideoInfo, rungs: Seq<(u16, u32)>, n: int)
    requires
        0 <= n <= rungs.len(),
        rung_variants(info, rungs.take(n)) is Err,
    ensures
        rung_variants(info, rungs) == rung_variants(info, rungs.take(n)),
    decreases rungs.len() - n,
{
    if n < rungs.len() {
        assert(rungs.take(n + 1).drop_last() =~= rungs.take(n));
        lemma_first_error_stays(info, rungs, n + 1);
    } else {
        assert(rungs.take(n) =~= rungs);
    }
}

fn build_single_resolution(info: &VideoInfo, height: u16, bitrates_kbps: &Vec<u32>) -> (result:
    Result<Vec<QualityVariant>, String>)
    ensures
        ladder_result(result, single_resolution(*info, height, bitrates_kbps@)),
{
    let width: u16 = match width_for_height_16x9(height) {
        Ok(width) => width,
        Err(text) => {
            return Err(text);
        },
    };
    if height > info.height {
        let mut text: String = with_number(
            "LadderSpec::SingleRes: height ",
            height,
            " exceeds source height ",
        );
        push_decimal(&mut text, info.height as u64);
        return Err(text);
    }
    let mut variants: Vec<QualityVariant> = Vec::new();
    let mut i: usize = 0;
    while i < bitrates_kbps.len()
        invariant
            i <= bitrates_kbps@.len(),
            variants@ == Seq::new(i as nat, |k: int| rung(width, height, bitrates_kbps@[k])),
        decreases bitrates_kbps@.len() - i,
    {
        let bitrate_kbps: u32 = bitrates_kbps[i];
        variants.push(
            QualityVariant {
                quality: Quality::SameResRung { height, bitrate_kbps },
                width,
                height,
                bitrate_kbps,
            },
        );
        i = i + 1;
    }
    Ok(variants)
}

fn build_rungs(info: &VideoInfo, rungs: &Vec<(u16, u32)>) -> (result: Result<
    Vec<QualityVariant>,
    String,
>)
    ensures
        ladder_result(result, rung_variants(*info, rungs@)),
{
    let mut variants: Vec<QualityVariant> = Vec::new();
    let mut i: usize = 0;
    while i < rungs.len()
        invariant
            i <= rungs@.len(),
            rung_variants(*info, rungs@.take(i as int)) == Ok::<Seq<QualityVariant>, VariantError>(
                variants@,
            ),
        decreases rungs@.len() - i,
    {
        let (height, bitrate_kbps): (u16, u32) = rungs[i];
        proof {
            assert(rungs@.take(i + 1).drop_last() =~= rungs@.take(i as int));
            if rung_variants(*info, rungs@.take(i + 1)) is Err {
                lemma_first_error_stays(*info, rungs@, i + 1);
            }
        }
        let width: u16 = match width_for_height_16x9(height) {
            Ok(width) => width,
            Err(text) => {
                return Err(text);
            },
        };
        if height > info.height {
            let mut text: String = with_number(
                "LadderSpec::MultiRes: rung ",
                height,
                "p exceeds source height ",
            );
            push_decimal(&mut text, info.height as u64);
            return Err(text);
        }
        variants.push(
            QualityVariant {
                quality: Quality::SameResRung { height, bitrate_kbps },
                width,
                height,
                bitrate_kbps,
            },
        );
        i = i + 1;
    }
    proof {
        assert(rungs@.take(i as int) =~= rungs@);
    }
    Ok(variants)
}

/// Returns the variants that a specification gives for a source. The built-in
/// ladder has up to four; the other specifications give every rung they name,
/// and are refused where a rung is higher than the source.
pub fn quality_variants_for_spec(info: &VideoInfo, spec: &LadderSpec) -> (result: Result<
    Vec<QualityVariant>,
    String,
>)
    ensures
        ladder_result(result, ladder_variants(*info, spec@, 4)),
{
    match spec {
        LadderSpec::Default => quality_variants(info, 4),
        LadderSpec::SingleRes { height, bitrates_kbps } => build_single_resolution(
            info,
            *height,
            bitrates_kbps,
        ),
        LadderSpec::MultiRes { rungs } => build_rungs(info, rungs),
    }
}

/// Reads a specification and returns the variants that it gives for a source.
/// Only the built-in ladder is trimmed to `max_variants`.
pub fn resolve_ladder(spec: &str, max_variants: usize, info: &VideoInfo) -> (result: Result<
    Vec<QualityVariant>,
    String,
>)
    ensures
        ladder_result(
            result,
            match read_ladder(spec@) {
                Ok(ladder) => ladder_variants(*info, ladder, max_variants as nat),
                Err(error) => Err(VariantError::Spec { error }),
            },
        ),
{
    let ladder: LadderSpec = match LadderSpec::parse(spec) {
        Ok(ladder) => ladder,
        Err(text) => {
            return Err(text);
        },
    };
    match &ladder {
        LadderSpec::Default => quality_variants(info, max_variants),
        _ => quality_variants_for_spec(info, &ladder),
    }
}

proof fn lemma_rungs_fit(info: VideoInfo, rungs: Seq<(u16, u32)>)
    ensures
        rung_variants(info, rungs) matches Ok(variants) ==> {
            &&& variants.len() == rungs.len()
            &&& forall|i: int|
                0 <= i < rungs.len() ==> {
                    let v = #[trigger] variants[i];
                    &&& v.height == rungs[i].0
                    &&& v.bitrate_kbps == rungs[i].1
                    &&& width_16x9(v.height) == Some(v.width)
                    &&& v.quality == (Quality::SameResRung {
                        height: v.height,
                        bitrate_kbps: v.bitrate_kbps,
                    })
                    &&& v.height <= info.height
                }
        },
    decreases rungs.len(),
{
    if rungs.len() > 0 {
        lemma_rungs_fit(info, rungs.drop_last());
        if let Ok(variants) = rung_variants(info, rungs) {
            let before = rung_variants(info, rungs.drop_last())->Ok_0;
            assert forall|i: int| 0 <= i < rungs.len() implies {
                let v = #[trigger] variants[i];
                &&& v.height == rungs[i].0
                &&& v.bitrate_kbps == rungs[i].1
                &&& width_16x9(v.height) == Some(v.width)
                &&& v.quality == (Quality::SameResRung {
                    height: v.height,
                    bitrate_kbps: v.bitrate_kbps,
                })
                &&& v.height <= info.height
            } by {
                if i < rungs.len() - 1 {
                    assert(variants[i] == before[i]);
                    assert(rungs.drop_last()[i] == rungs[i]);
                }
            }
        }
    }
}

/// No ladder has a variant that is higher than the source.
pub proof fn law_ladder_never_upscales(info: VideoInfo, spec: LadderView, max_variants: nat)
    ensures
        ladder_variants(info, spec, max_variants) matches Ok(variants) ==> forall|i: int|
            0 <= i < variants.len() ==> (#[trigger] variants[i]).height <= info.height,
{
    match spec {
        LadderView::Default => {
            let within = |v: QualityVariant| v.height <= info.height;
            broadcast use vstd::seq_lib::group_filter_ensures;
            let all = tiers_within(info.height);
            if let Ok(variants) = default_ladder(info, max_variants) {
                assert forall|i: int| 0 <= i < variants.len() implies (
                #[trigger] variants[i]).height <= info.height by {
                    assert(all.contains(variants[i])) by {
                        if i < variants.len() - 1 || variants == all {
                            assert(variants[i] == all[i]);
                        } else {
                            assert(variants[i] == all[all.len() - 1]);
                        }
                    }
                    let k = choose|k: int| 0 <= k < all.len() && all[k] == variants[i];
                    assert(within(all[k]));
                }
            }
        },
        LadderView::SingleRes { height, bitrates_kbps } => {},
        LadderView::MultiRes { rungs } => {
            lemma_rungs_fit(info, rungs);
        },
    }
}

/// A specification that names its rungs gives one variant for each of them, in
/// its order and at its bitrate, however many variants are asked for.
pub proof fn law_named_rungs_are_all_kept(info: VideoInfo, spec: LadderView, max_variants: nat)
    requires
        !(spec is Default),
    ensures
        ladder_variants(info, spec, max_variants) matches Ok(variants) ==> match spec {
            LadderView::Default => false,
            LadderView::SingleRes { height, bitrates_kbps } => {
                &&& variants.len() == bitrates_kbps.len()
                &&& forall|i: int|
                    0 <= i < variants.len() ==> (#[trigger] variants[i]).height == height
                        && variants[i].bitrate_kbps == bitrates_kbps[i]
            },
            LadderView::MultiRes { rungs } => {
                &&& variants.len() == rungs.len()
                &&& forall|i: int|
                    0 <= i < variants.len() ==> (#[trigger] variants[i]).height == rungs[i].0
                        && variants[i].bitrate_kbps == rungs[i].1
            },
        },
{
    if let LadderView::MultiRes { rungs } = spec {
        lemma_rungs_fit(info, rungs);
    }
}

/// Trimming the built-in ladder keeps the highest and the lowest tier that the
/// source allows, and leaves at most `max_variants`, or two where that is less.
pub proof fn law_trimming_keeps_both_ends(info: VideoInfo, max_variants: nat)
    ensures
        default_ladder(info, max_variants) matches Ok(variants) ==> {
            &&& variants.len() > 0
            &&& variants.first() == tiers_within(info.height).first()
            &&& variants.last() == tiers_within(info.height).last()
            &&& variants.len() <= max_variants || variants.len() <= 2
        },
{
}

/// A source is refused by the built-in ladder exactly when it is lower than
/// 360 lines.
pub proof fn law_only_small_sources_are_refused(info: VideoInfo, max_variants: nat)
    ensures
        default_ladder(info, max_variants) is Err <==> info.height < 360,
{
    let within = |v: QualityVariant| v.height <= info.height;
    let all = tiers_within(info.height);
    broadcast use vstd::seq_lib::group_filter_ensures;
    if info.height >= 360 {
        assert(within(tiers()[3]));
        assert(all.contains(tiers()[3]));
    } else {
        reveal_with_fuel(Seq::filter, 5);
    }
}

proof fn lemma_numbered_names(h1: nat, k1: nat, h2: nat, k2: nat)
    requires
        text::decimal_text(h1) + "p-"@ + text::decimal_text(k1) + "k"@ == text::decimal_text(h2)
            + "p-"@ + text::decimal_text(k2) + "k"@,
    ensures
        h1 == h2,
        k1 == k2,
{
    reveal_strlit("p-");
    reveal_strlit("k");
    let a = text::decimal_text(h1);
    let b = text::decimal_text(h2);
    let c = text::decimal_text(k1);
    let d = text::decimal_text(k2);
    let name = a + "p-"@ + c + "k"@;
    let other = b + "p-"@ + d + "k"@;
    assert(name[a.len() as int] == 'p');
    assert(other[b.len() as int] == 'p');
    if a.len() < b.len() {
        assert(other[a.len() as int] == b[a.len() as int]);
        text::lemma_decimal_text_is_digits(h2, a.len() as int);
        assert(false);
    }
    if b.len() < a.len() {
        assert(name[b.len() as int] == a[b.len() as int]);
        text::lemma_decimal_text_is_digits(h1, b.len() as int);
        assert(false);
    }
    assert(a =~= name.take(a.len() as int));
    assert(b =~= other.take(a.len() as int));
    assert(c =~= name.subrange(a.len() as int + 2, name.len() - 1));
    assert(d =~= other.subrange(a.len() as int + 2, name.len() - 1));
    text::law_decimal_text_is_injective(h1, h2);
    text::law_decimal_text_is_injective(k1, k2);
}

/// Different rungs have different names.
pub proof fn law_rung_names_are_unique(a: Quality, b: Quality)
    ensures
        a.name() == b.name() ==> a == b,
{
    reveal_strlit("360p");
    reveal_strlit("480p");
    reveal_strlit("720p");
    reveal_strlit("1080p");
    reveal_strlit("k");
    if a.name() == b.name() {
        assert(a.name().last() == b.name().last());
        assert(a is SameResRung <==> a.name().last() == 'k');
        assert(b is SameResRung <==> b.name().last() == 'k');
        match (a, b) {
            (
                Quality::SameResRung { height: h1, bitrate_kbps: k1 },
                Quality::SameResRung { height: h2, bitrate_kbps: k2 },
            ) => {
                lemma_numbered_names(h1 as nat, k1 as nat, h2 as nat, k2 as nat);
            },
            _ => {
                assert(a.name().len() == b.name().len());
                assert(a.name()[0] == b.name()[0]);
            },
        }
    }
}

proof fn lemma_char_position(text: Seq<char>, start: int, c: char, byte: u8)
    requires
        0 <= start <= text.len(),
        (c as u32) < 0x80,
        !text::is_white_space(c),
        byte == c as u8,
    ensures
        decimal::position_of(text::reduced_text(text), start, byte) == text::position_of(
            text,
            start,
            c,
        ),
    decreases text.len() - start,
{
    if start < text.len() {
        text::law_reducing_keeps_ascii(text, start);
        lemma_char_position_step(text[start], c, byte);
        if text[start] != c {
            lemma_char_position(text, start + 1, c, byte);
        }
    }
}

proof fn lemma_char_position_step(found: char, c: char, byte: u8)
    requires
        (c as u32) < 0x80,
        !text::is_white_space(c),
        byte == c as u8,
    ensures
        text::reduced(found) == byte <==> found == c,
{
    assert(c as u32 == byte as u32);
}

/// The bitrates of a list are those of its pieces, in order. The list is read where each
/// of them is a number, white space around it or not.
pub proof fn law_bitrates_come_piece_by_piece(spec: Seq<char>, start: int)
    requires
        0 <= start <= spec.len(),
    ensures
        ({
            let parts = text::pieces(spec, start, ',');
            match read_bitrates(spec, start) {
                Ok(bitrates) => bitrates.len() == parts.len() && forall|i: int|
                    0 <= i < parts.len() ==> decimal::number(
                        text::trimmed(text::reduced_text(#[trigger] parts[i])),
                        0xffff_ffff,
                    ) == Ok::<u64, NumberError>(bitrates[i] as u64),
                Err(error) => exists|i: int|
                    0 <= i < parts.len() && error == (LadderError::Bitrate {
                        bitrate: #[trigger] parts[i],
                        cause: decimal::number(
                            text::trimmed(text::reduced_text(parts[i])),
                            0xffff_ffff,
                        )->Err_0,
                    }) && decimal::number(
                        text::trimmed(text::reduced_text(parts[i])),
                        0xffff_ffff,
                    ) is Err,
            }
        }),
    decreases spec.len() - start,
{
    lemma_char_position(spec, start, ',', 0x2c);
    text::law_first_position_is_found(spec, start, ',');
    let end = text::position_of(spec, start, ',');
    let parts = text::pieces(spec, start, ',');
    let item = spec.subrange(start, end);
    assert(parts[0] == item);
    decimal::law_number_reads_decimals(
        text::trimmed(text::reduced_text(item)),
        0xffff_ffff,
    );
    if end < spec.len() {
        law_bitrates_come_piece_by_piece(spec, end + 1);
        let rest = text::pieces(spec, end + 1, ',');
        assert(parts =~= seq![item] + rest);
        match read_bitrates(spec, start) {
            Ok(bitrates) => {
                assert forall|i: int| 0 <= i < parts.len() implies decimal::number(
                    text::trimmed(text::reduced_text(#[trigger] parts[i])),
                    0xffff_ffff,
                ) == Ok::<u64, NumberError>(bitrates[i] as u64) by {
                    if i > 0 {
                        assert(parts[i] == rest[i - 1]);
                    }
                }
            },
            Err(error) => {
                if read_bitrates(spec, end + 1) == Err::<Seq<u32>, LadderError>(error) {
                    let i = choose|i: int|
                        0 <= i < rest.len() && error == (LadderError::Bitrate {
                            bitrate: #[trigger] rest[i],
                            cause: decimal::number(
                                text::trimmed(text::reduced_text(rest[i])),
                                0xffff_ffff,
                            )->Err_0,
                        }) && decimal::number(
                            text::trimmed(text::reduced_text(rest[i])),
                            0xffff_ffff,
                        ) is Err;
                    assert(parts[i + 1] == rest[i]);
                }
            },
        }
    }
}

/// The rungs of a list are those of its pieces, in order, and the list is refused as the
/// first piece that is no rung.
pub proof fn law_rungs_come_piece_by_piece(spec: Seq<char>, start: int)
    requires
        0 <= start <= spec.len(),
    ensures
        ({
            let parts = text::pieces(spec, start, ',');
            match read_rungs(spec, start) {
                Ok(rungs) => rungs.len() == parts.len() && forall|i: int|
                    0 <= i < parts.len() ==> read_rung(#[trigger] parts[i]) == Ok::<
                        (u16, u32),
                        LadderError,
                    >(rungs[i]),
                Err(error) => exists|i: int|
                    0 <= i < parts.len() && read_rung(#[trigger] parts[i]) == Err::<
                        (u16, u32),
                        LadderError,
                    >(error) && forall|j: int|
                        0 <= j < i ==> read_rung(#[trigger] parts[j]) is Ok,
            }
        }),
    decreases spec.len() - start,
{
    lemma_char_position(spec, start, ',', 0x2c);
    text::law_first_position_is_found(spec, start, ',');
    let end = text::position_of(spec, start, ',');
    let parts = text::pieces(spec, start, ',');
    let item = spec.subrange(start, end);
    assert(parts[0] == item);
    if end < spec.len() {
        law_rungs_come_piece_by_piece(spec, end + 1);
        let rest = text::pieces(spec, end + 1, ',');
        assert(parts =~= seq![item] + rest);
        match read_rungs(spec, start) {
            Ok(rungs) => {
                assert forall|i: int| 0 <= i < parts.len() implies read_rung(
                    #[trigger] parts[i],
                ) == Ok::<(u16, u32), LadderError>(rungs[i]) by {
                    if i > 0 {
                        assert(parts[i] == rest[i - 1]);
                    }
                }
            },
            Err(error) => {
                if read_rung(item) is Ok {
                    let i = choose|i: int|
                        0 <= i < rest.len() && read_rung(#[trigger] rest[i]) == Err::<
                            (u16, u32),
                            LadderError,
                        >(error) && forall|j: int|
                            0 <= j < i ==> read_rung(#[trigger] rest[j]) is Ok;
                    assert(parts[i + 1] == rest[i]);
                    assert forall|j: int| 0 <= j < i + 1 implies read_rung(
                        #[trigger] parts[j],
                    ) is Ok by {
                        if j > 0 {
                            assert(parts[j] == rest[j - 1]);
                        }
                    }
                }
            },
        }
    }
}

/// White space around a rung, and around its two parts, does not matter.
pub proof fn law_rungs_may_stand_apart(
    resolution: Seq<char>,
    bitrate: Seq<char>,
    space: char,
)
    requires
        !resolution.contains('@'),
        text::is_white_space(space),
    ensures
        ({
            let plain = read_rung(resolution + seq!['@'] + bitrate);
            let before = read_rung(seq![space] + resolution + seq!['@'] + bitrate);
            let between = read_rung(resolution + seq![space] + seq!['@'] + bitrate);
            let behind = read_rung(resolution + seq!['@'] + seq![space] + bitrate);
            let after = read_rung(resolution + seq!['@'] + bitrate + seq![space]);
            &&& plain is Ok <==> before is Ok
            &&& plain is Ok <==> between is Ok
            &&& plain is Ok <==> behind is Ok
            &&& plain is Ok <==> after is Ok
            &&& plain is Ok ==> before == plain && between == plain && behind == plain && after
                == plain
        }),
{
    lemma_rung_parts(resolution, bitrate);
    lemma_rung_parts(seq![space] + resolution, bitrate);
    lemma_rung_parts(resolution + seq![space], bitrate);
    lemma_rung_parts(resolution, seq![space] + bitrate);
    lemma_rung_parts(resolution, bitrate + seq![space]);
    assert(resolution + seq!['@'] + (seq![space] + bitrate) =~= resolution + seq!['@'] + seq![
        space,
    ] + bitrate);
    assert(resolution + seq!['@'] + (bitrate + seq![space]) =~= resolution + seq!['@'] + bitrate
        + seq![space]);
    assert forall|i: int| 0 <= i < resolution.len() implies resolution[i] != '@' by {}
    let left = text::reduced_text(resolution);
    let right = text::reduced_text(bitrate);
    assert(text::reduced_text(seq![space] + resolution) =~= seq![0x20u8] + left);
    assert(text::reduced_text(resolution + seq![space]) =~= left.push(0x20));
    assert(text::reduced_text(seq![space] + bitrate) =~= seq![0x20u8] + right);
    assert(text::reduced_text(bitrate + seq![space]) =~= right.push(0x20));
    text::law_outer_spaces_do_not_matter(left);
    text::law_outer_spaces_do_not_matter(right);
}

proof fn lemma_rung_parts(resolution: Seq<char>, bitrate: Seq<char>)
    requires
        forall|i: int| 0 <= i < resolution.len() ==> #[trigger] resolution[i] != '@',
    ensures
        ({
            let rung = resolution + seq!['@'] + bitrate;
            let t = text::reduced_text(rung);
            let at = decimal::position_of(t, 0, 0x40);
            &&& at == resolution.len()
            &&& at < t.len()
            &&& t.take(at) == text::reduced_text(resolution)
            &&& t.skip(at + 1) == text::reduced_text(bitrate)
        }),
{
    let rung = resolution + seq!['@'] + bitrate;
    let t = text::reduced_text(rung);
    lemma_char_position(rung, 0, '@', 0x40);
    text::law_first_position_is_found(rung, 0, '@');
    let at = text::position_of(rung, 0, '@');
    assert(rung[resolution.len() as int] == '@');
    if at < resolution.len() {
        assert(rung[at] == resolution[at]);
    }
    assert(t.take(at) =~= text::reduced_text(resolution));
    assert(t.skip(at + 1) =~= text::reduced_text(bitrate));
}

/// A rung names a height and a bitrate: it holds an `@`, and a rung without one is
/// refused for that.
pub proof fn law_a_rung_holds_an_at(rung: Seq<char>)
    ensures
        read_rung(rung) is Ok ==> rung.contains('@'),
        !rung.contains('@') <==> read_rung(rung) == Err::<(u16, u32), LadderError>(
            LadderError::RungWithoutAt { rung },
        ),
{
    lemma_char_position(rung, 0, '@', 0x40);
    text::law_first_position_is_found(rung, 0, '@');
    let at = text::position_of(rung, 0, '@');
    if at < rung.len() {
        assert(rung.contains(rung[at]));
    }
}

/// What a ladder is written with decides what it is: the word for the default one, an
/// `@` for rungs of their own heights, a colon for bitrates at one height.
pub proof fn law_ladder_shape_is_told_by_its_marks(spec: Seq<char>)
    ensures
        (read_ladder(spec) matches Ok(LadderView::Default)) <==> spec == "default"@,
        read_ladder(spec) matches Ok(LadderView::MultiRes { rungs }) ==> spec.contains('@')
            && read_rungs(spec, 0) == Ok::<Seq<(u16, u32)>, LadderError>(rungs),
        read_ladder(spec) matches Ok(LadderView::SingleRes { .. }) ==> spec.contains(':')
            && !spec.contains('@'),
        spec != "default"@ && !spec.contains('@') && !spec.contains(':') <==> read_ladder(spec)
            == Err::<LadderView, LadderError>(LadderError::MissingColon { spec }),
        spec != "default"@ && spec.contains('@') && read_ladder(spec) is Err
            ==> read_rungs(spec, 0) is Err,
{
    lemma_char_position(spec, 0, '@', 0x40);
    lemma_char_position(spec, 0, ':', 0x3a);
    text::law_first_position_is_found(spec, 0, '@');
    text::law_first_position_is_found(spec, 0, ':');
    let at = text::position_of(spec, 0, '@');
    let colon = text::position_of(spec, 0, ':');
    if at < spec.len() {
        assert(spec.contains(spec[at]));
    }
    if colon < spec.len() {
        assert(spec.contains(spec[colon]));
    }
    law_rungs_come_piece_by_piece(spec, 0);
    if read_rungs(spec, 0) is Err {
        let error = read_rungs(spec, 0)->Err_0;
        let parts = text::pieces(spec, 0, ',');
        let i = choose|i: int|
            0 <= i < parts.len() && read_rung(#[trigger] parts[i]) == Err::<
                (u16, u32),
                LadderError,
            >(error);
        assert(!(error is MissingColon));
    }
    if colon < spec.len() {
        law_bitrates_come_piece_by_piece(spec, colon + 1);
    }
}

/// A ladder at one height is the height, a `p`, a colon and the bitrates.
pub proof fn law_single_resolution_is_read_in_order(spec: Seq<char>)
    ensures
        read_ladder(spec) matches Ok(LadderView::SingleRes { height, bitrates_kbps }) ==> {
            let colon = text::position_of(spec, 0, ':');
            &&& 1 <= colon < spec.len()
            &&& spec[colon - 1] == 'p'
            &&& decimal::number(text::reduced_text(spec.take(colon - 1)), 0xffff) == Ok::<
                u64,
                NumberError,
            >(height as u64)
            &&& read_bitrates(spec, colon + 1) == Ok::<Seq<u32>, LadderError>(bitrates_kbps)
        },
{
    lemma_char_position(spec, 0, ':', 0x3a);
    text::law_first_position_is_found(spec, 0, ':');
    let t = text::reduced_text(spec);
    let colon = text::position_of(spec, 0, ':');
    if read_ladder(spec) is Ok && read_ladder(spec)->Ok_0 is SingleRes {
        lemma_char_position_step(spec[colon - 1], 'p', 0x70);
        text::law_reducing_keeps_ascii(spec, colon - 1);
        assert(t.subrange(0, colon - 1) =~= text::reduced_text(spec.take(colon - 1)));
        decimal::law_number_reads_decimals(t.subrange(0, colon - 1), 0xffff);
    }
}

/// A width is the even number that is nearest to sixteen ninths of the height, for the
/// heights that are supported.
pub proof fn law_widths_are_sixteen_by_nine(height: u16)
    ensures
        width_16x9(height) is Some <==> seq![2160u16, 1080, 720, 480, 360, 240].contains(height),
        width_16x9(height) matches Some(width) ==> width % 2 == 0 && -9 < 9 * width - 16 * height
            < 9,
{
    let heights = seq![2160u16, 1080, 720, 480, 360, 240];
    assert(heights[0] == 2160 && heights[1] == 1080 && heights[2] == 720 && heights[3] == 480
        && heights[4] == 360 && heights[5] == 240);
}

/// The tiers go from the largest to the smallest. Each is sixteen by nine, is named after
/// its height and has half the bitrate of the one above it.
pub proof fn law_tiers_step_down(i: int)
    requires
        0 <= i < tiers().len(),
    ensures
        width_16x9(tiers()[i].height) == Some(tiers()[i].width),
        i > 0 ==> tiers()[i].height < tiers()[i - 1].height,
        i > 0 ==> 2 * tiers()[i].bitrate_kbps == tiers()[i - 1].bitrate_kbps,
        i == tiers().len() - 1 ==> tiers()[i].height == 360 && tiers()[i].bitrate_kbps == 500,
        i == 0 ==> tiers()[i].height == 1080,
        tiers()[i].quality.name() == text::decimal_text(tiers()[i].height as nat).push('p'),
        tiers().len() == 4,
{
    reveal_strlit("1080p");
    reveal_strlit("720p");
    reveal_strlit("480p");
    reveal_strlit("360p");
    reveal_with_fuel(text::decimal_text, 5);
    assert(tiers()[i].quality.name() =~= text::decimal_text(tiers()[i].height as nat).push('p'));
}

/// Each tier that the source can fill is in the default ladder before it is trimmed, and
/// no other is. The larger ones come first.
pub proof fn law_default_tiers_are_those_within(height: u16, i: int, j: int)
    ensures
        0 <= i < tiers().len() ==> (tiers_within(height).contains(tiers()[i])
            <==> tiers()[i].height <= height),
        0 <= i < tiers_within(height).len() ==> tiers().contains(tiers_within(height)[i]),
        0 <= i < j < tiers_within(height).len() ==> tiers_within(height)[j].height
            < tiers_within(height)[i].height,
{
    let within = |v: QualityVariant| v.height <= height;
    broadcast use vstd::seq_lib::group_filter_ensures;

    if 0 <= i < tiers().len() {
        if tiers()[i].height <= height {
            assert(within(tiers()[i]));
        } else if tiers_within(height).contains(tiers()[i]) {
            assert(within(tiers()[i]));
        }
    }
    if 0 <= i < tiers_within(height).len() {
        assert(tiers_within(height).contains(tiers_within(height)[i]));
    }
    lemma_within_is_the_tail(height);
}

proof fn lemma_within_is_the_tail(height: u16)
    ensures
        height >= 1080 ==> tiers_within(height) == tiers(),
        720 <= height < 1080 ==> tiers_within(height) == tiers().skip(1),
        480 <= height < 720 ==> tiers_within(height) == tiers().skip(2),
        360 <= height < 480 ==> tiers_within(height) == tiers().skip(3),
        height < 360 ==> tiers_within(height).len() == 0,
{
    let within = |v: QualityVariant| v.height <= height;
    reveal_with_fuel(Seq::filter, 5);
    let all = tiers();
    assert(all.drop_last() =~= all.take(3));
    assert(all.take(3).drop_last() =~= all.take(2));
    assert(all.take(2).drop_last() =~= all.take(1));
    assert(all.take(1).drop_last() =~= Seq::<QualityVariant>::empty());
    assert(Seq::<QualityVariant>::empty().filter(within) =~= Seq::<QualityVariant>::empty());
    if height >= 1080 {
        assert(all.take(1).filter(within) =~= all.take(1));
        assert(all.take(2).filter(within) =~= all.take(2));
        assert(all.take(3).filter(within) =~= all.take(3));
        assert(tiers_within(height) =~= all);
    } else if height >= 720 {
        assert(all.take(1).filter(within) =~= Seq::<QualityVariant>::empty());
        assert(all.take(2).filter(within) =~= seq![all[1]]);
        assert(all.take(3).filter(within) =~= seq![all[1], all[2]]);
        assert(tiers_within(height) =~= all.skip(1));
    } else if height >= 480 {
        assert(all.take(2).filter(within) =~= Seq::<QualityVariant>::empty());
        assert(all.take(3).filter(within) =~= seq![all[2]]);
        assert(tiers_within(height) =~= all.skip(2));
    } else if height >= 360 {
        assert(all.take(3).filter(within) =~= Seq::<QualityVariant>::empty());
        assert(tiers_within(height) =~= all.skip(3));
    } else {
        assert(tiers_within(height) =~= Seq::<QualityVariant>::empty());
    }
}

/// Trimming keeps the first ones and the last, as many as asked for and two at least.
pub proof fn law_trimming_drops_from_the_middle(
    variants: Seq<QualityVariant>,
    max: nat,
    i: int,
)
    ensures
        ({
            let kept = trimmed_ladder(variants, max);
            let limit = if max < 2 {
                2nat
            } else {
                max
            };
            &&& variants.len() <= limit ==> kept == variants
            &&& variants.len() > limit ==> kept.len() == limit && kept.last() == variants.last()
            &&& 0 <= i < kept.len() - 1 ==> kept[i] == variants[i]
        }),
{
}

/// A rung is named after its own height and bitrate and is sixteen by nine.
pub proof fn law_rungs_are_named_after_themselves(
    info: VideoInfo,
    spec: LadderView,
    max_variants: nat,
    i: int,
)
    requires
        !(spec is Default),
    ensures
        ladder_variants(info, spec, max_variants) matches Ok(variants) ==> (0 <= i
            < variants.len() ==> {
            &&& variants[i].quality == (Quality::SameResRung {
                height: variants[i].height,
                bitrate_kbps: variants[i].bitrate_kbps,
            })
            &&& width_16x9(variants[i].height) == Some(variants[i].width)
        }),
{
    if spec is MultiRes {
        lemma_rungs_fit(info, spec->rungs);
    }
}

/// Bitrates at one height are refused exactly where the height is not supported or is
/// larger than the source, and the error says which.
pub proof fn law_one_height_must_fit_the_source(
    info: VideoInfo,
    height: u16,
    bitrates_kbps: Seq<u32>,
    max_variants: nat,
)
    ensures
        ({
            let result = ladder_variants(
                info,
                LadderView::SingleRes { height, bitrates_kbps },
                max_variants,
            );
            &&& result is Ok <==> width_16x9(height) is Some && height <= info.height
            &&& result matches Err(error) ==> error == if width_16x9(height) is None {
                VariantError::UnsupportedHeight { height }
            } else {
                VariantError::ExceedsSource { height, source_height: info.height }
            }
        }),
{
}

/// Rungs are refused as the first one whose height is not supported or is larger than
/// the source.
pub proof fn law_each_rung_must_fit_the_source(
    info: VideoInfo,
    rungs: Seq<(u16, u32)>,
    max_variants: nat,
    n: int,
)
    requires
        0 <= n <= rungs.len(),
        forall|i: int|
            0 <= i < n ==> width_16x9((#[trigger] rungs[i]).0) is Some && rungs[i].0
                <= info.height,
    ensures
        ({
            let result = ladder_variants(info, LadderView::MultiRes { rungs }, max_variants);
            &&& n == rungs.len() ==> result is Ok
            &&& n < rungs.len() && width_16x9(rungs[n].0) is None ==> result == Err::<
                Seq<QualityVariant>,
                VariantError,
            >(VariantError::UnsupportedHeight { height: rungs[n].0 })
            &&& n < rungs.len() && width_16x9(rungs[n].0) is Some && rungs[n].0 > info.height
                ==> result == Err::<Seq<QualityVariant>, VariantError>(
                VariantError::RungExceedsSource {
                    height: rungs[n].0,
                    source_height: info.height,
                },
            )
        }),
{
    lemma_fitting_rungs(info, rungs, n);
    if n < rungs.len() {
        assert(rungs.take(n + 1).drop_last() =~= rungs.take(n));
        if width_16x9(rungs[n].0) is None || rungs[n].0 > info.height {
            lemma_first_error_stays(info, rungs, n + 1);
        }
    } else {
        assert(rungs.take(n) =~= rungs);
    }
}

proof fn lemma_fitting_rungs(info: VideoInfo, rungs: Seq<(u16, u32)>, n: int)
    requires
        0 <= n <= rungs.len(),
        forall|i: int|
            0 <= i < n ==> width_16x9((#[trigger] rungs[i]).0) is Some && rungs[i].0
                <= info.height,
    ensures
        rung_variants(info, rungs.take(n)) is Ok,
    decreases n,
{
    if n > 0 {
        lemma_fitting_rungs(info, rungs, n - 1);
        assert(rungs.take(n).drop_last() =~= rungs.take(n - 1));
        assert(rungs.take(n).last() == rungs[n - 1]);
    }
}

} // verus!
