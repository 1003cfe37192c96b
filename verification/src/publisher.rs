//! What a publisher does with its variants: which tracks it offers, what it
//! writes to a cache and when it may replay one.

use crate::adaptive::{self, resolve_ladder, QualityVariant, VariantError};
use crate::cache::{self, SCHEMA_VERSION};
use crate::json;
use crate::metadata::{TopMeta, TopMetaView, VariantMeta, VariantMetaView};
use crate::payload;
use crate::text::{self, push_decimal};
use crate::video::VideoInfo;
use bytes::Bytes;
use serde_json::Value;
use vstd::prelude::*;

verus! {

/// How a publisher runs.
#[derive(Debug, Clone, Copy, PartialEq, Eq, Structural)]
pub enum RunMode {
    /// Encodes the source and publishes it.
    Live,
    /// Encodes the source into a cache.
    Prepare,
    /// Publishes a cache.
    Replay,
}

/// The alias of the catalog track. Those of the variants follow it.
pub const CATALOG_ALIAS: u64 = 0;

/// A track that a publisher offers.
#[derive(Debug, Clone)]
pub struct Publication {
    pub track_name: String,
    pub track_alias: u64,
    pub publisher_priority: u8,
}

/// The name of the track of a variant.
pub open spec fn track_name(variant: QualityVariant) -> Seq<char> {
    "video-"@ + variant.quality.name()
}

/// The priority of one of `count` variants: the first has the largest number.
/// Counts and positions are taken modulo 256.
pub open spec fn priority(count: nat, index: int) -> u8 {
    if (count % 256) as int > index % 256 {
        ((count % 256) as int - index % 256) as u8
    } else {
        0
    }
}

fn name_of(variant: &QualityVariant) -> (name: String)
    ensures
        name@ == track_name(*variant),
{
    let mut name: String = "video-".to_owned();
    name.append(variant.quality.to_string().as_str());
    name
}

/// Returns the tracks that are offered besides the catalog, one for each
/// variant.
pub fn publications(variants: &Vec<QualityVariant>) -> (tracks: Vec<Publication>)
    ensures
        tracks@.len() == variants@.len(),
        forall|i: int|
            0 <= i < tracks@.len() ==> {
                &&& (#[trigger] tracks@[i]).track_name@ == track_name(variants@[i])
                &&& tracks@[i].track_alias == CATALOG_ALIAS + 1 + i
                &&& tracks@[i].publisher_priority == priority(variants@.len(), i)
            },
{
    let count: usize = variants.len();
    let count_byte: u8 = (count % 256) as u8;
    let mut tracks: Vec<Publication> = Vec::new();
    let mut i: usize = 0;
    while i < count
        invariant
            i <= count,
            count == variants@.len(),
            count_byte == count % 256,
            tracks@.len() == i,
            forall|k: int|
                0 <= k < i ==> {
                    &&& (#[trigger] tracks@[k]).track_name@ == track_name(variants@[k])
                    &&& tracks@[k].track_alias == CATALOG_ALIAS + 1 + k
                    &&& tracks@[k].publisher_priority == priority(variants@.len(), k)
                },
        decreases count - i,
    {
        let index_byte: u8 = (i % 256) as u8;
        let publisher_priority: u8 = count_byte.saturating_sub(index_byte);
        let track_alias: u64 = i as u64 + 1;
        tracks.push(
            Publication { track_name: name_of(&variants[i]), track_alias, publisher_priority },
        );
        i = i + 1;
    }
    tracks
}

/// Different rungs have tracks of different names.
pub proof fn law_track_names_are_unique(a: QualityVariant, b: QualityVariant)
    ensures
        track_name(a) == track_name(b) ==> a.quality == b.quality,
{
    if track_name(a) == track_name(b) {
        let n = "video-"@.len() as int;
        assert(a.quality.name() =~= track_name(a).skip(n));
        assert(b.quality.name() =~= track_name(b).skip(n));
        adaptive::law_rung_names_are_unique(a.quality, b.quality);
    }
}

/// Of up to 255 variants each has a priority of its own, and an earlier one has a
/// larger number than a later one.
pub proof fn law_priorities_fall(count: nat, i: int, j: int)
    requires
        count < 256,
        0 <= i < j < count,
    ensures
        priority(count, i) > priority(count, j) > 0,
{
}

/// What a catalog says of a track.
#[derive(Debug, Clone)]
pub struct CatalogTrack {
    pub name: String,
    pub codec: String,
    pub width: u16,
    pub height: u16,
    pub bitrate_bps: u32,
    pub role: String,
    pub target_latency_ms: u32,
}

/// The entry of a variant in a catalog.
pub open spec fn is_catalog_track(
    track: CatalogTrack,
    variant: QualityVariant,
    codec: Seq<char>,
    target_latency_ms: u32,
) -> bool {
    &&& track.name@ == track_name(variant)
    &&& track.codec@ == codec
    &&& track.width == variant.width
    &&& track.height == variant.height
    &&& track.bitrate_bps == variant.bitrate_kbps * 1000
    &&& track.role@ == "video"@
    &&& track.target_latency_ms == target_latency_ms
}

/// Returns the entries of the variants in a catalog, with the codec of each. A
/// variant without a codec gets no entry.
pub fn build_catalog_tracks(
    variants: &Vec<QualityVariant>,
    codecs: &Vec<String>,
    target_latency_ms: u32,
) -> (tracks: Vec<CatalogTrack>)
    requires
        forall|i: int|
            0 <= i < variants@.len() ==> (#[trigger] variants@[i]).bitrate_kbps * 1000 <= u32::MAX,
    ensures
        tracks@.len() == if variants@.len() < codecs@.len() {
            variants@.len()
        } else {
            codecs@.len()
        },
        forall|i: int|
            0 <= i < tracks@.len() ==> is_catalog_track(
                #[trigger] tracks@[i],
                variants@[i],
                codecs@[i]@,
                target_latency_ms,
            ),
{
    let mut tracks: Vec<CatalogTrack> = Vec::new();
    let mut i: usize = 0;
    while i < variants.len() && i < codecs.len()
        invariant
            i <= variants@.len(),
            i <= codecs@.len(),
            tracks@.len() == i,
            forall|k: int|
                0 <= k < variants@.len() ==> (#[trigger] variants@[k]).bitrate_kbps * 1000
                    <= u32::MAX,
            forall|k: int|
                0 <= k < i ==> is_catalog_track(
                    #[trigger] tracks@[k],
                    variants@[k],
                    codecs@[k]@,
                    target_latency_ms,
                ),
        decreases variants@.len() - i,
    {
        let variant: QualityVariant = variants[i];
        tracks.push(
            CatalogTrack {
                name: name_of(&variant),
                codec: codecs[i].as_str().to_owned(),
                width: variant.width,
                height: variant.height,
                bitrate_bps: variant.bitrate_kbps * 1000,
                role: "video".to_owned(),
                target_latency_ms,
            },
        );
        i = i + 1;
    }
    tracks
}

/// The entry of a cached variant in a catalog.
pub open spec fn is_cached_catalog_track(
    track: CatalogTrack,
    meta: VariantMetaView,
    target_latency_ms: u32,
) -> bool {
    &&& track.name@ == "video-"@ + meta.quality
    &&& track.codec@ == meta.codec
    &&& track.width == meta.width
    &&& track.height == meta.height
    &&& track.bitrate_bps == meta.bitrate_kbps * 1000
    &&& track.role@ == "video"@
    &&& track.target_latency_ms == target_latency_ms
}

/// Returns the entries of cached variants in a catalog, from what the cache keeps
/// of them.
pub fn cached_catalog_tracks(metas: &Vec<VariantMeta>, target_latency_ms: u32) -> (tracks: Vec<
    CatalogTrack,
>)
    requires
        forall|i: int|
            0 <= i < metas@.len() ==> (#[trigger] metas@[i]).bitrate_kbps * 1000 <= u32::MAX,
    ensures
        tracks@.len() == metas@.len(),
        forall|i: int|
            0 <= i < tracks@.len() ==> is_cached_catalog_track(
                #[trigger] tracks@[i],
                metas@[i]@,
                target_latency_ms,
            ),
{
    let mut tracks: Vec<CatalogTrack> = Vec::new();
    let mut i: usize = 0;
    while i < metas.len()
        invariant
            i <= metas@.len(),
            tracks@.len() == i,
            forall|k: int|
                0 <= k < metas@.len() ==> (#[trigger] metas@[k]).bitrate_kbps * 1000 <= u32::MAX,
            forall|k: int|
                0 <= k < i ==> is_cached_catalog_track(
                    #[trigger] tracks@[k],
                    metas@[k]@,
                    target_latency_ms,
                ),
        decreases metas@.len() - i,
    {
        let meta: &VariantMeta = &metas[i];
        let mut name: String = "video-".to_owned();
        name.append(meta.quality.as_str());
        tracks.push(
            CatalogTrack {
                name,
                codec: meta.codec.as_str().to_owned(),
                width: meta.width,
                height: meta.height,
                bitrate_bps: meta.bitrate_kbps * 1000,
                role: "video".to_owned(),
                target_latency_ms,
            },
        );
        i = i + 1;
    }
    tracks
}

/// Returns the metadata that a cache keeps of a variant.
pub fn prepared_variant(
    variant: &QualityVariant,
    framerate: Value,
    codec: String,
    extradata: Bytes,
) -> (meta: VariantMeta)
    ensures
        meta@ == (VariantMetaView {
            quality: variant.quality.name(),
            width: variant.width,
            height: variant.height,
            bitrate_kbps: variant.bitrate_kbps,
            framerate: json::json(framerate),
            codec: codec@,
            extradata: payload::contents(extradata),
        }),
{
    VariantMeta {
        quality: variant.quality.to_string(),
        width: variant.width,
        height: variant.height,
        bitrate_kbps: variant.bitrate_kbps,
        framerate,
        codec,
        extradata,
    }
}

/// The names of variants.
pub open spec fn quality_names(variants: Seq<QualityVariant>) -> Seq<Seq<char>> {
    Seq::new(variants.len(), |i: int| variants[i].quality.name())
}

fn names_of(variants: &Vec<QualityVariant>) -> (names: Vec<String>)
    ensures
        cache::views(names@) == quality_names(variants@),
{
    let mut names: Vec<String> = Vec::new();
    let mut i: usize = 0;
    while i < variants.len()
        invariant
            i <= variants@.len(),
            names@.len() == i,
            forall|k: int| 0 <= k < i ==> (#[trigger] names@[k])@ == variants@[k].quality.name(),
        decreases variants@.len() - i,
    {
        names.push(variants[i].quality.to_string());
        i = i + 1;
    }
    proof {
        assert(cache::views(names@) =~= quality_names(variants@));
    }
    names
}

/// Numbers with commas between them.
pub open spec fn number_list(numbers: Seq<u64>) -> Seq<char>
    decreases numbers.len(),
{
    if numbers.len() == 0 {
        Seq::empty()
    } else if numbers.len() == 1 {
        text::decimal_text(numbers[0] as nat)
    } else {
        number_list(numbers.drop_last()) + ", "@ + text::decimal_text(numbers.last() as nat)
    }
}

fn push_number_list(text: &mut String, numbers: &Vec<u64>)
    ensures
        final(text)@ == old(text)@ + number_list(numbers@),
{
    let ghost before = text@;
    let mut i: usize = 0;
    while i < numbers.len()
        invariant
            i <= numbers@.len(),
            text@ == before + number_list(numbers@.take(i as int)),
        decreases numbers@.len() - i,
    {
        proof {
            assert(numbers@.take(i + 1).drop_last() =~= numbers@.take(i as int));
        }
        if i > 0 {
            text.append(", ");
        }
        push_decimal(text, numbers[i]);
        i = i + 1;
        proof {
            assert(text@ =~= before + number_list(numbers@.take(i as int)));
        }
    }
    proof {
        assert(numbers@.take(i as int) =~= numbers@);
    }
}

/// Variants of different lengths.
pub open spec fn different_counts_text(counts: Seq<u64>) -> Seq<char> {
    "Prepare: variants emitted different GOP counts ["@ + number_list(counts)
        + "] (cache would be inconsistent)"@
}

/// Returns the metadata of a cache that has been filled with as many groups of
/// pictures for each variant as `counts` says. They must be as many for all.
pub fn prepared_cache(
    info: &VideoInfo,
    framerate: Value,
    target_latency_ms: u32,
    variants: &Vec<QualityVariant>,
    counts: &Vec<u64>,
) -> (result: Result<TopMeta, String>)
    requires
        counts@.len() > 0,
    ensures
        match result {
            Ok(meta) => {
                &&& forall|i: int| 0 <= i < counts@.len() ==> #[trigger] counts@[i] == counts@[0]
                &&& meta@ == (TopMetaView {
                    schema_version: SCHEMA_VERSION,
                    source_width: info.width,
                    source_height: info.height,
                    framerate: json::json(framerate),
                    target_latency_ms,
                    variants: quality_names(variants@),
                    gops_per_variant: counts@[0],
                })
            },
            Err(text) => {
                &&& exists|i: int| 0 <= i < counts@.len() && #[trigger] counts@[i] != counts@[0]
                &&& text@ == different_counts_text(counts@)
            },
        },
{
    let first: u64 = counts[0];
    let mut i: usize = 0;
    while i < counts.len()
        invariant
            i <= counts@.len(),
            first == counts@[0],
            forall|k: int| 0 <= k < i ==> #[trigger] counts@[k] == first,
        decreases counts@.len() - i,
    {
        if counts[i] != first {
            let mut text: String = "Prepare: variants emitted different GOP counts [".to_owned();
            push_number_list(&mut text, counts);
            text.append("] (cache would be inconsistent)");
            return Err(text);
        }
        i = i + 1;
    }
    Ok(
        TopMeta {
            schema_version: SCHEMA_VERSION,
            source_width: info.width,
            source_height: info.height,
            framerate,
            target_latency_ms,
            variants: names_of(variants),
            gops_per_variant: first,
        },
    )
}

/// Why a cache cannot be replayed.
#[derive(Debug)]
pub enum ReplayRefusal {
    /// The ladder that is asked for cannot be built.
    Ladder { text: String },
    /// The cache holds other variants than these.
    Variants { expected: Vec<String> },
}

/// The ladder that a specification gives for a source.
pub open spec fn requested_ladder(
    spec: Seq<char>,
    max_variants: nat,
    info: VideoInfo,
) -> Result<Seq<QualityVariant>, VariantError> {
    match adaptive::read_ladder(spec) {
        Ok(ladder) => adaptive::ladder_variants(info, ladder, max_variants),
        Err(error) => Err(VariantError::Spec { error }),
    }
}

fn same_names(a: &Vec<String>, b: &Vec<String>) -> (same: bool)
    ensures
        same == (cache::views(a@) == cache::views(b@)),
{
    if a.len() != b.len() {
        proof {
            assert(cache::views(a@).len() != cache::views(b@).len());
        }
        return false;
    }
    let mut i: usize = 0;
    while i < a.len()
        invariant
            i <= a@.len(),
            a@.len() == b@.len(),
            forall|k: int| 0 <= k < i ==> (#[trigger] a@[k])@ == b@[k]@,
        decreases a@.len() - i,
    {
        if a[i] != b[i] {
            proof {
                assert(cache::views(a@)[i as int] != cache::views(b@)[i as int]);
            }
            return false;
        }
        i = i + 1;
    }
    proof {
        assert(cache::views(a@) =~= cache::views(b@));
    }
    true
}

/// Decides whether a cache holds the variants that are asked for, in their
/// order. Returns them.
pub fn check_cached_variants(meta: &TopMeta, spec: &str, max_variants: usize) -> (result: Result<
    Vec<QualityVariant>,
    ReplayRefusal,
>)
    ensures
        match requested_ladder(
            spec@,
            max_variants as nat,
            VideoInfo { width: meta.source_width, height: meta.source_height },
        ) {
            Ok(expected) => if meta@.variants == quality_names(expected) {
                result matches Ok(variants) && variants@ == expected
            } else {
                result matches Err(ReplayRefusal::Variants { expected: names })
                    && cache::views(names@) == quality_names(expected)
            },
            Err(e) => result matches Err(ReplayRefusal::Ladder { text }) && text@ == e.text(),
        },
{
    let info: VideoInfo = VideoInfo { width: meta.source_width, height: meta.source_height };
    let variants: Vec<QualityVariant> = match resolve_ladder(spec, max_variants, &info) {
        Ok(variants) => variants,
        Err(text) => {
            return Err(ReplayRefusal::Ladder { text });
        },
    };
    let expected: Vec<String> = names_of(&variants);
    if same_names(&meta.variants, &expected) {
        Ok(variants)
    } else {
        Err(ReplayRefusal::Variants { expected })
    }
}

/// A variant with another number of groups than the cache says.
pub open spec fn gop_count_text(
    quality: Seq<char>,
    on_disk: u64,
    dir: Seq<char>,
    expected: u64,
) -> Seq<char> {
    "Cache variant "@ + quality + " reports "@ + text::decimal_text(on_disk as nat)
        + " GOPs in "@ + dir + " but meta.json says "@ + text::decimal_text(expected as nat)
        + "; cache is inconsistent — delete and re-prepare"@
}

/// Decides whether a cached variant is whole: it has as many groups of pictures
/// as the metadata of the cache says.
pub fn check_cached_gops(quality: &str, on_disk: u64, dir: &str, expected: u64) -> (result: Result<
    (),
    String,
>)
    ensures
        match result {
            Ok(_) => on_disk == expected,
            Err(text) => on_disk != expected && text@ == gop_count_text(
                quality@,
                on_disk,
                dir@,
                expected,
            ),
        },
{
    if on_disk == expected {
        return Ok(());
    }
    let mut text: String = "Cache variant ".to_owned();
    text.append(quality);
    text.append(" reports ");
    push_decimal(&mut text, on_disk);
    text.append(" GOPs in ");
    text.append(dir);
    text.append(" but meta.json says ");
    push_decimal(&mut text, expected);
    text.append("; cache is inconsistent — delete and re-prepare");
    Err(text)
}

/// A replay announces a track as the live run announced it: from the metadata
/// that was kept of a variant comes the same entry.
pub proof fn law_cached_catalog_is_the_live_one(
    live: CatalogTrack,
    cached: CatalogTrack,
    variant: QualityVariant,
    meta: VariantMetaView,
    target_latency_ms: u32,
)
    requires
        is_catalog_track(live, variant, meta.codec, target_latency_ms),
        is_cached_catalog_track(cached, meta, target_latency_ms),
        meta.quality == variant.quality.name(),
        meta.width == variant.width,
        meta.height == variant.height,
        meta.bitrate_kbps == variant.bitrate_kbps,
    ensures
        cached.name@ == live.name@,
        cached.codec@ == live.codec@,
        cached.width == live.width,
        cached.height == live.height,
        cached.bitrate_bps == live.bitrate_bps,
        cached.role@ == live.role@,
        cached.target_latency_ms == live.target_latency_ms,
{
}

/// A cache that was filled for a ladder is replayed for the same ladder.
pub proof fn law_prepared_cache_can_be_replayed(
    spec: Seq<char>,
    max_variants: nat,
    info: VideoInfo,
    variants: Seq<QualityVariant>,
    meta: TopMetaView,
)
    requires
        requested_ladder(spec, max_variants, info) == Ok::<Seq<QualityVariant>, VariantError>(
            variants,
        ),
        meta.source_width == info.width,
        meta.source_height == info.height,
        meta.variants == quality_names(variants),
    ensures
        requested_ladder(
            spec,
            max_variants,
            VideoInfo { width: meta.source_width, height: meta.source_height },
        ) matches Ok(expected) && meta.variants == quality_names(expected),
{
}

/// A track is called `video-` and then the name of its quality.
pub proof fn law_tracks_are_called_by_quality(variant: QualityVariant)
    ensures
        track_name(variant).take(6) == seq!['v', 'i', 'd', 'e', 'o', '-'],
        track_name(variant).skip(6) == variant.quality.name(),
{
    reveal_strlit("video-");
    assert(track_name(variant).take(6) =~= seq!['v', 'i', 'd', 'e', 'o', '-']);
    assert(track_name(variant).skip(6) =~= variant.quality.name());
}

/// The first track has as many priorities as there are tracks, and each further one is
/// one lower.
pub proof fn law_priorities_count_down(count: nat, i: int)
    requires
        count < 256,
        0 <= i < count,
    ensures
        priority(count, i) + i == count,
{
}

/// A catalog entry says of the variant what the variant is, the bitrate in bits.
pub proof fn law_catalog_tells_the_variant(
    track: CatalogTrack,
    variant: QualityVariant,
    codec: Seq<char>,
    target_latency_ms: u32,
)
    requires
        is_catalog_track(track, variant, codec, target_latency_ms),
    ensures
        track.name@.skip(6) == variant.quality.name(),
        track.width == variant.width,
        track.height == variant.height,
        track.bitrate_bps == 1000 * variant.bitrate_kbps,
        track.codec@ == codec,
        track.target_latency_ms == target_latency_ms,
        track.role@ == seq!['v', 'i', 'd', 'e', 'o'],
{
    law_tracks_are_called_by_quality(variant);
    reveal_strlit("video");
    assert("video"@ =~= seq!['v', 'i', 'd', 'e', 'o']);
}

/// The ladder that is asked for is the one that the specification gives for the source,
/// and a specification that cannot be read is refused for that.
pub proof fn law_requested_ladder_is_the_one_written(
    spec: Seq<char>,
    max_variants: nat,
    info: VideoInfo,
)
    ensures
        adaptive::read_ladder(spec) matches Err(error) ==> requested_ladder(
            spec,
            max_variants,
            info,
        ) == Err::<Seq<QualityVariant>, VariantError>(VariantError::Spec { error }),
        adaptive::read_ladder(spec) matches Ok(ladder) ==> requested_ladder(
            spec,
            max_variants,
            info,
        ) == adaptive::ladder_variants(info, ladder, max_variants),
{
}

/// The names of the qualities stand in the order of the variants.
pub proof fn law_quality_names_are_in_order(variants: Seq<QualityVariant>, i: int)
    requires
        0 <= i < variants.len(),
    ensures
        quality_names(variants).len() == variants.len(),
        quality_names(variants)[i] == variants[i].quality.name(),
{
}

/// Numbers are listed in order, a comma and a space between two.
pub proof fn law_numbers_are_listed_in_order(numbers: Seq<u64>, number: u64)
    ensures
        number_list(seq![number]) == text::decimal_text(number as nat),
        numbers.len() > 0 ==> number_list(numbers.push(number)) == number_list(numbers) + seq![
            ',',
            ' ',
        ] + text::decimal_text(number as nat),
{
    reveal_strlit(", ");
    assert(", "@ =~= seq![',', ' ']);
    assert(numbers.push(number).drop_last() =~= numbers);
}

} // verus!
