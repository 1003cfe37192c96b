//! The metadata of a cache, kept as JSON.

use crate::cache::{self, join, SCHEMA_VERSION};
use crate::json::{
    self, json_array, json_from_list, json_from_object, json_from_str,
    json_from_unsigned, json_insert, json_is_number, json_member, json_object, json_parse,
    json_print, json_str, json_unsigned, Json,
};
use crate::payload::{self, bytes_as_slice, bytes_from_vec};
use crate::text::{self, push_decimal};
use base64::Engine;
use bytes::Bytes;
use serde_json::Value;
use vstd::prelude::*;

verus! {

/// The type `base64::DecodeError`: why a text is no base64.
#[verifier::external_type_specification]
#[verifier::external_body]
pub struct ExDecodeError(base64::DecodeError);

/// The text that bytes are written as in base64, with padding.
pub uninterp spec fn base64_text(data: Seq<u8>) -> Seq<char>;

/// The bytes that a base64 text writes; `None` when it is not well formed.
pub uninterp spec fn base64_data(text: Seq<char>) -> Option<Seq<u8>>;

/// Calls `Engine::encode` of the standard base64 engine. What it writes is read
/// back by the same engine. The text is a third longer than the data, and the
/// call panics where that is too long for the memory of the machine.
#[verifier::external_body]
fn base64_encode(data: &[u8]) -> (text: String)
    requires
        data@.len() <= usize::MAX / 4,
    ensures
        text@ == base64_text(data@),
        base64_data(text@) == Some(data@),
{
    base64::engine::general_purpose::STANDARD.encode(data)
}

/// Calls `Engine::decode` of the standard base64 engine.
#[verifier::external_body]
fn base64_decode(text: &str) -> (result: Result<Vec<u8>, base64::DecodeError>)
    ensures
        match result {
            Ok(data) => base64_data(text@) == Some(data@),
            Err(_) => base64_data(text@) is None,
        },
{
    base64::engine::general_purpose::STANDARD.decode(text)
}

/// Why metadata cannot be read.
#[derive(Debug, Clone, Copy)]
pub enum MetaError {
    /// It is no JSON.
    Parse,
    /// A text is missing.
    MissingText { key: &'static str },
    /// An unsigned integer is missing.
    MissingInteger { key: &'static str },
    /// A number is missing.
    MissingNumber { key: &'static str },
    /// A number does not fit in 32 bits.
    OverflowsU32 { key: &'static str },
    /// A number does not fit in 16 bits.
    OverflowsU16 { key: &'static str },
    /// The version of the file formats is another one.
    SchemaVersion { found: u32 },
    /// The list of variants is missing.
    MissingVariants,
    /// A variant is not named by a text.
    VariantName,
    /// The extra data of the codec is not base64.
    Extradata,
}

impl MetaError {
    pub open spec fn spec_text(self, path: Seq<char>) -> Seq<char> {
        match self {
            MetaError::Parse => "parse "@ + path,
            MetaError::MissingText { key } => "missing or non-string '"@ + key@ + "' in "@ + path,
            MetaError::MissingInteger { key } => "missing or non-integer '"@ + key@ + "' in "@
                + path,
            MetaError::MissingNumber { key } => "missing or non-number '"@ + key@ + "' in "@
                + path,
            MetaError::OverflowsU32 { key } => "'"@ + key@ + "' overflows u32 in "@ + path,
            MetaError::OverflowsU16 { key } => "'"@ + key@ + "' overflows u16 in "@ + path,
            MetaError::SchemaVersion { found } => path + ": schema_version "@
                + text::decimal_text(found as nat) + " not supported (expected "@
                + text::decimal_text(SCHEMA_VERSION as nat)
                + "); delete the cache directory and re-prepare"@,
            MetaError::MissingVariants => "missing 'variants' array in "@ + path,
            MetaError::VariantName => "non-string element in 'variants' in "@ + path,
            MetaError::Extradata => "decode extradata_b64 in "@ + path,
        }
    }

    /// The error in words, with the file that it is about.
    pub fn text(self, path: &str) -> (text: String)
        ensures
            text@ == self.spec_text(path@),
    {
        match self {
            MetaError::Parse => concat("parse ", path, "", ""),
            MetaError::MissingText { key } => concat(
                "missing or non-string '",
                key,
                "' in ",
                path,
            ),
            MetaError::MissingInteger { key } => concat(
                "missing or non-integer '",
                key,
                "' in ",
                path,
            ),
            MetaError::MissingNumber { key } => concat(
                "missing or non-number '",
                key,
                "' in ",
                path,
            ),
            MetaError::OverflowsU32 { key } => concat("'", key, "' overflows u32 in ", path),
            MetaError::OverflowsU16 { key } => concat("'", key, "' overflows u16 in ", path),
            MetaError::SchemaVersion { found } => {
                let mut text: String = concat(path, ": schema_version ", "", "");
                push_decimal(&mut text, found as u64);
                text.append(" not supported (expected ");
                push_decimal(&mut text, SCHEMA_VERSION as u64);
                text.append("); delete the cache directory and re-prepare");
                text
            },
            MetaError::MissingVariants => concat("missing 'variants' array in ", path, "", ""),
            MetaError::VariantName => concat(
                "non-string element in 'variants' in ",
                path,
                "",
                "",
            ),
            MetaError::Extradata => concat("decode extradata_b64 in ", path, "", ""),
        }
    }
}

fn concat(a: &str, b: &str, c: &str, d: &str) -> (text: String)
    ensures
        text@ == a@ + b@ + c@ + d@,
        c@ == ""@ && d@ == ""@ ==> text@ == a@ + b@,
{
    let mut text: String = a.to_owned();
    text.append(b);
    text.append(c);
    text.append(d);
    proof {
        reveal_strlit("");
        if c@ == ""@ && d@ == ""@ {
            assert(a@ + b@ + c@ + d@ =~= a@ + b@);
        }
    }
    text
}

/// A member that is a text.
pub open spec fn text_field(document: Json, key: &'static str) -> Result<Seq<char>, MetaError> {
    match document.member(key@) {
        Some(Json::Text(text)) => Ok(text),
        _ => Err(MetaError::MissingText { key }),
    }
}

/// A member that is an unsigned integer.
pub open spec fn u64_field(document: Json, key: &'static str) -> Result<u64, MetaError> {
    match document.member(key@) {
        Some(Json::Unsigned(number)) => Ok(number),
        _ => Err(MetaError::MissingInteger { key }),
    }
}

/// A member that is an unsigned integer of 32 bits.
pub open spec fn u32_field(document: Json, key: &'static str) -> Result<u32, MetaError> {
    match u64_field(document, key) {
        Ok(number) => if number <= u32::MAX {
            Ok(number as u32)
        } else {
            Err(MetaError::OverflowsU32 { key })
        },
        Err(e) => Err(e),
    }
}

/// A member that is an unsigned integer of 16 bits.
pub open spec fn u16_field(document: Json, key: &'static str) -> Result<u16, MetaError> {
    match u64_field(document, key) {
        Ok(number) => if number <= u16::MAX {
            Ok(number as u16)
        } else {
            Err(MetaError::OverflowsU16 { key })
        },
        Err(e) => Err(e),
    }
}

/// A member that is a number.
pub open spec fn number_field(document: Json, key: &'static str) -> Result<Json, MetaError> {
    match document.member(key@) {
        Some(number) => if number.is_number() {
            Ok(number)
        } else {
            Err(MetaError::MissingNumber { key })
        },
        _ => Err(MetaError::MissingNumber { key }),
    }
}

fn field_str<'a>(document: &'a Value, key: &'static str) -> (result: Result<&'a str, MetaError>)
    ensures
        match (result, text_field(json::json(*document), key)) {
            (Ok(text), Ok(expected)) => text@ == expected,
            (Err(e), Err(expected)) => e == expected,
            _ => false,
        },
{
    if let Some(member) = json_member(document, key) {
        if let Some(text) = json_str(member) {
            return Ok(text);
        }
    }
    Err(MetaError::MissingText { key })
}

fn field_u64(document: &Value, key: &'static str) -> (result: Result<u64, MetaError>)
    ensures
        result == u64_field(json::json(*document), key),
{
    if let Some(member) = json_member(document, key) {
        if let Some(number) = json_unsigned(member) {
            return Ok(number);
        }
    }
    Err(MetaError::MissingInteger { key })
}

fn field_u32(document: &Value, key: &'static str) -> (result: Result<u32, MetaError>)
    ensures
        result == u32_field(json::json(*document), key),
{
    match field_u64(document, key) {
        Ok(number) => if number <= 0xffff_ffff {
            Ok(number as u32)
        } else {
            Err(MetaError::OverflowsU32 { key })
        },
        Err(e) => Err(e),
    }
}

fn field_u16(document: &Value, key: &'static str) -> (result: Result<u16, MetaError>)
    ensures
        result == u16_field(json::json(*document), key),
{
    match field_u64(document, key) {
        Ok(number) => if number <= 0xffff {
            Ok(number as u16)
        } else {
            Err(MetaError::OverflowsU16 { key })
        },
        Err(e) => Err(e),
    }
}

fn field_number(document: &Value, key: &'static str) -> (result: Result<Value, MetaError>)
    ensures
        match (result, number_field(json::json(*document), key)) {
            (Ok(number), Ok(expected)) => json::json(number) == expected,
            (Err(e), Err(expected)) => e == expected,
            _ => false,
        },
{
    if let Some(member) = json_member(document, key) {
        if json_is_number(member) {
            return Ok(member.clone());
        }
    }
    Err(MetaError::MissingNumber { key })
}

/// What a cache knows of a variant. The frame rate is a JSON number.
#[derive(Debug, Clone)]
pub struct VariantMeta {
    pub quality: String,
    pub width: u16,
    pub height: u16,
    pub bitrate_kbps: u32,
    pub framerate: Value,
    pub codec: String,
    pub extradata: Bytes,
}

/// What a [`VariantMeta`] stands for.
#[verifier::ext_equal]
pub struct VariantMetaView {
    pub quality: Seq<char>,
    pub width: u16,
    pub height: u16,
    pub bitrate_kbps: u32,
    pub framerate: Json,
    pub codec: Seq<char>,
    pub extradata: Seq<u8>,
}

impl View for VariantMeta {
    type V = VariantMetaView;

    open spec fn view(&self) -> VariantMetaView {
        VariantMetaView {
            quality: self.quality@,
            width: self.width,
            height: self.height,
            bitrate_kbps: self.bitrate_kbps,
            framerate: json::json(self.framerate),
            codec: self.codec@,
            extradata: payload::contents(self.extradata),
        }
    }
}

/// The metadata of a variant in a document. The first field that cannot be read
/// is the error.
pub open spec fn variant_meta(document: Json) -> Result<VariantMetaView, MetaError> {
    match (
        text_field(document, "quality"),
        u16_field(document, "width"),
        u16_field(document, "height"),
        u32_field(document, "bitrate_kbps"),
        number_field(document, "framerate"),
        text_field(document, "codec"),
        text_field(document, "extradata_b64"),
    ) {
        (Err(e), _, _, _, _, _, _) => Err(e),
        (_, Err(e), _, _, _, _, _) => Err(e),
        (_, _, Err(e), _, _, _, _) => Err(e),
        (_, _, _, Err(e), _, _, _) => Err(e),
        (_, _, _, _, Err(e), _, _) => Err(e),
        (_, _, _, _, _, Err(e), _) => Err(e),
        (_, _, _, _, _, _, Err(e)) => Err(e),
        (
            Ok(quality),
            Ok(width),
            Ok(height),
            Ok(bitrate_kbps),
            Ok(framerate),
            Ok(codec),
            Ok(extradata_b64),
        ) => match base64_data(extradata_b64) {
            None => Err(MetaError::Extradata),
            Some(extradata) => Ok(
                VariantMetaView {
                    quality,
                    width,
                    height,
                    bitrate_kbps,
                    framerate,
                    codec,
                    extradata,
                },
            ),
        },
    }
}

/// A result is the expected one.
pub open spec fn variant_result(
    result: Result<VariantMeta, MetaError>,
    expected: Result<VariantMetaView, MetaError>,
) -> bool {
    match (result, expected) {
        (Ok(meta), Ok(expected)) => meta@ == expected,
        (Err(e), Err(expected)) => e == expected,
        _ => false,
    }
}

/// Takes the metadata of a variant from a document.
pub fn variant_meta_of(document: &Value) -> (result: Result<VariantMeta, MetaError>)
    ensures
        variant_result(result, variant_meta(json::json(*document))),
{
    let quality: &str = match field_str(document, "quality") {
        Ok(quality) => quality,
        Err(e) => {
            return Err(e);
        },
    };
    let width: u16 = match field_u16(document, "width") {
        Ok(width) => width,
        Err(e) => {
            return Err(e);
        },
    };
    let height: u16 = match field_u16(document, "height") {
        Ok(height) => height,
        Err(e) => {
            return Err(e);
        },
    };
    let bitrate_kbps: u32 = match field_u32(document, "bitrate_kbps") {
        Ok(bitrate_kbps) => bitrate_kbps,
        Err(e) => {
            return Err(e);
        },
    };
    let framerate: Value = match field_number(document, "framerate") {
        Ok(framerate) => framerate,
        Err(e) => {
            return Err(e);
        },
    };
    let codec: &str = match field_str(document, "codec") {
        Ok(codec) => codec,
        Err(e) => {
            return Err(e);
        },
    };
    let extradata_b64: &str = match field_str(document, "extradata_b64") {
        Ok(extradata_b64) => extradata_b64,
        Err(e) => {
            return Err(e);
        },
    };
    match base64_decode(extradata_b64) {
        Ok(extradata) => Ok(
            VariantMeta {
                quality: quality.to_owned(),
                width,
                height,
                bitrate_kbps,
                framerate,
                codec: codec.to_owned(),
                extradata: bytes_from_vec(extradata),
            },
        ),
        Err(_) => Err(MetaError::Extradata),
    }
}

/// Reads the metadata of a variant.
pub fn read_variant_meta(text: &[u8]) -> (result: Result<VariantMeta, MetaError>)
    ensures
        variant_result(
            result,
            match json::json_text(text@) {
                Some(document) => variant_meta(document),
                None => Err(MetaError::Parse),
            },
        ),
{
    match json_parse(text) {
        Ok(document) => variant_meta_of(&document),
        Err(_) => Err(MetaError::Parse),
    }
}

/// The members of the document of a variant.
pub open spec fn variant_members(meta: VariantMetaView) -> Map<Seq<char>, Json> {
    json::no_members().insert("quality"@, Json::Text(meta.quality)).insert(
        "width"@,
        Json::Unsigned(meta.width as u64),
    ).insert("height"@, Json::Unsigned(meta.height as u64)).insert(
        "bitrate_kbps"@,
        Json::Unsigned(meta.bitrate_kbps as u64),
    ).insert("framerate"@, meta.framerate).insert("codec"@, Json::Text(meta.codec)).insert(
        "extradata_b64"@,
        Json::Text(base64_text(meta.extradata)),
    )
}

proof fn lemma_variant_keys()
    ensures
        "quality"@ != "width"@,
        "quality"@ != "height"@,
        "quality"@ != "bitrate_kbps"@,
        "quality"@ != "framerate"@,
        "quality"@ != "codec"@,
        "quality"@ != "extradata_b64"@,
        "width"@ != "height"@,
        "width"@ != "bitrate_kbps"@,
        "width"@ != "framerate"@,
        "width"@ != "codec"@,
        "width"@ != "extradata_b64"@,
        "height"@ != "bitrate_kbps"@,
        "height"@ != "framerate"@,
        "height"@ != "codec"@,
        "height"@ != "extradata_b64"@,
        "bitrate_kbps"@ != "framerate"@,
        "bitrate_kbps"@ != "codec"@,
        "bitrate_kbps"@ != "extradata_b64"@,
        "framerate"@ != "codec"@,
        "framerate"@ != "extradata_b64"@,
        "codec"@ != "extradata_b64"@,
{
    reveal_strlit("quality");
    reveal_strlit("width");
    reveal_strlit("height");
    reveal_strlit("bitrate_kbps");
    reveal_strlit("framerate");
    reveal_strlit("codec");
    reveal_strlit("extradata_b64");
    assert("quality"@[0] == 'q');
    assert("width"@[0] == 'w');
    assert("height"@[0] == 'h');
    assert("bitrate_kbps"@[0] == 'b');
    assert("framerate"@[0] == 'f');
    assert("codec"@[0] == 'c');
    assert("extradata_b64"@[0] == 'e');
}

/// The metadata of a variant is what is found in its document, and in whatever
/// is read back of it, but for a frame rate that reading may round.
pub proof fn law_variant_meta_round_trip(meta: VariantMetaView, read: Json)
    requires
        meta.framerate.is_number(),
        base64_data(base64_text(meta.extradata)) == Some(meta.extradata),
        Json::Object(variant_members(meta)).reads_back_as(read),
    ensures
        variant_meta(read) matches Ok(found) && {
            &&& found.framerate.is_number()
            &&& meta.framerate is Unsigned ==> found.framerate == meta.framerate
            &&& found == VariantMetaView { framerate: found.framerate, ..meta }
        },
{
    lemma_variant_keys();
    let written = variant_members(meta);
    let others = read->Object_0;
    assert(written["quality"@] == Json::Text(meta.quality));
    assert(written["width"@] == Json::Unsigned(meta.width as u64));
    assert(written["height"@] == Json::Unsigned(meta.height as u64));
    assert(written["bitrate_kbps"@] == Json::Unsigned(meta.bitrate_kbps as u64));
    assert(written["framerate"@] == meta.framerate);
    assert(written["codec"@] == Json::Text(meta.codec));
    assert(written["extradata_b64"@] == Json::Text(base64_text(meta.extradata)));
    assert(others["quality"@] == written["quality"@]);
    assert(others["width"@] == written["width"@]);
    assert(others["height"@] == written["height"@]);
    assert(others["bitrate_kbps"@] == written["bitrate_kbps"@]);
    assert(others["framerate"@].is_number());
    assert(others["codec"@] == written["codec"@]);
    assert(others["extradata_b64"@] == written["extradata_b64"@]);
}

/// Returns the document of a variant.
pub fn variant_document(meta: &VariantMeta) -> (document: Value)
    requires
        payload::contents(meta.extradata).len() <= usize::MAX / 4,
    ensures
        json::json(document) == Json::Object(variant_members(meta@)),
        base64_data(base64_text(meta@.extradata)) == Some(meta@.extradata),
{
    let mut members: serde_json::Map<String, Value> = json_object();
    json_insert(&mut members, "quality".to_owned(), json_from_str(meta.quality.as_str()));
    json_insert(&mut members, "width".to_owned(), json_from_unsigned(meta.width as u64));
    json_insert(&mut members, "height".to_owned(), json_from_unsigned(meta.height as u64));
    json_insert(
        &mut members,
        "bitrate_kbps".to_owned(),
        json_from_unsigned(meta.bitrate_kbps as u64),
    );
    json_insert(&mut members, "framerate".to_owned(), meta.framerate.clone());
    json_insert(&mut members, "codec".to_owned(), json_from_str(meta.codec.as_str()));
    let extradata_b64: String = base64_encode(bytes_as_slice(&meta.extradata));
    json_insert(
        &mut members,
        "extradata_b64".to_owned(),
        json_from_str(extradata_b64.as_str()),
    );
    json_from_object(members)
}

/// This is how metadata of a variant is written: with a number for its frame
/// rate, always. The same metadata is read back, but for a frame rate that
/// reading may round where it is no unsigned integer.
pub open spec fn writes_variant(
    meta: VariantMetaView,
    result: Result<Vec<u8>, serde_json::Error>,
) -> bool {
    &&& meta.framerate.is_number() ==> result is Ok
    &&& result matches Ok(text) ==> {
        &&& text@ == json::pretty_text(Json::Object(variant_members(meta)))
        &&& meta.framerate.is_number() ==> (json::json_text(text@) matches Some(read) && (
        variant_meta(read) matches Ok(found) && {
            &&& found.framerate.is_number()
            &&& meta.framerate is Unsigned ==> found.framerate == meta.framerate
            &&& found == VariantMetaView { framerate: found.framerate, ..meta }
        }))
    }
}

/// Returns the content of the metadata file of a variant. Its extradata must not
/// be too long for base64.
pub fn write_variant_meta(meta: &VariantMeta) -> (result: Result<Vec<u8>, serde_json::Error>)
    requires
        payload::contents(meta.extradata).len() <= usize::MAX / 4,
    ensures
        writes_variant(meta@, result),
{
    let document: Value = variant_document(meta);
    proof {
        if meta@.framerate.is_number() {
            lemma_variant_is_record(meta@);
        }
    }
    let result: Result<Vec<u8>, serde_json::Error> = json_print(&document);
    proof {
        if let Ok(text) = &result {
            if meta@.framerate.is_number() {
                law_variant_meta_round_trip(meta@, json::json_text(text@)->Some_0);
            }
        }
    }
    result
}

/// Returns the content of the metadata file of a variant, or nothing where its
/// extradata is too long for base64.
pub fn try_write_variant_meta(meta: &VariantMeta) -> (result: Option<
    Result<Vec<u8>, serde_json::Error>,
>)
    ensures
        match result {
            Some(written) => {
                &&& meta@.extradata.len() <= usize::MAX / 4
                &&& writes_variant(meta@, written)
            },
            None => meta@.extradata.len() > usize::MAX / 4,
        },
{
    if bytes_as_slice(&meta.extradata).len() <= usize::MAX / 4 {
        Some(write_variant_meta(meta))
    } else {
        None
    }
}

proof fn lemma_variant_is_record(meta: VariantMetaView)
    requires
        meta.framerate.is_number(),
    ensures
        Json::Object(variant_members(meta)).is_record(),
{
}

/// What a cache knows of itself. The frame rate is a JSON number.
#[derive(Debug, Clone)]
pub struct TopMeta {
    pub schema_version: u32,
    pub source_width: u16,
    pub source_height: u16,
    pub framerate: Value,
    pub target_latency_ms: u32,
    pub variants: Vec<String>,
    pub gops_per_variant: u64,
}

/// What a [`TopMeta`] stands for.
#[verifier::ext_equal]
pub struct TopMetaView {
    pub schema_version: u32,
    pub source_width: u16,
    pub source_height: u16,
    pub framerate: Json,
    pub target_latency_ms: u32,
    pub variants: Seq<Seq<char>>,
    pub gops_per_variant: u64,
}

impl View for TopMeta {
    type V = TopMetaView;

    open spec fn view(&self) -> TopMetaView {
        TopMetaView {
            schema_version: self.schema_version,
            source_width: self.source_width,
            source_height: self.source_height,
            framerate: json::json(self.framerate),
            target_latency_ms: self.target_latency_ms,
            variants: cache::views(self.variants@),
            gops_per_variant: self.gops_per_variant,
        }
    }
}

/// A list that consists of texts.
pub open spec fn texts(items: Seq<Json>) -> Result<Seq<Seq<char>>, MetaError> {
    if forall|i: int| 0 <= i < items.len() ==> (#[trigger] items[i]) is Text {
        Ok(Seq::new(items.len(), |i: int| items[i]->Text_0))
    } else {
        Err(MetaError::VariantName)
    }
}

/// The names of the variants in a document.
pub open spec fn variants_field(document: Json) -> Result<Seq<Seq<char>>, MetaError> {
    match document.member("variants"@) {
        Some(Json::List(items)) => texts(items),
        _ => Err(MetaError::MissingVariants),
    }
}

/// The metadata of a cache in a document. The first field that cannot be read,
/// or another version of the file formats, is the error.
pub open spec fn top_meta(document: Json) -> Result<TopMetaView, MetaError> {
    match u32_field(document, "schema_version") {
        Err(e) => Err(e),
        Ok(schema_version) => if schema_version != SCHEMA_VERSION {
            Err(MetaError::SchemaVersion { found: schema_version })
        } else {
            match (
                u16_field(document, "source_width"),
                u16_field(document, "source_height"),
                number_field(document, "framerate"),
                u32_field(document, "target_latency_ms"),
                u64_field(document, "gops_per_variant"),
                variants_field(document),
            ) {
                (Err(e), _, _, _, _, _) => Err(e),
                (_, Err(e), _, _, _, _) => Err(e),
                (_, _, Err(e), _, _, _) => Err(e),
                (_, _, _, Err(e), _, _) => Err(e),
                (_, _, _, _, Err(e), _) => Err(e),
                (_, _, _, _, _, Err(e)) => Err(e),
                (
                    Ok(source_width),
                    Ok(source_height),
                    Ok(framerate),
                    Ok(target_latency_ms),
                    Ok(gops_per_variant),
                    Ok(variants),
                ) => Ok(
                    TopMetaView {
                        schema_version,
                        source_width,
                        source_height,
                        framerate,
                        target_latency_ms,
                        variants,
                        gops_per_variant,
                    },
                ),
            }
        },
    }
}

/// A result is the expected one.
pub open spec fn top_result(
    result: Result<TopMeta, MetaError>,
    expected: Result<TopMetaView, MetaError>,
) -> bool {
    match (result, expected) {
        (Ok(meta), Ok(expected)) => meta@ == expected,
        (Err(e), Err(expected)) => e == expected,
        _ => false,
    }
}

fn field_variants(document: &Value) -> (result: Result<Vec<String>, MetaError>)
    ensures
        match (result, variants_field(json::json(*document))) {
            (Ok(variants), Ok(expected)) => cache::views(variants@) == expected,
            (Err(e), Err(expected)) => e == expected,
            _ => false,
        },
{
    let member: &Value = match json_member(document, "variants") {
        Some(member) => member,
        None => {
            return Err(MetaError::MissingVariants);
        },
    };
    let items: &Vec<Value> = match json_array(member) {
        Some(items) => items,
        None => {
            return Err(MetaError::MissingVariants);
        },
    };
    let ghost values = json::json_items(items@);
    let mut variants: Vec<String> = Vec::new();
    let mut i: usize = 0;
    while i < items.len()
        invariant
            i <= items@.len(),
            values == json::json_items(items@),
            variants_field(json::json(*document)) == texts(values),
            variants@.len() == i,
            forall|k: int|
                0 <= k < i ==> (#[trigger] values[k]) is Text && variants@[k]@ == values[k]->Text_0,
        decreases items@.len() - i,
    {
        proof {
            assert(values[i as int] == json::json(items@[i as int]));
        }
        match json_str(&items[i]) {
            Some(name) => {
                variants.push(name.to_owned());
            },
            None => {
                return Err(MetaError::VariantName);
            },
        }
        i = i + 1;
    }
    proof {
        assert(cache::views(variants@) =~= Seq::new(values.len(), |k: int| values[k]->Text_0));
    }
    Ok(variants)
}

/// Takes the metadata of a cache from a document.
pub fn top_meta_of(document: &Value) -> (result: Result<TopMeta, MetaError>)
    ensures
        top_result(result, top_meta(json::json(*document))),
{
    let schema_version: u32 = match field_u32(document, "schema_version") {
        Ok(schema_version) => schema_version,
        Err(e) => {
            return Err(e);
        },
    };
    if schema_version != SCHEMA_VERSION {
        return Err(MetaError::SchemaVersion { found: schema_version });
    }
    let source_width: u16 = match field_u16(document, "source_width") {
        Ok(source_width) => source_width,
        Err(e) => {
            return Err(e);
        },
    };
    let source_height: u16 = match field_u16(document, "source_height") {
        Ok(source_height) => source_height,
        Err(e) => {
            return Err(e);
        },
    };
    let framerate: Value = match field_number(document, "framerate") {
        Ok(framerate) => framerate,
        Err(e) => {
            return Err(e);
        },
    };
    let target_latency_ms: u32 = match field_u32(document, "target_latency_ms") {
        Ok(target_latency_ms) => target_latency_ms,
        Err(e) => {
            return Err(e);
        },
    };
    let gops_per_variant: u64 = match field_u64(document, "gops_per_variant") {
        Ok(gops_per_variant) => gops_per_variant,
        Err(e) => {
            return Err(e);
        },
    };
    let variants: Vec<String> = match field_variants(document) {
        Ok(variants) => variants,
        Err(e) => {
            return Err(e);
        },
    };
    Ok(
        TopMeta {
            schema_version,
            source_width,
            source_height,
            framerate,
            target_latency_ms,
            variants,
            gops_per_variant,
        },
    )
}

/// Reads the metadata of a cache.
pub fn read_top_meta(text: &[u8]) -> (result: Result<TopMeta, MetaError>)
    ensures
        top_result(
            result,
            match json::json_text(text@) {
                Some(document) => top_meta(document),
                None => Err(MetaError::Parse),
            },
        ),
{
    match json_parse(text) {
        Ok(document) => top_meta_of(&document),
        Err(_) => Err(MetaError::Parse),
    }
}

/// A list of texts.
pub open spec fn text_list(texts: Seq<Seq<char>>) -> Json {
    Json::List(Seq::new(texts.len(), |i: int| Json::Text(texts[i])))
}

/// The members of the document of a cache.
pub open spec fn top_members(meta: TopMetaView) -> Map<Seq<char>, Json> {
    json::no_members().insert(
        "schema_version"@,
        Json::Unsigned(meta.schema_version as u64),
    ).insert("source_width"@, Json::Unsigned(meta.source_width as u64)).insert(
        "source_height"@,
        Json::Unsigned(meta.source_height as u64),
    ).insert("framerate"@, meta.framerate).insert(
        "target_latency_ms"@,
        Json::Unsigned(meta.target_latency_ms as u64),
    ).insert("variants"@, text_list(meta.variants)).insert(
        "gops_per_variant"@,
        Json::Unsigned(meta.gops_per_variant),
    )
}

proof fn lemma_top_keys()
    ensures
        "schema_version"@ != "source_width"@,
        "schema_version"@ != "source_height"@,
        "schema_version"@ != "framerate"@,
        "schema_version"@ != "target_latency_ms"@,
        "schema_version"@ != "variants"@,
        "schema_version"@ != "gops_per_variant"@,
        "source_width"@ != "source_height"@,
        "source_width"@ != "framerate"@,
        "source_width"@ != "target_latency_ms"@,
        "source_width"@ != "variants"@,
        "source_width"@ != "gops_per_variant"@,
        "source_height"@ != "framerate"@,
        "source_height"@ != "target_latency_ms"@,
        "source_height"@ != "variants"@,
        "source_height"@ != "gops_per_variant"@,
        "framerate"@ != "target_latency_ms"@,
        "framerate"@ != "variants"@,
        "framerate"@ != "gops_per_variant"@,
        "target_latency_ms"@ != "variants"@,
        "target_latency_ms"@ != "gops_per_variant"@,
        "variants"@ != "gops_per_variant"@,
{
    reveal_strlit("schema_version");
    reveal_strlit("source_width");
    reveal_strlit("source_height");
    reveal_strlit("framerate");
    reveal_strlit("target_latency_ms");
    reveal_strlit("variants");
    reveal_strlit("gops_per_variant");
    assert("schema_version"@[1] == 'c');
    assert("source_width"@[1] == 'o');
    assert("source_height"@[1] == 'o');
    assert("source_width"@[7] == 'w');
    assert("source_height"@[7] == 'h');
    assert("schema_version"@[0] == 's');
    assert("source_width"@[0] == 's');
    assert("source_height"@[0] == 's');
    assert("framerate"@[0] == 'f');
    assert("target_latency_ms"@[0] == 't');
    assert("variants"@[0] == 'v');
    assert("gops_per_variant"@[0] == 'g');
}

/// The metadata of a cache is what is found in its document, and in whatever is
/// read back of it, but for a frame rate that reading may round.
pub proof fn law_top_meta_round_trip(meta: TopMetaView, read: Json)
    requires
        meta.schema_version == SCHEMA_VERSION,
        meta.framerate.is_number(),
        Json::Object(top_members(meta)).reads_back_as(read),
    ensures
        top_meta(read) matches Ok(found) && {
            &&& found.framerate.is_number()
            &&& meta.framerate is Unsigned ==> found.framerate == meta.framerate
            &&& found == TopMetaView { framerate: found.framerate, ..meta }
        },
{
    lemma_top_keys();
    let written = top_members(meta);
    let others = read->Object_0;
    assert(written["schema_version"@] == Json::Unsigned(meta.schema_version as u64));
    assert(written["source_width"@] == Json::Unsigned(meta.source_width as u64));
    assert(written["source_height"@] == Json::Unsigned(meta.source_height as u64));
    assert(written["framerate"@] == meta.framerate);
    assert(written["target_latency_ms"@] == Json::Unsigned(meta.target_latency_ms as u64));
    assert(written["variants"@] == text_list(meta.variants));
    assert(written["gops_per_variant"@] == Json::Unsigned(meta.gops_per_variant));
    assert(others["schema_version"@] == written["schema_version"@]);
    assert(others["source_width"@] == written["source_width"@]);
    assert(others["source_height"@] == written["source_height"@]);
    assert(others["framerate"@].is_number());
    assert(others["target_latency_ms"@] == written["target_latency_ms"@]);
    assert(others["variants"@] == written["variants"@]);
    assert(others["gops_per_variant"@] == written["gops_per_variant"@]);
    assert(texts(text_list(meta.variants)->List_0)->Ok_0 =~= meta.variants);
}

/// Metadata of a cache that was written with another version of the file formats
/// is refused where it is read back, and the error names that version.
pub proof fn law_written_with_another_version_is_refused(meta: TopMetaView, read: Json)
    requires
        meta.schema_version != SCHEMA_VERSION,
        meta.framerate.is_number(),
        Json::Object(top_members(meta)).reads_back_as(read),
    ensures
        top_meta(read) == Err::<TopMetaView, MetaError>(
            MetaError::SchemaVersion { found: meta.schema_version },
        ),
{
    lemma_top_keys();
    let written = top_members(meta);
    let others = read->Object_0;
    assert(written["schema_version"@] == Json::Unsigned(meta.schema_version as u64));
    assert(others["schema_version"@] == written["schema_version"@]);
    law_other_schema_versions_are_refused(read, meta.schema_version);
}

/// A cache whose metadata names another version of the file formats is refused,
/// whatever else it holds.
pub proof fn law_other_schema_versions_are_refused(document: Json, version: u32)
    requires
        version != SCHEMA_VERSION,
        document.member("schema_version"@) == Some(Json::Unsigned(version as u64)),
    ensures
        top_meta(document) == Err::<TopMetaView, MetaError>(
            MetaError::SchemaVersion { found: version },
        ),
{
}

fn list_of(names: &Vec<String>) -> (value: Value)
    ensures
        json::json(value) == text_list(cache::views(names@)),
{
    let mut items: Vec<Value> = Vec::new();
    let mut i: usize = 0;
    while i < names.len()
        invariant
            i <= names@.len(),
            items@.len() == i,
            forall|k: int| 0 <= k < i ==> json::json(#[trigger] items@[k]) == Json::Text(names@[k]@),
        decreases names@.len() - i,
    {
        items.push(json_from_str(names[i].as_str()));
        i = i + 1;
    }
    proof {
        assert(Json::List(json::json_items(items@)) == text_list(cache::views(names@))) by {
            assert(json::json_items(items@) =~= text_list(cache::views(names@))->List_0);
        }
    }
    json_from_list(items)
}

/// Returns the document of a cache.
pub fn top_document(meta: &TopMeta) -> (document: Value)
    ensures
        json::json(document) == Json::Object(top_members(meta@)),
{
    let mut members: serde_json::Map<String, Value> = json_object();
    json_insert(
        &mut members,
        "schema_version".to_owned(),
        json_from_unsigned(meta.schema_version as u64),
    );
    json_insert(
        &mut members,
        "source_width".to_owned(),
        json_from_unsigned(meta.source_width as u64),
    );
    json_insert(
        &mut members,
        "source_height".to_owned(),
        json_from_unsigned(meta.source_height as u64),
    );
    json_insert(&mut members, "framerate".to_owned(), meta.framerate.clone());
    json_insert(
        &mut members,
        "target_latency_ms".to_owned(),
        json_from_unsigned(meta.target_latency_ms as u64),
    );
    json_insert(&mut members, "variants".to_owned(), list_of(&meta.variants));
    json_insert(
        &mut members,
        "gops_per_variant".to_owned(),
        json_from_unsigned(meta.gops_per_variant),
    );
    json_from_object(members)
}

/// How the metadata of a cache is put in place: written to one file, which is
/// then renamed. So the metadata is there either whole or not at all.
#[derive(Debug, Clone)]
pub struct AtomicWrite {
    /// The file to write and to sync.
    pub tmp_path: String,
    /// What to write.
    pub content: Vec<u8>,
    /// What the file is then renamed to.
    pub final_path: String,
}

/// What reading gives of the metadata of a cache that was written: with the
/// current version of the file formats the same metadata, but for a frame rate
/// that reading may round where it is no unsigned integer; with another version
/// the error that names it.
pub open spec fn reads_top(meta: TopMetaView, result: Result<TopMetaView, MetaError>) -> bool {
    if meta.schema_version == SCHEMA_VERSION {
        result matches Ok(found) && {
            &&& found.framerate.is_number()
            &&& meta.framerate is Unsigned ==> found.framerate == meta.framerate
            &&& found == TopMetaView { framerate: found.framerate, ..meta }
        }
    } else {
        result == Err::<TopMetaView, MetaError>(
            MetaError::SchemaVersion { found: meta.schema_version },
        )
    }
}

/// Plans how the metadata of a cache is written below its root. With a number
/// for its frame rate it can always be written and read.
pub fn write_top_meta_atomic(root: &str, meta: &TopMeta) -> (result: Result<
    AtomicWrite,
    serde_json::Error,
>)
    ensures
        meta@.framerate.is_number() ==> result is Ok,
        result matches Ok(write) ==> {
            &&& write.tmp_path@ == cache::joined(root@, "meta.json.tmp"@)
            &&& write.final_path@ == cache::joined(root@, "meta.json"@)
            &&& write.content@ == json::pretty_text(Json::Object(top_members(meta@)))
            &&& meta@.framerate.is_number() ==> (json::json_text(write.content@) matches Some(read)
                && reads_top(meta@, top_meta(read)))
        },
{
    let document: Value = top_document(meta);
    proof {
        if meta@.framerate.is_number() {
            lemma_top_is_record(meta@);
        }
    }
    match json_print(&document) {
        Ok(content) => {
            proof {
                if meta@.framerate.is_number() {
                    let read = json::json_text(content@)->Some_0;
                    if meta@.schema_version == SCHEMA_VERSION {
                        law_top_meta_round_trip(meta@, read);
                    } else {
                        law_written_with_another_version_is_refused(meta@, read);
                    }
                }
            }
            Ok(
                AtomicWrite {
                    tmp_path: join(root, "meta.json.tmp"),
                    content,
                    final_path: join(root, "meta.json"),
                },
            )
        },
        Err(e) => Err(e),
    }
}

proof fn lemma_top_is_record(meta: TopMetaView)
    requires
        meta.framerate.is_number(),
    ensures
        Json::Object(top_members(meta)).is_record(),
{
    assert(text_list(meta.variants).is_plain());
}

/// A variant is written member by member, under the names of its fields. The extra data
/// is written in base64, and nothing else is written.
pub proof fn law_variant_is_written_by_name(meta: VariantMetaView, key: Seq<char>)
    ensures
        ({
            let members = variant_members(meta);
            &&& members["quality"@] == Json::Text(meta.quality)
            &&& members["width"@] == Json::Unsigned(meta.width as u64)
            &&& members["height"@] == Json::Unsigned(meta.height as u64)
            &&& members["bitrate_kbps"@] == Json::Unsigned(meta.bitrate_kbps as u64)
            &&& members["framerate"@] == meta.framerate
            &&& members["codec"@] == Json::Text(meta.codec)
            &&& members["extradata_b64"@] == Json::Text(base64_text(meta.extradata))
            &&& members.dom().contains(key) <==> key == "quality"@ || key == "width"@ || key
                == "height"@ || key == "bitrate_kbps"@ || key == "framerate"@ || key == "codec"@
                || key == "extradata_b64"@
        }),
{
    lemma_variant_keys();
}

/// A variant that is read holds what the document's members of those names hold.
pub proof fn law_variant_is_read_by_name(document: Json)
    ensures
        variant_meta(document) matches Ok(meta) ==> {
            &&& document.member("quality"@) == Some(Json::Text(meta.quality))
            &&& document.member("width"@) == Some(Json::Unsigned(meta.width as u64))
            &&& document.member("height"@) == Some(Json::Unsigned(meta.height as u64))
            &&& document.member("bitrate_kbps"@) == Some(Json::Unsigned(meta.bitrate_kbps as u64))
            &&& document.member("framerate"@) == Some(meta.framerate)
            &&& meta.framerate is Unsigned || meta.framerate is OtherNumber
            &&& document.member("codec"@) == Some(Json::Text(meta.codec))
            &&& document.member("extradata_b64"@) matches Some(Json::Text(text)) && base64_data(
                text,
            ) == Some(meta.extradata)
        },
{
}

/// A document that has every member, of its kind and within its range, is read.
pub proof fn law_complete_variant_is_read(document: Json, width: u64, height: u64, rate: u64)
    requires
        document.member("quality"@) matches Some(Json::Text(_)),
        document.member("width"@) == Some(Json::Unsigned(width)),
        document.member("height"@) == Some(Json::Unsigned(height)),
        document.member("bitrate_kbps"@) == Some(Json::Unsigned(rate)),
        document.member("framerate"@) matches Some(number) && (number is Unsigned
            || number is OtherNumber),
        document.member("codec"@) matches Some(Json::Text(_)),
        document.member("extradata_b64"@) matches Some(Json::Text(text)) && base64_data(
            text,
        ) is Some,
    ensures
        variant_meta(document) is Ok <==> width <= 65_535 && height <= 65_535 && rate
            <= 4_294_967_295,
        width > 65_535 ==> variant_meta(document) == Err::<VariantMetaView, MetaError>(
            MetaError::OverflowsU16 { key: "width" },
        ),
        width <= 65_535 && height > 65_535 ==> variant_meta(document) == Err::<
            VariantMetaView,
            MetaError,
        >(MetaError::OverflowsU16 { key: "height" }),
        width <= 65_535 && height <= 65_535 && rate > 4_294_967_295 ==> variant_meta(document)
            == Err::<VariantMetaView, MetaError>(MetaError::OverflowsU32 { key: "bitrate_kbps" }),
{
}

/// A member that is missing is named in the error, the first one where several are.
pub proof fn law_missing_variant_member_is_named(document: Json)
    ensures
        ({
            let result = variant_meta(document);
            let quality = document.member("quality"@) matches Some(Json::Text(_));
            let codec = document.member("codec"@) matches Some(Json::Text(_));
            &&& !quality ==> result == Err::<VariantMetaView, MetaError>(
                MetaError::MissingText { key: "quality" },
            )
            &&& quality && document.member("width"@) is None ==> result == Err::<
                VariantMetaView,
                MetaError,
            >(MetaError::MissingInteger { key: "width" })
            &&& document.member("height"@) is None ==> result is Err
            &&& document.member("bitrate_kbps"@) is None ==> result is Err
            &&& document.member("framerate"@) is None ==> result is Err
            &&& !codec ==> result is Err
            &&& document.member("extradata_b64"@) is None ==> result is Err
        }),
{
}

/// The summary is written member by member, under the names of its fields, and nothing
/// else is written.
pub proof fn law_top_is_written_by_name(meta: TopMetaView, key: Seq<char>, i: int)
    ensures
        ({
            let members = top_members(meta);
            &&& members["schema_version"@] == Json::Unsigned(meta.schema_version as u64)
            &&& members["source_width"@] == Json::Unsigned(meta.source_width as u64)
            &&& members["source_height"@] == Json::Unsigned(meta.source_height as u64)
            &&& members["framerate"@] == meta.framerate
            &&& members["target_latency_ms"@] == Json::Unsigned(meta.target_latency_ms as u64)
            &&& members["gops_per_variant"@] == Json::Unsigned(meta.gops_per_variant)
            &&& members["variants"@] matches Json::List(items) && items.len()
                == meta.variants.len() && (0 <= i < items.len() ==> items[i] == Json::Text(
                meta.variants[i],
            ))
            &&& members.dom().contains(key) <==> key == "schema_version"@ || key
                == "source_width"@ || key == "source_height"@ || key == "framerate"@ || key
                == "target_latency_ms"@ || key == "gops_per_variant"@ || key == "variants"@
        }),
{
    lemma_top_keys();
}

/// A summary that is read holds what the document's members of those names hold, and is
/// of the one version that is supported.
pub proof fn law_top_is_read_by_name(document: Json, i: int)
    ensures
        top_meta(document) matches Ok(meta) ==> {
            &&& meta.schema_version == 1
            &&& document.member("schema_version"@) == Some(Json::Unsigned(1))
            &&& document.member("source_width"@) == Some(Json::Unsigned(meta.source_width as u64))
            &&& document.member("source_height"@) == Some(
                Json::Unsigned(meta.source_height as u64),
            )
            &&& document.member("framerate"@) == Some(meta.framerate)
            &&& meta.framerate is Unsigned || meta.framerate is OtherNumber
            &&& document.member("target_latency_ms"@) == Some(
                Json::Unsigned(meta.target_latency_ms as u64),
            )
            &&& document.member("gops_per_variant"@) == Some(
                Json::Unsigned(meta.gops_per_variant),
            )
            &&& document.member("variants"@) matches Some(Json::List(items)) && items.len()
                == meta.variants.len() && (0 <= i < items.len() ==> items[i] == Json::Text(
                meta.variants[i],
            ))
        },
{
}

/// A document of the supported version that has every member, of its kind and within its
/// range, is read.
pub proof fn law_complete_top_is_read(
    document: Json,
    width: u64,
    height: u64,
    latency: u64,
    items: Seq<Json>,
)
    requires
        document.member("schema_version"@) == Some(Json::Unsigned(1)),
        document.member("source_width"@) == Some(Json::Unsigned(width)),
        document.member("source_height"@) == Some(Json::Unsigned(height)),
        document.member("framerate"@) matches Some(number) && (number is Unsigned
            || number is OtherNumber),
        document.member("target_latency_ms"@) == Some(Json::Unsigned(latency)),
        document.member("gops_per_variant"@) matches Some(Json::Unsigned(_)),
        document.member("variants"@) == Some(Json::List(items)),
    ensures
        top_meta(document) is Ok <==> width <= 65_535 && height <= 65_535 && latency
            <= 4_294_967_295 && forall|i: int|
            0 <= i < items.len() ==> (#[trigger] items[i]) is Text,
        width <= 65_535 && height <= 65_535 && latency <= 4_294_967_295 && top_meta(
            document,
        ) is Err ==> top_meta(document) == Err::<TopMetaView, MetaError>(MetaError::VariantName),
        width > 65_535 ==> top_meta(document) == Err::<TopMetaView, MetaError>(
            MetaError::OverflowsU16 { key: "source_width" },
        ),
{
}

} // verus!
