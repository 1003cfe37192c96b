use bytes::Bytes;
use moqtail::cache::{
    gop_count, gop_path, is_complete, read_gop, variant_dir, write_gop, GopError, SCHEMA_VERSION,
};
use moqtail::encoder::EncodedGop;
use moqtail::metadata::{
    read_top_meta, read_variant_meta, try_write_variant_meta, write_top_meta_atomic,
    write_variant_meta, TopMeta, VariantMeta,
};
use serde_json::Value;

fn names(list: &[&str]) -> Vec<String> {
    list.iter().map(|s| s.to_string()).collect()
}

fn sample_top_meta() -> TopMeta {
    TopMeta {
        schema_version: SCHEMA_VERSION,
        source_width: 1920,
        source_height: 1080,
        framerate: Value::from(30.0),
        target_latency_ms: 1500,
        variants: names(&["1080p", "720p"]),
        gops_per_variant: 30,
    }
}

fn sample_variant_meta() -> VariantMeta {
    VariantMeta {
        quality: "1080p".to_string(),
        width: 1920,
        height: 1080,
        bitrate_kbps: 4000,
        framerate: Value::from(29.97),
        codec: "hev1.1.6.L120.B0".to_string(),
        extradata: Bytes::from((0u32..512u32).map(|i| (i & 0xFF) as u8).collect::<Vec<u8>>()),
    }
}

#[test]
fn test_gop_round_trip_byte_equal() {
    let gop = EncodedGop {
        group_id: 42,
        packets: vec![
            Bytes::from_static(b"\x00\x01\x02\x03"),
            Bytes::from_static(b"hello"),
            Bytes::from(vec![0x55u8; 1000]),
        ],
    };
    let file = write_gop(&gop).unwrap();
    let read = read_gop(&file, 42).unwrap();
    assert_eq!(read.group_id, 42);
    assert_eq!(read.packets.len(), gop.packets.len());
    for (a, b) in read.packets.iter().zip(gop.packets.iter()) {
        assert_eq!(a.as_ref(), b.as_ref());
    }
}

#[test]
fn test_gop_empty_packets() {
    let gop = EncodedGop { group_id: 0, packets: vec![] };
    let file = write_gop(&gop).unwrap();
    let read = read_gop(&file, 0).unwrap();
    assert_eq!(read.group_id, 0);
    assert!(read.packets.is_empty());
}

#[test]
fn test_variant_meta_round_trip() {
    let extradata: Vec<u8> = (0u32..512u32).map(|i| (i & 0xFF) as u8).collect();
    let text = write_variant_meta(&sample_variant_meta()).unwrap();
    let read = read_variant_meta(&text).unwrap();
    assert_eq!(read.quality, "1080p");
    assert_eq!(read.width, 1920);
    assert_eq!(read.height, 1080);
    assert_eq!(read.bitrate_kbps, 4000);
    assert!((read.framerate.as_f64().unwrap() - 29.97).abs() < 1e-9);
    assert_eq!(read.codec, "hev1.1.6.L120.B0");
    assert_eq!(read.extradata.as_ref(), extradata.as_slice());
}

#[test]
fn test_top_meta_atomic_write_no_partial() {
    let write = write_top_meta_atomic("/cache", &sample_top_meta()).unwrap();
    assert_eq!(write.tmp_path, "/cache/meta.json.tmp");
    assert_eq!(write.final_path, "/cache/meta.json");
    let read = read_top_meta(&write.content).unwrap();
    assert_eq!(read.variants, vec!["1080p".to_string(), "720p".to_string()]);
    assert_eq!(read.gops_per_variant, 30);
    assert_eq!(read.schema_version, SCHEMA_VERSION);
    assert_eq!((read.source_width, read.source_height), (1920, 1080));
    assert_eq!(read.target_latency_ms, 1500);
    assert_eq!(read.framerate.as_f64(), Some(30.0));
}

#[test]
fn test_is_complete_requires_meta_json() {
    assert!(!is_complete(&names(&["1080p"])));
    assert!(!is_complete(&names(&["1080p", "meta.json.tmp"])));
    assert!(is_complete(&names(&["1080p", "meta.json"])));
    assert!(!is_complete(&vec![]));
}

#[test]
fn test_gop_count_zero_padded_naming() {
    let files = names(&[
        "000000.gop",
        "000001.gop",
        "000002.gop",
        "0.gop",
        "notgop.txt",
        "variant.json",
    ]);
    assert_eq!(gop_count(&files), 3);
    assert_eq!(gop_count(&names(&["00000é.gop", "1000000.gop", "00000a.gop", "000000.gox"])), 0);
    assert_eq!(gop_count(&vec![]), 0);
}

#[test]
fn test_read_top_meta_rejects_wrong_schema_version() {
    let mut meta = sample_top_meta();
    meta.schema_version = 999;
    let write = write_top_meta_atomic("", &meta).unwrap();
    let err = read_top_meta(&write.content).unwrap_err();
    let msg = err.text("meta.json");
    assert!(msg.contains("schema_version"), "msg = {msg}");
    assert_eq!(
        msg,
        "meta.json: schema_version 999 not supported (expected 1); delete the cache directory \
         and re-prepare"
    );
}

#[test]
fn gop_files_have_a_fixed_layout() {
    let gop = EncodedGop {
        group_id: 1,
        packets: vec![Bytes::from_static(b"ab"), Bytes::new(), Bytes::from(vec![7u8; 258])],
    };
    let file = write_gop(&gop).unwrap();
    assert_eq!(&file[..14], &[3, 0, 0, 0, 2, 0, 0, 0, b'a', b'b', 0, 0, 0, 0]);
    assert_eq!(&file[14..18], &[2, 1, 0, 0]);
    assert_eq!(file.len(), 18 + 258);
}

#[test]
fn gop_files_may_be_longer_but_not_shorter() {
    let gop = EncodedGop { group_id: 1, packets: vec![Bytes::from_static(b"abc")] };
    let mut file = write_gop(&gop).unwrap();
    for len in 0..4 {
        assert_eq!(read_gop(&file[..len], 1).unwrap_err(), GopError::ReadPacketCount);
    }
    for len in 4..8 {
        assert_eq!(read_gop(&file[..len], 1).unwrap_err(), GopError::ReadPacketLength);
    }
    for len in 8..11 {
        assert_eq!(read_gop(&file[..len], 1).unwrap_err(), GopError::ReadPacketPayload);
    }
    file.push(99);
    assert_eq!(read_gop(&file, 7).unwrap().packets.len(), 1);
    assert_eq!(read_gop(&file, 7).unwrap().group_id, 7);
    let absurd = [0xffu8, 0xff, 0xff, 0xff, 0xff, 0xff, 0xff, 0xff];
    assert_eq!(read_gop(&absurd, 1).unwrap_err(), GopError::ReadPacketPayload);
    assert_eq!(GopError::ReadPacketLength.text("x.gop"), "read packet_len at x.gop");
    assert_eq!(GopError::PacketCountOverflow.text("x"), "packet_count overflow at x");
    assert_eq!(GopError::PacketLengthOverflow.text("x"), "packet length overflow at x");
    assert_eq!(GopError::ReadPacketPayload.text("x"), "read packet payload at x");
    assert_eq!(GopError::ReadPacketCount.text("x"), "read packet_count at x");
}

#[test]
fn paths_are_joined_as_the_file_system_joins_them() {
    assert_eq!(variant_dir("/cache", "720p"), "/cache/720p");
    assert_eq!(variant_dir("/cache/", "720p"), "/cache/720p");
    assert_eq!(variant_dir("", "720p"), "720p");
    assert_eq!(variant_dir("/cache", "/abs"), "/abs");
    assert_eq!(variant_dir("/cache", ""), "/cache/");
    assert_eq!(gop_path("/cache/720p", 0), "/cache/720p/000000.gop");
    assert_eq!(gop_path("v", 123), "v/000123.gop");
    assert_eq!(gop_path("v", 1_234_567), "v/1234567.gop");
    for (base, part) in [("/cache", "720p"), ("a/", "b"), ("", "c"), ("x", "/y"), ("x", "")] {
        assert_eq!(
            variant_dir(base, part),
            std::path::Path::new(base).join(part).to_str().unwrap()
        );
    }
}

fn variant_error(text: &str) -> String {
    read_variant_meta(text.as_bytes()).unwrap_err().text("variant.json")
}

#[test]
fn broken_variant_metadata_names_the_first_fault() {
    assert_eq!(variant_error("{"), "parse variant.json");
    assert_eq!(
        variant_error("[1]"),
        "missing or non-string 'quality' in variant.json"
    );
    assert_eq!(
        variant_error("{\"quality\": 1}"),
        "missing or non-string 'quality' in variant.json"
    );
    assert_eq!(
        variant_error("{\"quality\": \"q\", \"width\": -1}"),
        "missing or non-integer 'width' in variant.json"
    );
    assert_eq!(
        variant_error("{\"quality\": \"q\", \"width\": 65536}"),
        "'width' overflows u16 in variant.json"
    );
    assert_eq!(
        variant_error(
            "{\"quality\": \"q\", \"width\": 1, \"height\": 2, \"bitrate_kbps\": 4294967296}"
        ),
        "'bitrate_kbps' overflows u32 in variant.json"
    );
    assert_eq!(
        variant_error(
            "{\"quality\": \"q\", \"width\": 1, \"height\": 2, \"bitrate_kbps\": 3, \
             \"framerate\": \"x\"}"
        ),
        "missing or non-number 'framerate' in variant.json"
    );
    assert_eq!(
        variant_error(
            "{\"quality\": \"q\", \"width\": 1, \"height\": 2, \"bitrate_kbps\": 3, \
             \"framerate\": 25, \"codec\": \"c\", \"extradata_b64\": \"?\"}"
        ),
        "decode extradata_b64 in variant.json"
    );
}

#[test]
fn extradata_is_kept_as_base64() {
    let mut meta = sample_variant_meta();
    meta.extradata = Bytes::from_static(b"hi!?");
    meta.framerate = Value::from(25u64);
    let text = String::from_utf8(write_variant_meta(&meta).unwrap()).unwrap();
    assert!(text.contains("\"extradata_b64\": \"aGkhPw==\""), "text = {text}");
    assert!(text.contains("\"framerate\": 25"), "text = {text}");
    let read = read_variant_meta(text.as_bytes()).unwrap();
    assert_eq!(read.extradata.as_ref(), b"hi!?");
    assert_eq!(read.framerate.as_u64(), Some(25));
    assert_eq!(try_write_variant_meta(&meta).unwrap().unwrap(), text.as_bytes());
    let copy = read.clone();
    assert_eq!(copy.extradata.as_ref(), b"hi!?");
    assert_eq!(copy.framerate.as_u64(), Some(25));
}

fn top_error(text: &str) -> String {
    read_top_meta(text.as_bytes()).unwrap_err().text("meta.json")
}

#[test]
fn broken_cache_metadata_names_the_first_fault() {
    let head = "\"schema_version\": 1, \"source_width\": 1, \"source_height\": 2, \
                \"framerate\": 30, \"target_latency_ms\": 5, \"gops_per_variant\": 6";
    assert_eq!(top_error("nothing"), "parse meta.json");
    assert_eq!(
        top_error("{}"),
        "missing or non-integer 'schema_version' in meta.json"
    );
    assert_eq!(
        top_error(&format!("{{{head}}}")),
        "missing 'variants' array in meta.json"
    );
    assert_eq!(
        top_error(&format!("{{{head}, \"variants\": \"720p\"}}")),
        "missing 'variants' array in meta.json"
    );
    assert_eq!(
        top_error(&format!("{{{head}, \"variants\": [\"720p\", 3]}}")),
        "non-string element in 'variants' in meta.json"
    );
    let ok = read_top_meta(format!("{{{head}, \"variants\": []}}").as_bytes()).unwrap();
    assert_eq!(ok.variants.len(), 0);
    assert_eq!(ok.gops_per_variant, 6);
}

/// The largest and the smallest finite numbers, and many in between.
fn frame_rates() -> Vec<f64> {
    let mut rates = vec![0.0, -0.0, 29.97, -29.97, 1e15, 1e16, 1e17, f64::MIN, f64::MIN_POSITIVE];
    for step in 0..3000u64 {
        rates.push(f64::from_bits(f64::MAX.to_bits() - step));
        rates.push(f64::from_bits(1 + step));
    }
    let mut bits = 1u64;
    for _ in 0..20000 {
        bits = bits.wrapping_mul(6364136223846793005).wrapping_add(1442695040888963407);
        let rate = f64::from_bits(bits);
        if rate.is_finite() {
            rates.push(rate);
        }
    }
    rates
}

#[test]
fn every_frame_rate_can_be_read_back() {
    for rate in frame_rates() {
        let mut top = sample_top_meta();
        top.framerate = Value::from(rate);
        let write = write_top_meta_atomic("out", &top).unwrap();
        let read = read_top_meta(&write.content).unwrap();
        assert!(read.framerate.is_number(), "{rate}");
        assert_eq!(read.source_width, 1920);
        assert_eq!(read.source_height, 1080);
        assert_eq!(read.target_latency_ms, 1500);
        assert_eq!(read.variants, names(&["1080p", "720p"]));
        assert_eq!(read.gops_per_variant, 30);

        top.schema_version = 7;
        let write = write_top_meta_atomic("out", &top).unwrap();
        assert_eq!(
            read_top_meta(&write.content).unwrap_err().text("meta.json"),
            "meta.json: schema_version 7 not supported (expected 1); \
             delete the cache directory and re-prepare"
        );
    }
    let mut variant = sample_variant_meta();
    variant.extradata = Bytes::from_static(b"extra");
    for rate in [f64::MAX, f64::MIN, f64::from_bits(1), 59.94] {
        variant.framerate = Value::from(rate);
        let read = read_variant_meta(&write_variant_meta(&variant).unwrap()).unwrap();
        assert_eq!(read.framerate.as_f64(), Some(rate));
        assert_eq!(read.quality, "1080p");
        assert_eq!(read.extradata.as_ref(), b"extra");
    }
    variant.framerate = Value::from(-5i64);
    let read = read_variant_meta(&write_variant_meta(&variant).unwrap()).unwrap();
    assert_eq!(read.framerate.as_i64(), Some(-5));
}

#[test]
fn gop_files_sort_in_the_order_of_their_groups() {
    let indices = [0u64, 1, 9, 10, 99, 100, 12345, 99999, 100000, 999999];
    for pair in indices.windows(2) {
        assert!(gop_path("v", pair[0]) < gop_path("v", pair[1]), "{pair:?}");
    }
}
