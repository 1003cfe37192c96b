use bytes::Bytes;
use moqtail::decoder::{any_alive, GopAssembler};
use moqtail::encoder::{
    build_encoder_opts, detect_hardware_encoder, encoder_name_for, find_vaapi_device, ChunkStamp,
    ChunkStamper, EncodedGop, EncoderProbes, HardwareEncoder, PendingGop,
};

#[test]
fn test_encoded_gop_uses_packets_field() {
    let gop = EncodedGop { group_id: 0, packets: vec![] };
    assert_eq!(gop.packets.len(), 0);
}

fn none() -> EncoderProbes {
    EncoderProbes {
        nvenc: false,
        amf: false,
        qsv: false,
        vaapi_device: None,
        vaapi: false,
        videotoolbox: false,
    }
}

#[test]
fn hardware_encoders_have_an_order_of_preference() {
    let device = Some("/dev/dri/renderD128".to_string());
    let all = EncoderProbes {
        nvenc: true,
        amf: true,
        qsv: true,
        vaapi_device: device.clone(),
        vaapi: true,
        videotoolbox: true,
    };
    let name = |probes: EncoderProbes| encoder_name_for(&detect_hardware_encoder(probes));
    assert_eq!(name(all.clone()), "hevc_nvenc");
    assert_eq!(name(EncoderProbes { nvenc: false, ..all.clone() }), "hevc_amf");
    assert_eq!(name(EncoderProbes { nvenc: false, amf: false, ..all.clone() }), "hevc_qsv");
    assert_eq!(
        name(EncoderProbes { vaapi_device: device, vaapi: true, videotoolbox: true, ..none() }),
        "hevc_vaapi"
    );
    assert_eq!(name(EncoderProbes { videotoolbox: true, ..none() }), "hevc_videotoolbox");
    assert_eq!(name(EncoderProbes { vaapi: true, ..none() }), "libx265");
    assert_eq!(name(none()), "libx265");
}

#[test]
fn vaapi_carries_its_device() {
    let mut existing = [false; 8];
    assert_eq!(find_vaapi_device(existing), None);
    existing[1] = true;
    existing[3] = true;
    let device = find_vaapi_device(existing);
    assert_eq!(device, Some("/dev/dri/renderD129".to_string()));
    match detect_hardware_encoder(EncoderProbes { vaapi_device: device, vaapi: true, ..none() }) {
        Some(HardwareEncoder::Vaapi(path)) => assert_eq!(path, "/dev/dri/renderD129"),
        other => panic!("expected VA-API, got {other:?}"),
    }
}

fn opts(name: &str, kbps: u32) -> Vec<(String, String)> {
    build_encoder_opts(name, kbps)
}

fn pairs(list: &[(&str, &str)]) -> Vec<(String, String)> {
    list.iter().map(|(k, v)| (k.to_string(), v.to_string())).collect()
}

#[test]
fn each_encoder_has_its_options() {
    assert_eq!(
        opts("libx265", 4000),
        pairs(&[
            ("preset", "medium"),
            ("tune", "zerolatency"),
            ("profile", "main"),
            (
                "x265-params",
                "scenecut=0:open-gop=0:bframes=0:rc-lookahead=0:vbv-bufsize=8000:\
                 vbv-maxrate=4000:pools=4:frame-threads=1"
            ),
        ])
    );
    assert_eq!(opts("hevc_nvenc", 500).len(), 7);
    assert_eq!(opts("hevc_nvenc", 500)[5], ("forced-idr".to_string(), "1".to_string()));
    assert_eq!(
        opts("hevc_amf", 500),
        pairs(&[
            ("usage", "ultralowlatency"),
            ("quality", "speed"),
            ("rc", "cbr"),
            ("bf", "0"),
            ("enforce_hrd", "1"),
        ])
    );
    assert_eq!(
        opts("hevc_qsv", 500),
        pairs(&[
            ("preset", "medium"),
            ("look_ahead", "0"),
            ("async_depth", "1"),
            ("rc_mode", "cbr"),
            ("bf", "0"),
        ])
    );
    assert_eq!(opts("hevc_vaapi", 500), pairs(&[("rc_mode", "CBR"), ("bf", "0")]));
    assert_eq!(
        opts("hevc_videotoolbox", 500),
        pairs(&[("realtime", "1"), ("profile", "main"), ("allow_sw", "0")])
    );
    assert_eq!(opts("other", 500), vec![]);
}

#[test]
fn chunks_are_stamped_in_sequence() {
    let mut stamper = ChunkStamper::new(3000);
    assert_eq!(
        stamper.stamp_frame(0, 30, 0),
        ChunkStamp { sequence_number: 0, decode_time: 0, sample_duration: 3000, is_keyframe: true }
    );
    assert_eq!(
        stamper.stamp_frame(2, 30, 5),
        ChunkStamp {
            sequence_number: 1,
            decode_time: 65 * 3000,
            sample_duration: 3000,
            is_keyframe: false
        }
    );
    assert_eq!(stamper.stamp_flushed(Some(66)).decode_time, 66 * 3000);
    let last = stamper.stamp_flushed(None);
    assert_eq!((last.sequence_number, last.decode_time, last.is_keyframe), (3, 0, false));
    let mut stamper = ChunkStamper::new(1);
    assert_eq!(stamper.stamp_flushed(Some(-1)).decode_time, u64::MAX);
    assert_eq!(stamper.stamp_flushed(Some(i64::MIN)).decode_time, 1 << 63);
}

fn gop(group_id: u64, packet: &'static [u8]) -> EncodedGop {
    EncodedGop { group_id, packets: vec![Bytes::from_static(packet)] }
}

#[test]
fn flushed_packets_go_to_the_last_group() {
    let mut pending = PendingGop::new();
    assert!(pending.replace(gop(0, b"a")).is_none());
    assert_eq!(pending.replace(gop(1, b"b")).unwrap().group_id, 0);
    let last = pending.finish(vec![Bytes::from_static(b"c")]).unwrap();
    assert_eq!(last.group_id, 1);
    assert_eq!(last.packets, vec![Bytes::from_static(b"b"), Bytes::from_static(b"c")]);
    assert!(PendingGop::new().finish(vec![Bytes::from_static(b"c")]).is_none());
}

#[test]
fn frames_are_put_together_to_groups() {
    let mut assembler = GopAssembler::new(2);
    let frame = |n: u8| Bytes::from(vec![n]);
    assert!(assembler.push(frame(0)).is_none());
    let first = assembler.push(frame(1)).unwrap();
    assert_eq!((first.gop_id, first.frames), (0, vec![frame(0), frame(1)]));
    assert!(assembler.push(frame(2)).is_none());
    let rest = assembler.finish().unwrap();
    assert_eq!((rest.gop_id, rest.frames.clone()), (1, vec![frame(2)]));
    assert_eq!(rest.clone().frames.len(), 1);
    assert!(assembler.finish().is_none());
    assert!(assembler.push(frame(3)).is_none());
    assert_eq!(assembler.push(frame(4)).unwrap().gop_id, 2);
}

#[test]
fn a_group_size_of_zero_sends_every_frame_alone() {
    let mut assembler = GopAssembler::new(0);
    assert_eq!(assembler.push(Bytes::new()).unwrap().frames.len(), 1);
    assert_eq!(assembler.push(Bytes::new()).unwrap().gop_id, 1);
}

#[test]
fn decoding_goes_on_while_anyone_listens() {
    assert!(any_alive(&vec![false, true, false]));
    assert!(!any_alive(&vec![false, false]));
    assert!(!any_alive(&vec![]));
}

#[test]
fn a_whole_pass_is_cut_into_groups() {
    let frames = |range: std::ops::Range<u8>| -> Vec<Bytes> {
        range.map(|n| Bytes::from(vec![n])).collect()
    };
    let mut assembler = GopAssembler::new(2);
    let gops = assembler.take_pass(frames(0..5));
    let ids: Vec<u64> = gops.iter().map(|gop| gop.gop_id).collect();
    assert_eq!(ids, vec![0, 1, 2]);
    assert_eq!(gops[0].frames, frames(0..2));
    assert_eq!(gops[1].frames, frames(2..4));
    assert_eq!(gops[2].frames, frames(4..5));
    let gops = assembler.take_pass(frames(0..4));
    let ids: Vec<u64> = gops.iter().map(|gop| gop.gop_id).collect();
    assert_eq!(ids, vec![3, 4]);
    assert!(gops.iter().all(|gop| gop.frames.len() == 2));
    assert!(assembler.take_pass(Vec::new()).is_empty());
    assert_eq!(GopAssembler::new(0).take_pass(frames(0..3)).len(), 3);
}
