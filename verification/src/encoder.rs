//! Encoders, and the groups of pictures that they give.

use crate::payload;
use crate::text::{self, push_decimal};
use bytes::Bytes;
use vstd::prelude::*;

verus! {

/// An encoded group of pictures.
#[derive(Debug, Clone)]
pub struct EncodedGop {
    pub group_id: u64,
    pub packets: Vec<Bytes>,
}

/// What each packet holds.
pub open spec fn packet_contents(packets: Seq<Bytes>) -> Seq<Seq<u8>> {
    Seq::new(packets.len(), |i: int| payload::contents(packets[i]))
}

/// A hardware encoder.
#[derive(Debug, Clone)]
pub enum HardwareEncoder {
    Nvenc,
    Amf,
    Qsv,
    /// VA-API, on a render device.
    Vaapi(String),
    VideoToolbox,
}

/// Which encoders could be opened on this machine. VA-API is tried on the first
/// render device that there is.
#[derive(Debug, Clone)]
pub struct EncoderProbes {
    pub nvenc: bool,
    pub amf: bool,
    pub qsv: bool,
    pub vaapi_device: Option<String>,
    pub vaapi: bool,
    pub videotoolbox: bool,
}

/// Whether an encoder, or none, is what the probes call for.
pub open spec fn is_detected(probes: EncoderProbes, encoder: Option<HardwareEncoder>) -> bool {
    match encoder {
        Some(HardwareEncoder::Nvenc) => probes.nvenc,
        Some(HardwareEncoder::Amf) => probes.amf && !probes.nvenc,
        Some(HardwareEncoder::Qsv) => probes.qsv && !probes.amf && !probes.nvenc,
        Some(HardwareEncoder::Vaapi(device)) => probes.vaapi && probes.vaapi_device == Some(device)
            && !probes.qsv && !probes.amf && !probes.nvenc,
        Some(HardwareEncoder::VideoToolbox) => probes.videotoolbox && !(probes.vaapi
            && probes.vaapi_device is Some) && !probes.qsv && !probes.amf && !probes.nvenc,
        None => !probes.nvenc && !probes.amf && !probes.qsv && !(probes.vaapi
            && probes.vaapi_device is Some) && !probes.videotoolbox,
    }
}

/// Picks a hardware encoder among those that could be opened: NVENC before AMF
/// before Quick Sync before VA-API before VideoToolbox.
pub fn detect_hardware_encoder(probes: EncoderProbes) -> (encoder: Option<HardwareEncoder>)
    ensures
        encoder == if probes.nvenc {
            Some(HardwareEncoder::Nvenc)
        } else if probes.amf {
            Some(HardwareEncoder::Amf)
        } else if probes.qsv {
            Some(HardwareEncoder::Qsv)
        } else if probes.vaapi && probes.vaapi_device is Some {
            Some(HardwareEncoder::Vaapi(probes.vaapi_device->0))
        } else if probes.videotoolbox {
            Some(HardwareEncoder::VideoToolbox)
        } else {
            None
        },
        is_detected(probes, encoder),
{
    if probes.nvenc {
        return Some(HardwareEncoder::Nvenc);
    }
    if probes.amf {
        return Some(HardwareEncoder::Amf);
    }
    if probes.qsv {
        return Some(HardwareEncoder::Qsv);
    }
    if probes.vaapi {
        if let Some(device) = probes.vaapi_device {
            return Some(HardwareEncoder::Vaapi(device));
        }
    }
    if probes.videotoolbox {
        return Some(HardwareEncoder::VideoToolbox);
    }
    None
}

/// The number of the first render device.
pub const FIRST_RENDER_DEVICE: u64 = 128;

/// The path of a render device.
pub open spec fn render_device_path(number: nat) -> Seq<char> {
    "/dev/dri/renderD"@ + text::decimal_text(number)
}

/// Returns the path of a render device, counted from the first.
pub fn render_device(index: u8) -> (path: String)
    ensures
        path@ == render_device_path((FIRST_RENDER_DEVICE + index) as nat),
{
    let mut path: String = "/dev/dri/renderD".to_owned();
    push_decimal(&mut path, FIRST_RENDER_DEVICE + index as u64);
    path
}

/// Returns the first render device of the eight that are looked for, given which
/// of them exist.
pub fn find_vaapi_device(exists_at: [bool; 8]) -> (device: Option<String>)
    ensures
        match device {
            Some(path) => exists|i: int|
                0 <= i < 8 && #[trigger] exists_at@[i] && path@ == render_device_path(
                    (FIRST_RENDER_DEVICE + i) as nat,
                ) && forall|k: int| 0 <= k < i ==> !#[trigger] exists_at@[k],
            None => forall|k: int| 0 <= k < 8 ==> !#[trigger] exists_at@[k],
        },
{
    let mut i: usize = 0;
    while i < 8
        invariant
            i <= 8,
            forall|k: int| 0 <= k < i ==> !#[trigger] exists_at@[k],
        decreases 8 - i,
    {
        if exists_at[i] {
            let device: String = render_device(i as u8);
            proof {
                assert(exists_at@[i as int]);
            }
            return Some(device);
        }
        i = i + 1;
    }
    None
}

/// The name of the encoder to open.
pub open spec fn encoder_name(encoder: Option<HardwareEncoder>) -> Seq<char> {
    match encoder {
        Some(HardwareEncoder::Nvenc) => "hevc_nvenc"@,
        Some(HardwareEncoder::Amf) => "hevc_amf"@,
        Some(HardwareEncoder::Qsv) => "hevc_qsv"@,
        Some(HardwareEncoder::Vaapi(_)) => "hevc_vaapi"@,
        Some(HardwareEncoder::VideoToolbox) => "hevc_videotoolbox"@,
        None => "libx265"@,
    }
}

/// Returns the name of the encoder to open: the one of the hardware, or the
/// software encoder where there is none.
pub fn encoder_name_for(encoder: &Option<HardwareEncoder>) -> (name: &'static str)
    ensures
        name@ == encoder_name(*encoder),
{
    match encoder {
        Some(HardwareEncoder::Nvenc) => "hevc_nvenc",
        Some(HardwareEncoder::Amf) => "hevc_amf",
        Some(HardwareEncoder::Qsv) => "hevc_qsv",
        Some(HardwareEncoder::Vaapi(_)) => "hevc_vaapi",
        Some(HardwareEncoder::VideoToolbox) => "hevc_videotoolbox",
        None => "libx265",
    }
}

/// The parameters of the software encoder: a buffer of two seconds, and no more
/// than the bitrate.
pub open spec fn x265_params(bitrate_kbps: u32) -> Seq<char> {
    "scenecut=0:open-gop=0:bframes=0:rc-lookahead=0:vbv-bufsize="@ + text::decimal_text(
        (bitrate_kbps * 2) as nat,
    ) + ":vbv-maxrate="@ + text::decimal_text(bitrate_kbps as nat)
        + ":pools=4:frame-threads=1"@
}

/// The options of an encoder. An encoder that is not known has none.
pub open spec fn encoder_opts(name: Seq<char>, bitrate_kbps: u32) -> Seq<(Seq<char>, Seq<char>)> {
    if name == "libx265"@ {
        seq![
            ("preset"@, "medium"@),
            ("tune"@, "zerolatency"@),
            ("profile"@, "main"@),
            ("x265-params"@, x265_params(bitrate_kbps)),
        ]
    } else if name == "hevc_nvenc"@ {
        seq![
            ("preset"@, "p4"@),
            ("tune"@, "ll"@),
            ("rc"@, "cbr"@),
            ("cbr"@, "1"@),
            ("bf"@, "0"@),
            ("forced-idr"@, "1"@),
            ("strict_gop"@, "1"@),
        ]
    } else if name == "hevc_amf"@ {
        seq![
            ("usage"@, "ultralowlatency"@),
            ("quality"@, "speed"@),
            ("rc"@, "cbr"@),
            ("bf"@, "0"@),
            ("enforce_hrd"@, "1"@),
        ]
    } else if name == "hevc_qsv"@ {
        seq![
            ("preset"@, "medium"@),
            ("look_ahead"@, "0"@),
            ("async_depth"@, "1"@),
            ("rc_mode"@, "cbr"@),
            ("bf"@, "0"@),
        ]
    } else if name == "hevc_vaapi"@ {
        seq![("rc_mode"@, "CBR"@), ("bf"@, "0"@)]
    } else if name == "hevc_videotoolbox"@ {
        seq![("realtime"@, "1"@), ("profile"@, "main"@), ("allow_sw"@, "0"@)]
    } else {
        Seq::empty()
    }
}

/// What a list of options stands for.
pub open spec fn opts_view(opts: Seq<(String, String)>) -> Seq<(Seq<char>, Seq<char>)> {
    Seq::new(opts.len(), |i: int| (opts[i].0@, opts[i].1@))
}

fn set(opts: &mut Vec<(String, String)>, key: &str, value: &str)
    ensures
        opts_view(final(opts)@) == opts_view(old(opts)@).push((key@, value@)),
{
    let ghost before = opts_view(opts@);
    opts.push((key.to_owned(), value.to_owned()));
    proof {
        assert(opts_view(opts@) =~= before.push((key@, value@)));
    }
}

fn same_text(a: &str, b: &str) -> (same: bool)
    ensures
        same == (a@ == b@),
{
    a.to_owned() == b.to_owned()
}

/// Returns the options of an encoder for a bitrate.
pub fn build_encoder_opts(name: &str, bitrate_kbps: u32) -> (opts: Vec<(String, String)>)
    requires
        bitrate_kbps * 2 <= u32::MAX,
    ensures
        opts_view(opts@) == encoder_opts(name@, bitrate_kbps),
{
    let mut opts: Vec<(String, String)> = Vec::new();
    let vbv_bufsize: u32 = bitrate_kbps * 2;
    if same_text(name, "libx265") {
        let mut params: String =
            "scenecut=0:open-gop=0:bframes=0:rc-lookahead=0:vbv-bufsize=".to_owned();
        push_decimal(&mut params, vbv_bufsize as u64);
        params.append(":vbv-maxrate=");
        push_decimal(&mut params, bitrate_kbps as u64);
        params.append(":pools=4:frame-threads=1");
        set(&mut opts, "preset", "medium");
        set(&mut opts, "tune", "zerolatency");
        set(&mut opts, "profile", "main");
        set(&mut opts, "x265-params", params.as_str());
    } else if same_text(name, "hevc_nvenc") {
        set(&mut opts, "preset", "p4");
        set(&mut opts, "tune", "ll");
        set(&mut opts, "rc", "cbr");
        set(&mut opts, "cbr", "1");
        set(&mut opts, "bf", "0");
        set(&mut opts, "forced-idr", "1");
        set(&mut opts, "strict_gop", "1");
    } else if same_text(name, "hevc_amf") {
        set(&mut opts, "usage", "ultralowlatency");
        set(&mut opts, "quality", "speed");
        set(&mut opts, "rc", "cbr");
        set(&mut opts, "bf", "0");
        set(&mut opts, "enforce_hrd", "1");
    } else if same_text(name, "hevc_qsv") {
        set(&mut opts, "preset", "medium");
        set(&mut opts, "look_ahead", "0");
        set(&mut opts, "async_depth", "1");
        set(&mut opts, "rc_mode", "cbr");
        set(&mut opts, "bf", "0");
    } else if same_text(name, "hevc_vaapi") {
        set(&mut opts, "rc_mode", "CBR");
        set(&mut opts, "bf", "0");
    } else if same_text(name, "hevc_videotoolbox") {
        set(&mut opts, "realtime", "1");
        set(&mut opts, "profile", "main");
        set(&mut opts, "allow_sw", "0");
    }
    proof {
        assert(opts_view(opts@) =~= encoder_opts(name@, bitrate_kbps));
    }
    opts
}

/// How an encoded chunk is stamped.
#[derive(Debug, Clone, Copy, PartialEq, Eq, Structural)]
pub struct ChunkStamp {
    pub sequence_number: u32,
    pub decode_time: u64,
    pub sample_duration: u32,
    pub is_keyframe: bool,
}

/// The number of a frame since the start, given its group, the size of a group
/// and its place in the group.
pub open spec fn global_frame(gop_id: u64, gop_frames: u32, frame_index: u64) -> int {
    gop_id * gop_frames + frame_index
}

/// The frame that a presentation time stamp names. One without a stamp is the
/// first; one with a negative stamp counts down from 2^64.
pub open spec fn flushed_frame(pts: Option<i64>) -> int {
    match pts {
        Some(pts) => if pts < 0 {
            0x1_0000_0000_0000_0000 + pts
        } else {
            pts as int
        },
        None => 0,
    }
}

/// Stamps the chunks of an encoder one after the other.
#[derive(Debug, Clone, Copy)]
pub struct ChunkStamper {
    sequence_number: u32,
    sample_duration: u32,
}

impl ChunkStamper {
    /// How many chunks have been stamped.
    pub closed spec fn stamped(&self) -> u32 {
        self.sequence_number
    }

    pub closed spec fn duration(&self) -> u32 {
        self.sample_duration
    }

    /// Starts with sequence number zero.
    pub fn new(sample_duration: u32) -> (stamper: ChunkStamper)
        ensures
            stamper.stamped() == 0,
            stamper.duration() == sample_duration,
    {
        ChunkStamper { sequence_number: 0, sample_duration }
    }

    /// Stamps a chunk that the encoder gave for a frame. Only the first frame of
    /// a group is a key frame.
    pub fn stamp_frame(&mut self, gop_id: u64, gop_frames: u32, frame_index: u64) -> (stamp:
        ChunkStamp)
        requires
            old(self).stamped() < u32::MAX,
            global_frame(gop_id, gop_frames, frame_index) <= u64::MAX,
            global_frame(gop_id, gop_frames, frame_index) * old(self).duration() <= u64::MAX,
        ensures
            stamp == (ChunkStamp {
                sequence_number: old(self).stamped(),
                decode_time: (global_frame(gop_id, gop_frames, frame_index) * old(
                    self,
                ).duration()) as u64,
                sample_duration: old(self).duration(),
                is_keyframe: frame_index == 0,
            }),
            final(self).stamped() == old(self).stamped() + 1,
            final(self).duration() == old(self).duration(),
    {
        proof {
            assert(gop_id * gop_frames >= 0) by (nonlinear_arith)
                requires
                    gop_id >= 0,
                    gop_frames >= 0,
            ;
        }
        let frame: u64 = gop_id * gop_frames as u64 + frame_index;
        self.stamp(frame, frame_index == 0)
    }

    /// Stamps a chunk that the encoder gave when it was flushed, at the time of
    /// its presentation time stamp.
    pub fn stamp_flushed(&mut self, pts: Option<i64>) -> (stamp: ChunkStamp)
        requires
            old(self).stamped() < u32::MAX,
            flushed_frame(pts) * old(self).duration() <= u64::MAX,
        ensures
            stamp == (ChunkStamp {
                sequence_number: old(self).stamped(),
                decode_time: (flushed_frame(pts) * old(self).duration()) as u64,
                sample_duration: old(self).duration(),
                is_keyframe: false,
            }),
            final(self).stamped() == old(self).stamped() + 1,
            final(self).duration() == old(self).duration(),
    {
        let frame: u64 = match pts {
            Some(pts) => if pts < 0 {
                u64::MAX - (-(pts + 1)) as u64
            } else {
                pts as u64
            },
            None => 0,
        };
        self.stamp(frame, false)
    }

    fn stamp(&mut self, frame: u64, is_keyframe: bool) -> (stamp: ChunkStamp)
        requires
            old(self).stamped() < u32::MAX,
            frame * old(self).duration() <= u64::MAX,
        ensures
            stamp == (ChunkStamp {
                sequence_number: old(self).stamped(),
                decode_time: (frame * old(self).duration()) as u64,
                sample_duration: old(self).duration(),
                is_keyframe,
            }),
            final(self).stamped() == old(self).stamped() + 1,
            final(self).duration() == old(self).duration(),
    {
        proof {
            assert(frame * self.sample_duration >= 0) by (nonlinear_arith)
                requires
                    frame >= 0,
                    self.sample_duration >= 0,
            ;
        }
        let stamp: ChunkStamp = ChunkStamp {
            sequence_number: self.sequence_number,
            decode_time: frame * self.sample_duration as u64,
            sample_duration: self.sample_duration,
            is_keyframe,
        };
        self.sequence_number = self.sequence_number + 1;
        stamp
    }
}

/// Decode times rise from frame to frame, within a group and from one group to
/// the next.
pub proof fn law_decode_times_rise(
    gop_frames: u32,
    duration: u32,
    a: (u64, u64),
    b: (u64, u64),
)
    requires
        duration > 0,
        a.1 < gop_frames,
        b.1 < gop_frames,
        a.0 < b.0 || (a.0 == b.0 && a.1 < b.1),
    ensures
        global_frame(a.0, gop_frames, a.1) * duration < global_frame(b.0, gop_frames, b.1)
            * duration,
{
    let fa = global_frame(a.0, gop_frames, a.1);
    let fb = global_frame(b.0, gop_frames, b.1);
    if a.0 < b.0 {
        assert(a.0 * gop_frames + gop_frames <= b.0 * gop_frames) by (nonlinear_arith)
            requires
                a.0 < b.0,
                gop_frames > 0,
        ;
    }
    assert(fa * duration < fb * duration) by (nonlinear_arith)
        requires
            fa < fb,
            duration > 0,
    ;
}

/// Holds back the last group of an encoder, which may still get the packets that
/// come when the encoder is flushed.
pub struct PendingGop {
    pending: Option<EncodedGop>,
}

impl PendingGop {
    pub closed spec fn held(&self) -> Option<EncodedGop> {
        self.pending
    }

    /// Starts with no group.
    pub fn new() -> (pending: PendingGop)
        ensures
            pending.held() is None,
    {
        PendingGop { pending: None }
    }

    /// Holds back a group. Returns the one before it, which is to be sent.
    pub fn replace(&mut self, gop: EncodedGop) -> (previous: Option<EncodedGop>)
        ensures
            previous == old(self).held(),
            final(self).held() == Some(gop),
    {
        let mut slot: Option<EncodedGop> = Some(gop);
        std::mem::swap(&mut slot, &mut self.pending);
        slot
    }

    /// Ends the encoding. Returns the last group, which is to be sent, with the
    /// packets that came when the encoder was flushed at its end. Without a group
    /// these packets are dropped.
    pub fn finish(self, flushed: Vec<Bytes>) -> (last: Option<EncodedGop>)
        ensures
            match (self.held(), last) {
                (Some(held), Some(gop)) => {
                    &&& gop.group_id == held.group_id
                    &&& gop.packets@ == held.packets@ + flushed@
                },
                (None, None) => true,
                _ => false,
            },
    {
        match self.pending {
            Some(gop) => {
                let mut gop: EncodedGop = gop;
                let mut flushed: Vec<Bytes> = flushed;
                gop.packets.append(&mut flushed);
                Some(gop)
            },
            None => None,
        }
    }
}

proof fn lemma_names_differ()
    ensures
        "hevc_nvenc"@ != "hevc_amf"@,
        "hevc_nvenc"@ != "hevc_qsv"@,
        "hevc_nvenc"@ != "hevc_vaapi"@,
        "hevc_nvenc"@ != "hevc_videotoolbox"@,
        "hevc_nvenc"@ != "libx265"@,
        "hevc_amf"@ != "hevc_qsv"@,
        "hevc_amf"@ != "hevc_vaapi"@,
        "hevc_amf"@ != "hevc_videotoolbox"@,
        "hevc_amf"@ != "libx265"@,
        "hevc_qsv"@ != "hevc_vaapi"@,
        "hevc_qsv"@ != "hevc_videotoolbox"@,
        "hevc_qsv"@ != "libx265"@,
        "hevc_vaapi"@ != "hevc_videotoolbox"@,
        "hevc_vaapi"@ != "libx265"@,
        "hevc_videotoolbox"@ != "libx265"@,
{
    reveal_strlit("hevc_nvenc");
    reveal_strlit("hevc_amf");
    reveal_strlit("hevc_qsv");
    reveal_strlit("hevc_vaapi");
    reveal_strlit("hevc_videotoolbox");
    reveal_strlit("libx265");
    assert("hevc_nvenc"@.len() == 10);
    assert("hevc_amf"@.len() == 8);
    assert("hevc_qsv"@.len() == 8);
    assert("hevc_vaapi"@.len() == 10);
    assert("hevc_videotoolbox"@.len() == 17);
    assert("libx265"@.len() == 7);
    assert("hevc_amf"@[5] != "hevc_qsv"@[5]);
    assert("hevc_nvenc"@[5] != "hevc_vaapi"@[5]);
}

/// Hardware is preferred to software wherever a probe found some, in a fixed order, and a
/// VAAPI encoder works on the device that was found.
pub proof fn law_hardware_is_preferred(probes: EncoderProbes, encoder: Option<HardwareEncoder>)
    requires
        is_detected(probes, encoder),
    ensures
        probes.nvenc ==> encoder matches Some(HardwareEncoder::Nvenc),
        probes.amf && !probes.nvenc ==> encoder matches Some(HardwareEncoder::Amf),
        probes.qsv && !probes.amf && !probes.nvenc ==> encoder matches Some(HardwareEncoder::Qsv),
        probes.vaapi && probes.vaapi_device is Some && !probes.qsv && !probes.amf && !probes.nvenc
            ==> encoder matches Some(HardwareEncoder::Vaapi(_)),
        probes.videotoolbox && !probes.vaapi && !probes.qsv && !probes.amf && !probes.nvenc
            ==> encoder matches Some(HardwareEncoder::VideoToolbox),
        !probes.nvenc && !probes.amf && !probes.qsv && !probes.vaapi && !probes.videotoolbox
            ==> encoder is None,
        probes.nvenc || probes.amf || probes.qsv || probes.videotoolbox ==> encoder is Some,
        probes.vaapi && probes.vaapi_device is Some ==> encoder is Some,
        encoder matches Some(HardwareEncoder::Vaapi(device)) ==> probes.vaapi_device == Some(
            device,
        ),
        encoder is None ==> !probes.nvenc && !probes.amf && !probes.qsv && !probes.videotoolbox,
{
}

/// Encoders are called apart, and those in hardware are the ones whose name begins with
/// `hevc_`.
pub proof fn law_encoders_are_called_apart(
    a: Option<HardwareEncoder>,
    b: Option<HardwareEncoder>,
)
    ensures
        a is Some <==> encoder_name(a).take(5) == seq!['h', 'e', 'v', 'c', '_'],
        encoder_name(a) == encoder_name(b) ==> {
            &&& a is None <==> b is None
            &&& (a matches Some(HardwareEncoder::Nvenc)) == (b matches Some(
                HardwareEncoder::Nvenc,
            ))
            &&& (a matches Some(HardwareEncoder::Amf)) == (b matches Some(HardwareEncoder::Amf))
            &&& (a matches Some(HardwareEncoder::Qsv)) == (b matches Some(HardwareEncoder::Qsv))
            &&& (a matches Some(HardwareEncoder::Vaapi(_))) == (b matches Some(
                HardwareEncoder::Vaapi(_),
            ))
        },
{
    lemma_names_differ();
    reveal_strlit("hevc_nvenc");
    reveal_strlit("hevc_amf");
    reveal_strlit("hevc_qsv");
    reveal_strlit("hevc_vaapi");
    reveal_strlit("hevc_videotoolbox");
    reveal_strlit("libx265");
    if a is Some {
        assert(encoder_name(a).take(5) =~= seq!['h', 'e', 'v', 'c', '_']);
    } else {
        assert(encoder_name(a).take(5)[0] == 'l');
    }
}

/// Only the software encoder is told the bitrate in its options. No other encoder than
/// those that are known has any.
pub proof fn law_only_software_is_told_the_bitrate(name: Seq<char>, a: u32, b: u32)
    ensures
        name != "libx265"@ ==> encoder_opts(name, a) == encoder_opts(name, b),
        encoder_opts(name, a).len() > 0 <==> exists|encoder: Option<HardwareEncoder>|
            name == #[trigger] encoder_name(encoder),
        name == "libx265"@ ==> encoder_opts(name, a).contains(
            ("x265-params"@, x265_params(a)),
        ),
{
    if name == "libx265"@ {
        assert(encoder_opts(name, a)[3] == ("x265-params"@, x265_params(a)));
        assert(name == encoder_name(None));
    } else if name == "hevc_nvenc"@ {
        assert(name == encoder_name(Some(HardwareEncoder::Nvenc)));
    } else if name == "hevc_amf"@ {
        assert(name == encoder_name(Some(HardwareEncoder::Amf)));
    } else if name == "hevc_qsv"@ {
        assert(name == encoder_name(Some(HardwareEncoder::Qsv)));
    } else if name == "hevc_vaapi"@ {
        let device: String = arbitrary();
        assert(name == encoder_name(Some(HardwareEncoder::Vaapi(device))));
    } else if name == "hevc_videotoolbox"@ {
        assert(name == encoder_name(Some(HardwareEncoder::VideoToolbox)));
    }
}

/// A hardware encoder that can be told so makes no bidirectional frames.
pub proof fn law_hardware_makes_no_bidirectional_frames(encoder: HardwareEncoder, rate: u32)
    ensures
        !(encoder is VideoToolbox) ==> encoder_opts(encoder_name(Some(encoder)), rate).contains(
            ("bf"@, "0"@),
        ),
        encoder is VideoToolbox ==> encoder_opts(encoder_name(Some(encoder)), rate)[0] == (
            "realtime"@,
            "1"@,
        ),
{
    lemma_names_differ();
    let opts = encoder_opts(encoder_name(Some(encoder)), rate);
    match encoder {
        HardwareEncoder::Nvenc => {
            assert(opts[4] == ("bf"@, "0"@));
        },
        HardwareEncoder::Amf => {
            assert(opts[3] == ("bf"@, "0"@));
        },
        HardwareEncoder::Qsv => {
            assert(opts[4] == ("bf"@, "0"@));
        },
        HardwareEncoder::Vaapi(_) => {
            assert(opts[1] == ("bf"@, "0"@));
        },
        HardwareEncoder::VideoToolbox => {},
    }
}

/// The software encoder's buffer holds two seconds at the bitrate, which is also its
/// largest rate.
pub proof fn law_buffer_is_twice_the_rate(bitrate_kbps: u32)
    ensures
        ({
            let params = x265_params(bitrate_kbps);
            let buffer = text::decimal_text(2 * bitrate_kbps as nat);
            let rate = text::decimal_text(bitrate_kbps as nat);
            let at = 59 + buffer.len() as int + 13;
            &&& params.len() == at + rate.len() + 24
            &&& params.subrange(59, 59int + buffer.len()) == buffer
            &&& params.subrange(at, at + rate.len()) == rate
        }),
{
    reveal_strlit("scenecut=0:open-gop=0:bframes=0:rc-lookahead=0:vbv-bufsize=");
    reveal_strlit(":vbv-maxrate=");
    reveal_strlit(":pools=4:frame-threads=1");
    let params = x265_params(bitrate_kbps);
    let buffer = text::decimal_text(2 * bitrate_kbps as nat);
    let rate = text::decimal_text(bitrate_kbps as nat);
    let at = 59 + buffer.len() as int + 13;
    assert(params.subrange(59, 59int + buffer.len()) =~= buffer);
    assert(params.subrange(at, at + rate.len()) =~= rate);
}

/// Frames are numbered from nought without a gap, through the groups.
pub proof fn law_frames_are_numbered_through(gop_id: u64, gop_frames: u32, frame_index: u64)
    ensures
        global_frame(0, gop_frames, 0) == 0,
        frame_index < u64::MAX ==> global_frame(gop_id, gop_frames, (frame_index + 1) as u64)
            == global_frame(gop_id, gop_frames, frame_index) + 1,
        gop_frames > 0 && gop_id < u64::MAX ==> global_frame((gop_id + 1) as u64, gop_frames, 0)
            == global_frame(gop_id, gop_frames, (gop_frames - 1) as u64) + 1,
{
    assert(0 * gop_frames == 0) by (nonlinear_arith);
    assert((gop_id + 1) * gop_frames == gop_id * gop_frames + gop_frames) by (nonlinear_arith);
}

/// A frame that comes late is numbered by its presentation time: none counts as nought,
/// and a negative one wraps round.
pub proof fn law_late_frames_go_by_their_time(pts: i64)
    ensures
        flushed_frame(None) == 0,
        pts >= 0 ==> flushed_frame(Some(pts)) == pts,
        pts < 0 ==> flushed_frame(Some(pts)) - pts == u64::MAX + 1,
        0 <= flushed_frame(Some(pts)) <= u64::MAX,
{
}

/// A device's path ends in its number, so that no two are confused.
pub proof fn law_device_paths_end_in_the_number(number: nat)
    ensures
        render_device_path(number).len() == 16 + text::decimal_text(number).len(),
        render_device_path(number).skip(16) == text::decimal_text(number),
{
    reveal_strlit("/dev/dri/renderD");
    assert(render_device_path(number).skip(16) =~= text::decimal_text(number));
}

} // verus!
