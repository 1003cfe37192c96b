use moqtail::adaptive::{
    quality_variants, quality_variants_for_spec, resolve_ladder, width_for_height_16x9, LadderSpec,
    Quality,
};
use moqtail::video::VideoInfo;

fn video(width: u16, height: u16) -> VideoInfo {
    VideoInfo { width, height }
}

#[test]
fn test_1080p_source_returns_all_variants() {
    let variants = quality_variants(&video(1920, 1080), 4).unwrap();
    assert_eq!(variants.len(), 4);
    assert_eq!(variants[0].quality, Quality::Q1080p);
    assert_eq!(variants[1].quality, Quality::Q720p);
    assert_eq!(variants[2].quality, Quality::Q480p);
    assert_eq!(variants[3].quality, Quality::Q360p);
}

#[test]
fn test_720p_source_excludes_1080p() {
    let variants = quality_variants(&video(1280, 720), 4).unwrap();
    assert_eq!(variants.len(), 3);
    assert_eq!(variants[0].quality, Quality::Q720p);
    assert_eq!(variants[1].quality, Quality::Q480p);
    assert_eq!(variants[2].quality, Quality::Q360p);
}

#[test]
fn test_480p_source_excludes_720p_and_above() {
    let variants = quality_variants(&video(854, 480), 4).unwrap();
    assert_eq!(variants.len(), 2);
    assert_eq!(variants[0].quality, Quality::Q480p);
    assert_eq!(variants[1].quality, Quality::Q360p);
}

#[test]
fn test_360p_source_returns_only_360p() {
    let variants = quality_variants(&video(640, 360), 4).unwrap();
    assert_eq!(variants.len(), 1);
    assert_eq!(variants[0].quality, Quality::Q360p);
}

#[test]
fn test_below_360p_returns_error() {
    let result = quality_variants(&video(320, 240), 4);
    assert!(result.is_err());
}

#[test]
fn test_bitrate_ladder_values() {
    let variants = quality_variants(&video(1920, 1080), 4).unwrap();
    assert_eq!(variants[0].bitrate_kbps, 4000);
    assert_eq!(variants[1].bitrate_kbps, 2000);
    assert_eq!(variants[2].bitrate_kbps, 1000);
    assert_eq!(variants[3].bitrate_kbps, 500);
}

#[test]
fn test_resolution_values() {
    let variants = quality_variants(&video(1920, 1080), 4).unwrap();
    assert_eq!((variants[0].width, variants[0].height), (1920, 1080));
    assert_eq!((variants[1].width, variants[1].height), (1280, 720));
    assert_eq!((variants[2].width, variants[2].height), (854, 480));
    assert_eq!((variants[3].width, variants[3].height), (640, 360));
}

#[test]
fn test_non_standard_source_includes_lower_tiers() {
    let variants = quality_variants(&video(1600, 900), 4).unwrap();
    assert_eq!(variants.len(), 3);
    assert_eq!(variants[0].quality, Quality::Q720p);
}

#[test]
fn test_narrow_width_still_includes_matching_height() {
    let variants = quality_variants(&video(1440, 1080), 4).unwrap();
    assert_eq!(variants.len(), 4);
    assert_eq!(variants[0].quality, Quality::Q1080p);
}

#[test]
fn test_quality_display() {
    assert_eq!(Quality::Q1080p.to_string(), "1080p");
    assert_eq!(Quality::Q720p.to_string(), "720p");
    assert_eq!(Quality::Q480p.to_string(), "480p");
    assert_eq!(Quality::Q360p.to_string(), "360p");
}

#[test]
fn test_hevc_bitrate_ladder() {
    let variants = quality_variants(&video(1920, 1080), 4).unwrap();
    assert_eq!(variants[0].bitrate_kbps, 4000);
    assert_eq!(variants[1].bitrate_kbps, 2000);
    assert_eq!(variants[2].bitrate_kbps, 1000);
    assert_eq!(variants[3].bitrate_kbps, 500);
}

#[test]
fn test_max_variants_2_keeps_highest_and_lowest() {
    let variants = quality_variants(&video(1920, 1080), 2).unwrap();
    assert_eq!(variants.len(), 2);
    assert_eq!(variants[0].quality, Quality::Q1080p);
    assert_eq!(variants[1].quality, Quality::Q360p);
}

#[test]
fn test_max_variants_3_drops_one_middle() {
    let variants = quality_variants(&video(1920, 1080), 3).unwrap();
    assert_eq!(variants.len(), 3);
    assert_eq!(variants[0].quality, Quality::Q1080p);
    assert_eq!(variants[1].quality, Quality::Q720p);
    assert_eq!(variants[2].quality, Quality::Q360p);
}

#[test]
fn ladder_spec_parses_default() {
    assert_eq!(LadderSpec::parse("default").unwrap(), LadderSpec::Default);
}

#[test]
fn ladder_spec_parses_single_res_720p_five_rungs() {
    let spec = LadderSpec::parse("720p:400,800,1200,2500,5000").unwrap();
    assert_eq!(
        spec,
        LadderSpec::SingleRes {
            height: 720,
            bitrates_kbps: vec![400, 800, 1200, 2500, 5000],
        }
    );
}

#[test]
fn ladder_spec_rejects_garbage() {
    assert!(LadderSpec::parse("nonsense").is_err());
    assert!(LadderSpec::parse("720p:").is_err());
    assert!(LadderSpec::parse("720p:abc").is_err());
    assert!(LadderSpec::parse(":400,800").is_err());
}

#[test]
fn quality_variants_single_res_720p_emits_n_variants_at_same_resolution() {
    let info = video(1920, 1080);
    let spec = LadderSpec::SingleRes {
        height: 720,
        bitrates_kbps: vec![400, 800, 1200, 2500, 5000],
    };
    let variants = quality_variants_for_spec(&info, &spec).unwrap();
    assert_eq!(variants.len(), 5);
    for v in &variants {
        assert_eq!(v.height, 720);
        assert_eq!(v.width, 1280);
    }
    assert_eq!(
        variants.iter().map(|v| v.bitrate_kbps).collect::<Vec<_>>(),
        vec![400, 800, 1200, 2500, 5000]
    );
}

#[test]
fn quality_variants_default_path_unchanged() {
    let info = video(1920, 1080);
    let from_default = quality_variants_for_spec(&info, &LadderSpec::Default).unwrap();
    let baseline = quality_variants(&info, 4).unwrap();
    assert_eq!(from_default.len(), baseline.len());
    for (a, b) in from_default.iter().zip(baseline.iter()) {
        assert_eq!(a.bitrate_kbps, b.bitrate_kbps);
        assert_eq!(a.width, b.width);
        assert_eq!(a.height, b.height);
    }
}

#[test]
fn same_res_rung_display_format() {
    let q = Quality::SameResRung { height: 720, bitrate_kbps: 400 };
    assert_eq!(q.to_string(), "720p-400k");
    let q2 = Quality::SameResRung { height: 720, bitrate_kbps: 5000 };
    assert_eq!(q2.to_string(), "720p-5000k");
}

#[test]
fn ladder_spec_parses_multi_res() {
    let spec = LadderSpec::parse("240p@150,360p@200,480p@500,720p@1200,1080p@4000").unwrap();
    assert_eq!(
        spec,
        LadderSpec::MultiRes {
            rungs: vec![(240, 150), (360, 200), (480, 500), (720, 1200), (1080, 4000)],
        }
    );
}

#[test]
fn ladder_spec_multi_res_rejects_garbage() {
    assert!(LadderSpec::parse("240p@").is_err());
    assert!(LadderSpec::parse("240@150").is_err());
    assert!(LadderSpec::parse("240p@abc").is_err());
    assert!(LadderSpec::parse("@150").is_err());
}

#[test]
fn quality_variants_multi_res_emits_per_rung_resolution() {
    let info = video(1920, 1080);
    let spec = LadderSpec::MultiRes {
        rungs: vec![(240, 150), (360, 200), (480, 500), (720, 1200), (1080, 4000)],
    };
    let variants = quality_variants_for_spec(&info, &spec).unwrap();
    let got: Vec<(u16, u16, u32)> = variants
        .iter()
        .map(|v| (v.width, v.height, v.bitrate_kbps))
        .collect();
    assert_eq!(
        got,
        vec![
            (426, 240, 150),
            (640, 360, 200),
            (854, 480, 500),
            (1280, 720, 1200),
            (1920, 1080, 4000),
        ]
    );
}

#[test]
fn quality_variants_multi_res_refuses_upscale() {
    let info = video(1280, 720);
    let spec = LadderSpec::MultiRes { rungs: vec![(720, 1200), (1080, 4000)] };
    assert!(quality_variants_for_spec(&info, &spec).is_err());
}

#[test]
fn resolve_ladder_custom_spec_keeps_all_rungs() {
    let variants = resolve_ladder(
        "240p@150,360p@200,480p@500,720p@1200,1080p@4000",
        4,
        &video(1920, 1080),
    )
    .unwrap();
    let got: Vec<(u16, u16, u32)> = variants
        .iter()
        .map(|v| (v.width, v.height, v.bitrate_kbps))
        .collect();
    assert_eq!(
        got,
        vec![
            (426, 240, 150),
            (640, 360, 200),
            (854, 480, 500),
            (1280, 720, 1200),
            (1920, 1080, 4000),
        ]
    );
}

#[test]
fn resolve_ladder_default_honors_max_variants() {
    let variants = resolve_ladder("default", 3, &video(1920, 1080)).unwrap();
    assert_eq!(variants.len(), 3);
}

fn parse_error(spec: &str) -> String {
    LadderSpec::parse(spec).unwrap_err()
}

#[test]
fn ladder_spec_errors_name_what_is_wrong() {
    assert_eq!(parse_error("nonsense"), "ladder-spec: missing ':' in 'nonsense'");
    assert_eq!(parse_error("720p:"), "ladder-spec: empty section in '720p:'");
    assert_eq!(parse_error(":400"), "ladder-spec: empty section in ':400'");
    assert_eq!(
        parse_error("720:400"),
        "ladder-spec: resolution must end in 'p' in '720:400'"
    );
    assert_eq!(
        parse_error("p:400"),
        "ladder-spec: bad height in 'p:400': cannot parse integer from empty string"
    );
    assert_eq!(
        parse_error("70000p:400"),
        "ladder-spec: bad height in '70000p:400': number too large to fit in target type"
    );
    assert_eq!(
        parse_error("720p:400, x ,500"),
        "ladder-spec: bad bitrate ' x ': invalid digit found in string"
    );
    assert_eq!(
        parse_error("720p:400,,500"),
        "ladder-spec: bad bitrate '': cannot parse integer from empty string"
    );
    assert_eq!(
        parse_error("720p:4294967296"),
        "ladder-spec: bad bitrate '4294967296': number too large to fit in target type"
    );
    assert_eq!(
        parse_error("240p@150,360p"),
        "ladder-spec: rung '360p' missing '@'"
    );
    assert_eq!(
        parse_error("240@150"),
        "ladder-spec: rung resolution must end in 'p' in '240@150'"
    );
    assert_eq!(
        parse_error("xp@150"),
        "ladder-spec: bad height in 'xp@150': invalid digit found in string"
    );
    assert_eq!(
        parse_error("240p@15é"),
        "ladder-spec: bad bitrate in '240p@15é': invalid digit found in string"
    );
    assert_eq!(
        parse_error("240p@+"),
        "ladder-spec: bad bitrate in '240p@+': invalid digit found in string"
    );
}

#[test]
fn ladder_spec_allows_white_space_and_plus_signs() {
    assert_eq!(
        LadderSpec::parse(" 240p @ 150 ,\t360p@\u{3000}+200").unwrap(),
        LadderSpec::MultiRes { rungs: vec![(240, 150), (360, 200)] }
    );
    assert_eq!(
        LadderSpec::parse("+720p: 400 ,007").unwrap(),
        LadderSpec::SingleRes { height: 720, bitrates_kbps: vec![400, 7] }
    );
    assert!(LadderSpec::parse(" 720p:400").is_err());
    assert!(LadderSpec::parse(" default").is_err());
}

#[test]
fn ladder_errors_name_the_source() {
    assert_eq!(
        quality_variants(&video(320, 240), 4).unwrap_err(),
        "source resolution 320x240 is below the minimum supported tier (360p)"
    );
    assert_eq!(
        resolve_ladder("1080p:400", 4, &video(1280, 720)).unwrap_err(),
        "LadderSpec::SingleRes: height 1080 exceeds source height 720"
    );
    assert_eq!(
        resolve_ladder("720p@400,1080p@900", 4, &video(1280, 720)).unwrap_err(),
        "LadderSpec::MultiRes: rung 1080p exceeds source height 720"
    );
    assert_eq!(
        resolve_ladder("500p@400,1080p@900", 4, &video(1280, 720)).unwrap_err(),
        "ladder-spec: unsupported rung height 500p"
    );
    assert_eq!(
        resolve_ladder("x", 4, &video(1280, 720)).unwrap_err(),
        "ladder-spec: missing ':' in 'x'"
    );
}

#[test]
fn widths_follow_16x9() {
    assert_eq!(width_for_height_16x9(2160), Ok(3840));
    assert_eq!(width_for_height_16x9(240), Ok(426));
    assert_eq!(
        width_for_height_16x9(0),
        Err("ladder-spec: unsupported rung height 0p".to_string())
    );
}

#[test]
fn trimming_never_leaves_fewer_than_two() {
    let variants = quality_variants(&video(1920, 1080), 0).unwrap();
    assert_eq!(variants.len(), 2);
    assert_eq!(variants[0].quality, Quality::Q1080p);
    assert_eq!(variants[1].quality, Quality::Q360p);
    assert_eq!(quality_variants(&video(1920, 359), 4).is_err(), true);
    assert_eq!(quality_variants(&video(0, 360), 0).unwrap().len(), 1);
}

#[test]
fn written_ladders_are_read_back() {
    let spec = LadderSpec::parse(&format!("{}p:{},{}", 720u16, 0u32, u32::MAX)).unwrap();
    assert_eq!(spec, LadderSpec::SingleRes { height: 720, bitrates_kbps: vec![0, u32::MAX] });
    let spec = LadderSpec::parse(&format!("{}p@{},{}p@{}", u16::MAX, 1u32, 0u16, 2u32)).unwrap();
    assert_eq!(spec, LadderSpec::MultiRes { rungs: vec![(u16::MAX, 1), (0, 2)] });
}
