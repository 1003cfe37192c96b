use bytes::Bytes;
use moqtail::adaptive::{Quality, QualityVariant};
use moqtail::cli::Cli;
use moqtail::connection::{
    answer_request, available_protocols, catalog_header, check_publish_reply, parse_endpoint,
    protocol_names, publish_request, split_authority, PublishFailure, PublishReply, RelayAnswer,
    RelayEndpoint, RelayRequest, RequestIds, CLIENT_SUPPORTED_VERSIONS,
};
use moqtail::messages::RequestError;
use moqtail::model::{Location, MessageParameter};
use moqtail::publisher::{
    build_catalog_tracks, cached_catalog_tracks, check_cached_gops, check_cached_variants,
    prepared_cache, prepared_variant, publications, ReplayRefusal, RunMode,
};
use moqtail::status::RequestErrorCode;
use moqtail::track_name::{Tuple, TupleField};
use moqtail::video::VideoInfo;
use serde_json::Value;

fn variant(height: u16, width: u16, bitrate_kbps: u32) -> QualityVariant {
    let quality = match height {
        1080 => Quality::Q1080p,
        720 => Quality::Q720p,
        _ => Quality::Q360p,
    };
    QualityVariant { quality, width, height, bitrate_kbps }
}

#[test]
fn endpoints_are_quic_or_webtransport() {
    let parts = |endpoint: &str| match parse_endpoint(endpoint) {
        RelayEndpoint::Quic { authority, path } => (authority, path),
        RelayEndpoint::WebTransport { url } => ("url".to_string(), url),
    };
    let pair = |a: &str, b: &str| (a.to_string(), b.to_string());
    assert_eq!(parts("moqt://relay:4433/a/b"), pair("relay:4433", "/a/b"));
    assert_eq!(parts("moqt://relay"), pair("relay", ""));
    assert_eq!(parts("moqt:///x"), pair("", "/x"));
    assert_eq!(parts("moqt:/relay"), pair("url", "moqt:/relay"));
    assert_eq!(parts("https://relay:4433"), pair("url", "https://relay:4433"));
    assert_eq!(parts(""), pair("url", ""));
}

#[test]
fn authorities_have_a_host_and_a_port() {
    assert_eq!(split_authority("relay:4433"), Ok(("relay".to_string(), 4433)));
    assert_eq!(split_authority("relay"), Ok(("relay".to_string(), 443)));
    assert_eq!(split_authority("[::1]:80"), Ok(("[::1]".to_string(), 80)));
    assert_eq!(
        split_authority("relay:65536"),
        Err("invalid port in moqt:// authority: relay:65536".to_string())
    );
    assert_eq!(
        split_authority("relay:"),
        Err("invalid port in moqt:// authority: relay:".to_string())
    );
}

#[test]
fn versions_are_listed() {
    assert_eq!(available_protocols(CLIENT_SUPPORTED_VERSIONS), "\"moqt-18\"");
    assert_eq!(available_protocols("a, b ,c"), "\"a\", \"b\", \"c\"");
    assert_eq!(protocol_names("a, b c,"), vec!["a", "bc", ""]);
    assert_eq!(protocol_names("moqt-18"), vec!["moqt-18"]);
}

#[test]
fn requests_of_a_client_are_even() {
    let mut ids = RequestIds::new();
    assert_eq!((ids.take(), ids.take(), ids.take()), (0, 2, 4));
}

#[test]
fn a_publish_carries_the_first_object() {
    let namespace = Tuple::new(vec![TupleField::from_utf8("moqtail")]);
    let publish = publish_request(6, namespace, "catalog", 3);
    assert_eq!((publish.request_id, publish.track_alias), (6, 3));
    assert_eq!(publish.track_name.as_bytes(), b"catalog");
    assert_eq!(
        publish.parameters,
        vec![
            MessageParameter::Forward { forward: true },
            MessageParameter::LargestObject { location: Location { group: 0, object: 0 } },
        ]
    );
    assert!(publish.track_properties.is_empty());
}

#[test]
fn only_a_plain_ok_publishes_a_track() {
    assert!(check_publish_reply(PublishReply::Accepted { has_track_properties: false }).is_ok());
    let failure = |reply: PublishReply| check_publish_reply(reply).unwrap_err().text();
    assert_eq!(
        failure(PublishReply::Accepted { has_track_properties: true }),
        "PUBLISH_OK carried Track Properties"
    );
    assert_eq!(
        failure(PublishReply::Unexpected { shown: "Goaway".to_string() }),
        "Expected REQUEST_OK, got Goaway"
    );
    assert_eq!(
        failure(PublishReply::Failed { shown: "ProtocolViolation".to_string() }),
        "Failed waiting for REQUEST_OK: ProtocolViolation"
    );
    let error = RequestError::new(RequestErrorCode::Unauthorized, "no");
    let shown = format!("{error:?}");
    let refused = check_publish_reply(PublishReply::Refused { error, shown: shown.clone() });
    let refused = refused.unwrap_err();
    assert_eq!(refused.text(), format!("PUBLISH rejected: {shown}"));
    match refused {
        PublishFailure::Refused { error, .. } => {
            assert_eq!(error.error_code, RequestErrorCode::Unauthorized);
            assert_eq!(error.reason, "no");
        }
        other => panic!("{other:?}"),
    }
}

#[test]
fn a_publisher_keeps_no_history() {
    let reason = |request: RelayRequest| match answer_request(request) {
        RelayAnswer::Accepted => None,
        RelayAnswer::Error(error) => {
            assert_eq!(error.error_code, RequestErrorCode::NotSupported);
            assert_eq!(error.retry_interval, 0);
            Some(error.reason)
        }
    };
    assert_eq!(reason(RelayRequest::Fetch), Some("publisher keeps no history".to_string()));
    assert_eq!(reason(RelayRequest::TrackStatus), None);
    assert_eq!(reason(RelayRequest::Other), Some("not supported".to_string()));
    let header = catalog_header(7, 3);
    assert_eq!((header.track_alias, header.group_id), (7, 3));
    assert_eq!((header.subgroup_id, header.publisher_priority), (Some(0), Some(0)));
}

#[test]
fn each_variant_is_a_track() {
    let variants = vec![variant(1080, 1920, 4000), variant(720, 1280, 2000), variant(360, 640, 500)];
    let tracks = publications(&variants);
    let names: Vec<&str> = tracks.iter().map(|t| t.track_name.as_str()).collect();
    assert_eq!(names, vec!["video-1080p", "video-720p", "video-360p"]);
    let numbers: Vec<(u64, u8)> =
        tracks.iter().map(|t| (t.track_alias, t.publisher_priority)).collect();
    assert_eq!(numbers, vec![(1, 3), (2, 2), (3, 1)]);
    assert!(publications(&vec![]).is_empty());
}

#[test]
fn a_catalog_lists_the_tracks_with_a_codec() {
    let variants = vec![variant(1080, 1920, 4000), variant(720, 1280, 2000)];
    let codecs = vec!["hev1.1".to_string()];
    let tracks = build_catalog_tracks(&variants, &codecs, 1500);
    assert_eq!(tracks.len(), 1);
    assert_eq!(tracks[0].name, "video-1080p");
    assert_eq!(tracks[0].codec, "hev1.1");
    assert_eq!((tracks[0].width, tracks[0].height), (1920, 1080));
    assert_eq!(tracks[0].bitrate_bps, 4_000_000);
    assert_eq!(tracks[0].role, "video");
    assert_eq!(tracks[0].target_latency_ms, 1500);
}

#[test]
fn a_prepared_cache_is_accepted_again() {
    let info = VideoInfo { width: 1920, height: 1080 };
    let spec = "default";
    let variants = moqtail::adaptive::resolve_ladder(spec, 4, &info).unwrap();
    let counts = vec![12; variants.len()];
    let meta = prepared_cache(&info, Value::from(30.0), 1500, &variants, &counts).unwrap();
    assert_eq!(meta.gops_per_variant, 12);
    assert_eq!(meta.target_latency_ms, 1500);
    let again = check_cached_variants(&meta, spec, 4).unwrap();
    assert_eq!(again, variants);
    match check_cached_variants(&meta, "480p", 4) {
        Err(ReplayRefusal::Ladder { .. }) | Err(ReplayRefusal::Variants { .. }) => {}
        Ok(other) => panic!("accepted {other:?}"),
    }
    match check_cached_variants(&meta, spec, 2) {
        Err(ReplayRefusal::Variants { expected }) => assert_eq!(expected.len(), 2),
        other => panic!("expected other variants, got {other:?}"),
    }
}

#[test]
fn variants_of_different_lengths_make_no_cache() {
    let info = VideoInfo { width: 1920, height: 1080 };
    let error = prepared_cache(&info, Value::from(30), 1500, &vec![], &vec![3, 3, 4]).unwrap_err();
    assert_eq!(
        error,
        "Prepare: variants emitted different GOP counts [3, 3, 4] (cache would be inconsistent)"
    );
}

#[test]
fn cached_variants_must_be_whole() {
    assert_eq!(check_cached_gops("720p", 5, "/c/720p", 5), Ok(()));
    assert_eq!(
        check_cached_gops("720p", 4, "/c/720p", 5),
        Err(
            "Cache variant 720p reports 4 GOPs in /c/720p but meta.json says 5; cache is \
             inconsistent — delete and re-prepare"
                .to_string()
        )
    );
    let meta = prepared_variant(
        &variant(720, 1280, 2000),
        Value::from(25),
        "hev1".to_string(),
        Bytes::from_static(b"x"),
    );
    assert_eq!((meta.quality.as_str(), meta.width, meta.height), ("720p", 1280, 720));
    assert_eq!((meta.bitrate_kbps, meta.codec.as_str()), (2000, "hev1"));
    assert_eq!(meta.extradata.as_ref(), b"x");
    let cached = cached_catalog_tracks(&vec![meta], 1500);
    let live =
        build_catalog_tracks(&vec![variant(720, 1280, 2000)], &vec!["hev1".to_string()], 1500);
    assert_eq!(format!("{cached:?}"), format!("{live:?}"));
    assert_eq!(cached[0].bitrate_bps, 2_000_000);
}

#[test]
fn a_publisher_runs_in_one_of_three_modes() {
    let mut cli = Cli::default();
    assert_eq!(cli.endpoint, "https://127.0.0.1:4433");
    assert_eq!((cli.target_latency_ms, cli.max_variants), (1500, 4));
    assert_eq!((cli.namespace.as_str(), cli.ladder_spec.as_str()), ("moqtail", "default"));
    assert_eq!(cli.run_mode(true), RunMode::Live);
    cli.encoded_dir = Some("cache".to_string());
    assert_eq!(cli.run_mode(false), RunMode::Prepare);
    assert_eq!(cli.run_mode(true), RunMode::Replay);
    for n in 0..8 {
        cli.max_variants = n;
        assert_eq!(cli.has_valid_max_variants(), (2..=4).contains(&n));
    }
}
