use moqtail::video::{
    extract_yuv420p, read_video_info, yuv420p_to_nv12_frame, yuv420p_to_video_frame, Plane,
    TrackInfo,
};

fn plane(stride: usize, rows: usize) -> Plane {
    Plane { data: vec![0xee; stride * rows], stride }
}

/// A frame of 5 x 4: 20 luma bytes, then twice 4 chroma bytes.
fn frame() -> Vec<u8> {
    (0u8..28).collect()
}

#[test]
fn frames_survive_planes_with_padding() {
    let (mut y, mut u, mut v) = (plane(8, 4), plane(3, 2), plane(4, 2));
    yuv420p_to_video_frame(&frame(), 5, 4, &mut y, &mut u, &mut v);
    assert_eq!(&y.data[..8], &[0, 1, 2, 3, 4, 0xee, 0xee, 0xee]);
    assert_eq!(&y.data[24..29], &[15, 16, 17, 18, 19]);
    assert_eq!(u.data, vec![20, 21, 0xee, 22, 23, 0xee]);
    assert_eq!(v.data, vec![24, 25, 0xee, 0xee, 26, 27, 0xee, 0xee]);
    assert_eq!(extract_yuv420p(&y, &u, &v, 5, 4).as_ref(), frame().as_slice());
}

#[test]
fn nv12_interleaves_the_chroma_planes() {
    let (mut y, mut uv) = (plane(5, 4), plane(6, 2));
    yuv420p_to_nv12_frame(&frame(), 5, 4, &mut y, &mut uv);
    assert_eq!(y.data, (0u8..20).collect::<Vec<u8>>());
    assert_eq!(
        uv.data,
        vec![20, 24, 21, 25, 0xee, 0xee, 22, 26, 23, 27, 0xee, 0xee]
    );
}

#[test]
fn an_empty_frame_is_empty() {
    let empty = plane(0, 0);
    assert_eq!(extract_yuv420p(&empty, &empty, &empty, 0, 0).len(), 0);
    let (mut y, mut u, mut v) = (plane(4, 1), plane(4, 1), plane(4, 1));
    yuv420p_to_video_frame(&[], 0, 0, &mut y, &mut u, &mut v);
    assert_eq!(y.data, vec![0xee; 4]);
}

#[test]
fn the_first_video_track_counts() {
    let audio = TrackInfo { is_video: false, width: 0, height: 0 };
    let small = TrackInfo { is_video: true, width: 640, height: 360 };
    let large = TrackInfo { is_video: true, width: 1920, height: 1080 };
    let (index, info) = read_video_info(&vec![audio, small, large], "a.mp4").unwrap();
    assert_eq!((index, info.width, info.height), (1, 640, 360));
    assert_eq!(
        read_video_info(&vec![audio], "a.mp4").unwrap_err(),
        "no video track found in a.mp4"
    );
}
