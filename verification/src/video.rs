//! Video sources and raw frames.

use crate::payload::{self, bytes_from_vec};
use bytes::Bytes;
use vstd::prelude::*;

verus! {

/// Size of the source video.
#[derive(Debug, Clone, Copy, PartialEq, Eq, Structural)]
pub struct VideoInfo {
    pub width: u16,
    pub height: u16,
}

/// A track of a media file.
#[derive(Debug, Clone, Copy, PartialEq, Eq, Structural)]
pub struct TrackInfo {
    pub is_video: bool,
    pub width: u16,
    pub height: u16,
}

/// A file without video.
pub open spec fn no_video_text(path: Seq<char>) -> Seq<char> {
    "no video track found in "@ + path
}

/// Finds the first video track of a file: its position and size.
pub fn read_video_info(tracks: &Vec<TrackInfo>, path: &str) -> (result: Result<
    (usize, VideoInfo),
    String,
>)
    ensures
        match result {
            Ok((i, info)) => {
                &&& i < tracks@.len()
                &&& tracks@[i as int].is_video
                &&& forall|k: int| 0 <= k < i ==> !(#[trigger] tracks@[k]).is_video
                &&& info.width == tracks@[i as int].width
                &&& info.height == tracks@[i as int].height
            },
            Err(text) => {
                &&& forall|k: int| 0 <= k < tracks@.len() ==> !(#[trigger] tracks@[k]).is_video
                &&& text@ == no_video_text(path@)
            },
        },
{
    let mut i: usize = 0;
    while i < tracks.len()
        invariant
            i <= tracks@.len(),
            forall|k: int| 0 <= k < i ==> !(#[trigger] tracks@[k]).is_video,
        decreases tracks@.len() - i,
    {
        let track: TrackInfo = tracks[i];
        if track.is_video {
            return Ok((i, VideoInfo { width: track.width, height: track.height }));
        }
        i = i + 1;
    }
    let mut text: String = "no video track found in ".to_owned();
    text.append(path);
    Err(text)
}

/// A plane of a frame: rows of bytes, each followed by padding up to the stride.
#[derive(Debug, Clone)]
pub struct Plane {
    pub data: Vec<u8>,
    pub stride: usize,
}

/// A plane has `height` rows of `width` bytes.
pub open spec fn holds_rows(plane: Plane, width: nat, height: nat) -> bool {
    height > 0 ==> (height - 1) * plane.stride + width <= plane.data@.len()
}

/// A plane has room for `height` rows of `width` bytes, none of which reaches into
/// the next.
pub open spec fn has_room(plane: Plane, width: nat, height: nat) -> bool {
    holds_rows(plane, width, height) && width <= plane.stride
}

/// The first `height` rows of `width` bytes, without the padding.
pub open spec fn rows(data: Seq<u8>, stride: nat, width: nat, height: nat) -> Seq<u8>
    decreases height,
{
    if height == 0 {
        Seq::empty()
    } else {
        rows(data, stride, width, (height - 1) as nat) + data.subrange(
            (height - 1) * stride,
            (height - 1) * stride + width,
        )
    }
}

/// A position lies in the first `height` rows of `width` bytes.
pub open spec fn in_rows(position: int, stride: nat, width: nat, height: nat) -> bool {
    exists|row: int|
        0 <= row < height && #[trigger] (row * stride) <= position < row * stride + width
}

/// Two planes agree outside the first `height` rows of `width` bytes.
pub open spec fn same_padding(before: Plane, after: Plane, width: nat, height: nat) -> bool {
    &&& after.stride == before.stride
    &&& after.data@.len() == before.data@.len()
    &&& forall|k: int|
        0 <= k < before.data@.len() && !in_rows(k, before.stride as nat, width, height)
            ==> #[trigger] after.data@[k] == before.data@[k]
}

proof fn lemma_row_below(row: int, height: int, stride: int)
    requires
        0 <= row < height,
        0 <= stride,
    ensures
        row * stride <= (height - 1) * stride,
        row + 1 < height ==> (row + 1) * stride <= (height - 1) * stride,
        (row + 1) * stride == row * stride + stride,
        row * stride >= 0,
{
    assert(row * stride <= (height - 1) * stride) by (nonlinear_arith)
        requires
            0 <= row < height,
            0 <= stride,
    ;
    if row + 1 < height {
        assert((row + 1) * stride <= (height - 1) * stride) by (nonlinear_arith)
            requires
                0 <= row,
                row + 1 < height,
                0 <= stride,
        ;
    }
    assert((row + 1) * stride == row * stride + stride) by (nonlinear_arith);
    assert(row * stride >= 0) by (nonlinear_arith)
        requires
            0 <= row,
            0 <= stride,
    ;
}

proof fn lemma_rows_len(data: Seq<u8>, stride: nat, width: nat, height: nat)
    requires
        height > 0 ==> (height - 1) * stride + width <= data.len(),
    ensures
        rows(data, stride, width, height).len() == height * width,
    decreases height,
{
    if height > 0 {
        let above = (height - 1) as nat;
        lemma_row_below(above as int, height as int, stride as int);
        if above > 0 {
            lemma_row_below(above - 1, height as int, stride as int);
        }
        lemma_rows_len(data, stride, width, above);
        assert(height * width == above * width + width) by (nonlinear_arith)
            requires
                height == above + 1,
        ;
    } else {
        assert(height * width == 0) by (nonlinear_arith)
            requires
                height == 0,
        ;
    }
}

proof fn lemma_rows_agree(a: Seq<u8>, b: Seq<u8>, stride: nat, width: nat, height: nat)
    requires
        width <= stride,
        height > 0 ==> (height - 1) * stride + width <= a.len(),
        a.len() == b.len(),
        forall|k: int| 0 <= k < a.len() && k < height * stride ==> a[k] == b[k],
    ensures
        rows(a, stride, width, height) == rows(b, stride, width, height),
    decreases height,
{
    if height > 0 {
        let above = (height - 1) as nat;
        lemma_row_below(above as int, height as int, stride as int);
        if above > 0 {
            lemma_row_below(above - 1, height as int, stride as int);
        }
        lemma_rows_agree(a, b, stride, width, above);
        let start = (height - 1) * stride;
        assert(a.subrange(start, start + width) =~= b.subrange(start, start + width));
    }
}

/// Fills the first `height` rows of a plane from bytes without padding, from
/// position `from` on.
fn fill_rows(plane: &mut Plane, packed: &[u8], from: usize, width: usize, height: usize)
    requires
        has_room(*old(plane), width as nat, height as nat),
        from + height * width <= packed@.len(),
    ensures
        same_padding(*old(plane), *final(plane), width as nat, height as nat),
        has_room(*final(plane), width as nat, height as nat),
        rows(final(plane).data@, final(plane).stride as nat, width as nat, height as nat)
            == packed@.subrange(from as int, from + height * width),
{
    let stride: usize = plane.stride;
    let plane_len: usize = plane.data.len();
    let packed_len: usize = packed.len();
    let ghost before = *plane;
    let mut row: usize = 0;
    let mut source: usize = from;
    let mut target: usize = 0;
    proof {
        assert(0 * stride == 0) by (nonlinear_arith);
        assert(0 * width == 0) by (nonlinear_arith);
        assert(packed@.subrange(from as int, from as int) =~= Seq::empty());
    }
    while row < height
        invariant
            row <= height,
            from + height * width <= packed@.len(),
            plane.data@.len() == plane_len,
            packed@.len() == packed_len,
            plane.stride == stride,
            before.stride == stride,
            has_room(before, width as nat, height as nat),
            source == from + row * width,
            row < height ==> target == row * stride,
            plane.data@.len() == before.data@.len(),
            same_padding(before, *plane, width as nat, row as nat),
            rows(plane.data@, stride as nat, width as nat, row as nat) == packed@.subrange(
                from as int,
                from + row * width,
            ),
        decreases height - row,
    {
        proof {
            lemma_row_below(row as int, height as int, stride as int);
            assert((row + 1) * width <= height * width) by (nonlinear_arith)
                requires
                    row + 1 <= height,
            ;
            assert((row + 1) * width == row * width + width) by (nonlinear_arith);
        }
        let ghost above = plane.data@;
        let mut col: usize = 0;
        while col < width
            invariant
                col <= width,
                row < height,
                plane.stride == stride,
                before.stride == stride,
                has_room(before, width as nat, height as nat),
                target == row * stride,
                plane.data@.len() == plane_len,
                packed@.len() == packed_len,
                target + width <= plane_len,
                source == from + row * width,
                source + width <= packed_len,
                plane.data@.len() == above.len(),
                above.len() == before.data@.len(),
                forall|k: int|
                    0 <= k < above.len() && !(target <= k < target + col) ==> #[trigger] plane.data@[k]
                        == above[k],
                forall|k: int|
                    0 <= k < col ==> plane.data@[target + k] == #[trigger] packed@[source + k],
            decreases width - col,
        {
            plane.data[target + col] = packed[source + col];
            col = col + 1;
        }
        proof {
            if row > 0 {
                lemma_row_below(row - 1, height as int, stride as int);
            }
            assert forall|k: int| 0 <= k < above.len() && k < row * stride implies above[k]
                == plane.data@[k] by {}
            lemma_rows_agree(above, plane.data@, stride as nat, width as nat, row as nat);
            let written = plane.data@.subrange(row * stride, row * stride + width);
            let given = packed@.subrange(source as int, source + width);
            assert forall|k: int| 0 <= k < width implies #[trigger] written[k] == given[k] by {
                assert(plane.data@[target + k] == packed@[source + k]);
            }
            assert(written =~= given);
            assert(packed@.subrange(from as int, from + (row + 1) * width) =~= packed@.subrange(
                from as int,
                from + row * width,
            ) + packed@.subrange(source as int, source + width));
            assert forall|k: int|
                0 <= k < before.data@.len() && !in_rows(
                    k,
                    stride as nat,
                    width as nat,
                    (row + 1) as nat,
                ) implies #[trigger] plane.data@[k] == before.data@[k] by {
                if in_rows(k, stride as nat, width as nat, row as nat) {
                    let r = choose|r: int|
                        0 <= r < row && #[trigger] (r * stride) <= k < r * stride + width;
                    assert(0 <= r < row + 1 && (r * stride) <= k < r * stride + width);
                    assert(false);
                }
                if target <= k < target + width {
                    assert((row as int) * stride <= k < (row as int) * stride + width);
                    assert(in_rows(k, stride as nat, width as nat, (row + 1) as nat));
                }
                assert(above[k] == before.data@[k]);
            }
        }
        source = source + width;
        row = row + 1;
        if row < height {
            target = target + stride;
        }
    }
}

fn push_rows(packed: &mut Vec<u8>, plane: &Plane, width: usize, height: usize)
    requires
        holds_rows(*plane, width as nat, height as nat),
    ensures
        final(packed)@ == old(packed)@ + rows(
            plane.data@,
            plane.stride as nat,
            width as nat,
            height as nat,
        ),
{
    let stride: usize = plane.stride;
    let plane_len: usize = plane.data.len();
    let ghost before = packed@;
    let mut row: usize = 0;
    let mut start: usize = 0;
    proof {
        assert(0 * stride == 0) by (nonlinear_arith);
    }
    while row < height
        invariant
            row <= height,
            plane.stride == stride,
            plane.data@.len() == plane_len,
            holds_rows(*plane, width as nat, height as nat),
            row < height ==> start == row * stride,
            packed@ == before + rows(plane.data@, stride as nat, width as nat, row as nat),
        decreases height - row,
    {
        proof {
            lemma_row_below(row as int, height as int, stride as int);
        }
        let ghost above = packed@;
        let mut col: usize = 0;
        while col < width
            invariant
                col <= width,
                start + width <= plane_len,
                plane.data@.len() == plane_len,
                packed@ == above + plane.data@.subrange(start as int, start + col),
            decreases width - col,
        {
            packed.push(plane.data[start + col]);
            col = col + 1;
            proof {
                assert(packed@ =~= above + plane.data@.subrange(start as int, start + col));
            }
        }
        proof {
            assert(packed@ =~= before + rows(
                plane.data@,
                stride as nat,
                width as nat,
                (row + 1) as nat,
            ));
        }
        row = row + 1;
        if row < height {
            start = start + stride;
        }
    }
}

/// The size of a frame in YUV 4:2:0: a full plane and two of half the width and
/// height.
pub open spec fn frame_len(width: nat, height: nat) -> nat {
    height * width + 2 * ((height / 2) * (width / 2))
}

/// The three planes of a frame, packed without padding.
pub open spec fn packed_frame(y: Plane, u: Plane, v: Plane, width: nat, height: nat) -> Seq<u8> {
    rows(y.data@, y.stride as nat, width, height) + rows(
        u.data@,
        u.stride as nat,
        width / 2,
        height / 2,
    ) + rows(v.data@, v.stride as nat, width / 2, height / 2)
}

/// Packs the planes of a frame in YUV 4:2:0 without padding: the luma plane and
/// then the two chroma planes.
pub fn extract_yuv420p(y: &Plane, u: &Plane, v: &Plane, width: u32, height: u32) -> (frame: Bytes)
    requires
        holds_rows(*y, width as nat, height as nat),
        holds_rows(*u, width as nat / 2, height as nat / 2),
        holds_rows(*v, width as nat / 2, height as nat / 2),
    ensures
        payload::contents(frame) == packed_frame(*y, *u, *v, width as nat, height as nat),
{
    let w: usize = width as usize;
    let h: usize = height as usize;
    let mut packed: Vec<u8> = Vec::new();
    push_rows(&mut packed, y, w, h);
    push_rows(&mut packed, u, w / 2, h / 2);
    push_rows(&mut packed, v, w / 2, h / 2);
    proof {
        assert(packed@ =~= packed_frame(*y, *u, *v, width as nat, height as nat));
    }
    bytes_from_vec(packed)
}

/// Fills the planes of a frame from a packed one. The padding stays as it is.
pub fn yuv420p_to_video_frame(
    data: &[u8],
    width: u32,
    height: u32,
    y: &mut Plane,
    u: &mut Plane,
    v: &mut Plane,
)
    requires
        frame_len(width as nat, height as nat) <= data@.len(),
        has_room(*old(y), width as nat, height as nat),
        has_room(*old(u), width as nat / 2, height as nat / 2),
        has_room(*old(v), width as nat / 2, height as nat / 2),
    ensures
        packed_frame(*final(y), *final(u), *final(v), width as nat, height as nat) == data@.take(
            frame_len(width as nat, height as nat) as int,
        ),
        same_padding(*old(y), *final(y), width as nat, height as nat),
        same_padding(*old(u), *final(u), width as nat / 2, height as nat / 2),
        same_padding(*old(v), *final(v), width as nat / 2, height as nat / 2),
{
    let w: usize = width as usize;
    let h: usize = height as usize;
    let data_len: usize = data.len();
    proof {
        assert(h * w >= 0 && (h / 2) * (w / 2) >= 0) by (nonlinear_arith)
            requires
                h >= 0,
                w >= 0,
                h / 2 >= 0,
                w / 2 >= 0,
        ;
    }
    let y_size: usize = h * w;
    let uv_size: usize = (h / 2) * (w / 2);
    fill_rows(y, data, 0, w, h);
    fill_rows(u, data, y_size, w / 2, h / 2);
    fill_rows(v, data, y_size + uv_size, w / 2, h / 2);
    proof {
        assert(packed_frame(*y, *u, *v, width as nat, height as nat) =~= data@.take(
            frame_len(width as nat, height as nat) as int,
        ));
    }
}

/// Two sequences of bytes, one byte of each in turn.
pub open spec fn interleaved(u: Seq<u8>, v: Seq<u8>) -> Seq<u8> {
    Seq::new(
        2 * u.len(),
        |i: int|
            if i % 2 == 0 {
                u[i / 2]
            } else {
                v[i / 2]
            },
    )
}

fn interleave(data: &[u8], u_start: usize, v_start: usize, len: usize) -> (both: Vec<u8>)
    requires
        u_start + len <= data@.len(),
        v_start + len <= data@.len(),
    ensures
        both@ == interleaved(
            data@.subrange(u_start as int, u_start + len),
            data@.subrange(v_start as int, v_start + len),
        ),
{
    let data_len: usize = data.len();
    let ghost u = data@.subrange(u_start as int, u_start + len);
    let ghost v = data@.subrange(v_start as int, v_start + len);
    let mut both: Vec<u8> = Vec::new();
    let mut i: usize = 0;
    while i < len
        invariant
            i <= len,
            data@.len() == data_len,
            u_start + len <= data_len,
            v_start + len <= data_len,
            u == data@.subrange(u_start as int, u_start + len),
            v == data@.subrange(v_start as int, v_start + len),
            both@ == interleaved(u.take(i as int), v.take(i as int)),
        decreases len - i,
    {
        both.push(data[u_start + i]);
        both.push(data[v_start + i]);
        i = i + 1;
        proof {
            assert(both@ =~= interleaved(u.take(i as int), v.take(i as int)));
        }
    }
    proof {
        assert(u.take(i as int) =~= u);
        assert(v.take(i as int) =~= v);
    }
    both
}

/// The chroma of a packed frame as NV12 has it: both planes in one, sample by sample.
pub open spec fn nv12_chroma(data: Seq<u8>, width: nat, height: nat) -> Seq<u8> {
    let luma = (height * width) as int;
    let plane = ((height / 2) * (width / 2)) as int;
    interleaved(
        data.subrange(luma, luma + plane),
        data.subrange(luma + plane, luma + 2 * plane),
    )
}

/// Fills the planes of a frame in NV12 from one that is packed in YUV 4:2:0. The
/// luma plane is the same; the other plane holds the two chroma planes, one
/// byte of each in turn. The padding stays as it is.
pub fn yuv420p_to_nv12_frame(data: &[u8], width: u32, height: u32, y: &mut Plane, uv: &mut Plane)
    requires
        frame_len(width as nat, height as nat) <= data@.len(),
        has_room(*old(y), width as nat, height as nat),
        has_room(*old(uv), 2 * (width as nat / 2), height as nat / 2),
    ensures
        ({
            let y_size = height as nat * width as nat;
            let uv_size = (height as nat / 2) * (width as nat / 2);
            &&& rows(final(y).data@, final(y).stride as nat, width as nat, height as nat)
                == data@.take(y_size as int)
            &&& rows(
                final(uv).data@,
                final(uv).stride as nat,
                2 * (width as nat / 2),
                height as nat / 2,
            ) == interleaved(
                data@.subrange(y_size as int, (y_size + uv_size) as int),
                data@.subrange((y_size + uv_size) as int, (y_size + 2 * uv_size) as int),
            )
        }),
        same_padding(*old(y), *final(y), width as nat, height as nat),
        same_padding(*old(uv), *final(uv), 2 * (width as nat / 2), height as nat / 2),
        rows(
            final(uv).data@,
            final(uv).stride as nat,
            2 * (width as nat / 2),
            height as nat / 2,
        ) == nv12_chroma(data@, width as nat, height as nat),
{
    let w: usize = width as usize;
    let h: usize = height as usize;
    let data_len: usize = data.len();
    proof {
        assert(h * w >= 0 && (h / 2) * (w / 2) >= 0) by (nonlinear_arith)
            requires
                h >= 0,
                w >= 0,
                h / 2 >= 0,
                w / 2 >= 0,
        ;
    }
    let y_size: usize = h * w;
    let uv_size: usize = (h / 2) * (w / 2);
    fill_rows(y, data, 0, w, h);
    let both: Vec<u8> = interleave(data, y_size, y_size + uv_size, uv_size);
    proof {
        assert((h / 2) * (2 * (w / 2)) == 2 * ((h / 2) * (w / 2))) by (nonlinear_arith);
    }
    fill_rows(uv, both.as_slice(), 0, 2 * (w / 2), h / 2);
    proof {
        assert(both@.subrange(0, both@.len() as int) =~= both@);
        assert(data@.subrange(0, y_size as int) =~= data@.take(y_size as int));
    }
}

/// A packed frame has the size of a frame, whatever the padding of its planes.
pub proof fn law_packed_frame_len(y: Plane, u: Plane, v: Plane, width: nat, height: nat)
    requires
        holds_rows(y, width, height),
        holds_rows(u, width / 2, height / 2),
        holds_rows(v, width / 2, height / 2),
    ensures
        packed_frame(y, u, v, width, height).len() == frame_len(width, height),
{
    lemma_rows_len(y.data@, y.stride as nat, width, height);
    lemma_rows_len(u.data@, u.stride as nat, width / 2, height / 2);
    lemma_rows_len(v.data@, v.stride as nat, width / 2, height / 2);
}

/// A packed plane holds the visible samples of each row behind those of the row above,
/// and nothing of the padding.
pub proof fn law_rows_are_packed_in_order(
    data: Seq<u8>,
    stride: nat,
    width: nat,
    height: nat,
    row: int,
    column: int,
)
    requires
        height > 0 ==> (height - 1) * stride + width <= data.len(),
        0 <= row < height,
        0 <= column < width,
    ensures
        rows(data, stride, width, height).len() == height * width,
        0 <= row * width + column < height * width,
        rows(data, stride, width, height)[row * width + column] == data[row * stride + column],
    decreases height,
{
    lemma_rows_len(data, stride, width, height);
    let above = (height - 1) as nat;
    lemma_row_below(above as int, height as int, stride as int);
    lemma_row_below(row, height as int, width as int);
    if above > 0 {
        lemma_row_below(above - 1, height as int, stride as int);
    }
    lemma_rows_len(data, stride, width, above);
    assert(height * width == above * width + width) by (nonlinear_arith)
        requires
            height == above + 1,
    ;
    assert(row * width <= above * width) by (nonlinear_arith)
        requires
            0 <= row <= above,
            width >= 0,
    ;
    if row < above {
        law_rows_are_packed_in_order(data, stride, width, above, row, column);
    } else {
        assert(row == above);
    }
}

/// A packed frame is the luma plane, then the first chroma plane, then the second, the
/// chroma ones of half the width and half the height.
pub proof fn law_planes_follow_one_another(
    y: Plane,
    u: Plane,
    v: Plane,
    width: nat,
    height: nat,
)
    requires
        holds_rows(y, width, height),
        holds_rows(u, width / 2, height / 2),
        holds_rows(v, width / 2, height / 2),
    ensures
        ({
            let frame = packed_frame(y, u, v, width, height);
            let luma = (height * width) as int;
            let plane = ((height / 2) * (width / 2)) as int;
            &&& frame.len() == luma + 2 * plane
            &&& frame.take(luma) == rows(y.data@, y.stride as nat, width, height)
            &&& frame.subrange(luma, luma + plane) == rows(
                u.data@,
                u.stride as nat,
                width / 2,
                height / 2,
            )
            &&& frame.skip(luma + plane) == rows(
                v.data@,
                v.stride as nat,
                width / 2,
                height / 2,
            )
        }),
{
    lemma_rows_len(y.data@, y.stride as nat, width, height);
    lemma_rows_len(u.data@, u.stride as nat, width / 2, height / 2);
    lemma_rows_len(v.data@, v.stride as nat, width / 2, height / 2);
    let frame = packed_frame(y, u, v, width, height);
    let luma = (height * width) as int;
    let plane = ((height / 2) * (width / 2)) as int;
    assert(frame.take(luma) =~= rows(y.data@, y.stride as nat, width, height));
    assert(frame.subrange(luma, luma + plane) =~= rows(
        u.data@,
        u.stride as nat,
        width / 2,
        height / 2,
    ));
    assert(frame.skip(luma + plane) =~= rows(v.data@, v.stride as nat, width / 2, height / 2));
}

/// A frame takes one and a half bytes for each sample where both sides are even.
pub proof fn law_frames_take_three_halves(half_width: nat, half_height: nat)
    ensures
        2 * frame_len(2 * half_width, 2 * half_height) == 3 * ((2 * half_width) * (2
            * half_height)),
{
    assert((2 * half_height) / 2 == half_height);
    assert((2 * half_width) / 2 == half_width);
    assert((2 * half_height) * (2 * half_width) == 4 * (half_height * half_width))
        by (nonlinear_arith);
    assert((2 * half_width) * (2 * half_height) == 4 * (half_height * half_width))
        by (nonlinear_arith);
}

/// Of two planes that are put in one, the samples of the first stand at the even places
/// and those of the second at the odd ones.
pub proof fn law_samples_alternate(u: Seq<u8>, v: Seq<u8>, i: int)
    requires
        u.len() == v.len(),
        0 <= i < u.len(),
    ensures
        interleaved(u, v).len() == u.len() + v.len(),
        interleaved(u, v)[2 * i] == u[i],
        interleaved(u, v)[2 * i + 1] == v[i],
{
    assert((2 * i) / 2 == i && (2 * i) % 2 == 0);
    assert((2 * i + 1) / 2 == i && (2 * i + 1) % 2 == 1);
}

/// NV12 takes its samples in turn from the two chroma planes behind the luma plane, the
/// first one first.
pub proof fn law_nv12_takes_the_planes_in_turn(
    data: Seq<u8>,
    width: nat,
    height: nat,
    i: int,
)
    requires
        frame_len(width, height) <= data.len(),
        0 <= i < (height / 2) * (width / 2),
    ensures
        ({
            let luma = height * width;
            let plane = (height / 2) * (width / 2);
            &&& nv12_chroma(data, width, height).len() == 2 * plane
            &&& nv12_chroma(data, width, height)[2 * i] == data[luma + i]
            &&& nv12_chroma(data, width, height)[2 * i + 1] == data[luma + plane + i]
        }),
{
    let luma = (height * width) as int;
    let plane = ((height / 2) * (width / 2)) as int;
    assert(luma >= 0) by (nonlinear_arith)
        requires
            luma == height * width,
            height >= 0,
            width >= 0,
    ;
    law_samples_alternate(
        data.subrange(luma, luma + plane),
        data.subrange(luma + plane, luma + 2 * plane),
        i,
    );
}

/// A place belongs to the picture where it is within the width of one of the rows.
pub proof fn law_places_are_within_rows(row: int, column: int, stride: nat, width: nat, height: nat)
    requires
        0 <= row,
        0 <= column < stride,
        width <= stride,
    ensures
        in_rows(row * stride + column, stride, width, height) <==> row < height && column < width,
{
    let position = row * stride + column;
    if row < height && column < width {
        assert(row * stride <= position < row * stride + width);
    }
    if in_rows(position, stride, width, height) {
        let found = choose|found: int|
            0 <= found < height && #[trigger] (found * stride) <= position < found * stride
                + width;
        assert(found == row) by (nonlinear_arith)
            requires
                found * stride <= row * stride + column,
                row * stride + column < found * stride + width,
                0 <= column < stride,
                width <= stride,
        ;
    }
}

/// The error of a file without video ends in the file's path.
pub proof fn law_no_video_error_names_the_file(path: Seq<char>)
    ensures
        no_video_text(path).skip(no_video_text(path).len() - path.len()) == path,
{
    assert(no_video_text(path).skip(no_video_text(path).len() - path.len()) =~= path);
}

/// Filling a plane leaves its shape and every byte beside the picture.
pub proof fn law_padding_is_left_alone(
    before: Plane,
    after: Plane,
    width: nat,
    height: nat,
    row: int,
    column: int,
)
    requires
        same_padding(before, after, width, height),
        0 <= row,
        width <= column < before.stride,
        row * before.stride + column < before.data@.len(),
    ensures
        after.stride == before.stride,
        after.data@.len() == before.data@.len(),
        after.data@[row * before.stride + column] == before.data@[row * before.stride + column],
{
    law_places_are_within_rows(row, column, before.stride as nat, width, height);
    assert(row * before.stride >= 0) by (nonlinear_arith)
        requires
            row >= 0,
            before.stride >= 0,
    ;
}

} // verus!
