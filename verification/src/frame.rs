//! Decoded and rendered frames: packed pixel buffers with their timeline
//! timestamp, and the black frames used as fallbacks.

use vstd::prelude::*;

verus! {

/// Pixel layout of a frame's byte buffer.
#[derive(Debug, Clone, Copy, PartialEq, Eq, Structural)]
pub enum PixelFormat {
    RGBA,
    RGB,
    YUV420P,
}

/// A decoded video frame: packed bytes in `format`, stamped with the
/// timeline time it was requested at (not the source presentation time).
#[derive(Debug, Clone)]
pub struct Frame {
    pub width: u32,
    pub height: u32,
    pub format: PixelFormat,
    pub data: Vec<u8>,
    pub timestamp_ms: i64,
}

/// Ghost mirror of a `Frame`.
pub ghost struct FrameView {
    pub width: u32,
    pub height: u32,
    pub format: PixelFormat,
    pub data: Seq<u8>,
    pub timestamp_ms: i64,
}

/// A rendered output frame: RGBA for preview, YUV420P for export.
#[derive(Debug, Clone)]
pub struct RenderedFrame {
    pub width: u32,
    pub height: u32,
    /// Packed RGBA bytes, or the three YUV420P planes when `is_yuv`.
    pub data: Vec<u8>,
    pub timestamp_ms: i64,
    pub is_yuv: bool,
}

/// Ghost mirror of a `RenderedFrame`.
pub ghost struct RenderedFrameView {
    pub width: u32,
    pub height: u32,
    pub data: Seq<u8>,
    pub timestamp_ms: i64,
    pub is_yuv: bool,
}

impl View for Frame {
    type V = FrameView;

    open spec fn view(&self) -> FrameView {
        FrameView {
            width: self.width,
            height: self.height,
            format: self.format,
            data: self.data@,
            timestamp_ms: self.timestamp_ms,
        }
    }
}

impl View for RenderedFrame {
    type V = RenderedFrameView;

    open spec fn view(&self) -> RenderedFrameView {
        RenderedFrameView {
            width: self.width,
            height: self.height,
            data: self.data@,
            timestamp_ms: self.timestamp_ms,
            is_yuv: self.is_yuv,
        }
    }
}

/// Byte length of a packed RGBA buffer of the given size.
pub open spec fn rgba_len(width: int, height: int) -> int {
    width * height * 4
}

/// Byte length of a YUV420P buffer: a full Y plane and quarter-size U and
/// V planes.
pub open spec fn yuv420p_len(width: int, height: int) -> int {
    width * height + (width / 2) * (height / 2) * 2
}

/// A copy of a byte buffer with a known contract.
pub fn clone_bytes(v: &Vec<u8>) -> (r: Vec<u8>)
    ensures
        r@ == v@,
{
    let r = v.clone();
    proof {
        assert forall|i: int| 0 <= i < v@.len() implies r@[i] == v@[i] by {
            assert(cloned::<u8>(v@[i], r@[i]));
        }
        assert(r@ =~= v@);
    }
    r
}

/// A vector of `n` zero bytes.
pub fn zero_bytes(n: usize) -> (r: Vec<u8>)
    ensures
        r@.len() == n,
        forall|i: int| 0 <= i < n ==> r@[i] == 0u8,
{
    let mut r: Vec<u8> = Vec::new();
    let mut i: usize = 0;
    while i < n
        invariant
            i <= n,
            r@.len() == i,
            forall|j: int| 0 <= j < i ==> r@[j] == 0u8,
        decreases n - i,
    {
        r.push(0u8);
        i = i + 1;
    }
    r
}

impl Frame {
    /// A copy whose abstract value equals this frame's.
    pub fn duplicate(&self) -> (r: Frame)
        ensures
            r@ == self@,
    {
        Frame {
            width: self.width,
            height: self.height,
            format: self.format,
            data: clone_bytes(&self.data),
            timestamp_ms: self.timestamp_ms,
        }
    }
}

impl RenderedFrame {
    /// A copy whose abstract value equals this frame's.
    pub fn duplicate(&self) -> (r: RenderedFrame)
        ensures
            r@ == self@,
    {
        RenderedFrame {
            width: self.width,
            height: self.height,
            data: clone_bytes(&self.data),
            timestamp_ms: self.timestamp_ms,
            is_yuv: self.is_yuv,
        }
    }

    /// The same frame restamped with a new timeline time.
    pub fn duplicate_at(&self, timestamp_ms: i64) -> (r: RenderedFrame)
        ensures
            r@ == (RenderedFrameView { timestamp_ms, ..self@ }),
    {
        RenderedFrame {
            width: self.width,
            height: self.height,
            data: clone_bytes(&self.data),
            timestamp_ms,
            is_yuv: self.is_yuv,
        }
    }
}

/// An all-black RGBA frame at the preview resolution of 960x540.
pub fn black_frame(timestamp_ms: i64) -> (r: RenderedFrame)
    ensures
        r.width == 960,
        r.height == 540,
        r@.data.len() == rgba_len(960, 540),
        forall|i: int| 0 <= i < r@.data.len() ==> r@.data[i] == 0u8,
        r.timestamp_ms == timestamp_ms,
        !r.is_yuv,
{
    black_frame_with_size(960, 540, timestamp_ms)
}

/// An all-black RGBA frame of the given size.
pub fn black_frame_with_size(width: u32, height: u32, timestamp_ms: i64) -> (r: RenderedFrame)
    requires
        rgba_len(width as int, height as int) <= usize::MAX,
    ensures
        r.width == width,
        r.height == height,
        r@.data.len() == rgba_len(width as int, height as int),
        forall|i: int| 0 <= i < r@.data.len() ==> r@.data[i] == 0u8,
        r.timestamp_ms == timestamp_ms,
        !r.is_yuv,
{
    proof {
        assert((width as int) * (height as int) * 4 >= 0) by (nonlinear_arith);
        assert((width as int) * (height as int) <= (width as int) * (height as int) * 4)
            by (nonlinear_arith);
    }
    let size: usize = (width as usize) * (height as usize) * 4;
    RenderedFrame { width, height, data: zero_bytes(size), timestamp_ms, is_yuv: false }
}

/// A black YUV420P frame of the given size: zero luma, neutral (128)
/// chroma.
pub fn black_frame_yuv(width: u32, height: u32, timestamp_ms: i64) -> (r: RenderedFrame)
    requires
        yuv420p_len(width as int, height as int) <= usize::MAX,
    ensures
        r.width == width,
        r.height == height,
        r@.data.len() == yuv420p_len(width as int, height as int),
        forall|i: int| 0 <= i < (width as int) * (height as int) ==> r@.data[i] == 0u8,
        forall|i: int|
            (width as int) * (height as int) <= i < r@.data.len() ==> r@.data[i] == 128u8,
        r.timestamp_ms == timestamp_ms,
        r.is_yuv,
{
    proof {
        assert((width as int) * (height as int) >= 0) by (nonlinear_arith);
        assert(((width as int) / 2) * ((height as int) / 2) >= 0) by (nonlinear_arith);
        assert((width as int) * (height as int) <= yuv420p_len(width as int, height as int));
    }
    let y_size: usize = (width as usize) * (height as usize);
    let uv_size: usize = ((width / 2) as usize) * ((height / 2) as usize);
    let total: usize = y_size + uv_size * 2;
    let mut data = zero_bytes(y_size);
    let mut i: usize = y_size;
    while i < total
        invariant
            y_size <= i <= total,
            data@.len() == i,
            forall|j: int| 0 <= j < y_size ==> data@[j] == 0u8,
            forall|j: int| y_size <= j < i ==> data@[j] == 128u8,
        decreases total - i,
    {
        data.push(128u8);
        i = i + 1;
    }
    RenderedFrame { width, height, data, timestamp_ms, is_yuv: true }
}

/// The source byte a nearest-neighbour downscale reads for destination
/// byte `i`: the same channel of the source pixel nearest the destination
/// pixel.
pub open spec fn nearest_byte(
    src: Seq<u8>,
    src_w: int,
    src_h: int,
    dst_w: int,
    dst_h: int,
    i: int,
) -> u8 {
    let c = i % 4;
    let pi = i / 4;
    let y = pi / dst_w;
    let x = pi % dst_w;
    let sy = y * src_h / dst_h;
    let sx = x * src_w / dst_w;
    src[(sy * src_w + sx) * 4 + c]
}

/// Scale a packed RGBA frame down (or up) by nearest-neighbour sampling.
pub fn downscale_nearest(
    src: &Vec<u8>,
    src_w: u32,
    src_h: u32,
    dst_w: u32,
    dst_h: u32,
) -> (r: Vec<u8>)
    requires
        1 <= src_w <= 8192,
        1 <= src_h <= 8192,
        1 <= dst_w <= 8192,
        1 <= dst_h <= 8192,
        src@.len() == rgba_len(src_w as int, src_h as int),
    ensures
        r@.len() == rgba_len(dst_w as int, dst_h as int),
        forall|i: int|
            0 <= i < r@.len() ==> #[trigger] r@[i] == nearest_byte(
                src@,
                src_w as int,
                src_h as int,
                dst_w as int,
                dst_h as int,
                i,
            ),
{
    let sw = src_w as usize;
    let sh = src_h as usize;
    let dw = dst_w as usize;
    let dh = dst_h as usize;
    proof {
        assert((dst_w as int) * (dst_h as int) * 4 <= 8192 * 8192 * 4) by (nonlinear_arith)
            requires
                dst_w <= 8192,
                dst_h <= 8192,
        ;
        assert((dst_h as int) * ((dst_w as int) * 4) == rgba_len(dst_w as int, dst_h as int))
            by (nonlinear_arith);
        assert((src_h as int) * ((src_w as int) * 4) == rgba_len(src_w as int, src_h as int))
            by (nonlinear_arith);
        assert((src_h as int) * ((src_w as int) * 4) <= 8192 * 8192 * 4) by (nonlinear_arith)
            requires
                src_w <= 8192,
                src_h <= 8192,
        ;
    }
    let mut out: Vec<u8> = Vec::new();
    let mut y: usize = 0;
    while y < dh
        invariant
            sw == src_w,
            sh == src_h,
            dw == dst_w,
            dh == dst_h,
            1 <= sw <= 8192,
            1 <= sh <= 8192,
            1 <= dw <= 8192,
            1 <= dh <= 8192,
            src@.len() == rgba_len(src_w as int, src_h as int),
            src@.len() <= 8192 * 8192 * 4,
            y <= dh,
            out@.len() == y * (dw * 4),
            (dh as int) * ((dw as int) * 4) == rgba_len(dst_w as int, dst_h as int),
            forall|i: int|
                0 <= i < out@.len() ==> #[trigger] out@[i] == nearest_byte(
                    src@,
                    src_w as int,
                    src_h as int,
                    dst_w as int,
                    dst_h as int,
                    i,
                ),
        decreases dh - y,
    {
        proof {
            assert((y as int) * (sh as int) < (dh as int) * (sh as int)) by (nonlinear_arith)
                requires
                    y < dh,
                    sh >= 1,
            ;
            assert((dh as int) * (sh as int) <= 8192 * 8192) by (nonlinear_arith)
                requires
                    dh <= 8192,
                    sh <= 8192,
            ;
            assert((y as int) * (sh as int) >= 0) by (nonlinear_arith)
                requires
                    y >= 0,
                    sh >= 0,
            ;
            assert((y as int) * (sh as int) / (dh as int) < sh as int) by (nonlinear_arith)
                requires
                    (y as int) * (sh as int) < (dh as int) * (sh as int),
                    (y as int) * (sh as int) >= 0,
                    dh >= 1,
                    sh >= 1,
                    y < dh,
            ;
        }
        let sy: usize = y * sh / dh;
        let mut x: usize = 0;
        while x < dw
            invariant
                sw == src_w,
                sh == src_h,
                dw == dst_w,
                dh == dst_h,
                1 <= sw <= 8192,
                1 <= sh <= 8192,
                1 <= dw <= 8192,
                1 <= dh <= 8192,
                src@.len() == rgba_len(src_w as int, src_h as int),
                y < dh,
                sy == (y as int) * (sh as int) / (dh as int),
                sy < sh,
                x <= dw,
                out@.len() == y * (dw * 4) + x * 4,
                (dh as int) * ((dw as int) * 4) == rgba_len(dst_w as int, dst_h as int),
                forall|i: int|
                    0 <= i < out@.len() ==> #[trigger] out@[i] == nearest_byte(
                        src@,
                        src_w as int,
                        src_h as int,
                        dst_w as int,
                        dst_h as int,
                        i,
                    ),
            decreases dw - x,
        {
            proof {
                assert((x as int) * (sw as int) < (dw as int) * (sw as int)) by (nonlinear_arith)
                    requires
                        x < dw,
                        sw >= 1,
                ;
                assert((dw as int) * (sw as int) <= 8192 * 8192) by (nonlinear_arith)
                    requires
                        dw <= 8192,
                        sw <= 8192,
                ;
                assert((x as int) * (sw as int) >= 0) by (nonlinear_arith)
                    requires
                        x >= 0,
                        sw >= 0,
                ;
                assert((x as int) * (sw as int) / (dw as int) < sw as int) by (nonlinear_arith)
                    requires
                        (x as int) * (sw as int) < (dw as int) * (sw as int),
                        (x as int) * (sw as int) >= 0,
                        dw >= 1,
                        sw >= 1,
                        x < dw,
                ;
            }
            let sx: usize = x * sw / dw;
            proof {
                assert(((sy as int) * sw + sx) * 4 + 4 <= (sh as int) * ((sw as int) * 4))
                    by (nonlinear_arith)
                    requires
                        0 <= sy < sh,
                        0 <= sx < sw,
                ;
                assert(((sy as int) * sw + sx) * 4 >= 0) by (nonlinear_arith)
                    requires
                        sy >= 0,
                        sx >= 0,
                        sw >= 0,
                ;
                assert((sh as int) * ((sw as int) * 4) == rgba_len(src_w as int, src_h as int))
                    by (nonlinear_arith)
                    requires
                        sw == src_w as int,
                        sh == src_h as int,
                ;
                assert((sh as int) * ((sw as int) * 4) <= 8192 * 8192 * 4) by (nonlinear_arith)
                    requires
                        sw <= 8192,
                        sh <= 8192,
                ;
            }
            let src_index: usize = (sy * sw + sx) * 4;
            let ghost dst_pi = (y as int) * (dw as int) + (x as int);
            proof {
                assert(dst_pi * 4 == (y as int) * ((dw as int) * 4) + (x as int) * 4)
                    by (nonlinear_arith)
                    requires
                        dst_pi == (y as int) * (dw as int) + (x as int),
                ;
                vstd::arithmetic::div_mod::lemma_fundamental_div_mod_converse(
                    dst_pi,
                    dw as int,
                    y as int,
                    x as int,
                );
            }
            let mut c: usize = 0;
            while c < 4
                invariant
                    sw == src_w,
                    dw == dst_w,
                    src@.len() == rgba_len(src_w as int, src_h as int),
                    src_index == ((sy as int) * sw + sx) * 4,
                    src_index + 4 <= src@.len(),
                    sy == (y as int) * (src_h as int) / (dst_h as int),
                    sx == (x as int) * (sw as int) / (dw as int),
                    dst_pi == (y as int) * (dw as int) + (x as int),
                    dst_pi / (dw as int) == y as int,
                    dst_pi % (dw as int) == x as int,
                    out@.len() == dst_pi * 4 + c,
                    c <= 4,
                    forall|i: int|
                        0 <= i < out@.len() ==> #[trigger] out@[i] == nearest_byte(
                            src@,
                            src_w as int,
                            src_h as int,
                            dst_w as int,
                            dst_h as int,
                            i,
                        ),
                decreases 4 - c,
            {
                proof {
                    vstd::arithmetic::div_mod::lemma_fundamental_div_mod_converse(
                        dst_pi * 4 + c as int,
                        4,
                        dst_pi,
                        c as int,
                    );
                }
                out.push(src[src_index + c]);
                c = c + 1;
            }
            proof {
                assert((y as int) * ((dw as int) * 4) + ((x + 1) as int) * 4 == dst_pi * 4 + 4)
                    by (nonlinear_arith)
                    requires
                        dst_pi == (y as int) * (dw as int) + (x as int),
                ;
            }
            x = x + 1;
        }
        proof {
            assert(((y + 1) as int) * ((dw as int) * 4) == (y as int) * ((dw as int) * 4) + (
            dw as int) * 4) by (nonlinear_arith);
        }
        y = y + 1;
    }
    proof {
        assert((dh as int) * ((dw as int) * 4) == rgba_len(dst_w as int, dst_h as int));
    }
    out
}

} // verus!
