//! The stateful video decode policy: a state machine deciding, for each
//! requested timestamp, whether to serve the cached frame, accept the next
//! decoded frame, pull packets forward, or seek first — and how the state
//! recovers from end of stream and errors. The container and codec calls
//! themselves live outside; they feed their outcomes back into this state.

use vstd::prelude::*;
use crate::clip::MAX_TIME_MS;
use crate::frame::{rgba_len, yuv420p_len, Frame, PixelFormat};

verus! {

/// Decoder life-cycle state. Only `Ready` produces fresh frames; a
/// successful seek returns any state to `Ready`.
#[derive(Debug, Clone, Copy, PartialEq, Eq, Structural)]
pub enum DecoderState {
    Ready,
    EndOfStream,
    Error,
}

/// What a decode request produced.
#[derive(Debug)]
pub enum DecodeResult {
    /// A fresh frame at the requested time.
    Frame(Frame),
    /// A transient failure; the caller should reuse its previous frame.
    FrameSkipped,
    /// End of stream, serving the last good frame.
    EndOfStream(Frame),
    /// End of stream with no frame ever produced.
    EndOfStreamEmpty,
}

/// How a requested timestamp is reached from the current position.
#[derive(Debug, Clone, Copy, PartialEq, Eq, Structural)]
pub enum DecodePlan {
    /// Serve from the last decoded frame without touching the stream.
    ReturnCached,
    /// Accept the very next decoded frame, with no presentation-time check.
    Immediate,
    /// Pull packets forward until a frame reaches the target time.
    ForwardDecode,
    /// Seek the container first, then pull forward to the target.
    SeekThenDecode,
}

/// The decode policy state for one open video stream.
pub struct Decoder {
    pub width: u32,
    pub height: u32,
    /// Frame rate in thousandths of a frame per second.
    pub fps_millis: u32,
    pub duration_ms: i64,
    /// The last requested timestamp; -1 before the first request.
    pub last_timestamp_ms: i64,
    pub state: DecoderState,
    /// The last successfully decoded frame, served at end of stream and on
    /// errors.
    pub last_decoded_frame: Option<Frame>,
    /// Requests at most this far ahead of the last one are served by
    /// forward decoding; farther ones seek.
    pub forward_threshold_ms: i64,
    /// Where a scan hit end of stream; requests at or past it short-circuit
    /// to the cached frame. Cleared by any earlier request or a seek.
    pub eof_timestamp_ms: Option<i64>,
    /// Whether frames are produced as YUV420P (export) instead of RGBA.
    pub yuv_output: bool,
}

impl Decoder {
    /// Well-formedness: times within the supported range.
    pub open spec fn valid(self) -> bool {
        &&& -1 <= self.last_timestamp_ms <= MAX_TIME_MS
        &&& 0 <= self.forward_threshold_ms <= MAX_TIME_MS
        &&& 0 <= self.duration_ms <= MAX_TIME_MS
        &&& match self.eof_timestamp_ms {
            Some(e) => 0 <= e <= MAX_TIME_MS,
            None => true,
        }
    }

    /// Duration of one frame in ms, at least 1.
    pub open spec fn spec_frame_duration_ms(self) -> int {
        if self.fps_millis == 0 {
            1
        } else if 1_000_000int / (self.fps_millis as int) < 1 {
            1
        } else {
            1_000_000int / (self.fps_millis as int)
        }
    }

    /// The decision table of `decode_frame`, on the state before the
    /// request:
    /// in `Error`, or at or past a recorded end of stream, serve the cached
    /// frame; within two frame durations ahead, accept the next frame;
    /// within the forward threshold ahead, forward-decode with a
    /// presentation-time check; otherwise seek first.
    pub open spec fn spec_classify(self, t: int) -> DecodePlan {
        if self.state == DecoderState::Error {
            DecodePlan::ReturnCached
        } else if match self.eof_timestamp_ms {
            Some(e) => t >= e,
            None => false,
        } {
            DecodePlan::ReturnCached
        } else {
            let fd = self.spec_frame_duration_ms();
            let is_ahead = self.state == DecoderState::Ready && t >= self.last_timestamp_ms;
            let gap = t - self.last_timestamp_ms;
            if is_ahead && gap <= 2 * fd {
                DecodePlan::Immediate
            } else if is_ahead && gap <= self.forward_threshold_ms {
                DecodePlan::ForwardDecode
            } else {
                DecodePlan::SeekThenDecode
            }
        }
    }

    pub fn new(width: u32, height: u32, fps_millis: u32, duration_ms: i64, yuv_output: bool) -> (d:
        Decoder)
        requires
            0 <= duration_ms <= MAX_TIME_MS,
        ensures
            d.valid(),
            d.width == width,
            d.height == height,
            d.fps_millis == fps_millis,
            d.duration_ms == duration_ms,
            d.last_timestamp_ms == -1,
            d.state == DecoderState::Ready,
            d.last_decoded_frame is None,
            d.forward_threshold_ms == 100,
            d.eof_timestamp_ms is None,
            d.yuv_output == yuv_output,
    {
        Decoder {
            width,
            height,
            fps_millis,
            duration_ms,
            last_timestamp_ms: -1,
            state: DecoderState::Ready,
            last_decoded_frame: None,
            forward_threshold_ms: 100,
            eof_timestamp_ms: None,
            yuv_output,
        }
    }

    /// Raise or lower the forward-decode threshold (high for sequential
    /// playback, low for exact scrubbing).
    pub fn set_forward_threshold(&mut self, threshold_ms: i64)
        requires
            old(self).valid(),
            0 <= threshold_ms <= MAX_TIME_MS,
        ensures
            *final(self) == (Decoder { forward_threshold_ms: threshold_ms, ..*old(self) }),
            final(self).valid(),
    {
        self.forward_threshold_ms = threshold_ms;
    }

    /// Duration of one frame in ms, at least 1.
    pub fn frame_duration_ms(&self) -> (r: i64)
        ensures
            r == self.spec_frame_duration_ms(),
            1 <= r <= 1_000_000,
    {
        if self.fps_millis == 0 {
            1
        } else {
            let fd: i64 = 1_000_000i64 / (self.fps_millis as i64);
            if fd < 1 {
                1
            } else {
                fd
            }
        }
    }

    /// Classify a request and clear a stale end-of-stream marker: a request
    /// before the recorded end of stream means the caller seeks backwards,
    /// so the marker no longer applies. When the cached frame is to be
    /// served, nothing changes.
    pub fn begin_request(&mut self, timestamp_ms: i64) -> (r: DecodePlan)
        requires
            old(self).valid(),
            -MAX_TIME_MS <= timestamp_ms <= MAX_TIME_MS,
        ensures
            final(self).valid(),
            r == old(self).spec_classify(timestamp_ms as int),
            r == DecodePlan::ReturnCached ==> *final(self) == *old(self),
            r != DecodePlan::ReturnCached ==> *final(self) == (Decoder {
                eof_timestamp_ms: None,
                ..*old(self)
            }),
    {
        if matches!(self.state, DecoderState::Error) {
            return DecodePlan::ReturnCached;
        }
        match self.eof_timestamp_ms {
            Some(e) => {
                if timestamp_ms >= e {
                    return DecodePlan::ReturnCached;
                }
                self.eof_timestamp_ms = None;
            },
            None => {},
        }
        let fd = self.frame_duration_ms();
        let is_ahead = matches!(self.state, DecoderState::Ready) && timestamp_ms
            >= self.last_timestamp_ms;
        if is_ahead {
            let gap = timestamp_ms - self.last_timestamp_ms;
            if gap <= 2 * fd {
                return DecodePlan::Immediate;
            }
            if gap <= self.forward_threshold_ms {
                return DecodePlan::ForwardDecode;
            }
        }
        DecodePlan::SeekThenDecode
    }

    /// Record the requested timestamp as the new position.
    pub fn commit_target(&mut self, timestamp_ms: i64)
        requires
            old(self).valid(),
            0 <= timestamp_ms <= MAX_TIME_MS,
        ensures
            *final(self) == (Decoder { last_timestamp_ms: timestamp_ms, ..*old(self) }),
            final(self).valid(),
    {
        self.last_timestamp_ms = timestamp_ms;
    }

    /// A successful container seek recovers any state to `Ready` and
    /// clears the end-of-stream marker.
    pub fn on_seek_success(&mut self)
        requires
            old(self).valid(),
        ensures
            *final(self) == (Decoder {
                state: DecoderState::Ready,
                eof_timestamp_ms: None,
                ..*old(self)
            }),
            final(self).valid(),
    {
        self.state = DecoderState::Ready;
        self.eof_timestamp_ms = None;
    }

    /// A seek that failed twice leaves the decoder unusable.
    pub fn on_seek_failed(&mut self)
        requires
            old(self).valid(),
        ensures
            *final(self) == (Decoder { state: DecoderState::Error, ..*old(self) }),
            final(self).valid(),
    {
        self.state = DecoderState::Error;
    }

    /// What `decode_frame` returns when a needed seek failed: the request
    /// is skipped if any frame was ever produced, else the stream counts as
    /// empty.
    pub fn seek_failure_result(&self) -> (r: DecodeResult)
        ensures
            match r {
                DecodeResult::FrameSkipped => self.last_decoded_frame is Some,
                DecodeResult::EndOfStreamEmpty => self.last_decoded_frame is None,
                _ => false,
            },
    {
        match &self.last_decoded_frame {
            Some(_) => DecodeResult::FrameSkipped,
            None => DecodeResult::EndOfStreamEmpty,
        }
    }

    /// The cached fallback: the last good frame at end of stream, or the
    /// empty outcome.
    pub fn cached_result(&self) -> (r: DecodeResult)
        ensures
            match r {
                DecodeResult::EndOfStream(f) => match self.last_decoded_frame {
                    Some(g) => f@ == g@,
                    None => false,
                },
                DecodeResult::EndOfStreamEmpty => self.last_decoded_frame is None,
                _ => false,
            },
    {
        match &self.last_decoded_frame {
            Some(f) => DecodeResult::EndOfStream(f.duplicate()),
            None => DecodeResult::EndOfStreamEmpty,
        }
    }

    /// A scan produced a frame at the target: remember it, return to
    /// `Ready`, and hand it out.
    pub fn on_frame_decoded(&mut self, frame: Frame) -> (r: DecodeResult)
        requires
            old(self).valid(),
        ensures
            final(self).valid(),
            final(self).state == DecoderState::Ready,
            match final(self).last_decoded_frame {
                Some(g) => g@ == frame@,
                None => false,
            },
            final(self).eof_timestamp_ms == old(self).eof_timestamp_ms,
            final(self).last_timestamp_ms == old(self).last_timestamp_ms,
            final(self).forward_threshold_ms == old(self).forward_threshold_ms,
            final(self).width == old(self).width,
            final(self).height == old(self).height,
            final(self).duration_ms == old(self).duration_ms,
            match r {
                DecodeResult::Frame(f) => f@ == frame@,
                _ => false,
            },
    {
        let out = frame.duplicate();
        self.last_decoded_frame = Some(frame);
        self.state = DecoderState::Ready;
        DecodeResult::Frame(out)
    }

    /// A scan exhausted the container: record end of stream at the
    /// requested time, and serve the latest frame seen during the scan (the
    /// end of a short proxy), else the cached frame, else the empty
    /// outcome.
    pub fn on_scan_eof(&mut self, timestamp_ms: i64, latest_seen: Option<Frame>) -> (r:
        DecodeResult)
        requires
            old(self).valid(),
            0 <= timestamp_ms <= MAX_TIME_MS,
        ensures
            final(self).valid(),
            final(self).state == DecoderState::EndOfStream,
            final(self).eof_timestamp_ms == Some(timestamp_ms),
            final(self).last_timestamp_ms == old(self).last_timestamp_ms,
            final(self).forward_threshold_ms == old(self).forward_threshold_ms,
            match latest_seen {
                Some(f) => {
                    &&& match final(self).last_decoded_frame {
                        Some(g) => g@ == f@,
                        None => false,
                    }
                    &&& match r {
                        DecodeResult::EndOfStream(h) => h@ == f@,
                        _ => false,
                    }
                },
                None => {
                    &&& final(self).last_decoded_frame == old(self).last_decoded_frame
                    &&& match r {
                        DecodeResult::EndOfStream(h) => match old(self).last_decoded_frame {
                            Some(g) => h@ == g@,
                            None => false,
                        },
                        DecodeResult::EndOfStreamEmpty => old(self).last_decoded_frame is None,
                        _ => false,
                    }
                },
            },
    {
        self.state = DecoderState::EndOfStream;
        self.eof_timestamp_ms = Some(timestamp_ms);
        match latest_seen {
            Some(f) => {
                let out = f.duplicate();
                self.last_decoded_frame = Some(f);
                DecodeResult::EndOfStream(out)
            },
            None => self.cached_result(),
        }
    }

    /// A scan hit its packet cap without reaching the target: the request
    /// is skipped, nothing changes.
    pub fn on_scan_exhausted(&self) -> (r: DecodeResult)
        ensures
            matches!(r, DecodeResult::FrameSkipped),
    {
        DecodeResult::FrameSkipped
    }
}

/// The byte at flat index `i` of a packed plane copied from a strided
/// source: bytes of rows that fit the source come from it; others keep the
/// destination's prior value.
pub open spec fn plane_byte(
    dst0: Seq<u8>,
    dst_off: int,
    row_w: int,
    src: Seq<u8>,
    stride: int,
    i: int,
) -> u8 {
    let j = i - dst_off;
    let r = j / row_w;
    let c = j % row_w;
    if r * stride + row_w <= src.len() {
        src[r * stride + c]
    } else {
        dst0[i]
    }
}

/// Pack a scaled RGBA frame row by row, honoring a source stride that can
/// exceed the packed row width; a source buffer too small for the declared
/// size (a truncated frame from the codec) is rejected rather than read
/// past its end.
pub fn extract_rgba_frame(
    width: u32,
    height: u32,
    src_data: &[u8],
    stride: usize,
    timestamp_ms: i64,
) -> (res: Result<Frame, String>)
    requires
        1 <= width,
        1 <= height,
        rgba_len(width as int, height as int) <= usize::MAX,
    ensures
        match res {
            Ok(f) => {
                &&& stride >= width * 4
                &&& src_data@.len() >= (height - 1) * stride + width * 4
                &&& f.width == width
                &&& f.height == height
                &&& f.format == PixelFormat::RGBA
                &&& f.timestamp_ms == timestamp_ms
                &&& f.data@.len() == rgba_len(width as int, height as int)
                &&& forall|i: int|
                    0 <= i < f.data@.len() ==> #[trigger] f.data@[i] == src_data@[(i / ((
                    width as int) * 4)) * stride + i % ((width as int) * 4)]
            },
            Err(_) => stride < width * 4 || src_data@.len() < (height - 1) * stride + width * 4,
        },
{
    let w = width as usize;
    let h = height as usize;
    proof {
        assert((width as int) * (height as int) * 4 == (height as int) * ((width as int) * 4))
            by (nonlinear_arith);
        assert((width as int) * 4 <= (height as int) * ((width as int) * 4)) by (nonlinear_arith)
            requires
                height >= 1,
                width >= 0,
        ;
    }
    let row: usize = w * 4;
    let src_len = src_data.len();
    if stride < row {
        return Err(String::from_str("frame stride is smaller than the packed row width"));
    }
    let base = match (h - 1).checked_mul(stride) {
        Some(b) => b,
        None => {
            proof {
                assert((height - 1) * stride + width * 4 > usize::MAX);
            }
            return Err(String::from_str("frame data too small for the declared size"));
        },
    };
    let required = match base.checked_add(row) {
        Some(n) => n,
        None => {
            return Err(String::from_str("frame data too small for the declared size"));
        },
    };
    if src_len < required {
        return Err(String::from_str("frame data too small for the declared size"));
    }
    let mut data: Vec<u8> = Vec::new();
    let mut y: usize = 0;
    while y < h
        invariant
            h == height,
            w == width,
            row == w * 4,
            1 <= w,
            1 <= h,
            stride >= row,
            src_len == src_data@.len(),
            src_data@.len() >= (h - 1) * stride + row,
            (h as int) * (row as int) <= usize::MAX,
            y <= h,
            data@.len() == y * row,
            forall|i: int|
                0 <= i < data@.len() ==> #[trigger] data@[i] == src_data@[(i / (row as int))
                    * stride + i % (row as int)],
        decreases h - y,
    {
        proof {
            assert((y as int) * stride <= ((h - 1) as int) * stride) by (nonlinear_arith)
                requires
                    y < h,
                    stride >= 0,
            ;
            assert((y as int) * row + row <= (h as int) * row) by (nonlinear_arith)
                requires
                    y < h,
                    row >= 0,
            ;
            assert((y as int) * row >= 0) by (nonlinear_arith)
                requires
                    y >= 0,
                    row >= 0,
            ;
        }
        let src_off: usize = y * stride;
        let mut k: usize = 0;
        while k < row
            invariant
                h == height,
                w == width,
                row == w * 4,
                stride >= row,
                1 <= w,
                src_len == src_data@.len(),
                src_data@.len() >= (h - 1) * stride + row,
                (h as int) * (row as int) <= usize::MAX,
                y < h,
                src_off == y * stride,
                src_off + row <= src_data@.len(),
                (y as int) * row + row <= (h as int) * row,
                k <= row,
                data@.len() == y * row + k,
                forall|i: int|
                    0 <= i < data@.len() ==> #[trigger] data@[i] == src_data@[(i / (row as int))
                        * stride + i % (row as int)],
            decreases row - k,
        {
            proof {
                vstd::arithmetic::div_mod::lemma_fundamental_div_mod_converse(
                    (y as int) * (row as int) + (k as int),
                    row as int,
                    y as int,
                    k as int,
                );
            }
            data.push(src_data[src_off + k]);
            k = k + 1;
        }
        proof {
            assert(((y + 1) as int) * row == (y as int) * row + row) by (nonlinear_arith);
        }
        y = y + 1;
    }
    proof {
        assert((h as int) * (row as int) == rgba_len(width as int, height as int))
            by (nonlinear_arith)
            requires
                row == (width as int) * 4,
                h == height as int,
                w == width as int,
        ;
    }
    Ok(Frame { width, height, format: PixelFormat::RGBA, data, timestamp_ms })
}

/// Copy `rows` rows of `row_w` bytes from a strided source plane into
/// `dst` starting at `dst_off`; a source row that does not fit (a short
/// plane) is skipped, leaving the destination row as it was.
fn copy_plane_rows(
    dst: &mut Vec<u8>,
    dst_off: usize,
    row_w: usize,
    rows: usize,
    src: &[u8],
    stride: usize,
)
    requires
        row_w >= 1,
        dst_off + rows * row_w <= old(dst)@.len(),
    ensures
        final(dst)@.len() == old(dst)@.len(),
        forall|i: int|
            0 <= i < old(dst)@.len() ==> #[trigger] final(dst)@[i] == (if dst_off <= i < dst_off
                + rows * row_w {
                plane_byte(old(dst)@, dst_off as int, row_w as int, src@, stride as int, i)
            } else {
                old(dst)@[i]
            }),
{
    let src_len = src.len();
    let dlen = dst.len();
    let mut r: usize = 0;
    while r < rows
        invariant
            row_w >= 1,
            src_len == src@.len(),
            dlen == dst@.len(),
            dst_off + rows * row_w <= dst@.len(),
            dst@.len() == old(dst)@.len(),
            r <= rows,
            (r as int) * row_w <= (rows as int) * row_w,
            forall|i: int|
                0 <= i < dst@.len() ==> #[trigger] dst@[i] == (if dst_off <= i < dst_off + r
                    * row_w {
                    plane_byte(old(dst)@, dst_off as int, row_w as int, src@, stride as int, i)
                } else {
                    old(dst)@[i]
                }),
        decreases rows - r,
    {
        proof {
            assert((r as int) * row_w + row_w <= (rows as int) * row_w) by (nonlinear_arith)
                requires
                    r < rows,
                    row_w >= 0,
            ;
            assert((r as int) * row_w >= 0) by (nonlinear_arith)
                requires
                    r >= 0,
                    row_w >= 0,
            ;
            assert(((r + 1) as int) * row_w == (r as int) * row_w + row_w) by (nonlinear_arith);
        }
        let fits = match r.checked_mul(stride) {
            Some(base) => match base.checked_add(row_w) {
                Some(need) => need <= src_len,
                None => false,
            },
            None => false,
        };
        proof {
            assert(fits == ((r as int) * stride + row_w <= src@.len()));
        }
        if fits {
            let src_off: usize = r * stride;
            let dst_row: usize = dst_off + r * row_w;
            let mut c: usize = 0;
            while c < row_w
                invariant
                    row_w >= 1,
                    src_len == src@.len(),
                    dlen == dst@.len(),
                    dst_off + rows * row_w <= dst@.len(),
                    dst@.len() == old(dst)@.len(),
                    r < rows,
                    src_off == r * stride,
                    dst_row == dst_off + r * row_w,
                    (r as int) * row_w + row_w <= (rows as int) * row_w,
                    src_off + row_w <= src@.len(),
                    c <= row_w,
                    forall|i: int|
                        0 <= i < dst@.len() ==> #[trigger] dst@[i] == (if dst_off <= i < dst_off
                            + r * row_w {
                            plane_byte(
                                old(dst)@,
                                dst_off as int,
                                row_w as int,
                                src@,
                                stride as int,
                                i,
                            )
                        } else if dst_row <= i < dst_row + c {
                            src@[r * stride + (i - dst_row)]
                        } else {
                            old(dst)@[i]
                        }),
                decreases row_w - c,
            {
                dst.set(dst_row + c, src[src_off + c]);
                c = c + 1;
            }
            proof {
                assert forall|i: int| dst_row <= i < dst_row + row_w implies plane_byte(
                    old(dst)@,
                    dst_off as int,
                    row_w as int,
                    src@,
                    stride as int,
                    i,
                ) == src@[(r as int) * stride + (i - dst_row)] by {
                    vstd::arithmetic::div_mod::lemma_fundamental_div_mod_converse(
                        i - dst_off,
                        row_w as int,
                        r as int,
                        i - dst_row,
                    );
                }
            }
        } else {
            proof {
                assert forall|i: int| dst_off + (r as int) * row_w <= i < dst_off + ((r + 1) as int)
                    * row_w implies plane_byte(
                    old(dst)@,
                    dst_off as int,
                    row_w as int,
                    src@,
                    stride as int,
                    i,
                ) == old(dst)@[i] by {
                    vstd::arithmetic::div_mod::lemma_fundamental_div_mod_converse(
                        i - dst_off,
                        row_w as int,
                        r as int,
                        i - (dst_off + (r as int) * row_w),
                    );
                }
            }
        }
        r = r + 1;
    }
}

/// Pack a scaled YUV420P frame from its three strided planes: a full-size
/// Y plane, then quarter-size U and V planes. A plane row that does not
/// fit its source stays zero rather than reading past the buffer.
pub fn extract_yuv_frame(
    width: u32,
    height: u32,
    y_data: &[u8],
    y_stride: usize,
    u_data: &[u8],
    u_stride: usize,
    v_data: &[u8],
    v_stride: usize,
    timestamp_ms: i64,
) -> (f: Frame)
    requires
        width >= 2,
        height >= 2,
        yuv420p_len(width as int, height as int) <= usize::MAX,
    ensures
        f.width == width,
        f.height == height,
        f.format == PixelFormat::YUV420P,
        f.timestamp_ms == timestamp_ms,
        f.data@.len() == yuv420p_len(width as int, height as int),
        ({
            let w = width as int;
            let h = height as int;
            let y_size = w * h;
            let uv = (w / 2) * (h / 2);
            let zeros = Seq::new(f.data@.len(), |i: int| 0u8);
            &&& forall|i: int|
                0 <= i < y_size ==> #[trigger] f.data@[i] == plane_byte(
                    zeros,
                    0,
                    w,
                    y_data@,
                    y_stride as int,
                    i,
                )
            &&& forall|i: int|
                y_size <= i < y_size + uv ==> #[trigger] f.data@[i] == plane_byte(
                    zeros,
                    y_size,
                    w / 2,
                    u_data@,
                    u_stride as int,
                    i,
                )
            &&& forall|i: int|
                y_size + uv <= i < y_size + 2 * uv ==> #[trigger] f.data@[i] == plane_byte(
                    zeros,
                    y_size + uv,
                    w / 2,
                    v_data@,
                    v_stride as int,
                    i,
                )
        }),
{
    let w = width as usize;
    let h = height as usize;
    proof {
        assert((width as int) * (height as int) >= 0) by (nonlinear_arith);
        assert(((width as int) / 2) * ((height as int) / 2) >= 0) by (nonlinear_arith);
        assert(w / 2 == (width as int) / 2 && h / 2 == (height as int) / 2);
    }
    let y_size: usize = w * h;
    let half_w: usize = w / 2;
    let half_h: usize = h / 2;
    let uv_size: usize = half_w * half_h;
    let total: usize = y_size + uv_size * 2;
    let mut data = crate::frame::zero_bytes(total);
    let ghost zeros = data@;
    proof {
        assert(zeros =~= Seq::new(zeros.len() as nat, |i: int| 0u8));
        assert((h as int) * (w as int) == y_size) by (nonlinear_arith)
            requires
                y_size == (w as int) * (h as int),
        ;
        assert((half_h as int) * (half_w as int) == uv_size) by (nonlinear_arith)
            requires
                uv_size == (half_w as int) * (half_h as int),
        ;
    }
    copy_plane_rows(&mut data, 0, w, h, y_data, y_stride);
    let ghost d1 = data@;
    copy_plane_rows(&mut data, y_size, half_w, half_h, u_data, u_stride);
    let ghost d2 = data@;
    copy_plane_rows(&mut data, y_size + uv_size, half_w, half_h, v_data, v_stride);
    proof {
        let wi = width as int;
        let hi = height as int;
        let ys = wi * hi;
        let uv = (wi / 2) * (hi / 2);
        assert(ys == y_size);
        assert(uv == uv_size);
        assert forall|i: int| 0 <= i < ys implies #[trigger] data@[i] == plane_byte(
            zeros,
            0,
            wi,
            y_data@,
            y_stride as int,
            i,
        ) by {
            assert(d1[i] == plane_byte(zeros, 0, w as int, y_data@, y_stride as int, i));
            assert(d2[i] == d1[i]);
            assert(data@[i] == d2[i]);
        }
        assert forall|i: int| ys <= i < ys + uv implies #[trigger] data@[i] == plane_byte(
            zeros,
            ys,
            wi / 2,
            u_data@,
            u_stride as int,
            i,
        ) by {
            assert(d1[i] == zeros[i]);
            assert(d2[i] == plane_byte(d1, y_size as int, half_w as int, u_data@, u_stride as int, i));
            assert(data@[i] == d2[i]);
            assert(plane_byte(d1, ys, wi / 2, u_data@, u_stride as int, i) == plane_byte(
                zeros,
                ys,
                wi / 2,
                u_data@,
                u_stride as int,
                i,
            ));
        }
        assert forall|i: int| ys + uv <= i < ys + 2 * uv implies #[trigger] data@[i] == plane_byte(
            zeros,
            ys + uv,
            wi / 2,
            v_data@,
            v_stride as int,
            i,
        ) by {
            assert(d1[i] == zeros[i]);
            assert(d2[i] == d1[i]);
            assert(data@[i] == plane_byte(
                d2,
                (y_size + uv_size) as int,
                half_w as int,
                v_data@,
                v_stride as int,
                i,
            ));
            assert(plane_byte(d2, ys + uv, wi / 2, v_data@, v_stride as int, i) == plane_byte(
                zeros,
                ys + uv,
                wi / 2,
                v_data@,
                v_stride as int,
                i,
            ));
        }
    }
    Frame { width, height, format: PixelFormat::YUV420P, data, timestamp_ms }
}

/// The duration the container reports for a stream: the stream duration
/// scaled by its time base when present, else the container duration in
/// microseconds, else zero — clamped into the supported time range.
pub fn stream_duration_ms(
    stream_duration: i64,
    tb_num: i32,
    tb_den: i32,
    container_duration_us: i64,
) -> (r: i64)
    requires
        tb_num > 0,
        tb_den > 0,
    ensures
        0 <= r <= MAX_TIME_MS,
        stream_duration > 0 ==> r == clamp_time(
            stream_duration * tb_num * 1000 / (tb_den as int),
        ),
        stream_duration <= 0 && container_duration_us > 0 ==> r == clamp_time(
            container_duration_us / 1000,
        ),
        stream_duration <= 0 && container_duration_us <= 0 ==> r == 0,
{
    if stream_duration > 0 {
        proof {
            let sd = stream_duration as int;
            let num = tb_num as int;
            assert(sd * num * 1000 < 0x7FFF_FFFF_FFFF_FFFF_FFFF_FFFF_FFFF_FFFF
                && sd * num * 1000 > -0x8000_0000_0000_0000_0000_0000_0000_0000)
                by (nonlinear_arith)
                requires
                    0 < sd <= 0x7FFF_FFFF_FFFF_FFFF,
                    0 < num <= 0x7FFF_FFFF,
            ;
        }
        let wide: i128 = (stream_duration as i128) * (tb_num as i128) * 1000 / (tb_den as i128);
        proof {
            assert(stream_duration * tb_num * 1000 / (tb_den as int) == wide);
        }
        if wide > MAX_TIME_MS as i128 {
            MAX_TIME_MS
        } else if wide < 0 {
            0
        } else {
            wide as i64
        }
    } else if container_duration_us > 0 {
        let ms = container_duration_us / 1000;
        if ms > MAX_TIME_MS {
            MAX_TIME_MS
        } else {
            ms
        }
    } else {
        0
    }
}

/// A time pulled into the supported range.
pub open spec fn clamp_time(t: int) -> int {
    if t < 0 {
        0
    } else if t > MAX_TIME_MS {
        MAX_TIME_MS as int
    } else {
        t
    }
}

/// Container seeks take microseconds on the container's universal time
/// base; a stream-specific time base here lands far off target.
pub fn seek_timestamp_us(timestamp_ms: i64) -> (r: i64)
    requires
        -MAX_TIME_MS <= timestamp_ms <= MAX_TIME_MS,
    ensures
        r == timestamp_ms * 1000,
{
    timestamp_ms * 1000
}

/// The stream presentation timestamp matching `timestamp_ms` under the
/// stream time base `tb_num / tb_den`.
pub fn target_pts(timestamp_ms: i64, tb_num: i32, tb_den: i32) -> (r: i64)
    requires
        0 <= timestamp_ms <= MAX_TIME_MS,
        tb_num > 0,
        0 < tb_den <= 1_000_000,
    ensures
        r == timestamp_ms * tb_den / (tb_num * 1000),
{
    proof {
        assert(timestamp_ms * tb_den <= MAX_TIME_MS * 1_000_000) by (nonlinear_arith)
            requires
                0 <= timestamp_ms <= MAX_TIME_MS,
                0 < tb_den <= 1_000_000,
        ;
        assert(timestamp_ms * tb_den >= 0) by (nonlinear_arith)
            requires
                timestamp_ms >= 0,
                tb_den > 0,
        ;
        assert(1 <= (tb_num as int) * 1000 <= 2_200_000_000_000) by (nonlinear_arith)
            requires
                0 < tb_num <= i32::MAX,
        ;
    }
    (timestamp_ms * (tb_den as i64)) / ((tb_num as i64) * 1000)
}

/// Whether a decoded frame's presentation time reaches the target:
/// with no target (sequential play) or no presentation time, any frame is
/// accepted; otherwise the time must be within one tolerance below the
/// target or past it.
pub fn is_pts_at_target(target_info: Option<(i64, i64)>, pts: Option<i64>) -> (r: bool)
    requires
        match target_info {
            Some((target, tolerance)) => 0 <= tolerance && i64::MIN + tolerance < target,
            None => true,
        },
    ensures
        r == match target_info {
            Some((target, tolerance)) => match pts {
                Some(p) => p >= target - tolerance,
                None => true,
            },
            None => true,
        },
{
    match target_info {
        Some((target, tolerance)) => match pts {
            Some(p) => p >= target - tolerance,
            None => true,
        },
        None => true,
    }
}

/// End-of-stream idempotence: once a scan has recorded end of stream, any
/// two requests at or past that point are both served from the cached
/// frame and leave the decoder untouched, so they return the same frame
/// bytes; only a backward request or a seek (which restores `Ready` and
/// clears the marker) can change what is returned.
pub proof fn lemma_decoder_eof_idempotent(d: Decoder, e: i64, t1: i64, t2: i64)
    requires
        d.valid(),
        d.eof_timestamp_ms == Some(e),
        t1 >= e,
        t2 >= e,
    ensures
        d.spec_classify(t1 as int) == DecodePlan::ReturnCached,
        d.spec_classify(t2 as int) == DecodePlan::ReturnCached,
{
}

} // verus!
