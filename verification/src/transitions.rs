//! Transition blending on packed RGBA buffers: crossfade, fade through
//! black, and directional wipes, all in integer per-mille arithmetic. The
//! result is written in place over the outgoing clip's buffer.

use vstd::prelude::*;
use crate::clip::TransitionType;
use crate::frame::rgba_len;

verus! {

/// One blended colour channel: `a * (1 - p) + b * p` at per-mille
/// progress.
pub open spec fn mix_channel(a: u8, b: u8, p: int) -> u8 {
    ((a * (1000 - p) + b * p) / 1000) as u8
}

/// A channel scaled by a per-mille factor.
pub open spec fn scale_channel(a: u8, f: int) -> u8 {
    ((a * f) / 1000) as u8
}

/// The byte at flat index `i` after a crossfade: every colour channel is
/// blended linearly, alpha is forced opaque.
pub open spec fn crossfade_byte(out0: Seq<u8>, inc: Seq<u8>, p: int, i: int) -> u8 {
    if i % 4 == 3 {
        255u8
    } else {
        mix_channel(out0[i], inc[i], p)
    }
}

/// The byte at flat index `i` after a fade through black: the first half
/// attenuates the outgoing frame to black, the second half raises the
/// incoming one from black; alpha is forced opaque.
pub open spec fn fade_black_byte(out0: Seq<u8>, inc: Seq<u8>, p: int, i: int) -> u8 {
    if i % 4 == 3 {
        255u8
    } else if p <= 500 {
        scale_channel(out0[i], 1000 - 2 * p)
    } else {
        scale_channel(inc[i], 2 * p - 1000)
    }
}

/// Whether the pixel in this column shows the incoming clip during a
/// horizontal wipe at per-mille progress `p`: the first `w*p/1000` columns
/// from the left, or from the right when reversed.
pub open spec fn wipe_h_uses_incoming(w: int, p: int, rev: bool, col: int) -> bool {
    let boundary = w * p / 1000;
    if rev {
        col >= w - boundary
    } else {
        col < boundary
    }
}

/// Whether the pixel in this row shows the incoming clip during a vertical
/// wipe.
pub open spec fn wipe_v_uses_incoming(h: int, p: int, rev: bool, row: int) -> bool {
    let boundary = h * p / 1000;
    if rev {
        row >= h - boundary
    } else {
        row < boundary
    }
}

/// Blend two same-size RGBA frames in place at per-mille progress:
/// `out = out*(1-p) + inc*p` per channel, alpha opaque.
pub fn blend_crossfade(outgoing: &mut Vec<u8>, incoming: &Vec<u8>, width: u32, height: u32, progress_permille: u32)
    requires
        progress_permille <= 1000,
        old(outgoing)@.len() == rgba_len(width as int, height as int),
        incoming@.len() == old(outgoing)@.len(),
        old(outgoing)@.len() <= usize::MAX,
    ensures
        final(outgoing)@.len() == old(outgoing)@.len(),
        forall|i: int|
            0 <= i < final(outgoing)@.len() ==> #[trigger] final(outgoing)@[i] == crossfade_byte(
                old(outgoing)@,
                incoming@,
                progress_permille as int,
                i,
            ),
{
    let p = progress_permille as u32;
    let inv_p = 1000 - p;
    let n = outgoing.len();
    let mut i: usize = 0;
    while i < n
        invariant
            p == progress_permille,
            inv_p == 1000 - p,
            p <= 1000,
            n == outgoing@.len(),
            outgoing@.len() == old(outgoing)@.len(),
            incoming@.len() == old(outgoing)@.len(),
            i <= n,
            forall|j: int|
                0 <= j < i ==> #[trigger] outgoing@[j] == crossfade_byte(
                    old(outgoing)@,
                    incoming@,
                    p as int,
                    j,
                ),
            forall|j: int| i <= j < n ==> #[trigger] outgoing@[j] == old(outgoing)@[j],
        decreases n - i,
    {
        if i % 4 == 3 {
            outgoing.set(i, 255u8);
        } else {
            let a = outgoing[i] as u32;
            let b = incoming[i] as u32;
            proof {
                assert(a * inv_p + b * p <= 255 * 1000) by (nonlinear_arith)
                    requires
                        a <= 255,
                        b <= 255,
                        p <= 1000,
                        inv_p == 1000 - p,
                ;
            }
            let v: u32 = (a * inv_p + b * p) / 1000;
            outgoing.set(i, v as u8);
        }
        i = i + 1;
    }
}

/// Fade through black in place: for `p <= 500` the outgoing frame darkens
/// by `1 - 2p`; past the midpoint the incoming frame rises by `2p - 1`.
/// Alpha is forced opaque.
pub fn blend_fade_black(outgoing: &mut Vec<u8>, incoming: &Vec<u8>, width: u32, height: u32, progress_permille: u32)
    requires
        progress_permille <= 1000,
        old(outgoing)@.len() == rgba_len(width as int, height as int),
        incoming@.len() == old(outgoing)@.len(),
        old(outgoing)@.len() <= usize::MAX,
    ensures
        final(outgoing)@.len() == old(outgoing)@.len(),
        forall|i: int|
            0 <= i < final(outgoing)@.len() ==> #[trigger] final(outgoing)@[i] == fade_black_byte(
                old(outgoing)@,
                incoming@,
                progress_permille as int,
                i,
            ),
{
    let p = progress_permille;
    let n = outgoing.len();
    let factor: u32 = if p <= 500 {
        1000 - 2 * p
    } else {
        2 * p - 1000
    };
    let mut i: usize = 0;
    while i < n
        invariant
            p == progress_permille,
            p <= 1000,
            factor == (if p <= 500 {
                1000 - 2 * (p as int)
            } else {
                2 * (p as int) - 1000
            }),
            n == outgoing@.len(),
            outgoing@.len() == old(outgoing)@.len(),
            incoming@.len() == old(outgoing)@.len(),
            i <= n,
            forall|j: int|
                0 <= j < i ==> #[trigger] outgoing@[j] == fade_black_byte(
                    old(outgoing)@,
                    incoming@,
                    p as int,
                    j,
                ),
            forall|j: int| i <= j < n ==> #[trigger] outgoing@[j] == old(outgoing)@[j],
        decreases n - i,
    {
        if i % 4 == 3 {
            outgoing.set(i, 255u8);
        } else {
            let c = if p <= 500 {
                outgoing[i] as u32
            } else {
                incoming[i] as u32
            };
            proof {
                assert(c * factor <= 255 * 1000) by (nonlinear_arith)
                    requires
                        c <= 255,
                        factor <= 1000,
                ;
            }
            let v: u32 = (c * factor) / 1000;
            outgoing.set(i, v as u8);
        }
        i = i + 1;
    }
}

/// Horizontal wipe in place: the columns on the incoming side of the
/// boundary `w * p / 1000` take the incoming pixels (alpha opaque); the
/// rest keep the outgoing ones.
pub fn blend_wipe_horizontal(
    outgoing: &mut Vec<u8>,
    incoming: &Vec<u8>,
    width: u32,
    height: u32,
    progress_permille: u32,
    reverse: bool,
)
    requires
        progress_permille <= 1000,
        width >= 1,
        height >= 1,
        old(outgoing)@.len() == rgba_len(width as int, height as int),
        incoming@.len() == old(outgoing)@.len(),
        old(outgoing)@.len() <= usize::MAX,
    ensures
        final(outgoing)@.len() == old(outgoing)@.len(),
        forall|i: int|
            0 <= i < final(outgoing)@.len() ==> #[trigger] final(outgoing)@[i] == (
            if wipe_h_uses_incoming(
                width as int,
                progress_permille as int,
                reverse,
                (i / 4) % (width as int),
            ) {
                if i % 4 == 3 {
                    255u8
                } else {
                    incoming@[i]
                }
            } else {
                old(outgoing)@[i]
            }),
{
    let w = width as usize;
    let h = height as usize;
    proof {
        assert((width as int) * (height as int) * 4 == (height as int) * ((width as int) * 4))
            by (nonlinear_arith);
        assert((width as int) * 4 <= (height as int) * ((width as int) * 4)) by (nonlinear_arith)
            requires
                height >= 1,
                width >= 0,
        ;
        assert((width as int) * (progress_permille as int) <= 0xFFFF_FFFF * 1000
            && (width as int) * (progress_permille as int) / 1000 <= width) by (nonlinear_arith)
            requires
                progress_permille <= 1000,
                0 < width <= 0xFFFF_FFFF,
        ;
    }
    let boundary: usize = (((w as u64) * (progress_permille as u64)) / 1000) as usize;
    let n = outgoing.len();
    let mut row: usize = 0;
    while row < h
        invariant
            w == width,
            h == height,
            w >= 1,
            boundary == (w as int) * (progress_permille as int) / 1000,
            boundary <= w,
            n == outgoing@.len(),
            outgoing@.len() == old(outgoing)@.len(),
            incoming@.len() == old(outgoing)@.len(),
            n == (h as int) * ((w as int) * 4),
            row <= h,
            forall|j: int|
                0 <= j < row * (w * 4) ==> #[trigger] outgoing@[j] == (if wipe_h_uses_incoming(
                    w as int,
                    progress_permille as int,
                    reverse,
                    (j / 4) % (w as int),
                ) {
                    if j % 4 == 3 {
                        255u8
                    } else {
                        incoming@[j]
                    }
                } else {
                    old(outgoing)@[j]
                }),
            forall|j: int| row * (w * 4) <= j < n ==> #[trigger] outgoing@[j] == old(outgoing)@[j],
        decreases h - row,
    {
        proof {
            assert((row as int) * ((w as int) * 4) + (w as int) * 4 <= (h as int) * ((
            w as int) * 4)) by (nonlinear_arith)
                requires
                    row < h,
                    w >= 0,
            ;
            assert((row as int) * ((w as int) * 4) >= 0) by (nonlinear_arith)
                requires
                    row >= 0,
                    w >= 0,
            ;
            assert(((row + 1) as int) * ((w as int) * 4) == (row as int) * ((w as int) * 4) + (
            w as int) * 4) by (nonlinear_arith);
        }
        let row_base: usize = row * (w * 4);
        let mut col: usize = 0;
        while col < w
            invariant
                w == width,
                h == height,
                w >= 1,
                boundary == (w as int) * (progress_permille as int) / 1000,
                boundary <= w,
                n == outgoing@.len(),
                outgoing@.len() == old(outgoing)@.len(),
                incoming@.len() == old(outgoing)@.len(),
                n == (h as int) * ((w as int) * 4),
                row < h,
                row_base == (row as int) * ((w as int) * 4),
                row_base + (w as int) * 4 <= n,
                col <= w,
                forall|j: int|
                    0 <= j < row_base + col * 4 ==> #[trigger] outgoing@[j] == (
                    if wipe_h_uses_incoming(
                        w as int,
                        progress_permille as int,
                        reverse,
                        (j / 4) % (w as int),
                    ) {
                        if j % 4 == 3 {
                            255u8
                        } else {
                            incoming@[j]
                        }
                    } else {
                        old(outgoing)@[j]
                    }),
                forall|j: int|
                    row_base + col * 4 <= j < n ==> #[trigger] outgoing@[j] == old(outgoing)@[j],
            decreases w - col,
        {
            proof {
                assert(boundary <= w);
            }
            let use_incoming = if reverse {
                col >= w - boundary
            } else {
                col < boundary
            };
            let idx: usize = row_base + col * 4;
            proof {
                let pi = (row as int) * (w as int) + (col as int);
                assert(pi * 4 == (row as int) * ((w as int) * 4) + (col as int) * 4)
                    by (nonlinear_arith)
                    requires
                        pi == (row as int) * (w as int) + (col as int),
                ;
                vstd::arithmetic::div_mod::lemma_fundamental_div_mod_converse(
                    pi,
                    w as int,
                    row as int,
                    col as int,
                );
                vstd::arithmetic::div_mod::lemma_fundamental_div_mod_converse(idx as int, 4, pi, 0);
                vstd::arithmetic::div_mod::lemma_fundamental_div_mod_converse(
                    idx as int + 1,
                    4,
                    pi,
                    1,
                );
                vstd::arithmetic::div_mod::lemma_fundamental_div_mod_converse(
                    idx as int + 2,
                    4,
                    pi,
                    2,
                );
                vstd::arithmetic::div_mod::lemma_fundamental_div_mod_converse(
                    idx as int + 3,
                    4,
                    pi,
                    3,
                );
            }
            if use_incoming {
                outgoing.set(idx, incoming[idx]);
                outgoing.set(idx + 1, incoming[idx + 1]);
                outgoing.set(idx + 2, incoming[idx + 2]);
                outgoing.set(idx + 3, 255u8);
            }
            proof {
                assert(row_base + (col + 1) * 4 == row_base + col * 4 + 4) by (nonlinear_arith);
            }
            col = col + 1;
        }
        row = row + 1;
    }
    proof {
        assert((h as int) * ((w as int) * 4) == n);
    }
}

/// Vertical wipe in place: the rows on the incoming side of the boundary
/// `h * p / 1000` take the incoming pixels wholesale; the rest keep the
/// outgoing ones.
pub fn blend_wipe_vertical(
    outgoing: &mut Vec<u8>,
    incoming: &Vec<u8>,
    width: u32,
    height: u32,
    progress_permille: u32,
    reverse: bool,
)
    requires
        progress_permille <= 1000,
        width >= 1,
        height >= 1,
        old(outgoing)@.len() == rgba_len(width as int, height as int),
        incoming@.len() == old(outgoing)@.len(),
        old(outgoing)@.len() <= usize::MAX,
    ensures
        final(outgoing)@.len() == old(outgoing)@.len(),
        forall|i: int|
            0 <= i < final(outgoing)@.len() ==> #[trigger] final(outgoing)@[i] == (
            if wipe_v_uses_incoming(
                height as int,
                progress_permille as int,
                reverse,
                i / ((width as int) * 4),
            ) {
                incoming@[i]
            } else {
                old(outgoing)@[i]
            }),
{
    let w = width as usize;
    let h = height as usize;
    proof {
        assert((width as int) * (height as int) * 4 == (height as int) * ((width as int) * 4))
            by (nonlinear_arith);
        assert((width as int) * 4 <= (height as int) * ((width as int) * 4)) by (nonlinear_arith)
            requires
                height >= 1,
                width >= 0,
        ;
        assert((height as int) * (progress_permille as int) <= 0xFFFF_FFFF * 1000
            && (height as int) * (progress_permille as int) / 1000 <= height)
            by (nonlinear_arith)
            requires
                progress_permille <= 1000,
                0 < height <= 0xFFFF_FFFF,
        ;
    }
    let boundary: usize = (((h as u64) * (progress_permille as u64)) / 1000) as usize;
    let n = outgoing.len();
    let row_w: usize = w * 4;
    let mut row: usize = 0;
    while row < h
        invariant
            w == width,
            h == height,
            w >= 1,
            row_w == w * 4,
            boundary == (h as int) * (progress_permille as int) / 1000,
            boundary <= h,
            n == outgoing@.len(),
            outgoing@.len() == old(outgoing)@.len(),
            incoming@.len() == old(outgoing)@.len(),
            n == (h as int) * (row_w as int),
            row <= h,
            forall|j: int|
                0 <= j < row * row_w ==> #[trigger] outgoing@[j] == (if wipe_v_uses_incoming(
                    h as int,
                    progress_permille as int,
                    reverse,
                    j / (row_w as int),
                ) {
                    incoming@[j]
                } else {
                    old(outgoing)@[j]
                }),
            forall|j: int| row * row_w <= j < n ==> #[trigger] outgoing@[j] == old(outgoing)@[j],
        decreases h - row,
    {
        proof {
            assert((row as int) * (row_w as int) + row_w <= (h as int) * (row_w as int))
                by (nonlinear_arith)
                requires
                    row < h,
                    row_w >= 0,
            ;
            assert((row as int) * (row_w as int) >= 0) by (nonlinear_arith)
                requires
                    row >= 0,
                    row_w >= 0,
            ;
            assert(((row + 1) as int) * (row_w as int) == (row as int) * (row_w as int)
                + row_w) by (nonlinear_arith);
        }
        proof {
            assert(boundary <= h);
        }
        let use_incoming = if reverse {
            row >= h - boundary
        } else {
            row < boundary
        };
        let row_start: usize = row * row_w;
        if use_incoming {
            let mut c: usize = 0;
            while c < row_w
                invariant
                    w >= 1,
                    row_w == w * 4,
                    n == outgoing@.len(),
                    outgoing@.len() == old(outgoing)@.len(),
                    incoming@.len() == old(outgoing)@.len(),
                    n == (h as int) * (row_w as int),
                    row < h,
                    row_start == (row as int) * (row_w as int),
                    row_start + row_w <= n,
                    c <= row_w,
                    forall|j: int|
                        0 <= j < row_start ==> #[trigger] outgoing@[j] == (
                        if wipe_v_uses_incoming(
                            h as int,
                            progress_permille as int,
                            reverse,
                            j / (row_w as int),
                        ) {
                            incoming@[j]
                        } else {
                            old(outgoing)@[j]
                        }),
                    forall|j: int|
                        row_start <= j < row_start + c ==> #[trigger] outgoing@[j]
                            == incoming@[j],
                    forall|j: int|
                        row_start + c <= j < n ==> #[trigger] outgoing@[j] == old(outgoing)@[j],
                decreases row_w - c,
            {
                outgoing.set(row_start + c, incoming[row_start + c]);
                c = c + 1;
            }
        }
        proof {
            assert forall|j: int|
                row_start <= j < row_start + row_w implies #[trigger] (j / (row_w as int))
                == row as int by {
                vstd::arithmetic::div_mod::lemma_fundamental_div_mod_converse(
                    j,
                    row_w as int,
                    row as int,
                    j - row_start,
                );
            }
        }
        row = row + 1;
    }
}

/// Blend the incoming clip's frame over the outgoing clip's frame
/// according to the transition tag and per-mille progress; a clip without
/// a tag crossfades.
pub fn apply_transition(
    outgoing: &mut Vec<u8>,
    incoming: &Vec<u8>,
    width: u32,
    height: u32,
    progress_permille: u32,
    transition_type: TransitionType,
)
    requires
        progress_permille <= 1000,
        width >= 1,
        height >= 1,
        old(outgoing)@.len() == rgba_len(width as int, height as int),
        incoming@.len() == old(outgoing)@.len(),
        old(outgoing)@.len() <= usize::MAX,
    ensures
        final(outgoing)@.len() == old(outgoing)@.len(),
        ({
            let p = progress_permille as int;
            let w = width as int;
            let h = height as int;
            forall|i: int|
                0 <= i < final(outgoing)@.len() ==> #[trigger] final(outgoing)@[i] == (
                match transition_type {
                    TransitionType::NoTransition => crossfade_byte(old(outgoing)@, incoming@, p, i),
                    TransitionType::Crossfade => crossfade_byte(old(outgoing)@, incoming@, p, i),
                    TransitionType::FadeBlack => fade_black_byte(old(outgoing)@, incoming@, p, i),
                    TransitionType::WipeLeft => if wipe_h_uses_incoming(w, p, false, (i / 4) % w) {
                        if i % 4 == 3 {
                            255u8
                        } else {
                            incoming@[i]
                        }
                    } else {
                        old(outgoing)@[i]
                    },
                    TransitionType::WipeRight => if wipe_h_uses_incoming(w, p, true, (i / 4) % w) {
                        if i % 4 == 3 {
                            255u8
                        } else {
                            incoming@[i]
                        }
                    } else {
                        old(outgoing)@[i]
                    },
                    TransitionType::WipeUp => if wipe_v_uses_incoming(h, p, false, i / (w * 4)) {
                        incoming@[i]
                    } else {
                        old(outgoing)@[i]
                    },
                    TransitionType::WipeDown => if wipe_v_uses_incoming(h, p, true, i / (w * 4)) {
                        incoming@[i]
                    } else {
                        old(outgoing)@[i]
                    },
                })
        }),
{
    match transition_type {
        TransitionType::NoTransition | TransitionType::Crossfade => {
            blend_crossfade(outgoing, incoming, width, height, progress_permille);
        },
        TransitionType::FadeBlack => {
            blend_fade_black(outgoing, incoming, width, height, progress_permille);
        },
        TransitionType::WipeLeft => {
            blend_wipe_horizontal(outgoing, incoming, width, height, progress_permille, false);
        },
        TransitionType::WipeRight => {
            blend_wipe_horizontal(outgoing, incoming, width, height, progress_permille, true);
        },
        TransitionType::WipeUp => {
            blend_wipe_vertical(outgoing, incoming, width, height, progress_permille, false);
        },
        TransitionType::WipeDown => {
            blend_wipe_vertical(outgoing, incoming, width, height, progress_permille, true);
        },
    }
}

} // verus!
