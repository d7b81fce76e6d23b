//! Per-clip colour effects on packed RGBA buffers: brightness, contrast,
//! saturation and temperature, each in per-mille units where 0 is the
//! identity, applied as pure per-pixel integer arithmetic.

use vstd::prelude::*;
use crate::audio_mixer::div_trunc;
use crate::frame::rgba_len;

verus! {

/// Colour effect parameters, each in [-1000, 1000] per-mille; all zero
/// means no change.
#[derive(Debug, Clone, Copy, PartialEq, Eq, Structural)]
pub struct EffectParams {
    pub brightness_permille: i32,
    pub contrast_permille: i32,
    pub saturation_permille: i32,
    pub temperature_permille: i32,
}

impl EffectParams {
    /// Well-formedness: every parameter within its range.
    pub open spec fn valid(self) -> bool {
        &&& -1000 <= self.brightness_permille <= 1000
        &&& -1000 <= self.contrast_permille <= 1000
        &&& -1000 <= self.saturation_permille <= 1000
        &&& -1000 <= self.temperature_permille <= 1000
    }

    /// All parameters exactly zero.
    pub open spec fn spec_is_default(self) -> bool {
        &&& self.brightness_permille == 0
        &&& self.contrast_permille == 0
        &&& self.saturation_permille == 0
        &&& self.temperature_permille == 0
    }

    pub fn new() -> (p: EffectParams)
        ensures
            p.valid(),
            p.spec_is_default(),
    {
        EffectParams {
            brightness_permille: 0,
            contrast_permille: 0,
            saturation_permille: 0,
            temperature_permille: 0,
        }
    }

    /// Whether applying these parameters changes nothing.
    pub fn is_default(&self) -> (r: bool)
        ensures
            r == self.spec_is_default(),
    {
        self.brightness_permille == 0 && self.contrast_permille == 0 && self.saturation_permille
            == 0 && self.temperature_permille == 0
    }
}

/// A value clamped into a byte.
pub open spec fn clamp_byte(v: int) -> u8 {
    if v < 0 {
        0u8
    } else if v > 255 {
        255u8
    } else {
        v as u8
    }
}

/// One colour channel after the effect chain: pulled towards or away from
/// the pixel's luma (saturation), scaled about mid-grey (contrast),
/// shifted (brightness), and, for the red and blue channels, shifted in
/// opposite directions (temperature); finally clamped. Alpha is untouched.
pub open spec fn effect_byte(d0: Seq<u8>, ep: EffectParams, i: int) -> u8 {
    let c = i % 4;
    if c == 3 {
        d0[i]
    } else {
        let base = (i / 4) * 4;
        let luma = (d0[base] + d0[base + 1] + d0[base + 2]) / 3;
        let v = d0[i] as int;
        let sat = luma + div_trunc((v - luma) * (1000 + ep.saturation_permille), 1000);
        let con = 128 + div_trunc((sat - 128) * (1000 + ep.contrast_permille), 1000);
        let bri = con + div_trunc(255 * ep.brightness_permille, 1000);
        let tmp = if c == 0 {
            bri + div_trunc(150 * ep.temperature_permille, 1000)
        } else if c == 2 {
            bri - div_trunc(150 * ep.temperature_permille, 1000)
        } else {
            bri
        };
        clamp_byte(tmp)
    }
}

/// Truncating division by 1000 of a bounded value.
fn div1000(a: i64) -> (r: i64)
    requires
        -1_000_000_000 <= a <= 1_000_000_000,
    ensures
        r == div_trunc(a as int, 1000),
        -1_000_000 <= r <= 1_000_000,
        -600_000 <= a <= 600_000 ==> -600 <= r <= 600,
        -2_000_000 <= a <= 2_000_000 ==> -2000 <= r <= 2000,
{
    proof {
        if a >= 0 {
            assert(0 <= (a as int) / 1000 <= a as int / 1000);
        }
    }
    if a >= 0 {
        a / 1000
    } else {
        -((-a) / 1000)
    }
}

/// Apply the colour effects in place. Default parameters leave every byte
/// unchanged; alpha bytes are never touched.
pub fn apply_effects(data: &mut Vec<u8>, width: u32, height: u32, params: &EffectParams)
    requires
        params.valid(),
        old(data)@.len() == rgba_len(width as int, height as int),
        old(data)@.len() <= usize::MAX,
    ensures
        final(data)@.len() == old(data)@.len(),
        forall|i: int|
            0 <= i < final(data)@.len() ==> #[trigger] final(data)@[i] == effect_byte(
                old(data)@,
                *params,
                i,
            ),
{
    let n = data.len();
    let pixels = n / 4;
    proof {
        assert((width as int) * (height as int) * 4 % 4 == 0) by (nonlinear_arith);
        assert(n % 4 == 0);
        vstd::arithmetic::div_mod::lemma_fundamental_div_mod(n as int, 4);
    }
    let mut pi: usize = 0;
    while pi < pixels
        invariant
            params.valid(),
            n == data@.len(),
            data@.len() == old(data)@.len(),
            pixels == n / 4,
            n == pixels * 4,
            pi <= pixels,
            forall|j: int|
                0 <= j < pi * 4 ==> #[trigger] data@[j] == effect_byte(old(data)@, *params, j),
            forall|j: int| pi * 4 <= j < n ==> #[trigger] data@[j] == old(data)@[j],
        decreases pixels - pi,
    {
        proof {
            assert((pi as int) * 4 + 4 <= (pixels as int) * 4) by (nonlinear_arith)
                requires
                    pi < pixels,
            ;
            assert((pi as int) * 4 >= 0) by (nonlinear_arith)
                requires
                    pi >= 0,
            ;
            assert(((pi + 1) as int) * 4 == (pi as int) * 4 + 4) by (nonlinear_arith);
        }
        let base: usize = pi * 4;
        proof {
            vstd::arithmetic::div_mod::lemma_fundamental_div_mod_converse(
                base as int,
                4,
                pi as int,
                0,
            );
            vstd::arithmetic::div_mod::lemma_fundamental_div_mod_converse(
                base as int + 1,
                4,
                pi as int,
                1,
            );
            vstd::arithmetic::div_mod::lemma_fundamental_div_mod_converse(
                base as int + 2,
                4,
                pi as int,
                2,
            );
        }
        let r0 = data[base] as i64;
        let g0 = data[base + 1] as i64;
        let b0 = data[base + 2] as i64;
        let luma: i64 = (r0 + g0 + b0) / 3;
        let temp_shift: i64 = div1000(150 * (params.temperature_permille as i64));
        let bright_shift: i64 = div1000(255 * (params.brightness_permille as i64));
        let mut c: usize = 0;
        while c < 3
            invariant
                params.valid(),
                n == data@.len(),
                data@.len() == old(data)@.len(),
                pixels == n / 4,
                n == pixels * 4,
                pi < pixels,
                base == (pi as int) * 4,
                base + 4 <= n,
                base as int / 4 == pi as int,
                c <= 3,
                r0 == old(data)@[base as int] as int,
                g0 == old(data)@[base as int + 1] as int,
                b0 == old(data)@[base as int + 2] as int,
                luma == (old(data)@[base as int] + old(data)@[base as int + 1] + old(
                    data,
                )@[base as int + 2]) / 3,
                temp_shift == div_trunc(150 * (params.temperature_permille as int), 1000),
                bright_shift == div_trunc(255 * (params.brightness_permille as int), 1000),
                -150 <= temp_shift <= 150,
                -255 <= bright_shift <= 255,
                forall|j: int|
                    0 <= j < base + c ==> #[trigger] data@[j] == effect_byte(
                        old(data)@,
                        *params,
                        j,
                    ),
                forall|j: int| base + c <= j < n ==> #[trigger] data@[j] == old(data)@[j],
            decreases 3 - c,
        {
            proof {
                vstd::arithmetic::div_mod::lemma_fundamental_div_mod_converse(
                    base as int + c as int,
                    4,
                    pi as int,
                    c as int,
                );
            }
            let v = data[base + c] as i64;
            proof {
                assert(-600_000 <= (v - luma) * (1000 + params.saturation_permille) <= 600_000)
                    by (nonlinear_arith)
                    requires
                        -255 <= v - luma <= 255,
                        0 <= 1000 + params.saturation_permille <= 2000,
                ;
            }
            let sat: i64 = luma + div1000((v - luma) * (1000 + (params.saturation_permille as i64)));
            proof {
                assert(-2_000_000 <= (sat - 128) * (1000 + params.contrast_permille) <= 2_000_000)
                    by (nonlinear_arith)
                    requires
                        -750 <= sat - 128 <= 750,
                        0 <= 1000 + params.contrast_permille <= 2000,
                ;
            }
            let con: i64 = 128 + div1000((sat - 128) * (1000 + (params.contrast_permille as i64)));
            let bri: i64 = con + bright_shift;
            let tmp: i64 = if c == 0 {
                bri + temp_shift
            } else if c == 2 {
                bri - temp_shift
            } else {
                bri
            };
            let out: u8 = if tmp < 0 {
                0u8
            } else if tmp > 255 {
                255u8
            } else {
                tmp as u8
            };
            data.set(base + c, out);
            c = c + 1;
        }
        pi = pi + 1;
        proof {
            assert(data@[(pi - 1) as int * 4 + 3] == old(data)@[(pi - 1) as int * 4 + 3]);
            assert(data@[(pi - 1) as int * 4 + 3] == effect_byte(
                old(data)@,
                *params,
                (pi - 1) as int * 4 + 3,
            )) by {
                vstd::arithmetic::div_mod::lemma_fundamental_div_mod_converse(
                    (pi - 1) as int * 4 + 3,
                    4,
                    (pi - 1) as int,
                    3,
                );
            }
        }
    }
}

/// Default parameters are the identity: the effect chain returns every
/// byte unchanged.
pub proof fn lemma_effects_identity(d0: Seq<u8>, ep: EffectParams, i: int)
    requires
        ep.spec_is_default(),
        0 <= i < d0.len(),
        (i / 4) * 4 + 2 < d0.len(),
    ensures
        effect_byte(d0, ep, i) == d0[i],
{
    let c = i % 4;
    if c != 3 {
        let base = (i / 4) * 4;
        let luma = (d0[base] + d0[base + 1] + d0[base + 2]) / 3;
        let v = d0[i] as int;
        assert(div_trunc((v - luma) * 1000, 1000) == v - luma) by (nonlinear_arith);
        assert(div_trunc((v - 128) * 1000, 1000) == v - 128) by (nonlinear_arith);
        assert(clamp_byte(v) == d0[i]);
    }
}

} // verus!
