//! Encoder policy: which H.264 encoder an export uses (a preference chain
//! over what the machine offers), the bitrate approximation for encoders
//! that take no constant-quality factor, and the audio framing the AAC
//! encoder needs. Opening and driving the codecs happens outside.

use vstd::prelude::*;

verus! {

/// The H.264 encoder families an export can ask for.
#[derive(Debug, Clone, Copy, PartialEq, Eq, Structural)]
pub enum EncoderType {
    /// Try hardware encoders first, fall back to software.
    Auto,
    Software,
    Nvenc,
    Qsv,
    Amf,
}

/// Availability bitmask: software, NVENC, QSV, AMF in the low four bits.
pub const ENCODER_MASK_SOFTWARE: u32 = 1;

pub const ENCODER_MASK_NVENC: u32 = 2;

pub const ENCODER_MASK_QSV: u32 = 4;

pub const ENCODER_MASK_AMF: u32 = 8;

impl EncoderType {
    /// The numeric selector used across the engine's boundary.
    pub fn from_u32(v: u32) -> (r: EncoderType)
        ensures
            v == 1 ==> r == EncoderType::Software,
            v == 2 ==> r == EncoderType::Nvenc,
            v == 3 ==> r == EncoderType::Qsv,
            v == 4 ==> r == EncoderType::Amf,
            v == 0 || v > 4 ==> r == EncoderType::Auto,
    {
        match v {
            1 => EncoderType::Software,
            2 => EncoderType::Nvenc,
            3 => EncoderType::Qsv,
            4 => EncoderType::Amf,
            _ => EncoderType::Auto,
        }
    }
}

/// Which encoder an export uses, given what is available: the automatic
/// choice prefers NVENC, then QSV, then AMF, then software; an explicit
/// hardware choice falls back to software when missing; software alone
/// fails when absent.
pub open spec fn spec_select_encoder(requested: EncoderType, available_mask: u32) -> Option<
    EncoderType,
> {
    let has_soft = available_mask & ENCODER_MASK_SOFTWARE != 0;
    let has_nvenc = available_mask & ENCODER_MASK_NVENC != 0;
    let has_qsv = available_mask & ENCODER_MASK_QSV != 0;
    let has_amf = available_mask & ENCODER_MASK_AMF != 0;
    match requested {
        EncoderType::Auto => if has_nvenc {
            Some(EncoderType::Nvenc)
        } else if has_qsv {
            Some(EncoderType::Qsv)
        } else if has_amf {
            Some(EncoderType::Amf)
        } else if has_soft {
            Some(EncoderType::Software)
        } else {
            None
        },
        EncoderType::Software => if has_soft {
            Some(EncoderType::Software)
        } else {
            None
        },
        EncoderType::Nvenc => if has_nvenc {
            Some(EncoderType::Nvenc)
        } else if has_soft {
            Some(EncoderType::Software)
        } else {
            None
        },
        EncoderType::Qsv => if has_qsv {
            Some(EncoderType::Qsv)
        } else if has_soft {
            Some(EncoderType::Software)
        } else {
            None
        },
        EncoderType::Amf => if has_amf {
            Some(EncoderType::Amf)
        } else if has_soft {
            Some(EncoderType::Software)
        } else {
            None
        },
    }
}

/// Pick the encoder per the preference chain over the availability mask.
pub fn select_h264_encoder(requested: EncoderType, available_mask: u32) -> (r: Option<EncoderType>)
    ensures
        r == spec_select_encoder(requested, available_mask),
{
    let has_soft = available_mask & ENCODER_MASK_SOFTWARE != 0;
    let has_nvenc = available_mask & ENCODER_MASK_NVENC != 0;
    let has_qsv = available_mask & ENCODER_MASK_QSV != 0;
    let has_amf = available_mask & ENCODER_MASK_AMF != 0;
    match requested {
        EncoderType::Auto => {
            if has_nvenc {
                Some(EncoderType::Nvenc)
            } else if has_qsv {
                Some(EncoderType::Qsv)
            } else if has_amf {
                Some(EncoderType::Amf)
            } else if has_soft {
                Some(EncoderType::Software)
            } else {
                None
            }
        },
        EncoderType::Software => {
            if has_soft {
                Some(EncoderType::Software)
            } else {
                None
            }
        },
        EncoderType::Nvenc => {
            if has_nvenc {
                Some(EncoderType::Nvenc)
            } else if has_soft {
                Some(EncoderType::Software)
            } else {
                None
            }
        },
        EncoderType::Qsv => {
            if has_qsv {
                Some(EncoderType::Qsv)
            } else if has_soft {
                Some(EncoderType::Software)
            } else {
                None
            }
        },
        EncoderType::Amf => {
            if has_amf {
                Some(EncoderType::Amf)
            } else if has_soft {
                Some(EncoderType::Software)
            } else {
                None
            }
        },
    }
}

/// The bitrate multiplier (bits per pixel per second) a quality factor
/// maps to for encoders without native constant-quality control.
pub open spec fn spec_crf_bits_per_pixel(crf: u32) -> int {
    if crf <= 15 {
        16
    } else if crf <= 18 {
        10
    } else if crf <= 23 {
        6
    } else if crf <= 28 {
        3
    } else {
        2
    }
}

/// An approximate bitrate for hardware encoders that understand no
/// constant-quality factor: pixels per frame times a per-quality factor.
pub fn crf_to_bitrate(crf: u32, width: u32, height: u32) -> (r: u64)
    requires
        width <= 8192,
        height <= 8192,
    ensures
        r == width * height * spec_crf_bits_per_pixel(crf),
{
    proof {
        assert((width as int) * (height as int) <= 8192 * 8192) by (nonlinear_arith)
            requires
                width <= 8192,
                height <= 8192,
        ;
    }
    let pixels: u64 = (width as u64) * (height as u64);
    let mult: u64 = if crf <= 15 {
        16
    } else if crf <= 18 {
        10
    } else if crf <= 23 {
        6
    } else if crf <= 28 {
        3
    } else {
        2
    };
    proof {
        assert((pixels as int) * mult <= 8192 * 8192 * 16) by (nonlinear_arith)
            requires
                0 <= pixels <= 8192 * 8192,
                0 < mult <= 16,
        ;
        assert((width as int) * (height as int) * (mult as int) == (pixels as int) * (mult as int))
            by (nonlinear_arith)
            requires
                pixels == (width as int) * (height as int),
        ;
    }
    pixels * mult
}

/// AAC frame size: samples per channel per encoded frame.
pub const AAC_FRAME_SIZE: usize = 1024;

/// AAC bitrate an export uses (bits per second).
pub const AAC_BITRATE: u32 = 192_000;

} // verus!
