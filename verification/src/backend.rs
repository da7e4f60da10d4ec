//! The decision core of the audio-device glue.
//!
//! The device backends themselves (opening a stream, the callback loop)
//! are unverified platform glue; what they decide and compute — which
//! output format to pick, how many frames to deliver, and how a mixed
//! fixed-point sample becomes an integer PCM value — lives here, with
//! exact contracts.

use vstd::arithmetic::div_mod::{lemma_div_pos_is_pos, lemma_multiply_divide_lt};
use vstd::arithmetic::mul::lemma_mul_nonnegative;
use vstd::prelude::*;

use crate::FP_ONE;

verus! {

/// Whether an output format offered by the device suits the engine:
/// stereo, 32-bit float samples, and a supported rate window that
/// contains the engine's 44100 Hz.
pub fn format_is_suitable(channels: u16, is_f32: bool, min_rate: u32, max_rate: u32) -> (r:
    bool)
    ensures
        r == (channels == 2 && is_f32 && min_rate <= 44100 && max_rate >= 44100),
{
    channels == 2 && is_f32 && min_rate <= 44100 && max_rate >= 44100
}

/// How many frames to deliver this callback: what the device reports as
/// available, capped at the backend's buffer size.
pub fn clamp_buffer_frames(available: i64, capacity: i64) -> (r: i64)
    ensures
        r == if available > capacity {
            capacity
        } else {
            available
        },
{
    if available > capacity {
        capacity
    } else {
        available
    }
}

/// The unsigned 16-bit PCM value of one mixed sample: biased to the
/// middle of the range, clamped at the extremes.
pub open spec fn sample_to_u16_s(s: int) -> int {
    if s >= FP_ONE {
        65535
    } else if s <= -(FP_ONE as int) {
        0
    } else {
        ((s + FP_ONE) * 65535) / (2 * FP_ONE as int)
    }
}

/// Converts one mixed fixed-point sample to unsigned 16-bit PCM for a
/// backend that asks for that format.
pub fn sample_to_u16(s: i64) -> (r: u16)
    ensures
        r as int == sample_to_u16_s(s as int),
{
    if s >= FP_ONE {
        65535
    } else if s <= -FP_ONE {
        0
    } else {
        proof {
            lemma_mul_nonnegative(s as int + FP_ONE, 65535);
            lemma_div_pos_is_pos((s as int + FP_ONE) * 65535, 2 * FP_ONE as int);
            assert((s as int + FP_ONE) * 65535 < (2 * FP_ONE as int) * 65536)
                by (nonlinear_arith)
                requires -FP_ONE < s < FP_ONE;
            lemma_multiply_divide_lt((s as int + FP_ONE) * 65535, 2 * FP_ONE as int, 65536);
        }
        (((s + FP_ONE) * 65535) / (2 * FP_ONE)) as u16
    }
}

} // verus!
