//! A multi-voice audio mixing engine.
//!
//! The engine accepts decoded PCM sound assets and playback-control commands
//! from caller code, and on each audio callback produces one buffer's worth
//! of interleaved stereo samples by summing all live playbacks.  Control
//! flows one way: a [`mixer::MixerControl`] enqueues tagged commands onto a
//! FIFO [`message::ControlChannel`]; the [`mixer::Mixer`] drains all pending
//! commands at the start of every callback and then synthesizes samples.
//!
//! Samples, volumes and pitch factors are held in signed 16.16 fixed point:
//! [`FP_ONE`] stands for 1.0.  A valid sample lies in [-1.0, 1.0]; summing
//! several voices may exceed that range, which is accepted engine behaviour
//! (no clipping or limiting is applied).

use vstd::prelude::*;

pub mod backend;
pub mod decoder;
pub mod laws;
pub mod message;
pub mod mixer;
pub mod sample;

verus! {

/// One unit of amplitude, of volume, of pitch and of cursor position in
/// 16.16 fixed point: the representation of 1.0.
pub const FP_ONE: i64 = 65536;

/// Largest accepted pitch factor: 256 times native speed.
pub const MAX_PITCH: i64 = 65536 * 256;

/// Largest number of simultaneously live playbacks the engine will hold.
/// A `Play` command that would exceed it is ignored, which keeps every
/// per-sample accumulation comfortably inside `i64`.
pub const MAX_VOICES: usize = 1048576;

/// Largest number of stereo frames a single asset may hold (about 27 hours
/// at 44100 Hz).  Keeps fixed-point cursors inside `i64`.
pub const MAX_FRAMES: i64 = 4294967296;

/// A sample value is valid when it lies in [-1.0, 1.0].
pub open spec fn sample_in_range(s: int) -> bool {
    -FP_ONE <= s <= FP_ONE
}

/// A linear volume is valid when it lies in [0.0, 1.0]; anything else is a
/// caller contract violation.
pub open spec fn volume_in_range(v: int) -> bool {
    0 <= v <= FP_ONE
}

/// A pitch factor is valid when it is positive and at most `MAX_PITCH`.
pub open spec fn pitch_in_range(p: int) -> bool {
    1 <= p <= MAX_PITCH
}

/// Well-formed decoded asset data: interleaved stereo, so an even number of
/// samples, each in [-1.0, 1.0], and not more than `MAX_FRAMES` frames.
pub open spec fn sound_data_wf(d: Seq<i64>) -> bool {
    &&& d.len() % 2 == 0
    &&& d.len() <= 2 * MAX_FRAMES
    &&& forall|i: int| 0 <= i < d.len() ==> sample_in_range(#[trigger] d[i] as int)
}

} // verus!
