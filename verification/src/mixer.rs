//! The mixer engine: the sole owner of the asset store and the playback
//! table.
//!
//! At the start of every callback the engine drains all queued control
//! commands and applies them in FIFO order; then it synthesizes one
//! buffer's worth of interleaved stereo samples by summing every live
//! playback.  All commands of a cycle are applied before any sample of
//! that cycle is produced.

use std::collections::HashMap;
use vstd::prelude::*;

use crate::message::{message_wf, messages_wf, AudioMessage, ControlChannel, MixerControl};
use crate::sample::{fp_mul_s, gain_s, lerp_s};
use crate::{
    pitch_in_range, sound_data_wf, volume_in_range, FP_ONE, MAX_FRAMES, MAX_PITCH, MAX_VOICES,
};

verus! {

broadcast use vstd::std_specs::hash::group_hash_axioms;

/// One live playback: an independent read-cursor into a shared asset
/// buffer, together with its loop mode, volume and pitch.
///
/// `cursor` is a fixed-point frame position: `cursor / FP_ONE` is the
/// frame index, `cursor % FP_ONE` the sub-frame phase used for pitch
/// resampling.  `live` is cleared when the playback has exhausted a
/// one-shot asset; the engine reaps dead instances at the end of the
/// synthesis cycle that killed them.
#[derive(Debug, Clone, Copy, PartialEq, Eq, Structural)]
pub struct SoundState {
    pub sound_id: u64,
    pub play_id: u64,
    pub cursor: i64,
    pub looped: bool,
    pub volume: i64,
    pub pitch: i64,
    pub live: bool,
}

/// The number of stereo frames in an asset's interleaved data.
pub open spec fn frames_of(data: Seq<i64>) -> int {
    data.len() as int / 2
}

/// A playback is well formed against a store when its asset is present,
/// its volume and pitch are in range, it is live, and its cursor sits
/// inside the asset (a one-shot cursor may overshoot the end by less than
/// one `MAX_PITCH` step before the next cycle reaps it).
pub open spec fn voice_wf(s: SoundState, sounds: Map<u64, Seq<i64>>) -> bool {
    &&& sounds.contains_key(s.sound_id)
    &&& volume_in_range(s.volume as int)
    &&& pitch_in_range(s.pitch as int)
    &&& 0 <= s.cursor <= frames_of(sounds[s.sound_id]) * FP_ONE + MAX_PITCH
    &&& s.live
}

/// Every asset of the store holds well-formed interleaved stereo data.
pub open spec fn sounds_wf(sounds: Map<u64, Seq<i64>>) -> bool {
    forall|id: u64| #[trigger] sounds.contains_key(id) ==> sound_data_wf(sounds[id])
}

/// The playback table is well formed: bounded, and every entry valid
/// against the store.
pub open spec fn table_wf(table: Seq<SoundState>, sounds: Map<u64, Seq<i64>>) -> bool {
    &&& table.len() <= MAX_VOICES
    &&& forall|i: int| 0 <= i < table.len() ==> voice_wf(#[trigger] table[i], sounds)
}

/// What one drained command does to the asset store and the playback
/// table.  Commands targeting ids that are no longer present are silent
/// no-ops: with asynchronous delivery such races are expected and
/// harmless.  An `AddSound` for an id already in the store keeps the
/// first data (the control handle never reuses an id), and a `Play`
/// lands only while the table is below its voice bound.
pub open spec fn apply_message_s(
    sounds: Map<u64, Seq<i64>>,
    table: Seq<SoundState>,
    m: AudioMessage,
) -> (Map<u64, Seq<i64>>, Seq<SoundState>) {
    match m {
        AudioMessage::AddSound(id, data) => (
            if sounds.contains_key(id) {
                sounds
            } else {
                sounds.insert(id, data@)
            },
            table,
        ),
        AudioMessage::Play(sound_id, play_id, looped, volume, pitch) => (
            sounds,
            if sounds.contains_key(sound_id) && table.len() < MAX_VOICES {
                table.push(
                    SoundState {
                        sound_id,
                        play_id,
                        cursor: 0,
                        looped,
                        volume,
                        pitch,
                        live: true,
                    },
                )
            } else {
                table
            },
        ),
        AudioMessage::Stop(play_id) => (
            sounds,
            table.filter(|s: SoundState| s.play_id != play_id),
        ),
        AudioMessage::StopAll(sound_id) => (
            sounds,
            table.filter(|s: SoundState| s.sound_id != sound_id),
        ),
        AudioMessage::SetVolume(play_id, volume) => (
            sounds,
            table.map_values(
                |s: SoundState|
                    if s.play_id == play_id {
                        SoundState { volume, ..s }
                    } else {
                        s
                    },
            ),
        ),
        AudioMessage::SetVolumeAll(sound_id, volume) => (
            sounds,
            table.map_values(
                |s: SoundState|
                    if s.sound_id == sound_id {
                        SoundState { volume, ..s }
                    } else {
                        s
                    },
            ),
        ),
        AudioMessage::SetPitch(play_id, pitch) => (
            sounds,
            table.map_values(
                |s: SoundState|
                    if s.play_id == play_id {
                        SoundState { pitch, ..s }
                    } else {
                        s
                    },
            ),
        ),
        AudioMessage::Delete(sound_id) => (
            sounds.remove(sound_id),
            table.filter(|s: SoundState| s.sound_id != sound_id),
        ),
    }
}

/// Folding `apply_message_s` over a batch of commands, in send order.
pub open spec fn apply_all_s(
    sounds: Map<u64, Seq<i64>>,
    table: Seq<SoundState>,
    msgs: Seq<AudioMessage>,
) -> (Map<u64, Seq<i64>>, Seq<SoundState>)
    decreases msgs.len(),
{
    if msgs.len() == 0 {
        (sounds, table)
    } else {
        let stepped = apply_message_s(sounds, table, msgs[0]);
        apply_all_s(stepped.0, stepped.1, msgs.drop_first())
    }
}

/// Every element of a filtered sequence occurs in the sequence it was
/// filtered from.
pub proof fn lemma_filter_mem<A>(s: Seq<A>, pred: spec_fn(A) -> bool, i: int)
    requires
        0 <= i < s.filter(pred).len(),
    ensures
        s.contains(s.filter(pred)[i]),
    decreases s.len(),
{
    reveal_with_fuel(Seq::filter, 2);
    if s.len() > 0 {
        let sub = s.drop_last().filter(pred);
        if i < sub.len() {
            lemma_filter_mem(s.drop_last(), pred, i);
            let k = choose|k: int| 0 <= k < s.drop_last().len() && s.drop_last()[k] == sub[i];
            assert(s[k] == s.filter(pred)[i]);
        } else {
            assert(s[s.len() - 1] == s.filter(pred)[i]);
        }
    }
}

/// Applying one well-formed command preserves well-formedness of the
/// store and the table.
pub proof fn lemma_apply_message_wf(
    sounds: Map<u64, Seq<i64>>,
    table: Seq<SoundState>,
    m: AudioMessage,
)
    requires
        sounds_wf(sounds),
        table_wf(table, sounds),
        message_wf(m),
    ensures
        sounds_wf(apply_message_s(sounds, table, m).0),
        table_wf(apply_message_s(sounds, table, m).1, apply_message_s(sounds, table, m).0),
{
    broadcast use vstd::seq_lib::group_filter_ensures;

    let s2 = apply_message_s(sounds, table, m).0;
    let t2 = apply_message_s(sounds, table, m).1;
    match m {
        AudioMessage::AddSound(id, data) => {
            assert forall|i: int| 0 <= i < t2.len() implies voice_wf(#[trigger] t2[i], s2) by {
                assert(voice_wf(table[i], sounds));
            }
        },
        AudioMessage::Play(sound_id, play_id, looped, volume, pitch) => {},
        AudioMessage::Stop(play_id) => {
            assert forall|i: int| 0 <= i < t2.len() implies voice_wf(#[trigger] t2[i], s2) by {
                lemma_filter_mem(table, |s: SoundState| s.play_id != play_id, i);
                let k = choose|k: int| 0 <= k < table.len() && table[k] == t2[i];
                assert(voice_wf(table[k], sounds));
            }
        },
        AudioMessage::StopAll(sound_id) => {
            assert forall|i: int| 0 <= i < t2.len() implies voice_wf(#[trigger] t2[i], s2) by {
                lemma_filter_mem(table, |s: SoundState| s.sound_id != sound_id, i);
                let k = choose|k: int| 0 <= k < table.len() && table[k] == t2[i];
                assert(voice_wf(table[k], sounds));
            }
        },
        AudioMessage::SetVolume(play_id, volume) => {
            assert forall|i: int| 0 <= i < t2.len() implies voice_wf(#[trigger] t2[i], s2) by {
                assert(voice_wf(table[i], sounds));
            }
        },
        AudioMessage::SetVolumeAll(sound_id, volume) => {
            assert forall|i: int| 0 <= i < t2.len() implies voice_wf(#[trigger] t2[i], s2) by {
                assert(voice_wf(table[i], sounds));
            }
        },
        AudioMessage::SetPitch(play_id, pitch) => {
            assert forall|i: int| 0 <= i < t2.len() implies voice_wf(#[trigger] t2[i], s2) by {
                assert(voice_wf(table[i], sounds));
            }
        },
        AudioMessage::Delete(sound_id) => {
            assert forall|i: int| 0 <= i < t2.len() implies voice_wf(#[trigger] t2[i], s2) by {
                lemma_filter_mem(table, |s: SoundState| s.sound_id != sound_id, i);
                let k = choose|k: int| 0 <= k < table.len() && table[k] == t2[i];
                assert(voice_wf(table[k], sounds));
            }
        },
    }
}

/// A playback still has a sample to produce: it is live, its asset is
/// not empty, and its cursor has not run past the last frame.
pub open spec fn voice_active(v: SoundState, frames: int) -> bool {
    &&& v.live
    &&& frames > 0
    &&& (v.cursor as int) < frames * FP_ONE
}

/// One output frame's worth of cursor bookkeeping for one playback
/// against an asset of `frames` frames: a looped cursor advances by the
/// pitch and wraps (a short asset may wrap several times in one
/// callback), a one-shot cursor advances until it runs off the end, and
/// an exhausted playback is marked dead and frozen.
pub open spec fn step_voice_s(v: SoundState, frames: int) -> SoundState {
    if !voice_active(v, frames) {
        SoundState { live: false, ..v }
    } else if v.looped {
        SoundState { cursor: ((v.cursor + v.pitch) % (frames * FP_ONE)) as i64, ..v }
    } else {
        SoundState { cursor: (v.cursor + v.pitch) as i64, ..v }
    }
}

/// The playback's state after producing `n` output frames.
pub open spec fn voice_after(v: SoundState, frames: int, n: nat) -> SoundState
    decreases n,
{
    if n == 0 {
        v
    } else {
        step_voice_s(voice_after(v, frames, (n - 1) as nat), frames)
    }
}

/// Stepping a playback only moves its cursor and liveness flag; identity,
/// loop mode, volume and pitch stay put.
pub proof fn lemma_voice_after_fields(v: SoundState, frames: int, n: nat)
    ensures
        voice_after(v, frames, n).sound_id == v.sound_id,
        voice_after(v, frames, n).play_id == v.play_id,
        voice_after(v, frames, n).looped == v.looped,
        voice_after(v, frames, n).volume == v.volume,
        voice_after(v, frames, n).pitch == v.pitch,
    decreases n,
{
    if n > 0 {
        lemma_voice_after_fields(v, frames, (n - 1) as nat);
    }
}

/// A cursor that starts inside the asset stays inside it (with at most
/// one pitch step of overshoot for a one-shot playback).
pub proof fn lemma_voice_after_cursor(v: SoundState, frames: int, n: nat)
    requires
        pitch_in_range(v.pitch as int),
        0 <= frames <= MAX_FRAMES,
        0 <= v.cursor <= frames * FP_ONE + MAX_PITCH,
    ensures
        0 <= voice_after(v, frames, n).cursor <= frames * FP_ONE + MAX_PITCH,
    decreases n,
{
    if n > 0 {
        lemma_voice_after_cursor(v, frames, (n - 1) as nat);
        lemma_voice_after_fields(v, frames, (n - 1) as nat);
        let w = voice_after(v, frames, (n - 1) as nat);
        if voice_active(w, frames) {
            assert(frames * FP_ONE > 0) by (nonlinear_arith)
                requires frames > 0;
            vstd::arithmetic::div_mod::lemma_mod_bound(
                w.cursor + w.pitch,
                frames * FP_ONE,
            );
        }
    }
}

/// The interpolated sample a playback produces on channel `c` (0 left,
/// 1 right) at its current cursor: linear interpolation between the two
/// source frames straddling the fractional cursor position.  At the last
/// frame the second sample wraps to the start for a looped playback and
/// holds the last frame for a one-shot one.
pub open spec fn voice_sample_s(v: SoundState, data: Seq<i64>, c: int) -> int {
    let frames = frames_of(data);
    let ip = v.cursor as int / (FP_ONE as int);
    let fr = v.cursor as int % (FP_ONE as int);
    let s0 = data[2 * ip + c] as int;
    let s1 = if ip + 1 < frames {
        data[2 * (ip + 1) + c] as int
    } else if v.looped {
        data[c] as int
    } else {
        s0
    };
    lerp_s(s0, s1, fr)
}

/// What one playback adds to output frame `f`, channel `c`: its
/// interpolated sample scaled by the squared product of playback volume
/// and bus volume, or nothing once the playback is exhausted.
pub open spec fn voice_contrib_s(
    v: SoundState,
    data: Seq<i64>,
    bus: int,
    f: nat,
    c: int,
) -> int {
    let w = voice_after(v, frames_of(data), f);
    if voice_active(w, frames_of(data)) {
        fp_mul_s(voice_sample_s(w, data, c), gain_s(w.volume as int, bus))
    } else {
        0
    }
}

/// The mixed output at frame `f`, channel `c`: the sum of every
/// playback's contribution.  Playbacks are summed, never clamped, so two
/// simultaneous playbacks superpose exactly.
pub open spec fn mix_sample_s(
    table: Seq<SoundState>,
    sounds: Map<u64, Seq<i64>>,
    bus: int,
    f: nat,
    c: int,
) -> int
    decreases table.len(),
{
    if table.len() == 0 {
        0
    } else {
        mix_sample_s(table.drop_last(), sounds, bus, f, c) + voice_contrib_s(
            table.last(),
            sounds[table.last().sound_id],
            bus,
            f,
            c,
        )
    }
}

/// Every playback of the table after it has produced `n` output frames.
pub open spec fn advance_table_s(
    table: Seq<SoundState>,
    sounds: Map<u64, Seq<i64>>,
    n: nat,
) -> Seq<SoundState> {
    table.map_values(|v: SoundState| voice_after(v, frames_of(sounds[v.sound_id]), n))
}

/// The playback table after a whole synthesis cycle of `n` frames:
/// every cursor advanced, every playback that exhausted a one-shot asset
/// reaped.
pub open spec fn synth_table_s(
    table: Seq<SoundState>,
    sounds: Map<u64, Seq<i64>>,
    n: nat,
) -> Seq<SoundState> {
    advance_table_s(table, sounds, n).filter(|v: SoundState| v.live)
}

/// One playback's contribution to any output sample is at most one unit
/// of amplitude in magnitude.
pub proof fn lemma_voice_contrib_bound(v: SoundState, data: Seq<i64>, bus: int, f: nat, c: int)
    requires
        sound_data_wf(data),
        volume_in_range(v.volume as int),
        pitch_in_range(v.pitch as int),
        volume_in_range(bus),
        0 <= v.cursor <= frames_of(data) * FP_ONE + MAX_PITCH,
        0 <= c < 2,
    ensures
        -FP_ONE <= voice_contrib_s(v, data, bus, f, c) <= FP_ONE,
{
    let frames = frames_of(data);
    let w = voice_after(v, frames, f);
    lemma_voice_after_fields(v, frames, f);
    lemma_voice_after_cursor(v, frames, f);
    if voice_active(w, frames) {
        let ip = w.cursor as int / (FP_ONE as int);
        let fr = w.cursor as int % (FP_ONE as int);
        vstd::arithmetic::div_mod::lemma_multiply_divide_lt(
            w.cursor as int,
            FP_ONE as int,
            frames,
        );
        assert(frames * FP_ONE == FP_ONE * frames) by (nonlinear_arith);
        vstd::arithmetic::div_mod::lemma_div_pos_is_pos(w.cursor as int, FP_ONE as int);
        vstd::arithmetic::div_mod::lemma_mod_bound(w.cursor as int, FP_ONE as int);
        let s0 = data[2 * ip + c] as int;
        let s1 = if ip + 1 < frames {
            data[2 * (ip + 1) + c] as int
        } else if w.looped {
            data[c] as int
        } else {
            s0
        };
        crate::sample::lemma_lerp_range(s0, s1, fr);
        crate::sample::lemma_gain_range(w.volume as int, bus);
        crate::sample::lemma_fp_mul_bound(
            voice_sample_s(w, data, c),
            gain_s(w.volume as int, bus),
            FP_ONE as int,
        );
    }
}

/// The mixed output is bounded by the number of playbacks, since each
/// contributes at most one unit of amplitude.
pub proof fn lemma_mix_sample_bound(
    table: Seq<SoundState>,
    sounds: Map<u64, Seq<i64>>,
    bus: int,
    f: nat,
    c: int,
)
    requires
        sounds_wf(sounds),
        forall|i: int| 0 <= i < table.len() ==> voice_wf(#[trigger] table[i], sounds),
        volume_in_range(bus),
        0 <= c < 2,
    ensures
        -(table.len() as int) * FP_ONE <= mix_sample_s(table, sounds, bus, f, c) <= (
        table.len() as int) * FP_ONE,
    decreases table.len(),
{
    if table.len() > 0 {
        let prefix = table.drop_last();
        assert(forall|i: int|
            0 <= i < prefix.len() ==> voice_wf(#[trigger] prefix[i], sounds)) by {
            assert(forall|i: int| 0 <= i < prefix.len() ==> prefix[i] == table[i]);
        }
        lemma_mix_sample_bound(prefix, sounds, bus, f, c);
        let last = table.last();
        assert(voice_wf(last, sounds));
        lemma_voice_contrib_bound(last, sounds[last.sound_id], bus, f, c);
        assert((table.len() as int) * FP_ONE == (prefix.len() as int) * FP_ONE + FP_ONE)
            by (nonlinear_arith)
            requires table.len() == prefix.len() + 1;
    }
}

/// The mixer engine.  It owns the asset store and the playback table and
/// is the only code that mutates them; callers reach it exclusively
/// through the control channel.
pub struct Mixer {
    queue: ControlChannel,
    sounds: HashMap<u64, Vec<i64>>,
    mixer_state: Vec<SoundState>,
    bus_volume: i64,
}

/// The receiving half of a freshly created mixer pair; `build` turns it
/// into the engine that the audio callback owns.
pub struct MixerBuilder {
    _private: (),
}

impl MixerBuilder {
    /// Builds the engine: empty asset store, empty playback table, bus
    /// volume 1.0.
    pub fn build(self) -> (m: Mixer)
        ensures
            m.wf(),
            m.sound_map() == Map::<u64, Seq<i64>>::empty(),
            m.table() == Seq::<SoundState>::empty(),
            m.pending() == Seq::<AudioMessage>::empty(),
            m.bus() == FP_ONE,
    {
        let m = Mixer {
            queue: ControlChannel::new(),
            sounds: HashMap::new(),
            mixer_state: Vec::new(),
            bus_volume: FP_ONE,
        };
        proof {
            assert(m.sound_map() =~= Map::<u64, Seq<i64>>::empty());
        }
        m
    }
}

impl Mixer {
    /// The asset store: decoded interleaved stereo data by sound id.
    pub closed spec fn sound_map(self) -> Map<u64, Seq<i64>> {
        self.sounds@.map_values(|v: Vec<i64>| v@)
    }

    /// The playback table.
    pub closed spec fn table(self) -> Seq<SoundState> {
        self.mixer_state@
    }

    /// The commands posted to the engine and not yet drained.
    pub closed spec fn pending(self) -> Seq<AudioMessage> {
        self.queue@
    }

    /// The master gain applied to all playbacks of this mixer.
    pub closed spec fn bus(self) -> i64 {
        self.bus_volume
    }

    /// The engine invariant: store, table and queue are well formed and
    /// every live playback references an asset that is present.
    pub closed spec fn wf(self) -> bool {
        &&& sounds_wf(self.sound_map())
        &&& table_wf(self.table(), self.sound_map())
        &&& messages_wf(self.pending())
        &&& volume_in_range(self.bus_volume as int)
    }

    /// Creates a connected builder/control pair.  The control handle
    /// allocates ids starting from zero; the builder becomes the engine.
    pub fn new() -> (r: (MixerBuilder, MixerControl))
        ensures
            r.1.wf(),
            r.1.pending() == Seq::<AudioMessage>::empty(),
            r.1.next_sound() == 0,
            r.1.next_play() == 0,
    {
        (MixerBuilder { _private: () }, MixerControl::new())
    }

    /// Accepts one command for the next drain.  Unverified glue forwards
    /// commands from [`MixerControl::take_messages`], which only hands out
    /// well-formed ones, in send order.
    pub fn post(&mut self, m: AudioMessage)
        requires
            old(self).wf(),
            message_wf(m),
        ensures
            final(self).wf(),
            final(self).pending() == old(self).pending().push(m),
            final(self).sound_map() == old(self).sound_map(),
            final(self).table() == old(self).table(),
            final(self).bus() == old(self).bus(),
    {
        self.queue.send(m);
    }

    /// Sets the master gain of this mixer; it multiplies every playback's
    /// own volume before the perceptual remap.
    pub fn set_bus_volume(&mut self, volume: i64)
        requires
            old(self).wf(),
            volume_in_range(volume as int),
        ensures
            final(self).wf(),
            final(self).bus() == volume,
            final(self).pending() == old(self).pending(),
            final(self).sound_map() == old(self).sound_map(),
            final(self).table() == old(self).table(),
    {
        self.bus_volume = volume;
    }

    /// Applies one command to the engine state.
    fn apply_message(&mut self, m: AudioMessage)
        requires
            old(self).wf(),
            message_wf(m),
        ensures
            final(self).wf(),
            final(self).sound_map() == apply_message_s(
                old(self).sound_map(),
                old(self).table(),
                m,
            ).0,
            final(self).table() == apply_message_s(old(self).sound_map(), old(self).table(), m).1,
            final(self).pending() == old(self).pending(),
            final(self).bus() == old(self).bus(),
    {
        proof {
            lemma_apply_message_wf(self.sound_map(), self.table(), m);
        }
        match m {
            AudioMessage::AddSound(id, data) => {
                if !self.sounds.contains_key(&id) {
                    let ghost old_map = self.sound_map();
                    self.sounds.insert(id, data);
                    proof {
                        assert(self.sound_map() =~= old_map.insert(id, data@));
                    }
                }
            },
            AudioMessage::Play(sound_id, play_id, looped, volume, pitch) => {
                if self.sounds.contains_key(&sound_id) && self.mixer_state.len() < MAX_VOICES {
                    self.mixer_state.push(
                        SoundState {
                            sound_id,
                            play_id,
                            cursor: 0,
                            looped,
                            volume,
                            pitch,
                            live: true,
                        },
                    );
                }
            },
            AudioMessage::Stop(play_id) => {
                retain_not_play(&mut self.mixer_state, play_id);
            },
            AudioMessage::StopAll(sound_id) => {
                retain_not_sound(&mut self.mixer_state, sound_id);
            },
            AudioMessage::SetVolume(play_id, volume) => {
                set_volume_play(&mut self.mixer_state, play_id, volume);
            },
            AudioMessage::SetVolumeAll(sound_id, volume) => {
                set_volume_sound(&mut self.mixer_state, sound_id, volume);
            },
            AudioMessage::SetPitch(play_id, pitch) => {
                set_pitch_play(&mut self.mixer_state, play_id, pitch);
            },
            AudioMessage::Delete(sound_id) => {
                let ghost old_map = self.sound_map();
                self.sounds.remove(&sound_id);
                retain_not_sound(&mut self.mixer_state, sound_id);
                proof {
                    assert(self.sound_map() =~= old_map.remove(sound_id));
                }
            },
        }
    }

    /// Drains every queued command and applies them in FIFO order.  No
    /// command is observed mid-buffer: `fill_audio_buffer` calls this
    /// before producing any sample.
    pub fn drain(&mut self)
        requires
            old(self).wf(),
        ensures
            final(self).wf(),
            final(self).sound_map() == apply_all_s(
                old(self).sound_map(),
                old(self).table(),
                old(self).pending(),
            ).0,
            final(self).table() == apply_all_s(
                old(self).sound_map(),
                old(self).table(),
                old(self).pending(),
            ).1,
            final(self).pending() == Seq::<AudioMessage>::empty(),
            final(self).bus() == old(self).bus(),
    {
        let ghost target = apply_all_s(
            old(self).sound_map(),
            old(self).table(),
            old(self).pending(),
        );
        let mut msgs = self.queue.drain();
        while msgs.len() > 0
            invariant
                self.wf(),
                messages_wf(msgs@),
                apply_all_s(self.sound_map(), self.table(), msgs@) == target,
                self.pending() == Seq::<AudioMessage>::empty(),
                self.bus() == old(self).bus(),
            decreases msgs.len(),
        {
            let ghost before = msgs@;
            let m = msgs.remove(0);
            proof {
                assert(before.remove(0) =~= before.drop_first());
                assert(message_wf(before[0]));
                assert forall|i: int| 0 <= i < before.drop_first().len() implies message_wf(
                    #[trigger] before.drop_first()[i],
                ) by {
                    assert(before.drop_first()[i] == before[i + 1]);
                }
            }
            self.apply_message(m);
        }
    }

    /// Produces `frames` interleaved stereo frames into `buffer`: drains
    /// and applies every queued command, zeroes the buffer, accumulates
    /// every live playback's contribution, and finally reaps the
    /// playbacks that exhausted a one-shot asset this cycle.  Summing is
    /// additive and unclamped: simultaneous playbacks superpose exactly,
    /// and a one-shot voice that ends mid-buffer leaves the remaining
    /// frames unmodified by that voice.
    pub fn fill_audio_buffer(&mut self, buffer: &mut Vec<i64>, frames: usize)
        requires
            old(self).wf(),
            old(buffer).len() == 2 * frames,
        ensures
            final(self).wf(),
            final(self).pending() == Seq::<AudioMessage>::empty(),
            final(self).bus() == old(self).bus(),
            final(self).sound_map() == apply_all_s(
                old(self).sound_map(),
                old(self).table(),
                old(self).pending(),
            ).0,
            final(self).table() == synth_table_s(
                apply_all_s(old(self).sound_map(), old(self).table(), old(self).pending()).1,
                apply_all_s(old(self).sound_map(), old(self).table(), old(self).pending()).0,
                frames as nat,
            ),
            final(buffer)@.len() == 2 * frames,
            forall|j: int|
                0 <= j < 2 * frames ==> final(buffer)@[j] == mix_sample_s(
                    apply_all_s(old(self).sound_map(), old(self).table(), old(self).pending()).1,
                    apply_all_s(old(self).sound_map(), old(self).table(), old(self).pending()).0,
                    old(self).bus() as int,
                    (j / 2) as nat,
                    j % 2,
                ),
    {
        self.drain();
        let ghost sounds_g = self.sound_map();
        let ghost table0 = self.table();
        let mut z: usize = 0;
        while z < buffer.len()
            invariant
                buffer@.len() == 2 * frames,
                z <= buffer@.len(),
                forall|j: int| 0 <= j < z ==> #[trigger] buffer@[j] == 0,
            decreases buffer@.len() - z,
        {
            buffer[z] = 0;
            z = z + 1;
        }
        let bus = self.bus_volume;
        let mut i: usize = 0;
        while i < self.mixer_state.len()
            invariant
                sounds_wf(sounds_g),
                table_wf(table0, sounds_g),
                volume_in_range(bus as int),
                bus == self.bus(),
                self.sound_map() == sounds_g,
                self.pending() == Seq::<AudioMessage>::empty(),
                self.mixer_state@.len() == table0.len(),
                i <= table0.len(),
                forall|k: int|
                    0 <= k < i ==> #[trigger] self.mixer_state@[k] == voice_after(
                        table0[k],
                        frames_of(sounds_g[table0[k].sound_id]),
                        frames as nat,
                    ),
                forall|k: int|
                    i <= k < table0.len() ==> #[trigger] self.mixer_state@[k] == table0[k],
                buffer@.len() == 2 * frames,
                forall|j: int|
                    0 <= j < 2 * frames ==> #[trigger] buffer@[j] == mix_sample_s(
                        table0.subrange(0, i as int),
                        sounds_g,
                        bus as int,
                        (j / 2) as nat,
                        j % 2,
                    ),
            decreases table0.len() - i,
        {
            let ghost prefix = table0.subrange(0, i as int);
            proof {
                assert(voice_wf(table0[i as int], sounds_g));
                assert(forall|k: int|
                    0 <= k < prefix.len() ==> voice_wf(#[trigger] prefix[k], sounds_g));
                assert forall|j: int| 0 <= j < 2 * frames implies -0x4000000000000000
                    <= #[trigger] buffer@[j] <= 0x4000000000000000 by {
                    lemma_mix_sample_bound(prefix, sounds_g, bus as int, (j / 2) as nat, j % 2);
                }
            }
            let sid = self.mixer_state[i].sound_id;
            let data = self.sounds.get(&sid).unwrap();
            proof {
                assert(sounds_g.contains_key(sid));
                assert(data@ == sounds_g[sid]);
                assert(sound_data_wf(data@));
            }
            let mut v = self.mixer_state[i];
            mix_voice(&mut v, data, bus, buffer);
            self.mixer_state[i] = v;
            proof {
                let prefix1 = table0.subrange(0, i + 1);
                assert(prefix1.drop_last() =~= prefix);
                assert(prefix1.last() == table0[i as int]);
                assert forall|j: int| 0 <= j < 2 * frames implies buffer@[j] == mix_sample_s(
                    prefix1,
                    sounds_g,
                    bus as int,
                    (j / 2) as nat,
                    j % 2,
                ) by {
                    assert(buffer@[j] == mix_sample_s(prefix, sounds_g, bus as int, (j / 2) as nat, j % 2)
                        + voice_contrib_s(
                        table0[i as int],
                        sounds_g[table0[i as int].sound_id],
                        bus as int,
                        (j / 2) as nat,
                        j % 2,
                    ));
                }
            }
            i = i + 1;
        }
        proof {
            assert(table0.subrange(0, table0.len() as int) =~= table0);
            assert(self.mixer_state@ =~= advance_table_s(table0, sounds_g, frames as nat));
        }
        retain_live(&mut self.mixer_state);
        proof {
            broadcast use vstd::seq_lib::group_filter_ensures;

            let adv = advance_table_s(table0, sounds_g, frames as nat);
            let pred = |v: SoundState| v.live;
            assert forall|k: int|
                0 <= k < self.mixer_state@.len() implies voice_wf(
                #[trigger] self.mixer_state@[k],
                sounds_g,
            ) by {
                lemma_filter_mem(adv, pred, k);
                let t = choose|t: int| 0 <= t < adv.len() && adv[t] == adv.filter(pred)[k];
                assert(voice_wf(table0[t], sounds_g));
                let fr = frames_of(sounds_g[table0[t].sound_id]);
                lemma_voice_after_fields(table0[t], fr, frames as nat);
                lemma_voice_after_cursor(table0[t], fr, frames as nat);
            }
        }
    }
}

/// Mixes one playback into the whole output buffer, advancing its cursor
/// one pitch step per output frame and accumulating (never overwriting)
/// its scaled, interpolated samples.  With pitch = `FP_ONE` the cursor
/// phase stays zero and resampling is the identity on the fetched run.
fn mix_voice(voice: &mut SoundState, data: &Vec<i64>, bus: i64, buffer: &mut Vec<i64>)
    requires
        sound_data_wf(data@),
        volume_in_range(old(voice).volume as int),
        pitch_in_range(old(voice).pitch as int),
        0 <= old(voice).cursor <= frames_of(data@) * FP_ONE + MAX_PITCH,
        volume_in_range(bus as int),
        old(buffer).len() % 2 == 0,
        forall|j: int|
            0 <= j < old(buffer).len() ==> -0x4000000000000000 <= #[trigger] old(buffer)@[j]
                <= 0x4000000000000000,
    ensures
        final(buffer)@.len() == old(buffer)@.len(),
        *final(voice) == voice_after(
            *old(voice),
            frames_of(data@),
            (old(buffer)@.len() / 2) as nat,
        ),
        forall|j: int|
            0 <= j < old(buffer).len() ==> final(buffer)@[j] == old(buffer)@[j]
                + voice_contrib_s(*old(voice), data@, bus as int, (j / 2) as nat, j % 2),
{
    let ghost v0 = *voice;
    let ghost frames_g = frames_of(data@);
    let ghost buf0 = buffer@;
    let frames_total: usize = data.len() / 2;
    let n: usize = buffer.len() / 2;
    let g = crate::sample::gain(voice.volume, bus);
    proof {
        lemma_voice_after_fields(v0, frames_g, 0);
        vstd::arithmetic::div_mod::lemma_fundamental_div_mod(data@.len() as int, 2);
    }
    let mut f: usize = 0;
    while f < n
        invariant
            sound_data_wf(data@),
            frames_g == frames_of(data@),
            frames_total == frames_g,
            data@.len() == 2 * frames_g,
            0 <= frames_g <= MAX_FRAMES,
            frames_total <= usize::MAX / 2,
            n <= usize::MAX / 2,
            volume_in_range(v0.volume as int),
            pitch_in_range(v0.pitch as int),
            volume_in_range(bus as int),
            0 <= v0.cursor <= frames_g * FP_ONE + MAX_PITCH,
            g == gain_s(v0.volume as int, bus as int),
            volume_in_range(g as int),
            f <= n,
            buffer@.len() == buf0.len(),
            buf0.len() == 2 * n,
            *voice == voice_after(v0, frames_g, f as nat),
            forall|j: int|
                0 <= j < 2 * f ==> buffer@[j] == buf0[j] + voice_contrib_s(
                    v0,
                    data@,
                    bus as int,
                    (j / 2) as nat,
                    j % 2,
                ),
            forall|j: int| 2 * f <= j < buf0.len() ==> #[trigger] buffer@[j] == buf0[j],
            forall|j: int|
                0 <= j < buf0.len() ==> -0x4000000000000000 <= #[trigger] buf0[j]
                    <= 0x4000000000000000,
        decreases n - f,
    {
        proof {
            lemma_voice_after_fields(v0, frames_g, f as nat);
            lemma_voice_after_cursor(v0, frames_g, f as nat);
        }
        let active = voice.live && frames_total > 0 && voice.cursor < (frames_total as i64)
            * FP_ONE;
        if active {
            proof {
                vstd::arithmetic::div_mod::lemma_multiply_divide_lt(
                    voice.cursor as int,
                    FP_ONE as int,
                    frames_g,
                );
                assert(frames_g * FP_ONE == FP_ONE * frames_g) by (nonlinear_arith);
                vstd::arithmetic::div_mod::lemma_div_pos_is_pos(voice.cursor as int, FP_ONE as int);
                vstd::arithmetic::div_mod::lemma_mod_bound(voice.cursor as int, FP_ONE as int);
            }
            let ip: usize = (voice.cursor / FP_ONE) as usize;
            let fr: i64 = voice.cursor % FP_ONE;
            proof {
                assert(ip < frames_total);
            }
            let s0_l = data[2 * ip];
            let s0_r = data[2 * ip + 1];
            let (s1_l, s1_r) = if ip + 1 < frames_total {
                (data[2 * ip + 2], data[2 * ip + 3])
            } else if voice.looped {
                (data[0], data[1])
            } else {
                (s0_l, s0_r)
            };
            let out_l = crate::sample::scale(crate::sample::lerp(s0_l, s1_l, fr), g);
            let out_r = crate::sample::scale(crate::sample::lerp(s0_r, s1_r, fr), g);
            proof {
                assert(out_l == voice_contrib_s(v0, data@, bus as int, f as nat, 0));
                assert(out_r == voice_contrib_s(v0, data@, bus as int, f as nat, 1));
            }
            let bl = buffer[2 * f];
            buffer[2 * f] = bl + out_l;
            let br = buffer[2 * f + 1];
            buffer[2 * f + 1] = br + out_r;
            if voice.looped {
                proof {
                    assert(frames_g * FP_ONE > 0) by (nonlinear_arith)
                        requires frames_g > 0;
                }
                voice.cursor = (voice.cursor + voice.pitch) % ((frames_total as i64) * FP_ONE);
            } else {
                voice.cursor = voice.cursor + voice.pitch;
            }
        } else {
            voice.live = false;
            proof {
                assert(voice_contrib_s(v0, data@, bus as int, f as nat, 0) == 0);
                assert(voice_contrib_s(v0, data@, bus as int, f as nat, 1) == 0);
            }
        }
        proof {
            assert(*voice == voice_after(v0, frames_g, (f + 1) as nat));
        }
        f = f + 1;
    }
}

/// Removes, preserving order, every playback that was marked dead during
/// this synthesis cycle.
fn retain_live(table: &mut Vec<SoundState>)
    ensures
        final(table)@ == old(table)@.filter(|s: SoundState| s.live),
{
    broadcast use vstd::seq_lib::group_filter_ensures;

    let ghost orig = table@;
    let ghost pred = |s: SoundState| s.live;
    let mut i: usize = 0;
    let ghost mut j: int = 0;
    while i < table.len()
        invariant
            0 <= j <= orig.len(),
            i == orig.subrange(0, j).filter(pred).len(),
            table@ == orig.subrange(0, j).filter(pred) + orig.subrange(j, orig.len() as int),
            pred == (|s: SoundState| s.live),
        decreases orig.len() - j,
    {
        proof {
            assert(orig.subrange(0, j + 1) =~= orig.subrange(0, j).push(orig[j]));
            lemma_filter_push(orig.subrange(0, j), pred, orig[j]);
            assert(table@[i as int] == orig[j]);
        }
        if table[i].live {
            i = i + 1;
        } else {
            table.remove(i);
            proof {
                assert(table@ =~= orig.subrange(0, j + 1).filter(pred) + orig.subrange(
                    j + 1,
                    orig.len() as int,
                ));
            }
        }
        proof {
            if j < orig.len() && pred(orig[j]) {
                assert(table@ =~= orig.subrange(0, j + 1).filter(pred) + orig.subrange(
                    j + 1,
                    orig.len() as int,
                ));
            }
            j = j + 1;
        }
    }
    proof {
        assert(orig.subrange(0, orig.len() as int) =~= orig);
        assert(table@ =~= orig.filter(pred));
    }
}

/// Removes, preserving order, every table entry whose playback id is
/// `play_id`.
fn retain_not_play(table: &mut Vec<SoundState>, play_id: u64)
    ensures
        final(table)@ == old(table)@.filter(|s: SoundState| s.play_id != play_id),
{
    broadcast use vstd::seq_lib::group_filter_ensures;

    let ghost orig = table@;
    let ghost pred = |s: SoundState| s.play_id != play_id;
    let mut i: usize = 0;
    let ghost mut j: int = 0;
    while i < table.len()
        invariant
            0 <= j <= orig.len(),
            i == orig.subrange(0, j).filter(pred).len(),
            table@ == orig.subrange(0, j).filter(pred) + orig.subrange(j, orig.len() as int),
            pred == (|s: SoundState| s.play_id != play_id),
        decreases orig.len() - j,
    {
        proof {
            assert(orig.subrange(0, j + 1) =~= orig.subrange(0, j).push(orig[j]));
            lemma_filter_push(orig.subrange(0, j), pred, orig[j]);
            assert(table@[i as int] == orig[j]);
        }
        if table[i].play_id != play_id {
            i = i + 1;
        } else {
            table.remove(i);
            proof {
                assert(table@ =~= orig.subrange(0, j + 1).filter(pred) + orig.subrange(
                    j + 1,
                    orig.len() as int,
                ));
            }
        }
        proof {
            if j < orig.len() && pred(orig[j]) {
                assert(table@ =~= orig.subrange(0, j + 1).filter(pred) + orig.subrange(
                    j + 1,
                    orig.len() as int,
                ));
            }
            j = j + 1;
        }
    }
    proof {
        assert(orig.subrange(0, orig.len() as int) =~= orig);
        assert(table@ =~= orig.filter(pred));
    }
}

/// Removes, preserving order, every table entry whose sound id is
/// `sound_id`.
fn retain_not_sound(table: &mut Vec<SoundState>, sound_id: u64)
    ensures
        final(table)@ == old(table)@.filter(|s: SoundState| s.sound_id != sound_id),
{
    broadcast use vstd::seq_lib::group_filter_ensures;

    let ghost orig = table@;
    let ghost pred = |s: SoundState| s.sound_id != sound_id;
    let mut i: usize = 0;
    let ghost mut j: int = 0;
    while i < table.len()
        invariant
            0 <= j <= orig.len(),
            i == orig.subrange(0, j).filter(pred).len(),
            table@ == orig.subrange(0, j).filter(pred) + orig.subrange(j, orig.len() as int),
            pred == (|s: SoundState| s.sound_id != sound_id),
        decreases orig.len() - j,
    {
        proof {
            assert(orig.subrange(0, j + 1) =~= orig.subrange(0, j).push(orig[j]));
            lemma_filter_push(orig.subrange(0, j), pred, orig[j]);
            assert(table@[i as int] == orig[j]);
        }
        if table[i].sound_id != sound_id {
            i = i + 1;
        } else {
            table.remove(i);
            proof {
                assert(table@ =~= orig.subrange(0, j + 1).filter(pred) + orig.subrange(
                    j + 1,
                    orig.len() as int,
                ));
            }
        }
        proof {
            if j < orig.len() && pred(orig[j]) {
                assert(table@ =~= orig.subrange(0, j + 1).filter(pred) + orig.subrange(
                    j + 1,
                    orig.len() as int,
                ));
            }
            j = j + 1;
        }
    }
    proof {
        assert(orig.subrange(0, orig.len() as int) =~= orig);
        assert(table@ =~= orig.filter(pred));
    }
}

/// Filtering a sequence extended by one element either keeps or drops
/// that element, depending only on the predicate.
pub proof fn lemma_filter_push<A>(s: Seq<A>, pred: spec_fn(A) -> bool, x: A)
    ensures
        s.push(x).filter(pred) == if pred(x) {
            s.filter(pred).push(x)
        } else {
            s.filter(pred)
        },
{
    reveal_with_fuel(Seq::filter, 2);
    assert(s.push(x).drop_last() =~= s);
    assert(s.push(x).last() == x);
}

/// Sets the volume of the entry with playback id `play_id`, if present.
fn set_volume_play(table: &mut Vec<SoundState>, play_id: u64, volume: i64)
    ensures
        final(table)@ == old(table)@.map_values(
            |s: SoundState|
                if s.play_id == play_id {
                    SoundState { volume, ..s }
                } else {
                    s
                },
        ),
{
    let ghost orig = table@;
    let ghost f = |s: SoundState|
        if s.play_id == play_id {
            SoundState { volume, ..s }
        } else {
            s
        };
    let mut i: usize = 0;
    while i < table.len()
        invariant
            table@.len() == orig.len(),
            i <= orig.len(),
            forall|k: int| 0 <= k < i ==> table@[k] == f(orig[k]),
            forall|k: int| i <= k < orig.len() ==> table@[k] == orig[k],
            f == (|s: SoundState|
                if s.play_id == play_id {
                    SoundState { volume, ..s }
                } else {
                    s
                }),
        decreases orig.len() - i,
    {
        if table[i].play_id == play_id {
            let updated = SoundState { volume, ..table[i] };
            table[i] = updated;
        }
        i = i + 1;
    }
    proof {
        assert(table@ =~= orig.map_values(f));
    }
}

/// Sets the volume of every entry with sound id `sound_id`.
fn set_volume_sound(table: &mut Vec<SoundState>, sound_id: u64, volume: i64)
    ensures
        final(table)@ == old(table)@.map_values(
            |s: SoundState|
                if s.sound_id == sound_id {
                    SoundState { volume, ..s }
                } else {
                    s
                },
        ),
{
    let ghost orig = table@;
    let ghost f = |s: SoundState|
        if s.sound_id == sound_id {
            SoundState { volume, ..s }
        } else {
            s
        };
    let mut i: usize = 0;
    while i < table.len()
        invariant
            table@.len() == orig.len(),
            i <= orig.len(),
            forall|k: int| 0 <= k < i ==> table@[k] == f(orig[k]),
            forall|k: int| i <= k < orig.len() ==> table@[k] == orig[k],
            f == (|s: SoundState|
                if s.sound_id == sound_id {
                    SoundState { volume, ..s }
                } else {
                    s
                }),
        decreases orig.len() - i,
    {
        if table[i].sound_id == sound_id {
            let updated = SoundState { volume, ..table[i] };
            table[i] = updated;
        }
        i = i + 1;
    }
    proof {
        assert(table@ =~= orig.map_values(f));
    }
}

/// Sets the pitch of the entry with playback id `play_id`, if present.
fn set_pitch_play(table: &mut Vec<SoundState>, play_id: u64, pitch: i64)
    ensures
        final(table)@ == old(table)@.map_values(
            |s: SoundState|
                if s.play_id == play_id {
                    SoundState { pitch, ..s }
                } else {
                    s
                },
        ),
{
    let ghost orig = table@;
    let ghost f = |s: SoundState|
        if s.play_id == play_id {
            SoundState { pitch, ..s }
        } else {
            s
        };
    let mut i: usize = 0;
    while i < table.len()
        invariant
            table@.len() == orig.len(),
            i <= orig.len(),
            forall|k: int| 0 <= k < i ==> table@[k] == f(orig[k]),
            forall|k: int| i <= k < orig.len() ==> table@[k] == orig[k],
            f == (|s: SoundState|
                if s.play_id == play_id {
                    SoundState { pitch, ..s }
                } else {
                    s
                }),
        decreases orig.len() - i,
    {
        if table[i].play_id == play_id {
            let updated = SoundState { pitch, ..table[i] };
            table[i] = updated;
        }
        i = i + 1;
    }
    proof {
        assert(table@ =~= orig.map_values(f));
    }
}

} // verus!
