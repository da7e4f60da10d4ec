//! Engine-wide laws, stated and proved against the specification
//! functions that the mixer's contracts use.

use vstd::prelude::*;

use crate::message::{message_wf, messages_wf, AudioMessage};
use crate::mixer::{
    advance_table_s, apply_all_s, apply_message_s, frames_of, lemma_apply_message_wf,
    lemma_filter_mem, mix_sample_s, sounds_wf, step_voice_s, synth_table_s, table_wf,
    voice_active, voice_after, voice_contrib_s, voice_sample_s, SoundState,
};
use crate::sample::{fp_mul_s, gain_s};
use crate::{pitch_in_range, sound_data_wf, FP_ONE, MAX_FRAMES, MAX_PITCH};

verus! {

/// Applying two batches of commands one after the other is the same as
/// applying their concatenation.
pub proof fn lemma_apply_all_append(
    sounds: Map<u64, Seq<i64>>,
    table: Seq<SoundState>,
    a: Seq<AudioMessage>,
    b: Seq<AudioMessage>,
)
    ensures
        apply_all_s(sounds, table, a + b) == apply_all_s(
            apply_all_s(sounds, table, a).0,
            apply_all_s(sounds, table, a).1,
            b,
        ),
    decreases a.len(),
{
    if a.len() == 0 {
        assert(a + b =~= b);
    } else {
        assert((a + b)[0] == a[0]);
        assert((a + b).drop_first() =~= a.drop_first() + b);
        let stepped = apply_message_s(sounds, table, a[0]);
        lemma_apply_all_append(stepped.0, stepped.1, a.drop_first(), b);
    }
}

/// FIFO equivalence: commands sent through the control channel in send
/// order and drained as one batch leave the asset store and the playback
/// table exactly as mutating the state directly, one command at a time,
/// would.  Batch application peels off the last command like a direct
/// mutation does.
pub proof fn lemma_fifo_equivalence(
    sounds: Map<u64, Seq<i64>>,
    table: Seq<SoundState>,
    msgs: Seq<AudioMessage>,
)
    requires
        msgs.len() > 0,
    ensures
        apply_all_s(sounds, table, msgs) == apply_message_s(
            apply_all_s(sounds, table, msgs.drop_last()).0,
            apply_all_s(sounds, table, msgs.drop_last()).1,
            msgs.last(),
        ),
{
    let front = msgs.drop_last();
    let single = seq![msgs.last()];
    assert(msgs =~= front + single);
    lemma_apply_all_append(sounds, table, front, single);
    let direct = apply_all_s(sounds, table, front);
    assert(single.drop_first() =~= Seq::<AudioMessage>::empty());
    assert(apply_all_s(direct.0, direct.1, single) == apply_message_s(
        direct.0,
        direct.1,
        msgs.last(),
    )) by {
        reveal_with_fuel(apply_all_s, 3);
    }
}

/// Referential integrity across the asynchronous boundary: applying any
/// batch of well-formed commands to a well-formed engine state leaves it
/// well formed, so after every drain cycle each live playback still
/// references an asset that is present in the store.
pub proof fn lemma_apply_all_wf(
    sounds: Map<u64, Seq<i64>>,
    table: Seq<SoundState>,
    msgs: Seq<AudioMessage>,
)
    requires
        sounds_wf(sounds),
        table_wf(table, sounds),
        messages_wf(msgs),
    ensures
        sounds_wf(apply_all_s(sounds, table, msgs).0),
        table_wf(apply_all_s(sounds, table, msgs).1, apply_all_s(sounds, table, msgs).0),
    decreases msgs.len(),
{
    if msgs.len() > 0 {
        lemma_apply_message_wf(sounds, table, msgs[0]);
        let stepped = apply_message_s(sounds, table, msgs[0]);
        assert(messages_wf(msgs.drop_first())) by {
            assert forall|i: int| 0 <= i < msgs.drop_first().len() implies message_wf(
                #[trigger] msgs.drop_first()[i],
            ) by {
                assert(msgs.drop_first()[i] == msgs[i + 1]);
            }
        }
        lemma_apply_all_wf(stepped.0, stepped.1, msgs.drop_first());
    }
}

/// Superposition: two groups of playbacks mixed together contribute the
/// sum of what each group contributes alone, sample for sample; there is
/// no implicit normalization or clamping.
pub proof fn lemma_superposition(
    t1: Seq<SoundState>,
    t2: Seq<SoundState>,
    sounds: Map<u64, Seq<i64>>,
    bus: int,
    f: nat,
    c: int,
)
    ensures
        mix_sample_s(t1 + t2, sounds, bus, f, c) == mix_sample_s(t1, sounds, bus, f, c)
            + mix_sample_s(t2, sounds, bus, f, c),
    decreases t2.len(),
{
    if t2.len() == 0 {
        assert(t1 + t2 =~= t1);
    } else {
        assert((t1 + t2).drop_last() =~= t1 + t2.drop_last());
        assert((t1 + t2).last() == t2.last());
        lemma_superposition(t1, t2.drop_last(), sounds, bus, f, c);
    }
}

/// A dead playback never comes back: stepping it changes nothing.
pub proof fn lemma_dead_stays_dead(v: SoundState, frames: int, n: nat)
    requires
        !v.live,
    ensures
        voice_after(v, frames, n) == v,
    decreases n,
{
    if n > 0 {
        lemma_dead_stays_dead(v, frames, (n - 1) as nat);
    }
}

/// At native pitch, a one-shot playback's cursor visits exactly the
/// source frames: after `f` output frames it sits on source frame `f`,
/// with zero sub-frame phase, as long as the asset lasts.
pub proof fn lemma_native_once_cursor(v: SoundState, frames: int, f: nat)
    requires
        !v.looped,
        v.live,
        v.cursor == 0,
        v.pitch == FP_ONE,
        0 < frames <= MAX_FRAMES,
        f <= frames,
    ensures
        voice_after(v, frames, f).live,
        voice_after(v, frames, f).cursor == f * FP_ONE,
    decreases f,
{
    if f > 0 {
        lemma_native_once_cursor(v, frames, (f - 1) as nat);
        lemma_voice_after_fields_local(v, frames, (f - 1) as nat);
    }
}

/// Local restatement of field preservation, so the laws can reason about
/// a stepped playback's volume, pitch and loop mode.
proof fn lemma_voice_after_fields_local(v: SoundState, frames: int, n: nat)
    ensures
        voice_after(v, frames, n).sound_id == v.sound_id,
        voice_after(v, frames, n).play_id == v.play_id,
        voice_after(v, frames, n).looped == v.looped,
        voice_after(v, frames, n).volume == v.volume,
        voice_after(v, frames, n).pitch == v.pitch,
    decreases n,
{
    if n > 0 {
        lemma_voice_after_fields_local(v, frames, (n - 1) as nat);
    }
}

/// Identity resampling: with pitch = 1.0 the sub-frame phase stays zero,
/// so interpolation degenerates to reading the source frame directly.
/// Output frame `f` of a fresh one-shot native playback is source frame
/// `f` scaled by the playback's gain — nothing else.
pub proof fn lemma_native_pitch_identity(
    v: SoundState,
    data: Seq<i64>,
    bus: int,
    f: nat,
    c: int,
)
    requires
        sound_data_wf(data),
        !v.looped,
        v.live,
        v.cursor == 0,
        v.pitch == FP_ONE,
        0 <= c < 2,
        f < frames_of(data),
    ensures
        voice_contrib_s(v, data, bus, f, c) == fp_mul_s(
            data[2 * (f as int) + c] as int,
            gain_s(v.volume as int, bus),
        ),
{
    let frames = frames_of(data);
    lemma_native_once_cursor(v, frames, f);
    lemma_voice_after_fields_local(v, frames, f);
    let w = voice_after(v, frames, f);
    assert(w.cursor == f * FP_ONE);
    vstd::arithmetic::div_mod::lemma_div_by_multiple(f as int, FP_ONE as int);
    vstd::arithmetic::div_mod::lemma_mod_multiples_basic(f as int, FP_ONE as int);
    assert(w.cursor as int / (FP_ONE as int) == f);
    assert(w.cursor as int % (FP_ONE as int) == 0);
    let s0 = data[2 * (f as int) + c] as int;
    assert(voice_sample_s(w, data, c) == s0) by {
        let ip = w.cursor as int / (FP_ONE as int);
        let s1 = if ip + 1 < frames {
            data[2 * (ip + 1) + c] as int
        } else {
            s0
        };
        assert((s1 - s0) * 0 == 0) by (nonlinear_arith);
        assert((s0 - s1) * 0 == 0) by (nonlinear_arith);
        assert(fp_mul_s(s1 - s0, 0) == 0);
    }
}

/// At native pitch a looped playback's cursor cycles through the source
/// frames: after `f` output frames it sits on frame `f` modulo the
/// asset length, with zero sub-frame phase, and it never dies.
pub proof fn lemma_native_looped_cursor(v: SoundState, frames: int, f: nat)
    requires
        v.looped,
        v.live,
        v.cursor == 0,
        v.pitch == FP_ONE,
        0 < frames <= MAX_FRAMES,
    ensures
        voice_after(v, frames, f).live,
        voice_after(v, frames, f).cursor == ((f as int) % frames) * FP_ONE,
    decreases f,
{
    vstd::arithmetic::div_mod::lemma_mod_bound(f as int, frames);
    if f == 0 {
        vstd::arithmetic::div_mod::lemma_small_mod(0, frames as nat);
    } else {
        lemma_native_looped_cursor(v, frames, (f - 1) as nat);
        lemma_voice_after_fields_local(v, frames, (f - 1) as nat);
        let w = voice_after(v, frames, (f - 1) as nat);
        let r = (f - 1) % frames;
        vstd::arithmetic::div_mod::lemma_mod_bound(f - 1, frames);
        let q = (f - 1) / frames;
        vstd::arithmetic::div_mod::lemma_fundamental_div_mod(f - 1, frames);
        assert(voice_active(w, frames));
        assert(w.cursor + w.pitch == (r + 1) * FP_ONE);
        if r + 1 < frames {
            vstd::arithmetic::div_mod::lemma_fundamental_div_mod_converse(
                f as int,
                frames,
                q,
                r + 1,
            );
            assert(((r + 1) * FP_ONE) % (frames * FP_ONE) == (r + 1) * FP_ONE) by {
                assert((r + 1) * FP_ONE < frames * FP_ONE);
                assert(frames * FP_ONE > 0) by (nonlinear_arith)
                    requires frames > 0;
                vstd::arithmetic::div_mod::lemma_small_mod(
                    ((r + 1) * FP_ONE) as nat,
                    (frames * FP_ONE) as nat,
                );
            }
        } else {
            assert(f as int == (q + 1) * frames + 0) by (nonlinear_arith)
                requires f as int - 1 == q * frames + r && r + 1 == frames;
            vstd::arithmetic::div_mod::lemma_fundamental_div_mod_converse(
                f as int,
                frames,
                q + 1,
                0,
            );
            vstd::arithmetic::div_mod::lemma_mod_self_0(frames * FP_ONE);
            assert((r + 1) * FP_ONE == frames * FP_ONE);
        }
    }
}

/// Identity resampling for a looped playback: at native pitch, output
/// frame `f` is source frame `f` modulo the asset length, scaled by the
/// playback's gain — the raw source run, wrapped.
pub proof fn lemma_native_looped_identity(
    v: SoundState,
    data: Seq<i64>,
    bus: int,
    f: nat,
    c: int,
)
    requires
        sound_data_wf(data),
        v.looped,
        v.live,
        v.cursor == 0,
        v.pitch == FP_ONE,
        0 < frames_of(data),
        0 <= c < 2,
    ensures
        voice_contrib_s(v, data, bus, f, c) == fp_mul_s(
            data[2 * ((f as int) % frames_of(data)) + c] as int,
            gain_s(v.volume as int, bus),
        ),
{
    let frames = frames_of(data);
    lemma_native_looped_cursor(v, frames, f);
    lemma_voice_after_fields_local(v, frames, f);
    let w = voice_after(v, frames, f);
    let r = (f as int) % frames;
    vstd::arithmetic::div_mod::lemma_mod_bound(f as int, frames);
    vstd::arithmetic::div_mod::lemma_div_by_multiple(r, FP_ONE as int);
    vstd::arithmetic::div_mod::lemma_mod_multiples_basic(r, FP_ONE as int);
    assert(w.cursor as int / (FP_ONE as int) == r);
    assert(w.cursor as int % (FP_ONE as int) == 0);
    assert(voice_active(w, frames));
    let s0 = data[2 * r + c] as int;
    assert(voice_sample_s(w, data, c) == s0) by {
        let s1 = if r + 1 < frames {
            data[2 * (r + 1) + c] as int
        } else {
            data[c] as int
        };
        assert((s1 - s0) * 0 == 0) by (nonlinear_arith);
        assert((s0 - s1) * 0 == 0) by (nonlinear_arith);
        assert(fp_mul_s(s1 - s0, 0) == 0);
    }
}

/// P4, general cursor: at native pitch, starting from any whole-frame
/// cursor, a one-shot playback's phase stays zero and each output frame
/// reads one source frame directly while the asset lasts.
proof fn lemma_native_cursor_from(v: SoundState, frames: int, f: nat)
    requires
        !v.looped,
        v.live,
        v.pitch == FP_ONE,
        v.cursor >= 0,
        v.cursor % FP_ONE == 0,
        v.cursor as int / (FP_ONE as int) + f <= frames,
        frames <= MAX_FRAMES,
    ensures
        voice_after(v, frames, f).live,
        voice_after(v, frames, f).cursor == v.cursor + f * FP_ONE,
    decreases f,
{
    vstd::arithmetic::div_mod::lemma_fundamental_div_mod(v.cursor as int, FP_ONE as int);
    if f > 0 {
        lemma_native_cursor_from(v, frames, (f - 1) as nat);
        lemma_voice_after_fields_local(v, frames, (f - 1) as nat);
        let w = voice_after(v, frames, (f - 1) as nat);
        assert(voice_after(v, frames, f) == step_voice_s(w, frames));
    }
}

/// Identity resampling from any whole-frame cursor: with pitch = 1.0,
/// output frame `f` of a one-shot playback whose cursor sits on source
/// frame `k` is source frame `k + f`, scaled by the playback's gain.
pub proof fn lemma_native_identity_any_cursor(
    v: SoundState,
    data: Seq<i64>,
    bus: int,
    f: nat,
    c: int,
)
    requires
        sound_data_wf(data),
        !v.looped,
        v.live,
        v.pitch == FP_ONE,
        v.cursor >= 0,
        v.cursor % FP_ONE == 0,
        0 <= c < 2,
        v.cursor as int / (FP_ONE as int) + f < frames_of(data),
    ensures
        voice_contrib_s(v, data, bus, f, c) == fp_mul_s(
            data[2 * (v.cursor as int / (FP_ONE as int) + f) + c] as int,
            gain_s(v.volume as int, bus),
        ),
{
    let frames = frames_of(data);
    let k = v.cursor as int / (FP_ONE as int);
    lemma_native_cursor_from(v, frames, f);
    lemma_voice_after_fields_local(v, frames, f);
    let w = voice_after(v, frames, f);
    vstd::arithmetic::div_mod::lemma_fundamental_div_mod(v.cursor as int, FP_ONE as int);
    assert(w.cursor == (k + f) * FP_ONE) by (nonlinear_arith)
        requires w.cursor == v.cursor + f * FP_ONE && v.cursor == FP_ONE * k;
    vstd::arithmetic::div_mod::lemma_div_by_multiple(k + f, FP_ONE as int);
    vstd::arithmetic::div_mod::lemma_mod_multiples_basic(k + f, FP_ONE as int);
    assert(w.cursor as int / (FP_ONE as int) == k + f);
    assert(w.cursor as int % (FP_ONE as int) == 0);
    assert(voice_active(w, frames)) by {
        assert((k + f) * FP_ONE < frames * FP_ONE) by (nonlinear_arith)
            requires k + f < frames;
    }
    let s0 = data[2 * (k + f) + c] as int;
    assert(voice_sample_s(w, data, c) == s0) by {
        let s1 = if k + f + 1 < frames {
            data[2 * (k + f + 1) + c] as int
        } else {
            s0
        };
        assert((s1 - s0) * 0 == 0) by (nonlinear_arith);
        assert((s0 - s1) * 0 == 0) by (nonlinear_arith);
        assert(fp_mul_s(s1 - s0, 0) == 0);
    }
}

/// Stepping a playback never reads its volume: two playbacks equal in
/// everything but volume stay in lockstep.
proof fn lemma_voice_after_volume_only(v: SoundState, u: SoundState, frames: int, n: nat)
    requires
        u.sound_id == v.sound_id,
        u.play_id == v.play_id,
        u.cursor == v.cursor,
        u.looped == v.looped,
        u.pitch == v.pitch,
        u.live == v.live,
    ensures
        voice_after(u, frames, n) == (SoundState {
            volume: u.volume,
            ..voice_after(v, frames, n)
        }),
    decreases n,
{
    if n > 0 {
        lemma_voice_after_volume_only(v, u, frames, (n - 1) as nat);
    }
}

/// P5, general form: against a full bus, a playback at volume 0.5
/// contributes every sample at gain 0.25 — exactly one quarter of the
/// full-volume contribution, rounded toward zero, and exactly 0.25
/// times it whenever that contribution is a multiple of four.
pub proof fn lemma_half_volume_quarter_contrib(v: SoundState, data: Seq<i64>, f: nat, c: int)
    requires
        sound_data_wf(data),
        v.volume == FP_ONE,
        pitch_in_range(v.pitch as int),
        0 <= v.cursor <= frames_of(data) * FP_ONE + MAX_PITCH,
        0 <= frames_of(data) <= MAX_FRAMES,
        0 <= c < 2,
    ensures
        ({
            let half = (SoundState { volume: (FP_ONE / 2) as i64, ..v });
            let full_c = voice_contrib_s(v, data, FP_ONE as int, f, c);
            let half_c = voice_contrib_s(half, data, FP_ONE as int, f, c);
            &&& half_c == fp_mul_s(full_c, (FP_ONE / 4) as int)
            &&& (full_c % 4 == 0 ==> 4 * half_c == full_c)
        }),
{
    let frames = frames_of(data);
    let half = SoundState { volume: (FP_ONE / 2) as i64, ..v };
    lemma_voice_after_volume_only(v, half, frames, f);
    lemma_voice_after_fields_local(v, frames, f);
    lemma_voice_after_fields_local(half, frames, f);
    crate::mixer::lemma_voice_after_cursor(v, frames, f);
    lemma_half_volume_quarter_gain();
    let w = voice_after(v, frames, f);
    let wh = voice_after(half, frames, f);
    if voice_active(w, frames) {
        let ip = w.cursor as int / (FP_ONE as int);
        let fr = w.cursor as int % (FP_ONE as int);
        vstd::arithmetic::div_mod::lemma_multiply_divide_lt(
            w.cursor as int,
            FP_ONE as int,
            frames,
        );
        assert(frames * FP_ONE == FP_ONE * frames) by (nonlinear_arith);
        vstd::arithmetic::div_mod::lemma_div_pos_is_pos(w.cursor as int, FP_ONE as int);
        vstd::arithmetic::div_mod::lemma_mod_bound(w.cursor as int, FP_ONE as int);
        let s0 = data[2 * ip + c] as int;
        let s1 = if ip + 1 < frames {
            data[2 * (ip + 1) + c] as int
        } else if w.looped {
            data[c] as int
        } else {
            s0
        };
        crate::sample::lemma_lerp_range(s0, s1, fr);
        let sample = voice_sample_s(w, data, c);
        assert(voice_sample_s(wh, data, c) == sample);
        lemma_fp_mul_full_identity(sample);
        lemma_fp_mul_quarter(sample);
    } else {
        assert(fp_mul_s(0, (FP_ONE / 4) as int) == 0);
    }
}

/// Scaling by gain 1.0 is the identity on valid samples.
proof fn lemma_fp_mul_full_identity(s: int)
    requires
        -FP_ONE <= s <= FP_ONE,
    ensures
        fp_mul_s(s, FP_ONE as int) == s,
{
    if s >= 0 {
        vstd::arithmetic::div_mod::lemma_div_by_multiple(s, FP_ONE as int);
        assert(s * FP_ONE == FP_ONE * s) by (nonlinear_arith);
    } else {
        vstd::arithmetic::div_mod::lemma_div_by_multiple(-s, FP_ONE as int);
        assert(-s * FP_ONE == FP_ONE * -s) by (nonlinear_arith);
    }
}

/// Scaling by gain 0.25 is division by four, rounded toward zero; it
/// inverts exactly on multiples of four.
proof fn lemma_fp_mul_quarter(s: int)
    ensures
        s >= 0 ==> fp_mul_s(s, (FP_ONE / 4) as int) == s / 4,
        s < 0 ==> fp_mul_s(s, (FP_ONE / 4) as int) == -((-s) / 4),
        s % 4 == 0 ==> 4 * fp_mul_s(s, (FP_ONE / 4) as int) == s,
{
    lemma_quarter_div(if s >= 0 { s } else { -s });
    vstd::arithmetic::div_mod::lemma_fundamental_div_mod(s, 4);
    if s % 4 == 0 {
        if s >= 0 {
        } else {
            assert((-s) % 4 == 0) by {
                vstd::arithmetic::div_mod::lemma_fundamental_div_mod_converse(
                    -s,
                    4,
                    -(s / 4),
                    0,
                );
            }
            vstd::arithmetic::div_mod::lemma_fundamental_div_mod(-s, 4);
        }
    }
}

/// For a non-negative value, multiplying by 16384 and dividing by 65536
/// is division by four.
proof fn lemma_quarter_div(s: int)
    requires
        s >= 0,
    ensures
        (s * 16384) / 65536 == s / 4,
{
    vstd::arithmetic::div_mod::lemma_div_denominator(s * 16384, 16384, 4);
    vstd::arithmetic::div_mod::lemma_div_by_multiple(s, 16384);
    assert(s * 16384 == 16384 * s) by (nonlinear_arith);
    assert(16384 * 4 == 65536);
}

/// A one-shot playback over an asset of L frames, mixed at native pitch
/// into a request of more than L frames, contributes the asset's frames
/// scaled by its gain for the first L frames and nothing afterwards, and
/// ends the cycle dead, so the engine reaps it from the table.
pub proof fn lemma_once_playback_exhausts(
    v: SoundState,
    data: Seq<i64>,
    bus: int,
    n: nat,
    f: nat,
    c: int,
)
    requires
        sound_data_wf(data),
        !v.looped,
        v.live,
        v.cursor == 0,
        v.pitch == FP_ONE,
        0 < frames_of(data),
        n > frames_of(data),
        f < n,
        0 <= c < 2,
    ensures
        f < frames_of(data) ==> voice_contrib_s(v, data, bus, f, c) == fp_mul_s(
            data[2 * (f as int) + c] as int,
            gain_s(v.volume as int, bus),
        ),
        f >= frames_of(data) ==> voice_contrib_s(v, data, bus, f, c) == 0,
        !voice_after(v, frames_of(data), n).live,
{
    let frames = frames_of(data);
    if f < frames {
        lemma_native_pitch_identity(v, data, bus, f, c);
    } else {
        lemma_exhausted_after(v, frames, f);
        assert(!voice_active(voice_after(v, frames, f), frames));
    }
    lemma_exhausted_after(v, frames, (n - 1) as nat);
    let w = voice_after(v, frames, (n - 1) as nat);
    assert(voice_after(v, frames, n) == step_voice_s(w, frames));
}

/// Once a fresh native one-shot playback has produced as many frames as
/// its asset holds, it is exhausted: from frame L on it is inactive, and
/// from frame L+1 on it is dead.
proof fn lemma_exhausted_after(v: SoundState, frames: int, f: nat)
    requires
        !v.looped,
        v.live,
        v.cursor == 0,
        v.pitch == FP_ONE,
        0 < frames <= MAX_FRAMES,
        f >= frames,
    ensures
        !voice_active(voice_after(v, frames, f), frames),
        voice_after(v, frames, f).cursor == frames * FP_ONE,
        f > frames ==> !voice_after(v, frames, f).live,
    decreases f,
{
    if f == frames {
        lemma_native_once_cursor(v, frames, f);
    } else {
        lemma_exhausted_after(v, frames, (f - 1) as nat);
        let w = voice_after(v, frames, (f - 1) as nat);
        assert(voice_after(v, frames, f) == step_voice_s(w, frames));
    }
}

/// While a one-shot playback stays live it advances exactly one pitch
/// step per output frame, so a live cursor is determined by the frame
/// count alone.
proof fn lemma_once_cursor_while_live(v: SoundState, frames: int, m: nat)
    requires
        !v.looped,
        pitch_in_range(v.pitch as int),
        0 <= frames <= MAX_FRAMES,
        0 <= v.cursor <= frames * FP_ONE + MAX_PITCH,
    ensures
        voice_after(v, frames, m).live ==> (v.live && voice_after(v, frames, m).cursor
            == v.cursor + m * v.pitch),
    decreases m,
{
    if m > 0 {
        lemma_once_cursor_while_live(v, frames, (m - 1) as nat);
        lemma_voice_after_fields_local(v, frames, (m - 1) as nat);
        crate::mixer::lemma_voice_after_cursor(v, frames, (m - 1) as nat);
        let w = voice_after(v, frames, (m - 1) as nat);
        assert(voice_after(v, frames, m) == step_voice_s(w, frames));
        assert((m - 1) * v.pitch + v.pitch == m * v.pitch) by (nonlinear_arith);
    }
}

/// P2, general form: a one-shot playback — any cursor, any pitch — with
/// fewer source frames left than the cycle covers is dead by the end of
/// the cycle.
pub proof fn lemma_once_playback_runs_out(v: SoundState, frames: int, n: nat)
    requires
        !v.looped,
        pitch_in_range(v.pitch as int),
        0 <= frames <= MAX_FRAMES,
        0 <= v.cursor <= frames * FP_ONE + MAX_PITCH,
        n >= 1,
        v.cursor + (n - 1) * v.pitch >= frames * FP_ONE,
    ensures
        !voice_after(v, frames, n).live,
{
    let w = voice_after(v, frames, (n - 1) as nat);
    lemma_once_cursor_while_live(v, frames, (n - 1) as nat);
    lemma_voice_after_fields_local(v, frames, (n - 1) as nat);
    assert(voice_after(v, frames, n) == step_voice_s(w, frames));
    if w.live {
        assert(!voice_active(w, frames));
    }
}

/// P2 at the table: after a cycle that outlasts a one-shot playback's
/// remaining frames, no table entry carries its playback id; the asset
/// itself stays in the store, which synthesis never touches.
pub proof fn lemma_exhausted_voice_reaped(
    table: Seq<SoundState>,
    sounds: Map<u64, Seq<i64>>,
    n: nat,
    play_id: u64,
)
    requires
        n >= 1,
        forall|i: int|
            0 <= i < table.len() && (#[trigger] table[i]).play_id == play_id ==> {
                &&& !table[i].looped
                &&& pitch_in_range(table[i].pitch as int)
                &&& 0 <= frames_of(sounds[table[i].sound_id]) <= MAX_FRAMES
                &&& 0 <= table[i].cursor <= frames_of(sounds[table[i].sound_id]) * FP_ONE
                    + MAX_PITCH
                &&& table[i].cursor + (n - 1) * table[i].pitch >= frames_of(
                    sounds[table[i].sound_id],
                ) * FP_ONE
            },
    ensures
        forall|j: int|
            0 <= j < synth_table_s(table, sounds, n).len()
                ==> (#[trigger] synth_table_s(table, sounds, n)[j]).play_id != play_id,
{
    broadcast use vstd::seq_lib::group_filter_ensures;

    let adv = advance_table_s(table, sounds, n);
    let pred = |s: SoundState| s.live;
    assert forall|j: int|
        0 <= j < synth_table_s(table, sounds, n).len() implies (#[trigger] synth_table_s(
        table,
        sounds,
        n,
    )[j]).play_id != play_id by {
        lemma_filter_mem(adv, pred, j);
        let k = choose|k: int| 0 <= k < adv.len() && adv[k] == adv.filter(pred)[j];
        let fr = frames_of(sounds[table[k].sound_id]);
        lemma_voice_after_fields_local(table[k], fr, n);
        if table[k].play_id == play_id {
            lemma_once_playback_runs_out(table[k], fr, n);
        }
    }
}

/// Whether a command would (re)register the asset `sound_id`.
pub open spec fn adds_sound(m: AudioMessage, sound_id: u64) -> bool {
    match m {
        AudioMessage::AddSound(id, _) => id == sound_id,
        _ => false,
    }
}

/// Whether a command would start a playback under the id `play_id`.
pub open spec fn plays_playback(m: AudioMessage, play_id: u64) -> bool {
    match m {
        AudioMessage::Play(_, pid, _, _, _) => pid == play_id,
        _ => false,
    }
}

/// An absent, unreferenced asset stays absent and unreferenced under any
/// batch of commands that never re-adds it.
pub proof fn lemma_absent_sound_stays(
    sounds: Map<u64, Seq<i64>>,
    table: Seq<SoundState>,
    msgs: Seq<AudioMessage>,
    sound_id: u64,
)
    requires
        !sounds.contains_key(sound_id),
        forall|i: int| 0 <= i < table.len() ==> (#[trigger] table[i]).sound_id != sound_id,
        forall|j: int| 0 <= j < msgs.len() ==> !adds_sound(#[trigger] msgs[j], sound_id),
    ensures
        !apply_all_s(sounds, table, msgs).0.contains_key(sound_id),
        forall|k: int|
            0 <= k < apply_all_s(sounds, table, msgs).1.len() ==> (#[trigger] apply_all_s(
                sounds,
                table,
                msgs,
            ).1[k]).sound_id != sound_id,
    decreases msgs.len(),
{
    broadcast use vstd::seq_lib::group_filter_ensures;

    if msgs.len() > 0 {
        let stepped = apply_message_s(sounds, table, msgs[0]);
        assert forall|k: int|
            0 <= k < stepped.1.len() implies (#[trigger] stepped.1[k]).sound_id != sound_id by {
            match msgs[0] {
                AudioMessage::Stop(pid) => {
                    lemma_filter_mem(table, |s: SoundState| s.play_id != pid, k);
                },
                AudioMessage::StopAll(sid) => {
                    lemma_filter_mem(table, |s: SoundState| s.sound_id != sid, k);
                },
                AudioMessage::Delete(sid) => {
                    lemma_filter_mem(table, |s: SoundState| s.sound_id != sid, k);
                },
                _ => {},
            }
        }
        assert(!stepped.0.contains_key(sound_id));
        lemma_absent_sound_stays(stepped.0, stepped.1, msgs.drop_first(), sound_id);
    }
}

/// A playback id with no table entry stays absent under any batch of
/// commands that never plays that id.
pub proof fn lemma_absent_playback_stays(
    sounds: Map<u64, Seq<i64>>,
    table: Seq<SoundState>,
    msgs: Seq<AudioMessage>,
    play_id: u64,
)
    requires
        forall|i: int| 0 <= i < table.len() ==> (#[trigger] table[i]).play_id != play_id,
        forall|j: int| 0 <= j < msgs.len() ==> !plays_playback(#[trigger] msgs[j], play_id),
    ensures
        forall|k: int|
            0 <= k < apply_all_s(sounds, table, msgs).1.len() ==> (#[trigger] apply_all_s(
                sounds,
                table,
                msgs,
            ).1[k]).play_id != play_id,
    decreases msgs.len(),
{
    broadcast use vstd::seq_lib::group_filter_ensures;

    if msgs.len() > 0 {
        let stepped = apply_message_s(sounds, table, msgs[0]);
        assert forall|k: int|
            0 <= k < stepped.1.len() implies (#[trigger] stepped.1[k]).play_id != play_id by {
            match msgs[0] {
                AudioMessage::Stop(pid) => {
                    lemma_filter_mem(table, |s: SoundState| s.play_id != pid, k);
                },
                AudioMessage::StopAll(sid) => {
                    lemma_filter_mem(table, |s: SoundState| s.sound_id != sid, k);
                },
                AudioMessage::Delete(sid) => {
                    lemma_filter_mem(table, |s: SoundState| s.sound_id != sid, k);
                },
                _ => {},
            }
        }
        assert forall|j: int|
            0 <= j < msgs.drop_first().len() implies !plays_playback(
            #[trigger] msgs.drop_first()[j],
            play_id,
        ) by {
            assert(msgs.drop_first()[j] == msgs[j + 1]);
        }
        lemma_absent_playback_stays(stepped.0, stepped.1, msgs.drop_first(), play_id);
        assert(apply_all_s(sounds, table, msgs) == apply_all_s(
            stepped.0,
            stepped.1,
            msgs.drop_first(),
        ));
    }
}

/// P7 through a whole batch: a drain whose commands delete an asset and
/// never re-add it leaves the store without the asset and the table
/// without any playback referencing it, whatever else the batch holds —
/// so this fill and all later fills never read the deleted asset.
pub proof fn lemma_delete_holds_through_batch(
    sounds: Map<u64, Seq<i64>>,
    table: Seq<SoundState>,
    msgs: Seq<AudioMessage>,
    i: int,
    sound_id: u64,
)
    requires
        0 <= i < msgs.len(),
        msgs[i] == AudioMessage::Delete(sound_id),
        forall|j: int| i < j < msgs.len() ==> !adds_sound(#[trigger] msgs[j], sound_id),
    ensures
        !apply_all_s(sounds, table, msgs).0.contains_key(sound_id),
        forall|k: int|
            0 <= k < apply_all_s(sounds, table, msgs).1.len() ==> (#[trigger] apply_all_s(
                sounds,
                table,
                msgs,
            ).1[k]).sound_id != sound_id,
{
    let front = msgs.subrange(0, i + 1);
    let back = msgs.subrange(i + 1, msgs.len() as int);
    assert(msgs =~= front + back);
    lemma_apply_all_append(sounds, table, front, back);
    lemma_fifo_equivalence(sounds, table, front);
    let before = apply_all_s(sounds, table, front.drop_last());
    assert(front.last() == AudioMessage::Delete(sound_id));
    lemma_delete_reaps(before.0, before.1, sound_id);
    let mid = apply_all_s(sounds, table, front);
    assert(forall|j: int| 0 <= j < back.len() ==> !adds_sound(#[trigger] back[j], sound_id));
    lemma_absent_sound_stays(mid.0, mid.1, back, sound_id);
}

/// P8 through a whole batch: a drain whose commands stop a playback and
/// never start another one under the same id leaves the table without
/// that playback, whatever else the batch holds — so it contributes zero
/// samples to this fill and to every later one.
pub proof fn lemma_stop_holds_through_batch(
    sounds: Map<u64, Seq<i64>>,
    table: Seq<SoundState>,
    msgs: Seq<AudioMessage>,
    i: int,
    play_id: u64,
)
    requires
        0 <= i < msgs.len(),
        msgs[i] == AudioMessage::Stop(play_id),
        forall|j: int| i < j < msgs.len() ==> !plays_playback(#[trigger] msgs[j], play_id),
    ensures
        forall|k: int|
            0 <= k < apply_all_s(sounds, table, msgs).1.len() ==> (#[trigger] apply_all_s(
                sounds,
                table,
                msgs,
            ).1[k]).play_id != play_id,
{
    let front = msgs.subrange(0, i + 1);
    let back = msgs.subrange(i + 1, msgs.len() as int);
    assert(msgs =~= front + back);
    lemma_apply_all_append(sounds, table, front, back);
    lemma_fifo_equivalence(sounds, table, front);
    let before = apply_all_s(sounds, table, front.drop_last());
    assert(front.last() == AudioMessage::Stop(play_id));
    lemma_stop_silences(before.0, before.1, play_id);
    let mid = apply_all_s(sounds, table, front);
    assert(forall|j: int| 0 <= j < back.len() ==> !plays_playback(#[trigger] back[j], play_id));
    lemma_absent_playback_stays(mid.0, mid.1, back, play_id);
}

/// Deleting an asset removes it from the store and reaps, in the same
/// drain cycle, every playback referencing it; playbacks of other assets
/// are untouched, in order.  A later fill therefore never reads the
/// deleted asset.
pub proof fn lemma_delete_reaps(
    sounds: Map<u64, Seq<i64>>,
    table: Seq<SoundState>,
    sound_id: u64,
)
    ensures
        !apply_message_s(sounds, table, AudioMessage::Delete(sound_id)).0.contains_key(sound_id),
        forall|i: int|
            0 <= i < apply_message_s(sounds, table, AudioMessage::Delete(sound_id)).1.len()
                ==> #[trigger] apply_message_s(
                sounds,
                table,
                AudioMessage::Delete(sound_id),
            ).1[i].sound_id != sound_id,
        apply_message_s(sounds, table, AudioMessage::Delete(sound_id)).1 == table.filter(
            |s: SoundState| s.sound_id != sound_id,
        ),
{
    broadcast use vstd::seq_lib::group_filter_ensures;

    let t2 = apply_message_s(sounds, table, AudioMessage::Delete(sound_id)).1;
    assert forall|i: int| 0 <= i < t2.len() implies #[trigger] t2[i].sound_id != sound_id by {
        table.lemma_filter_pred(|s: SoundState| s.sound_id != sound_id, i);
    }
}

/// A drained `Stop` removes every playback carrying that playback id, so
/// the stopped playback contributes zero samples to the fill that
/// drained it and to every later fill: the mixed output is a sum over
/// table entries only.
pub proof fn lemma_stop_silences(
    sounds: Map<u64, Seq<i64>>,
    table: Seq<SoundState>,
    play_id: u64,
)
    ensures
        forall|i: int|
            0 <= i < apply_message_s(sounds, table, AudioMessage::Stop(play_id)).1.len()
                ==> #[trigger] apply_message_s(
                sounds,
                table,
                AudioMessage::Stop(play_id),
            ).1[i].play_id != play_id,
        apply_message_s(sounds, table, AudioMessage::Stop(play_id)).0 == sounds,
{
    broadcast use vstd::seq_lib::group_filter_ensures;

    let t2 = apply_message_s(sounds, table, AudioMessage::Stop(play_id)).1;
    assert forall|i: int| 0 <= i < t2.len() implies #[trigger] t2[i].play_id != play_id by {
        table.lemma_filter_pred(|s: SoundState| s.play_id != play_id, i);
    }
}

/// A one-shot playback that exhausts its asset within one cycle is
/// absent from the playback table after that cycle.
pub proof fn lemma_once_playback_reaped(
    v: SoundState,
    sounds: Map<u64, Seq<i64>>,
    n: nat,
)
    requires
        sounds.contains_key(v.sound_id),
        sound_data_wf(sounds[v.sound_id]),
        !v.looped,
        v.live,
        v.cursor == 0,
        v.pitch == FP_ONE,
        0 < frames_of(sounds[v.sound_id]),
        n > frames_of(sounds[v.sound_id]),
    ensures
        synth_table_s(seq![v], sounds, n) == Seq::<SoundState>::empty(),
{
    let frames = frames_of(sounds[v.sound_id]);
    lemma_exhausted_after(v, frames, (n - 1) as nat);
    let w = voice_after(v, frames, (n - 1) as nat);
    assert(voice_after(v, frames, n) == step_voice_s(w, frames));
    assert(!voice_after(v, frames, n).live);
    let adv = crate::mixer::advance_table_s(seq![v], sounds, n);
    assert(adv =~= seq![voice_after(v, frames, n)]);
    crate::mixer::lemma_filter_push(
        Seq::<SoundState>::empty(),
        |s: SoundState| s.live,
        voice_after(v, frames, n),
    );
    assert(Seq::<SoundState>::empty().push(voice_after(v, frames, n)) =~= adv);
    assert(Seq::<SoundState>::empty().filter(|s: SoundState| s.live)
        == Seq::<SoundState>::empty()) by {
        reveal_with_fuel(Seq::filter, 1);
    }
}

/// Scaling commutes with nothing it should not: a playback at half
/// volume against a full bus contributes at exactly one quarter of the
/// gain a full-volume playback gets (the perceptual square curve).
pub proof fn lemma_half_volume_quarter_gain()
    ensures
        gain_s((FP_ONE / 2) as int, FP_ONE as int) == FP_ONE / 4,
        gain_s(FP_ONE as int, FP_ONE as int) == FP_ONE,
{
    assert(fp_mul_s(32768, 65536) == 32768);
    assert(fp_mul_s(32768, 32768) == 16384);
    assert(fp_mul_s(65536, 65536) == 65536);
}

} // verus!
