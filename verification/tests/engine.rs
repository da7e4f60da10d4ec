use quad_snd::message::{AudioMessage, ControlChannel, MixerControl, PlaySoundParams};
use quad_snd::mixer::{Mixer, MixerBuilder};
use quad_snd::FP_ONE;

fn new_engine() -> (Mixer, MixerControl) {
    let (builder, ctrl) = Mixer::new();
    (builder.build(), ctrl)
}

fn pump(ctrl: &mut MixerControl, mixer: &mut Mixer) {
    for m in ctrl.take_messages() {
        mixer.post(m);
    }
}

fn fill(mixer: &mut Mixer, frames: usize) -> Vec<i64> {
    let mut buf = vec![0i64; 2 * frames];
    mixer.fill_audio_buffer(&mut buf, frames);
    buf
}

fn params(looped: bool, volume: i64, pitch: i64) -> PlaySoundParams {
    PlaySoundParams { looped, volume, pitch }
}

/// Interleaves one value per frame onto both channels.
fn stereo(frames: &[i64]) -> Vec<i64> {
    let mut out = Vec::new();
    for &v in frames {
        out.push(v);
        out.push(v);
    }
    out
}

#[test]
fn once_playback_plays_then_pads_with_silence() {
    // An asset of 3 frames filled with a 5-frame request: 3 frames of
    // content, 2 untouched frames, and the voice is gone afterwards.
    let (mut mixer, mut ctrl) = new_engine();
    let data = stereo(&[FP_ONE, FP_ONE / 2, FP_ONE / 4]);
    let id = ctrl.load(data.clone());
    ctrl.play(id, params(false, FP_ONE, FP_ONE));
    pump(&mut ctrl, &mut mixer);

    let buf = fill(&mut mixer, 5);
    let mut expected = data.clone();
    expected.extend_from_slice(&[0, 0, 0, 0]);
    assert_eq!(buf, expected);

    // The playback exhausted the asset and was reaped: nothing sounds.
    let buf2 = fill(&mut mixer, 4);
    assert_eq!(buf2, vec![0i64; 8]);
}

#[test]
fn looped_playback_wraps_and_keeps_its_cursor() {
    // The 4-frame asset [[1,1],[0.5,0.5],[0,0],[-0.5,-0.5]] looped over
    // 6 frames wraps to the start and leaves the cursor at frame 2.
    let (mut mixer, mut ctrl) = new_engine();
    let frames = [FP_ONE, FP_ONE / 2, 0, -FP_ONE / 2];
    let id = ctrl.load(stereo(&frames));
    ctrl.play(id, params(true, FP_ONE, FP_ONE));
    pump(&mut ctrl, &mut mixer);

    let buf = fill(&mut mixer, 6);
    assert_eq!(
        buf,
        stereo(&[FP_ONE, FP_ONE / 2, 0, -FP_ONE / 2, FP_ONE, FP_ONE / 2])
    );

    // The cursor sits at frame 2: the next fill starts from there.
    let buf2 = fill(&mut mixer, 2);
    assert_eq!(buf2, stereo(&[0, -FP_ONE / 2]));
}

#[test]
fn one_frame_asset_loops_every_frame() {
    let (mut mixer, mut ctrl) = new_engine();
    let id = ctrl.load(stereo(&[FP_ONE / 4]));
    ctrl.play(id, params(true, FP_ONE, FP_ONE));
    pump(&mut ctrl, &mut mixer);
    assert_eq!(fill(&mut mixer, 4), stereo(&[FP_ONE / 4; 4]));
}

#[test]
fn native_pitch_is_identity_resampling() {
    // With pitch = 1.0 the output equals the fetched source run.
    let (mut mixer, mut ctrl) = new_engine();
    let frames = [123 * 4, -456 * 4, 789 * 4, 12 * 4];
    let id = ctrl.load(stereo(&frames));
    ctrl.play(id, params(false, FP_ONE, FP_ONE));
    pump(&mut ctrl, &mut mixer);
    assert_eq!(fill(&mut mixer, 4), stereo(&frames));
}

#[test]
fn half_pitch_interpolates_between_frames() {
    // pitch = 0.5 visits source positions 0, 0.5, 1, 1.5: the midpoints
    // are exact linear interpolations; past the end the last frame holds.
    let (mut mixer, mut ctrl) = new_engine();
    let id = ctrl.load(stereo(&[0, FP_ONE]));
    ctrl.play(id, params(false, FP_ONE, FP_ONE / 2));
    pump(&mut ctrl, &mut mixer);
    let buf = fill(&mut mixer, 5);
    assert_eq!(buf, stereo(&[0, FP_ONE / 2, FP_ONE, FP_ONE, 0]));
}

#[test]
fn double_pitch_skips_every_other_frame() {
    let (mut mixer, mut ctrl) = new_engine();
    let frames = [0, FP_ONE / 4, FP_ONE / 2, 3 * FP_ONE / 4];
    let id = ctrl.load(stereo(&frames));
    ctrl.play(id, params(false, FP_ONE, 2 * FP_ONE));
    pump(&mut ctrl, &mut mixer);
    let buf = fill(&mut mixer, 3);
    assert_eq!(buf, stereo(&[0, FP_ONE / 2, 0]));
}

#[test]
fn set_volume_half_scales_by_a_quarter() {
    // The perceptual square curve: volume 0.5 scales samples by 0.25
    // relative to volume 1.0.
    let (mut mixer, mut ctrl) = new_engine();
    let id = ctrl.load(stereo(&[FP_ONE, FP_ONE]));
    let playback = ctrl.play(id, params(true, FP_ONE, FP_ONE));
    pump(&mut ctrl, &mut mixer);
    let full = fill(&mut mixer, 1);
    assert_eq!(full, stereo(&[FP_ONE]));

    playback.set_volume(&mut ctrl, FP_ONE / 2);
    pump(&mut ctrl, &mut mixer);
    let quarter = fill(&mut mixer, 1);
    assert_eq!(quarter[0] * 4, full[0]);
    assert_eq!(quarter, stereo(&[FP_ONE / 4]));
}

#[test]
fn volume_zero_is_silence() {
    let (mut mixer, mut ctrl) = new_engine();
    let id = ctrl.load(stereo(&[FP_ONE, -FP_ONE]));
    ctrl.play(id, params(true, 0, FP_ONE));
    pump(&mut ctrl, &mut mixer);
    assert_eq!(fill(&mut mixer, 4), vec![0i64; 8]);
}

#[test]
fn simultaneous_playbacks_superpose_additively() {
    // mix(A+B) == mix(A) + mix(B), sample for sample.
    let a = stereo(&[FP_ONE / 2, FP_ONE / 4, 0, -FP_ONE / 4]);
    let b = stereo(&[FP_ONE, -FP_ONE / 2, FP_ONE / 8, FP_ONE / 8]);

    let (mut mixer_a, mut ctrl_a) = new_engine();
    let ida = ctrl_a.load(a.clone());
    ctrl_a.play(ida, params(true, FP_ONE, FP_ONE));
    pump(&mut ctrl_a, &mut mixer_a);
    let mix_a = fill(&mut mixer_a, 6);

    let (mut mixer_b, mut ctrl_b) = new_engine();
    let idb = ctrl_b.load(b.clone());
    ctrl_b.play(idb, params(true, FP_ONE, FP_ONE));
    pump(&mut ctrl_b, &mut mixer_b);
    let mix_b = fill(&mut mixer_b, 6);

    let (mut mixer_ab, mut ctrl_ab) = new_engine();
    let ida2 = ctrl_ab.load(a);
    let idb2 = ctrl_ab.load(b);
    ctrl_ab.play(ida2, params(true, FP_ONE, FP_ONE));
    ctrl_ab.play(idb2, params(true, FP_ONE, FP_ONE));
    pump(&mut ctrl_ab, &mut mixer_ab);
    let mix_ab = fill(&mut mixer_ab, 6);

    for j in 0..mix_ab.len() {
        assert_eq!(mix_ab[j], mix_a[j] + mix_b[j]);
    }
}

#[test]
fn two_playbacks_of_one_asset_share_it() {
    let (mut mixer, mut ctrl) = new_engine();
    let id = ctrl.load(stereo(&[FP_ONE / 2]));
    ctrl.play(id, params(true, FP_ONE, FP_ONE));
    ctrl.play(id, params(true, FP_ONE, FP_ONE));
    pump(&mut ctrl, &mut mixer);
    assert_eq!(fill(&mut mixer, 2), stereo(&[FP_ONE, FP_ONE]));
}

#[test]
fn stop_before_a_fill_silences_that_fill_and_all_later_ones() {
    let (mut mixer, mut ctrl) = new_engine();
    let id = ctrl.load(stereo(&[FP_ONE, FP_ONE]));
    let playback = ctrl.play(id, params(true, FP_ONE, FP_ONE));
    pump(&mut ctrl, &mut mixer);
    assert_ne!(fill(&mut mixer, 2), vec![0i64; 4]);

    playback.stop(&mut ctrl);
    pump(&mut ctrl, &mut mixer);
    assert_eq!(fill(&mut mixer, 2), vec![0i64; 4]);
    assert_eq!(fill(&mut mixer, 2), vec![0i64; 4]);
}

#[test]
fn stop_enqueued_before_first_fill_means_no_sound_at_all() {
    let (mut mixer, mut ctrl) = new_engine();
    let id = ctrl.load(stereo(&[FP_ONE]));
    let playback = ctrl.play(id, params(true, FP_ONE, FP_ONE));
    playback.stop(&mut ctrl);
    pump(&mut ctrl, &mut mixer);
    assert_eq!(fill(&mut mixer, 3), vec![0i64; 6]);
}

#[test]
fn stop_all_removes_every_playback_of_the_sound() {
    let (mut mixer, mut ctrl) = new_engine();
    let id = ctrl.load(stereo(&[FP_ONE / 2]));
    let other = ctrl.load(stereo(&[FP_ONE / 4]));
    ctrl.play(id, params(true, FP_ONE, FP_ONE));
    ctrl.play(id, params(true, FP_ONE, FP_ONE));
    ctrl.play(other, params(true, FP_ONE, FP_ONE));
    ctrl.stop_all(id);
    pump(&mut ctrl, &mut mixer);
    assert_eq!(fill(&mut mixer, 1), stereo(&[FP_ONE / 4]));
}

#[test]
fn set_volume_all_covers_every_playback_of_the_sound() {
    let (mut mixer, mut ctrl) = new_engine();
    let id = ctrl.load(stereo(&[FP_ONE]));
    ctrl.play(id, params(true, FP_ONE, FP_ONE));
    ctrl.play(id, params(true, FP_ONE, FP_ONE));
    ctrl.set_volume_all(id, FP_ONE / 2);
    pump(&mut ctrl, &mut mixer);
    // Two voices, each at gain 0.25.
    assert_eq!(fill(&mut mixer, 1), stereo(&[FP_ONE / 2]));
}

#[test]
fn control_channel_is_fifo() {
    let mut channel = ControlChannel::new();
    channel.send(AudioMessage::Stop(1));
    channel.send(AudioMessage::Delete(2));
    channel.send(AudioMessage::StopAll(3));
    let msgs = channel.drain();
    assert_eq!(
        msgs,
        vec![
            AudioMessage::Stop(1),
            AudioMessage::Delete(2),
            AudioMessage::StopAll(3)
        ]
    );
    assert!(channel.drain().is_empty());
}

#[test]
fn delete_reaps_live_playbacks_in_the_same_drain() {
    let (mut mixer, mut ctrl) = new_engine();
    let id = ctrl.load(stereo(&[FP_ONE]));
    ctrl.play(id, params(true, FP_ONE, FP_ONE));
    pump(&mut ctrl, &mut mixer);
    assert_ne!(fill(&mut mixer, 1), vec![0i64; 2]);

    ctrl.delete(id);
    pump(&mut ctrl, &mut mixer);
    assert_eq!(fill(&mut mixer, 2), vec![0i64; 4]);

    // A Play drained after the Delete finds no asset and is ignored.
    ctrl.play(id, params(true, FP_ONE, FP_ONE));
    pump(&mut ctrl, &mut mixer);
    assert_eq!(fill(&mut mixer, 2), vec![0i64; 4]);
}

#[test]
fn commands_apply_in_send_order() {
    // AddSound, Play, Delete, Play: the first Play lands, the second is
    // drained after the Delete and is silently ignored.
    let (mut mixer, mut ctrl) = new_engine();
    let id = ctrl.load(stereo(&[FP_ONE / 2]));
    ctrl.play(id, params(true, FP_ONE, FP_ONE));
    ctrl.delete(id);
    ctrl.play(id, params(true, FP_ONE, FP_ONE));
    pump(&mut ctrl, &mut mixer);
    assert_eq!(fill(&mut mixer, 1), vec![0i64; 2]);
}

#[test]
fn stale_targets_are_silent_no_ops() {
    let (mut mixer, mut ctrl) = new_engine();
    ctrl.stop(123);
    ctrl.stop_all(7);
    ctrl.set_volume(9, FP_ONE / 2);
    ctrl.set_volume_all(7, FP_ONE / 2);
    ctrl.set_pitch(9, FP_ONE * 2);
    ctrl.delete(7);
    pump(&mut ctrl, &mut mixer);
    assert_eq!(fill(&mut mixer, 2), vec![0i64; 4]);
}

#[test]
fn set_pitch_takes_effect_on_the_next_fill() {
    let (mut mixer, mut ctrl) = new_engine();
    let frames = [0, FP_ONE / 4, FP_ONE / 2, 3 * FP_ONE / 4];
    let id = ctrl.load(stereo(&frames));
    let playback = ctrl.play(id, params(false, FP_ONE, FP_ONE));
    playback.set_pitch(&mut ctrl, 2 * FP_ONE);
    pump(&mut ctrl, &mut mixer);
    assert_eq!(fill(&mut mixer, 3), stereo(&[0, FP_ONE / 2, 0]));
}

#[test]
fn bus_volume_scales_every_voice() {
    let (mut mixer, mut ctrl) = new_engine();
    let id = ctrl.load(stereo(&[FP_ONE]));
    ctrl.play(id, params(true, FP_ONE, FP_ONE));
    pump(&mut ctrl, &mut mixer);
    mixer.set_bus_volume(FP_ONE / 2);
    // Effective gain is (1.0 * 0.5)^2 = 0.25.
    assert_eq!(fill(&mut mixer, 1), stereo(&[FP_ONE / 4]));
}

#[test]
fn empty_asset_plays_nothing_and_is_reaped() {
    let (mut mixer, mut ctrl) = new_engine();
    let id = ctrl.load(Vec::new());
    ctrl.play(id, params(true, FP_ONE, FP_ONE));
    pump(&mut ctrl, &mut mixer);
    assert_eq!(fill(&mut mixer, 3), vec![0i64; 6]);
    assert_eq!(fill(&mut mixer, 3), vec![0i64; 6]);
}

#[test]
fn play_of_unknown_sound_is_ignored() {
    let (mut mixer, mut ctrl) = new_engine();
    ctrl.play(42, params(true, FP_ONE, FP_ONE));
    pump(&mut ctrl, &mut mixer);
    assert_eq!(fill(&mut mixer, 2), vec![0i64; 4]);
}

#[test]
fn default_params_are_one_shot_full_volume_native_speed() {
    let p = PlaySoundParams::default();
    assert!(!p.looped);
    assert_eq!(p.volume, FP_ONE);
    assert_eq!(p.pitch, FP_ONE);
}

#[test]
fn ids_are_allocated_monotonically() {
    let (_mixer, mut ctrl) = new_engine();
    let a = ctrl.load(stereo(&[0]));
    let b = ctrl.load(stereo(&[0]));
    assert_eq!(a, 0);
    assert_eq!(b, 1);
}

#[test]
fn take_messages_hands_out_commands_in_send_order() {
    let (_mixer, mut ctrl) = new_engine();
    let id = ctrl.load(stereo(&[FP_ONE / 2]));
    ctrl.delete(id);
    let msgs = ctrl.take_messages();
    assert_eq!(msgs.len(), 2);
    assert!(matches!(msgs[0], AudioMessage::AddSound(0, _)));
    assert!(matches!(msgs[1], AudioMessage::Delete(0)));
    // The queue is empty afterwards.
    assert_eq!(ctrl.take_messages().len(), 0);
}

#[test]
fn mixer_builder_builds_a_silent_engine() {
    let (builder, _ctrl) = Mixer::new();
    let mut mixer: Mixer = MixerBuilder::build(builder);
    assert_eq!(fill(&mut mixer, 3), vec![0i64; 6]);
}
