use std::io::Cursor;

use quad_snd::decoder::{
    build_ogg_sound, load_samples_from_file, prepare_samples, read_ogg, read_wav, read_wav_ext,
    sample_from_i16, sample_to_i16, Error, PlaybackStyle,
};
use quad_snd::FP_ONE;

fn wav_bytes(sample_rate: u32, channels: u16, samples: &[i16]) -> Vec<u8> {
    let spec = hound::WavSpec {
        channels,
        sample_rate,
        bits_per_sample: 16,
        sample_format: hound::SampleFormat::Int,
    };
    let mut cursor = Cursor::new(Vec::new());
    {
        let mut writer = hound::WavWriter::new(&mut cursor, spec).unwrap();
        for &s in samples {
            writer.write_sample(s).unwrap();
        }
        writer.finalize().unwrap();
    }
    cursor.into_inner()
}

#[test]
fn wav_decodes_to_fixed_point() {
    let bytes = wav_bytes(22050, 2, &[1000, -1000, 32767, -32768]);
    let sound = read_wav(&bytes).unwrap();
    assert_eq!(sound.sample_rate, 22050);
    assert_eq!(sound.channels, 2);
    assert_eq!(sound.playback_style, PlaybackStyle::Once);
    // 1000 * 65536 / 32767 == 2000 (toward zero); the extremes hit
    // exactly one unit of amplitude.
    assert_eq!(sound.samples, vec![2000, -2000, FP_ONE, -FP_ONE]);
}

#[test]
fn wav_ext_keeps_the_requested_loop_mode() {
    let bytes = wav_bytes(44100, 1, &[0, 16384]);
    let sound = read_wav_ext(&bytes, PlaybackStyle::Looped).unwrap();
    assert_eq!(sound.playback_style, PlaybackStyle::Looped);
    assert_eq!(sound.channels, 1);
}

#[test]
fn wav_with_unsupported_rate_is_rejected() {
    let bytes = wav_bytes(48000, 2, &[0, 0]);
    match read_wav(&bytes) {
        Err(Error::ReadError(m)) => assert_eq!(m, "Sample rate is unsupported."),
        other => panic!("expected a read error, got {:?}", other),
    }
}

#[test]
fn wav_with_wrong_bit_depth_is_rejected() {
    let spec = hound::WavSpec {
        channels: 2,
        sample_rate: 44100,
        bits_per_sample: 8,
        sample_format: hound::SampleFormat::Int,
    };
    let mut cursor = Cursor::new(Vec::new());
    {
        let mut writer = hound::WavWriter::new(&mut cursor, spec).unwrap();
        writer.write_sample(0i8).unwrap();
        writer.write_sample(0i8).unwrap();
        writer.finalize().unwrap();
    }
    match read_wav(&cursor.into_inner()) {
        Err(Error::ReadError(m)) => assert_eq!(m, "Bits per sample is unsupported."),
        other => panic!("expected a read error, got {:?}", other),
    }
}

#[test]
fn wav_with_float_samples_is_rejected() {
    // A float wav is 32 bits wide, so the bit-depth check fires first,
    // exactly as the validation order says.
    let spec = hound::WavSpec {
        channels: 2,
        sample_rate: 44100,
        bits_per_sample: 32,
        sample_format: hound::SampleFormat::Float,
    };
    let mut cursor = Cursor::new(Vec::new());
    {
        let mut writer = hound::WavWriter::new(&mut cursor, spec).unwrap();
        writer.write_sample(0.0f32).unwrap();
        writer.write_sample(0.0f32).unwrap();
        writer.finalize().unwrap();
    }
    match read_wav(&cursor.into_inner()) {
        Err(Error::ReadError(m)) => assert_eq!(m, "Bits per sample is unsupported."),
        other => panic!("expected a read error, got {:?}", other),
    }
}

#[test]
fn garbage_bytes_are_a_wav_parse_error() {
    match read_wav(b"definitely not a wave file") {
        Err(Error::HoundError(_)) => {},
        other => panic!("expected a hound error, got {:?}", other),
    }
}

#[test]
fn garbage_bytes_are_an_ogg_parse_error() {
    match read_ogg(b"definitely not an ogg stream") {
        Err(Error::LewtonError(_)) => {},
        other => panic!("expected a lewton error, got {:?}", other),
    }
}

#[test]
fn ogg_sound_is_built_from_decoded_packets() {
    let sound = build_ogg_sound(22050, 2, vec![32767, 0, -32767, 1000], PlaybackStyle::Looped)
        .unwrap();
    assert_eq!(sound.sample_rate, 22050);
    assert_eq!(sound.channels, 2);
    assert_eq!(sound.playback_style, PlaybackStyle::Looped);
    assert_eq!(sound.samples, vec![FP_ONE, 0, -FP_ONE, 2000]);
}

#[test]
fn ogg_sound_with_unsupported_rate_is_rejected() {
    match build_ogg_sound(8000, 2, vec![0, 0], PlaybackStyle::Once) {
        Err(Error::ReadError(m)) => assert_eq!(m, "Sample rate is unsupported."),
        other => panic!("expected a read error, got {:?}", other),
    }
}

#[test]
fn mono_is_expanded_to_stereo() {
    let out = prepare_samples(vec![100, -200], 1, 44100).unwrap();
    assert_eq!(out, vec![100, 100, -200, -200]);
}

#[test]
fn half_rate_input_doubles_every_frame() {
    // 22050 Hz stereo resampled to 44100 Hz: each source frame appears
    // twice (nearest neighbor).
    let out = prepare_samples(vec![10, 20, 30, 40], 2, 22050).unwrap();
    assert_eq!(out, vec![10, 20, 10, 20, 30, 40, 30, 40]);
}

#[test]
fn double_rate_input_drops_every_other_frame() {
    let out = prepare_samples(vec![10, 20, 30, 40, 50, 60, 70, 80], 2, 88200).unwrap();
    assert_eq!(out, vec![10, 20, 50, 60]);
}

#[test]
fn engine_rate_input_is_untouched() {
    let out = prepare_samples(vec![1, 2, 3, 4], 2, 44100).unwrap();
    assert_eq!(out, vec![1, 2, 3, 4]);
}

#[test]
fn odd_rates_are_rejected_by_normalization() {
    match prepare_samples(vec![0, 0], 2, 48000) {
        Err(Error::ReadError(_)) => {},
        other => panic!("expected a read error, got {:?}", other),
    }
}

#[test]
fn media_loader_decodes_and_normalizes_a_wav() {
    // A 22050 Hz stereo wav decoded through the general media path:
    // samples convert to fixed point and every frame is doubled by the
    // nearest-neighbor resample to 44100 Hz.
    let bytes = wav_bytes(22050, 2, &[1000, -1000, 300, -300]);
    let out = load_samples_from_file(&bytes).unwrap();
    assert_eq!(out, vec![2000, -2000, 2000, -2000, 600, -600, 600, -600]);
}

#[test]
fn media_loader_rejects_garbage() {
    match load_samples_from_file(b"not any known container") {
        Err(Error::ReadError(m)) => assert_eq!(m, "Failed to probe format"),
        other => panic!("expected a read error, got {:?}", other),
    }
}

#[test]
fn i16_conversion_is_exact_at_the_edges() {
    assert_eq!(sample_from_i16(0), 0);
    assert_eq!(sample_from_i16(32767), FP_ONE);
    assert_eq!(sample_from_i16(-32767), -FP_ONE);
    assert_eq!(sample_from_i16(i16::MIN), -FP_ONE);
    assert_eq!(sample_from_i16(1000), 2000);
}

#[test]
fn fixed_point_to_i16_clamps_mixed_overshoot() {
    assert_eq!(sample_to_i16(0), 0);
    assert_eq!(sample_to_i16(FP_ONE), 32767);
    assert_eq!(sample_to_i16(-FP_ONE), -32767);
    assert_eq!(sample_to_i16(3 * FP_ONE), 32767);
    assert_eq!(sample_to_i16(-3 * FP_ONE), -32767);
    assert_eq!(sample_to_i16(FP_ONE / 2), 16383);
}
