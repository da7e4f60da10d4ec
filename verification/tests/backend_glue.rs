use quad_snd::backend::{clamp_buffer_frames, format_is_suitable, sample_to_u16};
use quad_snd::FP_ONE;

#[test]
fn suitable_formats_are_stereo_f32_around_the_engine_rate() {
    assert!(format_is_suitable(2, true, 8000, 48000));
    assert!(format_is_suitable(2, true, 44100, 44100));
    assert!(!format_is_suitable(1, true, 8000, 48000));
    assert!(!format_is_suitable(2, false, 8000, 48000));
    assert!(!format_is_suitable(2, true, 48000, 96000));
    assert!(!format_is_suitable(2, true, 8000, 22050));
}

#[test]
fn delivered_frames_are_capped_at_the_buffer_size() {
    assert_eq!(clamp_buffer_frames(1000, 4096), 1000);
    assert_eq!(clamp_buffer_frames(10000, 4096), 4096);
    assert_eq!(clamp_buffer_frames(4096, 4096), 4096);
}

#[test]
fn unsigned_conversion_biases_and_clamps() {
    assert_eq!(sample_to_u16(-FP_ONE), 0);
    assert_eq!(sample_to_u16(FP_ONE), 65535);
    assert_eq!(sample_to_u16(-2 * FP_ONE), 0);
    assert_eq!(sample_to_u16(2 * FP_ONE), 65535);
    // Zero sits in the middle of the unsigned range.
    assert_eq!(sample_to_u16(0), 32767);
}
