//! Decoding sound assets into fixed-point PCM, and normalizing decoded
//! data for the engine.
//!
//! Container parsing and codec work are delegated to the `hound`,
//! `lewton` and `symphonia` crates behind trusted declarations;
//! everything around those calls — format validation, 16-bit PCM
//! conversion, mono expansion and nearest-neighbor resampling to the
//! engine rate — is verified here.

use vstd::arithmetic::div_mod::{
    lemma_div_by_multiple, lemma_div_is_ordered, lemma_div_pos_is_pos, lemma_fundamental_div_mod,
    lemma_multiply_divide_lt,
};
use vstd::arithmetic::mul::{lemma_mul_inequality, lemma_mul_nonnegative};
use vstd::prelude::*;

use crate::{sample_in_range, sound_data_wf, FP_ONE, MAX_FRAMES};

verus! {

/// Largest number of decoded samples the normalization path accepts
/// (about ninety minutes of stereo audio at the engine rate).
pub const MAX_SOURCE_SAMPLES: usize = 536870912;

/// Largest number of compressed packets read from one stream before
/// decoding stops with what it has.
pub const MAX_PACKETS: usize = 16777216;

/// The engine's fixed output sample rate.
pub const ENGINE_RATE: u32 = 44100;

/// Loop mode a decoded sound asks for.
#[derive(Debug, Clone, Copy, PartialEq, Eq, Structural)]
pub enum PlaybackStyle {
    Once,
    Looped,
}

/// A decoded sound: the source's own sample rate and channel count, with
/// samples already converted to 16.16 fixed point.
#[derive(Debug, Clone)]
pub struct Sound {
    pub sample_rate: u32,
    pub channels: u16,
    pub samples: Vec<i64>,
    pub playback_style: PlaybackStyle,
}

use hound::Error as WavError;

#[verifier::external_type_specification]
#[verifier::external_body]
pub struct ExHoundError(WavError);

#[verifier::external_type_specification]
#[verifier::external_body]
pub struct ExVorbisError(lewton::VorbisError);

/// Holds lewton's stream reader while a decode is in progress; opaque
/// to the verifier, which sees only the trusted wrappers below.
#[verifier::external_body]
struct OggReader {
    reader: lewton::inside_ogg::OggStreamReader<std::io::Cursor<Vec<u8>>>,
}

/// What can go wrong while decoding an asset.
#[derive(Debug)]
pub enum Error {
    HoundError(hound::Error),
    LewtonError(lewton::VorbisError),
    ReadError(String),
}

impl From<hound::Error> for Error {
    fn from(error: hound::Error) -> (r: Error) {
        Error::HoundError(error)
    }
}

impl vstd::std_specs::convert::FromSpecImpl<hound::Error> for Error {
    open spec fn obeys_from_spec() -> bool {
        true
    }

    open spec fn from_spec(error: hound::Error) -> Error {
        Error::HoundError(error)
    }
}

impl From<lewton::VorbisError> for Error {
    fn from(error: lewton::VorbisError) -> (r: Error) {
        Error::LewtonError(error)
    }
}

impl vstd::std_specs::convert::FromSpecImpl<lewton::VorbisError> for Error {
    open spec fn obeys_from_spec() -> bool {
        true
    }

    open spec fn from_spec(error: lewton::VorbisError) -> Error {
        Error::LewtonError(error)
    }
}

/// The fields of a WAVE header the decoder reads.
#[derive(Debug, Clone, Copy, PartialEq, Eq, Structural)]
pub struct WavHeader {
    pub sample_rate: u32,
    pub channels: u16,
    pub bits_per_sample: u16,
    pub int_format: bool,
}

/// The WAVE header `hound` parses out of the given bytes, or nothing if
/// it rejects them.  Parsing is a function of the bytes alone.
pub uninterp spec fn wav_header_of(bytes: Seq<u8>) -> Option<WavHeader>;

/// The 16-bit PCM samples `hound` decodes from the given bytes, or
/// nothing if it rejects them.  Decoding is a function of the bytes
/// alone.
pub uninterp spec fn wav_samples_of(bytes: Seq<u8>) -> Option<Seq<i16>>;

/// Relies on `hound::WavReader::new` and `WavReader::spec`: parses the
/// WAVE header of an in-memory file.
#[verifier::external_body]
fn wav_header_raw(bytes: &[u8]) -> (r: Result<WavHeader, hound::Error>)
    ensures
        match r {
            Ok(h) => wav_header_of(bytes@) == Some(h),
            Err(_) => wav_header_of(bytes@) is None,
        },
{
    let reader = hound::WavReader::new(bytes)?;
    let spec = reader.spec();
    let int_format = match spec.sample_format {
        hound::SampleFormat::Int => true,
        hound::SampleFormat::Float => false,
    };
    Ok(WavHeader {
        sample_rate: spec.sample_rate,
        channels: spec.channels,
        bits_per_sample: spec.bits_per_sample,
        int_format,
    })
}

/// Relies on `hound::WavReader::into_samples::<i16>`: decodes every
/// 16-bit PCM sample of an in-memory file, interleaved.
#[verifier::external_body]
fn wav_samples_raw(bytes: &[u8]) -> (r: Result<Vec<i16>, hound::Error>)
    ensures
        match r {
            Ok(v) => wav_samples_of(bytes@) == Some(v@),
            Err(_) => wav_samples_of(bytes@) is None,
        },
{
    let reader = hound::WavReader::new(bytes)?;
    reader.into_samples::<i16>().collect()
}

/// The sample rate and channel count of the identification header
/// lewton parses out of the given bytes, or nothing if it rejects the
/// stream.  Reading the headers is a function of the bytes alone.
pub uninterp spec fn ogg_ident_of(bytes: Seq<u8>) -> Option<(u32, u8)>;

/// Relies on `lewton::inside_ogg::OggStreamReader::new` and the public
/// `ident_hdr` field: reads the vorbis headers from an in-memory OGG
/// stream and reports the stream's sample rate and channel count.
#[verifier::external_body]
fn ogg_open(data: &[u8]) -> (r: Result<(OggReader, u32, u8), lewton::VorbisError>)
    ensures
        match r {
            Ok(t) => ogg_ident_of(data@) == Some((t.1, t.2)),
            Err(_) => ogg_ident_of(data@) is None,
        },
{
    let reader = lewton::inside_ogg::OggStreamReader::new(std::io::Cursor::new(data.to_vec()))?;
    let sample_rate = reader.ident_hdr.audio_sample_rate;
    let channels = reader.ident_hdr.audio_channels;
    Ok((OggReader { reader }, sample_rate, channels))
}

/// Relies on `OggStreamReader::read_dec_packet_itl`: decodes the next
/// audio packet into interleaved 16-bit samples; `None` at end of
/// stream.
#[verifier::external_body]
fn ogg_next_packet(reader: &mut OggReader) -> (r: Result<
    Option<Vec<i16>>,
    lewton::VorbisError,
>) {
    reader.reader.read_dec_packet_itl()
}

#[verifier::external_type_specification]
#[verifier::external_body]
pub struct ExAudioCodecParameters(symphonia::core::codecs::audio::AudioCodecParameters);

/// Holds symphonia's demuxer while a decode is in progress; opaque to
/// the verifier, which sees only the trusted wrappers below.
#[verifier::external_body]
struct MediaFormat {
    format: Box<dyn symphonia::core::formats::FormatReader>,
}

/// Holds symphonia's codec decoder while a decode is in progress.
#[verifier::external_body]
struct MediaDecoder {
    decoder: Box<dyn symphonia::core::codecs::audio::AudioDecoder>,
}

/// The default audio track symphonia finds in the given bytes — its
/// track id, sample rate and channel count — or nothing if the probe
/// or the track lookup rejects them.  With the codec registry fixed at
/// build time, this is a function of the bytes alone.
pub uninterp spec fn media_params_of(bytes: Seq<u8>) -> Option<(u32, u32, u16)>;

/// Relies on `symphonia::default::get_probe().probe`,
/// `FormatReader::default_track` and the track's codec parameters:
/// finds the default audio track of an in-memory file and reports its
/// id, sample rate and channel count.  A track without a declared rate
/// or channel count is rejected as unusable.  The error code is 0 when
/// the container probe fails and 1 when no usable track exists.
#[verifier::external_body]
fn media_params_raw(bytes: &[u8]) -> (r: Result<
    (u32, u32, u16, symphonia::core::codecs::audio::AudioCodecParameters),
    u8,
>)
    ensures
        match r {
            Ok(t) => media_params_of(bytes@) == Some((t.0, t.1, t.2)),
            Err(stage) => media_params_of(bytes@) is None && stage < 2,
        },
{
    let mss = symphonia::core::io::MediaSourceStream::new(
        Box::new(std::io::Cursor::new(bytes.to_vec())), Default::default());
    let format = symphonia::default::get_probe()
        .probe(&symphonia::core::formats::probe::Hint::new(), mss, Default::default(),
            Default::default())
        .map_err(|_| 0u8)?;
    let track = format.default_track(symphonia::core::formats::TrackType::Audio).ok_or(1u8)?;
    let params = match &track.codec_params {
        Some(symphonia::core::codecs::CodecParameters::Audio(p)) => p.clone(),
        _ => return Err(1u8),
    };
    Ok((track.id, params.sample_rate.ok_or(1u8)?,
        params.channels.as_ref().ok_or(1u8)?.count() as u16, params))
}

/// Relies on `symphonia::default::get_probe().probe`: opens the
/// demuxer for an in-memory file (the header metadata comes from
/// `media_params_raw`, which parses the same bytes).
#[verifier::external_body]
fn media_probe(bytes: &[u8]) -> (r: Result<MediaFormat, ()>)
    ensures
        r is Err ==> media_params_of(bytes@) is None,
{
    let mss = symphonia::core::io::MediaSourceStream::new(
        Box::new(std::io::Cursor::new(bytes.to_vec())), Default::default());
    let format = symphonia::default::get_probe()
        .probe(symphonia::core::formats::probe::Hint::new().with_extension("mp3"), mss,
            Default::default(), Default::default())
        .map_err(|_| ())?;
    Ok(MediaFormat { format })
}

/// Relies on `CodecRegistry::make_audio_decoder`: instantiates a decoder
/// for the track's codec.
#[verifier::external_body]
fn media_make_decoder(
    params: &symphonia::core::codecs::audio::AudioCodecParameters,
) -> (r: Result<MediaDecoder, ()>) {
    let decoder = symphonia::default::get_codecs()
        .make_audio_decoder(
            params,
            &symphonia::core::codecs::audio::AudioDecoderOptions::default(),
        )
        .map_err(|_| ())?;
    Ok(MediaDecoder { decoder })
}

#[verifier::external_type_specification]
#[verifier::external_body]
pub struct ExPacket(symphonia::core::packet::Packet);

/// Relies on `FormatReader::next_packet`: the next packet of the
/// container, `None` at end of stream.
#[verifier::external_body]
fn media_next_raw(f: &mut MediaFormat) -> (r: Result<
    Option<symphonia::core::packet::Packet>,
    (),
>) {
    f.format.next_packet().map_err(|_| ())
}

/// Relies on the public `track_id` field of symphonia's packet: which
/// track the packet belongs to.
#[verifier::external_body]
fn packet_track(p: &symphonia::core::packet::Packet) -> (r: u32) {
    p.track_id
}

/// Relies on `AudioDecoder::decode` and `copy_to_vec_interleaved`: one
/// packet decoded into interleaved 16-bit samples.
#[verifier::external_body]
fn media_decode(d: &mut MediaDecoder, p: &symphonia::core::packet::Packet) -> (r: Result<
    Vec<i16>,
    (),
>) {
    let decoded = d.decoder.decode(p).map_err(|_| ())?;
    let mut samples: Vec<i16> = Vec::new();
    decoded.copy_to_vec_interleaved(&mut samples);
    Ok(samples)
}

/// The decoder accepts exactly the sample rates that divide evenly into
/// the rate family the engine resamples from.
pub open spec fn rate_supported(rate: int) -> bool {
    rate % 11025 == 0
}

/// One decoded 16-bit PCM sample as fixed point: `s / 32767`, rounded
/// toward zero, with the one out-of-range value `-32768` clamped to
/// -1.0.
pub open spec fn sample_from_i16_s(s: int) -> int {
    if s == -32768 {
        -(FP_ONE as int)
    } else if s >= 0 {
        (s * FP_ONE) / 32767
    } else {
        -(((-s) * FP_ONE) / 32767)
    }
}

/// Conversion from 16-bit PCM always lands in [-1.0, 1.0].
pub proof fn lemma_sample_from_i16_range(s: int)
    requires
        -32768 <= s <= 32767,
    ensures
        sample_in_range(sample_from_i16_s(s)),
{
    if s == -32768 {
    } else if s >= 0 {
        lemma_mul_nonnegative(s, FP_ONE as int);
        lemma_div_pos_is_pos(s * FP_ONE, 32767);
        lemma_mul_inequality(s, 32767, FP_ONE as int);
        lemma_div_is_ordered(s * FP_ONE, 32767 * FP_ONE, 32767);
        lemma_div_by_multiple(FP_ONE as int, 32767);
        assert(32767 * FP_ONE == FP_ONE * 32767) by (nonlinear_arith);
    } else {
        lemma_mul_nonnegative(-s, FP_ONE as int);
        lemma_div_pos_is_pos(-s * FP_ONE, 32767);
        lemma_mul_inequality(-s, 32767, FP_ONE as int);
        lemma_div_is_ordered(-s * FP_ONE, 32767 * FP_ONE, 32767);
        lemma_div_by_multiple(FP_ONE as int, 32767);
        assert(32767 * FP_ONE == FP_ONE * 32767) by (nonlinear_arith);
    }
}

/// Converts one decoded 16-bit PCM sample to fixed point.
pub fn sample_from_i16(s: i16) -> (r: i64)
    ensures
        r == sample_from_i16_s(s as int),
        sample_in_range(r as int),
{
    proof {
        lemma_sample_from_i16_range(s as int);
        if s >= 0 {
            lemma_mul_nonnegative(s as int, FP_ONE as int);
        } else {
            lemma_mul_nonnegative(-(s as int), FP_ONE as int);
        }
    }
    if s == i16::MIN {
        -FP_ONE
    } else if s >= 0 {
        ((s as i64) * FP_ONE) / 32767
    } else {
        let neg = -(s as i64);
        -((neg * FP_ONE) / 32767)
    }
}

/// A whole buffer of 16-bit PCM samples converted to fixed point, in
/// order.
pub open spec fn samples_mapped(raw: Seq<i16>, out: Seq<i64>) -> bool {
    &&& out.len() == raw.len()
    &&& forall|i: int| 0 <= i < raw.len() ==> #[trigger] out[i] == sample_from_i16_s(raw[i] as int)
}

/// Converts a buffer of decoded 16-bit PCM samples to fixed point.
pub fn samples_from_i16(raw: &Vec<i16>) -> (r: Vec<i64>)
    ensures
        samples_mapped(raw@, r@),
        forall|i: int| 0 <= i < r@.len() ==> sample_in_range(#[trigger] r@[i] as int),
{
    let mut out: Vec<i64> = Vec::new();
    let mut i: usize = 0;
    while i < raw.len()
        invariant
            i <= raw@.len(),
            out@.len() == i,
            forall|k: int| 0 <= k < i ==> #[trigger] out@[k] == sample_from_i16_s(raw@[k] as int),
            forall|k: int| 0 <= k < i ==> sample_in_range(#[trigger] out@[k] as int),
        decreases raw@.len() - i,
    {
        let v = sample_from_i16(raw[i]);
        out.push(v);
        i = i + 1;
    }
    out
}

/// Mono samples expanded to interleaved stereo: each frame repeats the
/// source sample on both channels.
pub open spec fn stereo_of_s(s: Seq<i64>) -> Seq<i64> {
    Seq::new((2 * s.len()) as nat, |j: int| s[j / 2])
}

/// Expands a mono buffer to interleaved stereo.
pub fn stereo_from_mono(samples: &Vec<i64>) -> (r: Vec<i64>)
    ensures
        r@ == stereo_of_s(samples@),
{
    let mut out: Vec<i64> = Vec::new();
    let mut i: usize = 0;
    while i < samples.len()
        invariant
            i <= samples@.len(),
            out@.len() == 2 * i,
            forall|j: int| 0 <= j < 2 * i ==> #[trigger] out@[j] == samples@[j / 2],
        decreases samples@.len() - i,
    {
        let v = samples[i];
        out.push(v);
        out.push(v);
        proof {
            assert((2 * i as int) / 2 == i as int);
            assert((2 * i as int + 1) / 2 == i as int);
        }
        i = i + 1;
    }
    proof {
        assert(out@ =~= stereo_of_s(samples@));
    }
    out
}

/// The sample count after nearest-neighbor resampling `len` interleaved
/// samples from `src_rate` to the engine rate, forced even so frames
/// stay whole.
pub open spec fn resampled_len_s(len: int, src_rate: int) -> int {
    let scaled = (len * 44100) / src_rate;
    scaled - scaled % 2
}

/// Resampling shrinks or grows by the rate ratio, which the supported
/// rate family caps at four; the output length stays even.
pub proof fn lemma_resampled_len(len: int, src_rate: int)
    requires
        src_rate >= 11025,
        len >= 0,
    ensures
        0 <= resampled_len_s(len, src_rate) <= 4 * len,
        resampled_len_s(len, src_rate) % 2 == 0,
        resampled_len_s(len, src_rate) <= (len * 44100) / src_rate,
{
    let scaled = (len * 44100) / src_rate;
    lemma_mul_nonnegative(len, 44100);
    lemma_div_pos_is_pos(len * 44100, src_rate);
    lemma_mul_inequality(44100, 4 * src_rate, len);
    assert(44100 * len == len * 44100) by (nonlinear_arith);
    assert((4 * src_rate) * len == (4 * len) * src_rate) by (nonlinear_arith);
    lemma_div_is_ordered(len * 44100, (4 * len) * src_rate, src_rate);
    lemma_div_by_multiple(4 * len, src_rate);
    vstd::arithmetic::div_mod::lemma_mod_bound(scaled, 2);
    lemma_fundamental_div_mod(scaled, 2);
    vstd::arithmetic::div_mod::lemma_mod_multiples_basic(scaled / 2, 2);
}

/// Every index the resampled buffer reads is inside the source buffer.
pub proof fn lemma_resampled_index(len: int, new_len: int, j: int)
    requires
        len > 0,
        len % 2 == 0,
        new_len > 0,
        new_len % 2 == 0,
        0 <= j < new_len,
    ensures
        0 <= 2 * (((j / 2) * len) / new_len) + (j % 2) < len,
{
    let k = j / 2;
    let h = len / 2;
    vstd::arithmetic::div_mod::lemma_mod_bound(j, 2);
    lemma_fundamental_div_mod(j, 2);
    lemma_fundamental_div_mod(len, 2);
    assert(2 * k < new_len);
    assert(k * len < new_len * h) by (nonlinear_arith)
        requires
            len == 2 * h,
            2 * k < new_len,
            h > 0,
            k >= 0,
    ;
    lemma_mul_nonnegative(k, len);
    lemma_div_pos_is_pos(k * len, new_len);
    lemma_multiply_divide_lt(k * len, new_len, h);
}

/// The resampled buffer itself: output frame `k` copies the source frame
/// nearest below position `k * len / new_len`.
pub open spec fn resampled_of_s(frames: Seq<i64>, src_rate: int) -> Seq<i64> {
    let new_len = resampled_len_s(frames.len() as int, src_rate);
    Seq::new(
        new_len as nat,
        |j: int| frames[2 * (((j / 2) * frames.len()) / new_len) + (j % 2)],
    )
}

/// Resamples interleaved stereo data to the engine rate by nearest
/// neighbor.  This is a lossy, non-bandlimited resample; the policy is
/// deliberate and documented, not a bug.
pub fn resample_nearest(frames: &Vec<i64>, src_rate: u32) -> (r: Vec<i64>)
    requires
        src_rate >= 11025,
        frames@.len() % 2 == 0,
        frames@.len() <= MAX_SOURCE_SAMPLES,
    ensures
        r@ == resampled_of_s(frames@, src_rate as int),
{
    let len: usize = frames.len();
    proof {
        lemma_resampled_len(len as int, src_rate as int);
    }
    let scaled_u64: u64 = ((len as u64) * 44100) / (src_rate as u64);
    let scaled: usize = scaled_u64 as usize;
    let new_len: usize = scaled - scaled % 2;
    proof {
        assert(new_len == resampled_len_s(frames@.len() as int, src_rate as int));
    }
    let mut out: Vec<i64> = Vec::new();
    let mut k: usize = 0;
    while 2 * k < new_len
        invariant
            len == frames@.len(),
            len % 2 == 0,
            len <= MAX_SOURCE_SAMPLES,
            new_len % 2 == 0,
            new_len == resampled_len_s(len as int, src_rate as int),
            new_len <= 4 * len,
            2 * k <= new_len + 1,
            out@.len() == 2 * k,
            forall|j: int|
                0 <= j < 2 * k ==> #[trigger] out@[j] == frames@[2 * (((j / 2) * len) / (
                new_len as int)) + (j % 2)],
        decreases new_len - 2 * k,
    {
        proof {
            let h = len as int / 2;
            assert(len == 2 * h) by {
                lemma_fundamental_div_mod(len as int, 2);
            }
            assert((k as int) * len < (new_len as int) * h) by (nonlinear_arith)
                requires
                    len == 2 * h,
                    2 * (k as int) < new_len as int,
                    h > 0,
            ;
            lemma_mul_nonnegative(k as int, len as int);
            lemma_multiply_divide_lt((k as int) * len, new_len as int, h);
            assert(k as int <= 2 * (len as int));
            assert((k as int) * (len as int) <= 576460752303423488) by (nonlinear_arith)
                requires
                    0 <= k as int,
                    k as int <= 2 * (len as int),
                    len as int <= 536870912,
            ;
        }
        let ix: usize = 2 * (((((k as u64) * (len as u64)) / (new_len as u64)) as usize));
        proof {
            assert(ix + 1 < len);
            assert((2 * k as int) / 2 == k as int);
            assert((2 * k as int + 1) / 2 == k as int);
        }
        out.push(frames[ix]);
        out.push(frames[ix + 1]);
        k = k + 1;
    }
    proof {
        assert(out@ =~= resampled_of_s(frames@, src_rate as int));
    }
    out
}

/// The engine-ready form of decoded data: stereo-expanded if the source
/// was mono, then resampled to the engine rate if needed.
pub open spec fn normalized_of_s(samples: Seq<i64>, channels: int, src_rate: int) -> Seq<i64> {
    let stereo = if channels == 1 {
        stereo_of_s(samples)
    } else {
        samples
    };
    if src_rate == 44100 {
        stereo
    } else {
        resampled_of_s(stereo, src_rate)
    }
}

/// Normalizes decoded samples for the engine: expands mono to stereo and
/// resamples to the fixed 44100 Hz engine rate by nearest neighbor.
/// Rates outside the supported family are rejected.
pub fn prepare_samples(samples: Vec<i64>, channels: u16, sample_rate: u32) -> (r: Result<
    Vec<i64>,
    Error,
>)
    requires
        forall|i: int| 0 <= i < samples@.len() ==> sample_in_range(#[trigger] samples@[i] as int),
        samples@.len() <= MAX_SOURCE_SAMPLES / 2,
        channels == 1 || samples@.len() % 2 == 0,
    ensures
        match r {
            Ok(out) => rate_supported(sample_rate as int) && sample_rate > 0 && out@
                == normalized_of_s(samples@, channels as int, sample_rate as int)
                && sound_data_wf(out@),
            Err(e) => !(rate_supported(sample_rate as int) && sample_rate > 0) && e matches
                Error::ReadError(_),
        },
{
    if !(sample_rate > 0 && sample_rate % 11025 == 0) {
        proof {
            lemma_stage_messages_distinct();
        }
        return Err(Error::ReadError("Sample rate is unsupported.".to_owned()));
    }
    let stereo: Vec<i64> = if channels == 1 {
        stereo_from_mono(&samples)
    } else {
        samples
    };
    proof {
        assert(forall|i: int|
            0 <= i < stereo@.len() ==> sample_in_range(#[trigger] stereo@[i] as int));
    }
    if sample_rate == 44100 {
        proof {
            assert(sound_data_wf(stereo@));
        }
        Ok(stereo)
    } else {
        let out = resample_nearest(&stereo, sample_rate);
        proof {
            let len = stereo@.len() as int;
            let new_len = resampled_len_s(len, sample_rate as int);
            lemma_resampled_len(len, sample_rate as int);
            assert(out@.len() == new_len);
            assert(new_len <= 2 * MAX_FRAMES);
            if len > 0 && new_len > 0 {
                assert forall|j: int| 0 <= j < out@.len() implies sample_in_range(
                    #[trigger] out@[j] as int,
                ) by {
                    lemma_resampled_index(len, new_len, j);
                }
            }
        }
        Ok(out)
    }
}

/// The decoded sound a successful WAV read produces: the header's rate
/// and channel count, every 16-bit sample converted to fixed point.
pub open spec fn wav_sound_of(
    h: WavHeader,
    raw: Seq<i16>,
    style: PlaybackStyle,
    s: Sound,
) -> bool {
    &&& s.sample_rate == h.sample_rate
    &&& s.channels == h.channels
    &&& s.playback_style == style
    &&& samples_mapped(raw, s.samples@)
}

/// Exactly what `read_wav_ext` returns for every input: the header is
/// parsed, validated (supported rate, 16-bit integer PCM), and only then
/// are the samples decoded and converted.
pub open spec fn read_wav_post(bytes: Seq<u8>, r: Result<Sound, Error>, style: PlaybackStyle) -> bool {
    match wav_header_of(bytes) {
        Option::None => r matches Err(Error::HoundError(_)),
        Option::Some(h) => if !rate_supported(h.sample_rate as int) {
            r matches Err(Error::ReadError(m)) && m@ == "Sample rate is unsupported."@
        } else if h.bits_per_sample != 16 {
            r matches Err(Error::ReadError(m)) && m@ == "Bits per sample is unsupported."@
        } else if !h.int_format {
            r matches Err(Error::ReadError(m)) && m@ == "Sample format is unsupported."@
        } else {
            match wav_samples_of(bytes) {
                Option::None => r matches Err(Error::HoundError(_)),
                Option::Some(raw) => r matches Ok(s) && wav_sound_of(h, raw, style, s),
            }
        },
    }
}

/// Reads an in-memory WAV file with the requested loop mode.
pub fn read_wav_ext(bytes: &[u8], playback_style: PlaybackStyle) -> (r: Result<Sound, Error>)
    ensures
        read_wav_post(bytes@, r, playback_style),
{
    let header = match wav_header_raw(bytes) {
        Ok(h) => h,
        Err(e) => {
            return Err(Error::HoundError(e));
        },
    };
    if header.sample_rate % 11025 != 0 {
        proof {
            lemma_stage_messages_distinct();
        }
        return Err(Error::ReadError("Sample rate is unsupported.".to_owned()));
    }
    if header.bits_per_sample != 16 {
        return Err(Error::ReadError("Bits per sample is unsupported.".to_owned()));
    }
    if !header.int_format {
        return Err(Error::ReadError("Sample format is unsupported.".to_owned()));
    }
    let raw = match wav_samples_raw(bytes) {
        Ok(v) => v,
        Err(e) => {
            return Err(Error::HoundError(e));
        },
    };
    let samples = samples_from_i16(&raw);
    Ok(Sound { sample_rate: header.sample_rate, channels: header.channels, samples, playback_style })
}

/// Reads an in-memory WAV file as a one-shot sound.
pub fn read_wav(bytes: &[u8]) -> (r: Result<Sound, Error>)
    ensures
        read_wav_post(bytes@, r, PlaybackStyle::Once),
{
    read_wav_ext(bytes, PlaybackStyle::Once)
}

/// Assembles a decoded OGG stream into a sound: accepted exactly when
/// the stream's rate is in the supported family, with every sample
/// converted to fixed point.
pub fn build_ogg_sound(
    sample_rate: u32,
    channels: u8,
    raw: Vec<i16>,
    playback_style: PlaybackStyle,
) -> (r: Result<Sound, Error>)
    ensures
        rate_supported(sample_rate as int) ==> (r matches Ok(s) && s.sample_rate == sample_rate
            && s.channels == channels as u16 && s.playback_style == playback_style
            && samples_mapped(raw@, s.samples@)),
        !rate_supported(sample_rate as int) ==> (r matches Err(Error::ReadError(m)) && m@
            == "Sample rate is unsupported."@),
{
    if sample_rate % 11025 != 0 {
        proof {
            lemma_stage_messages_distinct();
        }
        return Err(Error::ReadError("Sample rate is unsupported.".to_owned()));
    }
    let samples = samples_from_i16(&raw);
    Ok(Sound { sample_rate, channels: channels as u16, samples, playback_style })
}

/// Reads an in-memory OGG/Vorbis stream with the requested loop mode.
/// The result is pinned to the headers lewton parses out of the bytes:
/// a lewton error comes exactly when the headers are rejected, success
/// comes exactly when the stream's rate is supported, and a successful
/// sound carries the header's rate and channel count with samples that
/// are the fixed-point image of decoded 16-bit PCM, so in [-1.0, 1.0].
pub fn read_ogg_ext(data: &[u8], playback_style: PlaybackStyle) -> (r: Result<Sound, Error>)
    ensures
        (r matches Err(Error::LewtonError(_))) <==> ogg_ident_of(data@) is None,
        ogg_ident_of(data@) matches Some(ident) ==> {
            &&& (r is Ok <==> rate_supported(ident.0 as int))
            &&& (!rate_supported(ident.0 as int) ==> (r matches Err(Error::ReadError(m))
                && m@ == "Sample rate is unsupported."@))
            &&& (r matches Ok(s) ==> {
                &&& s.sample_rate == ident.0
                &&& s.channels == ident.1 as u16
                &&& s.playback_style == playback_style
                &&& (exists|raw: Seq<i16>| samples_mapped(raw, s.samples@))
                &&& forall|i: int|
                    0 <= i < s.samples@.len() ==> sample_in_range(#[trigger] s.samples@[i] as int)
            })
        },
{
    let (mut reader, sample_rate, channels) = match ogg_open(data) {
        Ok(t) => t,
        Err(e) => {
            return Err(Error::LewtonError(e));
        },
    };
    let mut raw: Vec<i16> = Vec::new();
    let mut packets: usize = 0;
    while packets < MAX_PACKETS
        invariant
            packets <= MAX_PACKETS,
        decreases MAX_PACKETS - packets,
    {
        let next = ogg_next_packet(&mut reader);
        match next {
            Ok(Some(mut chunk)) => {
                raw.append(&mut chunk);
            },
            _ => {
                break;
            },
        }
        packets = packets + 1;
    }
    let r = build_ogg_sound(sample_rate, channels, raw, playback_style);
    proof {
        if r is Ok {
            let s = r->Ok_0;
            assert(forall|i: int|
                0 <= i < s.samples@.len() ==> sample_in_range(#[trigger] s.samples@[i] as int))
                by {
                let rawg = choose|rawg: Seq<i16>| samples_mapped(rawg, s.samples@);
                assert forall|i: int|
                    0 <= i < s.samples@.len() implies sample_in_range(
                    #[trigger] s.samples@[i] as int,
                ) by {
                    lemma_sample_from_i16_range(rawg[i] as int);
                }
            }
        }
    }
    r
}

/// Reads an in-memory OGG/Vorbis stream as a one-shot sound, with the
/// same contract as `read_ogg_ext`: failure and success are decided by
/// the headers lewton parses out of the bytes.
pub fn read_ogg(data: &[u8]) -> (r: Result<Sound, Error>)
    ensures
        (r matches Err(Error::LewtonError(_))) <==> ogg_ident_of(data@) is None,
        ogg_ident_of(data@) matches Some(ident) ==> {
            &&& (r is Ok <==> rate_supported(ident.0 as int))
            &&& (!rate_supported(ident.0 as int) ==> (r matches Err(Error::ReadError(m))
                && m@ == "Sample rate is unsupported."@))
            &&& (r matches Ok(s) ==> {
                &&& s.sample_rate == ident.0
                &&& s.channels == ident.1 as u16
                &&& s.playback_style == PlaybackStyle::Once
                &&& forall|i: int|
                    0 <= i < s.samples@.len() ==> sample_in_range(#[trigger] s.samples@[i] as int)
            })
        },
{
    read_ogg_ext(data, PlaybackStyle::Once)
}

/// The static stage messages are pairwise distinguishable from the two
/// open-stage messages, which the opening contract is an iff over.
proof fn lemma_stage_messages_distinct()
    ensures
        "Sample rate is unsupported."@ != "Failed to probe format"@,
        "Sample rate is unsupported."@ != "No default track"@,
        "Failed to create decoder"@ != "Failed to probe format"@,
        "Failed to create decoder"@ != "No default track"@,
        "Failed to decode"@ != "Failed to probe format"@,
        "Failed to decode"@ != "No default track"@,
        "Audio stream is too long"@ != "Failed to probe format"@,
        "Audio stream is too long"@ != "No default track"@,
        "Sample count does not fill whole frames"@ != "Failed to probe format"@,
        "Sample count does not fill whole frames"@ != "No default track"@,
{
    reveal_strlit("Failed to probe format");
    reveal_strlit("No default track");
    reveal_strlit("Sample rate is unsupported.");
    reveal_strlit("Failed to create decoder");
    reveal_strlit("Failed to decode");
    reveal_strlit("Audio stream is too long");
    reveal_strlit("Sample count does not fill whole frames");
    assert("Failed to probe format"@.len() == 22);
    assert("No default track"@.len() == 16);
    assert("Sample rate is unsupported."@.len() == 27);
    assert("Failed to create decoder"@.len() == 24);
    assert("Failed to decode"@.len() == 16);
    assert("Audio stream is too long"@.len() == 24);
    assert("Sample count does not fill whole frames"@.len() == 39);
    assert("Failed to decode"@[0] != "No default track"@[0]);
}

/// Decodes any container and codec the bundled registry recognizes
/// (WAV, FLAC, OGG/Vorbis, MKV, ...) and returns the stream normalized
/// for the engine: interleaved stereo fixed point at 44100 Hz.  The
/// result is pinned to the track symphonia finds in the bytes: the
/// probe and track stages fail exactly when no usable audio track
/// exists, success requires the track's rate to be in the supported
/// family, and every failure names its stage in a static message.
/// Only the container parsing and codec work is trusted; the 16-bit
/// conversion and the normalization around them are verified.
pub fn load_samples_from_file(bytes: &[u8]) -> (r: Result<Vec<i64>, Error>)
    ensures
        r is Err ==> r matches Err(Error::ReadError(_)),
        (media_params_of(bytes@) is None) <==> (r matches Err(Error::ReadError(m)) && (m@
            == "Failed to probe format"@ || m@ == "No default track"@)),
        media_params_of(bytes@) matches Some(t) ==> {
            &&& (!(rate_supported(t.1 as int) && t.1 > 0) ==> (r matches Err(Error::ReadError(m))
                && m@ == "Sample rate is unsupported."@))
            &&& (r is Ok ==> rate_supported(t.1 as int) && t.1 > 0)
            &&& (r matches Ok(out) ==> sound_data_wf(out@) && (exists|raw: Seq<i16>, mid: Seq<
                i64,
            >|
                #[trigger] samples_mapped(raw, mid) && out@ == normalized_of_s(
                    mid,
                    t.2 as int,
                    t.1 as int,
                )))
        },
        r matches Err(Error::ReadError(m)) ==> (m@ == "Failed to probe format"@ || m@
            == "No default track"@ || m@ == "Sample rate is unsupported."@ || m@
            == "Failed to create decoder"@ || m@ == "Failed to decode"@ || m@
            == "Audio stream is too long"@ || m@ == "Sample count does not fill whole frames"@),
{
    let (track_id, sample_rate, channels, params) = match media_params_raw(bytes) {
        Ok(t) => t,
        Err(0) => {
            return Err(Error::ReadError("Failed to probe format".to_owned()));
        },
        Err(_) => {
            return Err(Error::ReadError("No default track".to_owned()));
        },
    };
    let mut format = match media_probe(bytes) {
        Ok(f) => f,
        Err(()) => {
            // Contradicts the metadata parse of the same bytes; the
            // verifier knows this arm is unreachable.
            return Err(Error::ReadError("Failed to probe format".to_owned()));
        },
    };
    if !(sample_rate > 0 && sample_rate % 11025 == 0) {
        proof {
            lemma_stage_messages_distinct();
        }
        return Err(Error::ReadError("Sample rate is unsupported.".to_owned()));
    }
    let mut decoder = match media_make_decoder(&params) {
        Ok(d) => d,
        Err(()) => {
            proof {
                lemma_stage_messages_distinct();
            }
            return Err(Error::ReadError("Failed to create decoder".to_owned()));
        },
    };
    let mut raw: Vec<i16> = Vec::new();
    let mut packets: usize = 0;
    while packets < MAX_PACKETS
        invariant
            packets <= MAX_PACKETS,
            media_params_of(bytes@) == Some((track_id, sample_rate, channels)),
            rate_supported(sample_rate as int) && sample_rate > 0,
        decreases MAX_PACKETS - packets,
    {
        match media_next_raw(&mut format) {
            Ok(Some(packet)) => {
                if packet_track(&packet) == track_id {
                    match media_decode(&mut decoder, &packet) {
                        Ok(mut chunk) => {
                            raw.append(&mut chunk);
                        },
                        Err(()) => {
                            proof {
                                lemma_stage_messages_distinct();
                            }
                            return Err(Error::ReadError("Failed to decode".to_owned()));
                        },
                    }
                }
            },
            Ok(None) => {
                break;
            },
            Err(()) => {
                proof {
                    lemma_stage_messages_distinct();
                }
                return Err(Error::ReadError("Failed to decode".to_owned()));
            },
        }
        packets = packets + 1;
    }
    if raw.len() > MAX_SOURCE_SAMPLES / 2 {
        proof {
            lemma_stage_messages_distinct();
        }
        return Err(Error::ReadError("Audio stream is too long".to_owned()));
    }
    if channels != 1 && raw.len() % 2 != 0 {
        proof {
            lemma_stage_messages_distinct();
        }
        return Err(Error::ReadError("Sample count does not fill whole frames".to_owned()));
    }
    let samples = samples_from_i16(&raw);
    match prepare_samples(samples, channels, sample_rate) {
        Ok(out) => Ok(out),
        Err(e) => Err(e),
    }
}


/// The clamped 16-bit PCM value of one mixed fixed-point sample: the
/// mixed sum may exceed [-1.0, 1.0], and anything beyond is held at the
/// extreme.
pub open spec fn sample_to_i16_s(s: int) -> int {
    if s >= FP_ONE {
        32767
    } else if s <= -(FP_ONE as int) {
        -32767
    } else if s >= 0 {
        (s * 32767) / (FP_ONE as int)
    } else {
        -(((-s) * 32767) / (FP_ONE as int))
    }
}

/// Converts one mixed fixed-point sample to signed 16-bit PCM for an
/// audio backend, clamping the out-of-range sums mixing can produce.
pub fn sample_to_i16(s: i64) -> (r: i16)
    ensures
        r as int == sample_to_i16_s(s as int),
        -32767 <= r <= 32767,
{
    if s >= FP_ONE {
        32767
    } else if s <= -FP_ONE {
        -32767
    } else if s >= 0 {
        proof {
            lemma_mul_nonnegative(s as int, 32767);
            lemma_div_pos_is_pos(s as int * 32767, FP_ONE as int);
            assert((s as int) * 32767 < 32767 * FP_ONE) by (nonlinear_arith)
                requires 0 <= s < FP_ONE;
            lemma_multiply_divide_lt(s as int * 32767, FP_ONE as int, 32767);
            assert(FP_ONE as int * 32767 == 32767 * (FP_ONE as int)) by (nonlinear_arith);
        }
        ((s * 32767) / FP_ONE) as i16
    } else {
        proof {
            lemma_mul_nonnegative(-s as int, 32767);
            lemma_div_pos_is_pos(-s as int * 32767, FP_ONE as int);
            assert((-s as int) * 32767 < 32767 * FP_ONE) by (nonlinear_arith)
                requires -FP_ONE < s < 0;
            lemma_multiply_divide_lt(-s as int * 32767, FP_ONE as int, 32767);
            assert(FP_ONE as int * 32767 == 32767 * (FP_ONE as int)) by (nonlinear_arith);
        }
        let neg = -s;
        (-((neg * 32767) / FP_ONE)) as i16
    }
}

} // verus!
