//! Re-encoding a decoded stream to MP3, whole or cut to a window of frames.
//!
//! Reading and decoding the stream is the caller's work; encoding is LAME's.
//! The caller hands on what every attempt to read a packet gave, as a
//! `StreamEvent`, and the `Transcoder` decides what is done about it: which
//! packets count, which of their samples reach the encoder, and when the
//! work stops.
//!
//! What LAME does at one step has a name: `encode_step`, `flush_step`. Over
//! these names the module says what a conversion is. `hearing_of` is the
//! reading that a run of events makes; `chunks_given` are the chunks that the
//! encoder is handed of what was decoded; `mp3_of` is what the encoder makes
//! of them, with the flush at the end. The laws at the end of the file say
//! what follows: which samples the chunks hold, and that nothing is taken
//! after the end.

use crate::decode::{describe_fault, fault_kind, fault_of, fault_said, StreamFault, TrackInfo};
use crate::trim::{
    clip_packet, held, keeps, kept_of, lemma_scale_order, trimmed, whole_frames, window_at,
    window_of, TrimWindow,
};
use vstd::prelude::*;
use vstd::string::StringExecFns;

verus! {

/// LAME's encoder settings before they are fixed. Opaque here.
#[verifier::external_type_specification]
#[verifier::external_body]
pub struct ExBuilder(mp3lame_encoder::Builder);

/// A LAME encoder. Opaque here.
#[verifier::external_type_specification]
#[verifier::external_body]
pub struct ExEncoder(mp3lame_encoder::Encoder);

/// The error of a LAME setting. Opaque here.
#[verifier::external_type_specification]
#[verifier::external_body]
pub struct ExBuildError(mp3lame_encoder::BuildError);

/// The error of a LAME encoding call. Opaque here.
#[verifier::external_type_specification]
#[verifier::external_body]
pub struct ExEncodeError(mp3lame_encoder::EncodeError);

/// The constant bitrates that the transcoder offers.
#[derive(Clone, Copy, Debug, PartialEq, Eq, Structural)]
pub enum Bitrate {
    /// 128 kbit/s.
    Kbps128,
    /// 192 kbit/s.
    Kbps192,
    /// 256 kbit/s.
    Kbps256,
    /// 320 kbit/s.
    Kbps320,
}

impl Bitrate {
    /// The bitrate for a requested number of kbit/s: the number itself where
    /// it is offered, 192 otherwise.
    pub open spec fn of_kbps(kbps: u32) -> Bitrate {
        if kbps == 128 {
            Bitrate::Kbps128
        } else if kbps == 256 {
            Bitrate::Kbps256
        } else if kbps == 320 {
            Bitrate::Kbps320
        } else {
            Bitrate::Kbps192
        }
    }

    /// The rate in kbit/s.
    pub open spec fn spec_kbps(self) -> u32 {
        match self {
            Bitrate::Kbps128 => 128,
            Bitrate::Kbps192 => 192,
            Bitrate::Kbps256 => 256,
            Bitrate::Kbps320 => 320,
        }
    }

    /// Chooses the bitrate for a requested number of kbit/s.
    pub fn from_kbps(kbps: u32) -> (rate: Bitrate)
        ensures
            rate == Bitrate::of_kbps(kbps),
    {
        match kbps {
            128 => Bitrate::Kbps128,
            192 => Bitrate::Kbps192,
            256 => Bitrate::Kbps256,
            320 => Bitrate::Kbps320,
            _ => Bitrate::Kbps192,
        }
    }

    /// The rate in kbit/s.
    pub fn kbps(self) -> (k: u32)
        ensures
            k == self.spec_kbps(),
    {
        match self {
            Bitrate::Kbps128 => 128,
            Bitrate::Kbps192 => 192,
            Bitrate::Kbps256 => 256,
            Bitrate::Kbps320 => 320,
        }
    }
}

/// Why a conversion failed.
#[derive(Debug)]
pub enum ConvertError {
    /// The track states no sample rate.
    UnknownSampleRate,
    /// No decoder could be made for the track; holds symphonia's description.
    Decoder(String),
    /// LAME could not allocate its settings.
    EncoderInit,
    /// LAME refused the number of channels.
    Channels(String),
    /// LAME refused the sample rate.
    SampleRate(String),
    /// LAME refused the bitrate.
    BitrateSetting(String),
    /// LAME refused the quality.
    Quality(String),
    /// LAME refused the settings as a whole.
    Build(String),
    /// The demuxer failed other than by reaching the end of the stream.
    ReadPacket(String),
    /// The decoder failed other than on malformed data.
    Decode(String),
    /// LAME failed to encode a chunk.
    Encode(String),
    /// LAME failed to flush.
    Flush(String),
}

/// What a user is told of a failed conversion.
pub open spec fn convert_failure_text(error: ConvertError) -> Seq<char> {
    match error {
        ConvertError::UnknownSampleRate => "Unknown sample rate"@,
        ConvertError::Decoder(said) => "Failed to create decoder: "@ + said@,
        ConvertError::EncoderInit => "Failed to create MP3 encoder"@,
        ConvertError::Channels(said) => "Failed to set channels: "@ + said@,
        ConvertError::SampleRate(said) => "Failed to set sample rate: "@ + said@,
        ConvertError::BitrateSetting(said) => "Failed to set bitrate: "@ + said@,
        ConvertError::Quality(said) => "Failed to set quality: "@ + said@,
        ConvertError::Build(said) => "Failed to build MP3 encoder: "@ + said@,
        ConvertError::ReadPacket(said) => "Failed to read packet: "@ + said@,
        ConvertError::Decode(said) => "Failed to decode: "@ + said@,
        ConvertError::Encode(said) => "Failed to encode MP3: "@ + said@,
        ConvertError::Flush(said) => "Failed to flush MP3 encoder: "@ + said@,
    }
}

impl ConvertError {
    /// What a user is told of this failure.
    pub fn message(&self) -> (text: String)
        ensures
            text@ == convert_failure_text(*self),
    {
        match self {
            ConvertError::UnknownSampleRate => String::from_str("Unknown sample rate"),
            ConvertError::Decoder(said) => String::from_str("Failed to create decoder: ").concat(
                said.as_str(),
            ),
            ConvertError::EncoderInit => String::from_str("Failed to create MP3 encoder"),
            ConvertError::Channels(said) => String::from_str("Failed to set channels: ").concat(
                said.as_str(),
            ),
            ConvertError::SampleRate(said) => String::from_str(
                "Failed to set sample rate: ",
            ).concat(said.as_str()),
            ConvertError::BitrateSetting(said) => String::from_str(
                "Failed to set bitrate: ",
            ).concat(said.as_str()),
            ConvertError::Quality(said) => String::from_str("Failed to set quality: ").concat(
                said.as_str(),
            ),
            ConvertError::Build(said) => String::from_str("Failed to build MP3 encoder: ").concat(
                said.as_str(),
            ),
            ConvertError::ReadPacket(said) => String::from_str("Failed to read packet: ").concat(
                said.as_str(),
            ),
            ConvertError::Decode(said) => String::from_str("Failed to decode: ").concat(
                said.as_str(),
            ),
            ConvertError::Encode(said) => String::from_str("Failed to encode MP3: ").concat(
                said.as_str(),
            ),
            ConvertError::Flush(said) => String::from_str("Failed to flush MP3 encoder: ").concat(
                said.as_str(),
            ),
        }
    }
}

/// The quality of the encoding, from the best and slowest to the worst and
/// fastest.
#[derive(Clone, Copy, Debug, PartialEq, Eq, Structural)]
pub enum Quality {
    /// Quality 0.
    Best,
    /// Quality 1.
    SecondBest,
    /// Quality 2.
    NearBest,
    /// Quality 3.
    VeryNice,
    /// Quality 4.
    Nice,
    /// Quality 5.
    Good,
    /// Quality 6.
    Decent,
    /// Quality 7.
    Fair,
    /// Quality 8.
    SecondWorst,
    /// Quality 9.
    Worst,
}

impl Quality {
    /// The number of the quality, from 0, the best, to 9.
    pub open spec fn level(self) -> u8 {
        match self {
            Quality::Best => 0,
            Quality::SecondBest => 1,
            Quality::NearBest => 2,
            Quality::VeryNice => 3,
            Quality::Nice => 4,
            Quality::Good => 5,
            Quality::Decent => 6,
            Quality::Fair => 7,
            Quality::SecondWorst => 8,
            Quality::Worst => 9,
        }
    }
}

/// What the library sets of an encoder before it is built.
#[derive(Clone, Copy, Debug, PartialEq, Eq, Structural)]
pub struct EncoderSettings {
    /// The number of channels of the input.
    pub channels: u8,
    /// The sample rate of the input in Hz.
    pub sample_rate: u32,
    /// The bitrate in kbit/s.
    pub kbps: u32,
    /// The quality, from 0, the best, to 9.
    pub quality: u8,
}

/// The number of channels, the input sample rate, the bitrate and the
/// quality that a set of LAME settings holds.
pub uninterp spec fn settings(builder: mp3lame_encoder::Builder) -> EncoderSettings;

/// The encoder that `Builder::build` makes of a set of settings as it
/// stands, where it makes one.
pub uninterp spec fn built(builder: mp3lame_encoder::Builder) -> Option<mp3lame_encoder::Encoder>;

/// The bytes that an encoder as it stands produces when it takes a run of
/// samples, as mono input or as interleaved pairs, and the encoder as it
/// stands afterwards. Where the encoder fails, for want of memory or
/// otherwise, nothing is said.
pub uninterp spec fn encode_step(
    encoder: mp3lame_encoder::Encoder,
    mono: bool,
    samples: Seq<i16>,
) -> (Option<Seq<u8>>, mp3lame_encoder::Encoder);

/// The bytes that an encoder as it stands produces when it is flushed, and
/// the encoder as it stands afterwards. Where the flush fails nothing is
/// said.
pub uninterp spec fn flush_step(encoder: mp3lame_encoder::Encoder) -> (
    Option<Seq<u8>>,
    mp3lame_encoder::Encoder,
);

/// The sample rate that LAME keeps where it is told `rate`: the rate itself
/// as far as LAME's signed number holds it.
pub open spec fn stored_rate(rate: u32) -> u32 {
    if rate <= 0x7fff_ffff {
        rate
    } else {
        0x7fff_ffff
    }
}

/// `Builder::new`: a fresh set of settings, or `None` where LAME cannot
/// allocate one.
pub assume_specification[ mp3lame_encoder::Builder::new ]() -> (r: Option<
    mp3lame_encoder::Builder,
>)
;

/// `Builder::set_num_channels`: LAME accepts one or two channels and nothing
/// else, and keeps the number that it accepts; the other settings stay.
pub assume_specification[ mp3lame_encoder::Builder::set_num_channels ](
    builder: &mut mp3lame_encoder::Builder,
    num: u8,
) -> (r: Result<(), mp3lame_encoder::BuildError>)
    ensures
        r is Ok ==> 1 <= num <= 2,
        r is Ok ==> settings(*final(builder)) == (EncoderSettings {
            channels: num,
            ..settings(*old(builder))
        }),
;

/// `Builder::set_sample_rate`: LAME keeps the input sample rate that it
/// accepts; the other settings stay.
pub assume_specification[ mp3lame_encoder::Builder::set_sample_rate ](
    builder: &mut mp3lame_encoder::Builder,
    rate: u32,
) -> (r: Result<(), mp3lame_encoder::BuildError>)
    ensures
        r is Ok ==> settings(*final(builder)) == (EncoderSettings {
            sample_rate: stored_rate(rate),
            ..settings(*old(builder))
        }),
;

/// `Builder::build`: makes the encoder of the settings as they stand. Why
/// it fails where it fails is not said.
pub assume_specification[ mp3lame_encoder::Builder::build ](
    builder: mp3lame_encoder::Builder,
) -> (r: Result<mp3lame_encoder::Encoder, mp3lame_encoder::BuildError>)
    ensures
        r matches Ok(encoder) ==> built(builder) == Some(encoder),
;

/// Calls `Builder::set_brate` with LAME's constant of the same rate. LAME
/// keeps the bitrate that it accepts; the other settings stay.
#[verifier::external_body]
fn set_bitrate(builder: &mut mp3lame_encoder::Builder, rate: Bitrate) -> (r: Result<
    (),
    mp3lame_encoder::BuildError,
>)
    ensures
        r is Ok ==> settings(*final(builder)) == (EncoderSettings {
            kbps: rate.spec_kbps(),
            ..settings(*old(builder))
        }),
{
    builder.set_brate(
        match rate {
            Bitrate::Kbps128 => mp3lame_encoder::Bitrate::Kbps128,
            Bitrate::Kbps192 => mp3lame_encoder::Bitrate::Kbps192,
            Bitrate::Kbps256 => mp3lame_encoder::Bitrate::Kbps256,
            Bitrate::Kbps320 => mp3lame_encoder::Bitrate::Kbps320,
        },
    )
}

/// Calls `Builder::set_quality` with LAME's constant of the same quality.
/// LAME keeps the quality that it accepts; the other settings stay.
#[verifier::external_body]
fn set_quality(builder: &mut mp3lame_encoder::Builder, quality: Quality) -> (r: Result<
    (),
    mp3lame_encoder::BuildError,
>)
    ensures
        r is Ok ==> settings(*final(builder)) == (EncoderSettings {
            quality: quality.level(),
            ..settings(*old(builder))
        }),
{
    builder.set_quality(
        match quality {
            Quality::Best => mp3lame_encoder::Quality::Best,
            Quality::SecondBest => mp3lame_encoder::Quality::SecondBest,
            Quality::NearBest => mp3lame_encoder::Quality::NearBest,
            Quality::VeryNice => mp3lame_encoder::Quality::VeryNice,
            Quality::Nice => mp3lame_encoder::Quality::Nice,
            Quality::Good => mp3lame_encoder::Quality::Good,
            Quality::Decent => mp3lame_encoder::Quality::Decent,
            Quality::Fair => mp3lame_encoder::Quality::Ok,
            Quality::SecondWorst => mp3lame_encoder::Quality::SecondWorst,
            Quality::Worst => mp3lame_encoder::Quality::Worst,
        },
    )
}

/// The `Debug` text of a LAME settings error.
#[verifier::external_body]
fn describe_build_error(error: &mp3lame_encoder::BuildError) -> (text: String) {
    format!("{:?}", error)
}

/// The `Debug` text of a LAME encoding error.
#[verifier::external_body]
fn describe_encode_error(error: &mp3lame_encoder::EncodeError) -> (text: String) {
    format!("{:?}", error)
}

/// Reserves `max_required_buffer_size` bytes for the samples and calls
/// `Encoder::encode_to_vec` on them as interleaved PCM. On success the bytes
/// that LAME produced stand behind what `out` held; on failure `out` is as
/// it was. What LAME produces where it succeeds, and how the encoder stands
/// afterwards, depend on the samples and on how the encoder stood alone.
///
/// LAME reads the samples in pairs, so their number must be even.
#[verifier::external_body]
fn encode_interleaved(
    encoder: &mut mp3lame_encoder::Encoder,
    samples: &[i16],
    out: &mut Vec<u8>,
) -> (r: Result<usize, mp3lame_encoder::EncodeError>)
    requires
        samples@.len() % 2 == 0,
    ensures
        old(out)@.is_prefix_of(final(out)@),
        r matches Ok(written) ==> final(out)@.len() == old(out)@.len() + written,
        r is Err ==> final(out)@ == old(out)@,
        r is Ok ==> encode_step(*old(encoder), false, samples@) == (
            Some(final(out)@.skip(old(out)@.len() as int)),
            *final(encoder),
        ),
{
    out.reserve(mp3lame_encoder::max_required_buffer_size(samples.len()));
    encoder.encode_to_vec(mp3lame_encoder::InterleavedPcm(samples), out)
}

/// Reserves `max_required_buffer_size` bytes for the samples and calls
/// `Encoder::encode_to_vec` on them as mono PCM, every sample a frame. On
/// success the bytes that LAME produced stand behind what `out` held; on
/// failure `out` is as it was. What LAME produces where it succeeds, and
/// how the encoder stands afterwards, depend on the samples and on how the
/// encoder stood alone.
#[verifier::external_body]
fn encode_mono(encoder: &mut mp3lame_encoder::Encoder, samples: &[i16], out: &mut Vec<u8>) -> (r:
    Result<usize, mp3lame_encoder::EncodeError>)
    ensures
        old(out)@.is_prefix_of(final(out)@),
        r matches Ok(written) ==> final(out)@.len() == old(out)@.len() + written,
        r is Err ==> final(out)@ == old(out)@,
        r is Ok ==> encode_step(*old(encoder), true, samples@) == (
            Some(final(out)@.skip(old(out)@.len() as int)),
            *final(encoder),
        ),
{
    out.reserve(mp3lame_encoder::max_required_buffer_size(samples.len()));
    encoder.encode_to_vec(mp3lame_encoder::MonoPcm(samples), out)
}

/// Reserves 7200 bytes and calls `Encoder::flush_to_vec` in its no-gap form.
/// On success the bytes that LAME produced stand behind what `out` held; on
/// failure `out` is as it was. What LAME produces where it succeeds, and
/// how the encoder stands afterwards, depend on how the encoder stood alone.
#[verifier::external_body]
fn flush_no_gap(encoder: &mut mp3lame_encoder::Encoder, out: &mut Vec<u8>) -> (r: Result<
    usize,
    mp3lame_encoder::EncodeError,
>)
    ensures
        old(out)@.is_prefix_of(final(out)@),
        r matches Ok(written) ==> final(out)@.len() == old(out)@.len() + written,
        r is Err ==> final(out)@ == old(out)@,
        r is Ok ==> flush_step(*old(encoder)) == (
            Some(final(out)@.skip(old(out)@.len() as int)),
            *final(encoder),
        ),
{
    out.reserve(7200);
    encoder.flush_to_vec::<mp3lame_encoder::FlushNoGap>(out)
}

/// The channel count that the encoder is told: the low eight bits.
pub open spec fn encoder_channels(channels: usize) -> u8 {
    (channels % 256) as u8
}

/// The number of channels that a track is taken to have: two where the
/// container does not say.
pub open spec fn channels_of(channels: Option<usize>) -> usize {
    match channels {
        Some(count) => count,
        None => 2,
    }
}

/// Whether the encoder is told of one channel, so that it takes mono input.
pub open spec fn is_mono(channels: int) -> bool {
    channels % 256 == 1
}

/// The settings of the encoder for a track of `channels` channels at
/// `sample_rate`, at the bitrate for `kbps`: the best quality always.
pub open spec fn settings_for(channels: usize, sample_rate: u32, kbps: u32) -> EncoderSettings {
    EncoderSettings {
        channels: encoder_channels(channels),
        sample_rate: stored_rate(sample_rate),
        kbps: Bitrate::of_kbps(kbps).spec_kbps(),
        quality: Quality::Best.level(),
    }
}

/// Tells the number of channels that a track is taken to have.
pub fn track_channels(track: &TrackInfo) -> (channels: usize)
    ensures
        channels == channels_of(track.channels),
{
    match track.channels {
        Some(count) => count,
        None => 2,
    }
}

/// Tells the channel count that the encoder is told.
pub fn told_channels(channels: usize) -> (told: u8)
    ensures
        told == encoder_channels(channels),
{
    (channels % 256) as u8
}

/// Sets up a LAME encoder: channels, sample rate, bitrate, best quality, in
/// this order; the first setting that LAME refuses ends it. With the encoder
/// comes the set of settings that it was built of, as a record.
fn build_encoder(channels: usize, sample_rate: u32, kbps: u32) -> (r: Result<
    (mp3lame_encoder::Encoder, Ghost<mp3lame_encoder::Builder>),
    ConvertError,
>)
    ensures
        r matches Ok(made) ==> {
            &&& 1 <= encoder_channels(channels) <= 2
            &&& settings(made.1@) == settings_for(channels, sample_rate, kbps)
            &&& built(made.1@) == Some(made.0)
        },
        r matches Err(e) ==> e is EncoderInit || e is Channels || e is SampleRate
            || e is BitrateSetting || e is Quality || e is Build,
{
    let mut builder = match mp3lame_encoder::Builder::new() {
        Some(builder) => builder,
        None => {
            return Err(ConvertError::EncoderInit);
        },
    };
    if let Err(error) = builder.set_num_channels(told_channels(channels)) {
        return Err(ConvertError::Channels(describe_build_error(&error)));
    }
    if let Err(error) = builder.set_sample_rate(sample_rate) {
        return Err(ConvertError::SampleRate(describe_build_error(&error)));
    }
    if let Err(error) = set_bitrate(&mut builder, Bitrate::from_kbps(kbps)) {
        return Err(ConvertError::BitrateSetting(describe_build_error(&error)));
    }
    if let Err(error) = set_quality(&mut builder, Quality::Best) {
        return Err(ConvertError::Quality(describe_build_error(&error)));
    }
    let ghost set = builder;
    match builder.build() {
        Ok(encoder) => Ok((encoder, Ghost(set))),
        Err(error) => Err(ConvertError::Build(describe_build_error(&error))),
    }
}

/// What is done about a packet that could not be read or decoded.
#[derive(Clone, Copy, Debug, PartialEq, Eq, Structural)]
pub enum Verdict {
    /// The stream is over; the conversion goes on to its end.
    Finish,
    /// The packet is passed over.
    Skip,
    /// The conversion fails.
    Fail,
}

/// What is done where the demuxer gives no packet: the end of the stream
/// ends the reading, anything else fails the conversion.
pub open spec fn read_verdict(fault: StreamFault) -> Verdict {
    if fault == StreamFault::EndOfStream {
        Verdict::Finish
    } else {
        Verdict::Fail
    }
}

/// What is done where a packet cannot be decoded: malformed data is passed
/// over, anything else fails the conversion.
pub open spec fn decode_verdict(fault: StreamFault) -> Verdict {
    if fault == StreamFault::Malformed {
        Verdict::Skip
    } else {
        Verdict::Fail
    }
}

/// Decides what is done where the demuxer gives no packet.
pub fn judge_read_fault(fault: StreamFault) -> (verdict: Verdict)
    ensures
        verdict == read_verdict(fault),
{
    match fault {
        StreamFault::EndOfStream => Verdict::Finish,
        _ => Verdict::Fail,
    }
}

/// Decides what is done where a packet cannot be decoded.
pub fn judge_decode_fault(fault: StreamFault) -> (verdict: Verdict)
    ensures
        verdict == decode_verdict(fault),
{
    match fault {
        StreamFault::Malformed => Verdict::Skip,
        _ => Verdict::Fail,
    }
}

/// Where the samples from `lo` up to `hi` end once they are taken in pairs.
pub open spec fn paired_end_of(lo: int, hi: int) -> int {
    hi - (hi - lo) % 2
}

/// Finds where the samples from `lo` up to `hi` end once they are taken in
/// pairs: at `hi`, or one before it where their number is odd.
pub fn paired_end(lo: usize, hi: usize) -> (end: usize)
    requires
        lo <= hi,
    ensures
        end == paired_end_of(lo as int, hi as int),
        lo <= end <= hi,
        (end - lo) % 2 == 0,
{
    hi - (hi - lo) % 2
}

/// The samples of a run that are taken in pairs: all of them, or all but the
/// last where their number is odd.
pub open spec fn pairs_of(samples: Seq<i16>) -> Seq<i16> {
    samples.subrange(0, samples.len() - samples.len() % 2)
}

/// A run of samples as the encoder takes it: as it is where the encoder
/// takes mono input, in pairs otherwise.
pub open spec fn shaped(samples: Seq<i16>, channels: int) -> Seq<i16> {
    if is_mono(channels) {
        samples
    } else {
        pairs_of(samples)
    }
}

/// Where the samples from `lo` up to `hi` end as the encoder takes them.
pub open spec fn chunk_end_of(lo: int, hi: int, channels: int) -> int {
    if is_mono(channels) {
        hi
    } else {
        paired_end_of(lo, hi)
    }
}

/// Finds where the samples from `lo` up to `hi` end as the encoder takes
/// them: at `hi` for mono input, at the last whole pair otherwise.
pub fn chunk_end(lo: usize, hi: usize, channels: usize) -> (end: usize)
    requires
        lo <= hi,
    ensures
        end == chunk_end_of(lo as int, hi as int, channels as int),
        lo <= end <= hi,
        !is_mono(channels as int) ==> (end - lo) % 2 == 0,
{
    if told_channels(channels) == 1 {
        hi
    } else {
        paired_end(lo, hi)
    }
}

/// The stream position after a run of packets, in frames.
pub open spec fn position_after(packets: Seq<Seq<i16>>, channels: int) -> int
    decreases packets.len(),
{
    if packets.len() == 0 {
        0
    } else {
        position_after(packets.drop_last(), channels) + packets.last().len() / (channels as nat)
    }
}

/// What the encoder is given of one packet that begins at `position`: what
/// the window keeps of it, or all of it where there is no window, as the
/// encoder takes it.
pub open spec fn given_of(
    position: int,
    packet: Seq<i16>,
    channels: int,
    window: Option<TrimWindow>,
) -> Seq<i16> {
    match window {
        None => shaped(packet, channels),
        Some(window) => shaped(kept_of(position, packet, channels, window), channels),
    }
}

/// What the encoder is given of a run of decoded packets, the first of which
/// begins the stream.
pub open spec fn given(packets: Seq<Seq<i16>>, channels: int, window: Option<TrimWindow>) -> Seq<
    i16,
>
    decreases packets.len(),
{
    if packets.len() == 0 {
        Seq::empty()
    } else {
        given(packets.drop_last(), channels, window) + given_of(
            position_after(packets.drop_last(), channels),
            packets.last(),
            channels,
            window,
        )
    }
}

/// The chunks that the encoder is given of a run of decoded packets, the
/// first of which begins the stream. With a window: of every packet of which
/// something is given, that; no chunk is empty. Without a window: of every
/// packet what is given of it, be it nothing.
pub open spec fn chunks_given(
    packets: Seq<Seq<i16>>,
    channels: int,
    window: Option<TrimWindow>,
) -> Seq<Seq<i16>>
    decreases packets.len(),
{
    if packets.len() == 0 {
        Seq::empty()
    } else {
        let before = chunks_given(packets.drop_last(), channels, window);
        let position = position_after(packets.drop_last(), channels);
        let chunk = given_of(position, packets.last(), channels, window);
        if window is None || chunk.len() > 0 {
            before.push(chunk)
        } else {
            before
        }
    }
}

/// What an attempt to read and decode a packet of the stream gave.
#[derive(Debug)]
pub enum StreamEvent {
    /// The demuxer gave no packet: the kind of the failure, and what was
    /// said of it.
    NoPacket(StreamFault, String),
    /// The packet belongs to another track.
    OtherTrack,
    /// The packet could not be decoded: the kind of the failure, and what
    /// was said of it.
    Undecodable(StreamFault, String),
    /// The packet was decoded to these interleaved samples.
    Decoded(Vec<i16>),
}

impl StreamEvent {
    /// Whether this event tells that the demuxer gave no packet and failed
    /// with `error`.
    pub open spec fn tells_no_packet(self, error: symphonia::core::errors::Error) -> bool {
        self matches StreamEvent::NoPacket(fault, said) && fault == fault_kind(error) && said@
            == fault_said(error)
    }

    /// Whether this event tells that the decoder failed on a packet with
    /// `error`.
    pub open spec fn tells_undecodable(self, error: symphonia::core::errors::Error) -> bool {
        self matches StreamEvent::Undecodable(fault, said) && fault == fault_kind(error) && said@
            == fault_said(error)
    }

    /// The event of a demuxer that gave no packet and failed with `error`.
    pub fn no_packet(error: &symphonia::core::errors::Error) -> (event: StreamEvent)
        ensures
            event.tells_no_packet(*error),
    {
        StreamEvent::NoPacket(fault_of(error), describe_fault(error))
    }

    /// The event of a decoder that failed on a packet with `error`.
    pub fn undecodable(error: &symphonia::core::errors::Error) -> (event: StreamEvent)
        ensures
            event.tells_undecodable(*error),
    {
        StreamEvent::Undecodable(fault_of(error), describe_fault(error))
    }
}

/// How the reading of a stream ended.
#[derive(Clone, Copy, Debug, PartialEq, Eq, Structural)]
pub enum Ending {
    /// The stream was over, or the window's end was reached.
    Finished,
    /// The demuxer failed other than by reaching the end of the stream.
    ReadFailed,
    /// The decoder failed other than on malformed data.
    DecodeFailed,
}

/// How far the reading of a stream has come: the packets decoded so far,
/// and how the reading ended, if it has.
pub struct Hearing {
    /// The packets of the chosen track that were decoded, in their order.
    pub heard: Seq<Seq<i16>>,
    /// How the reading ended; none while it goes on.
    pub end: Option<Ending>,
}

/// The reading after one more event. A reading that has ended stays as it
/// is. Where the demuxer gave no packet the reading ends: well at the end of
/// the stream, badly otherwise. A packet of another track changes nothing.
/// A packet that could not be decoded leaves the record as it was, and ends
/// the reading badly unless its data is malformed. A decoded packet joins
/// the record, and ends the reading well where with it the stream position
/// reaches the window's end.
pub open spec fn hear_step(
    hearing: Hearing,
    event: StreamEvent,
    channels: int,
    window: Option<TrimWindow>,
) -> Hearing {
    if hearing.end is Some {
        hearing
    } else {
        match event {
            StreamEvent::NoPacket(fault, _) => Hearing {
                end: Some(
                    if read_verdict(fault) == Verdict::Fail {
                        Ending::ReadFailed
                    } else {
                        Ending::Finished
                    },
                ),
                ..hearing
            },
            StreamEvent::OtherTrack => hearing,
            StreamEvent::Undecodable(fault, _) => Hearing {
                end: if decode_verdict(fault) == Verdict::Fail {
                    Some(Ending::DecodeFailed)
                } else {
                    None
                },
                ..hearing
            },
            StreamEvent::Decoded(samples) => Hearing {
                heard: hearing.heard.push(samples@),
                end: if window matches Some(w) && position_after(
                    hearing.heard.push(samples@),
                    channels,
                ) >= w.end {
                    Some(Ending::Finished)
                } else {
                    None
                },
            },
        }
    }
}

/// The reading that a run of events makes.
pub open spec fn hearing_of(
    events: Seq<StreamEvent>,
    channels: int,
    window: Option<TrimWindow>,
) -> Hearing
    decreases events.len(),
{
    if events.len() == 0 {
        Hearing { heard: Seq::empty(), end: None }
    } else {
        hear_step(hearing_of(events.drop_last(), channels, window), events.last(), channels, window)
    }
}

/// The bytes that an encoder has produced once it has taken a run of chunks
/// one after the other, and the encoder as it stands then; none where
/// nothing is said of one of the steps.
pub open spec fn fed_state(
    first: mp3lame_encoder::Encoder,
    mono: bool,
    chunks: Seq<Seq<i16>>,
) -> Option<(Seq<u8>, mp3lame_encoder::Encoder)>
    decreases chunks.len(),
{
    if chunks.len() == 0 {
        Some((Seq::empty(), first))
    } else {
        match fed_state(first, mono, chunks.drop_last()) {
            None => None,
            Some(so_far) => match encode_step(so_far.1, mono, chunks.last()).0 {
                None => None,
                Some(more) => Some(
                    (so_far.0 + more, encode_step(so_far.1, mono, chunks.last()).1),
                ),
            },
        }
    }
}

/// The MP3 that an encoder makes of a run of chunks: what it produces as it
/// is given them one after the other, and then what it produces when it is
/// flushed, once, at the end; none where nothing is said of one of the
/// steps.
pub open spec fn mp3_of(
    first: mp3lame_encoder::Encoder,
    mono: bool,
    chunks: Seq<Seq<i16>>,
) -> Option<Seq<u8>> {
    match fed_state(first, mono, chunks) {
        None => None,
        Some(fed) => match flush_step(fed.1).0 {
            None => None,
            Some(tail) => Some(fed.0 + tail),
        },
    }
}

/// The conversion of a stream to MP3, as far as it has come: the encoder and
/// the bytes that it has produced, the window, the stream position, and a
/// record of the events taken and of what the encoder was built of.
pub struct Transcoder {
    encoder: mp3lame_encoder::Encoder,
    out: Vec<u8>,
    channels: usize,
    window: Option<TrimWindow>,
    position: u64,
    ended: bool,
    seen: Ghost<Seq<StreamEvent>>,
    set: Ghost<mp3lame_encoder::Builder>,
}

impl Transcoder {
    /// The events taken so far, in their order.
    pub closed spec fn spec_seen(&self) -> Seq<StreamEvent> {
        self.seen@
    }

    /// The number of channels of the stream.
    pub closed spec fn spec_channels(&self) -> usize {
        self.channels
    }

    /// The window, if the stream is cut to one.
    pub closed spec fn spec_window(&self) -> Option<TrimWindow> {
        self.window
    }

    /// The set of LAME settings that the encoder was built of.
    pub closed spec fn spec_builder(&self) -> mp3lame_encoder::Builder {
        self.set@
    }

    /// The reading that the events taken so far make.
    pub open spec fn hearing(&self) -> Hearing {
        hearing_of(self.spec_seen(), self.spec_channels() as int, self.spec_window())
    }

    /// The chunks that the encoder was given so far.
    pub open spec fn chunks(&self) -> Seq<Seq<i16>> {
        chunks_given(self.hearing().heard, self.spec_channels() as int, self.spec_window())
    }

    /// The encoder was built of the recorded settings, for one or two
    /// channels; the reading has not failed; and the bytes and the encoder
    /// are what the chunks given so far made of the encoder as it was built.
    pub closed spec fn wf(&self) -> bool {
        &&& 1 <= encoder_channels(self.channels) <= 2
        &&& built(self.set@) is Some
        &&& fed_state(built(self.set@)->0, is_mono(self.channels as int), self.chunks()) == Some(
            (self.out@, self.encoder),
        )
        &&& self.hearing().end is None || self.hearing().end == Some(Ending::Finished)
        &&& self.ended == (self.hearing().end is Some)
        &&& self.window is Some && !self.ended ==> self.position == position_after(
            self.hearing().heard,
            self.channels as int,
        )
    }

    /// Whether the conversion takes another event: the reading goes on.
    pub fn wants_more(&self) -> (more: bool)
        requires
            self.wf(),
        ensures
            more == (self.hearing().end is None),
    {
        !self.ended
    }

    /// Begins a conversion of a track: builds the encoder for its channels,
    /// two standing for an unknown number, at `sample_rate` and the bitrate
    /// for `kbps`.
    fn begin(track: &TrackInfo, sample_rate: u32, kbps: u32, window: Option<TrimWindow>) -> (r:
        Result<Transcoder, ConvertError>)
        ensures
            r matches Ok(transcoder) ==> {
                &&& transcoder.wf()
                &&& transcoder.spec_seen() == Seq::<StreamEvent>::empty()
                &&& transcoder.spec_channels() == channels_of(track.channels)
                &&& transcoder.spec_window() == window
                &&& settings(transcoder.spec_builder()) == settings_for(
                    channels_of(track.channels),
                    sample_rate,
                    kbps,
                )
            },
            r matches Err(e) ==> e is EncoderInit || e is Channels || e is SampleRate
                || e is BitrateSetting || e is Quality || e is Build,
    {
        let channels = track_channels(track);
        let (encoder, set) = match build_encoder(channels, sample_rate, kbps) {
            Ok(made) => made,
            Err(e) => {
                return Err(e);
            },
        };
        Ok(
            Transcoder {
                encoder,
                out: Vec::new(),
                channels,
                window,
                position: 0,
                ended: false,
                seen: Ghost(Seq::empty()),
                set,
            },
        )
    }

    /// Begins the conversion of a whole track. `decoder_failure` is the
    /// error with which no decoder could be made for the track.
    ///
    /// A track without a decoder is refused first, then one without a sample
    /// rate. Whether the encoder can be built is LAME's decision.
    pub fn whole(
        track: &TrackInfo,
        decoder_failure: Option<&symphonia::core::errors::Error>,
        kbps: u32,
    ) -> (r: Result<Transcoder, ConvertError>)
        ensures
            decoder_failure matches Some(error) ==> is_decoder_refusal(r, *error),
            decoder_failure is None && track.sample_rate is None ==> r == Err::<
                Transcoder,
                ConvertError,
            >(ConvertError::UnknownSampleRate),
            decoder_failure is None && track.sample_rate is Some ==> match r {
                Ok(transcoder) => begins(transcoder, *track, kbps, None),
                Err(e) => e is EncoderInit || e is Channels || e is SampleRate
                    || e is BitrateSetting || e is Quality || e is Build,
            },
    {
        if let Some(error) = decoder_failure {
            return Err(ConvertError::Decoder(describe_fault(error)));
        }
        match track.sample_rate {
            None => Err(ConvertError::UnknownSampleRate),
            Some(rate) => Transcoder::begin(track, rate, kbps, None),
        }
    }

    /// Begins the conversion of the frames of a track that lie inside
    /// `window`. `decoder_failure` is the error with which no decoder could
    /// be made for the track.
    ///
    /// A track without a sample rate is refused first, then one without a
    /// decoder. Whether the encoder can be built is LAME's decision.
    pub fn trimmed(
        track: &TrackInfo,
        decoder_failure: Option<&symphonia::core::errors::Error>,
        kbps: u32,
        window: TrimWindow,
    ) -> (r: Result<Transcoder, ConvertError>)
        ensures
            track.sample_rate is None ==> r == Err::<Transcoder, ConvertError>(
                ConvertError::UnknownSampleRate,
            ),
            track.sample_rate is Some ==> (decoder_failure matches Some(error)
                ==> is_decoder_refusal(r, *error)),
            decoder_failure is None && track.sample_rate is Some ==> match r {
                Ok(transcoder) => begins(transcoder, *track, kbps, Some(window)),
                Err(e) => e is EncoderInit || e is Channels || e is SampleRate
                    || e is BitrateSetting || e is Quality || e is Build,
            },
    {
        let rate = match track.sample_rate {
            None => {
                return Err(ConvertError::UnknownSampleRate);
            },
            Some(rate) => rate,
        };
        if let Some(error) = decoder_failure {
            return Err(ConvertError::Decoder(describe_fault(error)));
        }
        Transcoder::begin(track, rate, kbps, Some(window))
    }

    /// Hands the samples from `lo` up to `end` to the encoder as one chunk.
    fn encode_range(&mut self, samples: &Vec<i16>, lo: usize, end: usize) -> (r: Result<
        (),
        ConvertError,
    >)
        requires
            lo <= end <= samples@.len(),
            1 <= encoder_channels(old(self).channels) <= 2,
            !is_mono(old(self).channels as int) ==> (end - lo) % 2 == 0,
        ensures
            final(self).channels == old(self).channels,
            final(self).window == old(self).window,
            final(self).position == old(self).position,
            final(self).ended == old(self).ended,
            final(self).seen == old(self).seen,
            final(self).set == old(self).set,
            r is Ok ==> encode_step(
                old(self).encoder,
                is_mono(old(self).channels as int),
                samples@.subrange(lo as int, end as int),
            ) == (Some(final(self).out@.skip(old(self).out@.len() as int)), final(self).encoder),
            r is Ok ==> old(self).out@.is_prefix_of(final(self).out@),
            r matches Err(e) ==> e is Encode,
    {
        let part = vstd::slice::slice_subrange(samples.as_slice(), lo, end);
        let taken = if told_channels(self.channels) == 1 {
            encode_mono(&mut self.encoder, part, &mut self.out)
        } else {
            encode_interleaved(&mut self.encoder, part, &mut self.out)
        };
        match taken {
            Ok(_) => Ok(()),
            Err(error) => Err(ConvertError::Encode(describe_encode_error(&error))),
        }
    }

    /// Takes what one attempt to read and decode a packet gave, and tells
    /// whether another is wanted.
    ///
    /// A packet of another track and a packet with malformed data are passed
    /// over. Of a decoded packet the encoder is given what the window keeps,
    /// or all of it where there is no window. The reading ends at the end of
    /// the stream, and with a window as soon as the stream position reaches
    /// the window's end; what comes after the end changes nothing. Any other
    /// failure to read or to decode fails the conversion, and so does a
    /// failure of the encoder; a conversion that has failed is over.
    pub fn take(&mut self, event: &StreamEvent) -> (r: Result<bool, ConvertError>)
        requires
            old(self).wf(),
        ensures
            final(self).spec_channels() == old(self).spec_channels(),
            final(self).spec_window() == old(self).spec_window(),
            final(self).spec_builder() == old(self).spec_builder(),
            match r {
                Ok(more) => {
                    &&& final(self).wf()
                    &&& final(self).spec_seen() == old(self).spec_seen().push(*event)
                    &&& more == (final(self).hearing().end is None)
                },
                Err(error) => fails_on(old(self).hearing(), *event, error),
            },
    {
        let ghost before = self.hearing();
        let ghost events = self.seen@.push(*event);
        let ghost after = hearing_of(events, self.channels as int, self.window);
        proof {
            assert(events.drop_last() =~= self.seen@);
            assert(events.last() == *event);
            assert(after == hear_step(before, *event, self.channels as int, self.window));
        }
        if self.ended {
            self.seen = Ghost(events);
            return Ok(false);
        }
        match event {
            StreamEvent::NoPacket(fault, said) => {
                match judge_read_fault(*fault) {
                    Verdict::Fail => Err(ConvertError::ReadPacket(said.clone())),
                    _ => {
                        self.ended = true;
                        self.seen = Ghost(events);
                        Ok(false)
                    },
                }
            },
            StreamEvent::OtherTrack => {
                self.seen = Ghost(events);
                Ok(true)
            },
            StreamEvent::Undecodable(fault, said) => {
                match judge_decode_fault(*fault) {
                    Verdict::Fail => Err(ConvertError::Decode(said.clone())),
                    _ => {
                        self.seen = Ghost(events);
                        Ok(true)
                    },
                }
            },
            StreamEvent::Decoded(samples) => {
                let ghost given = self.chunks();
                let ghost held = self.out@;
                proof {
                    lemma_position_grows(before.heard, samples@, self.channels as int);
                    assert(after.heard.drop_last() =~= before.heard);
                    assert(after.heard.last() == samples@);
                    assert(samples@.subrange(0, samples@.len() as int) =~= samples@);
                }
                match self.window {
                    None => {
                        let end = chunk_end(0, samples.len(), self.channels);
                        self.encode_range(samples, 0, end)?;
                        proof {
                            let chunk = samples@.subrange(0, end as int);
                            assert(chunk =~= shaped(samples@, self.channels as int));
                            assert(self.out@ =~= held + self.out@.skip(held.len() as int));
                            assert(chunks_given(after.heard, self.channels as int, self.window)
                                =~= given.push(chunk));
                            assert(given.push(chunk).drop_last() =~= given);
                        }
                        self.seen = Ghost(events);
                        Ok(true)
                    },
                    Some(window) => {
                        let clip = clip_packet(self.position, samples.len(), self.channels, window);
                        let end = chunk_end(clip.lo, clip.hi, self.channels);
                        let ghost chunk = samples@.subrange(clip.lo as int, end as int);
                        proof {
                            assert(chunk =~= given_of(
                                self.position as int,
                                samples@,
                                self.channels as int,
                                Some(window),
                            ));
                        }
                        if clip.lo < end {
                            self.encode_range(samples, clip.lo, end)?;
                            proof {
                                assert(self.out@ =~= held + self.out@.skip(held.len() as int));
                                assert(chunks_given(
                                    after.heard,
                                    self.channels as int,
                                    self.window,
                                ) =~= given.push(chunk));
                                assert(given.push(chunk).drop_last() =~= given);
                            }
                        }
                        self.position = clip.next_position;
                        self.ended = clip.done;
                        self.seen = Ghost(events);
                        Ok(!clip.done)
                    },
                }
            },
        }
    }

    /// Flushes the encoder and hands out the MP3: what the encoder, as it
    /// was built, makes of the chunks that it was given.
    pub fn finish(self) -> (r: Result<Vec<u8>, ConvertError>)
        requires
            self.wf(),
        ensures
            r matches Ok(mp3) ==> built(self.spec_builder()) is Some && mp3_of(
                built(self.spec_builder())->0,
                is_mono(self.spec_channels() as int),
                self.chunks(),
            ) == Some(mp3@),
            r matches Err(e) ==> e is Flush,
    {
        let mut encoder = self.encoder;
        let mut out = self.out;
        let ghost held = out@;
        match flush_no_gap(&mut encoder, &mut out) {
            Ok(_) => {
                proof {
                    assert(out@ =~= held + out@.skip(held.len() as int));
                }
                Ok(out)
            },
            Err(error) => Err(ConvertError::Flush(describe_encode_error(&error))),
        }
    }
}

/// Whether `r` is the refusal of a track for which no decoder could be
/// made: it holds what the error says.
pub open spec fn is_decoder_refusal<T>(
    r: Result<T, ConvertError>,
    error: symphonia::core::errors::Error,
) -> bool {
    r matches Err(ConvertError::Decoder(said)) && said@ == fault_said(error)
}

/// Whether a conversion has just begun for a track: nothing is taken yet,
/// the channels are the track's, two standing for an unknown number, and the
/// encoder was built of the settings for the track.
pub open spec fn begins(
    transcoder: Transcoder,
    track: TrackInfo,
    kbps: u32,
    window: Option<TrimWindow>,
) -> bool {
    &&& transcoder.wf()
    &&& transcoder.spec_seen() == Seq::<StreamEvent>::empty()
    &&& transcoder.spec_channels() == channels_of(track.channels)
    &&& transcoder.spec_window() == window
    &&& track.sample_rate is Some
    &&& settings(transcoder.spec_builder()) == settings_for(
        channels_of(track.channels),
        track.sample_rate->0,
        kbps,
    )
}

/// What a failure says of the event that it came on: a failure to read is
/// owed to a demuxer that gave no packet for another reason than the end of
/// the stream, a failure to decode to a packet that could not be decoded for
/// another reason than malformed data, and each holds what was said. Of a
/// failure of the encoder nothing is said.
pub open spec fn fails_on(hearing: Hearing, event: StreamEvent, error: ConvertError) -> bool {
    &&& hearing.end is None
    &&& match error {
        ConvertError::ReadPacket(said) => event == StreamEvent::NoPacket(event->NoPacket_0, said)
            && read_verdict(event->NoPacket_0) == Verdict::Fail,
        ConvertError::Decode(said) => event == StreamEvent::Undecodable(
            event->Undecodable_0,
            said,
        ) && decode_verdict(event->Undecodable_0) == Verdict::Fail,
        ConvertError::Encode(_) => event is Decoded,
        _ => false,
    }
}

proof fn lemma_position_grows(before: Seq<Seq<i16>>, packet: Seq<i16>, channels: int)
    ensures
        position_after(before.push(packet), channels) == position_after(before, channels)
            + packet.len() / (channels as nat),
{
    let all = before.push(packet);
    assert(all.drop_last() =~= before);
    assert(all.last() == packet);
}

proof fn lemma_even_multiple(m: int, c: int)
    requires
        c % 2 == 0,
    ensures
        (m * c) % 2 == 0,
{
    let d = c / 2;
    assert(m * c == (m * d) * 2) by (nonlinear_arith)
        requires
            c == 2 * d,
    ;
    vstd::arithmetic::div_mod::lemma_mod_multiples_basic(m * d, 2);
}

impl Transcoder {
    /// A conversion that stands has not failed: its encoder was built, and
    /// its reading goes on or has come to a good end.
    pub proof fn a_conversion_has_not_failed(&self)
        requires
            self.wf(),
        ensures
            built(self.spec_builder()) is Some,
            1 <= encoder_channels(self.spec_channels()) <= 2,
            self.hearing().end is None || self.hearing().end == Some(Ending::Finished),
    {
    }
}

/// Whether `mp3` is the conversion of a track, of which `events` tell what
/// reading and decoding gave, with an encoder built of `builder`: the
/// settings are those for the track, two channels standing for an unknown
/// number; the reading did not fail; and the bytes are the MP3 that the
/// encoder makes of the chunks of what was decoded.
pub open spec fn is_conversion(
    track: TrackInfo,
    kbps: u32,
    window: Option<TrimWindow>,
    events: Seq<StreamEvent>,
    builder: mp3lame_encoder::Builder,
    mp3: Seq<u8>,
) -> bool {
    let channels = channels_of(track.channels);
    let hearing = hearing_of(events, channels as int, window);
    &&& track.sample_rate is Some
    &&& settings(builder) == settings_for(channels, track.sample_rate->0, kbps)
    &&& built(builder) is Some
    &&& hearing.end is None || hearing.end == Some(Ending::Finished)
    &&& mp3_of(
        built(builder)->0,
        is_mono(channels as int),
        chunks_given(hearing.heard, channels as int, window),
    ) == Some(mp3)
}

/// Whether a conversion fails with `error` on the event at `place`: the
/// reading had not ended before it, and the failure is owed to that event.
pub open spec fn fails_at(
    events: Seq<StreamEvent>,
    channels: int,
    window: Option<TrimWindow>,
    place: int,
    error: ConvertError,
) -> bool {
    &&& 0 <= place < events.len()
    &&& fails_on(hearing_of(events.take(place), channels, window), events[place], error)
}

/// Whether `r` is an outcome of converting a track that has a decoder and a
/// sample rate. Bytes are the conversion with some encoder built for the
/// track. A failure is LAME's, in setting up, encoding or flushing, or it is
/// owed to the first event that ends the reading badly.
pub open spec fn is_outcome(
    track: TrackInfo,
    kbps: u32,
    window: Option<TrimWindow>,
    events: Seq<StreamEvent>,
    r: Result<Vec<u8>, ConvertError>,
) -> bool {
    match r {
        Ok(mp3) => exists|builder: mp3lame_encoder::Builder| #[trigger]
            is_conversion(track, kbps, window, events, builder, mp3@),
        Err(error) => error is EncoderInit || error is Channels || error is SampleRate
            || error is BitrateSetting || error is Quality || error is Build || error is Flush
            || exists|place: int| #[trigger]
            fails_at(events, channels_of(track.channels) as int, window, place, error),
    }
}

/// Runs a conversion that has just begun over a run of events and finishes
/// it.
fn feed_all(transcoder: Transcoder, events: &Vec<StreamEvent>) -> (r: Result<Vec<u8>, ConvertError>)
    requires
        transcoder.wf(),
        transcoder.spec_seen() == Seq::<StreamEvent>::empty(),
    ensures
        match r {
            Ok(mp3) => {
                let hearing = hearing_of(
                    events@,
                    transcoder.spec_channels() as int,
                    transcoder.spec_window(),
                );
                &&& hearing.end is None || hearing.end == Some(Ending::Finished)
                &&& mp3_of(
                    built(transcoder.spec_builder())->0,
                    is_mono(transcoder.spec_channels() as int),
                    chunks_given(
                        hearing.heard,
                        transcoder.spec_channels() as int,
                        transcoder.spec_window(),
                    ),
                ) == Some(mp3@)
            },
            Err(error) => error is Flush || exists|place: int| #[trigger]
                fails_at(
                    events@,
                    transcoder.spec_channels() as int,
                    transcoder.spec_window(),
                    place,
                    error,
                ),
        },
{
    let mut running = transcoder;
    let mut i: usize = 0;
    proof {
        assert(events@.take(0) =~= Seq::<StreamEvent>::empty());
    }
    while i < events.len()
        invariant
            i <= events@.len(),
            running.wf(),
            running.spec_seen() == events@.take(i as int),
            running.spec_channels() == transcoder.spec_channels(),
            running.spec_window() == transcoder.spec_window(),
            running.spec_builder() == transcoder.spec_builder(),
        decreases events@.len() - i,
    {
        if let Err(error) = running.take(&events[i]) {
            proof {
                assert(fails_at(
                    events@,
                    transcoder.spec_channels() as int,
                    transcoder.spec_window(),
                    i as int,
                    error,
                ));
            }
            return Err(error);
        }
        proof {
            assert(events@.take(i + 1) =~= events@.take(i as int).push(events@[i as int]));
        }
        i += 1;
    }
    proof {
        assert(events@.take(i as int) =~= events@);
    }
    running.finish()
}

/// Begins a conversion for a track with a decoder and a sample rate, runs it
/// over the events and finishes it.
fn convert(
    track: &TrackInfo,
    sample_rate: u32,
    kbps: u32,
    window: Option<TrimWindow>,
    events: &Vec<StreamEvent>,
) -> (r: Result<Vec<u8>, ConvertError>)
    requires
        track.sample_rate == Some(sample_rate),
    ensures
        is_outcome(*track, kbps, window, events@, r),
{
    let transcoder = match Transcoder::begin(track, sample_rate, kbps, window) {
        Ok(transcoder) => transcoder,
        Err(error) => {
            return Err(error);
        },
    };
    let converted = feed_all(transcoder, events);
    proof {
        if converted is Ok {
            assert(is_conversion(
                *track,
                kbps,
                window,
                events@,
                transcoder.spec_builder(),
                converted->Ok_0@,
            ));
        }
    }
    converted
}

/// Converts a track to MP3 at the bitrate for `bitrate_kbps` and returns the
/// encoded bytes: what the encoder makes of every decoded packet, one after
/// the other, and of the flush at the end. `events` tell what every attempt
/// to read and decode a packet gave, in their order; `decoder_failure` is
/// the error with which no decoder could be made for the track.
///
/// A track without a decoder is refused first, then one without a sample
/// rate. What the events and the encoder then do decides the rest.
pub fn convert_to_mp3(
    track: &TrackInfo,
    decoder_failure: Option<&symphonia::core::errors::Error>,
    events: &Vec<StreamEvent>,
    bitrate_kbps: u32,
) -> (r: Result<Vec<u8>, ConvertError>)
    ensures
        decoder_failure matches Some(error) ==> is_decoder_refusal(r, *error),
        decoder_failure is None && track.sample_rate is None ==> r == Err::<
            Vec<u8>,
            ConvertError,
        >(ConvertError::UnknownSampleRate),
        decoder_failure is None && track.sample_rate is Some ==> is_outcome(
            *track,
            bitrate_kbps,
            None,
            events@,
            r,
        ),
{
    if let Some(error) = decoder_failure {
        return Err(ConvertError::Decoder(describe_fault(error)));
    }
    match track.sample_rate {
        None => Err(ConvertError::UnknownSampleRate),
        Some(rate) => convert(track, rate, bitrate_kbps, None, events),
    }
}

/// Converts the frames of a track that lie inside `window` to MP3 at the
/// bitrate for `bitrate_kbps` and returns the encoded bytes. Packets before
/// the window are decoded and dropped; once the stream position reaches the
/// window's end nothing more is taken. `events` tell what every attempt to
/// read and decode a packet gave, in their order; `decoder_failure` is the
/// error with which no decoder could be made for the track.
///
/// A track without a sample rate is refused first, then one without a
/// decoder. What the events and the encoder then do decides the rest.
pub fn convert_to_mp3_trimmed(
    track: &TrackInfo,
    decoder_failure: Option<&symphonia::core::errors::Error>,
    events: &Vec<StreamEvent>,
    bitrate_kbps: u32,
    window: TrimWindow,
) -> (r: Result<Vec<u8>, ConvertError>)
    ensures
        track.sample_rate is None ==> r == Err::<Vec<u8>, ConvertError>(
            ConvertError::UnknownSampleRate,
        ),
        track.sample_rate is Some ==> (decoder_failure matches Some(error)
            ==> is_decoder_refusal(r, *error)),
        decoder_failure is None && track.sample_rate is Some ==> is_outcome(
            *track,
            bitrate_kbps,
            Some(window),
            events@,
            r,
        ),
{
    let rate = match track.sample_rate {
        None => {
            return Err(ConvertError::UnknownSampleRate);
        },
        Some(rate) => rate,
    };
    if let Some(error) = decoder_failure {
        return Err(ConvertError::Decoder(describe_fault(error)));
    }
    convert(track, rate, bitrate_kbps, Some(window), events)
}

/// Whether the decoding of a run of packets stopped where the window ends:
/// before every packet but the first, the stream position had not yet
/// reached the window's end.
pub open spec fn stops_at_end(
    packets: Seq<Seq<i16>>,
    channels: int,
    window: Option<TrimWindow>,
) -> bool {
    match window {
        None => true,
        Some(window) => forall|k: int|
            0 < k < packets.len() ==> position_after(#[trigger] packets.take(k), channels)
                < window.end,
    }
}

proof fn lemma_given_of_whole_packet(
    position: int,
    packet: Seq<i16>,
    channels: int,
    window: TrimWindow,
)
    requires
        channels > 0,
        is_mono(channels) || channels % 2 == 0,
        position >= 0,
        packet.len() % (channels as nat) == 0,
    ensures
        given_of(position, packet, channels, Some(window)) == window_at(
            packet,
            position,
            channels,
            window,
        ),
{
    let n = packet.len() as int;
    let q = n / channels;
    assert(n == q * channels) by {
        vstd::arithmetic::div_mod::lemma_fundamental_div_mod(n, channels);
        assert(channels * q == q * channels) by (nonlinear_arith);
    }
    let s = (window.start - position) * channels;
    let e = (window.end - position) * channels;
    lemma_scale_order(window.start - position, q, channels);
    lemma_scale_order(window.start - position, 0, channels);
    lemma_scale_order(window.end - position, q, channels);
    lemma_scale_order(window.end - position, 0, channels);
    lemma_scale_order(window.start - position, window.end - position, channels);
    assert((position + q - window.end) * channels == n - e) by (nonlinear_arith)
        requires
            e == (window.end - position) * channels,
            n == q * channels,
    ;
    let kept = kept_of(position, packet, channels, window);
    assert(kept =~= window_at(packet, position, channels, window));
    if !is_mono(channels) {
        lemma_even_multiple(window.start - position, channels);
        lemma_even_multiple(window.end - position, channels);
        lemma_even_multiple(q, channels);
        assert(kept.len() == held(e, n) - held(s, n) || kept.len() == 0);
        assert(kept.len() % 2 == 0);
        assert(pairs_of(kept) =~= kept);
    }
}

/// What the encoder is given of a stream with a window is exactly the
/// samples of the signal that lie inside the window, wherever the packet
/// boundaries fall, as long as every packet holds whole frames and the
/// input is mono or its number of channels is even.
pub proof fn given_is_the_window(packets: Seq<Seq<i16>>, channels: int, window: TrimWindow)
    requires
        channels > 0,
        is_mono(channels) || channels % 2 == 0,
        whole_frames(packets, channels),
    ensures
        given(packets, channels, Some(window)) == window_of(packets.flatten(), channels, window),
        position_after(packets, channels) * channels == packets.flatten().len(),
    decreases packets.len(),
{
    if packets.len() == 0 {
        assert(packets.flatten() =~= Seq::<i16>::empty());
        assert(0 * channels == 0);
    } else {
        let front = packets.drop_last();
        let last = packets.last();
        assert(last == packets[packets.len() - 1]);
        assert(whole_frames(front, channels)) by {
            assert forall|i: int| 0 <= i < front.len() implies (#[trigger] front[i]).len() % (
            channels as nat) == 0 by {
                assert(front[i] == packets[i]);
            }
        }
        given_is_the_window(front, channels, window);
        packets.lemma_flatten_and_flatten_alt_are_equivalent();
        front.lemma_flatten_and_flatten_alt_are_equivalent();
        let head = front.flatten();
        let total = packets.flatten();
        assert(total =~= head + last);
        let position = position_after(front, channels);
        let n = last.len() as int;
        let q = n / channels;
        assert(n == q * channels) by {
            vstd::arithmetic::div_mod::lemma_fundamental_div_mod(n, channels);
            assert(channels * q == q * channels) by (nonlinear_arith);
        }
        assert((position + q) * channels == position * channels + q * channels)
            by (nonlinear_arith);
        assert(position >= 0) by (nonlinear_arith)
            requires
                position * channels == head.len(),
                channels > 0,
        ;
        lemma_given_of_whole_packet(position, last, channels, window);
        lemma_scale_order(window.start as int, position, channels);
        lemma_scale_order(window.end as int, position, channels);
        assert((window.start - 0) * channels == window.start * channels);
        assert((window.end - 0) * channels == window.end * channels);
        let piece = window_at(last, position, channels, window);
        assert(window_at(total, 0, channels, window) =~= window_at(head, 0, channels, window)
            + piece);
    }
}

/// The chunks that the encoder is given, put together in their order, are
/// what `given` says.
pub proof fn chunks_make_what_is_given(
    packets: Seq<Seq<i16>>,
    channels: int,
    window: Option<TrimWindow>,
)
    ensures
        chunks_given(packets, channels, window).flatten() == given(packets, channels, window),
    decreases packets.len(),
{
    if packets.len() == 0 {
        assert(Seq::<Seq<i16>>::empty().flatten() =~= Seq::<i16>::empty());
    } else {
        let front = packets.drop_last();
        chunks_make_what_is_given(front, channels, window);
        let before = chunks_given(front, channels, window);
        let chunk = given_of(position_after(front, channels), packets.last(), channels, window);
        before.lemma_flatten_push(chunk);
        assert(given(front, channels, window) + Seq::<i16>::empty() =~= given(
            front,
            channels,
            window,
        ));
    }
}

/// Without a window the encoder is given every decoded packet, in the order
/// in which they were decoded, each as the encoder takes it.
pub proof fn without_a_window_every_packet_is_given(packets: Seq<Seq<i16>>, channels: int)
    ensures
        chunks_given(packets, channels, None).len() == packets.len(),
        forall|i: int|
            0 <= i < packets.len() ==> (#[trigger] chunks_given(packets, channels, None)[i])
                == shaped(packets[i], channels),
    decreases packets.len(),
{
    if packets.len() > 0 {
        let front = packets.drop_last();
        without_a_window_every_packet_is_given(front, channels);
        assert forall|i: int| 0 <= i < packets.len() implies (#[trigger] chunks_given(
            packets,
            channels,
            None,
        )[i]) == shaped(packets[i], channels) by {
            if i < front.len() {
                assert(front[i] == packets[i]);
            }
        }
    }
}

/// Without a window the encoder is given the whole signal, as long as the
/// input is mono or every packet holds an even number of samples.
pub proof fn without_a_window_the_whole_signal_is_given(packets: Seq<Seq<i16>>, channels: int)
    requires
        is_mono(channels) || forall|i: int|
            0 <= i < packets.len() ==> (#[trigger] packets[i]).len() % 2 == 0,
    ensures
        chunks_given(packets, channels, None).flatten() == packets.flatten(),
    decreases packets.len(),
{
    if packets.len() == 0 {
        assert(chunks_given(packets, channels, None) =~= packets);
    } else {
        let front = packets.drop_last();
        let last = packets.last();
        assert(last == packets[packets.len() - 1]);
        assert forall|i: int| 0 <= i < front.len() implies (#[trigger] front[i]).len() % 2
            == 0 || is_mono(channels) by {
            assert(front[i] == packets[i]);
        }
        without_a_window_the_whole_signal_is_given(front, channels);
        assert(shaped(last, channels) =~= last);
        chunks_given(front, channels, None).lemma_flatten_push(last);
        front.lemma_flatten_push(last);
        assert(front.push(last) =~= packets);
    }
}

/// With a window, two ways of cutting one signal into packets of whole
/// frames hand the encoder the same samples, as long as the input is mono or
/// its number of channels is even.
pub proof fn what_is_given_ignores_packet_boundaries(
    one: Seq<Seq<i16>>,
    other: Seq<Seq<i16>>,
    channels: int,
    window: TrimWindow,
)
    requires
        channels > 0,
        is_mono(channels) || channels % 2 == 0,
        whole_frames(one, channels),
        whole_frames(other, channels),
        one.flatten() == other.flatten(),
    ensures
        chunks_given(one, channels, Some(window)).flatten() == chunks_given(
            other,
            channels,
            Some(window),
        ).flatten(),
{
    chunks_make_what_is_given(one, channels, Some(window));
    chunks_make_what_is_given(other, channels, Some(window));
    given_is_the_window(one, channels, window);
    given_is_the_window(other, channels, window);
}

/// With a window the encoder is never given an empty chunk.
pub proof fn with_a_window_no_chunk_is_empty(
    packets: Seq<Seq<i16>>,
    channels: int,
    window: TrimWindow,
)
    ensures
        forall|i: int|
            0 <= i < chunks_given(packets, channels, Some(window)).len() ==> (
            #[trigger] chunks_given(packets, channels, Some(window))[i]).len() > 0,
    decreases packets.len(),
{
    if packets.len() > 0 {
        let front = packets.drop_last();
        with_a_window_no_chunk_is_empty(front, channels, window);
        let before = chunks_given(front, channels, Some(window));
        let all = chunks_given(packets, channels, Some(window));
        assert forall|i: int| 0 <= i < all.len() implies (#[trigger] all[i]).len() > 0 by {
            if i < before.len() {
                assert(all[i] == before[i]);
            }
        }
    }
}

/// With a window, and with packets of whole frames of mono input or of an
/// even number of channels, the chunks that the encoder is given make up
/// exactly the samples of the signal that lie inside the window, wherever
/// the packet boundaries fall; where the signal is `frames` frames long
/// these are the frames from the window's start to its end, as far as the
/// signal reaches.
pub proof fn the_encoder_is_given_the_window(
    packets: Seq<Seq<i16>>,
    frames: int,
    channels: int,
    window: TrimWindow,
)
    requires
        channels > 0,
        is_mono(channels) || channels % 2 == 0,
        whole_frames(packets, channels),
        packets.flatten().len() == frames * channels,
        window.start <= window.end,
    ensures
        chunks_given(packets, channels, Some(window)).flatten() == window_of(
            packets.flatten(),
            channels,
            window,
        ),
        chunks_given(packets, channels, Some(window)).flatten().len() == (held(
            window.end as int,
            frames,
        ) - held(window.start as int, frames)) * channels,
{
    chunks_make_what_is_given(packets, channels, Some(window));
    given_is_the_window(packets, channels, window);
    crate::trim::window_length(packets.flatten(), frames, channels, window);
}

/// With packets of whole frames of mono input or of an even number of
/// channels, the chunks that the encoder is given make up the trimmed
/// signal: what is kept of the packets one after the other.
pub proof fn the_encoder_is_given_the_trimmed_signal(
    packets: Seq<Seq<i16>>,
    channels: int,
    window: TrimWindow,
)
    requires
        channels > 0,
        is_mono(channels) || channels % 2 == 0,
        whole_frames(packets, channels),
    ensures
        chunks_given(packets, channels, Some(window)).flatten() == trimmed(
            packets,
            channels,
            window,
        ),
{
    chunks_make_what_is_given(packets, channels, Some(window));
    given_is_the_window(packets, channels, window);
    crate::trim::trim_is_window(packets, channels, window);
}

proof fn lemma_reading_stays_within(events: Seq<StreamEvent>, channels: int, window: TrimWindow)
    ensures
        stops_at_end(hearing_of(events, channels, Some(window)).heard, channels, Some(window)),
        hearing_of(events, channels, Some(window)).end is None ==> forall|k: int|
            0 < k <= hearing_of(events, channels, Some(window)).heard.len() ==> position_after(
                #[trigger] hearing_of(events, channels, Some(window)).heard.take(k),
                channels,
            ) < window.end,
    decreases events.len(),
{
    if events.len() > 0 {
        let before = hearing_of(events.drop_last(), channels, Some(window));
        let after = hearing_of(events, channels, Some(window));
        lemma_reading_stays_within(events.drop_last(), channels, window);
        assert(after == hear_step(before, events.last(), channels, Some(window)));
        if after.heard.len() == before.heard.len() + 1 {
            assert(before.end is None);
            assert(after.heard.drop_last() =~= before.heard);
            assert forall|k: int| 0 < k < after.heard.len() implies position_after(
                #[trigger] after.heard.take(k),
                channels,
            ) < window.end by {
                assert(after.heard.take(k) =~= before.heard.take(k));
            }
            assert(after.heard.take(after.heard.len() as int) =~= after.heard);
        }
    }
}

/// No packet is taken once the stream position has reached the window's
/// end: before every packet of the record but the first, the position was
/// short of it.
pub proof fn reading_stops_at_the_end(
    events: Seq<StreamEvent>,
    channels: int,
    window: TrimWindow,
)
    ensures
        stops_at_end(hearing_of(events, channels, Some(window)).heard, channels, Some(window)),
{
    lemma_reading_stays_within(events, channels, window);
}

/// A reading that has ended stays as it is, whatever events follow: nothing
/// is taken after the end.
pub proof fn nothing_is_read_after_the_end(
    events: Seq<StreamEvent>,
    more: Seq<StreamEvent>,
    channels: int,
    window: Option<TrimWindow>,
)
    requires
        hearing_of(events, channels, window).end is Some,
    ensures
        hearing_of(events + more, channels, window) == hearing_of(events, channels, window),
    decreases more.len(),
{
    if more.len() == 0 {
        assert(events + more =~= events);
    } else {
        nothing_is_read_after_the_end(events, more.drop_last(), channels, window);
        assert((events + more).drop_last() =~= events + more.drop_last());
        assert((events + more).last() == more.last());
    }
}

/// A packet whose data is malformed is passed over: the record of decoded
/// packets, and with it the stream position, is as it was, and the reading
/// goes on. So is a packet of another track.
pub proof fn a_malformed_packet_is_passed_over(
    hearing: Hearing,
    said: String,
    channels: int,
    window: Option<TrimWindow>,
)
    ensures
        hear_step(
            hearing,
            StreamEvent::Undecodable(StreamFault::Malformed, said),
            channels,
            window,
        ) == hearing,
        hear_step(hearing, StreamEvent::OtherTrack, channels, window) == hearing,
{
}

} // verus!
