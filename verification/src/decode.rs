//! What the library reads of a probed media file: its tracks, the track
//! that is decoded, and the kinds of failure of the stream.
//!
//! Probing, reading packets and decoding are symphonia's work on bytes that
//! nobody vouches for, and are done by the caller. The library reads the
//! track list of what the caller has probed, chooses the track, and tells
//! the kind of a failure.

use vstd::prelude::*;
use vstd::string::StringExecFns;

verus! {

/// symphonia's result of probing a stream: the demuxer of the container
/// that was recognised. Opaque here.
#[verifier::external_type_specification]
#[verifier::external_body]
pub struct ExProbeResult(symphonia::core::probe::ProbeResult);

/// symphonia's error type. Opaque here.
#[verifier::external_type_specification]
#[verifier::external_body]
pub struct ExStreamError(symphonia::core::errors::Error);

/// What the library reads of one track of a container.
#[derive(Clone, Copy, Debug)]
pub struct TrackInfo {
    /// The identifier that the track's packets carry.
    pub id: u32,
    /// Whether the track names a codec other than the null placeholder.
    pub has_codec: bool,
    /// The sample rate in Hz, where the container states one.
    pub sample_rate: Option<u32>,
    /// The number of channels, where the container states them.
    pub channels: Option<usize>,
}

/// The kinds of failure that symphonia reports while demuxing or decoding.
#[derive(Clone, Copy, Debug, PartialEq, Eq, Structural)]
pub enum StreamFault {
    /// The stream ended: an I/O error of the kind "unexpected end of file".
    EndOfStream,
    /// Any other I/O error.
    Io,
    /// Malformed data in the stream.
    Malformed,
    /// A failed seek.
    Seek,
    /// A feature of the container or codec that is not supported.
    Unsupported,
    /// A limit was reached.
    Limit,
    /// The decoder must be reset before it can go on.
    ResetRequired,
}

/// Why a media file could not be opened.
#[derive(Debug)]
pub enum OpenError {
    /// No container format was recognised; holds symphonia's description.
    Probe(String),
    /// The container has no track with a codec.
    NoTrack,
}

/// What a user is told of a media file that could not be opened.
pub open spec fn open_failure_text(error: OpenError) -> Seq<char> {
    match error {
        OpenError::Probe(said) => "Failed to probe audio format: "@ + said@,
        OpenError::NoTrack => "No audio track found"@,
    }
}

impl OpenError {
    /// What a user is told of this failure.
    pub fn message(&self) -> (text: String)
        ensures
            text@ == open_failure_text(*self),
    {
        match self {
            OpenError::Probe(said) => String::from_str("Failed to probe audio format: ").concat(
                said.as_str(),
            ),
            OpenError::NoTrack => String::from_str("No audio track found"),
        }
    }
}

/// The tracks of a probed container, in the container's order.
pub uninterp spec fn stream_tracks(probed: symphonia::core::probe::ProbeResult) -> Seq<TrackInfo>;

/// The length of `FormatReader::tracks`.
#[verifier::external_body]
fn track_count(probed: &symphonia::core::probe::ProbeResult) -> (n: usize)
    ensures
        n == stream_tracks(*probed).len(),
{
    probed.format.tracks().len()
}

/// One entry of `FormatReader::tracks`, field by field: the id, whether the
/// codec differs from `CODEC_TYPE_NULL`, the sample rate, and the count of
/// the channel mask.
#[verifier::external_body]
fn track_info(probed: &symphonia::core::probe::ProbeResult, index: usize) -> (t: TrackInfo)
    requires
        index < stream_tracks(*probed).len(),
    ensures
        t == stream_tracks(*probed)[index as int],
{
    let track = &probed.format.tracks()[index];
    TrackInfo {
        id: track.id,
        has_codec: track.codec_params.codec != symphonia::core::codecs::CODEC_TYPE_NULL,
        sample_rate: track.codec_params.sample_rate,
        channels: track.codec_params.channels.map(|c| c.count()),
    }
}

/// What symphonia says of an error: its `Display` text.
pub uninterp spec fn fault_said(error: symphonia::core::errors::Error) -> Seq<char>;

/// symphonia's `Display` text of an error.
#[verifier::external_body]
pub(crate) fn describe_fault(error: &symphonia::core::errors::Error) -> (text: String)
    ensures
        text@ == fault_said(*error),
{
    format!("{}", error)
}

/// The kind of a symphonia error: its variant, with an I/O error whose kind
/// is `UnexpectedEof` told apart as the end of the stream.
pub uninterp spec fn fault_kind(error: symphonia::core::errors::Error) -> StreamFault;

/// The variant of a symphonia error, one arm each; an I/O error whose kind
/// is `UnexpectedEof` is told apart as the end of the stream.
#[verifier::external_body]
pub(crate) fn fault_of(error: &symphonia::core::errors::Error) -> (fault: StreamFault)
    ensures
        fault == fault_kind(*error),
{
    match error {
        symphonia::core::errors::Error::IoError(io) => {
            if io.kind() == std::io::ErrorKind::UnexpectedEof {
                StreamFault::EndOfStream
            } else {
                StreamFault::Io
            }
        },
        symphonia::core::errors::Error::DecodeError(_) => StreamFault::Malformed,
        symphonia::core::errors::Error::SeekError(_) => StreamFault::Seek,
        symphonia::core::errors::Error::Unsupported(_) => StreamFault::Unsupported,
        symphonia::core::errors::Error::LimitError(_) => StreamFault::Limit,
        symphonia::core::errors::Error::ResetRequired => StreamFault::ResetRequired,
    }
}

/// Whether `index` is the first track of `tracks` that has a codec.
pub open spec fn is_first_coded(tracks: Seq<TrackInfo>, index: int) -> bool {
    &&& 0 <= index < tracks.len()
    &&& tracks[index].has_codec
    &&& forall|j: int| 0 <= j < index ==> !(#[trigger] tracks[j]).has_codec
}

/// Whether no track of `tracks` has a codec.
pub open spec fn none_coded(tracks: Seq<TrackInfo>) -> bool {
    forall|j: int| 0 <= j < tracks.len() ==> !(#[trigger] tracks[j]).has_codec
}

/// Finds the first track that has a codec.
pub fn select_track(tracks: &Vec<TrackInfo>) -> (choice: Option<usize>)
    ensures
        match choice {
            Some(index) => is_first_coded(tracks@, index as int),
            None => none_coded(tracks@),
        },
{
    let mut index: usize = 0;
    while index < tracks.len()
        invariant
            index <= tracks.len(),
            forall|j: int| 0 <= j < index ==> !(#[trigger] tracks@[j]).has_codec,
        decreases tracks.len() - index,
    {
        if tracks[index].has_codec {
            return Some(index);
        }
        index += 1;
    }
    None
}

/// Reads the track list of a probed container.
pub fn list_tracks(probed: &symphonia::core::probe::ProbeResult) -> (tracks: Vec<TrackInfo>)
    ensures
        tracks@ == stream_tracks(*probed),
{
    let count = track_count(probed);
    let mut tracks: Vec<TrackInfo> = Vec::new();
    let mut index: usize = 0;
    while index < count
        invariant
            count == stream_tracks(*probed).len(),
            index <= count,
            tracks@ == stream_tracks(*probed).subrange(0, index as int),
        decreases count - index,
    {
        let info = track_info(probed, index);
        tracks.push(info);
        index += 1;
        assert(tracks@ =~= stream_tracks(*probed).subrange(0, index as int));
    }
    assert(tracks@ =~= stream_tracks(*probed));
    tracks
}

/// Chooses the track of a probed container that is decoded: the first that
/// has a codec. A container none of whose tracks has one is refused.
pub fn choose_track(probed: &symphonia::core::probe::ProbeResult) -> (r: Result<
    (usize, TrackInfo),
    OpenError,
>)
    ensures
        match r {
            Ok(chosen) => is_first_coded(stream_tracks(*probed), chosen.0 as int) && chosen.1
                == stream_tracks(*probed)[chosen.0 as int],
            Err(error) => none_coded(stream_tracks(*probed)) && error == OpenError::NoTrack,
        },
{
    let tracks = list_tracks(probed);
    match select_track(&tracks) {
        Some(index) => Ok((index, tracks[index])),
        None => Err(OpenError::NoTrack),
    }
}

/// The refusal of a file in which the probe found no container.
pub fn probe_refusal(error: &symphonia::core::errors::Error) -> (refusal: OpenError)
    ensures
        refusal matches OpenError::Probe(said) && said@ == fault_said(*error),
{
    OpenError::Probe(describe_fault(error))
}

} // verus!
