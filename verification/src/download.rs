//! What a download needs around the audio: which addresses are taken, how
//! a piece is named, how a failure is told, and the identifiers of the queue.

use crate::text::{
    chars_of, contains, occurs_at, occurs_in, starts_with, text_of, trim, trimmed,
};
use crate::title::{cleaned, parse_artist_title, split_names};
use vstd::prelude::*;
use vstd::string::StringExecFns;

verus! {

/// The number of characters of an identifier of the queue.
pub const ID_LENGTH: usize = 8;

/// The number of characters of a UUID written with hyphens.
pub const UUID_LENGTH: usize = 36;

/// Why a download failed, with what the failing part said.
#[derive(Debug)]
pub enum DownloadError {
    /// The network failed.
    NetworkError(String),
    /// The address is none that can be downloaded.
    InvalidUrl(String),
    /// A file could not be read or written.
    FileError(String),
    /// The audio could not be converted.
    ConversionError(String),
    /// The download was cancelled.
    Cancelled,
    /// Anything else.
    Unknown(String),
}

/// What a user is told of a failed download.
pub open spec fn failure_text(error: DownloadError) -> Seq<char> {
    match error {
        DownloadError::NetworkError(said) => "Network error: "@ + said@
            + ". Check your internet connection."@,
        DownloadError::InvalidUrl(said) => "Invalid URL: "@ + said@
            + ". Make sure the URL is from a supported site."@,
        DownloadError::FileError(said) => "File error: "@ + said@
            + ". Check disk space and permissions."@,
        DownloadError::ConversionError(said) => "Conversion error: "@ + said@
            + ". The audio format may not be supported."@,
        DownloadError::Cancelled => "Download cancelled."@,
        DownloadError::Unknown(said) => "Error: "@ + said@,
    }
}

impl DownloadError {
    /// What a user is told of this failure.
    pub fn message(&self) -> (text: String)
        ensures
            text@ == failure_text(*self),
    {
        match self {
            DownloadError::NetworkError(said) => String::from_str("Network error: ").concat(
                said.as_str(),
            ).concat(". Check your internet connection."),
            DownloadError::InvalidUrl(said) => String::from_str("Invalid URL: ").concat(
                said.as_str(),
            ).concat(". Make sure the URL is from a supported site."),
            DownloadError::FileError(said) => String::from_str("File error: ").concat(
                said.as_str(),
            ).concat(". Check disk space and permissions."),
            DownloadError::ConversionError(said) => String::from_str("Conversion error: ").concat(
                said.as_str(),
            ).concat(". The audio format may not be supported."),
            DownloadError::Cancelled => String::from_str("Download cancelled."),
            DownloadError::Unknown(said) => String::from_str("Error: ").concat(said.as_str()),
        }
    }
}

/// Whether what a failed fetch said speaks of the address.
pub open spec fn blames_address(said: Seq<char>) -> bool {
    occurs_in(said, "URL"@) || occurs_in(said, "Unsupported"@)
}

/// Whether what a failed fetch said speaks of the network.
pub open spec fn blames_network(said: Seq<char>) -> bool {
    occurs_in(said, "network"@) || occurs_in(said, "connection"@) || occurs_in(said, "timeout"@)
}

/// Tells what kind of failure a failed fetch was from what it said: one of
/// the address where it speaks of the address, else one of the network where
/// it speaks of the network, else an unknown one.
pub fn classify_fetch_failure(said: String) -> (error: DownloadError)
    ensures
        blames_address(said@) ==> error == DownloadError::InvalidUrl(said),
        !blames_address(said@) && blames_network(said@) ==> error == DownloadError::NetworkError(
            said,
        ),
        !blames_address(said@) && !blames_network(said@) ==> error == DownloadError::Unknown(said),
{
    if contains(said.as_str(), "URL") || contains(said.as_str(), "Unsupported") {
        DownloadError::InvalidUrl(said)
    } else if contains(said.as_str(), "network") || contains(said.as_str(), "connection")
        || contains(said.as_str(), "timeout") {
        DownloadError::NetworkError(said)
    } else {
        DownloadError::Unknown(said)
    }
}

/// The media type of a cover image, told from its address.
pub open spec fn cover_type_of(address: Seq<char>) -> Seq<char> {
    if occurs_in(address, ".png"@) {
        "image/png"@
    } else {
        "image/jpeg"@
    }
}

/// Tells the media type of a cover image from its address: PNG where the
/// address names it, JPEG otherwise.
pub fn cover_media_type(address: &str) -> (media_type: &'static str)
    ensures
        media_type@ == cover_type_of(address@),
{
    if contains(address, ".png") {
        "image/png"
    } else {
        "image/jpeg"
    }
}

/// Whether a trimmed address is one that the queue takes: not empty, and
/// beginning with "http://" or "https://".
pub open spec fn is_web_address(address: Seq<char>) -> bool {
    address.len() > 0 && (occurs_at(address, "http://"@, 0) || occurs_at(address, "https://"@, 0))
}

/// Trims an address and tells whether the queue takes it.
pub fn accepted_address(raw: &str) -> (address: Option<String>)
    ensures
        match address {
            Some(taken) => taken@ == trimmed(raw@) && is_web_address(taken@),
            None => !is_web_address(trimmed(raw@)),
        },
{
    let address = trim(raw);
    if address.as_str().unicode_len() == 0 {
        return None;
    }
    if starts_with(address.as_str(), "http://") || starts_with(address.as_str(), "https://") {
        Some(address)
    } else {
        None
    }
}

/// `Uuid::new_v4` written by `to_string`: a fresh random UUID in its
/// hyphenated form, which is thirty-six characters long. Which characters
/// they are differs from call to call.
#[verifier::external_body]
fn random_uuid_text() -> (text: String)
    ensures
        text@.len() == UUID_LENGTH,
{
    uuid::Uuid::new_v4().to_string()
}

/// The first eight characters of a text, or all of it where it has fewer.
pub open spec fn head_of(text: Seq<char>) -> Seq<char> {
    if text.len() >= ID_LENGTH {
        text.subrange(0, ID_LENGTH as int)
    } else {
        text
    }
}

/// Cuts an identifier of the queue out of a longer one.
pub fn short_id(text: &str) -> (id: String)
    ensures
        id@ == head_of(text@),
{
    let chars = chars_of(text);
    if chars.len() >= ID_LENGTH {
        text_of(chars.as_slice(), 0, ID_LENGTH)
    } else {
        proof {
            assert(chars@.subrange(0, chars@.len() as int) =~= chars@);
        }
        text_of(chars.as_slice(), 0, chars.len())
    }
}

/// Makes a fresh identifier for the queue: the first eight characters of a
/// random UUID.
pub fn new_queue_id() -> (id: String)
    ensures
        id@.len() == ID_LENGTH,
{
    let text = random_uuid_text();
    short_id(text.as_str())
}

/// What a video site tells of a piece.
#[derive(Debug)]
pub struct SourceMetadata {
    /// The site's identifier of the video.
    pub id: String,
    /// The title as the site gives it.
    pub title: String,
    /// The name of the channel.
    pub channel: Option<String>,
    /// The name of whoever put the video there.
    pub uploader: Option<String>,
    /// The artist, where the site knows one.
    pub artist: Option<String>,
    /// The name of the track, where the site knows one.
    pub track: Option<String>,
    /// The address of a cover image.
    pub thumbnail: Option<String>,
    /// The length in seconds.
    pub duration: Option<u64>,
}

/// What is shown of a piece before it is downloaded.
#[derive(Debug)]
pub struct VideoMetadata {
    /// The site's identifier of the video.
    pub video_id: String,
    /// The title as the site gives it.
    pub raw_title: String,
    /// The title of the piece.
    pub title: String,
    /// The artist of the piece.
    pub artist: String,
    /// The address of a cover image.
    pub thumbnail: Option<String>,
    /// The length in seconds.
    pub duration: Option<u64>,
    /// The name of the channel, or else of whoever put the video there.
    pub channel_name: Option<String>,
}

/// The outcome of a download.
#[derive(Debug)]
pub struct DownloadResult {
    /// Whether the file is there.
    pub success: bool,
    /// Where the file is.
    pub path: String,
}

/// What the user has chosen.
#[derive(Debug)]
pub struct Settings {
    /// The directory that downloads are written to.
    pub download_dir: String,
}

/// The name of the channel of a piece: the channel, or else whoever put the
/// video there.
pub open spec fn channel_of(source: SourceMetadata) -> Option<String> {
    if source.channel is Some {
        source.channel
    } else {
        source.uploader
    }
}

/// The artist and the title of a piece. Where the site knows both the
/// artist and the track, they are these. Otherwise they are told from the
/// title, with the channel standing in for the artist, and "Unknown Artist"
/// for a channel that is not known either.
pub open spec fn names_of(source: SourceMetadata) -> (Seq<char>, Seq<char>) {
    if source.artist is Some && source.track is Some {
        (source.artist->0@, source.track->0@)
    } else {
        split_names(
            cleaned(source.title@),
            match channel_of(source) {
                Some(name) => name@,
                None => "Unknown Artist"@,
            },
        )
    }
}

/// Tells the artist and the title of a piece and puts together what is
/// shown of it.
pub fn video_metadata(source: SourceMetadata) -> (shown: VideoMetadata)
    ensures
        shown.video_id == source.id,
        shown.raw_title == source.title,
        shown.artist@ == names_of(source).0,
        shown.title@ == names_of(source).1,
        shown.thumbnail == source.thumbnail,
        shown.duration == source.duration,
        shown.channel_name == channel_of(source),
{
    let SourceMetadata { id, title, channel, uploader, artist, track, thumbnail, duration } =
        source;
    let channel_name: Option<String> = if channel.is_some() {
        channel
    } else {
        uploader
    };
    let names: (String, String) = match (artist, track) {
        (Some(artist), Some(track)) => (artist, track),
        _ => {
            match &channel_name {
                Some(name) => parse_artist_title(title.as_str(), name.as_str()),
                None => parse_artist_title(title.as_str(), "Unknown Artist"),
            }
        },
    };
    VideoMetadata {
        video_id: id,
        raw_title: title,
        title: names.1,
        artist: names.0,
        thumbnail,
        duration,
        channel_name,
    }
}

} // verus!
