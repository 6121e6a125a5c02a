//! Records of finished downloads.

use vstd::prelude::*;
use vstd::string::StringExecFns;

verus! {

/// The number of entries that a listing gives where none is asked for.
pub const DEFAULT_LIMIT: u32 = 50;

/// One finished download, as the history keeps it.
#[derive(Debug)]
pub struct DownloadHistoryEntry {
    /// The row's identifier.
    pub id: i64,
    /// The address that was downloaded.
    pub url: String,
    /// The title of the piece.
    pub title: String,
    /// The artist of the piece.
    pub artist: String,
    /// The address of a cover image, where there is one.
    pub thumbnail: Option<String>,
    /// The length in seconds, where it is known.
    pub duration: Option<u64>,
    /// Where the file was written.
    pub output_path: String,
    /// When the download finished, as the store formats it.
    pub downloaded_at: String,
}

/// The pattern that a search for `query` looks for in titles and artists:
/// the query with anything before and after it.
pub open spec fn pattern_of(query: Seq<char>) -> Seq<char> {
    "%"@ + query + "%"@
}

/// Makes the pattern that a search for `query` looks for.
pub fn search_pattern(query: &str) -> (pattern: String)
    ensures
        pattern@ == pattern_of(query@),
{
    String::from_str("%").concat(query).concat("%")
}

/// The number of entries that a listing gives: as many as are asked for,
/// or the default.
pub fn listing_limit(asked: Option<u32>) -> (limit: u32)
    ensures
        limit == match asked {
            Some(count) => count,
            None => DEFAULT_LIMIT,
        },
{
    match asked {
        Some(count) => count,
        None => DEFAULT_LIMIT,
    }
}

/// The signed number that the store keeps for a length in seconds: the same
/// number where it fits, and the one that lies two to the sixty-fourth below
/// it where not.
pub open spec fn stored(seconds: u64) -> i64 {
    if seconds <= i64::MAX {
        seconds as i64
    } else {
        (seconds - 0x1_0000_0000_0000_0000) as i64
    }
}

/// The length in seconds that a number of the store stands for: the same
/// number where it is not negative, and the one that lies two to the
/// sixty-fourth above it where it is.
pub open spec fn loaded(kept: i64) -> u64 {
    if kept >= 0 {
        kept as u64
    } else {
        (kept + 0x1_0000_0000_0000_0000) as u64
    }
}

/// Turns a length in seconds into the number that the store keeps.
pub fn stored_duration(duration: Option<u64>) -> (kept: Option<i64>)
    ensures
        kept == match duration {
            Some(seconds) => Some(stored(seconds)),
            None => None,
        },
{
    match duration {
        Some(seconds) => {
            if seconds <= i64::MAX as u64 {
                Some(seconds as i64)
            } else {
                let above: u64 = seconds - 0x8000_0000_0000_0000;
                Some((above as i64) + i64::MIN)
            }
        },
        None => None,
    }
}

/// Turns a number of the store back into a length in seconds.
pub fn loaded_duration(kept: Option<i64>) -> (duration: Option<u64>)
    ensures
        duration == match kept {
            Some(number) => Some(loaded(number)),
            None => None,
        },
{
    match kept {
        Some(number) => {
            if number >= 0 {
                Some(number as u64)
            } else {
                let above: i64 = number - i64::MIN;
                Some((above as u64) + 0x8000_0000_0000_0000)
            }
        },
        None => None,
    }
}

/// A length in seconds comes back from the store as it went in.
pub proof fn duration_survives_the_store(seconds: u64)
    ensures
        loaded(stored(seconds)) == seconds,
{
}

} // verus!
