//! Titles: taking out what a video site adds to a title, telling the artist
//! from the title, and making file names of both.

use crate::text::{
    chars_of, find, is_first_occurrence, occurs_in, trim, trim_range, trimmed,
};
use vstd::prelude::*;
use vstd::string::StringExecFns;

verus! {

/// The number of patterns that are taken out of a title.
pub const NOISE_PATTERNS: usize = 15;

/// `text` with every match of the regular expression `pattern` taken out;
/// none where `pattern` is not a regular expression that the regex crate
/// compiles.
pub uninterp spec fn without_matches(pattern: Seq<char>, text: Seq<char>) -> Option<Seq<char>>;

/// Compiles `pattern` with `Regex::new` and, where it compiles, replaces
/// every match in `text` with the empty text by `Regex::replace_all`.
#[verifier::external_body]
fn remove_matches(pattern: &str, text: &str) -> (r: Option<String>)
    ensures
        match r {
            Some(rest) => without_matches(pattern@, text@) == Some(rest@),
            None => without_matches(pattern@, text@) is None,
        },
{
    match regex::Regex::new(pattern) {
        Ok(expression) => Some(expression.replace_all(text, "").into_owned()),
        Err(_) => None,
    }
}

/// The patterns that are taken out of a title, in the order in which they
/// are tried.
pub open spec fn noise_pattern(index: int) -> Seq<char> {
    if index == 0 {
        "\\s*\\(Official\\s*(Music\\s*)?Video\\)"@
    } else if index == 1 {
        "\\s*\\[Official\\s*(Music\\s*)?Video\\]"@
    } else if index == 2 {
        "\\s*\\(Official\\s*Audio\\)"@
    } else if index == 3 {
        "\\s*\\[Official\\s*Audio\\]"@
    } else if index == 4 {
        "\\s*\\(Lyric\\s*Video\\)"@
    } else if index == 5 {
        "\\s*\\[Lyric\\s*Video\\]"@
    } else if index == 6 {
        "\\s*\\(Lyrics\\)"@
    } else if index == 7 {
        "\\s*\\[Lyrics\\]"@
    } else if index == 8 {
        "\\s*\\(HD\\)"@
    } else if index == 9 {
        "\\s*\\[HD\\]"@
    } else if index == 10 {
        "\\s*\\(HQ\\)"@
    } else if index == 11 {
        "\\s*\\[HQ\\]"@
    } else if index == 12 {
        "\\s*\\(4K\\)"@
    } else if index == 13 {
        "\\s*\\[4K\\]"@
    } else {
        "\\s*\\|\\s*.*$"@
    }
}

/// One of the patterns that are taken out of a title.
pub fn noise(index: usize) -> (pattern: &'static str)
    ensures
        pattern@ == noise_pattern(index as int),
{
    match index {
        0 => "\\s*\\(Official\\s*(Music\\s*)?Video\\)",
        1 => "\\s*\\[Official\\s*(Music\\s*)?Video\\]",
        2 => "\\s*\\(Official\\s*Audio\\)",
        3 => "\\s*\\[Official\\s*Audio\\]",
        4 => "\\s*\\(Lyric\\s*Video\\)",
        5 => "\\s*\\[Lyric\\s*Video\\]",
        6 => "\\s*\\(Lyrics\\)",
        7 => "\\s*\\[Lyrics\\]",
        8 => "\\s*\\(HD\\)",
        9 => "\\s*\\[HD\\]",
        10 => "\\s*\\(HQ\\)",
        11 => "\\s*\\[HQ\\]",
        12 => "\\s*\\(4K\\)",
        13 => "\\s*\\[4K\\]",
        _ => "\\s*\\|\\s*.*$",
    }
}

/// `text` after one pattern was tried on it, without regard to case: what
/// is left where the pattern compiles, the text as it was where not.
pub open spec fn without_noise(text: Seq<char>, index: int) -> Seq<char> {
    match without_matches("(?i)"@ + noise_pattern(index), text) {
        Some(rest) => rest,
        None => text,
    }
}

/// `text` after the first `count` patterns were tried on it, one after the
/// other.
pub open spec fn stripped(text: Seq<char>, count: int) -> Seq<char>
    decreases count,
{
    if count <= 0 {
        text
    } else {
        without_noise(stripped(text, count - 1), count - 1)
    }
}

/// A title without what a video site adds to it, and trimmed.
pub open spec fn cleaned(title: Seq<char>) -> Seq<char> {
    trimmed(stripped(title, NOISE_PATTERNS as int))
}

/// Takes out of a title what a video site adds to it: the marks of official
/// videos and audio, of lyric videos, of picture quality, and whatever
/// follows a vertical bar. The result is trimmed.
pub fn clean_title(title: &str) -> (clean: String)
    ensures
        clean@ == cleaned(title@),
{
    let mut text: String = String::from_str(title);
    let mut index: usize = 0;
    while index < NOISE_PATTERNS
        invariant
            index <= NOISE_PATTERNS,
            text@ == stripped(title@, index as int),
        decreases NOISE_PATTERNS - index,
    {
        let pattern = String::from_str("(?i)").concat(noise(index));
        match remove_matches(pattern.as_str(), text.as_str()) {
            Some(rest) => {
                text = rest;
            },
            None => {},
        }
        index += 1;
    }
    trim(text.as_str())
}

/// The artist and the title that a cleaned title names: what stands before
/// and after the first " - ", or else the first " – "; or else the channel
/// as the artist and the whole as the title. Both are trimmed.
pub open spec fn split_names(clean: Seq<char>, channel: Seq<char>) -> (Seq<char>, Seq<char>) {
    if occurs_in(clean, " - "@) {
        let at = choose|at: int| is_first_occurrence(clean, " - "@, at);
        (trimmed(clean.subrange(0, at)), trimmed(clean.subrange(at + 3, clean.len() as int)))
    } else if occurs_in(clean, " \u{2013} "@) {
        let at = choose|at: int| is_first_occurrence(clean, " \u{2013} "@, at);
        (trimmed(clean.subrange(0, at)), trimmed(clean.subrange(at + 2, clean.len() as int)))
    } else {
        (channel, clean)
    }
}

proof fn lemma_first_occurrence_is_one(text: Seq<char>, pattern: Seq<char>, at: int)
    requires
        is_first_occurrence(text, pattern, at),
    ensures
        occurs_in(text, pattern),
        (choose|other: int| is_first_occurrence(text, pattern, other)) == at,
{
    let chosen = choose|other: int| is_first_occurrence(text, pattern, other);
    assert(is_first_occurrence(text, pattern, chosen));
    if chosen < at {
        assert(!crate::text::occurs_at(text, pattern, chosen));
    }
    if at < chosen {
        assert(!crate::text::occurs_at(text, pattern, at));
    }
}

/// Tells the artist from the title in a title that is already cleaned.
pub fn split_artist_title(clean: &str, channel_name: &str) -> (names: (String, String))
    ensures
        names.0@ == split_names(clean@, channel_name@).0,
        names.1@ == split_names(clean@, channel_name@).1,
{
    let chars = chars_of(clean);
    let hyphen = chars_of(" - ");
    let dash = chars_of(" \u{2013} ");
    proof {
        reveal_strlit(" - ");
        reveal_strlit(" \u{2013} ");
    }
    match find(chars.as_slice(), hyphen.as_slice()) {
        Some(at) => {
            proof {
                lemma_first_occurrence_is_one(clean@, " - "@, at as int);
            }
            let artist = trim_range(chars.as_slice(), 0, at);
            let title = trim_range(chars.as_slice(), at + 3, chars.len());
            (artist, title)
        },
        None => match find(chars.as_slice(), dash.as_slice()) {
            Some(at) => {
                proof {
                    lemma_first_occurrence_is_one(clean@, " \u{2013} "@, at as int);
                }
                let artist = trim_range(chars.as_slice(), 0, at);
                let title = trim_range(chars.as_slice(), at + 2, chars.len());
                (artist, title)
            },
            None => (String::from_str(channel_name), String::from_str(clean)),
        },
    }
}

/// Cleans a raw title and tells the artist from the title in it.
pub fn parse_artist_title(raw_title: &str, channel_name: &str) -> (names: (String, String))
    ensures
        names.0@ == split_names(cleaned(raw_title@), channel_name@).0,
        names.1@ == split_names(cleaned(raw_title@), channel_name@).1,
{
    let clean = clean_title(raw_title);
    split_artist_title(clean.as_str(), channel_name)
}

/// Whether a character cannot stand in a file name.
pub open spec fn is_unsafe(c: char) -> bool {
    c == '/' || c == '\\' || c == ':' || c == '*' || c == '?' || c == '"' || c == '<' || c == '>'
        || c == '|'
}

/// The character that stands in a file name for `c`: an underscore for one
/// that cannot stand there, `c` itself otherwise.
pub open spec fn safe_char(c: char) -> char {
    if is_unsafe(c) {
        '_'
    } else {
        c
    }
}

/// A name with every character that cannot stand in a file name replaced
/// by an underscore.
pub open spec fn sanitized(name: Seq<char>) -> Seq<char> {
    name.map_values(|c: char| safe_char(c))
}

/// Replaces every character that cannot stand in a file name by an
/// underscore.
pub fn sanitize_file_name(name: &str) -> (safe: String)
    ensures
        safe@ == sanitized(name@),
{
    let chars = chars_of(name);
    let mut safe = String::new();
    let mut index: usize = 0;
    while index < chars.len()
        invariant
            chars@ == name@,
            index <= chars@.len(),
            safe@ == sanitized(name@.subrange(0, index as int)),
        decreases chars.len() - index,
    {
        let c = chars[index];
        let kept: char = if c == '/' || c == '\\' || c == ':' || c == '*' || c == '?' || c == '"'
            || c == '<' || c == '>' || c == '|' {
            '_'
        } else {
            c
        };
        safe.push(kept);
        index += 1;
        proof {
            assert(safe@ =~= sanitized(name@.subrange(0, index as int)));
        }
    }
    proof {
        assert(name@.subrange(0, index as int) =~= name@);
    }
    safe
}

/// The name of the file of a piece without its extension: the artist,
/// " - ", the title, and what `suffix` adds; the artist and the title made
/// safe for a file name.
pub open spec fn file_stem_of(artist: Seq<char>, title: Seq<char>, suffix: Seq<char>) -> Seq<char> {
    sanitized(artist) + " - "@ + sanitized(title) + suffix
}

/// The name of the file of a piece: its stem, a dot, and the extension.
pub open spec fn file_name_of(
    artist: Seq<char>,
    title: Seq<char>,
    suffix: Seq<char>,
    extension: Seq<char>,
) -> Seq<char> {
    file_stem_of(artist, title, suffix) + "."@ + extension
}

/// Makes the name of the file of a piece without its extension.
pub fn file_stem(artist: &str, title: &str, suffix: &str) -> (stem: String)
    ensures
        stem@ == file_stem_of(artist@, title@, suffix@),
{
    let safe_title = sanitize_file_name(title);
    sanitize_file_name(artist).concat(" - ").concat(safe_title.as_str()).concat(suffix)
}

/// Makes the name of the file of a piece.
pub fn file_name(artist: &str, title: &str, suffix: &str, extension: &str) -> (name: String)
    ensures
        name@ == file_name_of(artist@, title@, suffix@, extension@),
{
    file_stem(artist, title, suffix).concat(".").concat(extension)
}

/// No character of a sanitized name is one that cannot stand in a file
/// name, and the name is as long as it was.
pub proof fn sanitized_is_safe(name: Seq<char>, index: int)
    requires
        0 <= index < name.len(),
    ensures
        sanitized(name).len() == name.len(),
        !is_unsafe(sanitized(name)[index]),
        !is_unsafe(name[index]) ==> sanitized(name)[index] == name[index],
{
}

} // verus!
