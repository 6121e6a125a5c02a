//! Key: how the signal is framed for the chromagram, how a chromagram is
//! turned to a root, which of the twenty-four keys fits best, and its name.
//!
//! The chromagram and its correlation with the major and minor profiles are
//! computed elsewhere. A chroma value or a correlation reaches this module as
//! the bit pattern of a 64-bit IEEE 754 number.

use crate::ieee::{is_nan64, less64, lt64, NEG_INFINITY_64};
use vstd::prelude::*;
use vstd::string::StringExecFns;

verus! {

/// The number of pitch classes.
pub const PITCH_CLASSES: usize = 12;

/// Samples in one analysis window of the chromagram.
pub const CHROMA_FRAME: usize = 4096;

/// Samples from the start of one analysis window to the start of the next.
pub const CHROMA_HOP: usize = 2048;

/// The first octave whose notes are listened for.
pub const FIRST_OCTAVE: usize = 2;

/// The last octave whose notes are listened for.
pub const LAST_OCTAVE: usize = 6;

/// The note number of concert pitch, the A of 440 Hz.
pub const CONCERT_PITCH: usize = 69;

/// Why no key can be found.
#[derive(Clone, Copy, Debug, PartialEq, Eq, Structural)]
pub enum KeyError {
    /// The signal is shorter than one second.
    TooShort,
}

/// Major or minor.
#[derive(Clone, Copy, Debug, PartialEq, Eq, Structural)]
pub enum Mode {
    /// The major mode.
    Major,
    /// The minor mode.
    Minor,
}

/// A key: its root as a pitch class counted from C, and its mode.
#[derive(Clone, Copy, Debug, PartialEq, Eq, Structural)]
pub struct KeyChoice {
    /// The root, counted in semitones from C.
    pub root: usize,
    /// The mode.
    pub mode: Mode,
}

/// The number of analysis windows in a signal of `len` samples: the windows
/// begin every `CHROMA_HOP` samples and each ends before the signal does.
pub open spec fn chroma_frames_of(len: int) -> int {
    if len > CHROMA_FRAME {
        (len - CHROMA_FRAME - 1) / (CHROMA_HOP as int) + 1
    } else {
        0
    }
}

/// Counts the analysis windows of a signal of `len` samples at
/// `sample_rate`. A signal shorter than one second is refused.
pub fn plan_key(len: usize, sample_rate: u32) -> (r: Result<usize, KeyError>)
    ensures
        len < sample_rate ==> r == Err::<usize, KeyError>(KeyError::TooShort),
        len >= sample_rate ==> r == Ok::<usize, KeyError>(chroma_frames_of(len as int) as usize),
        r matches Ok(frames) ==> frames == 0 || (frames - 1) * CHROMA_HOP + CHROMA_FRAME < len,
{
    if (len as u64) < sample_rate as u64 {
        return Err(KeyError::TooShort);
    }
    if len > CHROMA_FRAME {
        Ok((len - CHROMA_FRAME - 1) / CHROMA_HOP + 1)
    } else {
        Ok(0)
    }
}

/// The number of the note of a pitch class in an octave: twelve to the
/// octave, counted like the number of concert pitch.
pub open spec fn note_of(class: int, octave: int) -> int {
    class + 12 * octave
}

/// Numbers the note of a pitch class in an octave.
pub fn note_number(class: usize, octave: usize) -> (note: usize)
    requires
        class < PITCH_CLASSES,
        FIRST_OCTAVE <= octave <= LAST_OCTAVE,
    ensures
        note == note_of(class as int, octave as int),
        24 <= note <= 83,
{
    class + 12 * octave
}

/// Whether the lag of a note can be listened for in an analysis window: it
/// must be at least one sample and lie in the first half of the window.
pub open spec fn lag_is_usable(lag: int) -> bool {
    0 < lag < CHROMA_FRAME / 2
}

/// Tells whether the lag of a note can be listened for in an analysis
/// window.
pub fn usable_lag(lag: usize) -> (usable: bool)
    ensures
        usable == lag_is_usable(lag as int),
{
    lag > 0 && lag < CHROMA_FRAME / 2
}

/// A chromagram turned so that the bin of `root` comes first.
pub open spec fn rotated(chroma: Seq<u64>, root: int) -> Seq<u64> {
    Seq::new(chroma.len(), |i: int| chroma[(i + root) % (chroma.len() as int)])
}

/// Turns a chromagram so that the bin of `root` comes first.
pub fn rotate(chroma: &[u64], root: usize) -> (turned: Vec<u64>)
    ensures
        turned@ == rotated(chroma@, root as int),
{
    let bins = chroma.len();
    let mut turned: Vec<u64> = Vec::new();
    let mut index: usize = 0;
    while index < bins
        invariant
            bins == chroma@.len(),
            index <= bins,
            turned@.len() == index,
            forall|i: int| 0 <= i < index ==> turned@[i] == chroma@[(i + root) % (bins as int)],
        decreases bins - index,
    {
        let from: usize = ((index as u128 + root as u128) % (bins as u128)) as usize;
        turned.push(chroma[from]);
        index += 1;
    }
    proof {
        assert(turned@ =~= rotated(chroma@, root as int));
    }
    turned
}

/// The best of the keys whose root lies below `roots`, and its correlation.
/// The keys are tried root by root, major before minor; a key takes the place
/// of the best so far where its correlation is larger. The search starts
/// from negative infinity, so a correlation that is not a number never takes
/// the place.
pub open spec fn best_key(major: Seq<u64>, minor: Seq<u64>, roots: int) -> (Option<KeyChoice>, u64)
    decreases roots,
{
    if roots <= 0 {
        (None, NEG_INFINITY_64)
    } else {
        let root = roots - 1;
        let before = best_key(major, minor, root);
        let with_major = if lt64(before.1, major[root]) {
            (Some(KeyChoice { root: root as usize, mode: Mode::Major }), major[root])
        } else {
            before
        };
        if lt64(with_major.1, minor[root]) {
            (Some(KeyChoice { root: root as usize, mode: Mode::Minor }), minor[root])
        } else {
            with_major
        }
    }
}

/// The number of roots that both lists of correlations cover.
pub open spec fn roots_of(major: Seq<u64>, minor: Seq<u64>) -> int {
    if major.len() <= minor.len() {
        major.len() as int
    } else {
        minor.len() as int
    }
}

/// What the search for the key found.
#[derive(Clone, Copy, Debug, PartialEq, Eq, Structural)]
pub struct KeyEstimate {
    /// The key; none where no correlation is above negative infinity.
    pub choice: Option<KeyChoice>,
    /// The correlation of that key; negative infinity where there is none.
    pub correlation: u64,
}

/// Finds the key that fits best.
///
/// `major[r]` and `minor[r]` are the correlations of the chromagram, turned
/// to root `r`, with the major and the minor profile.
pub fn estimate_key(major: &[u64], minor: &[u64]) -> (estimate: KeyEstimate)
    ensures
        estimate.choice == best_key(major@, minor@, roots_of(major@, minor@)).0,
        estimate.correlation == best_key(major@, minor@, roots_of(major@, minor@)).1,
{
    let roots: usize = if major.len() <= minor.len() {
        major.len()
    } else {
        minor.len()
    };
    let mut choice: Option<KeyChoice> = None;
    let mut best: u64 = NEG_INFINITY_64;
    let mut root: usize = 0;
    while root < roots
        invariant
            roots == roots_of(major@, minor@),
            root <= roots,
            choice == best_key(major@, minor@, root as int).0,
            best == best_key(major@, minor@, root as int).1,
        decreases roots - root,
    {
        if less64(best, major[root]) {
            best = major[root];
            choice = Some(KeyChoice { root, mode: Mode::Major });
        }
        if less64(best, minor[root]) {
            best = minor[root];
            choice = Some(KeyChoice { root, mode: Mode::Minor });
        }
        root += 1;
    }
    KeyEstimate { choice, correlation: best }
}

/// The name of a pitch class, counted in semitones from C. Whatever lies
/// past the eleventh semitone is named as the last class.
pub open spec fn pitch_name(class: int) -> Seq<char> {
    if class == 0 {
        "C"@
    } else if class == 1 {
        "C#"@
    } else if class == 2 {
        "D"@
    } else if class == 3 {
        "D#"@
    } else if class == 4 {
        "E"@
    } else if class == 5 {
        "F"@
    } else if class == 6 {
        "F#"@
    } else if class == 7 {
        "G"@
    } else if class == 8 {
        "G#"@
    } else if class == 9 {
        "A"@
    } else if class == 10 {
        "A#"@
    } else {
        "B"@
    }
}

/// The name of a key: the name of its root's pitch class, followed by
/// " Major" for a major key and by "m" for a minor one. Without a key it
/// is "C".
pub open spec fn key_name(choice: Option<KeyChoice>) -> Seq<char> {
    match choice {
        None => "C"@,
        Some(key) => match key.mode {
            Mode::Major => pitch_name(key.root as int % 12) + " Major"@,
            Mode::Minor => pitch_name(key.root as int % 12) + "m"@,
        },
    }
}

/// The name of a pitch class.
pub fn pitch_class_name(class: usize) -> (name: &'static str)
    ensures
        name@ == pitch_name(class as int),
{
    match class {
        0 => "C",
        1 => "C#",
        2 => "D",
        3 => "D#",
        4 => "E",
        5 => "F",
        6 => "F#",
        7 => "G",
        8 => "G#",
        9 => "A",
        10 => "A#",
        _ => "B",
    }
}

/// Names a key.
pub fn key_label(choice: Option<KeyChoice>) -> (label: String)
    ensures
        label@ == key_name(choice),
{
    match choice {
        None => String::from_str("C"),
        Some(key) => {
            let root = String::from_str(pitch_class_name(key.root % PITCH_CLASSES));
            match key.mode {
                Mode::Major => root.concat(" Major"),
                Mode::Minor => root.concat("m"),
            }
        },
    }
}

proof fn lemma_best_key_is_number(major: Seq<u64>, minor: Seq<u64>, roots: int)
    ensures
        !is_nan64(best_key(major, minor, roots).1),
    decreases roots,
{
    if roots > 0 {
        lemma_best_key_is_number(major, minor, roots - 1);
    }
}

/// The key that `best_key` names has a correlation that no other key's
/// correlation exceeds. Where it names none, no correlation is above
/// negative infinity.
pub proof fn best_key_is_maximum(major: Seq<u64>, minor: Seq<u64>, roots: int, other: int)
    requires
        0 <= other < roots <= usize::MAX,
        roots <= major.len(),
        roots <= minor.len(),
    ensures
        !lt64(best_key(major, minor, roots).1, major[other]),
        !lt64(best_key(major, minor, roots).1, minor[other]),
        match best_key(major, minor, roots).0 {
            None => best_key(major, minor, roots).1 == NEG_INFINITY_64,
            Some(key) => {
                &&& key.root < roots
                &&& best_key(major, minor, roots).1 == match key.mode {
                    Mode::Major => major[key.root as int],
                    Mode::Minor => minor[key.root as int],
                }
            },
        },
    decreases roots,
{
    lemma_best_key_is_number(major, minor, roots);
    lemma_best_key_is_number(major, minor, roots - 1);
    lemma_best_key_place(major, minor, roots);
    if other < roots - 1 {
        best_key_is_maximum(major, minor, roots - 1, other);
    }
}

/// A chromagram that holds `profile` from the bin of `root` on, turned to
/// `root`, is `profile`.
pub proof fn turning_back_gives_the_profile(chroma: Seq<u64>, profile: Seq<u64>, root: int)
    requires
        chroma.len() == profile.len(),
        0 <= root,
        forall|i: int|
            0 <= i < profile.len() ==> chroma[(i + root) % (profile.len() as int)] == profile[i],
    ensures
        rotated(chroma, root) == profile,
{
    assert(rotated(chroma, root) =~= profile);
}

/// Where the correlation of one major key is larger than that of every
/// other key, that key is the best.
pub proof fn a_major_key_above_all_others_is_best(
    major: Seq<u64>,
    minor: Seq<u64>,
    roots: int,
    root: int,
)
    requires
        0 <= root < roots <= usize::MAX,
        roots <= major.len(),
        roots <= minor.len(),
        forall|other: int| 0 <= other < roots && other != root ==> lt64(major[other], major[root]),
        forall|other: int| 0 <= other < roots ==> lt64(minor[other], major[root]),
    ensures
        best_key(major, minor, roots) == (
            Some(KeyChoice { root: root as usize, mode: Mode::Major }),
            major[root],
        ),
    decreases roots,
{
    lemma_best_key_is_number(major, minor, roots - 1);
    if root < roots - 1 {
        a_major_key_above_all_others_is_best(major, minor, roots - 1, root);
    } else if roots - 1 > 0 {
        best_key_is_maximum(major, minor, roots - 1, 0);
        lemma_best_key_below(major, minor, roots - 1, major[root]);
    }
}

proof fn lemma_best_key_below(major: Seq<u64>, minor: Seq<u64>, roots: int, bound: u64)
    requires
        0 <= roots <= usize::MAX,
        roots <= major.len(),
        roots <= minor.len(),
        !is_nan64(bound),
        lt64(NEG_INFINITY_64, bound),
        forall|other: int| 0 <= other < roots ==> lt64(major[other], bound),
        forall|other: int| 0 <= other < roots ==> lt64(minor[other], bound),
    ensures
        lt64(best_key(major, minor, roots).1, bound),
    decreases roots,
{
    if roots > 0 {
        lemma_best_key_below(major, minor, roots - 1, bound);
    }
}

proof fn lemma_best_key_place(major: Seq<u64>, minor: Seq<u64>, roots: int)
    requires
        0 <= roots <= usize::MAX,
        roots <= major.len(),
        roots <= minor.len(),
    ensures
        match best_key(major, minor, roots).0 {
            None => best_key(major, minor, roots).1 == NEG_INFINITY_64,
            Some(key) => {
                &&& key.root < roots
                &&& best_key(major, minor, roots).1 == match key.mode {
                    Mode::Major => major[key.root as int],
                    Mode::Minor => minor[key.root as int],
                }
            },
        },
    decreases roots,
{
    if roots > 0 {
        lemma_best_key_place(major, minor, roots - 1);
    }
}

} // verus!
