//! The analysis of a signal as a whole: whether it can be analysed, and the
//! result that the two searches give together.

use crate::ieee::{at_least_zero, at_most_hundred, clamp_percent, le64, HUNDRED_64, ZERO_64};
use crate::key::{
    best_key, chroma_frames_of, estimate_key, key_label, key_name, plan_key, roots_of, KeyError,
};
use crate::tempo::{
    estimate_tempo, frames_of, lag_at, plan_of, plan_tempo, strongest, tempo_of, TempoError,
    TempoPlan, FEWEST_FRAMES, HIGHEST_BPM, LOWEST_BPM,
};
use vstd::prelude::*;
use vstd::string::StringExecFns;

verus! {

/// The tempo and the key of a signal, each with a confidence from zero to a
/// hundred. A confidence is the bit pattern of a 64-bit IEEE 754 number.
#[derive(Debug)]
pub struct AudioAnalysis {
    /// The tempo in beats per minute.
    pub bpm: Option<u32>,
    /// The confidence in the tempo.
    pub bpm_confidence: Option<u64>,
    /// The name of the key.
    pub key: Option<String>,
    /// The confidence in the key.
    pub key_confidence: Option<u64>,
}

/// Why a signal cannot be analysed.
#[derive(Clone, Copy, Debug, PartialEq, Eq, Structural)]
pub enum AnalysisError {
    /// The signal holds no sample.
    NoSamples,
    /// No tempo can be found.
    Tempo(TempoError),
    /// No key can be found.
    Key(KeyError),
}

/// How a signal is framed for both searches.
#[derive(Clone, Copy, Debug, PartialEq, Eq, Structural)]
pub struct AnalysisPlan {
    /// The plan of the search for the tempo.
    pub tempo: TempoPlan,
    /// The number of analysis windows of the chromagram.
    pub chroma_frames: usize,
}

/// What the check of a signal of `len` samples gives: the first reason to
/// refuse it, or the plan.
pub open spec fn analysis_plan_of(len: int, sample_rate: int) -> Result<
    AnalysisPlan,
    AnalysisError,
> {
    if len == 0 {
        Err(AnalysisError::NoSamples)
    } else if len < 2 * sample_rate {
        Err(AnalysisError::Tempo(TempoError::TooShort))
    } else if frames_of(len, sample_rate) < FEWEST_FRAMES {
        Err(AnalysisError::Tempo(TempoError::NotEnoughData))
    } else if len < sample_rate {
        Err(AnalysisError::Key(KeyError::TooShort))
    } else {
        Ok(
            AnalysisPlan {
                tempo: plan_of(len, sample_rate),
                chroma_frames: chroma_frames_of(len) as usize,
            },
        )
    }
}

/// Checks whether a signal of `len` samples can be analysed, and plans both
/// searches. The tempo's reasons to refuse come before the key's.
pub fn plan_analysis(len: usize, sample_rate: u32) -> (r: Result<AnalysisPlan, AnalysisError>)
    requires
        len >= 2 * sample_rate ==> sample_rate >= 100,
    ensures
        r == analysis_plan_of(len as int, sample_rate as int),
{
    if len == 0 {
        return Err(AnalysisError::NoSamples);
    }
    let tempo = match plan_tempo(len, sample_rate) {
        Ok(plan) => plan,
        Err(error) => {
            return Err(AnalysisError::Tempo(error));
        },
    };
    let chroma_frames = match plan_key(len, sample_rate) {
        Ok(frames) => frames,
        Err(error) => {
            return Err(AnalysisError::Key(error));
        },
    };
    Ok(AnalysisPlan { tempo, chroma_frames })
}

/// A signal shorter than two seconds is refused as too short, unless it is
/// refused for holding no sample at all; and a signal of two seconds or more
/// is never refused.
pub proof fn short_signals_are_refused(len: int, sample_rate: int)
    requires
        0 <= sample_rate <= u32::MAX,
        len >= 2 * sample_rate ==> sample_rate >= 100,
        0 <= len,
    ensures
        0 < len < 2 * sample_rate ==> analysis_plan_of(len, sample_rate) == Err::<
            AnalysisPlan,
            AnalysisError,
        >(AnalysisError::Tempo(TempoError::TooShort)),
        len >= 2 * sample_rate ==> analysis_plan_of(len, sample_rate) is Ok,
{
    if len >= 2 * sample_rate {
        crate::tempo::two_seconds_give_enough_frames(len, sample_rate);
    }
}

/// What a user is told of a reason to refuse.
pub open spec fn refusal_text(error: AnalysisError) -> Seq<char> {
    match error {
        AnalysisError::NoSamples => "No audio samples loaded"@,
        AnalysisError::Tempo(TempoError::TooShort) => "Audio too short for BPM detection"@,
        AnalysisError::Tempo(TempoError::NotEnoughData) => "Not enough data for BPM detection"@,
        AnalysisError::Key(KeyError::TooShort) => "Audio too short for key detection"@,
    }
}

impl AnalysisError {
    /// What a user is told of this reason.
    pub fn message(&self) -> (text: String)
        ensures
            text@ == refusal_text(*self),
    {
        match self {
            AnalysisError::NoSamples => String::from_str("No audio samples loaded"),
            AnalysisError::Tempo(TempoError::TooShort) => String::from_str(
                "Audio too short for BPM detection",
            ),
            AnalysisError::Tempo(TempoError::NotEnoughData) => String::from_str(
                "Not enough data for BPM detection",
            ),
            AnalysisError::Key(KeyError::TooShort) => String::from_str(
                "Audio too short for key detection",
            ),
        }
    }
}

/// The analysis of a signal of `len` samples: the refusal where the signal
/// is refused, and otherwise the tempo of the strongest correlation, the
/// name of the key that fits best, and the two scores held to the range from
/// zero to a hundred.
pub open spec fn analysis_of(
    len: int,
    sample_rate: int,
    correlations: Seq<u64>,
    tempo_score: u64,
    major: Seq<u64>,
    minor: Seq<u64>,
    key_score: u64,
    r: Result<AudioAnalysis, AnalysisError>,
) -> bool {
    match analysis_plan_of(len, sample_rate) {
        Err(error) => r == Err::<AudioAnalysis, AnalysisError>(error),
        Ok(_) => {
            &&& r matches Ok(analysis)
            &&& analysis.bpm matches Some(bpm) && bpm == tempo_of(
                sample_rate,
                lag_at(sample_rate, strongest(correlations, correlations.len() as int).0),
            )
            &&& analysis.bpm_confidence == Some(at_most_hundred(at_least_zero(tempo_score)))
            &&& analysis.key matches Some(name) && name@ == key_name(
                best_key(major, minor, roots_of(major, minor)).0,
            )
            &&& analysis.key_confidence == Some(at_most_hundred(at_least_zero(key_score)))
        },
    }
}

/// Analyses a signal of `len` samples at `sample_rate` for tempo and key.
///
/// A signal that cannot be analysed is refused, for the first reason that
/// holds: no samples, too short for the tempo, too few frames for the tempo,
/// too short for the key. Nothing else is returned of it.
///
/// Otherwise all four fields are filled. `correlations[k]` is the
/// correlation of the onset strengths with themselves at the `k`-th lag that
/// is searched; the tempo is that of the strongest, and lies between sixty
/// and a hundred and eighty. `major[r]` and `minor[r]` are the correlations
/// of the chromagram, turned to root `r`, with the two profiles; the key is
/// the one that fits best. `tempo_score` is the strongest correlation times
/// a hundred, `key_score` the best correlation of the key search moved from
/// the range of minus one to one onto that of zero to a hundred; each
/// confidence is its score held to the range from zero to a hundred. A
/// score that is below zero or that is no number, which no correlation
/// gives, counts as zero.
pub fn analyze_audio(
    len: usize,
    sample_rate: u32,
    correlations: &[u64],
    tempo_score: u64,
    major: &[u64],
    minor: &[u64],
    key_score: u64,
) -> (r: Result<AudioAnalysis, AnalysisError>)
    requires
        len >= 2 * sample_rate ==> sample_rate >= 100,
    ensures
        analysis_of(
            len as int,
            sample_rate as int,
            correlations@,
            tempo_score,
            major@,
            minor@,
            key_score,
            r,
        ),
        r matches Ok(analysis) ==> {
            &&& analysis.bpm matches Some(bpm) && LOWEST_BPM <= bpm <= HIGHEST_BPM
            &&& analysis.bpm_confidence matches Some(c) && le64(ZERO_64, c) && le64(c, HUNDRED_64)
            &&& analysis.key is Some
            &&& analysis.key_confidence matches Some(c) && le64(ZERO_64, c) && le64(c, HUNDRED_64)
        },
{
    if let Err(error) = plan_analysis(len, sample_rate) {
        return Err(error);
    }
    let tempo = estimate_tempo(sample_rate, correlations);
    let key = estimate_key(major, minor);
    Ok(
        AudioAnalysis {
            bpm: Some(tempo.bpm),
            bpm_confidence: Some(clamp_percent(tempo_score)),
            key: Some(key_label(key.choice)),
            key_confidence: Some(clamp_percent(key_score)),
        },
    )
}

} // verus!
