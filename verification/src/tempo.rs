//! Tempo: how the signal is framed, which lags are searched, which lag is
//! the strongest, and the tempo that a lag stands for.
//!
//! The energies, the onset strengths and the correlation at each lag are
//! sums of products of amplitudes and are computed elsewhere. This module
//! holds everything that is counted rather than measured. A correlation
//! reaches it as the bit pattern of a 64-bit IEEE 754 number.

use crate::ieee::{is_nan64, less64, lt64, ZERO_64};
use vstd::prelude::*;

verus! {

/// The tempo that is reported where no lag has a correlation above zero.
pub const DEFAULT_BPM: u32 = 120;

/// The lowest tempo that is reported.
pub const LOWEST_BPM: u32 = 60;

/// The highest tempo that is reported.
pub const HIGHEST_BPM: u32 = 180;

/// The fewest energy frames that a tempo can be found in.
pub const FEWEST_FRAMES: usize = 10;

/// Why no tempo can be found.
#[derive(Clone, Copy, Debug, PartialEq, Eq, Structural)]
pub enum TempoError {
    /// The signal is shorter than two seconds.
    TooShort,
    /// The signal gives fewer than ten energy frames.
    NotEnoughData,
}

/// How a signal is framed for the search, and the lags that are searched.
#[derive(Clone, Copy, Debug, PartialEq, Eq, Structural)]
pub struct TempoPlan {
    /// Samples from the start of one energy frame to the start of the next:
    /// ten milliseconds.
    pub hop_size: usize,
    /// Samples in one energy frame: a hundred milliseconds.
    pub frame_size: usize,
    /// The number of energy frames, which is also the number of onset
    /// strengths.
    pub frames: usize,
    /// The first lag that is searched, in frames.
    pub min_lag: usize,
    /// The first lag that is no longer searched.
    pub max_lag: usize,
}

/// Samples in ten milliseconds.
pub open spec fn hop_of(sample_rate: int) -> int {
    sample_rate / 100
}

/// Samples in a hundred milliseconds.
pub open spec fn frame_of(sample_rate: int) -> int {
    sample_rate / 10
}

/// The number of energy frames of a signal of `len` samples.
pub open spec fn frames_of(len: int, sample_rate: int) -> int {
    if len >= frame_of(sample_rate) {
        (len - frame_of(sample_rate)) / hop_of(sample_rate)
    } else {
        0
    }
}

/// The lag of 200 beats per minute, in frames, rounded down:
/// `frames_per_second * 60 / 200`, where a second has
/// `sample_rate / hop` frames.
pub open spec fn min_lag_of(sample_rate: int) -> int {
    (3 * sample_rate) / (10 * hop_of(sample_rate))
}

/// The lag of 60 beats per minute, in frames, rounded down, but no more than
/// half the number of frames.
pub open spec fn max_lag_of(len: int, sample_rate: int) -> int {
    let slowest = sample_rate / hop_of(sample_rate);
    let half = frames_of(len, sample_rate) / 2;
    if slowest < half {
        slowest
    } else {
        half
    }
}

/// The plan for a signal of `len` samples at `sample_rate`.
pub open spec fn plan_of(len: int, sample_rate: int) -> TempoPlan {
    TempoPlan {
        hop_size: hop_of(sample_rate) as usize,
        frame_size: frame_of(sample_rate) as usize,
        frames: frames_of(len, sample_rate) as usize,
        min_lag: min_lag_of(sample_rate) as usize,
        max_lag: max_lag_of(len, sample_rate) as usize,
    }
}

proof fn lemma_plan_bounds(len: int, sample_rate: int)
    requires
        100 <= sample_rate <= u32::MAX,
        0 <= len,
    ensures
        1 <= hop_of(sample_rate) <= sample_rate,
        hop_of(sample_rate) * 100 <= sample_rate,
        1 <= frame_of(sample_rate),
        frame_of(sample_rate) * 10 <= sample_rate,
        0 <= frames_of(len, sample_rate) <= len,
        30 <= min_lag_of(sample_rate) <= 59,
        100 <= sample_rate / hop_of(sample_rate) <= 199,
        sample_rate < 100 * hop_of(sample_rate) + 100,
        0 <= max_lag_of(len, sample_rate) <= len,
        len >= 2 * sample_rate ==> frames_of(len, sample_rate) >= 190,
{
    let hop = hop_of(sample_rate);
    let frame = frame_of(sample_rate);
    vstd::arithmetic::div_mod::lemma_fundamental_div_mod(sample_rate, 100);
    vstd::arithmetic::div_mod::lemma_mod_bound(sample_rate, 100);
    vstd::arithmetic::div_mod::lemma_fundamental_div_mod(sample_rate, 10);
    vstd::arithmetic::div_mod::lemma_mod_bound(sample_rate, 10);
    assert(hop >= 1 && hop * 100 <= sample_rate);
    assert(frame >= 1 && frame * 10 <= sample_rate);
    // the slowest lag
    let slowest = sample_rate / hop;
    vstd::arithmetic::div_mod::lemma_fundamental_div_mod(sample_rate, hop);
    vstd::arithmetic::div_mod::lemma_mod_bound(sample_rate, hop);
    assert(slowest >= 100) by (nonlinear_arith)
        requires
            sample_rate == hop * slowest + sample_rate % hop,
            0 <= sample_rate % hop < hop,
            hop * 100 <= sample_rate,
            hop >= 1,
    ;
    assert(slowest <= 199) by (nonlinear_arith)
        requires
            sample_rate == hop * slowest + sample_rate % hop,
            0 <= sample_rate % hop,
            hop >= 1,
            sample_rate < 100 * hop + 100,
    ;
    // the fastest lag
    let fastest = (3 * sample_rate) / (10 * hop);
    vstd::arithmetic::div_mod::lemma_fundamental_div_mod(3 * sample_rate, 10 * hop);
    vstd::arithmetic::div_mod::lemma_mod_bound(3 * sample_rate, 10 * hop);
    assert(fastest >= 30) by (nonlinear_arith)
        requires
            3 * sample_rate == (10 * hop) * fastest + (3 * sample_rate) % (10 * hop),
            0 <= (3 * sample_rate) % (10 * hop) < 10 * hop,
            hop * 100 <= sample_rate,
            hop >= 1,
    ;
    assert(fastest <= 59) by (nonlinear_arith)
        requires
            3 * sample_rate == (10 * hop) * fastest + (3 * sample_rate) % (10 * hop),
            0 <= (3 * sample_rate) % (10 * hop),
            hop >= 1,
            sample_rate < 100 * hop + 100,
    ;
    // the frames
    if len >= frame {
        let frames = (len - frame) / hop;
        vstd::arithmetic::div_mod::lemma_fundamental_div_mod(len - frame, hop);
        vstd::arithmetic::div_mod::lemma_mod_bound(len - frame, hop);
        assert(0 <= frames <= len) by (nonlinear_arith)
            requires
                len - frame == hop * frames + (len - frame) % hop,
                0 <= (len - frame) % hop < hop,
                hop >= 1,
                frame >= 1,
                len >= frame,
        ;
        if len >= 2 * sample_rate {
            assert(frames >= 190) by (nonlinear_arith)
                requires
                    len - frame == hop * frames + (len - frame) % hop,
                    0 <= (len - frame) % hop < hop,
                    hop >= 1,
                    hop * 100 <= sample_rate,
                    frame * 10 <= sample_rate,
                    len >= 2 * sample_rate,
            ;
        }
    }
}

/// Whether a plan can be carried out on a signal of `len` samples: a hop
/// moves on, every frame lies inside the signal, the lags are at least
/// thirty frames, and every lag leaves at least half the frames to correlate.
pub open spec fn plan_is_sound(plan: TempoPlan, len: int) -> bool {
    &&& plan.hop_size >= 1
    &&& plan.frames >= FEWEST_FRAMES
    &&& (plan.frames - 1) * plan.hop_size + plan.frame_size <= len
    &&& plan.min_lag >= 30
    &&& plan.max_lag <= plan.frames / 2
}

/// Plans the search for the tempo of a signal of `len` samples.
///
/// A signal shorter than two seconds is refused, and so is one that gives
/// fewer than ten energy frames.
pub fn plan_tempo(len: usize, sample_rate: u32) -> (r: Result<TempoPlan, TempoError>)
    requires
        len >= 2 * sample_rate ==> sample_rate >= 100,
    ensures
        len < 2 * sample_rate ==> r == Err::<TempoPlan, TempoError>(TempoError::TooShort),
        len >= 2 * sample_rate && frames_of(len as int, sample_rate as int) < FEWEST_FRAMES ==> r
            == Err::<TempoPlan, TempoError>(TempoError::NotEnoughData),
        len >= 2 * sample_rate && frames_of(len as int, sample_rate as int) >= FEWEST_FRAMES ==> r
            == Ok::<TempoPlan, TempoError>(plan_of(len as int, sample_rate as int)),
        r matches Ok(plan) ==> plan_is_sound(plan, len as int),
{
    if (len as u64) < 2 * (sample_rate as u64) {
        return Err(TempoError::TooShort);
    }
    proof {
        lemma_plan_bounds(len as int, sample_rate as int);
    }
    let rate: usize = sample_rate as usize;
    let hop_size: usize = rate / 100;
    let frame_size: usize = rate / 10;
    let frames: usize = (len - frame_size) / hop_size;
    if frames < FEWEST_FRAMES {
        return Err(TempoError::NotEnoughData);
    }
    let min_lag: usize = ((3 * (sample_rate as u64)) / (10 * (hop_size as u64))) as usize;
    let slowest: usize = rate / hop_size;
    let half: usize = frames / 2;
    let max_lag: usize = if slowest < half {
        slowest
    } else {
        half
    };
    proof {
        vstd::arithmetic::div_mod::lemma_fundamental_div_mod(
            len - frame_size,
            hop_size as int,
        );
        vstd::arithmetic::div_mod::lemma_mod_bound(len - frame_size, hop_size as int);
        assert((frames - 1) * hop_size + frame_size <= len) by (nonlinear_arith)
            requires
                len - frame_size == hop_size * frames + (len - frame_size) % (hop_size as int),
                0 <= (len - frame_size) % (hop_size as int),
                hop_size >= 1,
                frames >= 1,
        ;
    }
    Ok(TempoPlan { hop_size, frame_size, frames, min_lag, max_lag })
}

/// A signal of two seconds or more always gives enough energy frames.
pub proof fn two_seconds_give_enough_frames(len: int, sample_rate: int)
    requires
        100 <= sample_rate <= u32::MAX,
        len >= 2 * sample_rate,
    ensures
        frames_of(len, sample_rate) >= FEWEST_FRAMES,
{
    lemma_plan_bounds(len, sample_rate);
}

/// The strongest correlation among the first `count` of `correlations` and
/// where it stands. A correlation takes the place of the strongest so far
/// where it is larger; the search starts from zero, so a correlation that is
/// zero, negative or not a number never takes the place.
pub open spec fn strongest(correlations: Seq<u64>, count: int) -> (Option<int>, u64)
    decreases count,
{
    if count <= 0 {
        (None, ZERO_64)
    } else {
        let before = strongest(correlations, count - 1);
        if lt64(before.1, correlations[count - 1]) {
            (Some(count - 1), correlations[count - 1])
        } else {
            before
        }
    }
}

/// How far `low` lies below `high`; zero where it does not.
pub open spec fn gap(low: int, high: int) -> nat {
    if low < high {
        (high - low) as nat
    } else {
        0
    }
}

/// Twice `num` for as long as `num / den` is below 60.
pub open spec fn doubled_up(num: int, den: int) -> int
    decreases gap(num, 60 * den),
{
    if 0 < num < 60 * den {
        doubled_up(2 * num, den)
    } else {
        num
    }
}

/// Twice `den` for as long as `num / den` is above 180.
pub open spec fn doubled_down(num: int, den: int) -> int
    decreases gap(180 * den, num),
{
    if 0 < den && 180 * den < num {
        doubled_down(num, 2 * den)
    } else {
        den
    }
}

/// `num / den` rounded to the nearest integer, a half rounded up.
pub open spec fn rounded(num: int, den: int) -> int {
    (2 * num + den) / (2 * den)
}

/// The tempo of the ratio `num / den` in beats per minute: doubled while it
/// is below 60, then halved while it is above 180, then rounded.
pub open spec fn folded_tempo(num: int, den: int) -> int {
    let up = doubled_up(num, den);
    rounded(up, doubled_down(up, den))
}

/// The tempo that a lag stands for: a beat every `lag` frames, at
/// `sample_rate / hop` frames a second, folded into the reported range.
/// Without a lag it is the default.
pub open spec fn tempo_of(sample_rate: int, lag: Option<int>) -> int {
    match lag {
        None => DEFAULT_BPM as int,
        Some(lag) => folded_tempo(60 * sample_rate, hop_of(sample_rate) * lag),
    }
}

/// What the search for the tempo found.
#[derive(Clone, Copy, Debug, PartialEq, Eq, Structural)]
pub struct TempoEstimate {
    /// The tempo in beats per minute.
    pub bpm: u32,
    /// Where the strongest correlation stands among those that were given;
    /// none where no correlation is above zero.
    pub place: Option<usize>,
    /// The strongest correlation; zero where none is above zero.
    pub correlation: u64,
}

/// The lag that the correlation at `place` belongs to.
pub open spec fn lag_at(sample_rate: int, place: Option<int>) -> Option<int> {
    match place {
        None => None,
        Some(k) => Some(min_lag_of(sample_rate) + k),
    }
}

proof fn lemma_doubled_up(num: int, den: int)
    requires
        num > 0,
        den > 0,
    ensures
        doubled_up(num, den) >= 60 * den,
        doubled_up(num, den) >= num,
        num < 60 * den ==> doubled_up(num, den) < 120 * den,
        num >= 60 * den ==> doubled_up(num, den) == num,
    decreases gap(num, 60 * den),
{
    if num < 60 * den {
        lemma_doubled_up(2 * num, den);
    }
}

proof fn lemma_doubled_down(num: int, den: int)
    requires
        num > 0,
        den > 0,
    ensures
        doubled_down(num, den) >= den,
        num <= 180 * doubled_down(num, den),
        num > 180 * den ==> num > 90 * doubled_down(num, den),
        num <= 180 * den ==> doubled_down(num, den) == den,
    decreases gap(180 * den, num),
{
    if 180 * den < num {
        lemma_doubled_down(num, 2 * den);
    }
}

proof fn lemma_rounded_between(num: int, den: int, low: int, high: int)
    requires
        den > 0,
        low * den <= num <= high * den,
    ensures
        low <= rounded(num, den) <= high,
{
    let q = (2 * num + den) / (2 * den);
    vstd::arithmetic::div_mod::lemma_fundamental_div_mod(2 * num + den, 2 * den);
    vstd::arithmetic::div_mod::lemma_mod_bound(2 * num + den, 2 * den);
    let r = (2 * num + den) % (2 * den);
    assert(q >= low) by (nonlinear_arith)
        requires
            2 * num + den == (2 * den) * q + r,
            0 <= r < 2 * den,
            low * den <= num,
            den > 0,
    ;
    assert(q <= high) by (nonlinear_arith)
        requires
            2 * num + den == (2 * den) * q + r,
            0 <= r < 2 * den,
            num <= high * den,
            den > 0,
    ;
}

/// A folded tempo lies between 60 and 180 beats per minute, both included.
pub proof fn folded_tempo_in_range(num: int, den: int)
    requires
        num > 0,
        den > 0,
    ensures
        LOWEST_BPM <= folded_tempo(num, den) <= HIGHEST_BPM,
{
    let up = doubled_up(num, den);
    lemma_doubled_up(num, den);
    let down = doubled_down(up, den);
    lemma_doubled_down(up, den);
    lemma_rounded_between(up, down, 60, 180);
}

/// The tempo of any lag of any sample rate of a hundred Hz or more lies
/// between 60 and 180 beats per minute, and so does the default.
pub proof fn tempo_in_range(sample_rate: int, lag: Option<int>)
    requires
        100 <= sample_rate,
        lag matches Some(frames) ==> frames > 0,
    ensures
        LOWEST_BPM <= tempo_of(sample_rate, lag) <= HIGHEST_BPM,
{
    match lag {
        None => {},
        Some(frames) => {
            let hop = hop_of(sample_rate);
            vstd::arithmetic::div_mod::lemma_fundamental_div_mod(sample_rate, 100);
            vstd::arithmetic::div_mod::lemma_mod_bound(sample_rate, 100);
            assert(hop * frames > 0) by (nonlinear_arith)
                requires
                    hop >= 1,
                    frames >= 1,
            ;
            folded_tempo_in_range(60 * sample_rate, hop * frames);
        },
    }
}

/// Folds the ratio `num / den` into the reported range and rounds it.
fn fold_tempo(num: u128, den: u128) -> (bpm: u32)
    requires
        0 < num <= 60 * u32::MAX,
        0 < den <= u32::MAX * usize::MAX,
    ensures
        bpm == folded_tempo(num as int, den as int),
        LOWEST_BPM <= bpm <= HIGHEST_BPM,
{
    let mut up: u128 = num;
    proof {
        assert(u32::MAX * usize::MAX <= 0xffff_ffff * 0xffff_ffff_ffff_ffff) by (nonlinear_arith)
            requires
                usize::MAX <= 0xffff_ffff_ffff_ffff,
        ;
        lemma_doubled_up(num as int, den as int);
    }
    while up < 60 * den
        invariant
            0 < up,
            0 < den <= 0xffff_ffff * 0xffff_ffff_ffff_ffff,
            up <= 60 * u32::MAX || up < 120 * den,
            doubled_up(up as int, den as int) == doubled_up(num as int, den as int),
        decreases gap(up as int, 60 * den),
    {
        up = 2 * up;
    }
    let mut down: u128 = den;
    proof {
        lemma_doubled_down(up as int, den as int);
    }
    while 180 * down < up
        invariant
            0 < up,
            0 < down,
            down <= 2 * (0xffff_ffff * 0xffff_ffff_ffff_ffff),
            up <= 60 * u32::MAX || up < 120 * den,
            0 < den <= 0xffff_ffff * 0xffff_ffff_ffff_ffff,
            doubled_down(up as int, down as int) == doubled_down(up as int, den as int),
        decreases gap(180 * down, up as int),
    {
        down = 2 * down;
    }
    proof {
        folded_tempo_in_range(num as int, den as int);
    }
    let bpm: u128 = (2 * up + down) / (2 * down);
    bpm as u32
}

/// Finds the strongest lag and its tempo.
///
/// `correlations[k]` is the correlation of the onset strengths with
/// themselves at a lag of `min_lag + k` frames, `min_lag` being the first lag
/// that the plan for `sample_rate` searches.
pub fn estimate_tempo(sample_rate: u32, correlations: &[u64]) -> (estimate: TempoEstimate)
    requires
        sample_rate >= 100,
    ensures
        estimate.correlation == strongest(correlations@, correlations@.len() as int).1,
        match strongest(correlations@, correlations@.len() as int).0 {
            None => estimate.place is None,
            Some(k) => estimate.place == Some(k as usize),
        },
        estimate.bpm == tempo_of(
            sample_rate as int,
            lag_at(sample_rate as int, strongest(correlations@, correlations@.len() as int).0),
        ),
        LOWEST_BPM <= estimate.bpm <= HIGHEST_BPM,
{
    let mut best: u64 = ZERO_64;
    let mut place: Option<usize> = None;
    let mut index: usize = 0;
    while index < correlations.len()
        invariant
            index <= correlations@.len(),
            best == strongest(correlations@, index as int).1,
            match strongest(correlations@, index as int).0 {
                None => place is None,
                Some(k) => place == Some(k as usize) && 0 <= k < index,
            },
        decreases correlations.len() - index,
    {
        if less64(best, correlations[index]) {
            best = correlations[index];
            place = Some(index);
        }
        index += 1;
    }
    proof {
        lemma_plan_bounds(0, sample_rate as int);
    }
    let hop: u64 = (sample_rate as u64) / 100;
    let min_lag: u64 = (3 * (sample_rate as u64)) / (10 * hop);
    match place {
        None => TempoEstimate { bpm: DEFAULT_BPM, place, correlation: best },
        Some(k) => {
            let lag: u128 = min_lag as u128 + k as u128;
            proof {
                assert(hop * lag <= u32::MAX * usize::MAX) by (nonlinear_arith)
                    requires
                        0 <= hop,
                        hop * 100 <= u32::MAX,
                        0 <= lag <= 59 + usize::MAX,
                        usize::MAX >= u32::MAX,
                ;
                assert(hop * lag > 0) by (nonlinear_arith)
                    requires
                        hop >= 1,
                        lag >= 30,
                ;
            }
            let bpm = fold_tempo(60 * (sample_rate as u128), (hop as u128) * lag);
            TempoEstimate { bpm, place, correlation: best }
        },
    }
}

/// The place that `strongest` names holds a correlation above zero that no
/// other correlation exceeds, and every correlation before it is smaller or
/// not a number. Where it names no place, no correlation is above zero.
pub proof fn strongest_is_first_maximum(correlations: Seq<u64>, count: int, other: int)
    requires
        0 <= other < count <= correlations.len(),
    ensures
        match strongest(correlations, count).0 {
            None => !lt64(ZERO_64, correlations[other]),
            Some(k) => {
                &&& 0 <= k < count
                &&& strongest(correlations, count).1 == correlations[k]
                &&& lt64(ZERO_64, correlations[k])
                &&& !lt64(correlations[k], correlations[other])
                &&& other < k ==> lt64(correlations[other], correlations[k]) || is_nan64(
                    correlations[other],
                )
            },
        },
    decreases count,
{
    lemma_strongest_is_number(correlations, count);
    lemma_strongest_is_number(correlations, count - 1);
    if other < count - 1 {
        strongest_is_first_maximum(correlations, count - 1, other);
    }
    if count - 1 > 0 {
        lemma_strongest_place(correlations, count - 1);
    }
}

proof fn lemma_strongest_is_number(correlations: Seq<u64>, count: int)
    requires
        count <= correlations.len(),
    ensures
        !is_nan64(strongest(correlations, count).1),
        !lt64(strongest(correlations, count).1, ZERO_64),
    decreases count,
{
    if count > 0 {
        lemma_strongest_is_number(correlations, count - 1);
    }
}

proof fn lemma_strongest_place(correlations: Seq<u64>, count: int)
    requires
        0 <= count <= correlations.len(),
    ensures
        match strongest(correlations, count).0 {
            None => strongest(correlations, count).1 == ZERO_64,
            Some(k) => 0 <= k < count && strongest(correlations, count).1 == correlations[k]
                && lt64(ZERO_64, correlations[k]),
        },
    decreases count,
{
    if count > 0 {
        lemma_strongest_place(correlations, count - 1);
        lemma_strongest_is_number(correlations, count - 1);
    }
}

} // verus!
