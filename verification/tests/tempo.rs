use sample_downloader::ieee::cap_at_hundred;
use sample_downloader::tempo::{
    estimate_tempo, plan_tempo, TempoError, TempoEstimate, TempoPlan, DEFAULT_BPM,
};

fn scores(values: &[f64]) -> Vec<u64> {
    values.iter().map(|v| v.to_bits()).collect()
}

fn peak_at(place: usize, len: usize) -> Vec<u64> {
    let mut values = vec![0.01f64; len];
    values[place] = 0.5;
    scores(&values)
}

fn onsets_of(samples: &[f32], plan: &TempoPlan) -> Vec<f32> {
    let mut energies: Vec<f32> = Vec::new();
    for frame in 0..plan.frames {
        let start = frame * plan.hop_size;
        energies.push(samples[start..start + plan.frame_size].iter().map(|s| s * s).sum());
    }
    let mut onsets: Vec<f32> = vec![0.0];
    for i in 1..energies.len() {
        onsets.push((energies[i] - energies[i - 1]).max(0.0));
    }
    let max_onset = onsets.iter().cloned().fold(0.0f32, f32::max);
    if max_onset > 0.0 {
        for onset in &mut onsets {
            *onset /= max_onset;
        }
    }
    onsets
}

fn correlations_of(onsets: &[f32], plan: &TempoPlan) -> Vec<u64> {
    let mut correlations = Vec::new();
    for lag in plan.min_lag..plan.max_lag {
        let count = onsets.len() - lag;
        let mut correlation = 0.0f64;
        for i in 0..count {
            correlation += (onsets[i] * onsets[i + lag]) as f64;
        }
        correlations.push((correlation / count as f64).to_bits());
    }
    correlations
}

#[test]
fn plan_of_two_seconds_at_44100() {
    assert_eq!(
        plan_tempo(88_200, 44_100),
        Ok(TempoPlan { hop_size: 441, frame_size: 4_410, frames: 190, min_lag: 30, max_lag: 95 })
    );
}

#[test]
fn plan_of_ten_seconds_at_44100() {
    assert_eq!(
        plan_tempo(441_000, 44_100),
        Ok(TempoPlan { hop_size: 441, frame_size: 4_410, frames: 990, min_lag: 30, max_lag: 100 })
    );
}

#[test]
fn plan_of_a_rate_that_a_hundred_does_not_divide() {
    assert_eq!(
        plan_tempo(50_000, 22_050),
        Ok(TempoPlan { hop_size: 220, frame_size: 2_205, frames: 217, min_lag: 30, max_lag: 100 })
    );
}

#[test]
fn plan_counts_whole_hops_only() {
    assert_eq!(plan_tempo(88_200 + 440, 44_100).unwrap().frames, 190);
    assert_eq!(plan_tempo(88_200 + 441, 44_100).unwrap().frames, 191);
}

#[test]
fn plan_refuses_less_than_two_seconds() {
    assert_eq!(plan_tempo(88_199, 44_100), Err(TempoError::TooShort));
    assert_eq!(plan_tempo(0, 44_100), Err(TempoError::TooShort));
    assert_eq!(plan_tempo(199, 100), Err(TempoError::TooShort));
    assert!(plan_tempo(200, 100).is_ok());
}

#[test]
fn tempo_of_the_lag_of_half_a_second_is_120() {
    let estimate = estimate_tempo(44_100, &peak_at(20, 70));
    assert_eq!(
        estimate,
        TempoEstimate { bpm: 120, place: Some(20), correlation: 0.5f64.to_bits() }
    );
}

#[test]
fn tempo_is_halved_above_180_and_rounded() {
    assert_eq!(estimate_tempo(44_100, &peak_at(0, 70)).bpm, 100);
    assert_eq!(estimate_tempo(44_100, &peak_at(3, 70)).bpm, 91);
    assert_eq!(estimate_tempo(44_100, &peak_at(4, 70)).bpm, 176);
    assert_eq!(estimate_tempo(44_100, &peak_at(10, 70)).bpm, 150);
    assert_eq!(estimate_tempo(44_100, &peak_at(18, 70)).bpm, 125);
    assert_eq!(estimate_tempo(44_100, &peak_at(69, 70)).bpm, 61);
}

#[test]
fn tempo_is_doubled_below_60() {
    assert_eq!(estimate_tempo(44_100, &peak_at(70, 171)).bpm, 60);
    assert_eq!(estimate_tempo(44_100, &peak_at(170, 171)).bpm, 60);
    assert_eq!(estimate_tempo(44_100, &peak_at(90, 171)).bpm, 100);
    assert_eq!(estimate_tempo(44_100, &peak_at(370, 371)).bpm, 60);
    assert_eq!(estimate_tempo(44_100, &peak_at(270, 371)).bpm, 80);
}

#[test]
fn tempo_rounds_a_half_up() {
    assert_eq!(estimate_tempo(44_100, &peak_at(18, 70)).bpm, 125);
    assert_eq!(estimate_tempo(44_100, &peak_at(50, 70)).bpm, 75);
    assert_eq!(estimate_tempo(100, &peak_at(18, 70)).bpm, 125);
    assert_eq!(estimate_tempo(44_100, &peak_at(34, 70)).bpm, 94);
}

#[test]
fn tempo_is_the_default_where_no_correlation_is_above_zero() {
    let flat = scores(&[0.0, -0.0, -1.0, f64::NAN, f64::NEG_INFINITY]);
    assert_eq!(
        estimate_tempo(44_100, &flat),
        TempoEstimate { bpm: DEFAULT_BPM, place: None, correlation: 0 }
    );
    assert_eq!(estimate_tempo(44_100, &[]).bpm, 120);
}

#[test]
fn the_first_of_equal_correlations_wins() {
    let values = scores(&[0.1, 0.7, 0.3, 0.7, f64::NAN, 0.7]);
    let estimate = estimate_tempo(44_100, &values);
    assert_eq!(estimate.place, Some(1));
    assert_eq!(estimate.correlation, 0.7f64.to_bits());
    assert_eq!(estimate.bpm, 97);
}

#[test]
fn every_tempo_lies_between_60_and_180() {
    for rate in [100u32, 199, 8_000, 22_050, 44_100, 48_000, 192_000, u32::MAX] {
        for place in 0..400 {
            let bpm = estimate_tempo(rate, &peak_at(place, 400)).bpm;
            assert!((60..=180).contains(&bpm), "rate {} place {} bpm {}", rate, place, bpm);
        }
    }
}

#[test]
fn click_train_of_120_beats_a_minute() {
    let rate = 44_100u32;
    let mut samples = vec![0.0f32; 10 * rate as usize];
    let mut at = 0;
    while at < samples.len() {
        samples[at] = 1.0;
        at += rate as usize / 2;
    }
    let plan = plan_tempo(samples.len(), rate).unwrap();
    let onsets = onsets_of(&samples, &plan);
    assert_eq!(onsets.len(), 990);
    assert_eq!(onsets[0], 0.0);
    let estimate = estimate_tempo(rate, &correlations_of(&onsets, &plan));
    assert!((119..=121).contains(&estimate.bpm));
    assert_eq!(estimate.bpm, 120);
    assert_eq!(estimate.place, Some(20));
    let confidence = f64::from_bits(cap_at_hundred(
        (f64::from_bits(estimate.correlation) * 100.0).to_bits(),
    ));
    assert!(confidence > 1.0 && confidence <= 100.0, "{}", confidence);
}

#[test]
fn every_frame_of_the_plan_lies_inside_the_signal() {
    let signals = [
        (88_200usize, 44_100u32),
        (88_641, 44_100),
        (200, 100),
        (1_000_000, 199),
        (96_001, 48_000),
    ];
    for (len, rate) in signals {
        let plan = plan_tempo(len, rate).unwrap();
        assert!(plan.hop_size >= 1);
        assert!(plan.frames >= 190);
        assert!((plan.frames - 1) * plan.hop_size + plan.frame_size <= len);
        assert!((30..60).contains(&plan.min_lag));
        assert!(plan.max_lag <= plan.frames / 2);
        assert!(plan.max_lag <= 199);
    }
}
