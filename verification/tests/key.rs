use sample_downloader::ieee::clamp_percent;
use sample_downloader::key::{
    estimate_key, key_label, note_number, pitch_class_name, plan_key, rotate, usable_lag,
    KeyChoice, KeyError, KeyEstimate, Mode,
};

const MAJOR_PROFILE: [f64; 12] =
    [6.35, 2.23, 3.48, 2.33, 4.38, 4.09, 2.52, 5.19, 2.39, 3.66, 2.29, 2.88];
const MINOR_PROFILE: [f64; 12] =
    [6.33, 2.68, 3.52, 5.38, 2.60, 3.53, 2.54, 4.75, 3.98, 2.69, 3.34, 3.17];

fn scores(values: &[f64]) -> Vec<u64> {
    values.iter().map(|v| v.to_bits()).collect()
}

fn numbers(bits: &[u64]) -> Vec<f64> {
    bits.iter().map(|b| f64::from_bits(*b)).collect()
}

fn pearson(x: &[f64], y: &[f64]) -> f64 {
    let n = x.len() as f64;
    let sum_x: f64 = x.iter().sum();
    let sum_y: f64 = y.iter().sum();
    let sum_xy: f64 = x.iter().zip(y.iter()).map(|(a, b)| a * b).sum();
    let sum_x2: f64 = x.iter().map(|a| a * a).sum();
    let sum_y2: f64 = y.iter().map(|a| a * a).sum();
    let numerator = n * sum_xy - sum_x * sum_y;
    let denominator = ((n * sum_x2 - sum_x * sum_x) * (n * sum_y2 - sum_y * sum_y)).sqrt();
    if denominator == 0.0 {
        0.0
    } else {
        numerator / denominator
    }
}

fn correlate(chroma: &[f64]) -> (Vec<u64>, Vec<u64>) {
    let bits = scores(chroma);
    let mut major = Vec::new();
    let mut minor = Vec::new();
    for root in 0..12 {
        let turned = numbers(&rotate(&bits, root));
        major.push(pearson(&turned, &MAJOR_PROFILE).to_bits());
        minor.push(pearson(&turned, &MINOR_PROFILE).to_bits());
    }
    (major, minor)
}

fn chromagram(samples: &[f32], sample_rate: u32, frames: usize) -> Vec<f64> {
    let frame_size = 4096;
    let mut chroma = vec![0.0f64; 12];
    for frame in 0..frames {
        let start = frame * 2048;
        let windowed: Vec<f64> = samples[start..start + frame_size]
            .iter()
            .enumerate()
            .map(|(n, &s)| {
                let turn = 2.0 * std::f64::consts::PI * n as f64 / (frame_size - 1) as f64;
                s as f64 * 0.5 * (1.0 - turn.cos())
            })
            .collect();
        for note in 0..12 {
            for octave in 2..7 {
                let midi_note = note_number(note, octave);
                let freq = 440.0 * 2.0f64.powf((midi_note as f64 - 69.0) / 12.0);
                let lag = (sample_rate as f64 / freq).round() as usize;
                if usable_lag(lag) {
                    let mut corr = 0.0f64;
                    for j in 0..frame_size - lag {
                        corr += windowed[j] * windowed[j + lag];
                    }
                    corr /= (frame_size - lag) as f64;
                    if corr > 0.0 {
                        chroma[note] += corr;
                    }
                }
            }
        }
    }
    if frames > 0 {
        for c in &mut chroma {
            *c /= frames as f64;
        }
    }
    let sum: f64 = chroma.iter().sum();
    if sum > 0.0 {
        for c in &mut chroma {
            *c /= sum;
        }
    }
    chroma
}

#[test]
fn keys_are_named_by_root_and_mode() {
    assert_eq!(key_label(Some(KeyChoice { root: 0, mode: Mode::Major })), "C Major");
    assert_eq!(key_label(Some(KeyChoice { root: 1, mode: Mode::Major })), "C# Major");
    assert_eq!(key_label(Some(KeyChoice { root: 1, mode: Mode::Minor })), "C#m");
    assert_eq!(key_label(Some(KeyChoice { root: 9, mode: Mode::Minor })), "Am");
    assert_eq!(key_label(Some(KeyChoice { root: 9, mode: Mode::Major })), "A Major");
    assert_eq!(key_label(Some(KeyChoice { root: 11, mode: Mode::Minor })), "Bm");
    assert_eq!(key_label(Some(KeyChoice { root: 13, mode: Mode::Minor })), "C#m");
    assert_eq!(key_label(None), "C");
}

#[test]
fn pitch_classes_have_their_sharp_names() {
    let names: Vec<&str> = (0..12).map(pitch_class_name).collect();
    assert_eq!(names, vec!["C", "C#", "D", "D#", "E", "F", "F#", "G", "G#", "A", "A#", "B"]);
    assert_eq!(pitch_class_name(12), "B");
}

#[test]
fn rotate_brings_the_root_to_the_front() {
    let chroma: Vec<u64> = (0..12).collect();
    assert_eq!(rotate(&chroma, 0), chroma);
    assert_eq!(rotate(&chroma, 3), vec![3, 4, 5, 6, 7, 8, 9, 10, 11, 0, 1, 2]);
    assert_eq!(rotate(&chroma, 11), vec![11, 0, 1, 2, 3, 4, 5, 6, 7, 8, 9, 10]);
    assert_eq!(rotate(&chroma, 15), rotate(&chroma, 3));
    assert_eq!(rotate(&chroma, usize::MAX), rotate(&chroma, usize::MAX % 12));
    assert_eq!(rotate(&[], 5), Vec::<u64>::new());
}

#[test]
fn plan_of_the_key_counts_the_windows() {
    assert_eq!(plan_key(44_100, 44_100), Ok(20));
    assert_eq!(plan_key(4_096, 1_000), Ok(0));
    assert_eq!(plan_key(4_097, 1_000), Ok(1));
    assert_eq!(plan_key(6_144, 1_000), Ok(1));
    assert_eq!(plan_key(6_145, 1_000), Ok(2));
    assert_eq!(plan_key(220_500, 44_100), Ok(106));
}

#[test]
fn plan_of_the_key_refuses_less_than_a_second() {
    assert_eq!(plan_key(44_099, 44_100), Err(KeyError::TooShort));
    assert_eq!(plan_key(0, 1), Err(KeyError::TooShort));
    assert_eq!(plan_key(0, 0), Ok(0));
}

#[test]
fn the_best_key_is_the_first_with_the_largest_correlation() {
    let mut major = vec![0.0f64; 12];
    let mut minor = vec![0.0f64; 12];
    major[4] = 0.9;
    minor[2] = 0.9;
    minor[7] = 0.9;
    assert_eq!(
        estimate_key(&scores(&major), &scores(&minor)),
        KeyEstimate {
            choice: Some(KeyChoice { root: 2, mode: Mode::Minor }),
            correlation: 0.9f64.to_bits()
        }
    );
    minor[2] = 0.1;
    assert_eq!(
        estimate_key(&scores(&major), &scores(&minor)).choice,
        Some(KeyChoice { root: 4, mode: Mode::Major })
    );
    major[4] = f64::NAN;
    assert_eq!(
        estimate_key(&scores(&major), &scores(&minor)).choice,
        Some(KeyChoice { root: 7, mode: Mode::Minor })
    );
}

#[test]
fn major_comes_before_minor_of_the_same_root() {
    let both = scores(&[0.25f64; 12]);
    assert_eq!(
        estimate_key(&both, &both).choice,
        Some(KeyChoice { root: 0, mode: Mode::Major })
    );
}

#[test]
fn no_key_is_found_where_nothing_is_above_negative_infinity() {
    let nothing = scores(&[f64::NAN, f64::NEG_INFINITY, f64::NAN]);
    let estimate = estimate_key(&nothing, &nothing);
    assert_eq!(
        estimate,
        KeyEstimate { choice: None, correlation: f64::NEG_INFINITY.to_bits() }
    );
    assert_eq!(key_label(estimate.choice), "C");
    assert_eq!(estimate_key(&[], &[]).choice, None);
}

#[test]
fn a_chromagram_that_is_the_major_profile_of_a_root_gives_that_root_in_major() {
    for root in 0..12usize {
        let mut chroma = vec![0.0f64; 12];
        for i in 0..12 {
            chroma[(i + root) % 12] = MAJOR_PROFILE[i];
        }
        let (major, minor) = correlate(&chroma);
        let estimate = estimate_key(&major, &minor);
        assert_eq!(estimate.choice, Some(KeyChoice { root, mode: Mode::Major }));
        assert!((f64::from_bits(estimate.correlation) - 1.0).abs() < 1e-9);
    }
}

#[test]
fn a_chromagram_that_is_the_minor_profile_of_a_root_gives_that_root_in_minor() {
    for root in 0..12usize {
        let mut chroma = vec![0.0f64; 12];
        for i in 0..12 {
            chroma[(i + root) % 12] = MINOR_PROFILE[i];
        }
        let (major, minor) = correlate(&chroma);
        assert_eq!(
            estimate_key(&major, &minor).choice,
            Some(KeyChoice { root, mode: Mode::Minor })
        );
    }
}

#[test]
fn sine_of_440_hz_has_its_strongest_bin_at_a() {
    let rate = 44_100u32;
    let samples: Vec<f32> = (0..5 * rate as usize)
        .map(|n| (2.0 * std::f64::consts::PI * 440.0 * n as f64 / rate as f64).sin() as f32)
        .collect();
    let frames = plan_key(samples.len(), rate).unwrap();
    assert_eq!(frames, 106);
    let chroma = chromagram(&samples, rate, frames);
    let strongest = (0..12).max_by(|a, b| chroma[*a].partial_cmp(&chroma[*b]).unwrap()).unwrap();
    assert_eq!(strongest, 9);
    let (major, minor) = correlate(&chroma);
    let estimate = estimate_key(&major, &minor);
    assert_eq!(estimate.choice, Some(KeyChoice { root: 2, mode: Mode::Minor }));
    assert_eq!(key_label(estimate.choice), "Dm");
    let a_minor = f64::from_bits(minor[9]);
    let a_major = f64::from_bits(major[9]);
    assert!(a_minor > 0.0 && a_major > 0.0);
    assert!(f64::from_bits(estimate.correlation) > a_minor);
    let score = (f64::from_bits(estimate.correlation) + 1.0) / 2.0 * 100.0;
    let confidence = f64::from_bits(clamp_percent(score.to_bits()));
    assert!(confidence > 50.0 && confidence <= 100.0, "{}", confidence);
}

#[test]
fn notes_are_numbered_like_concert_pitch() {
    assert_eq!(note_number(9, 5), 69);
    assert_eq!(note_number(0, 2), 24);
    assert_eq!(note_number(11, 6), 83);
    assert_eq!(note_number(0, 5), 60);
}

#[test]
fn a_lag_must_lie_in_the_first_half_of_the_window() {
    assert!(!usable_lag(0));
    assert!(usable_lag(1));
    assert!(usable_lag(100));
    assert!(usable_lag(2_047));
    assert!(!usable_lag(2_048));
    assert!(!usable_lag(usize::MAX));
}

#[test]
fn every_window_of_the_plan_ends_before_the_signal() {
    for len in [4_097usize, 6_144, 6_145, 44_100, 220_500, 1_000_003] {
        let frames = plan_key(len, 1).unwrap();
        assert!(frames >= 1);
        assert!((frames - 1) * 2_048 + 4_096 < len);
        assert!(frames * 2_048 + 4_096 >= len);
    }
}
