use sample_downloader::analysis::{
    analyze_audio, plan_analysis, AnalysisError, AnalysisPlan, AudioAnalysis,
};
use sample_downloader::key::KeyError;
use sample_downloader::tempo::{TempoError, TempoPlan};

fn peak_at(place: usize, len: usize) -> Vec<u64> {
    let mut values = vec![0.01f64.to_bits(); len];
    values[place] = 0.35f64.to_bits();
    values
}

fn flat(value: f64) -> Vec<u64> {
    vec![value.to_bits(); 12]
}

fn analysis_of(
    len: usize,
    tempo_score: f64,
    major: &[u64],
    minor: &[u64],
    key_score: f64,
) -> Result<AudioAnalysis, AnalysisError> {
    analyze_audio(
        len,
        44_100,
        &peak_at(20, 65),
        tempo_score.to_bits(),
        major,
        minor,
        key_score.to_bits(),
    )
}

#[test]
fn analysis_of_less_than_two_seconds_is_too_short() {
    assert_eq!(plan_analysis(88_199, 44_100), Err(AnalysisError::Tempo(TempoError::TooShort)));
    assert_eq!(plan_analysis(1, 44_100), Err(AnalysisError::Tempo(TempoError::TooShort)));
    assert_eq!(plan_analysis(44_100, 44_100), Err(AnalysisError::Tempo(TempoError::TooShort)));
    assert_eq!(
        AnalysisError::Tempo(TempoError::TooShort).message(),
        "Audio too short for BPM detection"
    );
}

#[test]
fn a_short_signal_is_too_short_at_any_rate() {
    assert_eq!(plan_analysis(1, 1), Err(AnalysisError::Tempo(TempoError::TooShort)));
    assert_eq!(plan_analysis(197, 99), Err(AnalysisError::Tempo(TempoError::TooShort)));
    assert_eq!(
        plan_analysis(usize::MAX.min(8_000_000_000), u32::MAX),
        Err(AnalysisError::Tempo(TempoError::TooShort))
    );
}

#[test]
fn analysis_of_no_samples_is_refused() {
    assert_eq!(plan_analysis(0, 44_100), Err(AnalysisError::NoSamples));
    assert_eq!(AnalysisError::NoSamples.message(), "No audio samples loaded");
}

#[test]
fn analysis_of_two_seconds_is_planned() {
    assert_eq!(
        plan_analysis(88_200, 44_100),
        Ok(AnalysisPlan {
            tempo: TempoPlan {
                hop_size: 441,
                frame_size: 4_410,
                frames: 190,
                min_lag: 30,
                max_lag: 95
            },
            chroma_frames: 42,
        })
    );
}

#[test]
fn analysis_of_sixty_seconds_is_planned() {
    let plan = plan_analysis(60 * 44_100, 44_100).unwrap();
    assert_eq!(plan.tempo.frames, 5_990);
    assert_eq!(plan.tempo.max_lag, 100);
    assert_eq!(plan.chroma_frames, 1_290);
}

#[test]
fn every_reason_to_refuse_has_its_text() {
    assert_eq!(
        AnalysisError::Tempo(TempoError::NotEnoughData).message(),
        "Not enough data for BPM detection"
    );
    assert_eq!(
        AnalysisError::Key(KeyError::TooShort).message(),
        "Audio too short for key detection"
    );
}

#[test]
fn analysis_puts_tempo_and_key_together() {
    let major = flat(0.1);
    let mut minor = flat(-0.2);
    minor[9] = 0.5f64.to_bits();
    let analysis = analysis_of(88_200, 35.0, &major, &minor, 75.0).unwrap();
    assert_eq!(analysis.bpm, Some(120));
    assert_eq!(analysis.bpm_confidence, Some(35.0f64.to_bits()));
    assert_eq!(analysis.key, Some("Am".to_string()));
    assert_eq!(analysis.key_confidence, Some(75.0f64.to_bits()));
}

#[test]
fn an_analysis_is_refused_for_the_first_reason_that_holds() {
    let major = flat(0.1);
    let minor = flat(0.2);
    let refused = |len: usize| analysis_of(len, 35.0, &major, &minor, 75.0).err();
    assert_eq!(refused(0), Some(AnalysisError::NoSamples));
    assert_eq!(refused(1), Some(AnalysisError::Tempo(TempoError::TooShort)));
    assert_eq!(refused(44_099), Some(AnalysisError::Tempo(TempoError::TooShort)));
    assert_eq!(refused(44_100), Some(AnalysisError::Tempo(TempoError::TooShort)));
    assert_eq!(refused(88_199), Some(AnalysisError::Tempo(TempoError::TooShort)));
    assert_eq!(refused(88_200), None);
    let at_low_rate = analyze_audio(150, 99, &[], 0, &major, &minor, 0);
    assert_eq!(at_low_rate.err(), Some(AnalysisError::Tempo(TempoError::TooShort)));
    assert_eq!(refused(0).unwrap().message(), "No audio samples loaded");
    assert_eq!(refused(5).unwrap().message(), "Audio too short for BPM detection");
}

#[test]
fn confidences_lie_between_zero_and_a_hundred() {
    let major = flat(0.0);
    let minor = flat(0.0);
    for score in [-1.0e9, -1.0, -0.0, 0.0, 1.0e-300, 50.0, 100.0, 100.5, 1.0e300, f64::INFINITY] {
        let analysis = analysis_of(100_000, score, &major, &minor, -score).unwrap();
        assert_eq!(analysis.bpm, Some(120));
        assert_eq!(analysis.key, Some("C Major".to_string()));
        let bpm_confidence = f64::from_bits(analysis.bpm_confidence.unwrap());
        let key_confidence = f64::from_bits(analysis.key_confidence.unwrap());
        assert!((0.0..=100.0).contains(&bpm_confidence), "{}", bpm_confidence);
        assert!((0.0..=100.0).contains(&key_confidence), "{}", key_confidence);
    }
    let none = flat(f64::NAN);
    let odd = analysis_of(100_000, f64::INFINITY, &none, &none, f64::NAN).unwrap();
    assert_eq!(odd.bpm_confidence, Some(100.0f64.to_bits()));
    assert_eq!(odd.key_confidence, Some(0.0f64.to_bits()));
    assert_eq!(odd.key, Some("C".to_string()));
    let exact = analysis_of(100_000, 42.5, &major, &minor, 100.0).unwrap();
    assert_eq!(exact.bpm_confidence, Some(42.5f64.to_bits()));
    assert_eq!(exact.key_confidence, Some(100.0f64.to_bits()));
}

#[test]
fn an_analysis_without_a_correlation_above_zero_has_the_default_tempo() {
    let major = flat(0.3);
    let minor = flat(0.1);
    let analysis =
        analyze_audio(88_200, 44_100, &[], 0.0f64.to_bits(), &major, &minor, 65.0f64.to_bits())
            .unwrap();
    assert_eq!(analysis.bpm, Some(120));
    assert_eq!(analysis.bpm_confidence, Some(0.0f64.to_bits()));
    assert_eq!(analysis.key, Some("C Major".to_string()));
    assert_eq!(analysis.key_confidence, Some(65.0f64.to_bits()));
}
