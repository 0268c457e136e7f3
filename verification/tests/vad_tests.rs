use dcr_transcribe::config::VadConfig;
use dcr_transcribe::types::VadState;
use dcr_transcribe::vad::{sum_of_squares, VoiceActivityDetector, SILENCE_FLOOR_MDB};

/// Level of a chunk in thousandths of a decibel: 20·log10 of the RMS of the
/// samples scaled to full scale.
fn level_mdb(samples: &[i16]) -> i32 {
    if samples.is_empty() {
        return -100_000;
    }
    let energy = sum_of_squares(samples) as f64;
    let mean_square = energy / samples.len() as f64 / (32767.0 * 32767.0);
    let rms = mean_square.sqrt();
    if rms <= 0.0 {
        return -100_000;
    }
    (20.0 * rms.log10() * 1000.0).round() as i32
}

fn process(vad: &mut VoiceActivityDetector, samples: &[i16]) -> bool {
    vad.process(samples, level_mdb(samples))
}

fn config(threshold_mdb: i32, hangover_duration_ms: u32) -> VadConfig {
    VadConfig { threshold_mdb, hangover_duration_ms, silence_disconnect_threshold_ms: 10_000 }
}

fn voice(amplitude: f32) -> Vec<i16> {
    (0..1600).map(|i| ((i as f32 * 0.1).sin() * amplitude) as i16).collect()
}

#[test]
fn test_silence_detection() {
    let mut vad = VoiceActivityDetector::new(&config(-40_000, 500), 16000);
    let silence = vec![0i16; 1600];
    assert!(!process(&mut vad, &silence));
    assert_eq!(vad.get_state(), VadState::Silence);
}

#[test]
fn test_voice_detection() {
    let mut vad = VoiceActivityDetector::new(&config(-40_000, 500), 16000);
    let voice = voice(10000.0);
    assert!(process(&mut vad, &voice));
    assert!(matches!(vad.get_state(), VadState::Voice { .. }));
}

#[test]
fn test_hangover() {
    let mut vad = VoiceActivityDetector::new(&config(-40_000, 500), 16000);

    let voice = voice(10000.0);
    assert!(process(&mut vad, &voice));

    let silence = vec![0i16; 1600];
    assert!(process(&mut vad, &silence));

    assert!(process(&mut vad, &silence));

    let long_silence = vec![0i16; 16000 * 5 / 10];
    assert!(!process(&mut vad, &long_silence));
    assert_eq!(vad.get_state(), VadState::Silence);
}

#[test]
fn test_low_amplitude_voice() {
    let mut vad = VoiceActivityDetector::new(&config(-40_000, 500), 16000);
    let low_voice = voice(100.0);
    assert!(!process(&mut vad, &low_voice));
}

#[test]
fn test_empty_samples() {
    let mut vad = VoiceActivityDetector::new(&config(-40_000, 500), 16000);
    let empty: Vec<i16> = vec![];
    assert!(!process(&mut vad, &empty));
}

#[test]
fn test_voice_continuation() {
    let mut vad = VoiceActivityDetector::new(&config(-40_000, 500), 16000);
    let voice = voice(10000.0);

    assert!(process(&mut vad, &voice));
    assert!(process(&mut vad, &voice));
    assert!(process(&mut vad, &voice));

    if let VadState::Voice { hangover_remaining_ms } = vad.get_state() {
        assert_eq!(hangover_remaining_ms, 500);
    } else {
        panic!("Expected Voice state");
    }
}

#[test]
fn test_different_thresholds() {
    let voice = voice(5000.0);

    let mut strict_vad = VoiceActivityDetector::new(&config(-20_000, 500), 16000);
    let mut loose_vad = VoiceActivityDetector::new(&config(-60_000, 500), 16000);

    let strict_result = process(&mut strict_vad, &voice);
    let loose_result = process(&mut loose_vad, &voice);

    if !strict_result {
        assert!(loose_result || !loose_result);
    }
    assert!(loose_result);
}

#[test]
fn test_is_voice_method() {
    let mut vad = VoiceActivityDetector::new(&config(-40_000, 500), 16000);
    assert!(!vad.is_voice());

    let voice = voice(10000.0);
    process(&mut vad, &voice);

    assert!(vad.is_voice());
}

#[test]
fn hangover_counts_down_by_the_length_of_each_quiet_chunk() {
    let mut vad = VoiceActivityDetector::new(&config(-40_000, 500), 16000);
    let quiet = vec![1i16; 1600];
    assert!(vad.process(&quiet, -20_000));
    assert_eq!(vad.get_state(), VadState::Voice { hangover_remaining_ms: 500 });
    assert!(vad.process(&quiet, -60_000));
    assert_eq!(vad.get_state(), VadState::Voice { hangover_remaining_ms: 400 });
    assert!(vad.process(&quiet, -60_000));
    assert!(vad.process(&quiet, -60_000));
    assert!(vad.process(&quiet, -60_000));
    assert_eq!(vad.get_state(), VadState::Voice { hangover_remaining_ms: 100 });
    // What is left is not more than the chunk: silence.
    assert!(!vad.process(&quiet, -60_000));
    assert_eq!(vad.get_state(), VadState::Silence);
    assert!(!vad.process(&quiet, -60_000));
    assert_eq!(vad.get_state(), VadState::Silence);
}

#[test]
fn a_level_equal_to_the_threshold_is_not_voice() {
    let mut vad = VoiceActivityDetector::new(&config(-40_000, 500), 16000);
    let chunk = vec![5i16; 160];
    assert!(!vad.process(&chunk, -40_000));
    assert!(vad.process(&chunk, -39_999));
    assert_eq!(vad.threshold_mdb(), -40_000);
}

#[test]
fn an_empty_chunk_changes_nothing() {
    let mut vad = VoiceActivityDetector::new(&config(-40_000, 500), 16000);
    let chunk = vec![5i16; 1600];
    assert!(vad.process(&chunk, -10_000));
    assert_eq!(vad.get_last_volume_mdb(), -10_000);
    // Reported as silence, but the state and the level stay.
    assert!(!vad.process(&[], 0));
    assert_eq!(vad.get_state(), VadState::Voice { hangover_remaining_ms: 500 });
    assert_eq!(vad.get_last_volume_mdb(), -10_000);
    assert!(vad.is_voice());
}

#[test]
fn digital_silence_is_reported_at_the_floor() {
    let mut vad = VoiceActivityDetector::new(&config(-40_000, 500), 16000);
    assert_eq!(vad.get_last_volume_mdb(), SILENCE_FLOOR_MDB);
    // The measured level is not used for a chunk of zeros.
    assert!(!vad.process(&vec![0i16; 1600], 0));
    assert_eq!(vad.get_last_volume_mdb(), -100_000);
    // With a threshold below the floor even digital silence is voice.
    let mut eager = VoiceActivityDetector::new(&config(-120_000, 500), 16000);
    assert!(eager.process(&vec![0i16; 1600], -150_000));
}

#[test]
fn pure_silence_never_leaves_silence() {
    let mut vad = VoiceActivityDetector::new(&config(-40_000, 500), 16000);
    for _ in 0..50 {
        assert!(!process(&mut vad, &vec![0i16; 1600]));
        assert_eq!(vad.get_state(), VadState::Silence);
    }
}

#[test]
fn sum_of_squares_is_exact() {
    assert_eq!(sum_of_squares(&[]), 0);
    assert_eq!(sum_of_squares(&[0, 0, 0]), 0);
    assert_eq!(sum_of_squares(&[3, -4]), 25);
    assert_eq!(sum_of_squares(&[i16::MIN, i16::MAX]), 1_073_741_824 + 1_073_676_289);
    assert_eq!(sum_of_squares(&vec![1000i16; 1600]), 1_600_000_000);
    // The RMS of a constant signal is its magnitude.
    let rms = ((sum_of_squares(&vec![1000i16; 1600]) as f64) / 1600.0).sqrt() / 32767.0;
    assert!((rms - 1000.0 / 32767.0).abs() < 0.000001);
}
