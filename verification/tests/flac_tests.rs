use dcr_transcribe::flac_encoder::FlacEncoder;
use std::io::Cursor;

fn decode_flac(flac_data: &[u8]) -> Vec<i16> {
    let cursor = Cursor::new(flac_data);
    let mut reader = claxon::FlacReader::new(cursor).expect("a FLAC stream");
    let streaminfo = reader.streaminfo();
    let bits_per_sample = streaminfo.bits_per_sample;
    let total_samples = streaminfo.samples.unwrap_or(0) as usize;
    let mut samples = Vec::new();
    for sample in reader.samples() {
        let sample = sample.expect("a sample");
        let sample_i16 = if bits_per_sample == 16 {
            sample as i16
        } else {
            let scale = (1 << (bits_per_sample - 1)) as f64;
            ((sample as f64 / scale) * 32768.0) as i16
        };
        samples.push(sample_i16);
    }
    if total_samples > 0 && samples.len() > total_samples {
        samples.truncate(total_samples);
    }
    samples
}

#[test]
fn test_flac_encoder_creation() {
    let encoder = FlacEncoder::new(16000, 5);
    assert_eq!(encoder.sample_rate(), 16000);
    assert_eq!(encoder.compression_level(), 5);
}

#[test]
fn test_compression_level_bounds() {
    let encoder = FlacEncoder::new(16000, 10);
    assert_eq!(encoder.compression_level(), 8);
}

#[test]
fn test_encode_empty() {
    let mut encoder = FlacEncoder::new(16000, 5);
    let result = encoder.encode(&[]).unwrap();
    assert!(result.is_empty());
}

#[test]
fn test_encode_sine_wave() {
    let mut encoder = FlacEncoder::new(16000, 5);
    let samples: Vec<i16> = (0..16000)
        .map(|i| {
            let t = i as f32 / 16000.0;
            let freq = 440.0;
            ((t * freq * 2.0 * std::f32::consts::PI).sin() * 10000.0) as i16
        })
        .collect();

    let flac_data = encoder.encode(&samples).unwrap();

    assert!(!flac_data.is_empty());
    let original_size = samples.len() * 2;
    assert!(flac_data.len() < original_size);

    println!(
        "圧縮率: {:.1}% ({} → {} bytes)",
        (flac_data.len() as f64 / original_size as f64) * 100.0,
        original_size,
        flac_data.len()
    );
}

#[test]
fn test_encode_silence() {
    let mut encoder = FlacEncoder::new(16000, 5);
    let samples = vec![0i16; 16000];
    let flac_data = encoder.encode(&samples).unwrap();

    assert!(!flac_data.is_empty());
    let original_size = samples.len() * 2;
    assert!(flac_data.len() < original_size / 10);

    println!(
        "無音圧縮率: {:.1}% ({} → {} bytes)",
        (flac_data.len() as f64 / original_size as f64) * 100.0,
        original_size,
        flac_data.len()
    );
}

#[test]
fn test_different_compression_levels() {
    let samples: Vec<i16> =
        (0..16000).map(|i| ((i as f32 * 0.1).sin() * 10000.0) as i16).collect();

    let mut encoder_low = FlacEncoder::new(16000, 0);
    let flac_low = encoder_low.encode(&samples).unwrap();

    let mut encoder_high = FlacEncoder::new(16000, 8);
    let flac_high = encoder_high.encode(&samples).unwrap();

    println!(
        "低圧縮 (level 0): {} bytes, 高圧縮 (level 8): {} bytes",
        flac_low.len(),
        flac_high.len()
    );

    assert!(flac_high.len() <= flac_low.len());
}

#[test]
fn test_set_compression_level() {
    let mut encoder = FlacEncoder::new(16000, 5);
    assert_eq!(encoder.compression_level(), 5);

    encoder.set_compression_level(8);
    assert_eq!(encoder.compression_level(), 8);

    encoder.set_compression_level(0);
    assert_eq!(encoder.compression_level(), 0);

    encoder.set_compression_level(100);
    assert_eq!(encoder.compression_level(), 8);
}

#[test]
fn test_roundtrip_sine_wave() {
    let sample_rate = 16000;
    let duration_secs = 1.0;
    let frequency = 440.0;

    let original_samples: Vec<i16> = (0..(sample_rate as f32 * duration_secs) as usize)
        .map(|i| {
            let t = i as f32 / sample_rate as f32;
            ((t * frequency * 2.0 * std::f32::consts::PI).sin() * 10000.0) as i16
        })
        .collect();

    println!("元のサンプル数: {}", original_samples.len());

    let mut encoder = FlacEncoder::new(sample_rate, 5);
    let flac_data = encoder.encode(&original_samples).unwrap();

    let decoded_samples = decode_flac(&flac_data);

    println!("デコード後のサンプル数: {}", decoded_samples.len());

    assert_eq!(original_samples.len(), decoded_samples.len(), "サンプル数が一致しません");

    for (i, (original, decoded)) in original_samples.iter().zip(decoded_samples.iter()).enumerate()
    {
        assert_eq!(
            original, decoded,
            "サンプル {} が一致しません: original={}, decoded={}",
            i, original, decoded
        );
    }

    println!("✓ ラウンドトリップテスト成功: すべてのサンプルが完全に一致");
}

#[test]
fn test_roundtrip_silence() {
    let original_samples = vec![0i16; 16000];

    println!("元のサンプル数（無音）: {}", original_samples.len());

    let mut encoder = FlacEncoder::new(16000, 5);
    let flac_data = encoder.encode(&original_samples).unwrap();

    println!(
        "無音FLAC圧縮: {} bytes → {} bytes (圧縮率: {:.1}%)",
        original_samples.len() * 2,
        flac_data.len(),
        (flac_data.len() as f64 / (original_samples.len() * 2) as f64) * 100.0
    );

    let decoded_samples = decode_flac(&flac_data);

    assert_eq!(original_samples, decoded_samples);

    println!("✓ 無音ラウンドトリップテスト成功");
}

#[test]
fn test_roundtrip_complex_waveform() {
    let sample_rate = 16000;
    let frequencies = vec![220.0, 440.0, 880.0];

    let original_samples: Vec<i16> = (0..sample_rate)
        .map(|i| {
            let t = i as f32 / sample_rate as f32;
            let mut sum = 0.0;
            for (idx, &freq) in frequencies.iter().enumerate() {
                let amplitude = 3000.0 / (idx + 1) as f32;
                sum += (t * freq * 2.0 * std::f32::consts::PI).sin() * amplitude;
            }
            sum as i16
        })
        .collect();

    println!("複雑な波形のサンプル数: {}", original_samples.len());

    let mut encoder = FlacEncoder::new(sample_rate, 5);
    let flac_data = encoder.encode(&original_samples).unwrap();

    println!(
        "複雑な波形のFLAC圧縮: {} bytes → {} bytes (圧縮率: {:.1}%)",
        original_samples.len() * 2,
        flac_data.len(),
        (flac_data.len() as f64 / (original_samples.len() * 2) as f64) * 100.0
    );

    let decoded_samples = decode_flac(&flac_data);

    assert_eq!(original_samples.len(), decoded_samples.len());

    for (i, (original, decoded)) in original_samples.iter().zip(decoded_samples.iter()).enumerate()
    {
        assert_eq!(original, decoded, "複雑な波形のサンプル {} が一致しません", i);
    }

    println!("✓ 複雑な波形のラウンドトリップテスト成功");
}

#[test]
fn test_roundtrip_random_data() {
    let original_samples: Vec<i16> = (0..8000)
        .map(|i| {
            let x = ((i as u32).wrapping_mul(1103515245).wrapping_add(12345) & 0x7fffffff) as i16;
            x
        })
        .collect();

    println!("ランダムデータのサンプル数: {}", original_samples.len());

    let mut encoder = FlacEncoder::new(16000, 5);
    let flac_data = encoder.encode(&original_samples).unwrap();

    println!(
        "ランダムデータのFLAC圧縮: {} bytes → {} bytes (圧縮率: {:.1}%)",
        original_samples.len() * 2,
        flac_data.len(),
        (flac_data.len() as f64 / (original_samples.len() * 2) as f64) * 100.0
    );

    println!("  → ランダムデータは圧縮しにくいため、圧縮率が低い");

    let decoded_samples = decode_flac(&flac_data);

    assert_eq!(original_samples.len(), decoded_samples.len());

    for (i, (original, decoded)) in original_samples.iter().zip(decoded_samples.iter()).enumerate()
    {
        assert_eq!(original, decoded, "ランダムデータのサンプル {} が一致しません", i);
    }

    println!("✓ ランダムデータのラウンドトリップテスト成功（可逆圧縮を確認）");
}

#[test]
fn test_roundtrip_different_compression_levels() {
    let original_samples: Vec<i16> = (0..16000)
        .map(|i| {
            let t = i as f32 / 16000.0;
            ((t * 440.0 * 2.0 * std::f32::consts::PI).sin() * 10000.0) as i16
        })
        .collect();

    for compression_level in [0, 5, 8] {
        let mut encoder = FlacEncoder::new(16000, compression_level);
        let flac_data = encoder.encode(&original_samples).unwrap();

        println!(
            "圧縮レベル {}: {} bytes (圧縮率: {:.1}%)",
            compression_level,
            flac_data.len(),
            (flac_data.len() as f64 / (original_samples.len() * 2) as f64) * 100.0
        );

        let decoded_samples = decode_flac(&flac_data);

        assert_eq!(
            original_samples, decoded_samples,
            "圧縮レベル {} でデータが一致しません",
            compression_level
        );
    }

    println!("✓ すべての圧縮レベルでラウンドトリップテスト成功");
}

#[test]
fn encoding_is_repeatable_and_starts_with_the_stream_marker() {
    let samples: Vec<i16> = (0..4000).map(|i| ((i * 37) % 2000 - 1000) as i16).collect();
    let mut a = FlacEncoder::new(16000, 5);
    let mut b = FlacEncoder::new(16000, 5);
    let first = a.encode(&samples).unwrap();
    let second = b.encode(&samples).unwrap();
    assert_eq!(first, second);
    assert_eq!(&first[..4], b"fLaC");
    assert_eq!(decode_flac(&first), samples);
    assert_eq!(a.sample_rate(), 16000);
    assert_eq!(a.compression_level(), 5);
}

#[test]
fn unusual_rates_give_a_stream_or_an_error() {
    let samples: Vec<i16> = (0..5000).map(|i| ((i * 13) % 700 - 350) as i16).collect();
    for rate in [0u32, 1, 7, 8000, 44100, 96000, 655_350, 1_000_000, 1_048_575, 1_048_576, u32::MAX]
    {
        let mut encoder = FlacEncoder::new(rate, 5);
        match encoder.encode(&samples) {
            Ok(bytes) => assert_eq!(&bytes[..4], b"fLaC"),
            Err(_) => {}
        }
        match encoder.encode(&samples[..1]) {
            Ok(bytes) => assert_eq!(&bytes[..4], b"fLaC"),
            Err(_) => {}
        }
    }
}
