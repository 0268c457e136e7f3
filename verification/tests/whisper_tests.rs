use dcr_transcribe::whisper_api::{WavError, WhisperBackend, WhisperConfig};
use std::io::Cursor;

fn backend(sample_rate: u32, chunk_duration_secs: u64) -> WhisperBackend {
    let config = WhisperConfig {
        api_key: "SECRET-REDACTED".to_string(),
        model: "whisper-1".to_string(),
        language: Some("ja".to_string()),
        sample_rate,
        chunk_duration_secs,
    };
    WhisperBackend::new(config, 1, 1_000_000_000)
}

#[test]
fn a_block_goes_out_when_its_duration_is_gathered() {
    let mut b = backend(16000, 5);
    assert_eq!(b.channel_id(), 1);
    assert_eq!(b.config().model, "whisper-1");
    let mut fed: Vec<i16> = Vec::new();
    for n in 0..49 {
        let chunk = vec![n as i16; 1600];
        fed.extend(chunk.iter().copied());
        assert_eq!(b.push(&chunk), None);
    }
    let chunk = vec![49i16; 1700];
    fed.extend(chunk.iter().copied());
    // All that was gathered goes out, not just five seconds of it.
    let block = b.push(&chunk).unwrap();
    assert_eq!(block.len(), 80_100);
    assert_eq!(block, fed);
    assert_eq!(b.push(&[1, 2, 3]), None);
    assert_eq!(b.finish(), Some(vec![1, 2, 3]));
    assert_eq!(b.finish(), None);
}

#[test]
fn a_block_of_no_duration_goes_out_with_every_chunk() {
    let mut b = backend(16000, 0);
    assert_eq!(b.push(&[4, 5]), Some(vec![4, 5]));
    assert_eq!(b.push(&[]), Some(Vec::new()));
}

#[test]
fn a_wave_blob_has_the_pcm_header_and_the_samples() {
    let b = backend(16000, 5);
    let bytes = b.pcm_to_wav(&[1, -2]).unwrap();
    let want: Vec<u8> = vec![
        b'R', b'I', b'F', b'F', 40, 0, 0, 0, b'W', b'A', b'V', b'E', //
        b'f', b'm', b't', b' ', 16, 0, 0, 0, 1, 0, 1, 0, //
        0x80, 0x3e, 0, 0, 0x00, 0x7d, 0, 0, 2, 0, 16, 0, //
        b'd', b'a', b't', b'a', 4, 0, 0, 0, //
        0x01, 0x00, 0xfe, 0xff,
    ];
    assert_eq!(bytes, want);
    let empty = b.pcm_to_wav(&[]).unwrap();
    assert_eq!(empty.len(), 44);
    assert_eq!(&empty[4..8], &[36, 0, 0, 0]);
    assert_eq!(&empty[40..44], &[0, 0, 0, 0]);
}

#[test]
fn a_wave_blob_reads_back_as_the_samples() {
    let b = backend(8000, 5);
    let samples: Vec<i16> = (0..3000).map(|i| ((i * 97) % 65536 - 32768) as i16).collect();
    let bytes = b.pcm_to_wav(&samples).unwrap();
    assert_eq!(bytes.len(), 44 + 2 * samples.len());
    let mut reader = hound::WavReader::new(Cursor::new(bytes)).unwrap();
    let spec = reader.spec();
    assert_eq!(spec.channels, 1);
    assert_eq!(spec.sample_rate, 8000);
    assert_eq!(spec.bits_per_sample, 16);
    let read: Vec<i16> = reader.samples::<i16>().map(|s| s.unwrap()).collect();
    assert_eq!(read, samples);
}

#[test]
fn a_rate_that_a_wave_file_cannot_hold_is_unsupported() {
    assert_eq!(backend(0, 5).pcm_to_wav(&[1, 2]), Err(WavError::Unsupported));
    assert_eq!(backend(0x8000_0000, 5).pcm_to_wav(&[1, 2]), Err(WavError::Unsupported));
    assert!(backend(0x7fff_ffff, 5).pcm_to_wav(&[1, 2]).is_ok());
}

#[test]
fn an_empty_text_gives_no_transcript() {
    let mut b = backend(16000, 5);
    assert!(b.transcript_of(String::new(), 2_000_000_000).is_none());
    let t = b.transcript_of("了解".to_string(), 2_500_000_000).unwrap();
    assert_eq!(t.channel, 1);
    assert_eq!(t.text, "了解");
    assert!(!t.is_partial);
    assert_eq!(t.stability, None);
    assert_eq!(t.timestamp_millis, 1500);
    assert_eq!(t.timestamp, "1970-01-01T00:00:02+00:00");
    b.reset_start_time(2_500_000_000);
    let t = b.transcript_of("了解".to_string(), 2_500_000_000).unwrap();
    assert_eq!(t.timestamp_millis, 0);
}

#[test]
fn every_supported_block_gives_a_wave_blob() {
    for rate in [1u32, 8000, 16000, 44100, 0x7fff_ffff] {
        let b = backend(rate, 1);
        for len in [0usize, 1, 2, 999] {
            let samples: Vec<i16> = (0..len).map(|i| (i as i16).wrapping_mul(257)).collect();
            let bytes = b.pcm_to_wav(&samples).expect("a wave blob");
            assert_eq!(bytes.len(), 44 + 2 * len);
            assert_eq!(&bytes[24..28], &rate.to_le_bytes());
            assert_eq!(&bytes[28..32], &(rate * 2).to_le_bytes());
        }
    }
}
