use dcr_transcribe::buffer::AudioBuffer;
use dcr_transcribe::config::BufferConfig;
use dcr_transcribe::types::{BufferedChunk, DropPolicy};

fn buffer(capacity_seconds: u32, drop_policy: DropPolicy, rate: u32) -> AudioBuffer {
    AudioBuffer::new(&BufferConfig { capacity_seconds, drop_policy }, rate)
}

#[test]
fn test_push_and_capacity() {
    let config = BufferConfig { capacity_seconds: 1, drop_policy: DropPolicy::DropOldest };
    let mut buffer = AudioBuffer::new(&config, 16000);

    let chunk1 = BufferedChunk { samples: vec![1i16; 8000], timestamp_ns: 0 };
    buffer.push(chunk1);
    assert_eq!(buffer.len(), 8000);

    let chunk2 = BufferedChunk { samples: vec![2i16; 8000], timestamp_ns: 500_000_000 };
    buffer.push(chunk2);
    assert_eq!(buffer.len(), 16000);

    let chunk3 = BufferedChunk { samples: vec![3i16; 8000], timestamp_ns: 1_000_000_000 };
    buffer.push(chunk3);
    assert!(buffer.len() <= 16000);
}

#[test]
fn test_get_latest() {
    let config = BufferConfig { capacity_seconds: 10, drop_policy: DropPolicy::DropOldest };
    let mut buffer = AudioBuffer::new(&config, 16000);

    buffer.push(BufferedChunk { samples: vec![1i16; 16000], timestamp_ns: 0 });
    buffer.push(BufferedChunk { samples: vec![2i16; 16000], timestamp_ns: 1_000_000_000 });
    buffer.push(BufferedChunk { samples: vec![3i16; 16000], timestamp_ns: 2_000_000_000 });

    let latest = buffer.get_latest(1000);
    assert_eq!(latest.len(), 16000);
    assert_eq!(latest[0], 3i16);
}

#[test]
fn test_clear_before() {
    let config = BufferConfig { capacity_seconds: 10, drop_policy: DropPolicy::DropOldest };
    let mut buffer = AudioBuffer::new(&config, 16000);

    buffer.push(BufferedChunk { samples: vec![1i16; 16000], timestamp_ns: 0 });
    buffer.push(BufferedChunk { samples: vec![2i16; 16000], timestamp_ns: 1_000_000_000 });
    buffer.push(BufferedChunk { samples: vec![3i16; 16000], timestamp_ns: 2_000_000_000 });

    buffer.clear_before(1_500_000_000);

    assert!(buffer.len() < 48000);
}

#[test]
fn clear_before_drops_exactly_the_chunks_that_ended() {
    let mut b = buffer(10, DropPolicy::DropOldest, 16000);
    b.push(BufferedChunk { samples: vec![1i16; 16000], timestamp_ns: 0 });
    b.push(BufferedChunk { samples: vec![2i16; 16000], timestamp_ns: 1_000_000_000 });
    b.push(BufferedChunk { samples: vec![3i16; 16000], timestamp_ns: 2_000_000_000 });
    // The first chunk ends at 1 s: it is not strictly before 1 s.
    b.clear_before(1_000_000_000);
    assert_eq!(b.len(), 48000);
    b.clear_before(1_000_000_001);
    assert_eq!(b.len(), 32000);
    b.clear_before(1_500_000_000);
    assert_eq!(b.len(), 32000);
    b.clear_before(10_000_000_000);
    assert_eq!(b.len(), 0);
    assert!(b.is_empty());
}

#[test]
fn drop_oldest_evicts_the_earliest_chunk() {
    let mut b = buffer(2, DropPolicy::DropOldest, 16000);
    b.push(BufferedChunk { samples: vec![1i16; 24000], timestamp_ns: 0 });
    assert_eq!(b.len(), 24000);
    b.push(BufferedChunk { samples: vec![2i16; 24000], timestamp_ns: 1_500_000_000 });
    assert_eq!(b.len(), 24000);
    b.push(BufferedChunk { samples: vec![3i16; 24000], timestamp_ns: 3_000_000_000 });
    assert!(b.len() <= 32000);
    assert_eq!(b.len(), 24000);
    let all = b.get_range(0, 10_000_000_000);
    assert_eq!(all, vec![3i16; 24000]);
}

#[test]
fn drop_newest_keeps_what_came_first() {
    let mut b = buffer(1, DropPolicy::DropNewest, 16000);
    b.push(BufferedChunk { samples: vec![1i16; 8000], timestamp_ns: 0 });
    b.push(BufferedChunk { samples: vec![2i16; 8000], timestamp_ns: 500_000_000 });
    b.push(BufferedChunk { samples: vec![3i16; 8000], timestamp_ns: 1_000_000_000 });
    assert_eq!(b.len(), 16000);
    let latest = b.get_latest(500);
    assert_eq!(latest, vec![2i16; 8000]);
}

#[test]
fn block_policy_evicts_like_drop_oldest() {
    let mut b = buffer(1, DropPolicy::Block, 16000);
    b.push(BufferedChunk { samples: vec![1i16; 8000], timestamp_ns: 0 });
    b.push(BufferedChunk { samples: vec![2i16; 8000], timestamp_ns: 500_000_000 });
    b.push(BufferedChunk { samples: vec![3i16; 8000], timestamp_ns: 1_000_000_000 });
    assert_eq!(b.len(), 16000);
    let all = b.get_range(0, 10_000_000_000);
    assert_eq!(&all[..8000], &vec![2i16; 8000][..]);
    assert_eq!(&all[8000..], &vec![3i16; 8000][..]);
}

#[test]
fn a_chunk_larger_than_the_capacity_does_not_stay() {
    let mut b = buffer(1, DropPolicy::DropOldest, 100);
    b.push(BufferedChunk { samples: vec![7i16; 101], timestamp_ns: 0 });
    assert_eq!(b.len(), 0);
    assert!(b.is_empty());
}

#[test]
fn get_range_clips_a_single_chunk_at_the_window() {
    let mut b = buffer(10, DropPolicy::DropOldest, 16000);
    let samples: Vec<i16> = (0..16000).map(|i| i as i16).collect();
    b.push(BufferedChunk { samples: samples.clone(), timestamp_ns: 1_000_000_000 });
    // The whole chunk.
    assert_eq!(b.get_range(0, 5_000_000_000), samples);
    assert_eq!(b.get_range(1_000_000_000, 2_000_000_000), samples);
    // From 1.25 s to 1.5 s.
    assert_eq!(b.get_range(1_250_000_000, 1_500_000_000), samples[4000..8000].to_vec());
    // Clipped at the start only.
    assert_eq!(b.get_range(1_750_000_000, 9_000_000_000), samples[12000..].to_vec());
    // Clipped at the end only.
    assert_eq!(b.get_range(0, 1_000_062_500), samples[..1].to_vec());
    // Outside the chunk.
    assert_eq!(b.get_range(0, 999_999_999), Vec::<i16>::new());
    assert_eq!(b.get_range(2_000_000_001, 3_000_000_000), Vec::<i16>::new());
    // A window that ends before it starts takes nothing.
    assert_eq!(b.get_range(1_800_000_000, 1_200_000_000), Vec::<i16>::new());
}

#[test]
fn get_range_joins_overlapping_chunks_in_order() {
    let mut b = buffer(10, DropPolicy::DropOldest, 1000);
    b.push(BufferedChunk { samples: vec![1i16; 1000], timestamp_ns: 0 });
    b.push(BufferedChunk { samples: vec![2i16; 1000], timestamp_ns: 1_000_000_000 });
    b.push(BufferedChunk { samples: vec![3i16; 1000], timestamp_ns: 2_000_000_000 });
    let got = b.get_range(900_000_000, 2_100_000_000);
    let mut want = vec![1i16; 100];
    want.extend(vec![2i16; 1000]);
    want.extend(vec![3i16; 100]);
    assert_eq!(got, want);
}

#[test]
fn get_latest_returns_the_newest_samples_in_order() {
    let mut b = buffer(10, DropPolicy::DropOldest, 1000);
    b.push(BufferedChunk { samples: vec![1i16; 1000], timestamp_ns: 0 });
    b.push(BufferedChunk { samples: vec![2i16; 1000], timestamp_ns: 1_000_000_000 });
    let got = b.get_latest(1500);
    let mut want = vec![1i16; 500];
    want.extend(vec![2i16; 1000]);
    assert_eq!(got, want);
    assert_eq!(b.get_latest(0), Vec::<i16>::new());
    assert_eq!(b.get_latest(1).len(), 1);
    assert_eq!(b.get_latest(60_000).len(), 2000);
    assert!(b.get_latest(333).len() <= 333);
}

#[test]
fn clear_empties_the_buffer() {
    let mut b = buffer(10, DropPolicy::DropOldest, 16000);
    b.push(BufferedChunk { samples: vec![1i16; 16000], timestamp_ns: 0 });
    assert_eq!(b.duration_ms(), 1000);
    b.clear();
    assert_eq!(b.len(), 0);
    assert!(b.is_empty());
    assert_eq!(b.duration_ms(), 0);
}

#[test]
fn a_rate_of_zero_gives_no_capacity() {
    let mut b = buffer(10, DropPolicy::DropOldest, 0);
    b.push(BufferedChunk { samples: vec![1i16; 10], timestamp_ns: 5 });
    assert_eq!(b.len(), 0);
    b.push(BufferedChunk { samples: Vec::new(), timestamp_ns: 6 });
    assert_eq!(b.len(), 0);
    assert_eq!(b.get_range(0, 100), Vec::<i16>::new());
}
