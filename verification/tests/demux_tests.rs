use dcr_transcribe::audio_input::{demultiplex, is_excluded_device, DropCounters, Enqueued};
use dcr_transcribe::audio_output::{drain_playback, PlaybackRouter, RouteChange};

#[test]
fn two_channels_share_one_timestamp() {
    let (a1, b1, a2, b2) = (11i16, -21i16, 12i16, -22i16);
    let t: u128 = 1_700_000_000_123_456_789;
    let chunks = demultiplex(&[a1, b1, a2, b2], 2, 2, 16000, t);
    assert_eq!(chunks.len(), 2);
    assert_eq!(chunks[0].samples, vec![a1, a2]);
    assert_eq!(chunks[1].samples, vec![b1, b2]);
    assert_eq!(chunks[0].timestamp_ns, t);
    assert_eq!(chunks[1].timestamp_ns, t);
    assert_eq!(chunks[0].timestamp_ns, chunks[1].timestamp_ns);
    for chunk in &chunks {
        assert_eq!(chunk.format.channels, 1);
        assert_eq!(chunk.format.sample_rate, 16000);
    }
}

#[test]
fn each_served_channel_gets_one_chunk_of_the_same_length() {
    let data: Vec<i16> = (0..4 * 100).map(|i| i as i16).collect();
    let chunks = demultiplex(&data, 4, 4, 48000, 9);
    assert_eq!(chunks.len(), 4);
    for (c, chunk) in chunks.iter().enumerate() {
        assert_eq!(chunk.samples.len(), 100);
        assert_eq!(chunk.timestamp_ns, 9);
        for (f, sample) in chunk.samples.iter().enumerate() {
            assert_eq!(*sample, (f * 4 + c) as i16);
        }
    }
}

#[test]
fn channels_without_a_queue_are_left_out() {
    let data: Vec<i16> = (0..12).collect();
    let chunks = demultiplex(&data, 4, 2, 16000, 0);
    assert_eq!(chunks.len(), 2);
    assert_eq!(chunks[0].samples, vec![0, 4, 8]);
    assert_eq!(chunks[1].samples, vec![1, 5, 9]);
    assert_eq!(demultiplex(&data, 4, 0, 16000, 0).len(), 0);
    // More queues than channels.
    assert_eq!(demultiplex(&data, 2, 5, 16000, 0).len(), 2);
}

#[test]
fn an_incomplete_last_frame_is_left_out() {
    let chunks = demultiplex(&[1, 2, 3, 4, 5], 2, 2, 16000, 0);
    assert_eq!(chunks[0].samples, vec![1, 3]);
    assert_eq!(chunks[1].samples, vec![2, 4]);
    let chunks = demultiplex(&[], 2, 2, 16000, 0);
    assert_eq!(chunks.len(), 2);
    assert!(chunks[0].samples.is_empty());
    assert_eq!(demultiplex(&[1, 2, 3], 0, 2, 16000, 0).len(), 0);
}

#[test]
fn dropped_chunks_are_counted_by_cause() {
    let mut counters = DropCounters::new();
    counters.record(Enqueued::Sent);
    counters.record(Enqueued::Full);
    counters.record(Enqueued::Full);
    counters.record(Enqueued::Closed);
    assert_eq!(counters.full, 2);
    assert_eq!(counters.closed, 1);
    let mut full = DropCounters { full: u64::MAX, closed: 0 };
    full.record(Enqueued::Full);
    assert_eq!(full.full, u64::MAX);
}

#[test]
fn playback_takes_the_oldest_samples_and_pads_with_silence() {
    let mut buffer: Vec<i16> = vec![1, 2, 3, 4, 5];
    assert_eq!(drain_playback(&mut buffer, 2), vec![1, 2]);
    assert_eq!(buffer, vec![3, 4, 5]);
    assert_eq!(drain_playback(&mut buffer, 0), Vec::<i16>::new());
    assert_eq!(buffer, vec![3, 4, 5]);
    assert_eq!(drain_playback(&mut buffer, 5), vec![3, 4, 5, 0, 0]);
    assert!(buffer.is_empty());
    assert_eq!(drain_playback(&mut buffer, 3), vec![0, 0, 0]);
    let mut exact: Vec<i16> = vec![7, 8];
    assert_eq!(drain_playback(&mut exact, 2), vec![7, 8]);
    assert!(exact.is_empty());
}

#[test]
fn the_router_reports_only_changes() {
    let mut router = PlaybackRouter::new();
    assert_eq!(router.select(None), None);
    assert_eq!(router.select(Some(1)), Some(RouteChange { detach: None, attach: Some(1) }));
    assert_eq!(router.select(Some(1)), None);
    assert_eq!(router.select(Some(0)), Some(RouteChange { detach: Some(1), attach: Some(0) }));
    assert_eq!(router.select(None), Some(RouteChange { detach: Some(0), attach: None }));
    assert_eq!(router.select(None), None);
}

#[test]
fn devices_that_are_no_capture_interfaces_are_left_out() {
    for name in [
        "MacBook Air Microphone",
        "MacBook Pro Microphone",
        "Taro's AirPods",
        "iPhone Microphone",
        "HD Webcam C920",
        "Background Music",
        "Microsoft Teams Audio",
        "ZoomAudioDevice",
    ] {
        assert!(is_excluded_device(name), "{}", name);
    }
    for name in ["ZOOM H6", "default", "", "MacBook", "Macbook air", "USB Audio CODEC", "(Air|Pro)"] {
        assert!(!is_excluded_device(name), "{}", name);
    }
}
