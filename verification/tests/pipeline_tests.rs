use dcr_transcribe::channel_processor::{ChannelProcessor, ChunkAction};
use dcr_transcribe::config::{BufferConfig, ChannelConfig, TranscribeBackendType};
use dcr_transcribe::config::{TranscribeConfig, VadConfig};
use dcr_transcribe::tui_state::{TranscribeStatus, TuiState};
use dcr_transcribe::types::{AudioChunk, AudioFormat, DropPolicy, TranscriptResult, VadState};

const LOUD: i32 = -20_000;
const QUIET: i32 = -60_000;

fn processor(connect_on_startup: bool, send_buffered_on_reconnect: bool) -> ChannelProcessor {
    let channel = ChannelConfig { id: 0, name: "テストチャンネル".to_string(), enabled: true };
    let vad = VadConfig {
        threshold_mdb: -40_000,
        hangover_duration_ms: 500,
        silence_disconnect_threshold_ms: 10_000,
    };
    let buffer = BufferConfig { capacity_seconds: 30, drop_policy: DropPolicy::DropOldest };
    let transcribe = TranscribeConfig {
        backend: TranscribeBackendType::Aws,
        region: "ap-northeast-1".to_string(),
        language_code: "ja-JP".to_string(),
        sample_rate: 16000,
        max_retries: 3,
        timeout_seconds: 10,
        connect_on_startup,
        send_buffered_on_reconnect,
    };
    ChannelProcessor::new(&channel, &vad, &buffer, &transcribe, 16000, 1_000)
}

fn chunk(samples: Vec<i16>, timestamp_ns: u128) -> AudioChunk {
    AudioChunk { samples, format: AudioFormat { sample_rate: 16000, channels: 1 }, timestamp_ns }
}

fn tone() -> Vec<i16> {
    (0..1600).map(|i| ((i as f32 * 0.1).sin() * 3276.0) as i16).collect()
}

#[test]
fn test_channel_processor_creation() {
    let p = processor(false, true);
    assert_eq!(p.channel_id(), 0);
    assert_eq!(p.channel_name(), "テストチャンネル");
    assert!(!p.is_connected());
    assert_eq!(p.transcribe_status(), TranscribeStatus::Disconnected);
    assert_eq!(p.vad_state(), VadState::Silence);
    assert_eq!(p.vad_threshold_mdb(), -40_000);
    assert_eq!(p.current_volume_mdb(), -100_000);
    assert_eq!(p.sessions_opened(), 0);
    assert_eq!(p.samples_written(), 0);
    assert_eq!(p.buffer_duration_ms(), 0);
}

#[test]
fn pure_silence_opens_no_session() {
    let mut p = processor(false, true);
    assert!(!p.start());
    for n in 0..50u128 {
        let plan = p.process_chunk(chunk(vec![0i16; 1600], n * 100_000_000), -100_000);
        assert_eq!(plan.action, ChunkAction::Idle);
        assert!(plan.payload.is_empty());
        assert!(plan.monitor.is_none());
        assert_eq!(p.vad_state(), VadState::Silence);
        assert!(!p.is_connected());
    }
    assert_eq!(p.sessions_opened(), 0);
    // Five seconds went into the recording.
    assert_eq!(p.samples_written(), 80_000);
    assert_eq!(p.wav_duration_ms(), 5000);
    assert_eq!(p.stop(), Some(80_000));
}

#[test]
fn a_burst_opens_a_session_and_long_silence_closes_it() {
    let mut p = processor(false, true);
    assert!(!p.start());
    let mut now: u128 = 5_000_000_000;
    let mut actions = Vec::new();
    let mut written = 0usize;
    // One second of tone at -20 dB.
    for _ in 0..10 {
        let samples = tone();
        written += samples.len();
        let plan = p.process_chunk(chunk(samples.clone(), now), LOUD);
        if plan.action == ChunkAction::Connect {
            assert!(p.reconnect_transcribe(now));
            let backlog = p.connection_opened();
            assert!(backlog.is_empty());
        }
        match plan.action {
            ChunkAction::Connect | ChunkAction::Forward => assert_eq!(plan.payload, samples),
            _ => panic!("a loud chunk is forwarded"),
        }
        actions.push(plan.action);
        now += 100_000_000;
    }
    assert_eq!(actions[0], ChunkAction::Connect);
    assert!(actions[1..].iter().all(|a| *a == ChunkAction::Forward));
    assert!(p.is_connected());
    assert_eq!(p.transcribe_status(), TranscribeStatus::Connected);
    assert_eq!(p.sessions_opened(), 1);

    // Twelve seconds of silence.
    let mut after = Vec::new();
    for _ in 0..120 {
        written += 1600;
        let plan = p.process_chunk(chunk(vec![0i16; 1600], now), -100_000);
        match plan.action {
            ChunkAction::ForwardSilence => assert_eq!(plan.payload, vec![0i16; 1600]),
            ChunkAction::Forward => assert_eq!(plan.payload, vec![0i16; 1600]),
            ChunkAction::Disconnect | ChunkAction::Idle => assert!(plan.payload.is_empty()),
            ChunkAction::Connect => panic!("silence opens no session"),
        }
        after.push(plan.action);
        now += 100_000_000;
    }
    // The hangover keeps four chunks in voice, then silence is counted up to
    // ten seconds, then the session closes and stays closed.
    assert!(after[..4].iter().all(|a| *a == ChunkAction::Forward));
    assert!(after[4..103].iter().all(|a| *a == ChunkAction::ForwardSilence));
    assert_eq!(after[103], ChunkAction::Disconnect);
    assert!(after[104..].iter().all(|a| *a == ChunkAction::Idle));
    assert!(!p.is_connected());
    assert_eq!(p.transcribe_status(), TranscribeStatus::Disconnected);
    assert_eq!(p.sessions_opened(), 1);
    assert_eq!(p.silence_duration_ms(), 0);
    assert_eq!(p.samples_written(), written);
}

#[test]
fn silence_is_counted_in_chunk_lengths_and_reset_by_voice() {
    let mut p = processor(true, true);
    assert!(p.start());
    assert!(p.reconnect_transcribe(10));
    p.connection_opened();
    let quiet = vec![1i16; 1600];
    for n in 1..=5u32 {
        let plan = p.process_chunk(chunk(quiet.clone(), 0), QUIET);
        assert_eq!(plan.action, ChunkAction::ForwardSilence);
        assert_eq!(p.silence_duration_ms(), n * 100);
    }
    let plan = p.process_chunk(chunk(quiet.clone(), 0), LOUD);
    assert_eq!(plan.action, ChunkAction::Forward);
    assert_eq!(p.silence_duration_ms(), 0);
    // An empty chunk is silence of no length.
    let plan = p.process_chunk(chunk(Vec::new(), 0), LOUD);
    assert_eq!(plan.action, ChunkAction::ForwardSilence);
    assert!(plan.payload.is_empty());
    assert_eq!(p.silence_duration_ms(), 0);
    assert_eq!(p.vad_state(), VadState::Voice { hangover_remaining_ms: 500 });
}

#[test]
fn reconnect_on_an_open_session_does_nothing() {
    let mut p = processor(false, true);
    p.start();
    assert!(p.reconnect_transcribe(100));
    p.connection_opened();
    assert_eq!(p.sessions_opened(), 1);
    assert_eq!(p.client().elapsed_millis(100), 0);
    // Asked again, much later: no session is to be opened, and the timeline
    // of the open one is left alone.
    assert!(!p.reconnect_transcribe(9_000_000_100));
    assert!(!p.reconnect_transcribe(9_000_000_100));
    assert!(p.is_connected());
    assert_eq!(p.sessions_opened(), 1);
    assert_eq!(p.client().elapsed_millis(9_000_000_100), 9000);
    assert_eq!(p.transcribe_status(), TranscribeStatus::Connected);
}

#[test]
fn a_new_session_does_not_inherit_the_idle_time() {
    let mut p = processor(false, true);
    p.start();
    assert!(p.reconnect_transcribe(1_000_000_000));
    p.connection_opened();
    p.disconnect_transcribe();
    // Thirty seconds later voice returns.
    let later: u128 = 31_000_000_000;
    let plan = p.process_chunk(chunk(tone(), later), LOUD);
    assert_eq!(plan.action, ChunkAction::Connect);
    assert!(p.reconnect_transcribe(later));
    p.connection_opened();
    assert_eq!(p.sessions_opened(), 2);
    let t = TranscriptResult::new(
        p.channel_id(),
        "了解".to_string(),
        false,
        None,
        later,
        later + 250_000_000,
    );
    assert_eq!(p.client().elapsed_millis(later + 250_000_000), 250);
    assert_eq!(t.timestamp_millis, 250);
}

#[test]
fn a_failed_open_shows_an_error_until_one_succeeds() {
    let mut p = processor(false, true);
    p.start();
    let plan = p.process_chunk(chunk(tone(), 0), LOUD);
    assert_eq!(plan.action, ChunkAction::Connect);
    assert!(p.reconnect_transcribe(0));
    p.connection_failed();
    assert!(!p.is_connected());
    assert_eq!(p.transcribe_status(), TranscribeStatus::Error);
    assert_eq!(p.sessions_opened(), 0);
    // The next voice chunk asks again.
    let plan = p.process_chunk(chunk(tone(), 100_000_000), LOUD);
    assert_eq!(plan.action, ChunkAction::Connect);
    assert!(p.reconnect_transcribe(100_000_000));
    p.connection_opened();
    assert_eq!(p.transcribe_status(), TranscribeStatus::Connected);
}

#[test]
fn a_failed_send_closes_the_session_at_once() {
    let mut p = processor(true, true);
    p.start();
    p.reconnect_transcribe(0);
    p.connection_opened();
    let plan = p.process_chunk(chunk(tone(), 0), LOUD);
    assert_eq!(plan.action, ChunkAction::Forward);
    p.send_failed();
    assert!(!p.is_connected());
    assert_eq!(p.transcribe_status(), TranscribeStatus::Disconnected);
    let plan = p.process_chunk(chunk(tone(), 100_000_000), LOUD);
    assert_eq!(plan.action, ChunkAction::Connect);
}

#[test]
fn the_recording_gets_every_chunk_whole_whatever_the_session_does() {
    let mut p = processor(true, true);
    p.start();
    p.reconnect_transcribe(0);
    p.connection_opened();
    let mut written = 0usize;
    // Voice, forwarded.
    let samples = tone();
    let plan = p.process_chunk(chunk(samples.clone(), 0), LOUD);
    assert_eq!(plan.record, samples);
    written += samples.len();
    assert_eq!(p.samples_written(), written);
    // The send fails: the count stays.
    p.send_failed();
    assert_eq!(p.samples_written(), written);
    // Voice without a session, and the open fails: recorded all the same.
    let plan = p.process_chunk(chunk(samples.clone(), 1), LOUD);
    assert_eq!(plan.action, ChunkAction::Connect);
    assert_eq!(plan.record, samples);
    written += samples.len();
    p.reconnect_transcribe(1);
    p.connection_failed();
    assert_eq!(p.samples_written(), written);
    p.reconnect_transcribe(2);
    p.connection_opened();
    assert_eq!(p.samples_written(), written);
    // Silence with a session: zeros go to the recogniser, the samples
    // themselves to the recording.
    let quiet: Vec<i16> = (0..1600).map(|i| (i % 7) as i16).collect();
    for _ in 0..5 {
        p.process_chunk(chunk(quiet.clone(), 3), QUIET);
        written += quiet.len();
    }
    let plan = p.process_chunk(chunk(quiet.clone(), 3), QUIET);
    written += quiet.len();
    assert_eq!(plan.action, ChunkAction::ForwardSilence);
    assert_eq!(plan.payload, vec![0i16; 1600]);
    assert_eq!(plan.record, quiet);
    assert_eq!(p.samples_written(), written);
    p.disconnect_transcribe();
    p.set_audio_output();
    p.clear_audio_output();
    assert_eq!(p.samples_written(), written);
    assert_eq!(p.buffer().len(), written);
    assert_eq!(p.vad_state(), VadState::Silence);
    assert_eq!(p.sessions_opened(), 2);
    // A failed write is taken off the count.
    p.recording_failed(1600);
    assert_eq!(p.samples_written(), written - 1600);
    assert_eq!(p.stop(), Some(written - 1600));
    assert_eq!(p.buffer().len(), written);
}

#[test]
fn the_monitor_gets_a_copy_of_every_chunk() {
    let mut p = processor(false, true);
    p.start();
    let samples = tone();
    let plan = p.process_chunk(chunk(samples.clone(), 0), LOUD);
    assert!(plan.monitor.is_none());
    p.set_audio_output();
    let plan = p.process_chunk(chunk(samples.clone(), 0), LOUD);
    assert_eq!(plan.monitor, Some(samples.clone()));
    let plan = p.process_chunk(chunk(vec![0i16; 8], 0), -100_000);
    assert_eq!(plan.monitor, Some(vec![0i16; 8]));
    p.clear_audio_output();
    let plan = p.process_chunk(chunk(samples, 0), LOUD);
    assert!(plan.monitor.is_none());
}

#[test]
fn every_chunk_reaches_the_recording_and_the_retry_buffer() {
    let mut p = processor(false, true);
    p.start();
    let lengths = [1600usize, 0, 37, 16000, 1];
    let mut total = 0usize;
    for (n, len) in lengths.iter().enumerate() {
        let samples = vec![(n as i16) + 1; *len];
        p.process_chunk(chunk(samples, n as u128 * 1_000_000_000), QUIET);
        total += len;
        assert_eq!(p.samples_written(), total);
    }
    assert_eq!(p.buffer().len(), total);
    let first = p.buffer().get_range(0, 100_000_000);
    assert_eq!(first, vec![1i16; 1600]);
    let clipped = p.buffer().get_range(0, 99_999_999);
    assert_eq!(clipped, vec![1i16; 1599]);
    assert_eq!(p.stop(), Some(total));
    assert_eq!(p.samples_written(), 0);
}

#[test]
fn exposed_transcripts_are_cleaned_finals_and_untouched_partials() {
    let p = processor(false, true);
    let make = |text: &str, is_partial: bool| {
        TranscriptResult::new(0, text.to_string(), is_partial, None, 0, 1_000_000_000)
    };
    let received = vec![
        make("えっと こんにちは、", false),
        make("えっと こんにちは", true),
        make("えっと", false),
        make(" 、。 ", false),
        make("了解  しました", false),
    ];
    let out = p.poll_transcripts(&received);
    assert_eq!(out.len(), 3);
    assert_eq!(out[0].text, "こんにちは、");
    assert!(!out[0].is_partial);
    assert_eq!(out[0].timestamp_millis, 1000);
    assert_eq!(out[1].text, "えっと こんにちは");
    assert!(out[1].is_partial);
    assert_eq!(out[2].text, "了解 しました");
}

#[test]
fn the_dashboard_follows_the_pipeline() {
    let mut p = processor(false, true);
    let mut tui = TuiState::new();
    tui.add_channel(7, "other".to_string(), 0);
    tui.add_channel(0, "テストチャンネル".to_string(), 0);
    assert!(p.set_tui_state(&mut tui));
    p.start();
    p.process_chunk(chunk(tone(), 0), LOUD);
    p.reconnect_transcribe(0);
    p.connection_opened();
    assert!(p.publish(&mut tui, 50));
    let shown = tui.get_channel(0).unwrap();
    assert_eq!(shown.current_volume_mdb, LOUD);
    assert_eq!(shown.vad_threshold_mdb, -40_000);
    assert_eq!(shown.vad_state, VadState::Voice { hangover_remaining_ms: 500 });
    assert_eq!(shown.transcribe_status, TranscribeStatus::Connected);
    assert_eq!(shown.silence_duration_ms(60), None);
    let untouched = tui.get_channel(7).unwrap();
    assert_eq!(untouched.current_volume_mdb, -100_000);
    assert_eq!(untouched.transcribe_status, TranscribeStatus::Disconnected);

    let partial = TranscriptResult::new(0, "えっと も".to_string(), true, None, 0, 0);
    assert!(p.add_transcript_to_tui(&partial, &mut tui));
    let dropped = TranscriptResult::new(0, "えっと 。".to_string(), false, None, 0, 0);
    assert!(!p.add_transcript_to_tui(&dropped, &mut tui));
    assert!(tui.get_channel(0).unwrap().partial_transcript.is_some());
    let fin = TranscriptResult::new(0, "えっと もしもし".to_string(), false, None, 0, 0);
    assert!(p.add_transcript_to_tui(&fin, &mut tui));
    let shown = tui.get_channel(0).unwrap();
    assert!(shown.partial_transcript.is_none());
    assert_eq!(shown.transcripts.len(), 1);
    assert_eq!(shown.transcripts[0].text, "もしもし");
    assert!(tui.get_channel(7).unwrap().transcripts.is_empty());
}
