//! Plain data shared by every stage of the pipeline.

use vstd::prelude::*;

verus! {

/// One signed 16-bit linear PCM sample.
pub type SampleI16 = i16;

/// Nanoseconds in one second.
pub const NANOS_PER_SECOND: u128 = 1_000_000_000;

/// Sample rate and channel count of a run of samples.
#[derive(Clone, Copy, Debug)]
pub struct AudioFormat {
    /// Samples per second and channel.
    pub sample_rate: u32,
    /// Number of interleaved channels; 1 after demultiplexing.
    pub channels: u16,
}

/// A run of samples with the time at which its first sample was captured.
#[derive(Clone, Debug)]
pub struct AudioChunk {
    pub samples: Vec<SampleI16>,
    pub format: AudioFormat,
    /// Capture time in nanoseconds since the Unix epoch.
    pub timestamp_ns: u128,
}

/// What the retry buffer keeps of a chunk.
#[derive(Clone, Debug)]
pub struct BufferedChunk {
    pub samples: Vec<SampleI16>,
    /// Capture time in nanoseconds since the Unix epoch.
    pub timestamp_ns: u128,
}

/// Which chunk leaves the retry buffer when it is over capacity.
#[derive(Clone, Copy, Debug, PartialEq, Eq, Structural)]
pub enum DropPolicy {
    /// Evict from the front.
    DropOldest,
    /// Evict from the back.
    DropNewest,
    /// Not available on a real-time path; handled as `DropOldest`.
    Block,
}

/// State of the voice-activity detector.
#[derive(Clone, Copy, Debug, PartialEq, Eq, Structural)]
pub enum VadState {
    Silence,
    /// Voice, with the grace period that is left once the signal drops
    /// below the threshold.
    Voice { hangover_remaining_ms: u32 },
}

/// How settled a partial result is.
#[derive(Clone, Copy, Debug, PartialEq, Eq, PartialOrd, Ord, Structural)]
pub enum Stability {
    Low,
    Medium,
    High,
}

/// Length in whole milliseconds of `samples` samples at `sample_rate` Hz.
/// A rate of zero gives no duration to an empty run and an unbounded one to
/// any other, so the result is capped at `u32::MAX`.
pub open spec fn duration_ms_spec(samples: nat, sample_rate: u32) -> u32 {
    if samples == 0 {
        0
    } else if sample_rate == 0 {
        u32::MAX
    } else if samples * 1000 / (sample_rate as nat) > u32::MAX {
        u32::MAX
    } else {
        (samples * 1000 / (sample_rate as nat)) as u32
    }
}

/// Computes `duration_ms_spec`.
pub fn duration_ms(samples: usize, sample_rate: u32) -> (ms: u32)
    ensures
        ms == duration_ms_spec(samples as nat, sample_rate),
{
    if samples == 0 {
        0
    } else if sample_rate == 0 {
        u32::MAX
    } else {
        let scaled: u128 = (samples as u128) * 1000;
        let ms: u128 = scaled / (sample_rate as u128);
        if ms > u32::MAX as u128 {
            u32::MAX
        } else {
            ms as u32
        }
    }
}

/// The text that chrono's `DateTime::from_timestamp(secs, 0)` followed by
/// `to_rfc3339` gives for a count of seconds since the Unix epoch, and the
/// empty text where `from_timestamp` has no date for the count.
pub uninterp spec fn rfc3339_text(secs: i64) -> Seq<char>;

/// Calls chrono's `DateTime::from_timestamp` and `DateTime::to_rfc3339`.
/// The contract only gives the outcome its name: the same count of seconds
/// always yields the same text.
#[verifier::external_body]
fn rfc3339_of_unix_seconds(secs: i64) -> (text: String)
    ensures
        text@ == rfc3339_text(secs),
{
    match chrono::DateTime::from_timestamp(secs, 0) {
        Some(moment) => moment.to_rfc3339(),
        None => String::new(),
    }
}

/// Wall-clock text of a moment given in nanoseconds since the Unix epoch:
/// the RFC 3339 form of its whole seconds, empty beyond the range of `i64`.
pub open spec fn wall_clock_text(now_ns: u128) -> Seq<char> {
    if now_ns / NANOS_PER_SECOND <= i64::MAX {
        rfc3339_text((now_ns / NANOS_PER_SECOND) as i64)
    } else {
        Seq::empty()
    }
}

/// Computes `wall_clock_text`.
pub fn wall_clock(now_ns: u128) -> (text: String)
    ensures
        text@ == wall_clock_text(now_ns),
{
    let secs: u128 = now_ns / NANOS_PER_SECOND;
    if secs <= i64::MAX as u128 {
        rfc3339_of_unix_seconds(secs as i64)
    } else {
        String::new()
    }
}

/// Whole milliseconds from `start_ns` to `now_ns`, zero where `now_ns` lies
/// before `start_ns`, capped at `u64::MAX`.
pub open spec fn elapsed_ms_spec(start_ns: u128, now_ns: u128) -> u64 {
    if now_ns <= start_ns {
        0
    } else if (now_ns - start_ns) / 1_000_000 > u64::MAX {
        u64::MAX
    } else {
        ((now_ns - start_ns) / 1_000_000) as u64
    }
}

/// Computes `elapsed_ms_spec`.
pub fn elapsed_ms(start_ns: u128, now_ns: u128) -> (ms: u64)
    ensures
        ms == elapsed_ms_spec(start_ns, now_ns),
{
    if now_ns <= start_ns {
        0
    } else {
        let ms: u128 = (now_ns - start_ns) / 1_000_000;
        if ms > u64::MAX as u128 {
            u64::MAX
        } else {
            ms as u64
        }
    }
}

/// One recognised segment of a channel.
#[derive(Clone, Debug)]
pub struct TranscriptResult {
    /// Channel the text was heard on.
    pub channel: usize,
    /// Wall-clock time of the result, RFC 3339.
    pub timestamp: String,
    /// Position on the session's timeline, in milliseconds.
    pub timestamp_millis: u64,
    pub text: String,
    /// A partial result may still be superseded; a final one may not.
    pub is_partial: bool,
    /// Present on partial results only.
    pub stability: Option<Stability>,
}

impl TranscriptResult {
    /// A result placed on the timeline by the time that has passed since
    /// the session's reference time `start_ns`.
    pub fn new(
        channel: usize,
        text: String,
        is_partial: bool,
        stability: Option<Stability>,
        start_ns: u128,
        now_ns: u128,
    ) -> (r: Self)
        ensures
            r.channel == channel,
            r.text@ == text@,
            r.is_partial == is_partial,
            r.stability == stability,
            r.timestamp_millis == elapsed_ms_spec(start_ns, now_ns),
            r.timestamp@ == wall_clock_text(now_ns),
    {
        TranscriptResult {
            channel,
            timestamp: wall_clock(now_ns),
            timestamp_millis: elapsed_ms(start_ns, now_ns),
            text,
            is_partial,
            stability,
        }
    }

    /// A result placed on the timeline by the start time that the
    /// recogniser reported for its audio.
    pub fn new_with_audio_time(
        channel: usize,
        text: String,
        is_partial: bool,
        stability: Option<Stability>,
        audio_start_ms: u64,
        now_ns: u128,
    ) -> (r: Self)
        ensures
            r.channel == channel,
            r.text@ == text@,
            r.is_partial == is_partial,
            r.stability == stability,
            r.timestamp_millis == audio_start_ms,
            r.timestamp@ == wall_clock_text(now_ns),
    {
        TranscriptResult {
            channel,
            timestamp: wall_clock(now_ns),
            timestamp_millis: audio_start_ms,
            text,
            is_partial,
            stability,
        }
    }
}

} // verus!
