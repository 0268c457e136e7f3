//! The recogniser session as the pipeline sees it: the client's reference
//! time, the framing of PCM into blocks for the codec, and the mapping of
//! recognition events to transcripts.

use crate::config::TranscribeConfig;
use crate::types::{elapsed_ms, elapsed_ms_spec, wall_clock_text};
use crate::types::{SampleI16, Stability, TranscriptResult};
use vstd::prelude::*;

verus! {

/// Number of frames of a fresh session that use the shorter target.
pub const EARLY_FRAME_COUNT: u64 = 5;

/// Frame length in steady state: a fifth of a second.
pub open spec fn steady_frame_len(sample_rate: u32) -> nat {
    sample_rate as nat / 5
}

/// Frame length right after a session opens: 0.15 s, so that the service
/// hears audio before its idle timeout.
pub open spec fn early_frame_len(sample_rate: u32) -> nat {
    sample_rate as nat * 3 / 20
}

/// Target length of the next frame once `frames_sent` frames have gone out.
pub open spec fn target_frame_len(sample_rate: u32, frames_sent: u64) -> nat {
    if frames_sent < EARLY_FRAME_COUNT {
        early_frame_len(sample_rate)
    } else {
        steady_frame_len(sample_rate)
    }
}

/// `n + 1`, held at `u64::MAX`.
pub open spec fn bump(n: u64) -> u64 {
    if n < u64::MAX {
        (n + 1) as u64
    } else {
        n
    }
}

/// Cuts the PCM that a session receives into blocks for the codec.
pub struct StreamFramer {
    sample_rate: u32,
    pending: Vec<SampleI16>,
    frames_sent: u64,
}

impl StreamFramer {
    /// Rate the frame lengths are derived from.
    pub closed spec fn rate(&self) -> u32 {
        self.sample_rate
    }

    /// Samples received and not yet framed, oldest first.
    pub closed spec fn pending(&self) -> Seq<SampleI16> {
        self.pending@
    }

    /// Full frames cut so far.
    pub closed spec fn frames(&self) -> u64 {
        self.frames_sent
    }

    /// The framer of a freshly opened session.
    pub fn new(sample_rate: u32) -> (f: Self)
        ensures
            f.rate() == sample_rate,
            f.pending() == Seq::<SampleI16>::empty(),
            f.frames() == 0,
    {
        StreamFramer { sample_rate, pending: Vec::new(), frames_sent: 0 }
    }

    /// Number of samples waiting for the next frame.
    pub fn pending_len(&self) -> (n: usize)
        ensures
            n == self.pending().len(),
    {
        self.pending.len()
    }

    /// Number of full frames cut so far.
    pub fn frames_sent(&self) -> (n: u64)
        ensures
            n == self.frames(),
    {
        self.frames_sent
    }

    /// Length that the next frame must reach.
    pub fn target_len(&self) -> (n: usize)
        ensures
            n == target_frame_len(self.rate(), self.frames()),
    {
        if self.frames_sent < EARLY_FRAME_COUNT {
            ((self.sample_rate as u64) * 3 / 20) as usize
        } else {
            (self.sample_rate / 5) as usize
        }
    }

    /// Takes in a chunk. Once the samples gathered reach the target length,
    /// the oldest run of exactly that length comes back as a frame; the rest
    /// waits. At most one frame is cut per chunk.
    pub fn push(&mut self, samples: &[SampleI16]) -> (frame: Option<Vec<SampleI16>>)
        ensures
            final(self).rate() == old(self).rate(),
            ({
                let gathered = old(self).pending() + samples@;
                let target = target_frame_len(old(self).rate(), old(self).frames());
                if gathered.len() >= target {
                    &&& frame is Some
                    &&& frame->0@ + final(self).pending() == gathered
                    &&& frame->0@ == gathered.subrange(0, target as int)
                    &&& final(self).pending() == gathered.subrange(
                        target as int,
                        gathered.len() as int,
                    )
                    &&& final(self).frames() == bump(old(self).frames())
                } else {
                    &&& frame is None
                    &&& final(self).pending() == gathered
                    &&& final(self).frames() == old(self).frames()
                }
            }),
    {
        let target: usize = self.target_len();
        self.pending.extend_from_slice(samples);
        if self.pending.len() >= target {
            let mut head: Vec<SampleI16> = self.pending.split_off(target);
            std::mem::swap(&mut self.pending, &mut head);
            self.frames_sent = self.frames_sent.saturating_add(1);
            Some(head)
        } else {
            None
        }
    }

    /// The receive timed out: whatever waits goes out as a short frame, so
    /// that trailing speech is not held back. The frame count stays.
    pub fn flush(&mut self) -> (frame: Option<Vec<SampleI16>>)
        ensures
            final(self).rate() == old(self).rate(),
            final(self).frames() == old(self).frames(),
            final(self).pending() == Seq::<SampleI16>::empty(),
            old(self).pending().len() == 0 ==> frame is None,
            old(self).pending().len() > 0 ==> frame is Some && frame->0@ == old(self).pending(),
    {
        if self.pending.len() == 0 {
            None
        } else {
            let mut all: Vec<SampleI16> = Vec::new();
            std::mem::swap(&mut self.pending, &mut all);
            Some(all)
        }
    }

    /// The queue closed: whatever waits is the last frame.
    pub fn finish(self) -> (frame: Option<Vec<SampleI16>>)
        ensures
            self.pending().len() == 0 ==> frame is None,
            self.pending().len() > 0 ==> frame is Some && frame->0@ == self.pending(),
    {
        if self.pending.len() == 0 {
            None
        } else {
            Some(self.pending)
        }
    }
}

/// Within one session the timeline never runs back: a later moment lies
/// at least as far from the reference time as an earlier one.
pub proof fn lemma_elapsed_is_monotonic(start_ns: u128, earlier_ns: u128, later_ns: u128)
    requires
        earlier_ns <= later_ns,
    ensures
        elapsed_ms_spec(start_ns, earlier_ns) <= elapsed_ms_spec(start_ns, later_ns),
{
    if start_ns < earlier_ns {
        let a = (earlier_ns - start_ns) as int;
        let b = (later_ns - start_ns) as int;
        vstd::arithmetic::div_mod::lemma_div_is_ordered(a, b, 1_000_000);
    }
}

/// A session that opens starts its timeline anew: at the moment of opening
/// nothing has passed, however long the channel was idle before, and from
/// then on only the time since the opening counts.
pub proof fn lemma_elapsed_restarts(opened_ns: u128, later_ns: u128)
    requires
        opened_ns <= later_ns,
        (later_ns - opened_ns) / 1_000_000 <= u64::MAX,
    ensures
        elapsed_ms_spec(opened_ns, opened_ns) == 0,
        elapsed_ms_spec(opened_ns, later_ns) == (later_ns - opened_ns) / 1_000_000,
{
}

/// Stability of a partial result of which `stable` of `total` tokens are
/// reported stable: `High` from four fifths, `Medium` from two fifths,
/// `Low` below that and for a result without tokens.
pub open spec fn stability_of_counts(stable: nat, total: nat) -> Stability {
    if total == 0 {
        Stability::Low
    } else if stable * 10 >= total * 8 {
        Stability::High
    } else if stable * 10 >= total * 4 {
        Stability::Medium
    } else {
        Stability::Low
    }
}

/// Computes `stability_of_counts`.
pub fn classify_stability(stable: usize, total: usize) -> (s: Stability)
    ensures
        s == stability_of_counts(stable as nat, total as nat),
{
    if total == 0 {
        Stability::Low
    } else if (stable as u128) * 10 >= (total as u128) * 8 {
        Stability::High
    } else if (stable as u128) * 10 >= (total as u128) * 4 {
        Stability::Medium
    } else {
        Stability::Low
    }
}

/// One token of an alternative, as the recogniser reports it.
#[derive(Clone, Copy, Debug)]
pub struct RecognizedItem {
    /// Start of the token on the session's timeline, in milliseconds.
    pub start_time_ms: u64,
    /// End of the token on the session's timeline, in milliseconds.
    pub end_time_ms: u64,
    /// Whether the recogniser expects the token to stay; absent counts as no.
    pub stable: Option<bool>,
}

/// One reading of a segment.
#[derive(Clone, Debug)]
pub struct RecognitionAlternative {
    pub transcript: Option<String>,
    pub items: Option<Vec<RecognizedItem>>,
}

/// One segment of a recognition event.
#[derive(Clone, Debug)]
pub struct RecognitionResult {
    pub is_partial: bool,
    pub alternatives: Option<Vec<RecognitionAlternative>>,
}

/// What the recogniser sends in one event.
#[derive(Clone, Debug)]
pub struct RecognitionEvent {
    pub results: Option<Vec<RecognitionResult>>,
}

/// What a transcript says, as mathematical values.
pub struct TranscriptView {
    pub channel: usize,
    pub timestamp: Seq<char>,
    pub timestamp_millis: u64,
    pub text: Seq<char>,
    pub is_partial: bool,
    pub stability: Option<Stability>,
}

impl View for TranscriptResult {
    type V = TranscriptView;

    open spec fn view(&self) -> TranscriptView {
        TranscriptView {
            channel: self.channel,
            timestamp: self.timestamp@,
            timestamp_millis: self.timestamp_millis,
            text: self.text@,
            is_partial: self.is_partial,
            stability: self.stability,
        }
    }
}

/// Number of tokens among the first `n` that are reported stable.
pub open spec fn stable_count(items: Seq<RecognizedItem>, n: nat) -> nat
    decreases n,
{
    if n == 0 || n > items.len() {
        0
    } else {
        stable_count(items, (n - 1) as nat) + if items[n - 1].stable == Some(true) {
            1nat
        } else {
            0nat
        }
    }
}

/// Stability attached to an alternative: none on a final result, and none
/// where the recogniser sent no token list.
pub open spec fn alternative_stability(
    is_partial: bool,
    items: Option<Vec<RecognizedItem>>,
) -> Option<Stability> {
    if is_partial && items is Some {
        Some(stability_of_counts(stable_count(items->0@, items->0@.len()), items->0@.len()))
    } else {
        None
    }
}

/// Place of an alternative on the timeline: the start of its first token,
/// or, without tokens, the time passed since the session's reference time.
pub open spec fn alternative_millis(
    items: Option<Vec<RecognizedItem>>,
    start_ns: u128,
    now_ns: u128,
) -> u64 {
    if items is Some && items->0@.len() > 0 {
        items->0@[0].start_time_ms
    } else {
        elapsed_ms_spec(start_ns, now_ns)
    }
}

/// The transcript made of one alternative of a segment.
pub open spec fn alternative_transcript(
    alt: RecognitionAlternative,
    is_partial: bool,
    channel: usize,
    start_ns: u128,
    now_ns: u128,
) -> TranscriptView {
    TranscriptView {
        channel,
        timestamp: wall_clock_text(now_ns),
        timestamp_millis: alternative_millis(alt.items, start_ns, now_ns),
        text: if alt.transcript is Some {
            alt.transcript->0@
        } else {
            Seq::empty()
        },
        is_partial,
        stability: alternative_stability(is_partial, alt.items),
    }
}

/// The transcripts of one segment: one per alternative, in order.
pub open spec fn result_transcripts(
    result: RecognitionResult,
    channel: usize,
    start_ns: u128,
    now_ns: u128,
) -> Seq<TranscriptView> {
    if result.alternatives is Some {
        Seq::new(
            result.alternatives->0@.len(),
            |j: int|
                alternative_transcript(
                    result.alternatives->0@[j],
                    result.is_partial,
                    channel,
                    start_ns,
                    now_ns,
                ),
        )
    } else {
        Seq::empty()
    }
}

/// The transcripts of the first `n` segments, segment after segment.
pub open spec fn results_transcripts(
    results: Seq<RecognitionResult>,
    n: nat,
    channel: usize,
    start_ns: u128,
    now_ns: u128,
) -> Seq<TranscriptView>
    decreases n,
{
    if n == 0 || n > results.len() {
        Seq::empty()
    } else {
        results_transcripts(results, (n - 1) as nat, channel, start_ns, now_ns)
            + result_transcripts(results[n - 1], channel, start_ns, now_ns)
    }
}

/// The transcripts of an event: one per segment and alternative.
pub open spec fn event_transcripts(
    event: RecognitionEvent,
    channel: usize,
    start_ns: u128,
    now_ns: u128,
) -> Seq<TranscriptView> {
    if event.results is Some {
        results_transcripts(event.results->0@, event.results->0@.len(), channel, start_ns, now_ns)
    } else {
        Seq::empty()
    }
}

/// The views of a run of transcripts.
pub open spec fn transcript_views(ts: Seq<TranscriptResult>) -> Seq<TranscriptView> {
    ts.map_values(|t: TranscriptResult| t@)
}

/// Counts the tokens reported stable.
pub fn count_stable(items: &Vec<RecognizedItem>) -> (n: usize)
    ensures
        n == stable_count(items@, items@.len()),
{
    let mut n: usize = 0;
    let mut i: usize = 0;
    while i < items.len()
        invariant
            i <= items.len(),
            n <= i,
            n == stable_count(items@, i as nat),
        decreases items.len() - i,
    {
        let stable: bool = match items[i].stable {
            Some(flag) => flag,
            None => false,
        };
        if stable {
            n = n + 1;
        }
        i = i + 1;
    }
    n
}

/// Session state of one channel's recogniser client.
pub struct TranscribeClient {
    config: TranscribeConfig,
    channel_id: usize,
    start_time_ns: u128,
    retry_count: u32,
}

impl TranscribeClient {
    /// Channel served.
    pub closed spec fn channel(&self) -> usize {
        self.channel_id
    }

    /// Reference time of the session's timeline, in nanoseconds since the
    /// Unix epoch.
    pub closed spec fn reference_ns(&self) -> u128 {
        self.start_time_ns
    }

    /// Number of sessions opened after the first.
    pub closed spec fn retries(&self) -> u32 {
        self.retry_count
    }

    /// Rate that frames are cut for.
    pub closed spec fn rate(&self) -> u32 {
        self.config.sample_rate
    }

    /// The settings the client was made with.
    pub closed spec fn settings(&self) -> TranscribeConfig {
        self.config
    }

    /// A client whose timeline starts at `now_ns`.
    pub fn new(config: TranscribeConfig, channel_id: usize, now_ns: u128) -> (c: Self)
        ensures
            c.channel() == channel_id,
            c.reference_ns() == now_ns,
            c.retries() == 0,
            c.rate() == config.sample_rate,
            c.settings() == config,
    {
        TranscribeClient { config, channel_id, start_time_ns: now_ns, retry_count: 0 }
    }

    pub fn channel_id(&self) -> (id: usize)
        ensures
            id == self.channel(),
    {
        self.channel_id
    }

    pub fn retry_count(&self) -> (n: u32)
        ensures
            n == self.retries(),
    {
        self.retry_count
    }

    /// The settings the client was made with.
    pub fn config(&self) -> (config: &TranscribeConfig)
        ensures
            *config == self.settings(),
    {
        &self.config
    }

    /// A session opens at `now_ns`: its timeline starts there, so that the
    /// time spent idle before does not show in later transcripts.
    pub fn reset_start_time(&mut self, now_ns: u128)
        ensures
            final(self).reference_ns() == now_ns,
            final(self).channel() == old(self).channel(),
            final(self).rate() == old(self).rate(),
            final(self).settings() == old(self).settings(),
            final(self).retries() == if old(self).retries() < u32::MAX {
                (old(self).retries() + 1) as u32
            } else {
                u32::MAX
            },
    {
        self.start_time_ns = now_ns;
        self.retry_count = self.retry_count.saturating_add(1);
    }

    /// Milliseconds of the session's timeline that have passed at `now_ns`.
    pub fn elapsed_millis(&self, now_ns: u128) -> (ms: u64)
        ensures
            ms == elapsed_ms_spec(self.reference_ns(), now_ns),
    {
        elapsed_ms(self.start_time_ns, now_ns)
    }

    /// The framer for a session that opens now.
    pub fn start_stream(&self) -> (f: StreamFramer)
        ensures
            f.rate() == self.rate(),
            f.pending() == Seq::<SampleI16>::empty(),
            f.frames() == 0,
    {
        StreamFramer::new(self.config.sample_rate)
    }

    /// The transcript of one alternative of a segment received at `now_ns`.
    pub fn transcript_of(
        &self,
        alt: &RecognitionAlternative,
        is_partial: bool,
        now_ns: u128,
    ) -> (t: TranscriptResult)
        ensures
            t@ == alternative_transcript(
                *alt,
                is_partial,
                self.channel(),
                self.reference_ns(),
                now_ns,
            ),
    {
        let text: String = match &alt.transcript {
            Some(s) => s.clone(),
            None => String::new(),
        };
        let stability: Option<Stability> = match &alt.items {
            Some(items) => {
                if is_partial {
                    Some(classify_stability(count_stable(items), items.len()))
                } else {
                    None
                }
            },
            None => None,
        };
        let audio_start: Option<u64> = match &alt.items {
            Some(items) => {
                if items.len() > 0 {
                    Some(items[0].start_time_ms)
                } else {
                    None
                }
            },
            None => None,
        };
        match audio_start {
            Some(ms) => TranscriptResult::new_with_audio_time(
                self.channel_id,
                text,
                is_partial,
                stability,
                ms,
                now_ns,
            ),
            None => TranscriptResult::new(
                self.channel_id,
                text,
                is_partial,
                stability,
                self.start_time_ns,
                now_ns,
            ),
        }
    }

    /// The transcripts of an event received at `now_ns`: one per segment
    /// and alternative, in the order in which the recogniser sent them.
    pub fn transcripts_of_event(&self, event: &RecognitionEvent, now_ns: u128) -> (out: Vec<
        TranscriptResult,
    >)
        ensures
            transcript_views(out@) == event_transcripts(
                *event,
                self.channel(),
                self.reference_ns(),
                now_ns,
            ),
    {
        let mut out: Vec<TranscriptResult> = Vec::new();
        match &event.results {
            None => {},
            Some(results) => {
                let mut i: usize = 0;
                while i < results.len()
                    invariant
                        i <= results.len(),
                        transcript_views(out@) == results_transcripts(
                            results@,
                            i as nat,
                            self.channel(),
                            self.reference_ns(),
                            now_ns,
                        ),
                    decreases results.len() - i,
                {
                    let result = &results[i];
                    let ghost before = out@;
                    match &result.alternatives {
                        None => {},
                        Some(alts) => {
                            let mut j: usize = 0;
                            while j < alts.len()
                                invariant
                                    j <= alts.len(),
                                    result.alternatives == Some(*alts),
                                    transcript_views(out@) == transcript_views(before)
                                        + result_transcripts(
                                        *result,
                                        self.channel(),
                                        self.reference_ns(),
                                        now_ns,
                                    ).subrange(0, j as int),
                                decreases alts.len() - j,
                            {
                                let ghost seen = out@;
                                let ghost all = result_transcripts(
                                    *result,
                                    self.channel(),
                                    self.reference_ns(),
                                    now_ns,
                                );
                                let t = self.transcript_of(&alts[j], result.is_partial, now_ns);
                                out.push(t);
                                proof {
                                    assert(transcript_views(out@) == transcript_views(seen).push(
                                        t@,
                                    ));
                                    assert(all.subrange(0, j + 1) == all.subrange(0, j as int).push(
                                        all[j as int],
                                    ));
                                }
                                j = j + 1;
                            }
                        },
                    }
                    i = i + 1;
                }
            },
        }
        out
    }
}

} // verus!
