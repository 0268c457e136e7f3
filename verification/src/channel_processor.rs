//! The pipeline of one channel: what happens to each chunk, and when the
//! recogniser session opens and closes.
//!
//! The processor decides; the caller acts. Each call hands back what is to
//! be sent, opened or closed, and the caller reports how opening and sending
//! went.

use crate::buffer::{buffered_samples, evicted, AudioBuffer};
use crate::config::{BufferConfig, ChannelConfig, TranscribeConfig, VadConfig};
use crate::text::{all_punctuation, chars_of, clean_chars, string_of, trim_chars};
use crate::text::{clean_text, exposed_text, punctuation_only};
use crate::transcribe::{bump, transcript_views, TranscribeClient, TranscriptView};
use crate::tui_state::{index_of_channel, shows, ChannelUpdate, EntryView};
use crate::tui_state::{TranscribeStatus, TranscriptEntry, TuiState};
use crate::types::{duration_ms, duration_ms_spec};
use crate::types::{AudioChunk, BufferedChunk, SampleI16, TranscriptResult, VadState};
use crate::vad::{chunk_level, vad_step, VoiceActivityDetector};
use crate::wav_writer::{capped_sum, WavWriter};
use vstd::prelude::*;

verus! {

/// Whether a recogniser session is open.
#[derive(Clone, Copy, Debug, PartialEq, Eq, Structural)]
pub enum TranscribeConnectionState {
    Disconnected,
    Connected,
}

/// What is to be done about the session for a chunk.
#[derive(Clone, Copy, Debug, PartialEq, Eq, Structural)]
pub enum ChunkAction {
    /// Voice without a session: open one. If it opens, forward what
    /// `connection_opened` hands back, then the payload.
    Connect,
    /// Voice with a session: forward the payload, which is the chunk.
    Forward,
    /// Silence with a session: forward the payload, which is as many zero
    /// samples as the chunk has, so that the segment stays open.
    ForwardSilence,
    /// Silence has lasted long enough: close the session.
    Disconnect,
    /// Silence without a session: nothing to send.
    Idle,
}

/// What the caller does for one chunk.
#[derive(Debug)]
pub struct ChunkPlan {
    /// The chunk's samples as they came, for the recording: every chunk is
    /// recorded whole, whatever is sent to the recogniser.
    pub record: Vec<SampleI16>,
    pub action: ChunkAction,
    /// Samples for the recogniser; empty where the action sends none.
    pub payload: Vec<SampleI16>,
    /// The chunk's samples for the monitor output, where one is attached.
    pub monitor: Option<Vec<SampleI16>>,
}

/// `silence_ms + chunk_ms`, held at `u32::MAX`.
pub open spec fn silence_after(silence_ms: u32, chunk_ms: u32) -> u32 {
    if silence_ms + chunk_ms <= u32::MAX {
        (silence_ms + chunk_ms) as u32
    } else {
        u32::MAX
    }
}

/// The action for a chunk that the detector calls voice or not, given
/// whether a session is open, the silence gathered so far, the length of
/// the chunk and the silence at which a session closes.
pub open spec fn chunk_action(
    voice: bool,
    connected: bool,
    silence_ms: u32,
    chunk_ms: u32,
    threshold_ms: u32,
) -> ChunkAction {
    if voice {
        if connected {
            ChunkAction::Forward
        } else {
            ChunkAction::Connect
        }
    } else if connected {
        if silence_after(silence_ms, chunk_ms) >= threshold_ms {
            ChunkAction::Disconnect
        } else {
            ChunkAction::ForwardSilence
        }
    } else {
        ChunkAction::Idle
    }
}

/// The silence gathered after a chunk: none after voice with a session and
/// after a disconnect, one chunk more after silence with a session, and
/// what it was without a session.
pub open spec fn silence_next(
    voice: bool,
    connected: bool,
    silence_ms: u32,
    chunk_ms: u32,
    threshold_ms: u32,
) -> u32 {
    if !connected {
        silence_ms
    } else if voice {
        0
    } else if silence_after(silence_ms, chunk_ms) >= threshold_ms {
        0
    } else {
        silence_after(silence_ms, chunk_ms)
    }
}

/// The samples that go to the recogniser with an action.
pub open spec fn payload_for(action: ChunkAction, samples: Seq<SampleI16>) -> Seq<SampleI16> {
    match action {
        ChunkAction::Connect => samples,
        ChunkAction::Forward => samples,
        ChunkAction::ForwardSilence => Seq::new(samples.len(), |i: int| 0i16),
        ChunkAction::Disconnect => Seq::empty(),
        ChunkAction::Idle => Seq::empty(),
    }
}

/// Silence gathered with a session over a run of chunks that the detector
/// does not call voice, of the given lengths, starting from none.
pub open spec fn silence_total(chunk_ms: Seq<u32>) -> nat
    decreases chunk_ms.len(),
{
    if chunk_ms.len() == 0 {
        0
    } else {
        silence_total(chunk_ms.drop_last()) + chunk_ms.last() as nat
    }
}

/// The silence counter after a run of silent chunks during which the
/// session stayed open, starting from a counter of zero.
pub open spec fn silence_counter(chunk_ms: Seq<u32>, threshold_ms: u32) -> u32
    decreases chunk_ms.len(),
{
    if chunk_ms.len() == 0 {
        0
    } else {
        silence_next(
            false,
            true,
            silence_counter(chunk_ms.drop_last(), threshold_ms),
            chunk_ms.last(),
            threshold_ms,
        )
    }
}

/// Silence disconnect: while silent chunks since the last voice chunk add
/// up to less than the threshold, each one is answered with zero samples
/// and the counter holds their sum; the chunk with which the sum first
/// reaches the threshold is answered with a disconnect.
pub proof fn lemma_silence_disconnect(chunk_ms: Seq<u32>, next_ms: u32, threshold_ms: u32)
    requires
        silence_total(chunk_ms) < threshold_ms,
    ensures
        silence_counter(chunk_ms, threshold_ms) == silence_total(chunk_ms),
        chunk_action(false, true, silence_counter(chunk_ms, threshold_ms), next_ms, threshold_ms)
            == if silence_total(chunk_ms) + next_ms >= threshold_ms {
            ChunkAction::Disconnect
        } else {
            ChunkAction::ForwardSilence
        },
    decreases chunk_ms.len(),
{
    if chunk_ms.len() > 0 {
        lemma_silence_disconnect(chunk_ms.drop_last(), chunk_ms.last(), threshold_ms);
    }
}

/// What a transcript is exposed as: a partial one as it is, a final one
/// with its text in normal form, or not at all where that text is empty or
/// punctuation only.
pub open spec fn exposed_transcript(t: TranscriptView) -> Option<TranscriptView> {
    if t.is_partial {
        Some(t)
    } else {
        match exposed_text(t.text) {
            Some(text) => Some(
                TranscriptView {
                    channel: t.channel,
                    timestamp: t.timestamp,
                    timestamp_millis: t.timestamp_millis,
                    text,
                    is_partial: t.is_partial,
                    stability: t.stability,
                },
            ),
            None => None,
        }
    }
}

/// The transcripts exposed of a run of received ones, in order.
pub open spec fn exposed_transcripts(received: Seq<TranscriptView>) -> Seq<TranscriptView>
    decreases received.len(),
{
    if received.len() == 0 {
        Seq::empty()
    } else {
        match exposed_transcript(received.last()) {
            Some(t) => exposed_transcripts(received.drop_last()).push(t),
            None => exposed_transcripts(received.drop_last()),
        }
    }
}

/// The dashboard entry of an exposed transcript.
pub open spec fn entry_of(t: TranscriptView) -> EntryView {
    EntryView {
        text: t.text,
        time: t.timestamp,
        millis: t.timestamp_millis,
        is_partial: t.is_partial,
        stability: t.stability,
    }
}

/// Pipeline state of one channel.
pub struct ChannelProcessor {
    channel_id: usize,
    channel_name: String,
    vad: VoiceActivityDetector,
    buffer: AudioBuffer,
    wav_writer: WavWriter,
    client: TranscribeClient,
    sample_rate: u32,
    monitoring: bool,
    connection_state: TranscribeConnectionState,
    transcribe_status: TranscribeStatus,
    silence_duration_ms: u32,
    silence_threshold_ms: u32,
    buffered_samples_during_disconnect: Vec<Vec<SampleI16>>,
    connect_on_startup: bool,
    send_buffered_on_reconnect: bool,
    sessions_opened: u64,
}

impl ChannelProcessor {
    pub closed spec fn id(&self) -> usize {
        self.channel_id
    }

    pub closed spec fn name(&self) -> Seq<char> {
        self.channel_name@
    }

    /// Rate of the channel's audio.
    pub closed spec fn rate(&self) -> u32 {
        self.sample_rate
    }

    /// Whether a session is open.
    pub closed spec fn connected(&self) -> bool {
        self.connection_state == TranscribeConnectionState::Connected
    }

    /// Connection health as the dashboard shows it.
    pub closed spec fn status(&self) -> TranscribeStatus {
        self.transcribe_status
    }

    /// Silence gathered since the last voice chunk, with a session open.
    pub closed spec fn silence_ms(&self) -> u32 {
        self.silence_duration_ms
    }

    /// Silence at which a session is closed.
    pub closed spec fn silence_threshold(&self) -> u32 {
        self.silence_threshold_ms
    }

    /// The detector.
    pub closed spec fn detector(&self) -> VoiceActivityDetector {
        self.vad
    }

    /// The retry buffer.
    pub closed spec fn retry_buffer(&self) -> AudioBuffer {
        self.buffer
    }

    /// The recording's bookkeeping.
    pub closed spec fn recording(&self) -> WavWriter {
        self.wav_writer
    }

    /// The session client.
    pub closed spec fn session(&self) -> TranscribeClient {
        self.client
    }

    /// Whether a monitor output is attached.
    pub closed spec fn monitored(&self) -> bool {
        self.monitoring
    }

    /// Sample blocks held back while disconnected, oldest first.
    pub closed spec fn backlog(&self) -> Seq<Vec<SampleI16>> {
        self.buffered_samples_during_disconnect@
    }

    /// Whether the backlog is forwarded when a session opens.
    pub closed spec fn sends_backlog(&self) -> bool {
        self.send_buffered_on_reconnect
    }

    /// Whether a session is opened when the pipeline starts.
    pub closed spec fn connects_on_startup(&self) -> bool {
        self.connect_on_startup
    }

    /// Number of sessions opened so far.
    pub closed spec fn opened(&self) -> u64 {
        self.sessions_opened
    }

    /// The processor's invariant: its parts run at the channel's rate, the
    /// retry buffer is within its budget, and the dashboard shows
    /// `Connected` exactly while a session is open.
    pub closed spec fn wf(&self) -> bool {
        &&& self.buffer.wf()
        &&& self.buffer.rate() == self.sample_rate
        &&& self.vad.rate() == self.sample_rate
        &&& self.wav_writer.rate() == self.sample_rate
        &&& (self.transcribe_status == TranscribeStatus::Connected) == (self.connection_state
            == TranscribeConnectionState::Connected)
    }

    /// What a call leaves as it was unless its contract says otherwise.
    pub open spec fn same_setup(&self, other: &Self) -> bool {
        &&& self.id() == other.id()
        &&& self.name() == other.name()
        &&& self.rate() == other.rate()
        &&& self.silence_threshold() == other.silence_threshold()
        &&& self.sends_backlog() == other.sends_backlog()
        &&& self.connects_on_startup() == other.connects_on_startup()
        &&& self.detector().threshold() == other.detector().threshold()
        &&& self.detector().hangover() == other.detector().hangover()
        &&& self.retry_buffer().capacity() == other.retry_buffer().capacity()
        &&& self.retry_buffer().policy() == other.retry_buffer().policy()
        &&& self.session().channel() == other.session().channel()
        &&& self.recording().channel() == other.recording().channel()
    }

    /// A pipeline in silence, without a session, whose timeline starts at
    /// `now_ns`.
    pub fn new(
        channel_config: &ChannelConfig,
        vad_config: &VadConfig,
        buffer_config: &BufferConfig,
        transcribe_config: &TranscribeConfig,
        sample_rate: u32,
        now_ns: u128,
    ) -> (p: Self)
        ensures
            p.wf(),
            p.id() == channel_config.id,
            p.name() == channel_config.name@,
            p.rate() == sample_rate,
            !p.connected(),
            p.status() == TranscribeStatus::Disconnected,
            p.silence_ms() == 0,
            p.silence_threshold() == vad_config.silence_disconnect_threshold_ms,
            p.sends_backlog() == transcribe_config.send_buffered_on_reconnect,
            p.connects_on_startup() == transcribe_config.connect_on_startup,
            p.backlog().len() == 0,
            !p.monitored(),
            p.opened() == 0,
            p.detector().state() == VadState::Silence,
            p.detector().threshold() == vad_config.threshold_mdb,
            p.detector().hangover() == vad_config.hangover_duration_ms,
            p.retry_buffer().chunks().len() == 0,
            p.retry_buffer().policy() == buffer_config.drop_policy,
            !p.recording().is_recording(),
            p.recording().written() == 0,
            p.session().channel() == channel_config.id,
            p.session().reference_ns() == now_ns,
    {
        ChannelProcessor {
            channel_id: channel_config.id,
            channel_name: channel_config.name.clone(),
            vad: VoiceActivityDetector::new(vad_config, sample_rate),
            buffer: AudioBuffer::new(buffer_config, sample_rate),
            wav_writer: WavWriter::new(channel_config.id, sample_rate),
            client: TranscribeClient::new(transcribe_config.clone(), channel_config.id, now_ns),
            sample_rate,
            monitoring: false,
            connection_state: TranscribeConnectionState::Disconnected,
            transcribe_status: TranscribeStatus::Disconnected,
            silence_duration_ms: 0,
            silence_threshold_ms: vad_config.silence_disconnect_threshold_ms,
            buffered_samples_during_disconnect: Vec::new(),
            connect_on_startup: transcribe_config.connect_on_startup,
            send_buffered_on_reconnect: transcribe_config.send_buffered_on_reconnect,
            sessions_opened: 0,
        }
    }

    /// A monitor output is attached: chunks are copied to it from now on.
    pub fn set_audio_output(&mut self)
        requires
            old(self).wf(),
        ensures
            final(self).wf(),
            final(self).monitored(),
            final(self).same_setup(old(self)),
            final(self).recording() == old(self).recording(),
            final(self).detector() == old(self).detector(),
            final(self).retry_buffer() == old(self).retry_buffer(),
            final(self).session() == old(self).session(),
            final(self).backlog() == old(self).backlog(),
            final(self).connected() == old(self).connected(),
            final(self).status() == old(self).status(),
            final(self).silence_ms() == old(self).silence_ms(),
            final(self).opened() == old(self).opened(),
    {
        self.monitoring = true;
    }

    /// The monitor output is detached.
    pub fn clear_audio_output(&mut self)
        requires
            old(self).wf(),
        ensures
            final(self).wf(),
            !final(self).monitored(),
            final(self).same_setup(old(self)),
            final(self).recording() == old(self).recording(),
            final(self).detector() == old(self).detector(),
            final(self).retry_buffer() == old(self).retry_buffer(),
            final(self).session() == old(self).session(),
            final(self).backlog() == old(self).backlog(),
            final(self).connected() == old(self).connected(),
            final(self).status() == old(self).status(),
            final(self).silence_ms() == old(self).silence_ms(),
            final(self).opened() == old(self).opened(),
    {
        self.monitoring = false;
    }

    /// The pipeline starts: the recording opens, and the answer says
    /// whether a session is to be opened right away.
    pub fn start(&mut self) -> (connect_now: bool)
        requires
            old(self).wf(),
        ensures
            final(self).wf(),
            final(self).same_setup(old(self)),
            final(self).detector() == old(self).detector(),
            final(self).retry_buffer() == old(self).retry_buffer(),
            final(self).session() == old(self).session(),
            final(self).backlog() == old(self).backlog(),
            final(self).monitored() == old(self).monitored(),
            final(self).recording().rate() == old(self).recording().rate(),
            connect_now == (old(self).connects_on_startup() && !old(self).connected()),
            final(self).connected() == old(self).connected(),
            final(self).status() == old(self).status(),
            final(self).silence_ms() == old(self).silence_ms(),
            final(self).opened() == old(self).opened(),
            final(self).recording().is_recording(),
            final(self).recording().written() == 0,
    {
        self.wav_writer.start();
        self.connect_on_startup && !self.is_connected()
    }

    /// Takes in the next chunk of the channel with the level measured for
    /// it. The chunk is counted into the recording and stored in the retry
    /// buffer, the detector classifies it, and the plan says what goes to
    /// the recogniser and to the monitor.
    pub fn process_chunk(&mut self, chunk: AudioChunk, measured_mdb: i32) -> (plan: ChunkPlan)
        requires
            old(self).wf(),
        ensures
            final(self).wf(),
            final(self).same_setup(old(self)),
            final(self).session() == old(self).session(),
            final(self).recording().rate() == old(self).recording().rate(),
            plan.record@ == chunk.samples@,
            final(self).monitored() == old(self).monitored(),
            final(self).opened() == old(self).opened(),
            final(self).backlog() == old(self).backlog(),
            // The recording takes every sample.
            final(self).recording().is_recording(),
            final(self).recording().written() == capped_sum(
                if old(self).recording().is_recording() {
                    old(self).recording().written()
                } else {
                    0
                },
                chunk.samples@.len() as usize,
            ),
            // The retry buffer takes the chunk.
            final(self).retry_buffer().chunks() == evicted(
                old(self).retry_buffer().chunks().push(
                    BufferedChunk { samples: chunk.samples, timestamp_ns: chunk.timestamp_ns },
                ),
                old(self).retry_buffer().capacity(),
                old(self).retry_buffer().policy(),
            ),
            // The detector steps, unless the chunk is empty.
            final(self).detector().state() == (if chunk.samples@.len() == 0 {
                old(self).detector().state()
            } else {
                vad_step(
                    old(self).detector().state(),
                    chunk_level(chunk.samples@, measured_mdb) > old(self).detector().threshold(),
                    duration_ms_spec(chunk.samples@.len(), old(self).rate()),
                    old(self).detector().hangover(),
                )
            }),
            final(self).detector().last_volume() == (if chunk.samples@.len() == 0 {
                old(self).detector().last_volume()
            } else {
                chunk_level(chunk.samples@, measured_mdb)
            }),
            // The session follows the detector.
            ({
                let voice = chunk.samples@.len() > 0 && final(self).detector().state() is Voice;
                let chunk_ms = duration_ms_spec(chunk.samples@.len(), old(self).rate());
                &&& plan.action == chunk_action(
                    voice,
                    old(self).connected(),
                    old(self).silence_ms(),
                    chunk_ms,
                    old(self).silence_threshold(),
                )
                &&& final(self).silence_ms() == silence_next(
                    voice,
                    old(self).connected(),
                    old(self).silence_ms(),
                    chunk_ms,
                    old(self).silence_threshold(),
                )
            }),
            final(self).connected() == (old(self).connected() && plan.action
                != ChunkAction::Disconnect),
            final(self).status() == (if plan.action == ChunkAction::Disconnect {
                TranscribeStatus::Disconnected
            } else {
                old(self).status()
            }),
            plan.payload@ == payload_for(plan.action, chunk.samples@),
            plan.monitor is Some == old(self).monitored(),
            plan.monitor is Some ==> plan.monitor->0@ == chunk.samples@,
    {
        let count: usize = chunk.samples.len();
        self.wav_writer.write_samples(count);
        let voice: bool = self.vad.process(chunk.samples.as_slice(), measured_mdb);
        let chunk_ms: u32 = duration_ms(count, self.sample_rate);
        let connected: bool = self.is_connected();
        let action: ChunkAction = if voice {
            if connected {
                ChunkAction::Forward
            } else {
                ChunkAction::Connect
            }
        } else if connected {
            if self.silence_duration_ms.saturating_add(chunk_ms) >= self.silence_threshold_ms {
                ChunkAction::Disconnect
            } else {
                ChunkAction::ForwardSilence
            }
        } else {
            ChunkAction::Idle
        };
        let payload: Vec<SampleI16> = match action {
            ChunkAction::Connect => chunk.samples.clone(),
            ChunkAction::Forward => chunk.samples.clone(),
            ChunkAction::ForwardSilence => vec![0i16; count],
            ChunkAction::Disconnect => Vec::new(),
            ChunkAction::Idle => Vec::new(),
        };
        let record: Vec<SampleI16> = chunk.samples.clone();
        let monitor: Option<Vec<SampleI16>> = if self.monitoring {
            Some(chunk.samples.clone())
        } else {
            None
        };
        match action {
            ChunkAction::Connect => {},
            ChunkAction::Forward => {
                self.silence_duration_ms = 0;
            },
            ChunkAction::ForwardSilence => {
                self.silence_duration_ms = self.silence_duration_ms.saturating_add(chunk_ms);
            },
            ChunkAction::Disconnect => {
                self.connection_state = TranscribeConnectionState::Disconnected;
                self.transcribe_status = TranscribeStatus::Disconnected;
                self.silence_duration_ms = 0;
            },
            ChunkAction::Idle => {},
        }
        self.buffer.push(BufferedChunk { samples: chunk.samples, timestamp_ns: chunk.timestamp_ns });
        ChunkPlan { record, action, payload, monitor }
    }

    /// Asks for a session at `now_ns`. With a session open nothing happens
    /// and the answer is no: none is to be opened. Without one the
    /// session's timeline is set to start at `now_ns` and the answer is yes.
    pub fn reconnect_transcribe(&mut self, now_ns: u128) -> (open: bool)
        requires
            old(self).wf(),
        ensures
            final(self).wf(),
            final(self).same_setup(old(self)),
            open == !old(self).connected(),
            final(self).connected() == old(self).connected(),
            final(self).status() == old(self).status(),
            final(self).silence_ms() == old(self).silence_ms(),
            final(self).opened() == old(self).opened(),
            final(self).backlog() == old(self).backlog(),
            final(self).monitored() == old(self).monitored(),
            final(self).detector() == old(self).detector(),
            final(self).retry_buffer() == old(self).retry_buffer(),
            final(self).recording() == old(self).recording(),
            old(self).connected() ==> final(self).session() == old(self).session(),
            !old(self).connected() ==> final(self).session().reference_ns() == now_ns,
    {
        if self.is_connected() {
            false
        } else {
            self.client.reset_start_time(now_ns);
            true
        }
    }

    /// The session asked for has opened. Hands back the backlog to forward
    /// first, oldest block first, where forwarding it is switched on; the
    /// backlog is empty afterwards either way.
    pub fn connection_opened(&mut self) -> (forward: Vec<Vec<SampleI16>>)
        requires
            old(self).wf(),
        ensures
            final(self).wf(),
            final(self).same_setup(old(self)),
            final(self).connected(),
            final(self).status() == TranscribeStatus::Connected,
            final(self).silence_ms() == 0,
            final(self).opened() == bump(old(self).opened()),
            final(self).backlog().len() == 0,
            forward@ == if old(self).sends_backlog() {
                old(self).backlog()
            } else {
                Seq::<Vec<SampleI16>>::empty()
            },
            final(self).monitored() == old(self).monitored(),
            final(self).detector() == old(self).detector(),
            final(self).retry_buffer() == old(self).retry_buffer(),
            final(self).recording() == old(self).recording(),
            final(self).session() == old(self).session(),
    {
        self.connection_state = TranscribeConnectionState::Connected;
        self.transcribe_status = TranscribeStatus::Connected;
        self.silence_duration_ms = 0;
        self.sessions_opened = self.sessions_opened.saturating_add(1);
        let mut held: Vec<Vec<SampleI16>> = Vec::new();
        std::mem::swap(&mut self.buffered_samples_during_disconnect, &mut held);
        if self.send_buffered_on_reconnect {
            held
        } else {
            Vec::new()
        }
    }

    /// The session asked for could not be opened: the dashboard shows an
    /// error until one opens. The next voice chunk asks again.
    pub fn connection_failed(&mut self)
        requires
            old(self).wf(),
        ensures
            final(self).wf(),
            final(self).same_setup(old(self)),
            final(self).recording() == old(self).recording(),
            final(self).detector() == old(self).detector(),
            final(self).retry_buffer() == old(self).retry_buffer(),
            final(self).session() == old(self).session(),
            !final(self).connected(),
            final(self).status() == TranscribeStatus::Error,
            final(self).silence_ms() == old(self).silence_ms(),
            final(self).opened() == old(self).opened(),
            final(self).backlog() == old(self).backlog(),
            final(self).monitored() == old(self).monitored(),
    {
        self.connection_state = TranscribeConnectionState::Disconnected;
        self.transcribe_status = TranscribeStatus::Error;
    }

    /// Sending to the recogniser failed: the session counts as closed from
    /// now on.
    pub fn send_failed(&mut self)
        requires
            old(self).wf(),
        ensures
            final(self).wf(),
            final(self).same_setup(old(self)),
            final(self).recording() == old(self).recording(),
            final(self).detector() == old(self).detector(),
            final(self).retry_buffer() == old(self).retry_buffer(),
            final(self).session() == old(self).session(),
            !final(self).connected(),
            final(self).status() == TranscribeStatus::Disconnected,
            final(self).silence_ms() == old(self).silence_ms(),
            final(self).opened() == old(self).opened(),
            final(self).backlog() == old(self).backlog(),
            final(self).monitored() == old(self).monitored(),
    {
        self.connection_state = TranscribeConnectionState::Disconnected;
        self.transcribe_status = TranscribeStatus::Disconnected;
    }

    /// Closes the session.
    pub fn disconnect_transcribe(&mut self)
        requires
            old(self).wf(),
        ensures
            final(self).wf(),
            final(self).same_setup(old(self)),
            final(self).recording() == old(self).recording(),
            final(self).detector() == old(self).detector(),
            final(self).retry_buffer() == old(self).retry_buffer(),
            final(self).session() == old(self).session(),
            !final(self).connected(),
            final(self).status() == TranscribeStatus::Disconnected,
            final(self).silence_ms() == 0,
            final(self).opened() == old(self).opened(),
            final(self).backlog() == old(self).backlog(),
            final(self).monitored() == old(self).monitored(),
    {
        self.connection_state = TranscribeConnectionState::Disconnected;
        self.transcribe_status = TranscribeStatus::Disconnected;
        self.silence_duration_ms = 0;
    }

    /// Writing `count` samples of a chunk to the recording failed: they are
    /// taken off the count again, so that it stays the number of samples in
    /// the file.
    pub fn recording_failed(&mut self, count: usize)
        requires
            old(self).wf(),
        ensures
            final(self).wf(),
            final(self).same_setup(old(self)),
            final(self).detector() == old(self).detector(),
            final(self).retry_buffer() == old(self).retry_buffer(),
            final(self).session() == old(self).session(),
            final(self).backlog() == old(self).backlog(),
            final(self).monitored() == old(self).monitored(),
            final(self).connected() == old(self).connected(),
            final(self).status() == old(self).status(),
            final(self).silence_ms() == old(self).silence_ms(),
            final(self).opened() == old(self).opened(),
            final(self).recording().rate() == old(self).recording().rate(),
            final(self).recording().is_recording() == old(self).recording().is_recording(),
            final(self).recording().written() == (if old(self).recording().written() >= count {
                (old(self).recording().written() - count) as usize
            } else {
                0
            }),
    {
        self.wav_writer.write_failed(count);
    }

    /// The pipeline stops: the session and the recording close. Hands back
    /// the number of samples recorded, if a recording was open.
    pub fn stop(&mut self) -> (recorded: Option<usize>)
        requires
            old(self).wf(),
        ensures
            final(self).wf(),
            final(self).same_setup(old(self)),
            final(self).detector() == old(self).detector(),
            final(self).retry_buffer() == old(self).retry_buffer(),
            final(self).session() == old(self).session(),
            final(self).backlog() == old(self).backlog(),
            final(self).monitored() == old(self).monitored(),
            final(self).silence_ms() == old(self).silence_ms(),
            final(self).recording().rate() == old(self).recording().rate(),
            final(self).recording().written() == (if old(self).recording().is_recording() {
                0
            } else {
                old(self).recording().written()
            }),
            !final(self).connected(),
            final(self).status() == TranscribeStatus::Disconnected,
            !final(self).recording().is_recording(),
            recorded == if old(self).recording().is_recording() {
                Some(old(self).recording().written())
            } else {
                None::<usize>
            },
            final(self).opened() == old(self).opened(),
    {
        self.connection_state = TranscribeConnectionState::Disconnected;
        self.transcribe_status = TranscribeStatus::Disconnected;
        self.wav_writer.finalize()
    }

    /// The normal form of a transcript text.
    pub fn remove_filler_words(text: &str) -> (out: String)
        ensures
            out@ == clean_text(text@),
    {
        let chars: Vec<char> = chars_of(text);
        let cleaned: Vec<char> = clean_chars(&chars);
        string_of(&cleaned)
    }

    /// Whether a text, once trimmed, is empty or holds nothing but
    /// punctuation.
    pub fn is_punctuation_only(text: &str) -> (only: bool)
        ensures
            only == punctuation_only(text@),
    {
        let chars: Vec<char> = chars_of(text);
        let trimmed: Vec<char> = trim_chars(&chars);
        all_punctuation(&trimmed)
    }

    /// The text that a final transcript is exposed with, if any.
    pub fn final_text(text: &str) -> (out: Option<String>)
        ensures
            match out {
                Some(t) => exposed_text(text@) == Some(t@),
                None => exposed_text(text@) is None,
            },
    {
        let chars: Vec<char> = chars_of(text);
        let cleaned: Vec<char> = clean_chars(&chars);
        let trimmed: Vec<char> = trim_chars(&cleaned);
        if all_punctuation(&trimmed) {
            None
        } else {
            Some(string_of(&cleaned))
        }
    }

    /// What one received transcript is exposed as, if at all.
    pub fn expose(result: &TranscriptResult) -> (out: Option<TranscriptResult>)
        ensures
            match out {
                Some(t) => exposed_transcript(result@) == Some(t@),
                None => exposed_transcript(result@) is None,
            },
    {
        let text: Option<String> = if result.is_partial {
            Some(result.text.clone())
        } else {
            Self::final_text(result.text.as_str())
        };
        match text {
            Some(text) => Some(
                TranscriptResult {
                    channel: result.channel,
                    timestamp: result.timestamp.clone(),
                    timestamp_millis: result.timestamp_millis,
                    text,
                    is_partial: result.is_partial,
                    stability: result.stability,
                },
            ),
            None => None,
        }
    }

    /// The transcripts to expose of those drained from the session's
    /// queue, in the order received: partial ones as they are, final ones
    /// with their text in normal form, and without those whose text is then
    /// empty or punctuation only.
    pub fn poll_transcripts(&self, received: &Vec<TranscriptResult>) -> (out: Vec<TranscriptResult>)
        ensures
            transcript_views(out@) == exposed_transcripts(transcript_views(received@)),
    {
        let mut out: Vec<TranscriptResult> = Vec::new();
        let mut i: usize = 0;
        while i < received.len()
            invariant
                i <= received.len(),
                transcript_views(out@) == exposed_transcripts(
                    transcript_views(received@.take(i as int)),
                ),
            decreases received.len() - i,
        {
            let ghost seen = out@;
            proof {
                let next = transcript_views(received@.take(i + 1));
                assert(next.drop_last() == transcript_views(received@.take(i as int)));
                assert(next.last() == received@[i as int]@);
            }
            match Self::expose(&received[i]) {
                Some(t) => {
                    out.push(t);
                    proof {
                        assert(transcript_views(out@) == transcript_views(seen).push(t@));
                    }
                },
                None => {},
            }
            i = i + 1;
        }
        proof {
            assert(received@.take(received@.len() as int) == received@);
        }
        out
    }

    /// Shows a received transcript on the dashboard, as it is exposed; one
    /// that is not exposed changes nothing. Says whether the dashboard
    /// changed.
    pub fn add_transcript_to_tui(&self, result: &TranscriptResult, tui: &mut TuiState) -> (shown:
        bool)
        ensures
            final(tui).selected() == old(tui).selected(),
            final(tui).channels().len() == old(tui).channels().len(),
            shown == (exposed_transcript(result@) is Some && index_of_channel(
                old(tui).channels(),
                self.id(),
            ) is Some),
            forall|j: int|
                0 <= j < old(tui).channels().len() && (!shown || Some(j) != index_of_channel(
                    old(tui).channels(),
                    self.id(),
                )) ==> final(tui).channels()[j] == old(tui).channels()[j],
            shown ==> shows(
                old(tui).channels()[index_of_channel(old(tui).channels(), self.id())->0],
                final(tui).channels()[index_of_channel(old(tui).channels(), self.id())->0],
                entry_of(exposed_transcript(result@)->0),
            ),
    {
        match Self::expose(result) {
            None => false,
            Some(t) => {
                let entry = TranscriptEntry {
                    text: t.text,
                    time: t.timestamp,
                    millis: t.timestamp_millis,
                    is_partial: t.is_partial,
                    stability: t.stability,
                };
                tui.update_channel(self.channel_id, ChannelUpdate::Transcript(entry), 0)
            },
        }
    }

    /// Hands the detector's threshold to the dashboard. Says whether the
    /// dashboard has the channel.
    pub fn set_tui_state(&self, tui: &mut TuiState) -> (found: bool)
        ensures
            final(tui).selected() == old(tui).selected(),
            final(tui).channels().len() == old(tui).channels().len(),
            found == index_of_channel(old(tui).channels(), self.id()) is Some,
            forall|j: int|
                0 <= j < old(tui).channels().len() && Some(j) != index_of_channel(
                    old(tui).channels(),
                    self.id(),
                ) ==> final(tui).channels()[j] == old(tui).channels()[j],
            found ==> final(tui).channels()[index_of_channel(
                old(tui).channels(),
                self.id(),
            )->0].vad_threshold_mdb == self.detector().threshold(),
    {
        tui.update_channel(
            self.channel_id,
            ChannelUpdate::VadThreshold(self.vad.threshold_mdb()),
            0,
        )
    }

    /// Publishes the level of the last chunk, the detector's state and the
    /// connection health to the dashboard at `now_ns`. Says whether the
    /// dashboard has the channel.
    pub fn publish(&self, tui: &mut TuiState, now_ns: u128) -> (found: bool)
        ensures
            final(tui).selected() == old(tui).selected(),
            final(tui).channels().len() == old(tui).channels().len(),
            found == index_of_channel(old(tui).channels(), self.id()) is Some,
            forall|j: int|
                0 <= j < old(tui).channels().len() && Some(j) != index_of_channel(
                    old(tui).channels(),
                    self.id(),
                ) ==> final(tui).channels()[j] == old(tui).channels()[j],
            found ==> ({
                let i = index_of_channel(old(tui).channels(), self.id())->0;
                let after = final(tui).channels()[i];
                &&& after.current_volume_mdb == self.detector().last_volume()
                &&& after.vad_state == self.detector().state()
                &&& after.transcribe_status == self.status()
                &&& after.same_transcripts(&old(tui).channels()[i])
            }),
    {
        tui.publish_signals(
            self.channel_id,
            self.vad.get_last_volume_mdb(),
            self.vad.get_state(),
            self.transcribe_status,
            now_ns,
        )
    }

    pub fn channel_id(&self) -> (id: usize)
        ensures
            id == self.id(),
    {
        self.channel_id
    }

    pub fn channel_name(&self) -> (name: &str)
        ensures
            name@ == self.name(),
    {
        self.channel_name.as_str()
    }

    /// Whether a session is open.
    pub fn is_connected(&self) -> (connected: bool)
        ensures
            connected == self.connected(),
    {
        match self.connection_state {
            TranscribeConnectionState::Connected => true,
            TranscribeConnectionState::Disconnected => false,
        }
    }

    /// Number of sessions opened so far.
    pub fn sessions_opened(&self) -> (n: u64)
        ensures
            n == self.opened(),
    {
        self.sessions_opened
    }

    /// Silence gathered since the last voice chunk, with a session open.
    pub fn silence_duration_ms(&self) -> (ms: u32)
        ensures
            ms == self.silence_ms(),
    {
        self.silence_duration_ms
    }

    /// Samples counted into the recording.
    pub fn samples_written(&self) -> (n: usize)
        ensures
            n == self.recording().written(),
    {
        self.wav_writer.samples_written()
    }

    /// The retry buffer, for replay.
    pub fn buffer(&self) -> (buffer: &AudioBuffer)
        ensures
            *buffer == self.retry_buffer(),
    {
        &self.buffer
    }

    /// Connection health for the dashboard.
    pub fn transcribe_status(&self) -> (status: TranscribeStatus)
        ensures
            status == self.status(),
    {
        self.transcribe_status
    }

    /// Length of the recording, in whole milliseconds.
    pub fn wav_duration_ms(&self) -> (ms: u32)
        ensures
            ms == duration_ms_spec(self.recording().written() as nat, self.recording().rate()),
    {
        self.wav_writer.duration_ms()
    }

    /// Length of the audio in the retry buffer, in whole milliseconds.
    pub fn buffer_duration_ms(&self) -> (ms: u32)
        requires
            self.wf(),
        ensures
            ms == duration_ms_spec(
                buffered_samples(self.retry_buffer().chunks()).len(),
                self.retry_buffer().rate(),
            ),
    {
        self.buffer.duration_ms()
    }

    pub fn vad_state(&self) -> (state: VadState)
        ensures
            state == self.detector().state(),
    {
        self.vad.get_state()
    }

    /// Level of the last chunk, in thousandths of a decibel.
    pub fn current_volume_mdb(&self) -> (level: i32)
        ensures
            level == self.detector().last_volume(),
    {
        self.vad.get_last_volume_mdb()
    }

    /// Level above which a chunk is voice, in thousandths of a decibel.
    pub fn vad_threshold_mdb(&self) -> (level: i32)
        ensures
            level == self.detector().threshold(),
    {
        self.vad.threshold_mdb()
    }

    /// The session client, for stamping transcripts.
    pub fn client(&self) -> (client: &TranscribeClient)
        ensures
            *client == self.session(),
    {
        &self.client
    }
}

} // verus!
