//! The non-streaming recogniser: audio is gathered into blocks of a fixed
//! duration, and each block goes out as one wave blob.

use crate::types::{SampleI16, TranscriptResult};
use vstd::prelude::*;

verus! {

/// Settings of the non-streaming recogniser's session.
#[derive(Clone, Debug)]
pub struct WhisperConfig {
    pub api_key: String,
    pub model: String,
    pub language: Option<String>,
    pub sample_rate: u32,
    /// Seconds of audio gathered for one request.
    pub chunk_duration_secs: u64,
}

/// Highest sample rate that a wave blob is written for.
pub const MAX_WAV_SAMPLE_RATE: u32 = 0x7fff_ffff;

/// Largest number of samples that a wave blob holds: with them and the
/// header, the sizes in the header still fit their 32 bits.
pub const MAX_WAV_SAMPLES: usize = 0x7fff_ffed;

/// Why no wave blob was made.
#[derive(Clone, Copy, Debug, PartialEq, Eq, Structural)]
pub enum WavError {
    /// The sample rate is zero or too high, or there are too many samples.
    Unsupported,
    /// The header could not be written.
    Header,
    /// A sample could not be written.
    Sample,
    /// The sizes could not be filled in at the end.
    Finalize,
}

/// The two bytes of a 16-bit value, low byte first.
pub open spec fn le16(x: int) -> Seq<u8> {
    seq![(x % 256) as u8, (x / 256 % 256) as u8]
}

/// The four bytes of a 32-bit value, low byte first.
pub open spec fn le32(x: int) -> Seq<u8> {
    seq![
        (x % 256) as u8,
        (x / 256 % 256) as u8,
        (x / 65536 % 256) as u8,
        (x / 16777216 % 256) as u8,
    ]
}

/// The bytes of the samples: two per sample in two's complement, low byte
/// first.
pub open spec fn wav_data(samples: Seq<SampleI16>) -> Seq<u8>
    decreases samples.len(),
{
    if samples.len() == 0 {
        Seq::empty()
    } else {
        wav_data(samples.drop_last()) + le16(
            if samples.last() < 0 {
                samples.last() + 65536
            } else {
                samples.last() as int
            },
        )
    }
}

/// The 44 bytes in front of the samples: `RIFF`, the size of what follows,
/// `WAVE`, the `fmt ` chunk of 16 bytes (PCM, one channel, the rate, two
/// bytes per sample and frame, 16 bits), `data` and the size of the
/// samples.
pub open spec fn wav_header(count: nat, sample_rate: u32) -> Seq<u8> {
    seq![0x52u8, 0x49, 0x46, 0x46] + le32(36 + 2 * count as int) + seq![0x57u8, 0x41, 0x56, 0x45]
        + seq![0x66u8, 0x6d, 0x74, 0x20] + le32(16) + le16(1) + le16(1) + le32(sample_rate as int)
        + le32(2 * sample_rate) + le16(2) + le16(16) + seq![0x64u8, 0x61, 0x74, 0x61] + le32(
        2 * count as int,
    )
}

/// A wave file of mono 16-bit PCM.
pub open spec fn wav_file(samples: Seq<SampleI16>, sample_rate: u32) -> Seq<u8> {
    wav_header(samples.len(), sample_rate) + wav_data(samples)
}

/// A block as bytes, where one was made.
pub open spec fn made_bytes(r: Result<Vec<u8>, WavError>) -> Option<Seq<u8>> {
    match r {
        Ok(bytes) => Some(bytes@),
        Err(_) => None,
    }
}

/// Why no block was made, where none was.
pub open spec fn wav_failure(r: Result<Vec<u8>, WavError>) -> Option<WavError> {
    match r {
        Ok(_) => None,
        Err(e) => Some(e),
    }
}

/// Calls hound: `WavWriter::new` over a cursor in memory with a spec of
/// one channel, 16 bits, integer; `write_sample` for each sample in order;
/// `finalize`. The contract claims that hound succeeds and that what it
/// then leaves in the cursor is the PCMWAVEFORMAT layout spelled out in
/// `wav_file`. Success rests on hound's source: with this spec the header
/// is supported, a 16-bit sample always fits, one channel leaves no
/// unfinished frame, and writing to a cursor over a vector does not fail.
/// The bounds keep hound's own arithmetic on the rate and on the byte
/// count within 32 bits.
#[verifier::external_body]
fn hound_wav(samples: &[SampleI16], sample_rate: u32) -> (r: Result<Vec<u8>, WavError>)
    requires
        0 < sample_rate <= MAX_WAV_SAMPLE_RATE,
        samples@.len() <= MAX_WAV_SAMPLES,
    ensures
        made_bytes(r) == Some(wav_file(samples@, sample_rate)),
{
    let spec = hound::WavSpec {
        channels: 1,
        sample_rate,
        bits_per_sample: 16,
        sample_format: hound::SampleFormat::Int,
    };
    let mut cursor = std::io::Cursor::new(Vec::new());
    let mut writer = hound::WavWriter::new(&mut cursor, spec).map_err(|_| WavError::Header)?;
    for sample in samples {
        writer.write_sample(*sample).map_err(|_| WavError::Sample)?;
    }
    writer.finalize().map_err(|_| WavError::Finalize)?;
    Ok(cursor.into_inner())
}

/// Samples that make up a block: the rate times the block's duration.
pub open spec fn block_len(sample_rate: u32, chunk_duration_secs: u64) -> nat {
    sample_rate as nat * chunk_duration_secs as nat
}

/// Session state of the non-streaming recogniser for one channel.
pub struct WhisperBackend {
    config: WhisperConfig,
    channel_id: usize,
    start_time_ns: u128,
    pending: Vec<SampleI16>,
}

impl WhisperBackend {
    /// Channel served.
    pub closed spec fn channel(&self) -> usize {
        self.channel_id
    }

    /// Reference time of the session's timeline.
    pub closed spec fn reference_ns(&self) -> u128 {
        self.start_time_ns
    }

    /// Rate of the audio.
    pub closed spec fn rate(&self) -> u32 {
        self.config.sample_rate
    }

    /// Duration of a block in seconds.
    pub closed spec fn block_secs(&self) -> u64 {
        self.config.chunk_duration_secs
    }

    /// The settings the session was made with.
    pub closed spec fn settings(&self) -> WhisperConfig {
        self.config
    }

    /// Samples gathered for the next block.
    pub closed spec fn pending(&self) -> Seq<SampleI16> {
        self.pending@
    }

    /// A session with nothing gathered, whose timeline starts at `now_ns`.
    pub fn new(config: WhisperConfig, channel_id: usize, now_ns: u128) -> (b: Self)
        ensures
            b.channel() == channel_id,
            b.reference_ns() == now_ns,
            b.rate() == config.sample_rate,
            b.block_secs() == config.chunk_duration_secs,
            b.pending() == Seq::<SampleI16>::empty(),
            b.settings() == config,
    {
        WhisperBackend { config, channel_id, start_time_ns: now_ns, pending: Vec::new() }
    }

    pub fn channel_id(&self) -> (id: usize)
        ensures
            id == self.channel(),
    {
        self.channel_id
    }

    /// The settings the session was made with.
    pub fn config(&self) -> (config: &WhisperConfig)
        ensures
            *config == self.settings(),
    {
        &self.config
    }

    /// A session opens at `now_ns`: its timeline starts there.
    pub fn reset_start_time(&mut self, now_ns: u128)
        ensures
            final(self).reference_ns() == now_ns,
            final(self).channel() == old(self).channel(),
            final(self).rate() == old(self).rate(),
            final(self).block_secs() == old(self).block_secs(),
            final(self).settings() == old(self).settings(),
            final(self).pending() == old(self).pending(),
    {
        self.start_time_ns = now_ns;
    }

    /// Takes in a chunk. Once a block's worth of samples is gathered, all
    /// of them come back as the block to transcribe.
    pub fn push(&mut self, samples: &[SampleI16]) -> (block: Option<Vec<SampleI16>>)
        ensures
            final(self).reference_ns() == old(self).reference_ns(),
            final(self).channel() == old(self).channel(),
            final(self).rate() == old(self).rate(),
            final(self).block_secs() == old(self).block_secs(),
            final(self).settings() == old(self).settings(),
            ({
                let gathered = old(self).pending() + samples@;
                if gathered.len() >= block_len(old(self).rate(), old(self).block_secs()) {
                    &&& block is Some
                    &&& block->0@ == gathered
                    &&& final(self).pending() == Seq::<SampleI16>::empty()
                } else {
                    &&& block is None
                    &&& final(self).pending() == gathered
                }
            }),
    {
        self.pending.extend_from_slice(samples);
        assert(self.config.sample_rate * self.config.chunk_duration_secs <= 0xffff_ffff
            * 0xffff_ffff_ffff_ffff) by (nonlinear_arith)
            requires
                self.config.sample_rate <= 0xffff_ffff,
                self.config.chunk_duration_secs <= 0xffff_ffff_ffff_ffff,
        ;
        let wanted: u128 = (self.config.sample_rate as u128) * (self.config.chunk_duration_secs
            as u128);
        if self.pending.len() as u128 >= wanted {
            let mut block: Vec<SampleI16> = Vec::new();
            std::mem::swap(&mut self.pending, &mut block);
            Some(block)
        } else {
            None
        }
    }

    /// The queue closed: whatever is gathered is the last block.
    pub fn finish(&mut self) -> (block: Option<Vec<SampleI16>>)
        ensures
            final(self).reference_ns() == old(self).reference_ns(),
            final(self).channel() == old(self).channel(),
            final(self).rate() == old(self).rate(),
            final(self).block_secs() == old(self).block_secs(),
            final(self).settings() == old(self).settings(),
            final(self).pending() == Seq::<SampleI16>::empty(),
            old(self).pending().len() == 0 ==> block is None,
            old(self).pending().len() > 0 ==> block is Some && block->0@ == old(self).pending(),
    {
        if self.pending.len() == 0 {
            None
        } else {
            let mut block: Vec<SampleI16> = Vec::new();
            std::mem::swap(&mut self.pending, &mut block);
            Some(block)
        }
    }

    /// A block as a wave file in memory. A rate of zero or above
    /// `MAX_WAV_SAMPLE_RATE`, and more than `MAX_WAV_SAMPLES` samples, are
    /// refused as unsupported; every other block gives its wave file.
    pub fn pcm_to_wav(&self, pcm_data: &[SampleI16]) -> (r: Result<Vec<u8>, WavError>)
        ensures
            (self.rate() == 0 || self.rate() > MAX_WAV_SAMPLE_RATE || pcm_data@.len()
                > MAX_WAV_SAMPLES) ==> wav_failure(r) == Some(WavError::Unsupported),
            !(self.rate() == 0 || self.rate() > MAX_WAV_SAMPLE_RATE || pcm_data@.len()
                > MAX_WAV_SAMPLES) ==> made_bytes(r) == Some(wav_file(pcm_data@, self.rate())),
    {
        let rate: u32 = self.config.sample_rate;
        if rate == 0 || rate > MAX_WAV_SAMPLE_RATE || pcm_data.len() > MAX_WAV_SAMPLES {
            Err(WavError::Unsupported)
        } else {
            hound_wav(pcm_data, rate)
        }
    }

    /// The transcript of a block's text received at `now_ns`: a final
    /// result without stability, placed by the time passed since the
    /// session's reference time; none for an empty text.
    pub fn transcript_of(&self, text: String, now_ns: u128) -> (t: Option<TranscriptResult>)
        ensures
            text@.len() == 0 <==> t is None,
            t is Some ==> {
                &&& t->0.channel == self.channel()
                &&& t->0.text@ == text@
                &&& !t->0.is_partial
                &&& t->0.stability is None
                &&& t->0.timestamp_millis == crate::types::elapsed_ms_spec(
                    self.reference_ns(),
                    now_ns,
                )
                &&& t->0.timestamp@ == crate::types::wall_clock_text(now_ns)
            },
    {
        if text.as_str().is_empty() {
            None
        } else {
            Some(TranscriptResult::new(self.channel_id, text, false, None, self.start_time_ns, now_ns))
        }
    }
}

} // verus!
