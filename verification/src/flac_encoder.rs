//! Lossless compression of PCM frames for the streaming recogniser.

use crate::types::SampleI16;
use flacenc::component::BitRepr;
use flacenc::error::Verify;
use vstd::prelude::*;

verus! {

/// Highest compression level.
pub const MAX_COMPRESSION_LEVEL: u32 = 8;

/// Why a frame could not be encoded.
#[derive(Clone, Copy, Debug, PartialEq, Eq, Structural)]
pub enum FlacError {
    /// The encoder's settings did not pass its own check.
    Config,
    /// The encoder refused the stream or the samples.
    Encode,
    /// The encoded stream could not be written out as bytes.
    Output,
}

/// What flacenc makes of mono 16-bit samples at a sample rate with its
/// default settings, single-threaded, in blocks of the default size: the
/// bytes of the FLAC stream, or the step that failed.
pub uninterp spec fn flac_stream(samples: Seq<SampleI16>, sample_rate: u32) -> Result<
    Seq<u8>,
    FlacError,
>;

/// An outcome of encoding, with the bytes as a sequence.
pub open spec fn outcome_view(r: Result<Vec<u8>, FlacError>) -> Result<Seq<u8>, FlacError> {
    match r {
        Ok(bytes) => Ok(bytes@),
        Err(e) => Err(e),
    }
}

/// Calls flacenc: `MemSource::from_samples`, `Encoder::default` with
/// `into_verified`, `encode_with_fixed_block_size`, and `Stream::write`
/// into a `ByteSink`. The contract only gives the outcome its name: the
/// encoder is deterministic, so the same samples and rate always yield the
/// same outcome. Nothing is claimed about the bytes themselves.
#[verifier::external_body]
fn flacenc_stream(samples: &[SampleI16], sample_rate: u32) -> (r: Result<Vec<u8>, FlacError>)
    ensures
        outcome_view(r) == flac_stream(samples@, sample_rate),
{
    let pcm: Vec<i32> = samples.iter().map(|&s| i32::from(s)).collect();
    let source = flacenc::source::MemSource::from_samples(&pcm, 1, 16, sample_rate as usize);
    let config = flacenc::config::Encoder::default().into_verified().map_err(|_| FlacError::Config)?;
    let stream = flacenc::encode_with_fixed_block_size(&config, source, config.block_size)
        .map_err(|_| FlacError::Encode)?;
    let mut sink = flacenc::bitsink::ByteSink::new();
    stream.write(&mut sink).map_err(|_| FlacError::Output)?;
    Ok(sink.into_inner())
}

/// Encoder of one session.
pub struct FlacEncoder {
    sample_rate: u32,
    compression_level: u32,
}

impl FlacEncoder {
    /// Rate of the samples encoded.
    pub closed spec fn rate(&self) -> u32 {
        self.sample_rate
    }

    /// Compression level, 0 to 8.
    pub closed spec fn level(&self) -> u32 {
        self.compression_level
    }

    /// An encoder for `sample_rate`; a level above 8 counts as 8.
    pub fn new(sample_rate: u32, compression_level: u32) -> (e: Self)
        ensures
            e.rate() == sample_rate,
            e.level() == if compression_level <= MAX_COMPRESSION_LEVEL {
                compression_level
            } else {
                MAX_COMPRESSION_LEVEL
            },
    {
        FlacEncoder {
            sample_rate,
            compression_level: if compression_level <= MAX_COMPRESSION_LEVEL {
                compression_level
            } else {
                MAX_COMPRESSION_LEVEL
            },
        }
    }

    /// Encodes a frame. No samples give no bytes; any other frame gives
    /// what the codec makes of it at the encoder's rate.
    pub fn encode(&mut self, samples: &[SampleI16]) -> (r: Result<Vec<u8>, FlacError>)
        ensures
            final(self).rate() == old(self).rate(),
            final(self).level() == old(self).level(),
            samples@.len() == 0 ==> r is Ok && r->Ok_0@ == Seq::<u8>::empty(),
            samples@.len() > 0 ==> outcome_view(r) == flac_stream(samples@, old(self).rate()),
    {
        if samples.len() == 0 {
            return Ok(Vec::new());
        }
        flacenc_stream(samples, self.sample_rate)
    }

    /// Sets the level; a level above 8 counts as 8.
    pub fn set_compression_level(&mut self, level: u32)
        ensures
            final(self).rate() == old(self).rate(),
            final(self).level() == if level <= MAX_COMPRESSION_LEVEL {
                level
            } else {
                MAX_COMPRESSION_LEVEL
            },
    {
        self.compression_level = if level <= MAX_COMPRESSION_LEVEL {
            level
        } else {
            MAX_COMPRESSION_LEVEL
        };
    }

    pub fn compression_level(&self) -> (level: u32)
        ensures
            level == self.level(),
    {
        self.compression_level
    }

    pub fn sample_rate(&self) -> (rate: u32)
        ensures
            rate == self.rate(),
    {
        self.sample_rate
    }
}

} // verus!
