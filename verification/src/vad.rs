//! Voice-activity detection: a level threshold with a hangover.
//!
//! Levels are integers in thousandths of a decibel relative to full scale.
//! The detector decides on the level that the caller measured for a chunk,
//! and itself recognises digital silence, which has no logarithm.

use crate::config::VadConfig;
use crate::types::{duration_ms, duration_ms_spec, SampleI16, VadState};
use vstd::prelude::*;

verus! {

/// Level reported for a chunk of digital silence: -100 dB.
pub const SILENCE_FLOOR_MDB: i32 = -100_000;

/// Sum of the squares of the first `n` samples.
pub open spec fn energy_spec(samples: Seq<SampleI16>, n: nat) -> nat
    decreases n,
{
    if n == 0 || n > samples.len() {
        0
    } else {
        energy_spec(samples, (n - 1) as nat) + (samples[n - 1] as int * samples[n - 1] as int) as nat
    }
}

/// A chunk in which every sample is zero.
pub open spec fn is_digital_silence(samples: Seq<SampleI16>) -> bool {
    forall|i: int| 0 <= i < samples.len() ==> samples[i] == 0
}

/// The energy of a run of samples is zero exactly when all of them are.
pub proof fn lemma_energy_zero_iff_silent(samples: Seq<SampleI16>, n: nat)
    requires
        n <= samples.len(),
    ensures
        energy_spec(samples, n) == 0 <==> is_digital_silence(samples.subrange(0, n as int)),
    decreases n,
{
    if n > 0 {
        lemma_energy_zero_iff_silent(samples, (n - 1) as nat);
        let last = samples[n - 1] as int;
        assert(last * last >= 0 && (last * last == 0 <==> last == 0)) by (nonlinear_arith);
        let shorter = samples.subrange(0, n - 1);
        let whole = samples.subrange(0, n as int);
        if is_digital_silence(whole) {
            assert(whole[n - 1] == 0);
            assert forall|i: int| 0 <= i < shorter.len() implies shorter[i] == 0 by {
                assert(shorter[i] == whole[i]);
            }
        }
        if energy_spec(samples, n) == 0 {
            assert forall|i: int| 0 <= i < whole.len() implies whole[i] == 0 by {
                if i < n - 1 {
                    assert(whole[i] == shorter[i]);
                }
            }
        }
    }
}

/// The squares of the samples, added up. The RMS of the chunk, with
/// samples normalised to full scale, is the root of this sum over the
/// number of samples, divided by 32767.
pub fn sum_of_squares(samples: &[SampleI16]) -> (sum: u128)
    ensures
        sum == energy_spec(samples@, samples@.len()),
        sum == 0 <==> is_digital_silence(samples@),
{
    let mut sum: u128 = 0;
    let mut i: usize = 0;
    while i < samples.len()
        invariant
            i <= samples.len(),
            sum == energy_spec(samples@, i as nat),
            sum <= i * 0x4000_0000,
        decreases samples.len() - i,
    {
        let s: i32 = samples[i] as i32;
        assert(0 <= s * s <= 0x4000_0000) by (nonlinear_arith)
            requires
                -32768 <= s <= 32767,
        ;
        let square: i32 = s * s;
        sum = sum + square as u128;
        i = i + 1;
    }
    proof {
        lemma_energy_zero_iff_silent(samples@, samples@.len());
        assert(samples@.subrange(0, samples@.len() as int) == samples@);
    }
    sum
}

/// The level that counts for a chunk: the floor for digital silence, else
/// what was measured.
pub open spec fn chunk_level(samples: Seq<SampleI16>, measured_mdb: i32) -> i32 {
    if is_digital_silence(samples) {
        SILENCE_FLOOR_MDB
    } else {
        measured_mdb
    }
}

/// One step of the detector on a chunk that is `loud` or not and lasts
/// `chunk_ms`, with a full hangover of `hangover_ms`.
pub open spec fn vad_step(state: VadState, loud: bool, chunk_ms: u32, hangover_ms: u32) -> VadState {
    if loud {
        VadState::Voice { hangover_remaining_ms: hangover_ms }
    } else {
        match state {
            VadState::Silence => VadState::Silence,
            VadState::Voice { hangover_remaining_ms } => {
                if hangover_remaining_ms > chunk_ms {
                    VadState::Voice {
                        hangover_remaining_ms: (hangover_remaining_ms - chunk_ms) as u32,
                    }
                } else {
                    VadState::Silence
                }
            },
        }
    }
}

/// The state after a run of chunks below the threshold, of the given
/// lengths in milliseconds.
pub open spec fn after_quiet_chunks(state: VadState, chunk_ms: Seq<u32>, hangover_ms: u32) -> VadState
    decreases chunk_ms.len(),
{
    if chunk_ms.len() == 0 {
        state
    } else {
        vad_step(
            after_quiet_chunks(state, chunk_ms.drop_last(), hangover_ms),
            false,
            chunk_ms.last(),
            hangover_ms,
        )
    }
}

/// Total length of a run of chunks.
pub open spec fn total_ms(chunk_ms: Seq<u32>) -> nat
    decreases chunk_ms.len(),
{
    if chunk_ms.len() == 0 {
        0
    } else {
        total_ms(chunk_ms.drop_last()) + chunk_ms.last() as nat
    }
}

/// Hangover: after a loud chunk, the detector keeps reporting voice for as
/// long as the chunks below the threshold add up to less than the hangover,
/// with what is left of it, and reports silence from the chunk on with
/// which they reach it. (With no hangover at all the loud chunk itself still
/// reports voice, so the statement then starts at the first quiet chunk.)
pub proof fn lemma_hangover(before: VadState, chunk_ms: Seq<u32>, hangover_ms: u32)
    requires
        chunk_ms.len() > 0 || hangover_ms > 0,
    ensures
        after_quiet_chunks(vad_step(before, true, 0, hangover_ms), chunk_ms, hangover_ms) == (
        if total_ms(chunk_ms) < hangover_ms {
            VadState::Voice { hangover_remaining_ms: (hangover_ms - total_ms(chunk_ms)) as u32 }
        } else {
            VadState::Silence
        }),
    decreases chunk_ms.len(),
{
    let start = vad_step(before, true, 0, hangover_ms);
    if chunk_ms.len() > 0 {
        let earlier = chunk_ms.drop_last();
        if earlier.len() > 0 || hangover_ms > 0 {
            lemma_hangover(before, earlier, hangover_ms);
        } else {
            assert(after_quiet_chunks(start, earlier, hangover_ms) == start);
            assert(total_ms(earlier) == 0);
        }
        assert(after_quiet_chunks(start, chunk_ms, hangover_ms) == vad_step(
            after_quiet_chunks(start, earlier, hangover_ms),
            false,
            chunk_ms.last(),
            hangover_ms,
        ));
        assert(total_ms(chunk_ms) == total_ms(earlier) + chunk_ms.last());
    }
}

/// From silence, chunks below the threshold leave the detector in silence.
pub proof fn lemma_silence_stays(chunk_ms: Seq<u32>, hangover_ms: u32)
    ensures
        after_quiet_chunks(VadState::Silence, chunk_ms, hangover_ms) == VadState::Silence,
    decreases chunk_ms.len(),
{
    if chunk_ms.len() > 0 {
        lemma_silence_stays(chunk_ms.drop_last(), hangover_ms);
    }
}

/// Level detector with hangover.
pub struct VoiceActivityDetector {
    threshold_mdb: i32,
    hangover_duration_ms: u32,
    state: VadState,
    sample_rate: u32,
    last_volume_mdb: i32,
}

impl VoiceActivityDetector {
    /// Level above which a chunk is voice.
    pub closed spec fn threshold(&self) -> i32 {
        self.threshold_mdb
    }

    /// Hangover that a loud chunk grants.
    pub closed spec fn hangover(&self) -> u32 {
        self.hangover_duration_ms
    }

    /// Current state.
    pub closed spec fn state(&self) -> VadState {
        self.state
    }

    /// Rate by which chunk lengths become durations.
    pub closed spec fn rate(&self) -> u32 {
        self.sample_rate
    }

    /// Level of the last chunk that was not empty.
    pub closed spec fn last_volume(&self) -> i32 {
        self.last_volume_mdb
    }

    /// A detector in silence.
    pub fn new(config: &VadConfig, sample_rate: u32) -> (vad: Self)
        ensures
            vad.threshold() == config.threshold_mdb,
            vad.hangover() == config.hangover_duration_ms,
            vad.rate() == sample_rate,
            vad.state() == VadState::Silence,
            vad.last_volume() == SILENCE_FLOOR_MDB,
    {
        VoiceActivityDetector {
            threshold_mdb: config.threshold_mdb,
            hangover_duration_ms: config.hangover_duration_ms,
            state: VadState::Silence,
            sample_rate,
            last_volume_mdb: SILENCE_FLOOR_MDB,
        }
    }

    /// Takes in a chunk whose level the caller measured as `measured_mdb`
    /// (20·log10 of its RMS, in thousandths of a decibel), and says whether
    /// the detector is in voice afterwards. An empty chunk is silence and
    /// changes nothing. For digital silence the measured level is not used.
    pub fn process(&mut self, samples: &[SampleI16], measured_mdb: i32) -> (voice: bool)
        ensures
            final(self).threshold() == old(self).threshold(),
            final(self).hangover() == old(self).hangover(),
            final(self).rate() == old(self).rate(),
            samples@.len() == 0 ==> !voice && final(self).state() == old(self).state()
                && final(self).last_volume() == old(self).last_volume(),
            samples@.len() > 0 ==> {
                &&& final(self).last_volume() == chunk_level(samples@, measured_mdb)
                &&& final(self).state() == vad_step(
                    old(self).state(),
                    chunk_level(samples@, measured_mdb) > old(self).threshold(),
                    duration_ms_spec(samples@.len(), old(self).rate()),
                    old(self).hangover(),
                )
                &&& voice == (final(self).state() is Voice)
            },
    {
        if samples.len() == 0 {
            return false;
        }
        let level: i32 = if sum_of_squares(samples) == 0 {
            SILENCE_FLOOR_MDB
        } else {
            measured_mdb
        };
        let chunk_ms: u32 = duration_ms(samples.len(), self.sample_rate);
        let loud: bool = level > self.threshold_mdb;
        let next: VadState = if loud {
            VadState::Voice { hangover_remaining_ms: self.hangover_duration_ms }
        } else {
            match self.state {
                VadState::Silence => VadState::Silence,
                VadState::Voice { hangover_remaining_ms } => {
                    if hangover_remaining_ms > chunk_ms {
                        VadState::Voice { hangover_remaining_ms: hangover_remaining_ms - chunk_ms }
                    } else {
                        VadState::Silence
                    }
                },
            }
        };
        self.state = next;
        self.last_volume_mdb = level;
        match next {
            VadState::Silence => false,
            VadState::Voice { .. } => true,
        }
    }

    pub fn get_state(&self) -> (s: VadState)
        ensures
            s == self.state(),
    {
        self.state
    }

    pub fn is_voice(&self) -> (voice: bool)
        ensures
            voice == (self.state() is Voice),
    {
        match self.state {
            VadState::Silence => false,
            VadState::Voice { .. } => true,
        }
    }

    /// Level of the last chunk that was not empty, for display.
    pub fn get_last_volume_mdb(&self) -> (level: i32)
        ensures
            level == self.last_volume(),
    {
        self.last_volume_mdb
    }

    /// Level above which a chunk is voice.
    pub fn threshold_mdb(&self) -> (level: i32)
        ensures
            level == self.threshold(),
    {
        self.threshold_mdb
    }
}

} // verus!
