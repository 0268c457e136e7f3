//! Bookkeeping of a channel's recording: whether a file is open and how
//! many samples went into it. The file itself is written by the caller.

use crate::types::{duration_ms, duration_ms_spec};
use vstd::prelude::*;

verus! {

/// `a + b`, held at `usize::MAX`.
pub open spec fn capped_sum(a: usize, b: usize) -> usize {
    if a + b <= usize::MAX {
        (a + b) as usize
    } else {
        usize::MAX
    }
}

/// The count after chunks of the given lengths were written, one after
/// the other, starting from `written`.
pub open spec fn written_after(written: usize, lengths: Seq<usize>) -> usize
    decreases lengths.len(),
{
    if lengths.len() == 0 {
        written
    } else {
        capped_sum(written_after(written, lengths.drop_last()), lengths.last())
    }
}

/// The lengths added up.
pub open spec fn total_length(lengths: Seq<usize>) -> nat
    decreases lengths.len(),
{
    if lengths.len() == 0 {
        0
    } else {
        total_length(lengths.drop_last()) + lengths.last() as nat
    }
}

/// Recording completeness: over a run of chunks the count grows by the sum
/// of their lengths, as long as that sum can be counted.
pub proof fn lemma_recording_counts_every_sample(written: usize, lengths: Seq<usize>)
    requires
        written + total_length(lengths) <= usize::MAX,
    ensures
        written_after(written, lengths) == written + total_length(lengths),
    decreases lengths.len(),
{
    if lengths.len() > 0 {
        lemma_recording_counts_every_sample(written, lengths.drop_last());
    }
}

/// State of the recording of one channel.
pub struct WavWriter {
    channel_id: usize,
    sample_rate: u32,
    recording: bool,
    samples_written: usize,
}

impl WavWriter {
    /// Channel recorded.
    pub closed spec fn channel(&self) -> usize {
        self.channel_id
    }

    /// Rate of the recording.
    pub closed spec fn rate(&self) -> u32 {
        self.sample_rate
    }

    /// Whether a file is open.
    pub closed spec fn is_recording(&self) -> bool {
        self.recording
    }

    /// Samples that went into the open file.
    pub closed spec fn written(&self) -> usize {
        self.samples_written
    }

    /// A recording that has not started.
    pub fn new(channel_id: usize, sample_rate: u32) -> (w: Self)
        ensures
            w.channel() == channel_id,
            w.rate() == sample_rate,
            !w.is_recording(),
            w.written() == 0,
    {
        WavWriter { channel_id, sample_rate, recording: false, samples_written: 0 }
    }

    /// A new file is opened: counting starts over.
    pub fn start(&mut self)
        ensures
            final(self).channel() == old(self).channel(),
            final(self).rate() == old(self).rate(),
            final(self).is_recording(),
            final(self).written() == 0,
    {
        self.recording = true;
        self.samples_written = 0;
    }

    /// `count` samples are appended. Says whether a file has to be opened
    /// first, which is the case when none is open.
    pub fn write_samples(&mut self, count: usize) -> (open_first: bool)
        ensures
            open_first == !old(self).is_recording(),
            final(self).channel() == old(self).channel(),
            final(self).rate() == old(self).rate(),
            final(self).is_recording(),
            final(self).written() == capped_sum(
                if old(self).is_recording() {
                    old(self).written()
                } else {
                    0
                },
                count,
            ),
    {
        let open_first: bool = !self.recording;
        if open_first {
            self.start();
        }
        self.samples_written = self.samples_written.saturating_add(count);
        open_first
    }

    /// Writing `count` samples failed: they are taken off the count again.
    pub fn write_failed(&mut self, count: usize)
        ensures
            final(self).channel() == old(self).channel(),
            final(self).rate() == old(self).rate(),
            final(self).is_recording() == old(self).is_recording(),
            final(self).written() == (if old(self).written() >= count {
                (old(self).written() - count) as usize
            } else {
                0
            }),
    {
        self.samples_written = self.samples_written.saturating_sub(count);
    }

    /// The file is closed. Hands back the number of samples it holds, if
    /// one was open, and counting starts over.
    pub fn finalize(&mut self) -> (closed: Option<usize>)
        ensures
            final(self).channel() == old(self).channel(),
            final(self).rate() == old(self).rate(),
            !final(self).is_recording(),
            closed == if old(self).is_recording() {
                Some(old(self).written())
            } else {
                None::<usize>
            },
            final(self).written() == if old(self).is_recording() {
                0
            } else {
                old(self).written()
            },
    {
        if self.recording {
            let count: usize = self.samples_written;
            self.recording = false;
            self.samples_written = 0;
            Some(count)
        } else {
            None
        }
    }

    pub fn samples_written(&self) -> (n: usize)
        ensures
            n == self.written(),
    {
        self.samples_written
    }

    /// Length of the recording, in whole milliseconds.
    pub fn duration_ms(&self) -> (ms: u32)
        ensures
            ms == duration_ms_spec(self.written() as nat, self.rate()),
    {
        duration_ms(self.samples_written, self.sample_rate)
    }
}

} // verus!
