//! Demultiplexing of the capture device's interleaved frames.

use crate::types::{AudioChunk, AudioFormat, SampleI16};
use vstd::prelude::*;

verus! {

/// Samples per channel in an interleaved frame; none for no channels.
pub open spec fn frames_in(len: nat, channels: u16) -> nat {
    if channels == 0 {
        0
    } else {
        len / (channels as nat)
    }
}

/// Number of channels that get a chunk: those of the device for which
/// there is a queue.
pub open spec fn served_channels(channels: u16, queues: usize) -> nat {
    if channels as nat <= queues as nat {
        channels as nat
    } else {
        queues as nat
    }
}

/// The samples of one channel of an interleaved frame, in order.
pub open spec fn channel_samples(data: Seq<SampleI16>, channels: u16, channel: int) -> Seq<
    SampleI16,
> {
    Seq::new(frames_in(data.len(), channels), |f: int| data[f * channels + channel])
}

/// Splits one interleaved frame of the device into one mono chunk per
/// served channel, in channel order. Every chunk holds the same number of
/// samples, those of its channel in order, and carries the one timestamp
/// taken when the frame arrived. Samples behind the last whole frame are
/// left out.
pub fn demultiplex(
    data: &[SampleI16],
    num_channels: u16,
    queues: usize,
    sample_rate: u32,
    timestamp_ns: u128,
) -> (chunks: Vec<AudioChunk>)
    ensures
        chunks@.len() == served_channels(num_channels, queues),
        forall|c: int|
            0 <= c < chunks@.len() ==> {
                &&& (#[trigger] chunks@[c]).timestamp_ns == timestamp_ns
                &&& chunks@[c].format.sample_rate == sample_rate
                &&& chunks@[c].format.channels == 1
                &&& chunks@[c].samples@.len() == frames_in(data@.len(), num_channels)
                &&& chunks@[c].samples@ == channel_samples(data@, num_channels, c)
            },
{
    let mut chunks: Vec<AudioChunk> = Vec::new();
    if num_channels == 0 {
        return chunks;
    }
    let stride: usize = num_channels as usize;
    let per_channel: usize = data.len() / stride;
    let served: usize = if stride <= queues {
        stride
    } else {
        queues
    };
    let mut ch: usize = 0;
    while ch < served
        invariant
            stride == num_channels,
            stride > 0,
            per_channel == frames_in(data@.len(), num_channels),
            data@.len() <= usize::MAX,
            served == served_channels(num_channels, queues),
            ch <= served <= stride,
            chunks@.len() == ch,
            forall|c: int|
                0 <= c < ch ==> {
                    &&& (#[trigger] chunks@[c]).timestamp_ns == timestamp_ns
                    &&& chunks@[c].format.sample_rate == sample_rate
                    &&& chunks@[c].format.channels == 1
                    &&& chunks@[c].samples@ == channel_samples(data@, num_channels, c)
                },
        decreases served - ch,
    {
        let mut samples: Vec<SampleI16> = Vec::new();
        let mut frame: usize = 0;
        while frame < per_channel
            invariant
                stride == num_channels,
                stride > 0,
                ch < stride,
                per_channel == frames_in(data@.len(), num_channels),
                data@.len() <= usize::MAX,
                frame <= per_channel,
                samples@.len() == frame,
                forall|f: int| 0 <= f < frame ==> #[trigger] samples@[f] == data@[f * stride + ch],
            decreases per_channel - frame,
        {
            proof {
                lemma_interleaved_index(data@.len(), stride as nat, frame as nat, ch as nat);
                assert(0 <= frame * stride <= frame * stride + ch < data@.len());
            }
            samples.push(data[frame * stride + ch]);
            frame = frame + 1;
        }
        proof {
            assert(samples@ =~= channel_samples(data@, num_channels, ch as int));
        }
        chunks.push(
            AudioChunk {
                samples,
                format: AudioFormat { sample_rate, channels: 1 },
                timestamp_ns,
            },
        );
        ch = ch + 1;
    }
    chunks
}

/// The place of a sample of a whole frame lies within the data.
pub proof fn lemma_interleaved_index(len: nat, stride: nat, frame: nat, channel: nat)
    requires
        stride > 0,
        channel < stride,
        frame < len / stride,
    ensures
        0 <= frame * stride <= frame * stride + channel < len,
{
    vstd::arithmetic::div_mod::lemma_fundamental_div_mod(len as int, stride as int);
    vstd::arithmetic::div_mod::lemma_mod_pos_bound(len as int, stride as int);
    let whole = (len / stride) as int;
    assert((frame + 1) * stride <= whole * stride) by (nonlinear_arith)
        requires
            frame + 1 <= whole,
            stride > 0,
    ;
    assert((frame + 1) * stride == frame * stride + stride) by (nonlinear_arith);
    assert(stride * whole == whole * stride) by (nonlinear_arith);
    assert(frame * stride >= 0) by (nonlinear_arith)
        requires
            frame >= 0,
            stride > 0,
    ;
}

/// Names of input devices that are no capture interfaces: built-in
/// microphones, phones, webcams and the virtual devices of meeting tools.
pub open spec fn excluded_devices() -> Seq<char> {
    "MacBook (Air|Pro)|AirPods|iPhone|Webcam|Background|Microsoft Teams|ZoomAudioDevice"@
}

/// Whether regex-lite finds a match of a pattern anywhere in a text; none
/// where the pattern does not compile.
pub uninterp spec fn regex_lite_match(pattern: Seq<char>, text: Seq<char>) -> Option<bool>;

/// Calls regex-lite: `Regex::new` and `Regex::is_match`. The contract only
/// gives the outcome its name: the same pattern and text always yield the
/// same answer.
#[verifier::external_body]
fn regex_is_match(pattern: &str, text: &str) -> (found: Option<bool>)
    ensures
        found == regex_lite_match(pattern@, text@),
{
    match regex_lite::Regex::new(pattern) {
        Ok(re) => Some(re.is_match(text)),
        Err(_) => None,
    }
}

/// Whether an input device of this name is left out of the list of
/// capture devices: its name matches `excluded_devices`.
pub fn is_excluded_device(name: &str) -> (excluded: bool)
    ensures
        excluded == (regex_lite_match(excluded_devices(), name@) == Some(true)),
{
    let pattern =
        "MacBook (Air|Pro)|AirPods|iPhone|Webcam|Background|Microsoft Teams|ZoomAudioDevice";
    match regex_is_match(pattern, name) {
        Some(found) => found,
        None => false,
    }
}

/// How handing a chunk to a channel's queue went.
#[derive(Clone, Copy, Debug, PartialEq, Eq, Structural)]
pub enum Enqueued {
    Sent,
    /// The queue was full; the chunk is dropped.
    Full,
    /// The queue was closed; the chunk is dropped.
    Closed,
}

/// Chunks dropped at the hand-off, by cause. The counts stop at
/// `u64::MAX`.
#[derive(Clone, Copy, Debug, PartialEq, Eq, Structural)]
pub struct DropCounters {
    pub full: u64,
    pub closed: u64,
}

impl DropCounters {
    pub fn new() -> (c: Self)
        ensures
            c.full == 0,
            c.closed == 0,
    {
        DropCounters { full: 0, closed: 0 }
    }

    /// Counts the outcome of one hand-off.
    pub fn record(&mut self, outcome: Enqueued)
        ensures
            final(self).full == (if outcome == Enqueued::Full && old(self).full < u64::MAX {
                (old(self).full + 1) as u64
            } else {
                old(self).full
            }),
            final(self).closed == (if outcome == Enqueued::Closed && old(self).closed < u64::MAX {
                (old(self).closed + 1) as u64
            } else {
                old(self).closed
            }),
    {
        match outcome {
            Enqueued::Sent => {},
            Enqueued::Full => {
                self.full = self.full.saturating_add(1);
            },
            Enqueued::Closed => {
                self.closed = self.closed.saturating_add(1);
            },
        }
    }
}

} // verus!
