//! The retry buffer: a bounded, time-addressable store of recent audio.

use crate::config::BufferConfig;
use crate::types::{duration_ms, duration_ms_spec, BufferedChunk, DropPolicy, SampleI16};
use std::collections::VecDeque;
use vstd::prelude::*;

verus! {

/// All samples of a run of chunks, in order.
pub open spec fn buffered_samples(chunks: Seq<BufferedChunk>) -> Seq<SampleI16>
    decreases chunks.len(),
{
    if chunks.len() == 0 {
        Seq::empty()
    } else {
        buffered_samples(chunks.drop_last()) + chunks.last().samples@
    }
}

/// Chunk timestamps never go back.
pub open spec fn timestamps_ordered(chunks: Seq<BufferedChunk>) -> bool {
    forall|i: int, j: int|
        0 <= i <= j < chunks.len() ==> chunks[i].timestamp_ns <= chunks[j].timestamp_ns
}

/// What is left of `chunks` once chunks have left at the front until the
/// rest holds at most `capacity` samples.
pub open spec fn drop_oldest(chunks: Seq<BufferedChunk>, capacity: nat) -> Seq<BufferedChunk>
    decreases chunks.len(),
{
    if chunks.len() == 0 || buffered_samples(chunks).len() <= capacity {
        chunks
    } else {
        drop_oldest(chunks.drop_first(), capacity)
    }
}

/// What is left of `chunks` once chunks have left at the back until the
/// rest holds at most `capacity` samples.
pub open spec fn drop_newest(chunks: Seq<BufferedChunk>, capacity: nat) -> Seq<BufferedChunk>
    decreases chunks.len(),
{
    if chunks.len() == 0 || buffered_samples(chunks).len() <= capacity {
        chunks
    } else {
        drop_newest(chunks.drop_last(), capacity)
    }
}

/// The chunks kept under a policy. `Block` evicts as `DropOldest` does.
pub open spec fn evicted(chunks: Seq<BufferedChunk>, capacity: nat, policy: DropPolicy) -> Seq<
    BufferedChunk,
> {
    match policy {
        DropPolicy::DropNewest => drop_newest(chunks, capacity),
        _ => drop_oldest(chunks, capacity),
    }
}

/// Time that `len` samples take at `rate` Hz, in whole nanoseconds.
pub open spec fn chunk_duration_ns(len: nat, rate: u32) -> nat {
    if rate == 0 {
        0
    } else {
        len * 1_000_000_000 / (rate as nat)
    }
}

/// Index of the sample that lies `offset_ns` after the start of a chunk.
pub open spec fn sample_index_at(offset_ns: nat, rate: u32) -> nat {
    offset_ns * (rate as nat) / 1_000_000_000
}

/// Time at which a chunk ends.
pub open spec fn chunk_end_ns(chunk: BufferedChunk, rate: u32) -> nat {
    chunk.timestamp_ns as nat + chunk_duration_ns(chunk.samples@.len(), rate)
}

/// First sample of a chunk that a window starting at `from_ns` takes.
pub open spec fn clip_start(chunk: BufferedChunk, rate: u32, from_ns: u128) -> nat {
    if chunk.timestamp_ns < from_ns {
        sample_index_at((from_ns - chunk.timestamp_ns) as nat, rate)
    } else {
        0
    }
}

/// End of the samples of a chunk that a window ending at `to_ns` takes,
/// for a chunk that does not start after `to_ns`.
pub open spec fn clip_stop(chunk: BufferedChunk, rate: u32, to_ns: u128) -> nat {
    let len = chunk.samples@.len();
    if chunk_end_ns(chunk, rate) > to_ns {
        let at = sample_index_at((to_ns - chunk.timestamp_ns) as nat, rate);
        if at < len {
            at
        } else {
            len
        }
    } else {
        len
    }
}

/// The samples of one chunk that fall into the window `[from_ns, to_ns]`:
/// none unless the chunk overlaps the window, else the chunk clipped at the
/// window's ends.
pub open spec fn chunk_slice(chunk: BufferedChunk, rate: u32, from_ns: u128, to_ns: u128) -> Seq<
    SampleI16,
> {
    if chunk_end_ns(chunk, rate) >= from_ns && chunk.timestamp_ns <= to_ns && clip_start(
        chunk,
        rate,
        from_ns,
    ) < clip_stop(chunk, rate, to_ns) {
        chunk.samples@.subrange(
            clip_start(chunk, rate, from_ns) as int,
            clip_stop(chunk, rate, to_ns) as int,
        )
    } else {
        Seq::empty()
    }
}

/// The samples of a run of chunks that fall into a window, chunk after
/// chunk.
pub open spec fn range_samples(
    chunks: Seq<BufferedChunk>,
    rate: u32,
    from_ns: u128,
    to_ns: u128,
) -> Seq<SampleI16>
    decreases chunks.len(),
{
    if chunks.len() == 0 {
        Seq::empty()
    } else {
        range_samples(chunks.drop_last(), rate, from_ns, to_ns) + chunk_slice(
            chunks.last(),
            rate,
            from_ns,
            to_ns,
        )
    }
}

/// What is left of `chunks` once every leading chunk that ended strictly
/// before `timestamp_ns` has gone.
pub open spec fn without_ended_before(
    chunks: Seq<BufferedChunk>,
    rate: u32,
    timestamp_ns: u128,
) -> Seq<BufferedChunk>
    decreases chunks.len(),
{
    if chunks.len() > 0 && chunk_end_ns(chunks[0], rate) < timestamp_ns {
        without_ended_before(chunks.drop_first(), rate, timestamp_ns)
    } else {
        chunks
    }
}

/// Number of samples that make up `duration_ms` milliseconds at `rate` Hz.
pub open spec fn samples_in_ms(duration_ms: u64, rate: u32) -> nat {
    duration_ms as nat * rate as nat / 1000
}

/// The newest samples of a run of chunks: the last `wanted` of them, or
/// all where there are fewer.
pub open spec fn latest_samples(chunks: Seq<BufferedChunk>, wanted: nat) -> Seq<SampleI16> {
    let all = buffered_samples(chunks);
    if wanted >= all.len() {
        all
    } else {
        all.subrange(all.len() - wanted, all.len() as int)
    }
}

/// The samples of a run of chunks are those of its first chunk followed by
/// those of the rest.
pub proof fn lemma_samples_split_first(chunks: Seq<BufferedChunk>)
    requires
        chunks.len() > 0,
    ensures
        buffered_samples(chunks) == chunks[0].samples@ + buffered_samples(chunks.drop_first()),
    decreases chunks.len(),
{
    if chunks.len() == 1 {
        assert(chunks.drop_last().len() == 0);
        assert(chunks.drop_first().len() == 0);
        assert(buffered_samples(chunks.drop_last()) == Seq::<SampleI16>::empty());
        assert(buffered_samples(chunks.drop_first()) == Seq::<SampleI16>::empty());
        assert(buffered_samples(chunks) == chunks[0].samples@);
    } else {
        lemma_samples_split_first(chunks.drop_last());
        assert(chunks.drop_last().drop_first() == chunks.drop_first().drop_last());
        assert(chunks.drop_first().last() == chunks.last());
        assert(chunks.drop_last()[0] == chunks[0]);
    }
}

/// `drop_oldest` keeps a tail of the chunks that fits the capacity, and
/// the longest such tail: one chunk more would not fit.
pub proof fn lemma_drop_oldest_keeps_longest_tail(chunks: Seq<BufferedChunk>, capacity: nat)
    ensures
        ({
            let kept = drop_oldest(chunks, capacity);
            let gone = chunks.len() - kept.len();
            &&& kept.len() <= chunks.len()
            &&& kept == chunks.subrange(gone, chunks.len() as int)
            &&& buffered_samples(kept).len() <= capacity
            &&& gone > 0 ==> buffered_samples(chunks.subrange(gone - 1, chunks.len() as int)).len()
                > capacity
        }),
    decreases chunks.len(),
{
    if chunks.len() == 0 || buffered_samples(chunks).len() <= capacity {
        assert(chunks.subrange(0, chunks.len() as int) == chunks);
    } else {
        let rest = chunks.drop_first();
        lemma_drop_oldest_keeps_longest_tail(rest, capacity);
        let kept = drop_oldest(rest, capacity);
        let gone = rest.len() - kept.len();
        assert(rest.subrange(gone, rest.len() as int) == chunks.subrange(
            gone + 1,
            chunks.len() as int,
        ));
        if gone > 0 {
            assert(rest.subrange(gone - 1, rest.len() as int) == chunks.subrange(
                gone,
                chunks.len() as int,
            ));
        } else {
            assert(chunks.subrange(0, chunks.len() as int) == chunks);
        }
    }
}

/// `drop_newest` keeps a head of the chunks that fits the capacity, and
/// the longest such head.
pub proof fn lemma_drop_newest_keeps_longest_head(chunks: Seq<BufferedChunk>, capacity: nat)
    ensures
        ({
            let kept = drop_newest(chunks, capacity);
            &&& kept.len() <= chunks.len()
            &&& kept == chunks.subrange(0, kept.len() as int)
            &&& buffered_samples(kept).len() <= capacity
            &&& kept.len() < chunks.len() ==> buffered_samples(
                chunks.subrange(0, kept.len() as int + 1),
            ).len() > capacity
        }),
    decreases chunks.len(),
{
    if chunks.len() == 0 || buffered_samples(chunks).len() <= capacity {
        assert(chunks.subrange(0, chunks.len() as int) == chunks);
    } else {
        let rest = chunks.drop_last();
        lemma_drop_newest_keeps_longest_head(rest, capacity);
        let kept = drop_newest(rest, capacity);
        assert(rest.subrange(0, kept.len() as int) == chunks.subrange(0, kept.len() as int));
        if kept.len() < rest.len() {
            assert(rest.subrange(0, kept.len() as int + 1) == chunks.subrange(0, kept.len() as int + 1));
        } else {
            assert(chunks.subrange(0, kept.len() as int + 1) == chunks);
        }
    }
}

/// `without_ended_before` keeps the chunks from the first one on that has
/// not ended before the given time.
pub proof fn lemma_without_ended_before_is_tail(
    chunks: Seq<BufferedChunk>,
    rate: u32,
    timestamp_ns: u128,
)
    ensures
        ({
            let kept = without_ended_before(chunks, rate, timestamp_ns);
            let gone = chunks.len() - kept.len();
            &&& kept.len() <= chunks.len()
            &&& kept == chunks.subrange(gone, chunks.len() as int)
            &&& forall|i: int| 0 <= i < gone ==> chunk_end_ns(#[trigger] chunks[i], rate) < timestamp_ns
            &&& kept.len() > 0 ==> chunk_end_ns(kept[0], rate) >= timestamp_ns
        }),
    decreases chunks.len(),
{
    if chunks.len() > 0 && chunk_end_ns(chunks[0], rate) < timestamp_ns {
        let rest = chunks.drop_first();
        lemma_without_ended_before_is_tail(rest, rate, timestamp_ns);
        let kept = without_ended_before(rest, rate, timestamp_ns);
        let gone = rest.len() - kept.len();
        assert(rest.subrange(gone, rest.len() as int) == chunks.subrange(
            gone + 1,
            chunks.len() as int,
        ));
        assert forall|i: int| 0 <= i < gone + 1 implies chunk_end_ns(#[trigger] chunks[i], rate)
            < timestamp_ns by {
            if i > 0 {
                assert(chunks[i] == rest[i - 1]);
            }
        }
    } else {
        assert(chunks.subrange(0, chunks.len() as int) == chunks);
    }
}

/// A window over a buffer that holds one chunk yields a contiguous run of
/// that chunk's samples: the chunk clipped at the window's ends. A window
/// that covers the chunk yields all of it; one that ends before the chunk
/// starts, or starts after it ends, yields nothing.
pub proof fn lemma_range_of_single_chunk(chunk: BufferedChunk, rate: u32, from_ns: u128, to_ns: u128)
    ensures
        range_samples(seq![chunk], rate, from_ns, to_ns) == chunk_slice(chunk, rate, from_ns, to_ns),
        from_ns <= chunk.timestamp_ns && chunk_end_ns(chunk, rate) <= to_ns ==> range_samples(
            seq![chunk],
            rate,
            from_ns,
            to_ns,
        ) == chunk.samples@,
        to_ns < chunk.timestamp_ns || chunk_end_ns(chunk, rate) < from_ns ==> range_samples(
            seq![chunk],
            rate,
            from_ns,
            to_ns,
        ).len() == 0,
        exists|lo: int, hi: int|
            0 <= lo <= hi <= chunk.samples@.len() && range_samples(
                seq![chunk],
                rate,
                from_ns,
                to_ns,
            ) == #[trigger] chunk.samples@.subrange(lo, hi),
{
    let one = seq![chunk];
    assert(one.drop_last().len() == 0);
    assert(one.last() == chunk);
    assert(range_samples(one.drop_last(), rate, from_ns, to_ns) == Seq::<SampleI16>::empty());
    assert(range_samples(one, rate, from_ns, to_ns) == chunk_slice(chunk, rate, from_ns, to_ns));
    let samples = chunk.samples@;
    if from_ns <= chunk.timestamp_ns && chunk_end_ns(chunk, rate) <= to_ns {
        if samples.len() > 0 {
            assert(samples.subrange(0, samples.len() as int) == samples);
        } else {
            assert(samples == Seq::<SampleI16>::empty());
        }
    }
    let lo = clip_start(chunk, rate, from_ns) as int;
    let hi = clip_stop(chunk, rate, to_ns) as int;
    if chunk_end_ns(chunk, rate) >= from_ns && chunk.timestamp_ns <= to_ns && lo < hi {
        assert(chunk_slice(chunk, rate, from_ns, to_ns) == samples.subrange(lo, hi));
    } else {
        assert(chunk_slice(chunk, rate, from_ns, to_ns) == samples.subrange(0, 0));
    }
}

/// Bounded store of recent chunks, oldest first.
pub struct AudioBuffer {
    capacity_samples: usize,
    drop_policy: DropPolicy,
    chunks: VecDeque<BufferedChunk>,
    total_samples: usize,
    sample_rate: u32,
}

impl AudioBuffer {
    /// The chunks held, oldest first.
    pub closed spec fn chunks(&self) -> Seq<BufferedChunk> {
        self.chunks@
    }

    /// Budget in samples.
    pub closed spec fn capacity(&self) -> nat {
        self.capacity_samples as nat
    }

    /// Eviction policy.
    pub closed spec fn policy(&self) -> DropPolicy {
        self.drop_policy
    }

    /// Rate by which times become sample offsets.
    pub closed spec fn rate(&self) -> u32 {
        self.sample_rate
    }

    /// The buffer's invariant: the running total is the number of samples
    /// held, and it is within the budget.
    pub closed spec fn wf(&self) -> bool {
        &&& self.total_samples == buffered_samples(self.chunks@).len()
        &&& self.total_samples <= self.capacity_samples
    }

    /// The invariant in terms of what the buffer holds.
    pub proof fn lemma_wf_bounds(&self)
        requires
            self.wf(),
        ensures
            buffered_samples(self.chunks()).len() <= self.capacity(),
            self.capacity() <= usize::MAX,
    {
    }

    /// An empty buffer for `capacity_seconds` of audio at `sample_rate`.
    /// A budget beyond what `usize` can count is held at `usize::MAX`.
    pub fn new(config: &BufferConfig, sample_rate: u32) -> (buffer: Self)
        ensures
            buffer.wf(),
            buffer.chunks() == Seq::<BufferedChunk>::empty(),
            buffer.policy() == config.drop_policy,
            buffer.rate() == sample_rate,
            buffer.capacity() == if config.capacity_seconds * sample_rate <= usize::MAX {
                (config.capacity_seconds * sample_rate) as nat
            } else {
                usize::MAX as nat
            },
    {
        assert(config.capacity_seconds * sample_rate <= 0xffff_ffff * 0xffff_ffff)
            by (nonlinear_arith)
            requires
                config.capacity_seconds <= 0xffff_ffff,
                sample_rate <= 0xffff_ffff,
        ;
        let budget: u64 = (config.capacity_seconds as u64) * (sample_rate as u64);
        let capacity_samples: usize = if budget <= usize::MAX as u64 {
            budget as usize
        } else {
            usize::MAX
        };
        AudioBuffer {
            capacity_samples,
            drop_policy: config.drop_policy,
            chunks: VecDeque::new(),
            total_samples: 0,
            sample_rate,
        }
    }

    /// Appends a chunk, then evicts under the policy until the budget
    /// holds. Timestamps stay ordered where the chunk is not older than the
    /// newest one held.
    pub fn push(&mut self, chunk: BufferedChunk)
        requires
            old(self).wf(),
        ensures
            final(self).wf(),
            final(self).capacity() == old(self).capacity(),
            final(self).policy() == old(self).policy(),
            final(self).rate() == old(self).rate(),
            final(self).chunks() == evicted(
                old(self).chunks().push(chunk),
                old(self).capacity(),
                old(self).policy(),
            ),
            buffered_samples(final(self).chunks()).len() <= final(self).capacity(),
            timestamps_ordered(old(self).chunks().push(chunk)) ==> timestamps_ordered(
                final(self).chunks(),
            ),
    {
        let ghost appended = self.chunks@.push(chunk);
        let mut total: u128 = self.total_samples as u128 + chunk.samples.len() as u128;
        self.chunks.push_back(chunk);
        proof {
            assert(appended.drop_last() == old(self).chunks@);
        }
        let oldest_first: bool = match self.drop_policy {
            DropPolicy::DropNewest => false,
            _ => true,
        };
        while total > self.capacity_samples as u128
            invariant
                self.capacity_samples == old(self).capacity_samples,
                self.drop_policy == old(self).drop_policy,
                self.sample_rate == old(self).sample_rate,
                oldest_first == !(self.drop_policy == DropPolicy::DropNewest),
                total == buffered_samples(self.chunks@).len(),
                evicted(self.chunks@, self.capacity_samples as nat, self.drop_policy) == evicted(
                    appended,
                    self.capacity_samples as nat,
                    self.drop_policy,
                ),
                timestamps_ordered(appended) ==> timestamps_ordered(self.chunks@),
            decreases self.chunks@.len(),
        {
            let ghost before = self.chunks@;
            assert(before.len() > 0);
            if oldest_first {
                proof {
                    lemma_samples_split_first(before);
                }
                match self.chunks.pop_front() {
                    Some(dropped) => {
                        total = total - dropped.samples.len() as u128;
                    },
                    None => {},
                }
                assert(self.chunks@ == before.drop_first());
            } else {
                match self.chunks.pop_back() {
                    Some(dropped) => {
                        total = total - dropped.samples.len() as u128;
                    },
                    None => {},
                }
                assert(self.chunks@ == before.drop_last());
            }
        }
        self.total_samples = total as usize;
    }

    /// The samples that fall into the window `[from_ns, to_ns]`, oldest
    /// first: of each overlapping chunk the part inside the window, with
    /// times turned into sample offsets by the buffer's rate.
    pub fn get_range(&self, from_ns: u128, to_ns: u128) -> (out: Vec<SampleI16>)
        requires
            self.wf(),
        ensures
            out@ == range_samples(self.chunks(), self.rate(), from_ns, to_ns),
    {
        let mut out: Vec<SampleI16> = Vec::new();
        let mut i: usize = 0;
        while i < self.chunks.len()
            invariant
                i <= self.chunks@.len(),
                out@ == range_samples(self.chunks@.take(i as int), self.sample_rate, from_ns, to_ns),
            decreases self.chunks@.len() - i,
        {
            let chunk = &self.chunks[i];
            proof {
                assert(self.chunks@.take(i + 1).drop_last() == self.chunks@.take(i as int));
                assert(self.chunks@.take(i + 1).last() == *chunk);
            }
            let (start, stop) = clip_chunk(chunk, self.sample_rate, from_ns, to_ns);
            if start < stop {
                out.extend_from_slice(&chunk.samples[start..stop]);
            }
            i = i + 1;
        }
        proof {
            assert(self.chunks@.take(self.chunks@.len() as int) == self.chunks@);
        }
        out
    }

    /// Drops every leading chunk that ended strictly before `timestamp_ns`.
    pub fn clear_before(&mut self, timestamp_ns: u128)
        requires
            old(self).wf(),
        ensures
            final(self).wf(),
            final(self).capacity() == old(self).capacity(),
            final(self).policy() == old(self).policy(),
            final(self).rate() == old(self).rate(),
            final(self).chunks() == without_ended_before(
                old(self).chunks(),
                old(self).rate(),
                timestamp_ns,
            ),
            timestamps_ordered(old(self).chunks()) ==> timestamps_ordered(final(self).chunks()),
    {
        let mut total: usize = self.total_samples;
        loop
            invariant
                self.capacity_samples == old(self).capacity_samples,
                self.drop_policy == old(self).drop_policy,
                self.sample_rate == old(self).sample_rate,
                total == buffered_samples(self.chunks@).len(),
                total <= self.capacity_samples,
                without_ended_before(self.chunks@, self.sample_rate, timestamp_ns)
                    == without_ended_before(old(self).chunks@, self.sample_rate, timestamp_ns),
                timestamps_ordered(old(self).chunks@) ==> timestamps_ordered(self.chunks@),
            ensures
                self.capacity_samples == old(self).capacity_samples,
                self.drop_policy == old(self).drop_policy,
                self.sample_rate == old(self).sample_rate,
                total == buffered_samples(self.chunks@).len(),
                total <= self.capacity_samples,
                self.chunks@ == without_ended_before(
                    old(self).chunks@,
                    self.sample_rate,
                    timestamp_ns,
                ),
                timestamps_ordered(old(self).chunks@) ==> timestamps_ordered(self.chunks@),
            decreases self.chunks@.len(),
        {
            if self.chunks.len() == 0 {
                break ;
            }
            let ended: bool = ends_before(&self.chunks[0], self.sample_rate, timestamp_ns);
            if !ended {
                break ;
            }
            let ghost before = self.chunks@;
            proof {
                lemma_samples_split_first(before);
            }
            match self.chunks.pop_front() {
                Some(removed) => {
                    total = total - removed.samples.len();
                },
                None => {},
            }
            assert(self.chunks@ == before.drop_first());
        }
        self.total_samples = total;
    }

    /// The newest `duration_ms` milliseconds of audio held, oldest sample
    /// first; all of it where less is held.
    pub fn get_latest(&self, duration_ms: u64) -> (out: Vec<SampleI16>)
        requires
            self.wf(),
        ensures
            out@ == latest_samples(self.chunks(), samples_in_ms(duration_ms, self.rate())),
            out@.len() <= samples_in_ms(duration_ms, self.rate()),
    {
        assert(duration_ms * self.sample_rate <= 0xffff_ffff_ffff_ffff * 0xffff_ffff)
            by (nonlinear_arith)
            requires
                duration_ms <= 0xffff_ffff_ffff_ffff,
                self.sample_rate <= 0xffff_ffff,
        ;
        let wanted: u128 = (duration_ms as u128) * (self.sample_rate as u128) / 1000;
        let total: usize = self.total_samples;
        let mut skip: usize = if wanted >= total as u128 {
            0
        } else {
            total - (wanted as usize)
        };
        let ghost first = skip as int;
        let ghost all = buffered_samples(self.chunks@);
        let mut out: Vec<SampleI16> = Vec::new();
        let mut i: usize = 0;
        while i < self.chunks.len()
            invariant
                i <= self.chunks@.len(),
                all == buffered_samples(self.chunks@),
                0 <= first <= all.len(),
                ({
                    let seen = buffered_samples(self.chunks@.take(i as int));
                    &&& seen.len() <= all.len()
                    &&& seen == all.subrange(0, seen.len() as int)
                    &&& if seen.len() <= first {
                        out@.len() == 0 && skip == first - seen.len()
                    } else {
                        out@ == seen.subrange(first, seen.len() as int) && skip == 0
                    }
                }),
            decreases self.chunks@.len() - i,
        {
            let chunk = &self.chunks[i];
            let ghost seen = buffered_samples(self.chunks@.take(i as int));
            proof {
                assert(self.chunks@.take(i + 1).drop_last() == self.chunks@.take(i as int));
                assert(self.chunks@.take(i + 1).last() == *chunk);
                lemma_samples_of_prefix(self.chunks@, i + 1);
            }
            let len: usize = chunk.samples.len();
            if len <= skip {
                skip = skip - len;
            } else {
                out.extend_from_slice(&chunk.samples[skip..len]);
                skip = 0;
            }
            i = i + 1;
        }
        proof {
            assert(self.chunks@.take(self.chunks@.len() as int) == self.chunks@);
        }
        out
    }

    /// Number of samples held.
    pub fn len(&self) -> (n: usize)
        requires
            self.wf(),
        ensures
            n == buffered_samples(self.chunks()).len(),
    {
        self.total_samples
    }

    /// Whether no sample is held.
    pub fn is_empty(&self) -> (empty: bool)
        requires
            self.wf(),
        ensures
            empty == (buffered_samples(self.chunks()).len() == 0),
    {
        self.total_samples == 0
    }

    /// Length of the audio held, in whole milliseconds.
    pub fn duration_ms(&self) -> (ms: u32)
        requires
            self.wf(),
        ensures
            ms == duration_ms_spec(buffered_samples(self.chunks()).len(), self.rate()),
    {
        duration_ms(self.total_samples, self.sample_rate)
    }

    /// Drops everything.
    pub fn clear(&mut self)
        ensures
            final(self).wf(),
            final(self).chunks() == Seq::<BufferedChunk>::empty(),
            final(self).capacity() == old(self).capacity(),
            final(self).policy() == old(self).policy(),
            final(self).rate() == old(self).rate(),
    {
        self.chunks.clear();
        self.total_samples = 0;
    }
}

/// The samples of the first `n` chunks are a prefix of the samples of all.
pub proof fn lemma_samples_of_prefix(chunks: Seq<BufferedChunk>, n: int)
    requires
        0 <= n <= chunks.len(),
    ensures
        buffered_samples(chunks.take(n)).len() <= buffered_samples(chunks).len(),
        buffered_samples(chunks.take(n)) == buffered_samples(chunks).subrange(
            0,
            buffered_samples(chunks.take(n)).len() as int,
        ),
    decreases chunks.len(),
{
    if n == chunks.len() {
        assert(chunks.take(n) == chunks);
        assert(buffered_samples(chunks).subrange(0, buffered_samples(chunks).len() as int)
            == buffered_samples(chunks));
    } else {
        lemma_samples_of_prefix(chunks.drop_last(), n);
        assert(chunks.drop_last().take(n) == chunks.take(n));
        let shorter = buffered_samples(chunks.drop_last());
        let part = buffered_samples(chunks.take(n));
        assert(part == shorter.subrange(0, part.len() as int));
        assert(shorter.subrange(0, part.len() as int) == (shorter + chunks.last().samples@).subrange(
            0,
            part.len() as int,
        ));
    }
}

/// Whether a chunk ended strictly before `timestamp_ns`.
fn ends_before(chunk: &BufferedChunk, rate: u32, timestamp_ns: u128) -> (ended: bool)
    ensures
        ended == (chunk_end_ns(*chunk, rate) < timestamp_ns),
{
    let duration: u128 = duration_ns(chunk.samples.len(), rate);
    match chunk.timestamp_ns.checked_add(duration) {
        Some(end) => end < timestamp_ns,
        None => false,
    }
}

/// Computes `chunk_duration_ns`.
fn duration_ns(len: usize, rate: u32) -> (ns: u128)
    ensures
        ns == chunk_duration_ns(len as nat, rate),
        rate > 0 ==> ns * rate <= len * 1_000_000_000,
{
    if rate == 0 {
        0
    } else {
        let scaled: u128 = (len as u128) * 1_000_000_000;
        let ns: u128 = scaled / (rate as u128);
        proof {
            vstd::arithmetic::div_mod::lemma_fundamental_div_mod(scaled as int, rate as int);
            vstd::arithmetic::div_mod::lemma_mod_pos_bound(scaled as int, rate as int);
            vstd::arithmetic::mul::lemma_mul_is_commutative(ns as int, rate as int);
        }
        ns
    }
}

/// Computes `sample_index_at` for an offset within a chunk of `len`
/// samples.
fn index_at(offset_ns: u128, rate: u32, len: usize) -> (at: u128)
    requires
        offset_ns <= chunk_duration_ns(len as nat, rate),
    ensures
        at == sample_index_at(offset_ns as nat, rate),
        at <= len,
{
    if rate == 0 {
        0
    } else {
        proof {
            let d = chunk_duration_ns(len as nat, rate) as int;
            let scaled = len as int * 1_000_000_000;
            vstd::arithmetic::div_mod::lemma_fundamental_div_mod(scaled, rate as int);
            vstd::arithmetic::div_mod::lemma_mod_pos_bound(scaled, rate as int);
            vstd::arithmetic::mul::lemma_mul_is_commutative(d, rate as int);
            assert(d * rate <= scaled);
            vstd::arithmetic::mul::lemma_mul_inequality(offset_ns as int, d, rate as int);
            assert(offset_ns * rate <= scaled);
            vstd::arithmetic::div_mod::lemma_div_is_ordered(
                offset_ns as int * rate as int,
                scaled,
                1_000_000_000,
            );
            vstd::arithmetic::div_mod::lemma_div_multiples_vanish(len as int, 1_000_000_000);
        }
        offset_ns * (rate as u128) / 1_000_000_000
    }
}

/// Computes the bounds of `chunk_slice`: the run `start..stop` of the
/// chunk's samples that the window takes, with `start >= stop` where it
/// takes none.
fn clip_chunk(chunk: &BufferedChunk, rate: u32, from_ns: u128, to_ns: u128) -> (bounds: (
    usize,
    usize,
))
    ensures
        bounds.1 <= chunk.samples@.len(),
        bounds.0 < bounds.1 ==> chunk_slice(*chunk, rate, from_ns, to_ns) == chunk.samples@.subrange(
            bounds.0 as int,
            bounds.1 as int,
        ),
        bounds.0 >= bounds.1 ==> chunk_slice(*chunk, rate, from_ns, to_ns) == Seq::<
            SampleI16,
        >::empty(),
{
    let len: usize = chunk.samples.len();
    let duration: u128 = duration_ns(len, rate);
    let end: Option<u128> = chunk.timestamp_ns.checked_add(duration);
    let reaches_window: bool = match end {
        Some(e) => e >= from_ns,
        None => true,
    };
    if !reaches_window || chunk.timestamp_ns > to_ns {
        return (0, 0);
    }
    let start: u128 = if chunk.timestamp_ns < from_ns {
        index_at(from_ns - chunk.timestamp_ns, rate, len)
    } else {
        0
    };
    let runs_past_window: bool = match end {
        Some(e) => e > to_ns,
        None => true,
    };
    let stop: u128 = if runs_past_window {
        index_at(to_ns - chunk.timestamp_ns, rate, len)
    } else {
        len as u128
    };
    (start as usize, stop as usize)
}

} // verus!
