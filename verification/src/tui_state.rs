//! The dashboard's snapshot of every channel.

use crate::types::{elapsed_ms, elapsed_ms_spec, Stability, VadState};
use crate::vad::SILENCE_FLOOR_MDB;
use std::collections::VecDeque;
use vstd::prelude::*;

verus! {

/// Number of final transcripts that a channel keeps for display.
pub const MAX_TRANSCRIPTS: usize = 100;

/// Threshold shown for a channel until its pipeline reports its own:
/// -40 dB.
pub const DEFAULT_THRESHOLD_MDB: i32 = -40_000;

/// Connection health of a channel's recogniser session.
#[derive(Clone, Copy, Debug, PartialEq, Eq, Structural)]
pub enum TranscribeStatus {
    Connected,
    /// The last attempt to open a session failed.
    Error,
    Disconnected,
}

/// One transcript as the dashboard shows it.
#[derive(Clone, Debug)]
pub struct TranscriptEntry {
    pub text: String,
    /// Wall-clock time, RFC 3339.
    pub time: String,
    /// Position on the session's timeline, in milliseconds.
    pub millis: u64,
    pub is_partial: bool,
    pub stability: Option<Stability>,
}

/// What a dashboard entry says, as mathematical values.
pub struct EntryView {
    pub text: Seq<char>,
    pub time: Seq<char>,
    pub millis: u64,
    pub is_partial: bool,
    pub stability: Option<Stability>,
}

impl View for TranscriptEntry {
    type V = EntryView;

    open spec fn view(&self) -> EntryView {
        EntryView {
            text: self.text@,
            time: self.time@,
            millis: self.millis,
            is_partial: self.is_partial,
            stability: self.stability,
        }
    }
}

/// The views of a run of entries.
pub open spec fn entry_views(entries: Seq<TranscriptEntry>) -> Seq<EntryView> {
    entries.map_values(|e: TranscriptEntry| e@)
}

/// The newest `MAX_TRANSCRIPTS` of a run of entries, or all where there
/// are no more.
pub open spec fn newest_entries(all: Seq<EntryView>) -> Seq<EntryView> {
    if all.len() > MAX_TRANSCRIPTS {
        all.subrange(all.len() - MAX_TRANSCRIPTS, all.len() as int)
    } else {
        all
    }
}

/// Snapshot of one channel.
#[derive(Clone, Debug)]
pub struct ChannelState {
    pub channel_id: usize,
    pub channel_name: String,
    /// Level of the last chunk, in thousandths of a decibel.
    pub current_volume_mdb: i32,
    /// Level above which a chunk is voice, in thousandths of a decibel.
    pub vad_threshold_mdb: i32,
    pub vad_state: VadState,
    /// When the current silence began, in nanoseconds since the Unix
    /// epoch; none while in voice.
    pub silence_start_ns: Option<u128>,
    pub transcribe_status: TranscribeStatus,
    /// Final transcripts, oldest first.
    pub transcripts: VecDeque<TranscriptEntry>,
    /// The partial result on display.
    pub partial_transcript: Option<TranscriptEntry>,
}

impl ChannelState {
    /// When the current silence began.
    pub open spec fn silence_start(&self) -> Option<u128> {
        self.silence_start_ns
    }

    /// The final transcripts kept, oldest first.
    pub open spec fn history(&self) -> Seq<EntryView> {
        entry_views(self.transcripts@)
    }

    /// The partial result on display.
    pub open spec fn partial(&self) -> Option<EntryView> {
        match self.partial_transcript {
            Some(e) => Some(e@),
            None => None,
        }
    }

    /// Whether two snapshots show the same levels, states and identity.
    pub open spec fn same_signals(&self, other: &Self) -> bool {
        &&& self.channel_id == other.channel_id
        &&& self.channel_name@ == other.channel_name@
        &&& self.current_volume_mdb == other.current_volume_mdb
        &&& self.vad_threshold_mdb == other.vad_threshold_mdb
        &&& self.vad_state == other.vad_state
        &&& self.silence_start() == other.silence_start()
        &&& self.transcribe_status == other.transcribe_status
    }

    /// Whether two snapshots show the same transcripts.
    pub open spec fn same_transcripts(&self, other: &Self) -> bool {
        self.history() == other.history() && self.partial() == other.partial()
    }

    /// The snapshot of a channel that has not reported yet: digital
    /// silence since `now_ns`, no session, no transcripts.
    pub fn new(channel_id: usize, channel_name: String, now_ns: u128) -> (c: Self)
        ensures
            c.channel_id == channel_id,
            c.channel_name@ == channel_name@,
            c.current_volume_mdb == SILENCE_FLOOR_MDB,
            c.vad_threshold_mdb == DEFAULT_THRESHOLD_MDB,
            c.vad_state == VadState::Silence,
            c.silence_start() == Some(now_ns),
            c.transcribe_status == TranscribeStatus::Disconnected,
            c.history().len() == 0,
            c.partial() is None,
    {
        ChannelState {
            channel_id,
            channel_name,
            current_volume_mdb: SILENCE_FLOOR_MDB,
            vad_threshold_mdb: DEFAULT_THRESHOLD_MDB,
            vad_state: VadState::Silence,
            silence_start_ns: Some(now_ns),
            transcribe_status: TranscribeStatus::Disconnected,
            transcripts: VecDeque::new(),
            partial_transcript: None,
        }
    }

    pub fn set_vad_threshold(&mut self, threshold_mdb: i32)
        ensures
            final(self).vad_threshold_mdb == threshold_mdb,
            final(self).channel_id == old(self).channel_id,
            final(self).channel_name@ == old(self).channel_name@,
            final(self).current_volume_mdb == old(self).current_volume_mdb,
            final(self).vad_state == old(self).vad_state,
            final(self).silence_start() == old(self).silence_start(),
            final(self).transcribe_status == old(self).transcribe_status,
            final(self).same_transcripts(old(self)),
    {
        self.vad_threshold_mdb = threshold_mdb;
    }

    pub fn update_volume(&mut self, volume_mdb: i32)
        ensures
            final(self).current_volume_mdb == volume_mdb,
            final(self).channel_id == old(self).channel_id,
            final(self).channel_name@ == old(self).channel_name@,
            final(self).vad_threshold_mdb == old(self).vad_threshold_mdb,
            final(self).vad_state == old(self).vad_state,
            final(self).silence_start() == old(self).silence_start(),
            final(self).transcribe_status == old(self).transcribe_status,
            final(self).same_transcripts(old(self)),
    {
        self.current_volume_mdb = volume_mdb;
    }

    /// Takes over the detector's state at `now_ns`. A change from voice to
    /// silence starts the silence clock, a change from silence to voice
    /// stops it; otherwise the clock is left alone.
    pub fn update_vad_state(&mut self, state: VadState, now_ns: u128)
        ensures
            final(self).vad_state == state,
            final(self).silence_start() == (if old(self).vad_state is Voice && state is Silence {
                Some(now_ns)
            } else if old(self).vad_state is Silence && state is Voice {
                None
            } else {
                old(self).silence_start()
            }),
            final(self).channel_id == old(self).channel_id,
            final(self).channel_name@ == old(self).channel_name@,
            final(self).current_volume_mdb == old(self).current_volume_mdb,
            final(self).vad_threshold_mdb == old(self).vad_threshold_mdb,
            final(self).transcribe_status == old(self).transcribe_status,
            final(self).same_transcripts(old(self)),
    {
        match (self.vad_state, state) {
            (VadState::Silence, VadState::Voice { .. }) => {
                self.silence_start_ns = None;
            },
            (VadState::Voice { .. }, VadState::Silence) => {
                self.silence_start_ns = Some(now_ns);
            },
            _ => {},
        }
        self.vad_state = state;
    }

    /// How long the current silence has lasted at `now_ns`, in whole
    /// milliseconds; none while in voice.
    pub fn silence_duration_ms(&self, now_ns: u128) -> (ms: Option<u64>)
        ensures
            ms == (if self.vad_state is Silence && self.silence_start() is Some {
                Some(elapsed_ms_spec(self.silence_start()->0, now_ns))
            } else {
                None
            }),
    {
        match self.vad_state {
            VadState::Silence => match self.silence_start_ns {
                Some(start) => Some(elapsed_ms(start, now_ns)),
                None => None,
            },
            VadState::Voice { .. } => None,
        }
    }

    pub fn update_transcribe_status(&mut self, status: TranscribeStatus)
        ensures
            final(self).transcribe_status == status,
            final(self).channel_id == old(self).channel_id,
            final(self).channel_name@ == old(self).channel_name@,
            final(self).current_volume_mdb == old(self).current_volume_mdb,
            final(self).vad_threshold_mdb == old(self).vad_threshold_mdb,
            final(self).vad_state == old(self).vad_state,
            final(self).silence_start() == old(self).silence_start(),
            final(self).same_transcripts(old(self)),
    {
        self.transcribe_status = status;
    }

    /// Shows a transcript. A partial one replaces the partial on display.
    /// A final one clears the partial and joins the history, of which the
    /// newest `MAX_TRANSCRIPTS` are kept.
    pub fn add_transcript(
        &mut self,
        text: String,
        time: String,
        millis: u64,
        is_partial: bool,
        stability: Option<Stability>,
    )
        ensures
            final(self).same_signals(old(self)),
            ({
                let entry = EntryView { text: text@, time: time@, millis, is_partial, stability };
                if is_partial {
                    &&& final(self).partial() == Some(entry)
                    &&& final(self).history() == old(self).history()
                } else {
                    &&& final(self).partial() is None
                    &&& final(self).history() == newest_entries(old(self).history().push(entry))
                }
            }),
            !is_partial ==> final(self).history().len() <= MAX_TRANSCRIPTS,
    {
        let entry = TranscriptEntry { text, time, millis, is_partial, stability };
        if is_partial {
            self.partial_transcript = Some(entry);
        } else {
            self.partial_transcript = None;
            let ghost all = self.transcripts@.push(entry);
            self.transcripts.push_back(entry);
            while self.transcripts.len() > MAX_TRANSCRIPTS
                invariant
                    self.same_signals(old(self)),
                    self.partial_transcript is None,
                    self.transcripts@.len() <= all.len(),
                    self.transcripts@.len() >= MAX_TRANSCRIPTS || self.transcripts@.len()
                        == all.len(),
                    self.transcripts@ == all.subrange(
                        all.len() - self.transcripts@.len(),
                        all.len() as int,
                    ),
                decreases self.transcripts@.len(),
            {
                self.transcripts.pop_front();
            }
            proof {
                let kept = self.transcripts@;
                let views = entry_views(all);
                assert(views == old(self).history().push(entry@));
                if all.len() > MAX_TRANSCRIPTS {
                    assert(kept.len() == MAX_TRANSCRIPTS);
                }
                if all.len() <= MAX_TRANSCRIPTS {
                    assert(kept == all);
                }
                assert(entry_views(kept) =~= newest_entries(views));
            }
        }
    }
}

/// One change to a channel's snapshot.
#[derive(Debug)]
pub enum ChannelUpdate {
    VadThreshold(i32),
    Volume(i32),
    Vad(VadState),
    Status(TranscribeStatus),
    Transcript(TranscriptEntry),
}

/// Index of the first of `channels` that has the id, if any has.
pub open spec fn index_of_channel(channels: Seq<ChannelState>, channel_id: usize) -> Option<int>
    decreases channels.len(),
{
    if channels.len() == 0 {
        None
    } else {
        match index_of_channel(channels.drop_last(), channel_id) {
            Some(i) => Some(i),
            None => if channels.last().channel_id == channel_id {
                Some(channels.len() - 1)
            } else {
                None
            },
        }
    }
}

/// `index_of_channel` finds a channel with the id, the first one, and
/// finds none only where there is none.
pub proof fn lemma_index_of_channel(channels: Seq<ChannelState>, channel_id: usize)
    ensures
        match index_of_channel(channels, channel_id) {
            Some(i) => {
                &&& 0 <= i < channels.len()
                &&& channels[i].channel_id == channel_id
                &&& forall|j: int| 0 <= j < i ==> (#[trigger] channels[j]).channel_id != channel_id
            },
            None => forall|j: int|
                0 <= j < channels.len() ==> (#[trigger] channels[j]).channel_id != channel_id,
        },
    decreases channels.len(),
{
    if channels.len() > 0 {
        let init = channels.drop_last();
        lemma_index_of_channel(init, channel_id);
        match index_of_channel(init, channel_id) {
            Some(i) => {
                assert forall|j: int| 0 <= j < i implies (#[trigger] channels[j]).channel_id
                    != channel_id by {
                    assert(channels[j] == init[j]);
                }
                assert(channels[i] == init[i]);
            },
            None => {
                assert forall|j: int| 0 <= j < channels.len() - 1 implies (
                #[trigger] channels[j]).channel_id != channel_id by {
                    assert(channels[j] == init[j]);
                }
            },
        }
    }
}

/// The snapshot table of the dashboard: one entry per channel, and the
/// channel whose audio goes to the monitor output.
pub struct TuiState {
    channels: Vec<ChannelState>,
    selected_channel_for_output: Option<usize>,
}

impl TuiState {
    /// The channels, in the order in which they were added.
    pub closed spec fn channels(&self) -> Seq<ChannelState> {
        self.channels@
    }

    /// The channel selected for the monitor output.
    pub closed spec fn selected(&self) -> Option<usize> {
        self.selected_channel_for_output
    }

    /// An empty table with no channel selected.
    pub fn new() -> (t: Self)
        ensures
            t.channels().len() == 0,
            t.selected() is None,
    {
        TuiState { channels: Vec::new(), selected_channel_for_output: None }
    }

    /// Adds the snapshot of a channel that has not reported yet.
    pub fn add_channel(&mut self, channel_id: usize, channel_name: String, now_ns: u128)
        ensures
            final(self).selected() == old(self).selected(),
            final(self).channels().len() == old(self).channels().len() + 1,
            final(self).channels().drop_last() == old(self).channels(),
            final(self).channels().last().channel_id == channel_id,
            final(self).channels().last().channel_name@ == channel_name@,
            final(self).channels().last().vad_state == VadState::Silence,
            final(self).channels().last().current_volume_mdb == SILENCE_FLOOR_MDB,
            final(self).channels().last().vad_threshold_mdb == DEFAULT_THRESHOLD_MDB,
            final(self).channels().last().silence_start() == Some(now_ns),
            final(self).channels().last().transcribe_status == TranscribeStatus::Disconnected,
            final(self).channels().last().history().len() == 0,
            final(self).channels().last().partial() is None,
    {
        self.channels.push(ChannelState::new(channel_id, channel_name, now_ns));
    }

    /// Place in the table of the first channel with the id.
    pub fn channel_index(&self, channel_id: usize) -> (found: Option<usize>)
        ensures
            match found {
                Some(i) => index_of_channel(self.channels(), channel_id) == Some(i as int),
                None => index_of_channel(self.channels(), channel_id) is None,
            },
    {
        let mut i: usize = 0;
        while i < self.channels.len()
            invariant
                i <= self.channels.len(),
                index_of_channel(self.channels@.take(i as int), channel_id) is None,
            decreases self.channels.len() - i,
        {
            proof {
                let next = self.channels@.take(i + 1);
                assert(next.drop_last() == self.channels@.take(i as int));
                assert(next.last() == self.channels@[i as int]);
                lemma_index_of_prefix(self.channels@, i + 1, channel_id);
            }
            if self.channels[i].channel_id == channel_id {
                return Some(i);
            }
            i = i + 1;
        }
        proof {
            assert(self.channels@.take(self.channels@.len() as int) == self.channels@);
        }
        None
    }

    /// The snapshot of the first channel with the id.
    pub fn get_channel(&self, channel_id: usize) -> (found: Option<&ChannelState>)
        ensures
            match found {
                Some(c) => index_of_channel(self.channels(), channel_id) is Some
                    && *c == self.channels()[index_of_channel(self.channels(), channel_id)->0],
                None => index_of_channel(self.channels(), channel_id) is None,
            },
    {
        proof {
            lemma_index_of_channel(self.channels@, channel_id);
        }
        match self.channel_index(channel_id) {
            Some(i) => Some(&self.channels[i]),
            None => None,
        }
    }

    /// All snapshots, in the order in which the channels were added.
    pub fn get_all_channels(&self) -> (all: &Vec<ChannelState>)
        ensures
            all@ == self.channels(),
    {
        &self.channels
    }

    /// Applies a change to the first channel with the id, and says whether
    /// there was one. Every other snapshot stays as it is.
    pub fn update_channel(&mut self, channel_id: usize, update: ChannelUpdate, now_ns: u128) -> (found:
        bool)
        ensures
            final(self).selected() == old(self).selected(),
            final(self).channels().len() == old(self).channels().len(),
            found == index_of_channel(old(self).channels(), channel_id) is Some,
            forall|j: int|
                0 <= j < old(self).channels().len() && Some(j) != index_of_channel(
                    old(self).channels(),
                    channel_id,
                ) ==> final(self).channels()[j] == old(self).channels()[j],
            found ==> follows(
                old(self).channels()[index_of_channel(old(self).channels(), channel_id)->0],
                final(self).channels()[index_of_channel(old(self).channels(), channel_id)->0],
                update,
                now_ns,
            ),
    {
        proof {
            lemma_index_of_channel(self.channels@, channel_id);
        }
        match self.channel_index(channel_id) {
            None => false,
            Some(i) => {
                let channel = &mut self.channels[i];
                match update {
                    ChannelUpdate::VadThreshold(level) => channel.set_vad_threshold(level),
                    ChannelUpdate::Volume(level) => channel.update_volume(level),
                    ChannelUpdate::Vad(state) => channel.update_vad_state(state, now_ns),
                    ChannelUpdate::Status(status) => channel.update_transcribe_status(status),
                    ChannelUpdate::Transcript(entry) => channel.add_transcript(
                        entry.text,
                        entry.time,
                        entry.millis,
                        entry.is_partial,
                        entry.stability,
                    ),
                }
                true
            },
        }
    }

    /// Takes over what a channel's pipeline reports at `now_ns`: the level
    /// of the last chunk, the detector's state and the connection health.
    /// Says whether the table has the channel.
    pub fn publish_signals(
        &mut self,
        channel_id: usize,
        volume_mdb: i32,
        vad_state: VadState,
        status: TranscribeStatus,
        now_ns: u128,
    ) -> (found: bool)
        ensures
            final(self).selected() == old(self).selected(),
            final(self).channels().len() == old(self).channels().len(),
            found == index_of_channel(old(self).channels(), channel_id) is Some,
            forall|j: int|
                0 <= j < old(self).channels().len() && Some(j) != index_of_channel(
                    old(self).channels(),
                    channel_id,
                ) ==> final(self).channels()[j] == old(self).channels()[j],
            found ==> ({
                let i = index_of_channel(old(self).channels(), channel_id)->0;
                let before = old(self).channels()[i];
                let after = final(self).channels()[i];
                &&& after.channel_id == before.channel_id
                &&& after.channel_name@ == before.channel_name@
                &&& after.current_volume_mdb == volume_mdb
                &&& after.vad_state == vad_state
                &&& after.transcribe_status == status
                &&& after.vad_threshold_mdb == before.vad_threshold_mdb
                &&& after.same_transcripts(&before)
                &&& after.silence_start() == (if before.vad_state is Voice && vad_state is Silence {
                    Some(now_ns)
                } else if before.vad_state is Silence && vad_state is Voice {
                    None
                } else {
                    before.silence_start()
                })
            }),
    {
        proof {
            lemma_index_of_channel(self.channels@, channel_id);
        }
        match self.channel_index(channel_id) {
            None => false,
            Some(i) => {
                let channel = &mut self.channels[i];
                channel.update_volume(volume_mdb);
                channel.update_vad_state(vad_state, now_ns);
                channel.update_transcribe_status(status);
                true
            },
        }
    }

    /// Selects the channel whose audio goes to the monitor output, or none.
    pub fn set_selected_channel_for_output(&mut self, channel_id: Option<usize>)
        ensures
            final(self).selected() == channel_id,
            final(self).channels() == old(self).channels(),
    {
        self.selected_channel_for_output = channel_id;
    }

    pub fn get_selected_channel_for_output(&self) -> (selected: Option<usize>)
        ensures
            selected == self.selected(),
    {
        self.selected_channel_for_output
    }
}

/// What a change makes of a snapshot.
pub open spec fn follows(
    before: ChannelState,
    after: ChannelState,
    update: ChannelUpdate,
    now_ns: u128,
) -> bool {
    &&& after.channel_id == before.channel_id
    &&& after.channel_name@ == before.channel_name@
    &&& match update {
        ChannelUpdate::VadThreshold(level) => {
            &&& after.vad_threshold_mdb == level
            &&& after.current_volume_mdb == before.current_volume_mdb
            &&& after.vad_state == before.vad_state
            &&& after.silence_start() == before.silence_start()
            &&& after.transcribe_status == before.transcribe_status
            &&& after.same_transcripts(&before)
        },
        ChannelUpdate::Volume(level) => {
            &&& after.current_volume_mdb == level
            &&& after.vad_threshold_mdb == before.vad_threshold_mdb
            &&& after.vad_state == before.vad_state
            &&& after.silence_start() == before.silence_start()
            &&& after.transcribe_status == before.transcribe_status
            &&& after.same_transcripts(&before)
        },
        ChannelUpdate::Vad(state) => {
            &&& after.vad_state == state
            &&& after.silence_start() == (if before.vad_state is Voice && state is Silence {
                Some(now_ns)
            } else if before.vad_state is Silence && state is Voice {
                None
            } else {
                before.silence_start()
            })
            &&& after.current_volume_mdb == before.current_volume_mdb
            &&& after.vad_threshold_mdb == before.vad_threshold_mdb
            &&& after.transcribe_status == before.transcribe_status
            &&& after.same_transcripts(&before)
        },
        ChannelUpdate::Status(status) => {
            &&& after.transcribe_status == status
            &&& after.current_volume_mdb == before.current_volume_mdb
            &&& after.vad_threshold_mdb == before.vad_threshold_mdb
            &&& after.vad_state == before.vad_state
            &&& after.silence_start() == before.silence_start()
            &&& after.same_transcripts(&before)
        },
        ChannelUpdate::Transcript(entry) => shows(before, after, entry@),
    }
}

/// What showing a transcript makes of a snapshot: a partial one replaces
/// the partial on display; a final one clears it and joins the history, of
/// which the newest `MAX_TRANSCRIPTS` are kept.
pub open spec fn shows(before: ChannelState, after: ChannelState, entry: EntryView) -> bool {
    &&& after.same_signals(&before)
    &&& if entry.is_partial {
        after.partial() == Some(entry) && after.history() == before.history()
    } else {
        after.partial() is None && after.history() == newest_entries(before.history().push(entry))
    }
}

/// A channel found among the first `n` is the one found among all.
pub proof fn lemma_index_of_prefix(channels: Seq<ChannelState>, n: int, channel_id: usize)
    requires
        0 <= n <= channels.len(),
    ensures
        index_of_channel(channels.take(n), channel_id) is Some ==> index_of_channel(
            channels,
            channel_id,
        ) == index_of_channel(channels.take(n), channel_id),
    decreases channels.len() - n,
{
    if n == channels.len() {
        assert(channels.take(n) == channels);
    } else {
        let next = channels.take(n + 1);
        assert(next.drop_last() == channels.take(n));
        lemma_index_of_prefix(channels, n + 1, channel_id);
    }
}

} // verus!
