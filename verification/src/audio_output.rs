//! The monitor output: the buffer that the playback device drains, and
//! the routing of one channel's audio to it.

use crate::types::SampleI16;
use vstd::prelude::*;

verus! {

/// What the playback device gets when it asks for `wanted` samples and
/// `buffered` are waiting: the oldest of them, and silence where too few
/// wait.
pub open spec fn playback_samples(buffered: Seq<SampleI16>, wanted: nat) -> Seq<SampleI16> {
    Seq::new(
        wanted,
        |i: int|
            if i < buffered.len() {
                buffered[i]
            } else {
                0i16
            },
    )
}

/// What keeps waiting after the device took `wanted` samples.
pub open spec fn playback_rest(buffered: Seq<SampleI16>, wanted: nat) -> Seq<SampleI16> {
    if wanted <= buffered.len() {
        buffered.subrange(wanted as int, buffered.len() as int)
    } else {
        Seq::empty()
    }
}

/// Serves one request of the playback device from the monitor buffer.
pub fn drain_playback(buffer: &mut Vec<SampleI16>, wanted: usize) -> (out: Vec<SampleI16>)
    ensures
        out@ == playback_samples(old(buffer)@, wanted as nat),
        final(buffer)@ == playback_rest(old(buffer)@, wanted as nat),
{
    if buffer.len() >= wanted {
        let mut taken: Vec<SampleI16> = buffer.split_off(wanted);
        std::mem::swap(buffer, &mut taken);
        proof {
            assert(taken@ =~= playback_samples(old(buffer)@, wanted as nat));
        }
        taken
    } else {
        let mut out: Vec<SampleI16> = Vec::new();
        std::mem::swap(buffer, &mut out);
        let ghost held = out@;
        while out.len() < wanted
            invariant
                held == old(buffer)@,
                held.len() <= out@.len() <= wanted,
                forall|i: int| 0 <= i < held.len() ==> out@[i] == held[i],
                forall|i: int| held.len() <= i < out@.len() ==> out@[i] == 0,
            decreases wanted - out.len(),
        {
            out.push(0);
        }
        proof {
            assert(out@ =~= playback_samples(old(buffer)@, wanted as nat));
        }
        out
    }
}

/// What changes when another channel is selected for the monitor output.
#[derive(Clone, Copy, Debug, PartialEq, Eq, Structural)]
pub struct RouteChange {
    /// The channel whose pipeline loses the monitor output.
    pub detach: Option<usize>,
    /// The channel whose pipeline gets it.
    pub attach: Option<usize>,
}

/// Follows the dashboard's selection of the channel to monitor.
pub struct PlaybackRouter {
    last_selected: Option<usize>,
}

impl PlaybackRouter {
    /// The channel that has the monitor output.
    pub closed spec fn routed(&self) -> Option<usize> {
        self.last_selected
    }

    /// A router with no channel attached.
    pub fn new() -> (r: Self)
        ensures
            r.routed() is None,
    {
        PlaybackRouter { last_selected: None }
    }

    /// Takes in the current selection. Where it differs from the channel
    /// attached, the change says which pipeline to detach and which to
    /// attach; otherwise there is none.
    pub fn select(&mut self, current: Option<usize>) -> (change: Option<RouteChange>)
        ensures
            final(self).routed() == current,
            current == old(self).routed() ==> change is None,
            current != old(self).routed() ==> change == Some(
                RouteChange { detach: old(self).routed(), attach: current },
            ),
    {
        let same: bool = match (current, self.last_selected) {
            (Some(a), Some(b)) => a == b,
            (None, None) => true,
            _ => false,
        };
        if same {
            None
        } else {
            let change = RouteChange { detach: self.last_selected, attach: current };
            self.last_selected = current;
            Some(change)
        }
    }
}

} // verus!
