//! A plain-value snapshot of one mixer control element, as the audio
//! listener reads it from the mixer device before computing a `Pulse`
//! record from it.

use vstd::prelude::*;
use crate::state::PulseKind;

verus! {

/// One mixer channel that reported a volume: its raw reading and whether
/// its individual switch mutes it.
#[derive(Debug, Clone, Copy)]
pub struct MixerChannel {
    pub volume: i64,
    pub muted: bool,
}

/// What one mixer element reports for one side (playback or capture):
/// whether that side has a volume at all, its raw range, whether it has a
/// mute switch, and the per-channel readings. Channels whose volume could
/// not be read are not listed.
#[derive(Debug)]
pub struct MixerElem {
    pub has_volume: bool,
    pub volume_low: i64,
    pub volume_high: i64,
    pub has_switch: bool,
    pub channels: Vec<MixerChannel>,
}

/// The mixer exposes a fixed set of eleven channel slots.
pub const MIXER_CHANNEL_SLOTS: usize = 11;

/// Raw ranges stay far inside `i64`, so the percentage arithmetic cannot
/// overflow.
pub const MIXER_VOLUME_BOUND: i64 = 0x1_0000_0000;

impl MixerElem {
    /// A snapshot is well formed when, if the element has a volume, the
    /// range is proper and bounded, at least one channel reported a
    /// reading, no more channels than the mixer has slots did, and every
    /// reading lies inside the range.
    pub open spec fn wf(self) -> bool {
        self.has_volume ==> {
            &&& self.volume_low < self.volume_high
            &&& -MIXER_VOLUME_BOUND <= self.volume_low
            &&& self.volume_high <= MIXER_VOLUME_BOUND
            &&& 1 <= self.channels@.len() <= MIXER_CHANNEL_SLOTS
            &&& forall|i: int| 0 <= i < self.channels@.len()
                ==> self.volume_low <= #[trigger] self.channels@[i].volume <= self.volume_high
        }
    }
}

/// Sum over the channels of the in-range contribution of each channel that
/// is not individually muted: its raw reading minus the range's minimum.
pub open spec fn acc_volume(cs: Seq<MixerChannel>, low: int) -> int
    decreases cs.len(),
{
    if cs.len() == 0 {
        0
    } else {
        acc_volume(cs.drop_last(), low) + if cs.last().muted {
            0
        } else {
            cs.last().volume - low
        }
    }
}

/// An element is globally muted when it has a mute switch at all and every
/// channel is individually muted.
pub open spec fn globally_muted(has_switch: bool, cs: Seq<MixerChannel>) -> bool {
    has_switch && forall|i: int| 0 <= i < cs.len() ==> (#[trigger] cs[i]).muted
}

/// The element name decides which audio slot an element feeds: the master
/// playback control feeds the sink, the capture control the source, and
/// every other element is ignored.
pub fn classify_element(name: &str) -> (r: Option<PulseKind>)
    ensures
        name@ == "Master"@ ==> r == Some(PulseKind::Sink),
        name@ != "Master"@ && name@ == "Capture"@ ==> r == Some(PulseKind::Source),
        name@ != "Master"@ && name@ != "Capture"@ ==> r is None,
{
    if crate::text::str_eq(name, "Master") {
        Some(PulseKind::Sink)
    } else if crate::text::str_eq(name, "Capture") {
        Some(PulseKind::Source)
    } else {
        None
    }
}

/// The channel sum of a well-formed element is nonnegative and at most
/// one full range per channel.
pub proof fn lemma_acc_volume_bounds(cs: Seq<MixerChannel>, low: int, high: int)
    requires
        low < high,
        forall|i: int| 0 <= i < cs.len() ==> low <= #[trigger] cs[i].volume <= high,
    ensures
        0 <= acc_volume(cs, low) <= cs.len() * (high - low),
    decreases cs.len(),
{
    if cs.len() > 0 {
        lemma_acc_volume_bounds(cs.drop_last(), low, high);
        assert((cs.len() - 1) * (high - low) + (high - low) == cs.len() * (high - low))
            by (nonlinear_arith);
    }
}

/// The volume percentage a well-formed element aggregates to: the unmuted
/// in-range contributions summed, scaled to a percentage of the range,
/// averaged over the channel count, all in integer division. An element
/// without a volume stands for absent hardware and reports zero.
pub open spec fn parsed_volume(elem: MixerElem) -> int {
    if !elem.has_volume {
        0
    } else {
        100 * acc_volume(elem.channels@, elem.volume_low as int)
            / (elem.volume_high - elem.volume_low) / (elem.channels@.len() as int)
    }
}

/// The global mute flag an element aggregates to. An element without a
/// volume reports muted.
pub open spec fn parsed_muted(elem: MixerElem) -> bool {
    if !elem.has_volume {
        true
    } else {
        globally_muted(elem.has_switch, elem.channels@)
    }
}

} // verus!
