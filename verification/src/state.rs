//! The shared state table and the records its listeners publish into it.

use vstd::prelude::*;
use crate::event::AppInput;
use crate::mixer::{
    MixerElem, acc_volume, globally_muted, lemma_acc_volume_bounds, parsed_muted, parsed_volume,
    MIXER_CHANNEL_SLOTS, MIXER_VOLUME_BOUND,
};

verus! {

/// The currently active keyboard layout: a two-letter short code and the
/// full layout name it was derived from.
#[derive(Debug, Clone)]
pub struct XkbLayout {
    pub name: String,
    pub description: String,
}

impl Default for XkbLayout {
    fn default() -> (r: Self)
        ensures
            r.name@ == Seq::<char>::empty(),
            r.description@ == Seq::<char>::empty(),
    {
        XkbLayout { name: String::new(), description: String::new() }
    }
}

/// The focused window of one output: a shell-kind tag, an optional
/// application identifier and a floating flag.
#[derive(Debug)]
pub struct Node {
    pub shell: String,
    pub app_id: Option<String>,
    pub floating: bool,
}

/// What one output currently shows: its visible workspace and the focused
/// window on it, if any.
#[derive(Debug)]
pub struct Screen {
    pub workspace: Option<String>,
    pub focused: Option<Node>,
}

/// Which audio slot a mixer record belongs to.
#[derive(Debug, Clone, Copy, PartialEq, Eq, Structural)]
pub enum PulseKind {
    Sink,
    Source,
}

/// Aggregated mixer state of one audio slot.
#[derive(Debug)]
pub struct Pulse {
    pub muted: bool,
    pub volume: i64,
    pub icon: String,
}

/// Full equality on audio records; the dispatcher de-duplicates mixer
/// notifications by it.
pub open spec fn pulse_eq(a: Pulse, b: Pulse) -> bool {
    a.muted == b.muted && a.volume == b.volume && a.icon@ == b.icon@
}

impl PartialEq for Pulse {
    fn eq(&self, other: &Pulse) -> (r: bool) {
        self.muted == other.muted && self.volume == other.volume && self.icon == other.icon
    }
}

impl vstd::std_specs::cmp::PartialEqSpecImpl for Pulse {
    open spec fn obeys_eq_spec() -> bool {
        true
    }

    open spec fn eq_spec(&self, other: &Pulse) -> bool {
        pulse_eq(*self, *other)
    }
}

impl Default for Pulse {
    fn default() -> (r: Self)
        ensures
            !r.muted,
            r.volume == 0,
            r.icon@ == Seq::<char>::empty(),
    {
        Pulse { muted: false, volume: 0, icon: String::new() }
    }
}

/// The icon prefix of an audio slot.
pub open spec fn pulse_prefix(kind: PulseKind) -> Seq<char> {
    match kind {
        PulseKind::Sink => "audio"@,
        PulseKind::Source => "mic"@,
    }
}

/// The icon level word of an audio record: silent or muted records show
/// as muted, the rest is bucketed into low, medium and high.
pub open spec fn pulse_level(volume: int, muted: bool) -> Seq<char> {
    if volume == 0 {
        "muted"@
    } else if muted {
        "muted"@
    } else if volume <= 25 {
        "low"@
    } else if volume <= 50 {
        "medium"@
    } else {
        "high"@
    }
}

/// The full icon name of an audio record.
pub open spec fn pulse_icon(kind: PulseKind, volume: int, muted: bool) -> Seq<char> {
    pulse_prefix(kind) + "-volume-"@ + pulse_level(volume, muted)
}

/// What `Pulse::make` promises of its result: the record is exactly the
/// aggregate of the element snapshot, icon included.
pub open spec fn made_pulse(elem: MixerElem, kind: PulseKind, r: Pulse) -> bool {
    &&& r.volume == parsed_volume(elem)
    &&& r.muted == parsed_muted(elem)
    &&& r.icon@ == pulse_icon(kind, parsed_volume(elem), parsed_muted(elem))
}

impl Pulse {
    /// Aggregate the channel readings of a well-formed element into a
    /// volume percentage and a global mute flag.
    fn parse(elem: &MixerElem) -> (r: (i64, bool))
        requires
            elem.wf(),
        ensures
            r.0 == parsed_volume(*elem),
            r.1 == parsed_muted(*elem),
    {
        if !elem.has_volume {
            // This device is probably nonexistent; a quiet, muted record is
            // the deterministic answer.
            return (0, true);
        }

        let range: i64 = elem.volume_high - elem.volume_low;
        let count: usize = elem.channels.len();

        let mut muted: bool = elem.has_switch;
        let mut acc: i64 = 0;
        let mut i: usize = 0;
        while i < count
            invariant
                elem.wf(),
                elem.has_volume,
                count == elem.channels@.len(),
                0 <= i <= count,
                0 <= acc == acc_volume(elem.channels@.take(i as int), elem.volume_low as int),
                acc <= i * (elem.volume_high - elem.volume_low),
                muted == globally_muted(elem.has_switch, elem.channels@.take(i as int)),
            decreases count - i,
        {
            let ch = elem.channels[i];
            proof {
                assert(elem.channels@.take(i + 1).drop_last() =~= elem.channels@.take(i as int));
                assert(elem.channels@.take(i + 1).last() == elem.channels@[i as int]);
                assert((i as int) * (elem.volume_high - elem.volume_low)
                    + (elem.volume_high - elem.volume_low)
                    == (i + 1) * (elem.volume_high - elem.volume_low)) by (nonlinear_arith);
                assert(i * (elem.volume_high - elem.volume_low)
                    <= MIXER_CHANNEL_SLOTS * (2 * MIXER_VOLUME_BOUND)) by (nonlinear_arith)
                    requires
                        0 <= i < MIXER_CHANNEL_SLOTS,
                        0 < elem.volume_high - elem.volume_low <= 2 * MIXER_VOLUME_BOUND,
                ;
            }
            muted = muted && ch.muted;
            if !ch.muted {
                acc = acc + (ch.volume - elem.volume_low);
            }
            i = i + 1;
        }
        proof {
            assert(elem.channels@.take(count as int) =~= elem.channels@);
            lemma_acc_volume_bounds(
                elem.channels@,
                elem.volume_low as int,
                elem.volume_high as int,
            );
            assert(acc <= MIXER_CHANNEL_SLOTS * (2 * MIXER_VOLUME_BOUND)) by (nonlinear_arith)
                requires
                    acc <= count * (elem.volume_high - elem.volume_low),
                    0 <= count <= MIXER_CHANNEL_SLOTS,
                    0 < elem.volume_high - elem.volume_low <= 2 * MIXER_VOLUME_BOUND,
            ;
        }
        let volume: i64 = 100 * acc / range / (count as i64);
        (volume, muted)
    }

    /// Compute the full audio record of one slot from a well-formed mixer
    /// element snapshot.
    pub fn make(elem: &MixerElem, kind: PulseKind) -> (r: Pulse)
        requires
            elem.wf(),
        ensures
            made_pulse(*elem, kind, r),
    {
        let (volume, muted) = Self::parse(elem);

        let prefix: &str = match kind {
            PulseKind::Sink => "audio",
            PulseKind::Source => "mic",
        };
        let level: &str = if volume == 0 {
            "muted"
        } else if muted {
            "muted"
        } else if volume <= 25 {
            "low"
        } else if volume <= 50 {
            "medium"
        } else {
            "high"
        };
        let icon: String = String::from_str(prefix).concat("-volume-").concat(level);

        Pulse { icon, muted, volume }
    }
}

/// Two records made from the same element snapshot are equal in every
/// field: the computed record is a function of the raw mixer state alone,
/// so feeding the same state twice cannot produce a second notification
/// once `AppState::update_pulse` de-duplicates by full equality.
pub proof fn lemma_pulse_make_deterministic(
    elem: MixerElem,
    kind: PulseKind,
    r1: Pulse,
    r2: Pulse,
)
    requires
        made_pulse(elem, kind, r1),
        made_pulse(elem, kind, r2),
    ensures
        pulse_eq(r1, r2),
{
}

/// Battery state of the display device. `level` is the charge percentage
/// in hundredths of a percent (ten thousand means a full battery), so that
/// fractional readings survive without floating point.
#[derive(Debug)]
pub struct Power {
    pub present: bool,
    pub charging: bool,
    pub level: u32,
    pub icon: String,
}

impl Default for Power {
    fn default() -> (r: Self)
        ensures
            !r.present,
            !r.charging,
            r.level == 0,
            r.icon@ == Seq::<char>::empty(),
    {
        Power { present: false, charging: false, level: 0, icon: String::new() }
    }
}

impl Power {
    /// A power record asks for an urgent warning exactly when a battery is
    /// present, not charging, and under ten percent of charge.
    pub fn is_critical(&self) -> (r: bool)
        ensures
            r == (self.present && !self.charging && self.level < 1000),
    {
        self.present && !self.charging && self.level < 1000
    }
}

/// One output's entry in the screen table.
#[derive(Debug)]
pub struct ScreenEntry {
    pub output: String,
    pub screen: Screen,
}

/// The screen of the first entry carrying the given output name, if any.
pub open spec fn screens_lookup(entries: Seq<ScreenEntry>, name: Seq<char>) -> Option<Screen>
    decreases entries.len(),
{
    if entries.len() == 0 {
        Option::None
    } else if entries[0].output@ == name {
        Option::Some(entries[0].screen)
    } else {
        screens_lookup(entries.skip(1), name)
    }
}

/// Look an output's screen up in a screen table.
pub fn screens_get<'a>(entries: &'a Vec<ScreenEntry>, name: &str) -> (r: Option<&'a Screen>)
    ensures
        match r {
            Option::Some(s) => screens_lookup(entries@, name@) == Option::Some(*s),
            Option::None => screens_lookup(entries@, name@) is None,
        },
{
    let n: usize = entries.len();
    let mut i: usize = 0;
    proof {
        assert(entries@.skip(0) =~= entries@);
    }
    while i < n
        invariant
            0 <= i <= n,
            n == entries@.len(),
            screens_lookup(entries@, name@) == screens_lookup(entries@.skip(i as int), name@),
        decreases n - i,
    {
        proof {
            assert(entries@.skip(i as int)[0] == entries@[i as int]);
            assert(entries@.skip(i as int).skip(1) =~= entries@.skip(i + 1));
        }
        if crate::text::str_eq(entries[i].output.as_str(), name) {
            return Some(&entries[i].screen);
        }
        i = i + 1;
    }
    None
}

/// The single source of truth that the listeners fill and the subscribers
/// read. Each listener owns a disjoint slice of the fields and replaces
/// its slice wholesale, under the surrounding process's exclusion guard.
///
/// `time` is a Unix timestamp in seconds. `load_average` is the kernel's
/// fixed-point one-minute figure, where 65536 stands for a load of one.
/// `memory_usage` is the used fraction of memory in parts per million.
/// `workspaces_existing` is kept sorted strictly increasing.
#[derive(Debug)]
pub struct AppState {
    pub layout: XkbLayout,
    pub layouts: Vec<String>,
    pub time: i64,
    pub workspaces_urgent: Vec<i32>,
    pub workspaces_existing: Vec<i32>,
    pub screen_focused: Option<String>,
    pub screens: Vec<ScreenEntry>,
    pub load_average: u64,
    pub memory_usage: u64,
    pub sink: Pulse,
    pub source: Pulse,
    pub power: Power,
}

impl Default for AppState {
    fn default() -> (r: Self)
        ensures
            r.layout.name@ == Seq::<char>::empty(),
            r.layout.description@ == Seq::<char>::empty(),
            r.layouts@ == Seq::<String>::empty(),
            r.time == 0,
            r.workspaces_urgent@ == Seq::<i32>::empty(),
            r.workspaces_existing@ == Seq::<i32>::empty(),
            r.screen_focused is None,
            r.screens@ == Seq::<ScreenEntry>::empty(),
            r.load_average == 0,
            r.memory_usage == 0,
            !r.sink.muted && r.sink.volume == 0 && r.sink.icon@ == Seq::<char>::empty(),
            !r.source.muted && r.source.volume == 0 && r.source.icon@ == Seq::<char>::empty(),
            !r.power.present && !r.power.charging && r.power.level == 0
                && r.power.icon@ == Seq::<char>::empty(),
    {
        AppState {
            layout: XkbLayout::default(),
            layouts: Vec::new(),
            time: 0,
            workspaces_urgent: Vec::new(),
            workspaces_existing: Vec::new(),
            screen_focused: None,
            screens: Vec::new(),
            load_average: 0,
            memory_usage: 0,
            sink: Pulse::default(),
            source: Pulse::default(),
            power: Power::default(),
        }
    }
}

/// The audio record a state table holds for the given slot.
pub open spec fn pulse_slot(s: AppState, kind: PulseKind) -> Pulse {
    match kind {
        PulseKind::Sink => s.sink,
        PulseKind::Source => s.source,
    }
}

impl AppState {
    /// Store a freshly computed audio record, de-duplicating by full
    /// equality: when the record equals the stored one the table is left
    /// untouched and no notification is owed; otherwise the slot is
    /// replaced wholesale and one is.
    pub fn update_pulse(&mut self, kind: PulseKind, pulse: Pulse) -> (changed: bool)
        ensures
            changed == !pulse_eq(pulse_slot(*old(self), kind), pulse),
            !changed ==> *final(self) == *old(self),
            changed ==> match kind {
                PulseKind::Sink => *final(self) == (AppState { sink: pulse, ..*old(self) }),
                PulseKind::Source => *final(self) == (AppState { source: pulse, ..*old(self) }),
            },
    {
        match kind {
            PulseKind::Sink => {
                if self.sink == pulse {
                    false
                } else {
                    self.sink = pulse;
                    true
                }
            },
            PulseKind::Source => {
                if self.source == pulse {
                    false
                } else {
                    self.source = pulse;
                    true
                }
            },
        }
    }

    /// First half of a timer tick: refresh the wall-clock timestamp and
    /// owe one time notification.
    pub fn update_time(&mut self, now: i64) -> (notes: Vec<AppInput>)
        ensures
            *final(self) == (AppState { time: now, ..*old(self) }),
            notes@.len() == 1 && notes@[0] is Time,
    {
        self.time = now;
        let mut notes: Vec<AppInput> = Vec::new();
        notes.push(AppInput::Time);
        notes
    }

    /// Second half of a timer tick: refresh the system metrics as one
    /// atomic write and owe one sysinfo notification. `load_average` is
    /// the kernel's fixed-point figure and `memory_usage` the used
    /// fraction in parts per million.
    pub fn update_sysinfo(&mut self, load_average: u64, memory_usage: u64) -> (notes: Vec<
        AppInput,
    >)
        ensures
            *final(self) == (AppState { load_average, memory_usage, ..*old(self) }),
            notes@.len() == 1 && notes@[0] is Sysinfo,
    {
        self.load_average = load_average;
        self.memory_usage = memory_usage;
        let mut notes: Vec<AppInput> = Vec::new();
        notes.push(AppInput::Sysinfo);
        notes
    }
}

} // verus!
