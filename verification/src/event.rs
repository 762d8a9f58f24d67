//! The closed set of notifications the listeners emit and the dispatcher
//! fans out, and the alert-sound rule applied while forwarding.

use vstd::prelude::*;
use crate::state::PulseKind;

verus! {

/// One notification on the dispatcher's channel. It names which slice of
/// the shared state changed; subscribers re-read the state rather than
/// receive the value, except for the output-set notification, which
/// carries the full current output-name set, and the audio notification,
/// which says which slot it is about.
#[derive(Debug, Clone)]
pub enum AppInput {
    Outputs(Vec<String>),
    Layout,
    LayoutList,
    Time,
    Workspaces,
    Sysinfo,
    Pulse(PulseKind),
    Power,
    PowerChanged,
}

/// Build the refresh notifications a freshly created subscriber is fed,
/// so that it renders every slice of the current state once: one of each
/// kind except the output-set and alert kinds, the audio ones for both
/// slots.
pub fn initial_events() -> (r: Vec<AppInput>)
    ensures
        r@.len() == 8,
        r@[0] is Layout,
        r@[1] is LayoutList,
        r@[2] is Time,
        r@[3] is Workspaces,
        r@[4] is Sysinfo,
        r@[5] == AppInput::Pulse(PulseKind::Source),
        r@[6] == AppInput::Pulse(PulseKind::Sink),
        r@[7] is Power,
{
    let mut r: Vec<AppInput> = Vec::new();
    r.push(AppInput::Layout);
    r.push(AppInput::LayoutList);
    r.push(AppInput::Time);
    r.push(AppInput::Workspaces);
    r.push(AppInput::Sysinfo);
    r.push(AppInput::Pulse(PulseKind::Source));
    r.push(AppInput::Pulse(PulseKind::Sink));
    r.push(AppInput::Power);
    r
}

/// The alert sound an event asks for, if any: every audio notification
/// plays the volume-change sound, and a power-change notification plays
/// the plug or unplug sound depending on whether the battery now charges.
pub open spec fn sound_name(event: AppInput, power_charging: bool) -> Option<Seq<char>> {
    match event {
        AppInput::Pulse(_) => Option::Some("audio-volume-change"@),
        AppInput::PowerChanged => if power_charging {
            Option::Some("power-plug"@)
        } else {
            Option::Some("power-unplug"@)
        },
        _ => Option::None,
    }
}

/// Decide which alert sound, if any, accompanies a forwarded event.
pub fn sound_for_event(event: &AppInput, power_charging: bool) -> (r: Option<&'static str>)
    ensures
        match (r, sound_name(*event, power_charging)) {
            (Option::Some(s), Option::Some(t)) => s@ == t,
            (Option::None, Option::None) => true,
            _ => false,
        },
{
    match event {
        AppInput::Pulse(_) => Some("audio-volume-change"),
        AppInput::PowerChanged => {
            if power_charging {
                Some("power-plug")
            } else {
                Some("power-unplug")
            }
        },
        _ => None,
    }
}

} // verus!
