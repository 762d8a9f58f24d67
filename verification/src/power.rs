//! The power listener's computation: from the raw readings of the
//! power-management service's display device to the `Power` record, its
//! icon, and the notifications owed for it.

use vstd::prelude::*;
use crate::event::AppInput;
use crate::state::{AppState, Power};
use crate::text::{dec_digits, u64_to_dec};

verus! {

/// The charge state of the display device, as the power-management
/// service enumerates it.
#[derive(Debug, Clone, Copy, PartialEq, Eq, Structural)]
pub enum BatteryState {
    Unknown,
    Charging,
    Discharging,
    Empty,
    FullyCharged,
    PendingCharge,
    PendingDischarge,
}

/// The kind of the display device, as the power-management service
/// enumerates it.
#[derive(Debug, Clone, Copy, PartialEq, Eq, Structural)]
pub enum BatteryKind {
    Unknown,
    LinePower,
    Battery,
    Ups,
    Monitor,
    Mouse,
    Keyboard,
    Pda,
    Phone,
}

/// A device counts as charging when it charges, waits to charge, or is
/// already full.
pub open spec fn is_charging(state: BatteryState) -> bool {
    state is PendingCharge || state is Charging || state is FullyCharged
}

/// The charge percentage floored to the nearest ten, from a level in
/// hundredths of a percent.
pub open spec fn battery_bucket(level: int) -> int {
    level / 1000 * 10
}

/// The icon a power record shows. Line-power devices always show the AC
/// adapter. Otherwise the discrete states pick a fixed icon, and the
/// charging or discharging states pick a level-bucketed one, with a
/// charging suffix when the device counts as charging.
pub open spec fn power_icon(kind: BatteryKind, state: BatteryState, level: int) -> Seq<char> {
    if kind is LinePower {
        "ac-adapter-symbolic"@
    } else {
        match state {
            BatteryState::Empty => "battery-empty-symbolic"@,
            BatteryState::FullyCharged => "battery-full-charged-symbolic"@,
            BatteryState::PendingCharge | BatteryState::Charging
                | BatteryState::PendingDischarge | BatteryState::Discharging =>
                "battery-level-"@ + dec_digits(battery_bucket(level) as nat)
                    + (if is_charging(state) { "-charging"@ } else { Seq::<char>::empty() })
                    + "-symbolic"@,
            _ => "battery-missing-symbolic"@,
        }
    }
}

/// What the power record computed from raw device readings holds: the
/// presence and level as read, the charging flag derived from the charge
/// state, and the icon derived from kind, state and level.
pub open spec fn made_power(
    present: bool,
    level: int,
    state: BatteryState,
    kind: BatteryKind,
    r: Power,
) -> bool {
    &&& r.present == present
    &&& r.charging == is_charging(state)
    &&& r.level == level
    &&& r.icon@ == power_icon(kind, state, level)
}

/// Decide whether a device state counts as charging.
pub fn charging_of(state: BatteryState) -> (r: bool)
    ensures
        r == is_charging(state),
{
    match state {
        BatteryState::PendingCharge | BatteryState::Charging | BatteryState::FullyCharged => true,
        _ => false,
    }
}

/// Compute the power record for raw readings of the display device.
/// `level` is in hundredths of a percent, at most ten thousand.
pub fn power_record(
    present: bool,
    level: u32,
    state: BatteryState,
    kind: BatteryKind,
) -> (r: Power)
    requires
        level <= 10000,
    ensures
        made_power(present, level as int, state, kind, r),
{
    let charging: bool = charging_of(state);
    let icon: String = if matches!(kind, BatteryKind::LinePower) {
        String::from_str("ac-adapter-symbolic")
    } else {
        match state {
            BatteryState::Empty => String::from_str("battery-empty-symbolic"),
            BatteryState::FullyCharged => String::from_str("battery-full-charged-symbolic"),
            BatteryState::PendingCharge | BatteryState::Charging
                | BatteryState::PendingDischarge | BatteryState::Discharging => {
                let bucket: u32 = level / 1000 * 10;
                let mut icon: String = String::from_str("battery-level-");
                icon.append(u64_to_dec(bucket as u64).as_str());
                if charging {
                    icon.append("-charging");
                }
                icon.append("-symbolic");
                icon
            },
            _ => String::from_str("battery-missing-symbolic"),
        }
    };

    Power { present, charging, level, icon }
}

/// One step of the power listener after a wake: store the record computed
/// from the fresh readings, always owe a plain power notification, and owe
/// the distinct power-changed alert exactly when presence or the charging
/// flag differs from the stored record. Only the power slice of the state
/// is touched.
pub fn upower_state(
    state: &mut AppState,
    present: bool,
    level: u32,
    bat_state: BatteryState,
    bat_kind: BatteryKind,
) -> (notes: Vec<AppInput>)
    requires
        level <= 10000,
    ensures
        made_power(present, level as int, bat_state, bat_kind, final(state).power),
        *final(state) == (AppState { power: final(state).power, ..*old(state) }),
        ({
            let changed = old(state).power.present != present
                || old(state).power.charging != is_charging(bat_state);
            if changed {
                notes@.len() == 2 && notes@[0] is Power && notes@[1] is PowerChanged
            } else {
                notes@.len() == 1 && notes@[0] is Power
            }
        }),
{
    let new_power: Power = power_record(present, level, bat_state, bat_kind);
    let changed: bool = state.power.present != new_power.present
        || state.power.charging != new_power.charging;
    state.power = new_power;

    let mut notes: Vec<AppInput> = Vec::new();
    notes.push(AppInput::Power);
    if changed {
        notes.push(AppInput::PowerChanged);
    }
    notes
}

} // verus!
