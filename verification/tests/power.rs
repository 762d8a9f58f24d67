use swaynyaad::event::AppInput;
use swaynyaad::power::{upower_state, power_record, BatteryKind, BatteryState};
use swaynyaad::state::AppState;

#[test]
fn line_power_always_shows_ac_adapter() {
    for state in [
        BatteryState::Unknown,
        BatteryState::Charging,
        BatteryState::Discharging,
        BatteryState::Empty,
        BatteryState::FullyCharged,
        BatteryState::PendingCharge,
        BatteryState::PendingDischarge,
    ] {
        let p = power_record(true, 4700, state, BatteryKind::LinePower);
        assert_eq!(p.icon, "ac-adapter-symbolic");
    }
}

#[test]
fn discharging_47_percent_floors_to_level_40() {
    let p = power_record(true, 4700, BatteryState::Discharging, BatteryKind::Battery);
    assert!(!p.charging);
    assert_eq!(p.icon, "battery-level-40-symbolic");
}

#[test]
fn charging_levels_carry_the_charging_suffix() {
    let p = power_record(true, 8100, BatteryState::Charging, BatteryKind::Battery);
    assert!(p.charging);
    assert_eq!(p.icon, "battery-level-80-charging-symbolic");
}

#[test]
fn pending_charge_counts_as_charging() {
    let p = power_record(true, 500, BatteryState::PendingCharge, BatteryKind::Battery);
    assert!(p.charging);
    assert_eq!(p.icon, "battery-level-0-charging-symbolic");
}

#[test]
fn pending_discharge_has_no_suffix() {
    let p = power_record(true, 9900, BatteryState::PendingDischarge, BatteryKind::Battery);
    assert!(!p.charging);
    assert_eq!(p.icon, "battery-level-90-symbolic");
}

#[test]
fn discrete_states_pick_fixed_icons() {
    let empty = power_record(true, 0, BatteryState::Empty, BatteryKind::Battery);
    assert_eq!(empty.icon, "battery-empty-symbolic");
    let full = power_record(true, 10000, BatteryState::FullyCharged, BatteryKind::Battery);
    assert_eq!(full.icon, "battery-full-charged-symbolic");
    assert!(full.charging);
    let unknown = power_record(true, 5000, BatteryState::Unknown, BatteryKind::Battery);
    assert_eq!(unknown.icon, "battery-missing-symbolic");
}

#[test]
fn full_battery_buckets_to_100() {
    let p = power_record(true, 10000, BatteryState::Discharging, BatteryKind::Battery);
    assert_eq!(p.icon, "battery-level-100-symbolic");
}

#[test]
fn power_step_emits_alert_only_on_presence_or_charging_flip() {
    let mut state = AppState::default();

    // First report: presence flips from the default, so the alert is owed.
    let notes = upower_state(
        &mut state,
        true,
        4700,
        BatteryState::Discharging,
        BatteryKind::Battery,
    );
    assert_eq!(notes.len(), 2);
    assert!(matches!(notes[0], AppInput::Power));
    assert!(matches!(notes[1], AppInput::PowerChanged));

    // Same presence and charging flag: only the plain notification.
    let notes = upower_state(
        &mut state,
        true,
        4600,
        BatteryState::Discharging,
        BatteryKind::Battery,
    );
    assert_eq!(notes.len(), 1);
    assert!(matches!(notes[0], AppInput::Power));

    // Plugging in flips the charging flag: the alert is owed again.
    let notes = upower_state(
        &mut state,
        true,
        4600,
        BatteryState::Charging,
        BatteryKind::Battery,
    );
    assert_eq!(notes.len(), 2);
    assert!(matches!(notes[1], AppInput::PowerChanged));
    assert!(state.power.charging);
}

#[test]
fn absent_display_device_is_a_plain_zero_state() {
    let mut state = AppState::default();
    let notes = upower_state(
        &mut state,
        false,
        0,
        BatteryState::Unknown,
        BatteryKind::Unknown,
    );
    assert_eq!(notes.len(), 1);
    assert!(!state.power.present);
    assert!(!state.power.is_critical());
}

#[test]
fn critical_needs_present_discharging_under_ten_percent() {
    let mut state = AppState::default();
    upower_state(&mut state, true, 999, BatteryState::Discharging, BatteryKind::Battery);
    assert!(state.power.is_critical());
    upower_state(&mut state, true, 1000, BatteryState::Discharging, BatteryKind::Battery);
    assert!(!state.power.is_critical());
    upower_state(&mut state, true, 500, BatteryState::Charging, BatteryKind::Battery);
    assert!(!state.power.is_critical());
}
