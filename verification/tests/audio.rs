use swaynyaad::mixer::{MixerChannel, MixerElem};
use swaynyaad::state::{AppState, Pulse, PulseKind};

fn two_channel_elem() -> MixerElem {
    MixerElem {
        has_volume: true,
        volume_low: 0,
        volume_high: 65536,
        has_switch: true,
        channels: vec![
            MixerChannel { volume: 32768, muted: false },
            MixerChannel { volume: 65536, muted: false },
        ],
    }
}

#[test]
fn volume_two_channels_is_75() {
    let pulse = Pulse::make(&two_channel_elem(), PulseKind::Sink);
    assert_eq!(pulse.volume, 75);
    assert!(!pulse.muted);
    assert_eq!(pulse.icon, "audio-volume-high");
}

#[test]
fn volume_source_prefix() {
    let pulse = Pulse::make(&two_channel_elem(), PulseKind::Source);
    assert_eq!(pulse.icon, "mic-volume-high");
}

#[test]
fn absent_device_reports_muted_zero() {
    let elem = MixerElem {
        has_volume: false,
        volume_low: 0,
        volume_high: 0,
        has_switch: false,
        channels: vec![],
    };
    let pulse = Pulse::make(&elem, PulseKind::Sink);
    assert_eq!(pulse.volume, 0);
    assert!(pulse.muted);
    assert_eq!(pulse.icon, "audio-volume-muted");
}

#[test]
fn all_channels_muted_with_switch_is_globally_muted() {
    let elem = MixerElem {
        has_volume: true,
        volume_low: 0,
        volume_high: 100,
        has_switch: true,
        channels: vec![
            MixerChannel { volume: 80, muted: true },
            MixerChannel { volume: 60, muted: true },
        ],
    };
    let pulse = Pulse::make(&elem, PulseKind::Sink);
    assert!(pulse.muted);
    // Muted channels contribute no volume at all.
    assert_eq!(pulse.volume, 0);
    assert_eq!(pulse.icon, "audio-volume-muted");
}

#[test]
fn no_switch_means_never_globally_muted() {
    let elem = MixerElem {
        has_volume: true,
        volume_low: 0,
        volume_high: 100,
        has_switch: false,
        channels: vec![MixerChannel { volume: 10, muted: true }],
    };
    let pulse = Pulse::make(&elem, PulseKind::Sink);
    assert!(!pulse.muted);
}

#[test]
fn volume_buckets_pick_icon_levels() {
    let mk = |v: i64| MixerElem {
        has_volume: true,
        volume_low: 0,
        volume_high: 100,
        has_switch: true,
        channels: vec![MixerChannel { volume: v, muted: false }],
    };
    assert_eq!(Pulse::make(&mk(20), PulseKind::Sink).icon, "audio-volume-low");
    assert_eq!(Pulse::make(&mk(25), PulseKind::Sink).icon, "audio-volume-low");
    assert_eq!(Pulse::make(&mk(26), PulseKind::Sink).icon, "audio-volume-medium");
    assert_eq!(Pulse::make(&mk(50), PulseKind::Sink).icon, "audio-volume-medium");
    assert_eq!(Pulse::make(&mk(51), PulseKind::Sink).icon, "audio-volume-high");
    assert_eq!(Pulse::make(&mk(100), PulseKind::Sink).icon, "audio-volume-high");
}

#[test]
fn negative_volume_range_handled() {
    // Ranges with a negative minimum still measure from the minimum.
    let elem = MixerElem {
        has_volume: true,
        volume_low: -50,
        volume_high: 50,
        has_switch: true,
        channels: vec![MixerChannel { volume: 0, muted: false }],
    };
    let pulse = Pulse::make(&elem, PulseKind::Sink);
    assert_eq!(pulse.volume, 50);
}

#[test]
fn same_element_state_twice_is_identical_and_not_reemitted() {
    let elem = two_channel_elem();
    let first = Pulse::make(&elem, PulseKind::Sink);
    let second = Pulse::make(&elem, PulseKind::Sink);
    assert_eq!(first, second);

    let mut state = AppState::default();
    let changed_first = state.update_pulse(PulseKind::Sink, first);
    assert!(changed_first);
    let changed_second = state.update_pulse(PulseKind::Sink, second);
    assert!(!changed_second);
    assert_eq!(state.sink.volume, 75);
}

#[test]
fn sink_and_source_slots_are_distinct() {
    let mut state = AppState::default();
    let sink = Pulse { muted: false, volume: 30, icon: "audio-volume-medium".to_string() };
    let source = Pulse { muted: true, volume: 0, icon: "mic-volume-muted".to_string() };
    assert!(state.update_pulse(PulseKind::Sink, sink));
    assert!(state.update_pulse(PulseKind::Source, source));
    assert_eq!(state.sink.volume, 30);
    assert!(state.source.muted);
}

#[test]
fn classify_mixer_elements() {
    assert_eq!(swaynyaad::mixer::classify_element("Master"), Some(PulseKind::Sink));
    assert_eq!(swaynyaad::mixer::classify_element("Capture"), Some(PulseKind::Source));
    assert_eq!(swaynyaad::mixer::classify_element("Headphone"), None);
}
