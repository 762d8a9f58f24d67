use swaynyaad::event::{sound_for_event, AppInput};
use swaynyaad::opener::open_bar_commands;
use swaynyaad::snapshot::compute_bar_state;
use swaynyaad::state::PulseKind;
use swaynyaad::sway::{InputDevice, OutputInfo, WorkspaceInfo};
use swaynyaad::text::u64_to_dec;
use swaynyaad::tree::{NodeKind, ShellKind, TreeNode};

fn leaf(id: i64, kind: NodeKind) -> TreeNode {
    TreeNode {
        id,
        node_type: kind,
        name: None,
        focus: vec![],
        nodes: vec![],
        floating_nodes: vec![],
        floating: None,
        app_id: None,
        shell: None,
        window_properties: None,
    }
}

#[test]
fn bar_snapshot_collects_everything() {
    let inputs = vec![InputDevice {
        input_type: "keyboard".to_string(),
        xkb_active_layout_name: Some("English (US)".to_string()),
        xkb_layout_names: vec!["English (US)".to_string()],
        xkb_active_layout_index: Some(0),
    }];
    let workspaces = vec![
        WorkspaceInfo { num: 2, urgent: true },
        WorkspaceInfo { num: 1, urgent: false },
    ];
    let outputs = vec![OutputInfo {
        name: "eDP-1".to_string(),
        focused: true,
        current_workspace: Some("2".to_string()),
    }];

    let mut term = leaf(10, NodeKind::Con);
    term.name = Some("shell - tmux".to_string());
    term.shell = Some(ShellKind::XdgShell);
    term.app_id = Some("org.terminal".to_string());
    let mut workspace = leaf(5, NodeKind::Workspace);
    workspace.name = Some("2".to_string());
    workspace.focus = vec![10];
    workspace.nodes = vec![term];
    let mut root = leaf(1, NodeKind::Root);
    root.nodes = vec![workspace];

    let snap = compute_bar_state(&inputs, &workspaces, &outputs, &root);
    assert_eq!(snap.layout_name.as_deref(), Some("English (US)"));
    assert_eq!(snap.layout_short_name, "en");
    assert_eq!(snap.workspaces_existing, vec![1, 2]);
    assert_eq!(snap.workspaces_urgent, vec![2]);
    assert_eq!(snap.screen_focused.as_deref(), Some("eDP-1"));
    assert_eq!(snap.screens.len(), 1);
    let screen = &snap.screens[0].screen;
    assert_eq!(screen.workspace.as_deref(), Some("2"));
    assert_eq!(screen.name.as_deref(), Some("shell - tmux"));
    assert_eq!(screen.shell, Some(ShellKind::XdgShell));
    assert_eq!(screen.app_id.as_deref(), Some("org.terminal"));
}

#[test]
fn bar_snapshot_without_keyboard_defaults() {
    let snap = compute_bar_state(&vec![], &vec![], &vec![], &leaf(1, NodeKind::Root));
    assert!(snap.layout_name.is_none());
    assert_eq!(snap.layout_short_name, "xx");
    assert!(snap.screens.is_empty());
}

#[test]
fn opener_builds_close_then_opens() {
    let cmds = open_bar_commands(&vec!["eDP-1".to_string(), "DP-2".to_string()]);
    assert_eq!(cmds.len(), 3);
    assert_eq!(cmds[0], vec!["eww", "--restart", "close-all"]);
    assert_eq!(
        cmds[1],
        vec![
            "eww",
            "open",
            "bar",
            "--screen",
            "0",
            "--id",
            "bar-eDP-1",
            "--arg",
            "monitor=eDP-1"
        ]
    );
    assert_eq!(cmds[2][4], "1");
    assert_eq!(cmds[2][6], "bar-DP-2");
}

#[test]
fn decimal_rendering() {
    assert_eq!(u64_to_dec(0), "0");
    assert_eq!(u64_to_dec(10), "10");
    assert_eq!(u64_to_dec(65536), "65536");
    assert_eq!(u64_to_dec(u64::MAX), "18446744073709551615");
}

#[test]
fn forwarded_events_pick_their_alert_sound() {
    assert_eq!(
        sound_for_event(&AppInput::Pulse(PulseKind::Sink), false),
        Some("audio-volume-change")
    );
    assert_eq!(
        sound_for_event(&AppInput::Pulse(PulseKind::Source), true),
        Some("audio-volume-change")
    );
    assert_eq!(sound_for_event(&AppInput::PowerChanged, true), Some("power-plug"));
    assert_eq!(sound_for_event(&AppInput::PowerChanged, false), Some("power-unplug"));
    assert_eq!(sound_for_event(&AppInput::Time, false), None);
    assert_eq!(sound_for_event(&AppInput::Workspaces, true), None);
}

#[test]
fn initial_events_refresh_every_slice() {
    let events = swaynyaad::event::initial_events();
    assert_eq!(events.len(), 8);
    assert!(matches!(events[0], AppInput::Layout));
    assert!(matches!(events[1], AppInput::LayoutList));
    assert!(matches!(events[2], AppInput::Time));
    assert!(matches!(events[3], AppInput::Workspaces));
    assert!(matches!(events[4], AppInput::Sysinfo));
    assert!(matches!(events[5], AppInput::Pulse(PulseKind::Source)));
    assert!(matches!(events[6], AppInput::Pulse(PulseKind::Sink)));
    assert!(matches!(events[7], AppInput::Power));
}

#[test]
fn timer_tick_notifications() {
    let mut state = swaynyaad::state::AppState::default();
    let notes = state.update_time(1700000000);
    assert_eq!(notes.len(), 1);
    assert!(matches!(notes[0], AppInput::Time));
    assert_eq!(state.time, 1700000000);

    let notes = state.update_sysinfo(98304, 750_000);
    assert_eq!(notes.len(), 1);
    assert!(matches!(notes[0], AppInput::Sysinfo));
    // 98304 in the kernel's fixed point is a load of one and a half.
    assert_eq!(state.load_average, 98304);
    assert_eq!(state.memory_usage, 750_000);
}
