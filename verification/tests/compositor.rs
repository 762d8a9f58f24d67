use swaynyaad::event::AppInput;
use swaynyaad::state::AppState;
use swaynyaad::sway::{
    existing_workspaces, find_keyboard_layouts, short_layout_code, update_layouts,
    update_workspaces, plan_for_event, FetchPlan, InputDevice, OutputInfo, SwayEventKind,
    WorkspaceInfo,
};
use swaynyaad::tree::{
    find_focused_node, FloatingKind, NodeKind, ShellKind, TreeNode, WindowProperties,
};

fn leaf(id: i64, kind: NodeKind) -> TreeNode {
    TreeNode {
        id,
        node_type: kind,
        name: None,
        focus: vec![],
        nodes: vec![],
        floating_nodes: vec![],
        floating: None,
        app_id: None,
        shell: None,
        window_properties: None,
    }
}

#[test]
fn short_layout_code_lowercases_first_two_chars() {
    assert_eq!(short_layout_code(&Some("English (US)".to_string())), "en");
    assert_eq!(short_layout_code(&Some("Russian".to_string())), "ru");
}

#[test]
fn short_layout_code_absent_is_xx() {
    assert_eq!(short_layout_code(&None), "xx");
}

#[test]
fn existing_workspaces_are_sorted_and_deduplicated() {
    let ws = vec![
        WorkspaceInfo { num: 3, urgent: false },
        WorkspaceInfo { num: 1, urgent: true },
        WorkspaceInfo { num: 3, urgent: false },
        WorkspaceInfo { num: 2, urgent: false },
    ];
    assert_eq!(existing_workspaces(&ws), vec![1, 2, 3]);
}

#[test]
fn layout_catalog_change_triggers_menu_rebuild() {
    let mut state = AppState::default();
    let catalog = vec!["English (US)".to_string(), "Russian".to_string()];

    // First fetch: the catalog differs from the empty default.
    let notes = update_layouts(&mut state, catalog.clone(), 0);
    assert_eq!(notes.len(), 2);
    assert!(matches!(notes[0], AppInput::LayoutList));
    assert!(matches!(notes[1], AppInput::Layout));
    assert_eq!(state.layout.name, "en");
    assert_eq!(state.layout.description, "English (US)");

    // Same catalog, other active layout: only the label update.
    let notes = update_layouts(&mut state, catalog, 1);
    assert_eq!(notes.len(), 1);
    assert!(matches!(notes[0], AppInput::Layout));
    assert_eq!(state.layout.name, "ru");
}

#[test]
fn layout_index_outside_catalog_is_placeholder() {
    let mut state = AppState::default();
    update_layouts(&mut state, vec!["German".to_string()], 5);
    assert_eq!(state.layout.name, "xx");
    assert_eq!(state.layout.description, "");
}

#[test]
fn keyboard_layouts_come_from_the_first_keyboard() {
    let inputs = vec![
        InputDevice {
            input_type: "pointer".to_string(),
            xkb_active_layout_name: None,
            xkb_layout_names: vec![],
            xkb_active_layout_index: None,
        },
        InputDevice {
            input_type: "keyboard".to_string(),
            xkb_active_layout_name: Some("English (US)".to_string()),
            xkb_layout_names: vec!["English (US)".to_string(), "Russian".to_string()],
            xkb_active_layout_index: Some(0),
        },
    ];
    let layouts = find_keyboard_layouts(&inputs).unwrap();
    assert_eq!(layouts, vec!["English (US)", "Russian"]);

    let keyboardless = vec![InputDevice {
        input_type: "pointer".to_string(),
        xkb_active_layout_name: None,
        xkb_layout_names: vec![],
        xkb_active_layout_index: None,
    }];
    assert!(find_keyboard_layouts(&keyboardless).is_none());
}

#[test]
fn workspace_fetch_fills_screens_and_focus() {
    // One output showing workspace "2"; its tree has a focused xterm
    // leaf carrying only a legacy window class.
    let mut xterm = leaf(10, NodeKind::Con);
    xterm.shell = Some(ShellKind::Xwayland);
    xterm.window_properties = Some(WindowProperties { class: Some("XTerm".to_string()) });

    let mut workspace = leaf(5, NodeKind::Workspace);
    workspace.name = Some("2".to_string());
    workspace.focus = vec![10];
    workspace.nodes = vec![xterm];

    let mut output_node = leaf(2, NodeKind::Output);
    output_node.nodes = vec![workspace];
    let mut root = leaf(1, NodeKind::Root);
    root.nodes = vec![output_node];

    let outputs = vec![OutputInfo {
        name: "eDP-1".to_string(),
        focused: true,
        current_workspace: Some("2".to_string()),
    }];
    let workspaces = vec![
        WorkspaceInfo { num: 2, urgent: false },
        WorkspaceInfo { num: 1, urgent: true },
    ];

    let mut state = AppState::default();
    let notes = update_workspaces(&mut state, &workspaces, &outputs, &root);
    assert_eq!(notes.len(), 1);
    assert!(matches!(notes[0], AppInput::Workspaces));

    assert_eq!(state.workspaces_existing, vec![1, 2]);
    assert_eq!(state.workspaces_urgent, vec![1]);
    assert_eq!(state.screen_focused.as_deref(), Some("eDP-1"));

    assert_eq!(state.screens.len(), 1);
    let entry = &state.screens[0];
    assert_eq!(entry.output, "eDP-1");
    assert_eq!(entry.screen.workspace.as_deref(), Some("2"));
    let focused = entry.screen.focused.as_ref().unwrap();
    assert_eq!(focused.shell, "\"xwayland\"");
    assert_eq!(focused.app_id.as_deref(), Some("XTerm [X11]"));
    assert!(!focused.floating);
}

#[test]
fn focus_chain_prefers_tiled_then_floating() {
    // The focus head points at a floating container.
    let mut float = leaf(20, NodeKind::FloatingCon);
    float.floating = Some(FloatingKind::UserOn);
    float.app_id = Some("org.app".to_string());

    let mut workspace = leaf(5, NodeKind::Workspace);
    workspace.name = Some("1".to_string());
    workspace.focus = vec![20];
    workspace.floating_nodes = vec![float];

    let found = find_focused_node(&workspace).unwrap();
    assert_eq!(found.id, 20);
    assert_eq!(found.app_id.as_deref(), Some("org.app"));
}

#[test]
fn focus_chain_dead_end_yields_no_window() {
    // The focus head names a child that does not exist.
    let mut workspace = leaf(5, NodeKind::Workspace);
    workspace.name = Some("1".to_string());
    workspace.focus = vec![99];
    assert!(find_focused_node(&workspace).is_none());

    let outputs = vec![OutputInfo {
        name: "eDP-1".to_string(),
        focused: false,
        current_workspace: Some("1".to_string()),
    }];
    let mut root = leaf(1, NodeKind::Root);
    root.nodes = vec![workspace];
    let mut state = AppState::default();
    update_workspaces(&mut state, &vec![], &outputs, &root);
    assert!(state.screens[0].screen.focused.is_none());
    assert!(state.screen_focused.is_none());
}

#[test]
fn event_classes_map_to_fetch_plans() {
    assert_eq!(plan_for_event(SwayEventKind::Input), Ok(FetchPlan::Inputs));
    assert_eq!(
        plan_for_event(SwayEventKind::Output),
        Ok(FetchPlan::OutputsThenWorkspaces)
    );
    assert_eq!(plan_for_event(SwayEventKind::Window), Ok(FetchPlan::Workspaces));
    assert_eq!(plan_for_event(SwayEventKind::Workspace), Ok(FetchPlan::Workspaces));
    // An event class outside the subscribed set is a protocol violation.
    assert!(plan_for_event(SwayEventKind::Other).is_err());
}
