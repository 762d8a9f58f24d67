//! The one-shot state feed: a serializable snapshot of layout,
//! workspace and screen state, recomputed in full after every relevant
//! compositor event and handed to the surrounding process to publish.

use vstd::prelude::*;
use crate::sway::{
    InputDevice, OutputInfo, WorkspaceInfo, active_layout_name, existing_workspaces,
    find_active_layout_name, find_focused_output, focused_of, focused_output, has_num,
    short_code, short_layout_code, sorted_strict, urgent_nums, urgent_workspaces,
};
use crate::text::opt_str_eq;
use crate::tree::{ShellKind, TreeNode, app_id_of, find_focused_node, find_ws_node};

verus! {

/// What one output shows, in the feed's shape: the visible workspace and
/// the focused window's title, shell and application identifier.
#[derive(Debug)]
pub struct BarScreen {
    pub workspace: Option<String>,
    pub name: Option<String>,
    pub shell: Option<ShellKind>,
    pub app_id: Option<String>,
}

/// One output's entry in the feed's screen table.
#[derive(Debug)]
pub struct BarScreenEntry {
    pub output: String,
    pub screen: BarScreen,
}

/// The full snapshot the feed publishes after every event.
#[derive(Debug)]
pub struct BarState {
    pub layout_name: Option<String>,
    pub layout_short_name: String,
    pub workspaces_existing: Vec<i32>,
    pub workspaces_urgent: Vec<i32>,
    pub screen_focused: Option<String>,
    pub screens: Vec<BarScreenEntry>,
}

/// What one output's feed record holds: the output's workspace and, when
/// the focus chain reaches a leaf there, its title, shell and
/// application identifier; nothing otherwise.
pub open spec fn bar_screen_matches(o: OutputInfo, tree: TreeNode, s: BarScreen) -> bool {
    &&& opt_str_eq(s.workspace, o.current_workspace)
    &&& match focused_of(o, tree) {
        Option::Some(n) => {
            &&& opt_str_eq(s.name, n.name)
            &&& s.shell == n.shell
            &&& match (app_id_of(n), s.app_id) {
                (Option::Some(a), Option::Some(b)) => b@ == a,
                (Option::None, Option::None) => true,
                _ => false,
            }
        },
        Option::None => s.name is None && s.shell is None && s.app_id is None,
    }
}

/// Build the feed's screen table: one entry per reported output, in
/// order.
pub fn compute_bar_screens(outputs: &Vec<OutputInfo>, tree: &TreeNode) -> (r: Vec<
    BarScreenEntry,
>)
    ensures
        r@.len() == outputs@.len(),
        forall|k: int| 0 <= k < outputs@.len() ==> {
            &&& (#[trigger] r@[k]).output@ == outputs@[k].name@
            &&& bar_screen_matches(outputs@[k], *tree, r@[k].screen)
        },
{
    let n: usize = outputs.len();
    let mut out: Vec<BarScreenEntry> = Vec::new();
    let mut i: usize = 0;
    while i < n
        invariant
            0 <= i <= n,
            n == outputs@.len(),
            out@.len() == i,
            forall|k: int| 0 <= k < i ==> {
                &&& (#[trigger] out@[k]).output@ == outputs@[k].name@
                &&& bar_screen_matches(outputs@[k], *tree, out@[k].screen)
            },
        decreases n - i,
    {
        let o: &OutputInfo = &outputs[i];
        let ws: Option<&TreeNode> = find_ws_node(tree, &o.current_workspace);
        let focused: Option<&TreeNode> = match ws {
            Some(w) => find_focused_node(w),
            None => None,
        };
        let screen: BarScreen = match focused {
            Some(f) => BarScreen {
                workspace: match &o.current_workspace {
                    Some(w) => Some(w.clone()),
                    None => None,
                },
                name: match &f.name {
                    Some(t) => Some(t.clone()),
                    None => None,
                },
                shell: f.shell,
                app_id: match &f.app_id {
                    Some(s) => Some(s.clone()),
                    None => match &f.window_properties {
                        Some(wp) => match &wp.class {
                            Some(c) => Some(c.clone().concat(" [X11]")),
                            None => None,
                        },
                        None => None,
                    },
                },
            },
            None => BarScreen {
                workspace: match &o.current_workspace {
                    Some(w) => Some(w.clone()),
                    None => None,
                },
                name: None,
                shell: None,
                app_id: None,
            },
        };
        out.push(BarScreenEntry { output: o.name.clone(), screen });
        i = i + 1;
    }
    out
}

/// Build the full feed snapshot from one round of re-queries: the first
/// reported active layout and its short code, the workspace sets, the
/// focused output and the screen table.
pub fn compute_bar_state(
    inputs: &Vec<InputDevice>,
    workspaces: &Vec<WorkspaceInfo>,
    outputs: &Vec<OutputInfo>,
    tree: &TreeNode,
) -> (r: BarState)
    ensures
        match (r.layout_name, active_layout_name(inputs@)) {
            (Option::Some(v), Option::Some(s)) => v@ == s,
            (Option::None, Option::None) => true,
            _ => false,
        },
        r.layout_short_name@ == short_code(active_layout_name(inputs@)),
        sorted_strict(r.workspaces_existing@),
        forall|x: i32| r.workspaces_existing@.contains(x) <==> has_num(workspaces@, x),
        r.workspaces_urgent@ == urgent_nums(workspaces@),
        match (r.screen_focused, focused_output(outputs@)) {
            (Option::Some(v), Option::Some(s)) => v@ == s,
            (Option::None, Option::None) => true,
            _ => false,
        },
        r.screens@.len() == outputs@.len(),
        forall|k: int| 0 <= k < outputs@.len() ==> {
            &&& (#[trigger] r.screens@[k]).output@ == outputs@[k].name@
            &&& bar_screen_matches(outputs@[k], *tree, r.screens@[k].screen)
        },
{
    let layout_name: Option<String> = find_active_layout_name(inputs);
    let layout_short_name: String = short_layout_code(&layout_name);

    BarState {
        layout_short_name,
        layout_name,
        workspaces_existing: existing_workspaces(workspaces),
        workspaces_urgent: urgent_workspaces(workspaces),
        screen_focused: find_focused_output(outputs),
        screens: compute_bar_screens(outputs, tree),
    }
}

} // verus!
