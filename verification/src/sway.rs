//! The compositor listener's computations: plain models of what the
//! control socket reports, the projections the re-fetches run on them,
//! and the state updates and notifications each re-fetch owes.

use vstd::prelude::*;
use crate::event::AppInput;
use crate::state::{AppState, Screen, ScreenEntry, XkbLayout};
use crate::text::{lower_char, lower_char_spec, opt_str_eq, push_char, str_eq, views_of};
use crate::tree::{
    TreeNode, find_focused, find_focused_node, find_ws, find_ws_node, node_record,
    node_record_matches,
};

verus! {

/// One input device, as the compositor reports it: its type and, for
/// keyboards, the active layout and the configured layout list.
#[derive(Debug)]
pub struct InputDevice {
    pub input_type: String,
    pub xkb_active_layout_name: Option<String>,
    pub xkb_layout_names: Vec<String>,
    pub xkb_active_layout_index: Option<i32>,
}

/// One workspace, as the compositor reports it: its number and whether a
/// view on it demands attention.
#[derive(Debug, Clone, Copy, PartialEq, Eq, Structural)]
pub struct WorkspaceInfo {
    pub num: i32,
    pub urgent: bool,
}

/// One output, as the compositor reports it: its name, whether it is
/// focused, and the workspace it currently shows.
#[derive(Debug)]
pub struct OutputInfo {
    pub name: String,
    pub focused: bool,
    pub current_workspace: Option<String>,
}

/// The layout-name list of the first keyboard among the input devices,
/// if one exists, by contents.
pub open spec fn keyboard_layouts(inputs: Seq<InputDevice>) -> Option<Seq<Seq<char>>>
    decreases inputs.len(),
{
    if inputs.len() == 0 {
        Option::None
    } else if inputs[0].input_type@ == "keyboard"@ {
        Option::Some(views_of(inputs[0].xkb_layout_names@))
    } else {
        keyboard_layouts(inputs.skip(1))
    }
}

/// The first active-layout index any input device reports, or zero.
pub open spec fn active_layout_index(inputs: Seq<InputDevice>) -> int
    decreases inputs.len(),
{
    if inputs.len() == 0 {
        0
    } else {
        match inputs[0].xkb_active_layout_index {
            Option::Some(i) => i as int,
            Option::None => active_layout_index(inputs.skip(1)),
        }
    }
}

/// The first active-layout name any input device reports, by contents.
pub open spec fn active_layout_name(inputs: Seq<InputDevice>) -> Option<Seq<char>>
    decreases inputs.len(),
{
    if inputs.len() == 0 {
        Option::None
    } else {
        match inputs[0].xkb_active_layout_name {
            Option::Some(n) => Option::Some(n@),
            Option::None => active_layout_name(inputs.skip(1)),
        }
    }
}

/// Copy a list of strings.
pub fn clone_strings(names: &Vec<String>) -> (r: Vec<String>)
    ensures
        views_of(r@) == views_of(names@),
{
    let m: usize = names.len();
    let mut copy: Vec<String> = Vec::new();
    let mut j: usize = 0;
    while j < m
        invariant
            0 <= j <= m,
            m == names@.len(),
            copy@.len() == j,
            forall|k: int| 0 <= k < j ==> #[trigger] copy@[k]@ == names@[k]@,
        decreases m - j,
    {
        copy.push(names[j].clone());
        j = j + 1;
    }
    proof {
        assert(views_of(copy@) =~= views_of(names@));
    }
    copy
}

/// Extract the keyboard's layout-name list. A machine without a keyboard
/// yields nothing; the listener treats that as a fatal startup error.
pub fn find_keyboard_layouts(inputs: &Vec<InputDevice>) -> (r: Option<Vec<String>>)
    ensures
        match (r, keyboard_layouts(inputs@)) {
            (Option::Some(v), Option::Some(s)) => views_of(v@) == s,
            (Option::None, Option::None) => true,
            _ => false,
        },
{
    let n: usize = inputs.len();
    let mut i: usize = 0;
    proof {
        assert(inputs@.skip(0) =~= inputs@);
    }
    while i < n
        invariant
            0 <= i <= n,
            n == inputs@.len(),
            keyboard_layouts(inputs@) == keyboard_layouts(inputs@.skip(i as int)),
        decreases n - i,
    {
        proof {
            assert(inputs@.skip(i as int)[0] == inputs@[i as int]);
            assert(inputs@.skip(i as int).skip(1) =~= inputs@.skip(i + 1));
        }
        if str_eq(inputs[i].input_type.as_str(), "keyboard") {
            return Some(clone_strings(&inputs[i].xkb_layout_names));
        }
        i = i + 1;
    }
    proof {
        assert(inputs@.skip(n as int) =~= Seq::<InputDevice>::empty());
    }
    None
}

/// Find the first active-layout index any input device reports, or zero.
pub fn find_active_layout_index(inputs: &Vec<InputDevice>) -> (r: i32)
    ensures
        r as int == active_layout_index(inputs@),
{
    let n: usize = inputs.len();
    let mut i: usize = 0;
    proof {
        assert(inputs@.skip(0) =~= inputs@);
    }
    while i < n
        invariant
            0 <= i <= n,
            n == inputs@.len(),
            active_layout_index(inputs@) == active_layout_index(inputs@.skip(i as int)),
        decreases n - i,
    {
        proof {
            assert(inputs@.skip(i as int)[0] == inputs@[i as int]);
            assert(inputs@.skip(i as int).skip(1) =~= inputs@.skip(i + 1));
        }
        match inputs[i].xkb_active_layout_index {
            Some(idx) => {
                return idx;
            },
            None => {},
        }
        i = i + 1;
    }
    proof {
        assert(inputs@.skip(n as int) =~= Seq::<InputDevice>::empty());
    }
    0
}

/// Find the first active-layout name any input device reports.
pub fn find_active_layout_name(inputs: &Vec<InputDevice>) -> (r: Option<String>)
    ensures
        match (r, active_layout_name(inputs@)) {
            (Option::Some(v), Option::Some(s)) => v@ == s,
            (Option::None, Option::None) => true,
            _ => false,
        },
{
    let n: usize = inputs.len();
    let mut i: usize = 0;
    proof {
        assert(inputs@.skip(0) =~= inputs@);
    }
    while i < n
        invariant
            0 <= i <= n,
            n == inputs@.len(),
            active_layout_name(inputs@) == active_layout_name(inputs@.skip(i as int)),
        decreases n - i,
    {
        proof {
            assert(inputs@.skip(i as int)[0] == inputs@[i as int]);
            assert(inputs@.skip(i as int).skip(1) =~= inputs@.skip(i + 1));
        }
        match &inputs[i].xkb_active_layout_name {
            Some(name) => {
                return Some(name.clone());
            },
            None => {},
        }
        i = i + 1;
    }
    proof {
        assert(inputs@.skip(n as int) =~= Seq::<InputDevice>::empty());
    }
    None
}

/// The two-letter short code of a layout name: its first two characters,
/// ASCII-lowercased; of a shorter name, what there is of them.
pub open spec fn short_of(s: Seq<char>) -> Seq<char> {
    if s.len() >= 2 {
        seq![lower_char_spec(s[0]), lower_char_spec(s[1])]
    } else if s.len() == 1 {
        seq![lower_char_spec(s[0])]
    } else {
        Seq::<char>::empty()
    }
}

/// The short code shown for an optional layout name: its first two
/// characters lowercased, or `xx` when no layout is active.
pub open spec fn short_code(name: Option<Seq<char>>) -> Seq<char> {
    match name {
        Option::Some(s) => short_of(s),
        Option::None => "xx"@,
    }
}

/// Derive the short layout code of an optional layout name.
pub fn short_layout_code(name: &Option<String>) -> (r: String)
    ensures
        r@ == short_code(match *name {
            Option::Some(s) => Option::Some(s@),
            Option::None => Option::None,
        }),
{
    match name {
        Option::Some(s) => {
            let len: usize = s.as_str().unicode_len();
            let mut code: String = String::new();
            if len >= 1 {
                push_char(&mut code, lower_char(s.as_str().get_char(0)));
            }
            if len >= 2 {
                push_char(&mut code, lower_char(s.as_str().get_char(1)));
            }
            proof {
                assert(code@ =~= short_of(s@));
            }
            code
        },
        Option::None => String::from_str("xx"),
    }
}

/// The layout record derived from a catalog and an active index: the
/// short code and full name of the indexed layout, or the placeholder
/// record when the index points outside the catalog.
pub open spec fn layout_record_matches(
    layouts: Seq<Seq<char>>,
    index: int,
    r: XkbLayout,
) -> bool {
    if 0 <= index < layouts.len() {
        r.name@ == short_of(layouts[index]) && r.description@ == layouts[index]
    } else {
        r.name@ == "xx"@ && r.description@ == Seq::<char>::empty()
    }
}

/// Build the layout record for a catalog and an active index.
pub fn layout_record(layouts: &Vec<String>, index: i32) -> (r: XkbLayout)
    ensures
        layout_record_matches(views_of(layouts@), index as int, r),
{
    if 0 <= index && (index as usize) < layouts.len() {
        let name: &String = &layouts[index as usize];
        XkbLayout {
            name: short_layout_code(&Some(name.clone())),
            description: name.clone(),
        }
    } else {
        XkbLayout { name: String::from_str("xx"), description: String::new() }
    }
}

/// Compare two string lists by contents.
pub fn string_lists_eq(a: &Vec<String>, b: &Vec<String>) -> (r: bool)
    ensures
        r == (views_of(a@) == views_of(b@)),
{
    if a.len() != b.len() {
        proof {
            assert(views_of(a@).len() != views_of(b@).len());
        }
        return false;
    }
    let n: usize = a.len();
    let mut i: usize = 0;
    while i < n
        invariant
            0 <= i <= n,
            n == a@.len() == b@.len(),
            forall|k: int| 0 <= k < i ==> #[trigger] a@[k]@ == b@[k]@,
        decreases n - i,
    {
        if !str_eq(a[i].as_str(), b[i].as_str()) {
            proof {
                assert(views_of(a@)[i as int] != views_of(b@)[i as int]);
            }
            return false;
        }
        i = i + 1;
    }
    proof {
        assert(views_of(a@) =~= views_of(b@));
    }
    true
}

/// One step of the compositor listener after an input event: store the
/// re-fetched layout catalog and the record of the active layout. The
/// catalog-changed notification is owed only when the catalog really
/// differs, because subscribers rebuild a menu for it; the plain
/// layout-changed notification is always owed.
pub fn update_layouts(
    state: &mut AppState,
    layouts: Vec<String>,
    index: i32,
) -> (notes: Vec<AppInput>)
    ensures
        views_of(final(state).layouts@) == views_of(layouts@),
        layout_record_matches(views_of(layouts@), index as int, final(state).layout),
        *final(state) == (AppState {
            layouts: final(state).layouts,
            layout: final(state).layout,
            ..*old(state)
        }),
        ({
            let catalog_changed = views_of(old(state).layouts@) != views_of(layouts@);
            if catalog_changed {
                notes@.len() == 2 && notes@[0] is LayoutList && notes@[1] is Layout
            } else {
                notes@.len() == 1 && notes@[0] is Layout
            }
        }),
{
    let mut notes: Vec<AppInput> = Vec::new();
    let record: XkbLayout = layout_record(&layouts, index);
    let catalog_changed: bool = !string_lists_eq(&state.layouts, &layouts);
    state.layouts = layouts;
    if catalog_changed {
        notes.push(AppInput::LayoutList);
    }
    state.layout = record;
    notes.push(AppInput::Layout);
    notes
}

/// A strictly increasing sequence: sorted, with no element twice.
pub open spec fn sorted_strict(s: Seq<i32>) -> bool {
    forall|i: int, j: int| 0 <= i < j < s.len() ==> s[i] < s[j]
}

/// Whether some reported workspace carries the given number.
pub open spec fn has_num(ws: Seq<WorkspaceInfo>, x: i32) -> bool {
    exists|i: int| 0 <= i < ws.len() && (#[trigger] ws[i]).num == x
}

/// Insert a number into a strictly sorted list, keeping it sorted and
/// ignoring a number already present.
fn insert_sorted(v: &mut Vec<i32>, x: i32)
    requires
        sorted_strict(old(v)@),
    ensures
        sorted_strict(final(v)@),
        forall|y: i32| final(v)@.contains(y) <==> (old(v)@.contains(y) || y == x),
{
    let n: usize = v.len();
    let mut j: usize = 0;
    while j < n && v[j] < x
        invariant
            0 <= j <= n,
            n == v@.len(),
            *v == *old(v),
            forall|k: int| 0 <= k < j ==> #[trigger] v@[k] < x,
        decreases n - j,
    {
        j = j + 1;
    }
    if j < n && v[j] == x {
        // Already present; a set keeps one copy.
        proof {
            assert(v@.contains(x)) by {
                assert(v@[j as int] == x);
            }
        }
        return;
    }
    proof {
        v@.insert_ensures(j as int, x);
    }
    v.insert(j, x);
    proof {
        let newv = v@;
        let oldv = old(v)@;
        assert forall|a: int, b: int| 0 <= a < b < newv.len() implies newv[a] < newv[b] by {
            if b < j {
                assert(newv[a] == oldv[a] && newv[b] == oldv[b]);
            } else if a > j {
                assert(newv[a] == oldv[a - 1] && newv[b] == oldv[b - 1]);
            } else if a == j && b > j {
                assert(newv[a] == x && newv[b] == oldv[b - 1]);
                assert(oldv[b - 1] >= x) by {
                    if j as int <= b - 1 < oldv.len() && oldv[b - 1] < x {
                        if (j as int) < n as int {
                            assert(oldv[j as int] >= x);
                            if b - 1 > j {
                                assert(oldv[j as int] < oldv[b - 1]);
                            }
                        }
                    }
                }
            } else if b == j {
                assert(newv[a] == oldv[a] && newv[b] == x);
                assert(oldv[a] < x);
            } else if a < j && b > j {
                assert(newv[a] == oldv[a] && newv[b] == oldv[b - 1]);
                if b - 1 == a {
                } else {
                    assert(oldv[a] < x);
                    assert(b - 1 >= j);
                    if b - 1 == j as int {
                        if (j as int) < n as int {
                            assert(oldv[b - 1] >= x);
                        }
                    } else {
                        assert(oldv[j as int] < oldv[b - 1]);
                    }
                }
            }
        }
        assert forall|y: i32| newv.contains(y) <==> (oldv.contains(y) || y == x) by {
            if newv.contains(y) {
                let k = choose|k: int| 0 <= k < newv.len() && newv[k] == y;
                if k < j {
                    assert(oldv[k] == y);
                    assert(oldv.contains(y));
                } else if k == j {
                } else {
                    assert(oldv[k - 1] == y);
                    assert(oldv.contains(y));
                }
            }
            if oldv.contains(y) {
                let k = choose|k: int| 0 <= k < oldv.len() && oldv[k] == y;
                if k < j {
                    assert(newv[k] == y);
                    assert(newv.contains(y));
                } else {
                    assert(newv[k + 1] == y);
                    assert(newv.contains(y));
                }
            }
            if y == x {
                assert(newv[j as int] == x);
                assert(newv.contains(y));
            }
        }
    }
}

/// The strictly sorted set of workspace numbers the compositor reports.
pub fn existing_workspaces(ws: &Vec<WorkspaceInfo>) -> (r: Vec<i32>)
    ensures
        sorted_strict(r@),
        forall|x: i32| r@.contains(x) <==> has_num(ws@, x),
{
    let n: usize = ws.len();
    let mut out: Vec<i32> = Vec::new();
    let mut i: usize = 0;
    while i < n
        invariant
            0 <= i <= n,
            n == ws@.len(),
            sorted_strict(out@),
            forall|x: i32| out@.contains(x) <==> has_num(ws@.take(i as int), x),
        decreases n - i,
    {
        let num: i32 = ws[i].num;
        insert_sorted(&mut out, num);
        proof {
            let t = ws@.take(i + 1);
            assert(t.drop_last() =~= ws@.take(i as int));
            assert forall|x: i32| has_num(t, x)
                <==> (has_num(ws@.take(i as int), x) || x == num) by {
                if has_num(t, x) {
                    let k = choose|k: int| 0 <= k < t.len() && t[k].num == x;
                    if k < i {
                        assert(ws@.take(i as int)[k].num == x);
                    } else {
                        assert(t[k] == ws@[i as int]);
                    }
                }
                if has_num(ws@.take(i as int), x) {
                    let k = choose|k: int|
                        0 <= k < ws@.take(i as int).len() && ws@.take(i as int)[k].num == x;
                    assert(t[k].num == x);
                }
                if x == num {
                    assert(t[i as int].num == x);
                }
            }
        }
        i = i + 1;
    }
    proof {
        assert(ws@.take(n as int) =~= ws@);
    }
    out
}

/// The numbers of the urgent workspaces, in reported order.
pub open spec fn urgent_nums(ws: Seq<WorkspaceInfo>) -> Seq<i32>
    decreases ws.len(),
{
    if ws.len() == 0 {
        Seq::<i32>::empty()
    } else {
        urgent_nums(ws.drop_last()) + if ws.last().urgent {
            seq![ws.last().num]
        } else {
            Seq::<i32>::empty()
        }
    }
}

/// Collect the numbers of the urgent workspaces, in reported order.
pub fn urgent_workspaces(ws: &Vec<WorkspaceInfo>) -> (r: Vec<i32>)
    ensures
        r@ == urgent_nums(ws@),
{
    let n: usize = ws.len();
    let mut out: Vec<i32> = Vec::new();
    let mut i: usize = 0;
    proof {
        assert(ws@.take(0) =~= Seq::<WorkspaceInfo>::empty());
    }
    while i < n
        invariant
            0 <= i <= n,
            n == ws@.len(),
            out@ == urgent_nums(ws@.take(i as int)),
        decreases n - i,
    {
        proof {
            assert(ws@.take(i + 1).drop_last() =~= ws@.take(i as int));
            assert(ws@.take(i + 1).last() == ws@[i as int]);
        }
        if ws[i].urgent {
            out.push(ws[i].num);
            proof {
                assert(out@ =~= urgent_nums(ws@.take(i + 1)));
            }
        } else {
            proof {
                assert(out@ =~= urgent_nums(ws@.take(i + 1)));
            }
        }
        i = i + 1;
    }
    proof {
        assert(ws@.take(n as int) =~= ws@);
    }
    out
}

/// The name of the first output reported focused, by contents.
pub open spec fn focused_output(outputs: Seq<OutputInfo>) -> Option<Seq<char>>
    decreases outputs.len(),
{
    if outputs.len() == 0 {
        Option::None
    } else if outputs[0].focused {
        Option::Some(outputs[0].name@)
    } else {
        focused_output(outputs.skip(1))
    }
}

/// Find the name of the first output reported focused.
pub fn find_focused_output(outputs: &Vec<OutputInfo>) -> (r: Option<String>)
    ensures
        match (r, focused_output(outputs@)) {
            (Option::Some(v), Option::Some(s)) => v@ == s,
            (Option::None, Option::None) => true,
            _ => false,
        },
{
    let n: usize = outputs.len();
    let mut i: usize = 0;
    proof {
        assert(outputs@.skip(0) =~= outputs@);
    }
    while i < n
        invariant
            0 <= i <= n,
            n == outputs@.len(),
            focused_output(outputs@) == focused_output(outputs@.skip(i as int)),
        decreases n - i,
    {
        proof {
            assert(outputs@.skip(i as int)[0] == outputs@[i as int]);
            assert(outputs@.skip(i as int).skip(1) =~= outputs@.skip(i + 1));
        }
        if outputs[i].focused {
            return Some(outputs[i].name.clone());
        }
        i = i + 1;
    }
    proof {
        assert(outputs@.skip(n as int) =~= Seq::<OutputInfo>::empty());
    }
    None
}

/// The names of the reported outputs, in order, by contents.
pub fn output_names(outputs: &Vec<OutputInfo>) -> (r: Vec<String>)
    ensures
        r@.len() == outputs@.len(),
        forall|k: int| 0 <= k < outputs@.len() ==> #[trigger] r@[k]@ == outputs@[k].name@,
{
    let n: usize = outputs.len();
    let mut out: Vec<String> = Vec::new();
    let mut i: usize = 0;
    while i < n
        invariant
            0 <= i <= n,
            n == outputs@.len(),
            out@.len() == i,
            forall|k: int| 0 <= k < i ==> #[trigger] out@[k]@ == outputs@[k].name@,
        decreases n - i,
    {
        out.push(outputs[i].name.clone());
        i = i + 1;
    }
    out
}

/// The focused leaf shown on an output: its current workspace looked up
/// in the tree, then the focus chain walked down from there.
pub open spec fn focused_of(o: OutputInfo, tree: TreeNode) -> Option<TreeNode> {
    match find_ws(tree, o.current_workspace) {
        Option::Some(w) => find_focused(w),
        Option::None => Option::None,
    }
}

/// What one output's screen record holds: the output's current workspace
/// and, when the focus chain reaches a leaf there, its window record.
pub open spec fn screen_matches(o: OutputInfo, tree: TreeNode, s: Screen) -> bool {
    &&& opt_str_eq(s.workspace, o.current_workspace)
    &&& match (focused_of(o, tree), s.focused) {
        (Option::Some(n), Option::Some(r)) => node_record_matches(n, r),
        (Option::None, Option::None) => true,
        _ => false,
    }
}

/// Build the whole screen table: one entry per reported output, in
/// order, each carrying that output's workspace and focused window.
pub fn compute_screens(outputs: &Vec<OutputInfo>, tree: &TreeNode) -> (r: Vec<ScreenEntry>)
    ensures
        r@.len() == outputs@.len(),
        forall|k: int| 0 <= k < outputs@.len() ==> {
            &&& (#[trigger] r@[k]).output@ == outputs@[k].name@
            &&& screen_matches(outputs@[k], *tree, r@[k].screen)
        },
{
    let n: usize = outputs.len();
    let mut out: Vec<ScreenEntry> = Vec::new();
    let mut i: usize = 0;
    while i < n
        invariant
            0 <= i <= n,
            n == outputs@.len(),
            out@.len() == i,
            forall|k: int| 0 <= k < i ==> {
                &&& (#[trigger] out@[k]).output@ == outputs@[k].name@
                &&& screen_matches(outputs@[k], *tree, out@[k].screen)
            },
        decreases n - i,
    {
        let o: &OutputInfo = &outputs[i];
        let ws: Option<&TreeNode> = find_ws_node(tree, &o.current_workspace);
        let focused: Option<&TreeNode> = match ws {
            Some(w) => find_focused_node(w),
            None => None,
        };
        let record = match focused {
            Some(f) => Some(node_record(f)),
            None => None,
        };
        let workspace: Option<String> = match &o.current_workspace {
            Some(w) => Some(w.clone()),
            None => None,
        };
        out.push(ScreenEntry {
            output: o.name.clone(),
            screen: Screen { workspace, focused: record },
        });
        i = i + 1;
    }
    out
}

/// One step of the compositor listener after a window or workspace
/// event: replace the workspace lists, the focused output and the whole
/// screen table atomically, and owe one workspaces notification.
pub fn update_workspaces(
    state: &mut AppState,
    workspaces: &Vec<WorkspaceInfo>,
    outputs: &Vec<OutputInfo>,
    tree: &TreeNode,
) -> (notes: Vec<AppInput>)
    ensures
        sorted_strict(final(state).workspaces_existing@),
        forall|x: i32| final(state).workspaces_existing@.contains(x) <==> has_num(workspaces@, x),
        final(state).workspaces_urgent@ == urgent_nums(workspaces@),
        match (final(state).screen_focused, focused_output(outputs@)) {
            (Option::Some(v), Option::Some(s)) => v@ == s,
            (Option::None, Option::None) => true,
            _ => false,
        },
        final(state).screens@.len() == outputs@.len(),
        forall|k: int| 0 <= k < outputs@.len() ==> {
            &&& (#[trigger] final(state).screens@[k]).output@ == outputs@[k].name@
            &&& screen_matches(outputs@[k], *tree, final(state).screens@[k].screen)
        },
        *final(state) == (AppState {
            workspaces_existing: final(state).workspaces_existing,
            workspaces_urgent: final(state).workspaces_urgent,
            screen_focused: final(state).screen_focused,
            screens: final(state).screens,
            ..*old(state)
        }),
        notes@.len() == 1 && notes@[0] is Workspaces,
{
    state.workspaces_existing = existing_workspaces(workspaces);
    state.workspaces_urgent = urgent_workspaces(workspaces);
    state.screen_focused = find_focused_output(outputs);
    state.screens = compute_screens(outputs, tree);

    let mut notes: Vec<AppInput> = Vec::new();
    notes.push(AppInput::Workspaces);
    notes
}

/// The event classes the listener subscribes to, plus everything else.
#[derive(Debug, Clone, Copy, PartialEq, Eq, Structural)]
pub enum SwayEventKind {
    Input,
    Output,
    Window,
    Workspace,
    Other,
}

/// Which re-fetch an event demands. An output event also implies the
/// workspace re-fetch afterwards, since topology changes can change every
/// output's screen content.
#[derive(Debug, Clone, Copy, PartialEq, Eq, Structural)]
pub enum FetchPlan {
    Inputs,
    OutputsThenWorkspaces,
    Workspaces,
}

/// An event class outside the subscribed set breaks the protocol
/// contract and is fatal.
#[derive(Debug, Clone, Copy, PartialEq, Eq, Structural)]
pub struct UnexpectedEvent;

/// Decide which re-fetch a received event demands; an event class
/// outside the subscribed set is a protocol violation.
pub fn plan_for_event(kind: SwayEventKind) -> (r: Result<FetchPlan, UnexpectedEvent>)
    ensures
        r == match kind {
            SwayEventKind::Input => Result::<FetchPlan, UnexpectedEvent>::Ok(FetchPlan::Inputs),
            SwayEventKind::Output => Result::<FetchPlan, UnexpectedEvent>::Ok(
                FetchPlan::OutputsThenWorkspaces,
            ),
            SwayEventKind::Window | SwayEventKind::Workspace => Result::<
                FetchPlan,
                UnexpectedEvent,
            >::Ok(FetchPlan::Workspaces),
            SwayEventKind::Other => Result::<FetchPlan, UnexpectedEvent>::Err(UnexpectedEvent),
        },
{
    match kind {
        SwayEventKind::Input => Ok(FetchPlan::Inputs),
        SwayEventKind::Output => Ok(FetchPlan::OutputsThenWorkspaces),
        SwayEventKind::Window | SwayEventKind::Workspace => Ok(FetchPlan::Workspaces),
        SwayEventKind::Other => Err(UnexpectedEvent),
    }
}

} // verus!
