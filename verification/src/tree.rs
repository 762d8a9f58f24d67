//! A plain model of the compositor's layout tree, and the two searches
//! the workspace re-fetch runs on it: a pre-order search for a workspace
//! node, and a walk along the focus chain for the focused leaf.

use vstd::prelude::*;
use crate::state::Node;
use crate::text::opt_str_eq;

verus! {

/// What kind of container a tree node is.
#[derive(Debug, Clone, Copy, PartialEq, Eq, Structural)]
pub enum NodeKind {
    Root,
    Output,
    Workspace,
    Con,
    FloatingCon,
    Dockarea,
}

/// The floating state a node reports, when it reports one.
#[derive(Debug, Clone, Copy, PartialEq, Eq, Structural)]
pub enum FloatingKind {
    AutoOn,
    AutoOff,
    UserOn,
    UserOff,
}

/// The shell a window speaks, when known.
#[derive(Debug, Clone, Copy, PartialEq, Eq, Structural)]
pub enum ShellKind {
    XdgShell,
    Xwayland,
    Unknown,
}

/// Legacy-protocol window properties; only the class matters here.
#[derive(Debug)]
pub struct WindowProperties {
    pub class: Option<String>,
}

/// One node of the layout tree, holding exactly the fields the searches
/// and the focused-window record read.
#[derive(Debug)]
pub struct TreeNode {
    pub id: i64,
    pub node_type: NodeKind,
    pub name: Option<String>,
    pub focus: Vec<i64>,
    pub nodes: Vec<TreeNode>,
    pub floating_nodes: Vec<TreeNode>,
    pub floating: Option<FloatingKind>,
    pub app_id: Option<String>,
    pub shell: Option<ShellKind>,
    pub window_properties: Option<WindowProperties>,
}

/// Whether a node is the workspace with the given name.
pub open spec fn ws_matches(n: TreeNode, name: Option<String>) -> bool {
    n.node_type is Workspace && opt_str_eq(n.name, name)
}

/// The first node, in pre-order (a node first, then its tiled children in
/// order, then its floating children in order), that is the workspace
/// with the given name.
pub open spec fn find_ws(n: TreeNode, name: Option<String>) -> Option<TreeNode>
    decreases n,
{
    if ws_matches(n, name) {
        Option::Some(n)
    } else {
        let in_nodes = find_ws_list(n.nodes@, name);
        if in_nodes is Some {
            in_nodes
        } else {
            find_ws_list(n.floating_nodes@, name)
        }
    }
}

/// The first workspace with the given name found in a forest, searching
/// each tree fully before the next.
pub open spec fn find_ws_list(ns: Seq<TreeNode>, name: Option<String>) -> Option<TreeNode>
    decreases ns,
{
    if ns.len() == 0 {
        Option::None
    } else {
        let first = find_ws(ns[0], name);
        if first is Some {
            first
        } else {
            find_ws_list(ns.skip(1), name)
        }
    }
}

/// Whether a node is a leaf container: an ordinary or floating container
/// with no tiled children.
pub open spec fn leaf_matches(n: TreeNode) -> bool {
    (n.node_type is FloatingCon || n.node_type is Con) && n.nodes@.len() == 0
}

/// The index of the first node in `ns` with the given id, or minus one.
pub open spec fn child_idx(ns: Seq<TreeNode>, id: i64) -> int
    decreases ns,
{
    if ns.len() == 0 {
        -1
    } else if ns[0].id == id {
        0
    } else {
        let rest = child_idx(ns.skip(1), id);
        if rest < 0 {
            -1
        } else {
            rest + 1
        }
    }
}

proof fn lemma_child_idx(ns: Seq<TreeNode>, id: i64)
    ensures
        child_idx(ns, id) < 0 ==> forall|j: int| 0 <= j < ns.len() ==> (#[trigger] ns[j]).id != id,
        child_idx(ns, id) >= 0 ==> {
            let k = child_idx(ns, id);
            &&& 0 <= k < ns.len()
            &&& ns[k].id == id
            &&& forall|j: int| 0 <= j < k ==> (#[trigger] ns[j]).id != id
        },
    decreases ns,
{
    if ns.len() > 0 && ns[0].id != id {
        lemma_child_idx(ns.skip(1), id);
        let rest = child_idx(ns.skip(1), id);
        if rest < 0 {
            assert forall|j: int| 0 <= j < ns.len() implies (#[trigger] ns[j]).id != id by {
                if j >= 1 {
                    assert(ns.skip(1)[j - 1] == ns[j]);
                }
            }
        } else {
            let k = child_idx(ns, id);
            assert(k == rest + 1);
            assert(ns.skip(1)[rest] == ns[k]);
            assert forall|j: int| 0 <= j < k implies (#[trigger] ns[j]).id != id by {
                if j >= 1 {
                    assert(ns.skip(1)[j - 1] == ns[j]);
                }
            }
        }
    }
}

/// The focused descendant that is a leaf container, found by testing a
/// node and then following its focus chain: the child whose id heads the
/// focus list, looked up among the tiled children first and the floating
/// children second.
pub open spec fn find_focused(n: TreeNode) -> Option<TreeNode>
    decreases n,
{
    if leaf_matches(n) {
        Option::Some(n)
    } else if n.focus@.len() == 0 {
        Option::None
    } else {
        let head = n.focus@[0];
        let j = child_idx(n.nodes@, head);
        if 0 <= j < n.nodes@.len() {
            find_focused(n.nodes@[j])
        } else {
            let k = child_idx(n.floating_nodes@, head);
            if 0 <= k < n.floating_nodes@.len() {
                find_focused(n.floating_nodes@[k])
            } else {
                Option::None
            }
        }
    }
}

/// Search one tree for the workspace with the given name, in pre-order.
pub fn find_ws_node<'a>(n: &'a TreeNode, name: &Option<String>) -> (r: Option<&'a TreeNode>)
    ensures
        match r {
            Option::Some(x) => find_ws(*n, *name) == Option::Some(*x),
            Option::None => find_ws(*n, *name) is None,
        },
    decreases *n,
{
    let matches_here: bool = match (&n.node_type, &n.name, name) {
        (NodeKind::Workspace, Option::None, Option::None) => true,
        (NodeKind::Workspace, Option::Some(a), Option::Some(b)) => {
            crate::text::str_eq(a.as_str(), b.as_str())
        },
        _ => false,
    };
    proof {
        assert(matches_here == ws_matches(*n, *name));
    }
    if matches_here {
        return Some(n);
    }

    let mut i: usize = 0;
    let tiled: usize = n.nodes.len();
    proof {
        assert(n.nodes@.skip(0) =~= n.nodes@);
    }
    while i < tiled
        invariant
            0 <= i <= tiled,
            tiled == n.nodes@.len(),
            !ws_matches(*n, *name),
            find_ws_list(n.nodes@, *name) == find_ws_list(n.nodes@.skip(i as int), *name),
        decreases tiled - i,
    {
        proof {
            assert(n.nodes@.skip(i as int)[0] == n.nodes@[i as int]);
            assert(n.nodes@.skip(i as int).skip(1) =~= n.nodes@.skip(i + 1));
        }
        let sub: Option<&TreeNode> = find_ws_node(&n.nodes[i], name);
        if sub.is_some() {
            return sub;
        }
        i = i + 1;
    }

    let mut k: usize = 0;
    let floating: usize = n.floating_nodes.len();
    proof {
        assert(n.nodes@.skip(tiled as int) =~= Seq::<TreeNode>::empty());
        assert(n.floating_nodes@.skip(0) =~= n.floating_nodes@);
    }
    while k < floating
        invariant
            0 <= k <= floating,
            floating == n.floating_nodes@.len(),
            find_ws_list(n.nodes@, *name) is None,
            find_ws_list(n.floating_nodes@, *name)
                == find_ws_list(n.floating_nodes@.skip(k as int), *name),
            !ws_matches(*n, *name),
        decreases floating - k,
    {
        proof {
            assert(n.floating_nodes@.skip(k as int)[0] == n.floating_nodes@[k as int]);
            assert(n.floating_nodes@.skip(k as int).skip(1) =~= n.floating_nodes@.skip(k + 1));
        }
        let sub: Option<&TreeNode> = find_ws_node(&n.floating_nodes[k], name);
        if sub.is_some() {
            return sub;
        }
        k = k + 1;
    }

    proof {
        assert(n.floating_nodes@.skip(floating as int) =~= Seq::<TreeNode>::empty());
    }
    None
}

/// Find the first child with the given id in a child list.
fn child_with_id<'a>(ns: &'a Vec<TreeNode>, id: i64) -> (r: Option<(usize, &'a TreeNode)>)
    ensures
        match r {
            Option::Some((j, c)) => {
                &&& child_idx(ns@, id) == j as int
                &&& 0 <= j < ns@.len()
                &&& *c == ns@[j as int]
            },
            Option::None => child_idx(ns@, id) < 0,
        },
{
    let len: usize = ns.len();
    let mut i: usize = 0;
    while i < len
        invariant
            0 <= i <= len,
            len == ns@.len(),
            forall|j: int| 0 <= j < i ==> (#[trigger] ns@[j]).id != id,
        decreases len - i,
    {
        if ns[i].id == id {
            proof {
                lemma_child_idx(ns@, id);
            }
            return Some((i, &ns[i]));
        }
        i = i + 1;
    }
    proof {
        lemma_child_idx(ns@, id);
    }
    None
}

/// Walk the focus chain from a node down to the focused leaf container,
/// if the chain reaches one.
pub fn find_focused_node<'a>(n: &'a TreeNode) -> (r: Option<&'a TreeNode>)
    ensures
        match r {
            Option::Some(x) => find_focused(*n) == Option::Some(*x),
            Option::None => find_focused(*n) is None,
        },
    decreases *n,
{
    let is_leaf: bool = match n.node_type {
        NodeKind::FloatingCon | NodeKind::Con => n.nodes.len() == 0,
        _ => false,
    };
    if is_leaf {
        return Some(n);
    }
    if n.focus.len() == 0 {
        return None;
    }
    let head: i64 = n.focus[0];
    match child_with_id(&n.nodes, head) {
        Some((_, c)) => find_focused_node(c),
        None => match child_with_id(&n.floating_nodes, head) {
            Some((_, c)) => find_focused_node(c),
            None => None,
        },
    }
}

/// The shell tag of a focused node, as the state feed publishes it:
/// the protocol name in its serialized, quoted form, or `null` when
/// unknown.
pub open spec fn shell_tag(s: Option<ShellKind>) -> Seq<char> {
    match s {
        Option::None => "null"@,
        Option::Some(ShellKind::XdgShell) => "\"xdg_shell\""@,
        Option::Some(ShellKind::Xwayland) => "\"xwayland\""@,
        Option::Some(ShellKind::Unknown) => "\"unknown\""@,
    }
}

/// Render the shell tag of a focused node.
pub fn shell_tag_of(s: &Option<ShellKind>) -> (r: String)
    ensures
        r@ == shell_tag(*s),
{
    match s {
        Option::None => String::from_str("null"),
        Option::Some(ShellKind::XdgShell) => String::from_str("\"xdg_shell\""),
        Option::Some(ShellKind::Xwayland) => String::from_str("\"xwayland\""),
        Option::Some(ShellKind::Unknown) => String::from_str("\"unknown\""),
    }
}

/// The application identifier of a focused node: its native identifier,
/// or, when absent but a legacy-protocol class exists, the class with an
/// `[X11]` marker.
pub open spec fn app_id_of(n: TreeNode) -> Option<Seq<char>> {
    match n.app_id {
        Option::Some(s) => Option::Some(s@),
        Option::None => match n.window_properties {
            Option::Some(wp) => match wp.class {
                Option::Some(c) => Option::Some(c@ + " [X11]"@),
                Option::None => Option::None,
            },
            Option::None => Option::None,
        },
    }
}

/// Whether a node floats: it reports a floating state that is on.
pub open spec fn is_floating(n: TreeNode) -> bool {
    n.floating == Option::Some(FloatingKind::AutoOn)
        || n.floating == Option::Some(FloatingKind::UserOn)
}

/// What the focused-window record of a node holds.
pub open spec fn node_record_matches(n: TreeNode, r: Node) -> bool {
    &&& r.shell@ == shell_tag(n.shell)
    &&& match (app_id_of(n), r.app_id) {
        (Option::Some(a), Option::Some(b)) => b@ == a,
        (Option::None, Option::None) => true,
        _ => false,
    }
    &&& r.floating == is_floating(n)
}

/// Build the focused-window record of a node.
pub fn node_record(n: &TreeNode) -> (r: Node)
    ensures
        node_record_matches(*n, r),
{
    let app_id: Option<String> = match &n.app_id {
        Option::Some(s) => Some(s.clone()),
        Option::None => match &n.window_properties {
            Option::Some(wp) => match &wp.class {
                Option::Some(c) => Some(c.clone().concat(" [X11]")),
                Option::None => None,
            },
            Option::None => None,
        },
    };
    let floating: bool = match n.floating {
        Option::Some(FloatingKind::AutoOn) | Option::Some(FloatingKind::UserOn) => true,
        _ => false,
    };
    Node { shell: shell_tag_of(&n.shell), app_id, floating }
}

} // verus!
