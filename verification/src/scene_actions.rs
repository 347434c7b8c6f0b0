//! What the scene panels do with a request: the hierarchy's context-menu
//! actions, the toolbar's buttons and the finishing of a drag.
//!
//! Each operation takes the editor's resources as separate arguments and
//! states what becomes of each of them.

use vstd::prelude::*;

use crate::console::{spec_log, ConsoleLog, ConsoleView, LogLevel};
use crate::editor_state::{SceneChanged, SceneIdCounter, SceneSelection};
use crate::history::{spec_push_snapshot, HistoryView, UndoHistory};
use crate::scene_doc::{
    spec_add_node, spec_find, spec_move, spec_replace, spec_take, DragDropState, DropPosition, DropTarget,
    SceneDocument,
};
use crate::scene_model::{
    forest_view, new_scene_node, spec_default_name, spec_new_scene_node, SceneNode, SceneNodeKind,
    SceneNodeView,
};
use crate::text::{append_str, decimal, u64_to_string};

verus! {

// ─── Subtree sizes and fresh ids ───────────────────────────────────────────

/// The number of nodes in a subtree, its root included.
pub open spec fn tree_size(n: SceneNodeView) -> nat
    decreases n,
{
    1 + forest_size(n.children)
}

/// The number of nodes in a sequence of subtrees.
pub open spec fn forest_size(s: Seq<SceneNodeView>) -> nat
    decreases s,
{
    if s.len() == 0 {
        0
    } else {
        forest_size(s.drop_last()) + tree_size(s.last())
    }
}

/// A subtree whose nodes take fresh ids from `next` on, in depth-first
/// pre-order.
pub open spec fn renumber(n: SceneNodeView, next: int) -> SceneNodeView
    decreases n,
{
    SceneNodeView { id: next as u64, children: renumber_forest(n.children, next + 1), ..n }
}

/// A sequence of subtrees renumbered one after another from `next` on.
pub open spec fn renumber_forest(s: Seq<SceneNodeView>, next: int) -> Seq<SceneNodeView>
    decreases s,
{
    if s.len() == 0 {
        seq![]
    } else {
        renumber_forest(s.drop_last(), next).push(renumber(s.last(), next + forest_size(s.drop_last())))
    }
}

proof fn lemma_forest_size_prefix(s: Seq<SceneNodeView>, k: int)
    requires
        0 <= k <= s.len(),
    ensures
        forest_size(s.subrange(0, k)) <= forest_size(s),
    decreases s.len(),
{
    if k < s.len() {
        lemma_forest_size_prefix(s.drop_last(), k);
        assert(s.drop_last().subrange(0, k) =~= s.subrange(0, k));
    } else {
        assert(s.subrange(0, k) =~= s);
    }
}

/// Give every node of the subtrees in `nodes` a fresh id from `ids`, in
/// depth-first pre-order.
fn renumber_in(nodes: &mut Vec<SceneNode>, ids: &mut SceneIdCounter)
    requires
        old(ids)@ + forest_size(forest_view(old(nodes)@)) <= u64::MAX,
    ensures
        forest_view(final(nodes)@) == renumber_forest(forest_view(old(nodes)@), old(ids)@ as int),
        final(ids)@ == old(ids)@ + forest_size(forest_view(old(nodes)@)),
    decreases *old(nodes),
{
    broadcast use crate::scene_model::group_forest_view;

    let ghost s = forest_view(nodes@);
    let ghost start = ids@ as int;
    let ghost orig = nodes@;
    proof {
        crate::scene_model::lemma_forest_view(nodes@);
        assert(s.subrange(0, 0) =~= seq![]);
        assert(nodes@.subrange(0, 0) =~= Seq::<SceneNode>::empty());
    }
    let mut i: usize = 0;
    while i < nodes.len()
        invariant
            i <= nodes@.len(),
            nodes@.len() == orig.len(),
            s == forest_view(orig),
            s.len() == orig.len(),
            forall|j: int| 0 <= j < orig.len() ==> #[trigger] s[j] == orig[j]@,
            forall|j: int| i <= j < orig.len() ==> #[trigger] nodes@[j] == orig[j],
            forest_view(nodes@.subrange(0, i as int)) == renumber_forest(s.subrange(0, i as int), start),
            ids@ == start + forest_size(s.subrange(0, i as int)),
            start + forest_size(s) <= u64::MAX,
            orig == old(nodes)@,
        decreases nodes@.len() - i,
    {
        let ghost pre = nodes@;
        proof {
            lemma_forest_size_prefix(s, i + 1);
            assert(s.subrange(0, i + 1).drop_last() =~= s.subrange(0, i as int));
            assert(s.subrange(0, i + 1).last() == s[i as int]);
            assert(forest_size(s.subrange(0, i + 1)) == forest_size(s.subrange(0, i as int)) + tree_size(s[i as int]));
            assert(tree_size(s[i as int]) >= 1);
        }
        let id = ids.next_id();
        renumber_in(&mut nodes[i].children, ids);
        nodes[i].id = id;
        proof {
            assert(nodes@.subrange(0, i as int) =~= pre.subrange(0, i as int));
            assert(nodes@.subrange(0, i + 1) =~= pre.subrange(0, i as int).push(nodes@[i as int]));
            assert(nodes@[i as int]@ == renumber(s[i as int], start + forest_size(s.subrange(0, i as int))));
            assert(renumber_forest(s.subrange(0, i + 1), start) == renumber_forest(s.subrange(0, i as int), start).push(
                renumber(s[i as int], start + forest_size(s.subrange(0, i as int))),
            ));
            crate::scene_model::lemma_forest_view_push(pre.subrange(0, i as int), nodes@[i as int]);
        }
        i = i + 1;
    }
    proof {
        assert(nodes@.subrange(0, i as int) =~= nodes@);
        assert(s.subrange(0, i as int) =~= s);
    }
}

/// `prefix` followed by the decimal text of `n`.
fn text_with_number(prefix: &str, n: u64) -> (r: String)
    ensures
        r@ == prefix@ + decimal(n as nat),
{
    let mut s = String::from_str(prefix);
    let d = u64_to_string(n);
    append_str(&mut s, d.as_str());
    s
}

// ─── The state an edit touches ─────────────────────────────────────────────

/// The scene-side resources of the editor, as values: the scene, the
/// selection, whether the viewport must be rebuilt, the next fresh id, the
/// undo history and the console.
pub struct SceneEditView {
    pub nodes: Seq<SceneNodeView>,
    pub selected: Option<u64>,
    pub dirty: bool,
    pub next_id: u64,
    pub undo: HistoryView,
    pub console: ConsoleView,
}

pub open spec fn edit_view(
    doc: SceneDocument,
    selection: SceneSelection,
    changed: SceneChanged,
    ids: SceneIdCounter,
    undo: UndoHistory,
    console: ConsoleLog,
) -> SceneEditView {
    SceneEditView {
        nodes: doc@,
        selected: selection.selected,
        dirty: changed.dirty,
        next_id: ids@,
        undo: undo@,
        console: console@,
    }
}

/// The scene recorded for undo, then `nodes` put in its place, the viewport
/// marked for rebuilding and `msg` logged.
pub open spec fn recorded_edit(v: SceneEditView, nodes: Seq<SceneNodeView>, msg: Seq<char>) -> SceneEditView {
    SceneEditView {
        nodes,
        dirty: true,
        undo: spec_push_snapshot(v.undo, v.nodes),
        console: spec_log(v.console, LogLevel::Info, msg),
        ..v
    }
}

// ─── Hierarchy panel ───────────────────────────────────────────────────────

/// What the hierarchy panel's rows and menus ask for.
#[derive(Clone, Copy, Debug, PartialEq, Eq, Structural)]
pub enum HierarchyAction {
    Select(u64),
    ToggleVisibility(u64),
    Delete(u64),
    Duplicate(u64),
    Unparent(u64),
    AddChild(u64, SceneNodeKind),
    AddRoot(SceneNodeKind),
}

/// A copy of a subtree with fresh ids from `next` on and " (copy)" after
/// the name of its root.
pub open spec fn spec_duplicate(n: SceneNodeView, next: int) -> SceneNodeView {
    SceneNodeView { name: n.name + " (copy)"@, ..renumber(n, next) }
}

/// Whether the ids an action hands out, from `next_id` on, fit below
/// `u64::MAX`.
pub open spec fn ids_fit(action: HierarchyAction, nodes: Seq<SceneNodeView>, next_id: u64) -> bool {
    match action {
        HierarchyAction::Duplicate(id) => match spec_find(nodes, id) {
            Some(n) => next_id + tree_size(n) <= u64::MAX,
            None => true,
        },
        HierarchyAction::AddChild(_, _) => next_id < u64::MAX,
        HierarchyAction::AddRoot(_) => next_id < u64::MAX,
        _ => true,
    }
}

pub open spec fn hierarchy_ids_fit(action: HierarchyAction, v: SceneEditView) -> bool {
    ids_fit(action, v.nodes, v.next_id)
}

/// Count the nodes of the subtrees in `nodes` against `budget`: what is
/// left of it, or nothing when they are more.
fn forest_fits(nodes: &Vec<SceneNode>, budget: u64) -> (r: Option<u64>)
    ensures
        match r {
            Some(rest) => forest_size(forest_view(nodes@)) <= budget && rest == budget - forest_size(forest_view(nodes@)),
            None => forest_size(forest_view(nodes@)) > budget,
        },
    decreases nodes@,
{
    let ghost s = forest_view(nodes@);
    proof {
        crate::scene_model::lemma_forest_view(nodes@);
        assert(s.subrange(0, 0) =~= seq![]);
    }
    let mut left = budget;
    let mut i: usize = 0;
    while i < nodes.len()
        invariant
            i <= nodes@.len(),
            s == forest_view(nodes@),
            s.len() == nodes@.len(),
            forall|j: int| 0 <= j < nodes@.len() ==> #[trigger] s[j] == nodes@[j]@,
            forest_size(s.subrange(0, i as int)) <= budget,
            left == budget - forest_size(s.subrange(0, i as int)),
        decreases nodes@.len() - i,
    {
        proof {
            assert(s.subrange(0, i + 1).drop_last() =~= s.subrange(0, i as int));
            assert(s.subrange(0, i + 1).last() == s[i as int]);
            lemma_forest_size_prefix(s, i + 1);
            assert(forest_size(s.subrange(0, i + 1)) == forest_size(s.subrange(0, i as int)) + tree_size(s[i as int]));
            assert(tree_size(s[i as int]) == 1 + forest_size(forest_view(nodes@[i as int].children@)));
        }
        if left == 0 {
            return None;
        }
        match forest_fits(&nodes[i].children, left - 1) {
            Some(rest) => {
                left = rest;
            },
            None => {
                return None;
            },
        }
        i = i + 1;
    }
    proof {
        assert(s.subrange(0, i as int) =~= s);
    }
    Some(left)
}

/// Whether `apply_hierarchy_action` can hand out the ids the action needs
/// from the counter `ids`.
pub fn hierarchy_action_fits(action: HierarchyAction, doc: &SceneDocument, ids: &SceneIdCounter) -> (r: bool)
    ensures
        r == ids_fit(action, doc@, ids@),
{
    let next = ids.current();
    match action {
        HierarchyAction::Duplicate(id) => match doc.find_node(id) {
            Some(n) => {
                if next == u64::MAX {
                    return false;
                }
                match forest_fits(&n.children, u64::MAX - next - 1) {
                    Some(_) => true,
                    None => false,
                }
            },
            None => true,
        },
        HierarchyAction::AddChild(_, _) => next < u64::MAX,
        HierarchyAction::AddRoot(_) => next < u64::MAX,
        _ => true,
    }
}

/// What a hierarchy action does to the editor's scene-side state.
pub open spec fn spec_hierarchy_action(action: HierarchyAction, v: SceneEditView) -> SceneEditView {
    match action {
        HierarchyAction::Select(id) => SceneEditView { selected: Some(id), ..v },
        HierarchyAction::ToggleVisibility(id) => match spec_find(v.nodes, id) {
            Some(n) => SceneEditView {
                nodes: spec_replace(v.nodes, id, SceneNodeView { visible: !n.visible, ..n }),
                dirty: true,
                ..v
            },
            None => v,
        },
        HierarchyAction::Delete(id) => SceneEditView {
            selected: if v.selected == Some(id) { None } else { v.selected },
            ..recorded_edit(v, spec_take(v.nodes, id).0, "Deleted node "@ + decimal(id as nat))
        },
        HierarchyAction::Duplicate(id) => match spec_find(v.nodes, id) {
            Some(n) => SceneEditView {
                next_id: (v.next_id + tree_size(n)) as u64,
                ..recorded_edit(
                    v,
                    v.nodes.push(spec_duplicate(n, v.next_id as int)),
                    "Duplicated node "@ + decimal(id as nat),
                )
            },
            None => v,
        },
        HierarchyAction::Unparent(id) => match spec_take(v.nodes, id).1 {
            Some(n) => recorded_edit(
                v,
                spec_take(v.nodes, id).0.push(n),
                "Unparented node "@ + decimal(id as nat) + " to root"@,
            ),
            None => SceneEditView { undo: spec_push_snapshot(v.undo, v.nodes), ..v },
        },
        HierarchyAction::AddChild(parent, kind) => SceneEditView {
            next_id: (v.next_id + 1) as u64,
            ..recorded_edit(
                v,
                spec_add_node(v.nodes, Some(parent), spec_new_scene_node(v.next_id, kind)),
                "Added child to node "@ + decimal(parent as nat),
            )
        },
        HierarchyAction::AddRoot(kind) => SceneEditView {
            next_id: (v.next_id + 1) as u64,
            selected: Some(v.next_id),
            ..recorded_edit(
                v,
                spec_add_node(v.nodes, None, spec_new_scene_node(v.next_id, kind)),
                "Added "@ + spec_default_name(kind),
            )
        },
    }
}

/// Carry out what the hierarchy panel asked for.
pub fn apply_hierarchy_action(
    action: HierarchyAction,
    doc: &mut SceneDocument,
    selection: &mut SceneSelection,
    changed: &mut SceneChanged,
    ids: &mut SceneIdCounter,
    undo: &mut UndoHistory,
    console: &mut ConsoleLog,
)
    requires
        hierarchy_ids_fit(action, edit_view(*old(doc), *old(selection), *old(changed), *old(ids), *old(undo), *old(console))),
    ensures
        edit_view(*final(doc), *final(selection), *final(changed), *final(ids), *final(undo), *final(console))
            == spec_hierarchy_action(action, edit_view(*old(doc), *old(selection), *old(changed), *old(ids), *old(undo), *old(console))),
{
    broadcast use crate::scene_model::group_forest_view;

    match action {
        HierarchyAction::Select(id) => {
            selection.selected = Some(id);
        },
        HierarchyAction::ToggleVisibility(id) => {
            match doc.find_node_mut(id) {
                Some(node) => {
                    node.visible = !node.visible;
                    changed.dirty = true;
                },
                None => {},
            }
        },
        HierarchyAction::Delete(id) => {
            undo.push_snapshot(&doc.nodes);
            doc.remove_node(id);
            if selection.selected == Some(id) {
                selection.selected = None;
            }
            changed.dirty = true;
            console.info(text_with_number("Deleted node ", id));
        },
        HierarchyAction::Duplicate(id) => {
            let copy = match doc.find_node(id) {
                Some(node) => {
                    let mut cloned = node.deep_clone();
                    let new_id = ids.next_id();
                    renumber_in(&mut cloned.children, ids);
                    cloned.id = new_id;
                    cloned.name.append(" (copy)");
                    Some(cloned)
                },
                None => None,
            };
            match copy {
                Some(cloned) => {
                    undo.push_snapshot(&doc.nodes);
                    doc.nodes.push(cloned);
                    changed.dirty = true;
                    console.info(text_with_number("Duplicated node ", id));
                },
                None => {},
            }
        },
        HierarchyAction::Unparent(id) => {
            proof {
                crate::scene_doc::lemma_take_none(doc@, id);
            }
            undo.push_snapshot(&doc.nodes);
            match doc.take_node(id) {
                Some(node) => {
                    doc.nodes.push(node);
                    changed.dirty = true;
                    let mut msg = text_with_number("Unparented node ", id);
                    msg.append(" to root");
                    console.info(msg);
                },
                None => {},
            }
        },
        HierarchyAction::AddChild(parent, kind) => {
            let new_id = ids.next_id();
            let child = new_scene_node(new_id, kind);
            undo.push_snapshot(&doc.nodes);
            doc.add_node(Some(parent), child);
            changed.dirty = true;
            console.info(text_with_number("Added child to node ", parent));
        },
        HierarchyAction::AddRoot(kind) => {
            let new_id = ids.next_id();
            let node = new_scene_node(new_id, kind);
            let mut msg = String::from_str("Added ");
            append_str(&mut msg, node.name.as_str());
            undo.push_snapshot(&doc.nodes);
            doc.add_node(None, node);
            selection.selected = Some(new_id);
            changed.dirty = true;
            console.info(msg);
        },
    }
}

// ─── Dragging rows ─────────────────────────────────────────────────────────

/// Where a row dropped on another lands: in its top quarter before it, in
/// its bottom quarter after it when it has no children, and otherwise
/// inside it.
pub fn drop_position_for(in_top_quarter: bool, in_bottom_quarter: bool, has_children: bool) -> (p: DropPosition)
    ensures
        in_top_quarter ==> p == DropPosition::Before,
        !in_top_quarter && in_bottom_quarter && !has_children ==> p == DropPosition::After,
        !in_top_quarter && !(in_bottom_quarter && !has_children) ==> p == DropPosition::Inside,
{
    if in_top_quarter {
        DropPosition::Before
    } else if in_bottom_quarter && !has_children {
        DropPosition::After
    } else {
        DropPosition::Inside
    }
}

/// A drag ends when a row reports it, or when the pointer is released while
/// a node is being dragged.
pub open spec fn spec_drag_ended(dragging: Option<u64>, row_stopped: bool, released: bool) -> bool {
    row_stopped || (dragging is Some && released)
}

/// The node being dragged once a row that started a drag this frame is
/// taken into account.
pub open spec fn spec_dragged(dragging: Option<u64>, started: Option<u64>) -> Option<u64> {
    if started is Some { started } else { dragging }
}

/// The move a finished drag asks for: the dragged node onto the drop
/// target, when there are both and they differ.
pub open spec fn spec_drop_move(dragged: Option<u64>, target: Option<DropTarget>) -> Option<(u64, DropTarget)> {
    match (dragged, target) {
        (Some(n), Some(t)) => if n != t.target_id { Some((n, t)) } else { None },
        _ => None,
    }
}

/// The end of a frame of the hierarchy panel for dragging: a started drag
/// is recorded; when the drag ends the dragged node is moved onto the drop
/// target (the scene recorded for undo first) and the drag is cleared;
/// otherwise the drop target under the pointer is kept.
pub fn finish_drag(
    drag: &mut DragDropState,
    doc: &mut SceneDocument,
    changed: &mut SceneChanged,
    undo: &mut UndoHistory,
    console: &mut ConsoleLog,
    started: Option<u64>,
    target: Option<DropTarget>,
    row_stopped: bool,
    released: bool,
)
    ensures
        ({
            let ended = spec_drag_ended(old(drag).dragging, row_stopped, released);
            let dragged = spec_dragged(old(drag).dragging, started);
            &&& final(drag).dragging == if ended { None } else { dragged }
            &&& final(drag).drop_target == if ended { None } else { target }
            &&& match if ended { spec_drop_move(dragged, target) } else { None } {
                None => {
                    &&& final(doc)@ == old(doc)@
                    &&& final(undo)@ == old(undo)@
                    &&& final(changed).dirty == old(changed).dirty
                    &&& final(console)@ == old(console)@
                },
                Some((n, t)) => {
                    let (nodes, moved) = spec_move(old(doc)@, n, t.target_id, t.position);
                    &&& final(doc)@ == nodes
                    &&& final(undo)@ == spec_push_snapshot(old(undo)@, old(doc)@)
                    &&& final(changed).dirty == (old(changed).dirty || moved)
                    &&& final(console)@ == if moved {
                        spec_log(old(console)@, LogLevel::Info, "Moved node "@ + decimal(n as nat))
                    } else {
                        old(console)@
                    }
                },
            }
        }),
{
    let ended = row_stopped || (drag.dragging.is_some() && released);
    match started {
        Some(id) => {
            drag.dragging = Some(id);
        },
        None => {},
    }
    if ended {
        match (drag.dragging, target) {
            (Some(node_id), Some(t)) => {
                if node_id != t.target_id {
                    undo.push_snapshot(&doc.nodes);
                    if doc.move_node(node_id, t.target_id, t.position) {
                        changed.dirty = true;
                        console.info(text_with_number("Moved node ", node_id));
                    }
                }
            },
            _ => {},
        }
        drag.dragging = None;
        drag.drop_target = None;
    } else {
        drag.drop_target = target;
    }
}

} // verus!
