//! The scene toolbar's buttons and the editor's keyboard shortcuts: adding,
//! deleting, duplicating, copying and pasting nodes, undo and redo, and the
//! switch into and out of play mode.

use vstd::prelude::*;

use crate::console::{spec_log, ConsoleLog, LogLevel};
use crate::editor_state::{EditorState, SavedOrbit, SceneChanged, SceneIdCounter, SceneSelection, TransformMode};
use crate::history::{spec_push_snapshot, spec_redo, spec_undo, UndoHistory};
use crate::scene_actions::{edit_view, recorded_edit, SceneEditView};
use crate::scene_doc::{spec_add_node, spec_find, spec_take, SceneDocument};
use crate::scene_model::{
    forest_view, new_scene_node, spec_default_name, spec_new_scene_node, SceneNode, SceneNodeKind,
    SceneNodeProps, SceneNodeView,
};
use crate::text::append_str;

verus! {

/// The editor state with its unsaved-changes flag set to `dirty`.
pub open spec fn with_scene_dirty(e: EditorState, dirty: bool) -> EditorState {
    EditorState { scene_dirty: dirty, ..e }
}

// ─── Adding nodes ──────────────────────────────────────────────────────────

/// What the toolbar logs after adding a node of a kind.
pub open spec fn spec_added_message(kind: SceneNodeKind) -> Seq<char> {
    match kind {
        SceneNodeKind::Empty => "Added Empty node"@,
        _ => "Added "@ + spec_default_name(kind),
    }
}

/// What adding an object of `kind` does: a new node with the next id under
/// the selected node (at the top level when nothing is selected or the
/// selected node is gone), selected in turn, the scene recorded for undo
/// first.
pub open spec fn spec_add_object(v: SceneEditView, kind: SceneNodeKind) -> SceneEditView {
    SceneEditView {
        next_id: (v.next_id + 1) as u64,
        selected: Some(v.next_id),
        ..recorded_edit(
            v,
            spec_add_node(v.nodes, v.selected, spec_new_scene_node(v.next_id, kind)),
            spec_added_message(kind),
        )
    }
}

/// A new node of `kind` under the selected node (at the top level when
/// nothing is selected), selected in turn; the scene is recorded for undo
/// first and marked as having unsaved changes.
pub fn add_object(
    kind: SceneNodeKind,
    doc: &mut SceneDocument,
    selection: &mut SceneSelection,
    changed: &mut SceneChanged,
    ids: &mut SceneIdCounter,
    undo: &mut UndoHistory,
    editor: &mut EditorState,
    console: &mut ConsoleLog,
)
    requires
        old(ids)@ < u64::MAX,
    ensures
        edit_view(*final(doc), *final(selection), *final(changed), *final(ids), *final(undo), *final(console))
            == spec_add_object(edit_view(*old(doc), *old(selection), *old(changed), *old(ids), *old(undo), *old(console)), kind),
        *final(editor) == with_scene_dirty(*old(editor), true),
{
    let id = ids.next_id();
    let node = new_scene_node(id, kind);
    let msg = match kind {
        SceneNodeKind::Empty => String::from_str("Added Empty node"),
        _ => {
            let mut m = String::from_str("Added ");
            append_str(&mut m, node.name.as_str());
            m
        },
    };
    undo.push_snapshot(&doc.nodes);
    doc.add_node(selection.selected, node);
    selection.selected = Some(id);
    changed.dirty = true;
    editor.scene_dirty = true;
    console.info(msg);
}

// ─── Undo and redo ─────────────────────────────────────────────────────────

/// Step back to the last recorded scene, if there is one.
pub fn undo_step(doc: &mut SceneDocument, changed: &mut SceneChanged, undo: &mut UndoHistory, console: &mut ConsoleLog)
    ensures
        final(undo)@ == spec_undo(old(undo)@, old(doc)@).0,
        match spec_undo(old(undo)@, old(doc)@).1 {
            Some(prev) => {
                &&& final(doc)@ == prev
                &&& final(changed).dirty
                &&& final(console)@ == spec_log(old(console)@, LogLevel::Info, "Undo"@)
            },
            None => {
                &&& final(doc)@ == old(doc)@
                &&& final(changed).dirty == old(changed).dirty
                &&& final(console)@ == old(console)@
            },
        },
{
    match undo.undo(&doc.nodes) {
        Some(prev) => {
            doc.nodes = prev;
            changed.dirty = true;
            console.info(String::from_str("Undo"));
        },
        None => {},
    }
}

/// Step forward to the last undone scene, if there is one.
pub fn redo_step(doc: &mut SceneDocument, changed: &mut SceneChanged, undo: &mut UndoHistory, console: &mut ConsoleLog)
    ensures
        final(undo)@ == spec_redo(old(undo)@, old(doc)@).0,
        match spec_redo(old(undo)@, old(doc)@).1 {
            Some(next) => {
                &&& final(doc)@ == next
                &&& final(changed).dirty
                &&& final(console)@ == spec_log(old(console)@, LogLevel::Info, "Redo"@)
            },
            None => {
                &&& final(doc)@ == old(doc)@
                &&& final(changed).dirty == old(changed).dirty
                &&& final(console)@ == old(console)@
            },
        },
{
    match undo.redo(&doc.nodes) {
        Some(next) => {
            doc.nodes = next;
            changed.dirty = true;
            console.info(String::from_str("Redo"));
        },
        None => {},
    }
}

// ─── Deleting the selection ────────────────────────────────────────────────

/// What deleting the selected node does, when a node is selected: the
/// scene recorded for undo, the node and its subtree removed, the selection
/// cleared.
pub open spec fn spec_delete_selected(v: SceneEditView) -> SceneEditView {
    match v.selected {
        Some(sel) => SceneEditView {
            selected: None,
            ..recorded_edit(v, spec_take(v.nodes, sel).0, "Deleted node"@)
        },
        None => v,
    }
}

/// Delete the selected node with its subtree; tells whether a node was
/// selected.
pub fn delete_selected(
    doc: &mut SceneDocument,
    selection: &mut SceneSelection,
    changed: &mut SceneChanged,
    ids: &SceneIdCounter,
    undo: &mut UndoHistory,
    console: &mut ConsoleLog,
) -> (deleted: bool)
    ensures
        deleted == old(selection).selected is Some,
        edit_view(*final(doc), *final(selection), *final(changed), *ids, *final(undo), *final(console))
            == spec_delete_selected(edit_view(*old(doc), *old(selection), *old(changed), *ids, *old(undo), *old(console))),
{
    match selection.selected {
        Some(sel) => {
            undo.push_snapshot(&doc.nodes);
            doc.remove_node(sel);
            selection.selected = None;
            changed.dirty = true;
            console.info(String::from_str("Deleted node"));
            true
        },
        None => false,
    }
}

/// The toolbar's delete button: `delete_selected`, and the scene marked as
/// having unsaved changes when something was deleted.
pub fn toolbar_delete(
    doc: &mut SceneDocument,
    selection: &mut SceneSelection,
    changed: &mut SceneChanged,
    ids: &SceneIdCounter,
    undo: &mut UndoHistory,
    editor: &mut EditorState,
    console: &mut ConsoleLog,
)
    ensures
        edit_view(*final(doc), *final(selection), *final(changed), *ids, *final(undo), *final(console))
            == spec_delete_selected(edit_view(*old(doc), *old(selection), *old(changed), *ids, *old(undo), *old(console))),
        *final(editor) == with_scene_dirty(*old(editor), old(editor).scene_dirty || old(selection).selected is Some),
{
    if delete_selected(doc, selection, changed, ids, undo, console) {
        editor.scene_dirty = true;
    }
}

// ─── Duplicating the selection ─────────────────────────────────────────────

/// The node a duplicate of `n` becomes: id `new_id`, " (copy)" after its
/// name, x position `x`; its subtree keeps its ids.
pub open spec fn spec_moved_copy(n: SceneNodeView, new_id: u64, x: u32) -> SceneNodeView {
    SceneNodeView {
        id: new_id,
        name: n.name + " (copy)"@,
        props: SceneNodeProps {
            translation: [x, n.props.translation[1], n.props.translation[2]],
            ..n.props
        },
        ..n
    }
}

/// The selected node when it is in the scene.
pub open spec fn selected_node(v: SceneEditView) -> Option<SceneNodeView> {
    match v.selected {
        Some(sel) => spec_find(v.nodes, sel),
        None => None,
    }
}

/// What duplicating the selected node as `new_id` at x position `x` does:
/// the copy goes to the top level and is selected.
pub open spec fn spec_duplicate_selected(v: SceneEditView, new_id: u64, x: u32) -> SceneEditView {
    match selected_node(v) {
        Some(n) => SceneEditView {
            selected: Some(new_id),
            ..recorded_edit(v, v.nodes.push(spec_moved_copy(n, new_id, x)), "Duplicated node"@)
        },
        None => v,
    }
}

fn duplicate_as(
    new_id: u64,
    x: u32,
    doc: &mut SceneDocument,
    selection: &mut SceneSelection,
    changed: &mut SceneChanged,
    ids: &SceneIdCounter,
    undo: &mut UndoHistory,
    console: &mut ConsoleLog,
)
    requires
        selected_node(edit_view(*old(doc), *old(selection), *old(changed), *ids, *old(undo), *old(console))) is Some,
    ensures
        edit_view(*final(doc), *final(selection), *final(changed), *ids, *final(undo), *final(console))
            == spec_duplicate_selected(edit_view(*old(doc), *old(selection), *old(changed), *ids, *old(undo), *old(console)), new_id, x),
{
    broadcast use crate::scene_model::group_forest_view;

    let sel = selection.selected.unwrap();
    let mut dup = doc.find_node(sel).unwrap().deep_clone();
    dup.id = new_id;
    dup.name.append(" (copy)");
    dup.props.translation = [x, dup.props.translation[1], dup.props.translation[2]];
    undo.push_snapshot(&doc.nodes);
    doc.add_node(None, dup);
    selection.selected = Some(new_id);
    changed.dirty = true;
    console.info(String::from_str("Duplicated node"));
}

/// The toolbar's duplicate button: the copy of the selected node takes the
/// next fresh id and sits at x position `x` (the selected node's x plus one,
/// worked out by the caller); the scene is marked as having unsaved changes.
pub fn toolbar_duplicate(
    x: u32,
    doc: &mut SceneDocument,
    selection: &mut SceneSelection,
    changed: &mut SceneChanged,
    ids: &mut SceneIdCounter,
    undo: &mut UndoHistory,
    editor: &mut EditorState,
    console: &mut ConsoleLog,
)
    requires
        selected_node(edit_view(*old(doc), *old(selection), *old(changed), *old(ids), *old(undo), *old(console))) is Some
            ==> old(ids)@ < u64::MAX,
    ensures
        ({
            let v = edit_view(*old(doc), *old(selection), *old(changed), *old(ids), *old(undo), *old(console));
            &&& selected_node(v) is Some ==> edit_view(*final(doc), *final(selection), *final(changed), *final(ids), *final(undo), *final(console))
                == SceneEditView { next_id: (v.next_id + 1) as u64, ..spec_duplicate_selected(v, v.next_id, x) }
            &&& selected_node(v) is None ==> edit_view(*final(doc), *final(selection), *final(changed), *final(ids), *final(undo), *final(console)) == v
            &&& *final(editor) == with_scene_dirty(*old(editor), old(editor).scene_dirty || selected_node(v) is Some)
        }),
{
    let found = match selection.selected {
        Some(sel) => doc.find_node(sel).is_some(),
        None => false,
    };
    if found {
        let new_id = ids.next_id();
        duplicate_as(new_id, x, doc, selection, changed, ids, undo, console);
        editor.scene_dirty = true;
    }
}

/// Ctrl+D: the copy of the selected node takes the id of the selected node
/// plus 10000 and sits at x position `x` (the selected node's x plus one, worked
/// out by the caller).
pub fn shortcut_duplicate(
    x: u32,
    doc: &mut SceneDocument,
    selection: &mut SceneSelection,
    changed: &mut SceneChanged,
    ids: &SceneIdCounter,
    undo: &mut UndoHistory,
    console: &mut ConsoleLog,
)
    requires
        selected_node(edit_view(*old(doc), *old(selection), *old(changed), *ids, *old(undo), *old(console))) is Some
            ==> old(selection).selected.unwrap() + 10000 <= u64::MAX,
    ensures
        ({
            let v = edit_view(*old(doc), *old(selection), *old(changed), *ids, *old(undo), *old(console));
            edit_view(*final(doc), *final(selection), *final(changed), *ids, *final(undo), *final(console))
                == spec_duplicate_selected(v, (v.selected.unwrap() + 10000) as u64, x)
        }),
{
    match selection.selected {
        Some(sel) => {
            if doc.find_node(sel).is_some() {
                duplicate_as(sel + 10000, x, doc, selection, changed, ids, undo, console);
            }
        },
        None => {},
    }
}

// ─── Copy and paste ────────────────────────────────────────────────────────

/// Ctrl+C: a copy of the selected node for the clipboard, with "Copied
/// <name>" logged; nothing when no node in the scene is selected.
pub fn copy_selected(doc: &SceneDocument, selection: &SceneSelection, console: &mut ConsoleLog) -> (clip: Option<SceneNode>)
    ensures
        match selection.selected {
            Some(sel) => match spec_find(doc@, sel) {
                Some(n) => {
                    &&& clip matches Some(c) && c@ == n
                    &&& final(console)@ == spec_log(old(console)@, LogLevel::Info, "Copied "@ + n.name)
                },
                None => clip is None && final(console)@ == old(console)@,
            },
            None => clip is None && final(console)@ == old(console)@,
        },
{
    match selection.selected {
        Some(sel) => match doc.find_node(sel) {
            Some(node) => {
                let mut msg = String::from_str("Copied ");
                append_str(&mut msg, node.name.as_str());
                console.info(msg);
                Some(node.deep_clone())
            },
            None => None,
        },
        None => None,
    }
}

/// `a + b` wrapped around at 2^64, as `u64::wrapping_add` computes it.
pub open spec fn wrap_add(a: u64, b: int) -> u64 {
    ((a + b) % 0x1_0000_0000_0000_0000int) as u64
}

/// The children of a pasted node with id `base`: the k-th child (counting
/// from one) gets id `base + 100 * k`, wrapping, and its own children are
/// numbered from its new id in the same way.
pub open spec fn paste_children(s: Seq<SceneNodeView>, base: u64) -> Seq<SceneNodeView>
    decreases s,
{
    if s.len() == 0 {
        seq![]
    } else {
        paste_children(s.drop_last(), base).push(paste_renumber(s.last(), wrap_add(base, (s.len() * 100) as int)))
    }
}

pub open spec fn paste_renumber(n: SceneNodeView, id: u64) -> SceneNodeView
    decreases n,
{
    SceneNodeView { id, children: paste_children(n.children, id), ..n }
}

/// Two offsets below 2^64 that differ give different wrapped sums.
proof fn lemma_wrap_add_distinct(base: u64, a: int, b: int)
    requires
        0 < a < b < 0x1_0000_0000_0000_0000int,
    ensures
        wrap_add(base, a) != wrap_add(base, b),
        wrap_add(base, a) != base,
{
    let m = 0x1_0000_0000_0000_0000int;
    assert((base + a) % m != (base + b) % m);
    assert((base + a) % m != base as int);
}

/// Pasting numbers the children of a node with id `base` one by one: the
/// k-th child (counting from zero) gets id `base + 100 * (k + 1)`, wrapping
/// at 2^64, keeps everything else but its children, and has its own
/// children numbered from its new id in the same way. With fewer than
/// `u64::MAX / 100` children, the new ids differ from one another and from
/// `base`.
pub proof fn law_paste_numbers_children(s: Seq<SceneNodeView>, base: u64)
    ensures
        paste_children(s, base).len() == s.len(),
        forall|k: int| 0 <= k < s.len() ==> {
            let c = #[trigger] paste_children(s, base)[k];
            &&& c.id as int == (base + 100 * (k + 1)) % 0x1_0000_0000_0000_0000int
            &&& c.name == s[k].name && c.kind == s[k].kind && c.props == s[k].props && c.visible == s[k].visible
            &&& c.children == paste_children(s[k].children, c.id)
        },
        s.len() < u64::MAX / 100 ==> forall|j: int, k: int| 0 <= j < k < s.len()
            ==> #[trigger] paste_children(s, base)[j].id != #[trigger] paste_children(s, base)[k].id,
        s.len() < u64::MAX / 100 ==> forall|k: int| 0 <= k < s.len() ==> #[trigger] paste_children(s, base)[k].id != base,
    decreases s.len(),
{
    if s.len() > 0 {
        let r = paste_children(s, base);
        let d = s.drop_last();
        law_paste_numbers_children(d, base);
        assert forall|k: int| 0 <= k < s.len() implies {
            let c = #[trigger] r[k];
            &&& c.id as int == (base + 100 * (k + 1)) % 0x1_0000_0000_0000_0000int
            &&& c.name == s[k].name && c.kind == s[k].kind && c.props == s[k].props && c.visible == s[k].visible
            &&& c.children == paste_children(s[k].children, c.id)
        } by {
            if k < d.len() {
                assert(r[k] == paste_children(d, base)[k]);
                assert(d[k] == s[k]);
            } else {
                let m = 0x1_0000_0000_0000_0000int;
                let id = wrap_add(base, (s.len() * 100) as int);
                assert(r[k] == paste_renumber(s.last(), id));
                assert(0 <= (base + 100 * (k + 1)) % m < m);
                assert(id as int == (base + 100 * (k + 1)) % m);
                assert(paste_renumber(s.last(), id).children == paste_children(s.last().children, id));
            }
        }
        if s.len() < u64::MAX / 100 {
            assert forall|j: int, k: int| 0 <= j < k < s.len() implies #[trigger] r[j].id != #[trigger] r[k].id by {
                lemma_wrap_add_distinct(base, 100 * (j + 1), 100 * (k + 1));
            }
            assert forall|k: int| 0 <= k < s.len() implies #[trigger] r[k].id != base by {
                lemma_wrap_add_distinct(base, 100 * (k + 1), 100 * (k + 2));
            }
        }
    }
}

/// Every node of the subtrees has fewer than `u64::MAX / 100` children, so
/// that the child offsets can be worked out.
pub open spec fn offsets_fit(s: Seq<SceneNodeView>) -> bool
    decreases s,
{
    if s.len() == 0 {
        true
    } else {
        offsets_fit(s.drop_last()) && s.last().children.len() < u64::MAX / 100 && offsets_fit(s.last().children)
    }
}

/// Renumber the children of a node whose id is `base`, as
/// `paste_children` says.
fn renumber_pasted(nodes: &mut Vec<SceneNode>, base: u64)
    requires
        forest_view(old(nodes)@).len() < u64::MAX / 100,
        offsets_fit(forest_view(old(nodes)@)),
    ensures
        forest_view(final(nodes)@) == paste_children(forest_view(old(nodes)@), base),
    decreases *old(nodes),
{
    broadcast use crate::scene_model::group_forest_view;

    let ghost s = forest_view(nodes@);
    let ghost orig = nodes@;
    proof {
        crate::scene_model::lemma_forest_view(nodes@);
        assert(s.subrange(0, 0) =~= seq![]);
        assert(nodes@.subrange(0, 0) =~= Seq::<SceneNode>::empty());
    }
    let mut offset: u64 = 1;
    let mut i: usize = 0;
    while i < nodes.len()
        invariant
            i <= nodes@.len(),
            offset == i + 1,
            nodes@.len() == orig.len(),
            s == forest_view(orig),
            s.len() == orig.len(),
            s.len() < u64::MAX / 100,
            offsets_fit(s),
            forall|j: int| 0 <= j < orig.len() ==> #[trigger] s[j] == orig[j]@,
            forall|j: int| i <= j < orig.len() ==> #[trigger] nodes@[j] == orig[j],
            forest_view(nodes@.subrange(0, i as int)) == paste_children(s.subrange(0, i as int), base),
            orig == old(nodes)@,
        decreases nodes@.len() - i,
    {
        let ghost pre = nodes@;
        proof {
            assert(s.subrange(0, i + 1).drop_last() =~= s.subrange(0, i as int));
            assert(s.subrange(0, i + 1).last() == s[i as int]);
            lemma_offsets_fit_at(s, i as int);
        }
        let id = base.wrapping_add(offset * 100);
        renumber_pasted(&mut nodes[i].children, id);
        nodes[i].id = id;
        proof {
            assert(nodes@.subrange(0, i as int) =~= pre.subrange(0, i as int));
            assert(nodes@.subrange(0, i + 1) =~= pre.subrange(0, i as int).push(nodes@[i as int]));
            crate::scene_model::lemma_forest_view_push(pre.subrange(0, i as int), nodes@[i as int]);
            assert(id == wrap_add(base, (i + 1) * 100));
            assert(nodes@[i as int]@ == paste_renumber(s[i as int], id));
            assert(paste_children(s.subrange(0, i + 1), base) == paste_children(s.subrange(0, i as int), base).push(
                paste_renumber(s[i as int], wrap_add(base, (s.subrange(0, i + 1).len() * 100) as int)),
            ));
        }
        offset = offset + 1;
        i = i + 1;
    }
    proof {
        assert(nodes@.subrange(0, i as int) =~= nodes@);
        assert(s.subrange(0, i as int) =~= s);
    }
}

proof fn lemma_offsets_fit_at(s: Seq<SceneNodeView>, i: int)
    requires
        0 <= i < s.len(),
        offsets_fit(s),
    ensures
        s[i].children.len() < u64::MAX / 100,
        offsets_fit(s[i].children),
    decreases s.len(),
{
    if i < s.len() - 1 {
        lemma_offsets_fit_at(s.drop_last(), i);
    }
}

fn offsets_fit_exec(nodes: &Vec<SceneNode>) -> (r: bool)
    ensures
        r == offsets_fit(forest_view(nodes@)),
    decreases nodes@,
{
    let ghost s = forest_view(nodes@);
    proof {
        crate::scene_model::lemma_forest_view(nodes@);
        assert(s.subrange(0, 0) =~= Seq::<SceneNodeView>::empty());
    }
    let mut i: usize = 0;
    while i < nodes.len()
        invariant
            i <= nodes@.len(),
            s == forest_view(nodes@),
            s.len() == nodes@.len(),
            forall|j: int| 0 <= j < nodes@.len() ==> #[trigger] s[j] == nodes@[j]@,
            offsets_fit(s.subrange(0, i as int)),
        decreases nodes@.len() - i,
    {
        proof {
            assert(s.subrange(0, i + 1).drop_last() =~= s.subrange(0, i as int));
            assert(s.subrange(0, i + 1).last() == s[i as int]);
        }
        let kids = &nodes[i].children;
        proof {
            crate::scene_model::lemma_forest_view(kids@);
            assert(s[i as int].children == forest_view(kids@));
        }
        if kids.len() as u64 >= u64::MAX / 100 || !offsets_fit_exec(kids) {
            proof {
                if offsets_fit(s) {
                    lemma_offsets_fit_prefix(s, i + 1);
                }
            }
            return false;
        }
        i = i + 1;
    }
    proof {
        assert(s.subrange(0, i as int) =~= s);
    }
    true
}

proof fn lemma_offsets_fit_prefix(s: Seq<SceneNodeView>, k: int)
    requires
        0 <= k <= s.len(),
        offsets_fit(s),
    ensures
        offsets_fit(s.subrange(0, k)),
    decreases s.len(),
{
    if k < s.len() {
        lemma_offsets_fit_prefix(s.drop_last(), k);
        assert(s.drop_last().subrange(0, k) =~= s.subrange(0, k));
    } else {
        assert(s.subrange(0, k) =~= s);
    }
}

/// Whether `paste_node` can number the children of `clip`.
pub fn paste_fits(clip: &SceneNode) -> (r: bool)
    ensures
        r == (clip@.children.len() < u64::MAX / 100 && offsets_fit(clip@.children)),
{
    proof {
        crate::scene_model::lemma_forest_view(clip.children@);
    }
    (clip.children.len() as u64) < u64::MAX / 100 && offsets_fit_exec(&clip.children)
}

/// What pasting `clip` does: the pasted node gets the clipboard node's id
/// plus 20000 (wrapping), " (pasted)" after its name and x position `x`;
/// its children are renumbered from its new id; it goes under the selected
/// node (or to the top level) and is selected.
pub open spec fn spec_paste(v: SceneEditView, clip: SceneNodeView, x: u32) -> SceneEditView {
    let new_id = wrap_add(clip.id, 20000);
    let pasted = SceneNodeView {
        id: new_id,
        name: clip.name + " (pasted)"@,
        props: SceneNodeProps {
            translation: [x, clip.props.translation[1], clip.props.translation[2]],
            ..clip.props
        },
        children: paste_children(clip.children, new_id),
        ..clip
    };
    SceneEditView {
        selected: Some(new_id),
        ..recorded_edit(v, spec_add_node(v.nodes, v.selected, pasted), "Pasted node"@)
    }
}

/// Ctrl+V: paste the clipboard node at x position `x` (its x plus one,
/// worked out by the caller).
pub fn paste_node(
    clip: &SceneNode,
    x: u32,
    doc: &mut SceneDocument,
    selection: &mut SceneSelection,
    changed: &mut SceneChanged,
    ids: &SceneIdCounter,
    undo: &mut UndoHistory,
    console: &mut ConsoleLog,
)
    requires
        clip@.children.len() < u64::MAX / 100,
        offsets_fit(clip@.children),
    ensures
        edit_view(*final(doc), *final(selection), *final(changed), *ids, *final(undo), *final(console))
            == spec_paste(edit_view(*old(doc), *old(selection), *old(changed), *ids, *old(undo), *old(console)), clip@, x),
{
    let mut pasted = clip.deep_clone();
    let new_id = pasted.id.wrapping_add(20000);
    pasted.id = new_id;
    pasted.name.append(" (pasted)");
    pasted.props.translation = [x, pasted.props.translation[1], pasted.props.translation[2]];
    renumber_pasted(&mut pasted.children, new_id);
    undo.push_snapshot(&doc.nodes);
    doc.add_node(selection.selected, pasted);
    selection.selected = Some(new_id);
    changed.dirty = true;
    console.info(String::from_str("Pasted node"));
}

// ─── Focus, play mode, new scene ───────────────────────────────────────────

/// F: the point the camera should orbit, the selected node's position, with
/// "Focused on <name>" logged; nothing when no node in the scene is
/// selected.
pub fn focus_selected(doc: &SceneDocument, selection: &SceneSelection, console: &mut ConsoleLog) -> (focus: Option<[u32; 3]>)
    ensures
        match selection.selected {
            Some(sel) => match spec_find(doc@, sel) {
                Some(n) => {
                    &&& focus == Some(n.props.translation)
                    &&& final(console)@ == spec_log(old(console)@, LogLevel::Info, "Focused on "@ + n.name)
                },
                None => focus is None && final(console)@ == old(console)@,
            },
            None => focus is None && final(console)@ == old(console)@,
        },
{
    match selection.selected {
        Some(sel) => match doc.find_node(sel) {
            Some(node) => {
                let mut msg = String::from_str("Focused on ");
                append_str(&mut msg, node.name.as_str());
                console.info(msg);
                Some(node.props.translation)
            },
            None => None,
        },
        None => None,
    }
}

/// Enter play mode, keeping the camera orbit to restore on the way out;
/// the viewport is rebuilt so that physics starts from the scene.
pub fn enter_play_mode(orbit: SavedOrbit, editor: &mut EditorState, changed: &mut SceneChanged, console: &mut ConsoleLog)
    ensures
        *final(editor) == (EditorState { saved_orbit: Some(orbit), play_mode: true, ..*old(editor) }),
        final(changed).dirty,
        final(console)@ == spec_log(
            old(console)@,
            LogLevel::Info,
            "Entered play mode \u{2014} WASD to move, RMB+Mouse to look, Esc to stop"@,
        ),
{
    editor.saved_orbit = Some(orbit);
    editor.play_mode = true;
    changed.dirty = true;
    console.info(String::from_str("Entered play mode \u{2014} WASD to move, RMB+Mouse to look, Esc to stop"));
}

/// Leave play mode; gives back the camera orbit kept when it was entered.
pub fn exit_play_mode(editor: &mut EditorState, console: &mut ConsoleLog) -> (orbit: Option<SavedOrbit>)
    ensures
        orbit == old(editor).saved_orbit,
        *final(editor) == (EditorState { saved_orbit: None, play_mode: false, ..*old(editor) }),
        final(console)@ == spec_log(old(console)@, LogLevel::Info, "Exited play mode"@),
{
    let orbit = editor.saved_orbit.take();
    editor.play_mode = false;
    console.info(String::from_str("Exited play mode"));
    orbit
}

/// File > New Scene: the scene recorded for undo, then a fresh scene with no
/// file behind it.
pub fn new_scene(
    doc: &mut SceneDocument,
    changed: &mut SceneChanged,
    undo: &mut UndoHistory,
    editor: &mut EditorState,
    console: &mut ConsoleLog,
)
    ensures
        final(doc)@ == seq![crate::scene_doc::spec_ground(), crate::scene_doc::spec_sun()],
        final(undo)@ == spec_push_snapshot(old(undo)@, old(doc)@),
        *final(editor) == (EditorState { scene_file_path: None, scene_dirty: false, ..*old(editor) }),
        final(changed).dirty,
        final(console)@ == spec_log(old(console)@, LogLevel::Info, "New scene created"@),
{
    undo.push_snapshot(&doc.nodes);
    *doc = SceneDocument::default();
    editor.scene_file_path = None;
    editor.scene_dirty = false;
    changed.dirty = true;
    console.info(String::from_str("New scene created"));
}

// ─── Keyboard shortcuts ────────────────────────────────────────────────────

/// The keys the shortcuts look at: whether Ctrl (either) and left Shift are
/// held, and which keys went down this frame.
#[derive(Clone, Copy, Debug)]
pub struct ShortcutKeys {
    pub ctrl: bool,
    pub shift: bool,
    pub escape: bool,
    pub z: bool,
    pub y: bool,
    pub delete: bool,
    pub d: bool,
    pub c: bool,
    pub v: bool,
    pub q: bool,
    pub w: bool,
    pub e: bool,
    pub r: bool,
    pub f: bool,
    pub g: bool,
}

/// What a shortcut asks for.
#[derive(Clone, Copy, Debug, PartialEq, Eq, Structural)]
pub enum ShortcutCommand {
    ExitPlayMode,
    Undo,
    Redo,
    Delete,
    Duplicate,
    Copy,
    Paste,
    SetMode(TransformMode),
    Focus,
    ToggleGrid,
}

pub open spec fn cmd_if(b: bool, c: ShortcutCommand) -> Seq<ShortcutCommand> {
    if b { seq![c] } else { seq![] }
}

/// The commands of a frame, in the order they are carried out. In play
/// mode only Escape counts. Undo (Ctrl+Z) and redo (Ctrl+Y, Ctrl+Shift+Z)
/// work even while a text field has the keyboard; the others do not.
pub open spec fn spec_shortcuts(k: ShortcutKeys, play_mode: bool, text_has_focus: bool) -> Seq<ShortcutCommand> {
    if play_mode {
        cmd_if(k.escape, ShortcutCommand::ExitPlayMode)
    } else {
        let history = cmd_if(k.ctrl && k.z && !k.shift, ShortcutCommand::Undo)
            + cmd_if(k.ctrl && k.y, ShortcutCommand::Redo)
            + cmd_if(k.ctrl && k.z && k.shift, ShortcutCommand::Redo);
        if text_has_focus {
            history
        } else {
            history
                + cmd_if(k.delete, ShortcutCommand::Delete)
                + cmd_if(k.ctrl && k.d, ShortcutCommand::Duplicate)
                + cmd_if(k.ctrl && k.c, ShortcutCommand::Copy)
                + cmd_if(k.ctrl && k.v, ShortcutCommand::Paste)
                + cmd_if(!k.ctrl && k.q, ShortcutCommand::SetMode(TransformMode::Select))
                + cmd_if(!k.ctrl && k.w, ShortcutCommand::SetMode(TransformMode::Translate))
                + cmd_if(!k.ctrl && k.e, ShortcutCommand::SetMode(TransformMode::Rotate))
                + cmd_if(!k.ctrl && k.r, ShortcutCommand::SetMode(TransformMode::Scale))
                + cmd_if(k.f, ShortcutCommand::Focus)
                + cmd_if(k.g && !k.ctrl, ShortcutCommand::ToggleGrid)
        }
    }
}

fn push_when(out: &mut Vec<ShortcutCommand>, b: bool, c: ShortcutCommand)
    ensures
        final(out)@ == old(out)@ + cmd_if(b, c),
{
    if b {
        out.push(c);
    }
    proof {
        assert(final(out)@ =~= old(out)@ + cmd_if(b, c));
    }
}

/// The commands the keys of this frame ask for; see `spec_shortcuts`.
pub fn shortcut_commands(keys: ShortcutKeys, play_mode: bool, text_has_focus: bool) -> (cmds: Vec<ShortcutCommand>)
    ensures
        cmds@ == spec_shortcuts(keys, play_mode, text_has_focus),
{
    let mut out: Vec<ShortcutCommand> = Vec::new();
    proof {
        assert(out@ =~= Seq::<ShortcutCommand>::empty());
    }
    if play_mode {
        push_when(&mut out, keys.escape, ShortcutCommand::ExitPlayMode);
        proof {
            assert(out@ =~= spec_shortcuts(keys, play_mode, text_has_focus));
        }
        return out;
    }
    let k = keys;
    push_when(&mut out, k.ctrl && k.z && !k.shift, ShortcutCommand::Undo);
    push_when(&mut out, k.ctrl && k.y, ShortcutCommand::Redo);
    push_when(&mut out, k.ctrl && k.z && k.shift, ShortcutCommand::Redo);
    if text_has_focus {
        proof {
            assert(out@ =~= spec_shortcuts(keys, play_mode, text_has_focus));
        }
        return out;
    }
    push_when(&mut out, k.delete, ShortcutCommand::Delete);
    push_when(&mut out, k.ctrl && k.d, ShortcutCommand::Duplicate);
    push_when(&mut out, k.ctrl && k.c, ShortcutCommand::Copy);
    push_when(&mut out, k.ctrl && k.v, ShortcutCommand::Paste);
    push_when(&mut out, !k.ctrl && k.q, ShortcutCommand::SetMode(TransformMode::Select));
    push_when(&mut out, !k.ctrl && k.w, ShortcutCommand::SetMode(TransformMode::Translate));
    push_when(&mut out, !k.ctrl && k.e, ShortcutCommand::SetMode(TransformMode::Rotate));
    push_when(&mut out, !k.ctrl && k.r, ShortcutCommand::SetMode(TransformMode::Scale));
    push_when(&mut out, k.f, ShortcutCommand::Focus);
    push_when(&mut out, k.g && !k.ctrl, ShortcutCommand::ToggleGrid);
    proof {
        assert(out@ =~= spec_shortcuts(keys, play_mode, text_has_focus));
    }
    out
}

} // verus!
