//! Dragging a gizmo handle in the viewport, apart from the geometry: which
//! value the drag starts from, recording the scene once the mouse really
//! moves, and calling the drag off with Escape.

use vstd::prelude::*;

use crate::editor_state::{SceneChanged, SceneSelection, TransformMode};
use crate::history::{spec_discard_last, spec_push_snapshot, HistoryView, UndoHistory, HISTORY_CAPACITY, law_discard_undoes_push};
use crate::scene_doc::{spec_find, spec_replace, SceneDocument};
use crate::scene_laws::law_write_back_restores;
use crate::scene_model::{SceneNodeProps, SceneNodeView};

verus! {

/// The part of a node's transform a drag in `mode` changes; nothing in
/// select mode.
pub open spec fn spec_drag_part(props: SceneNodeProps, mode: TransformMode) -> [u32; 3] {
    match mode {
        TransformMode::Translate => props.translation,
        TransformMode::Rotate => props.rotation_euler,
        TransformMode::Scale => props.scale,
        TransformMode::Select => [0u32, 0u32, 0u32],
    }
}

/// `n` with the part that a drag in `mode` changes set to `v`.
pub open spec fn spec_with_drag_part(n: SceneNodeView, mode: TransformMode, v: [u32; 3]) -> SceneNodeView {
    match mode {
        TransformMode::Translate => SceneNodeView { props: SceneNodeProps { translation: v, ..n.props }, ..n },
        TransformMode::Rotate => SceneNodeView { props: SceneNodeProps { rotation_euler: v, ..n.props }, ..n },
        TransformMode::Scale => SceneNodeView { props: SceneNodeProps { scale: v, ..n.props }, ..n },
        TransformMode::Select => n,
    }
}

/// The value a drag in `mode` starts from, kept to be put back on Escape.
pub fn drag_start_value(mode: TransformMode, props: &SceneNodeProps) -> (r: [u32; 3])
    ensures
        r == spec_drag_part(*props, mode),
{
    match mode {
        TransformMode::Translate => props.translation,
        TransformMode::Rotate => props.rotation_euler,
        TransformMode::Scale => props.scale,
        TransformMode::Select => [0, 0, 0],
    }
}

/// A frame of the drag: the first time the mouse has really moved, the scene
/// is recorded for undo, once per drag.
pub fn record_drag_move(doc: &SceneDocument, undo: &mut UndoHistory, snapshot_pushed: &mut bool, moved: bool)
    ensures
        !*old(snapshot_pushed) && moved ==> final(undo)@ == spec_push_snapshot(old(undo)@, doc@) && *final(snapshot_pushed),
        *old(snapshot_pushed) || !moved ==> final(undo)@ == old(undo)@ && *final(snapshot_pushed) == *old(snapshot_pushed),
{
    if !*snapshot_pushed && moved {
        undo.push_snapshot(&doc.nodes);
        *snapshot_pushed = true;
    }
}

/// Escape during a drag: the selected node gets back the value the drag
/// started from and the viewport is rebuilt; the scene recorded for the drag
/// is forgotten when one was recorded.
pub fn cancel_drag(
    doc: &mut SceneDocument,
    selection: &SceneSelection,
    changed: &mut SceneChanged,
    undo: &mut UndoHistory,
    mode: TransformMode,
    start_value: [u32; 3],
    snapshot_pushed: bool,
)
    ensures
        match selection.selected {
            Some(sel) => match spec_find(old(doc)@, sel) {
                Some(n) => final(doc)@ == spec_replace(old(doc)@, sel, spec_with_drag_part(n, mode, start_value))
                    && final(changed).dirty,
                None => final(doc)@ == old(doc)@ && final(changed).dirty == old(changed).dirty,
            },
            None => final(doc)@ == old(doc)@ && final(changed).dirty == old(changed).dirty,
        },
        final(undo)@ == if snapshot_pushed { spec_discard_last(old(undo)@) } else { old(undo)@ },
{
    match selection.selected {
        Some(sel) => match doc.find_node_mut(sel) {
            Some(node) => {
                match mode {
                    TransformMode::Translate => node.props.translation = start_value,
                    TransformMode::Rotate => node.props.rotation_euler = start_value,
                    TransformMode::Scale => node.props.scale = start_value,
                    TransformMode::Select => {},
                }
                changed.dirty = true;
            },
            None => {},
        },
        None => {},
    }
    if snapshot_pushed {
        undo.discard_last();
    }
}

/// Escape takes a drag back: a drag from the scene `s` and the history `h`
/// that recorded the scene and changed the dragged part of the selected node
/// `id` to `v` is called off with the node, hence the scene, as before and
/// the undo stack as before (when recording did not push its oldest scene
/// out).
pub proof fn law_cancel_undoes_drag(s: Seq<SceneNodeView>, h: HistoryView, id: u64, mode: TransformMode, v: [u32; 3])
    requires
        spec_find(s, id) is Some,
        h.undo.len() < HISTORY_CAPACITY,
    ensures
        ({
            let n = spec_find(s, id)->0;
            let dragged = spec_replace(s, id, spec_with_drag_part(n, mode, v));
            let moved = spec_find(dragged, id)->0;
            &&& spec_replace(dragged, id, spec_with_drag_part(moved, mode, spec_drag_part(n.props, mode))) == s
            &&& spec_discard_last(spec_push_snapshot(h, s)).undo == h.undo
        }),
{
    let n = spec_find(s, id)->0;
    crate::scene_laws::lemma_find_bag(s, id);
    let a = spec_with_drag_part(n, mode, v);
    law_write_back_restores(s, id, a);
    assert(spec_with_drag_part(a, mode, spec_drag_part(n.props, mode)) == n);
    law_discard_undoes_push(h, s);
}

} // verus!
