//! What the UI editor's toolbar and hierarchy panel do: add a node under
//! the selection, delete the selection, select a row.

use vstd::prelude::*;

use crate::text::append_str;
use crate::ui_doc::{spec_add_child, spec_take, EditorDocument};
use crate::ui_model::{
    new_node, spec_default_style, spec_node_type_name, EditorChanged, EditorIdCounter, EditorNodeType,
    EditorSelection, EditorUiNodeView,
};

verus! {

/// A fresh node of the given type.
pub open spec fn spec_new_ui_node(id: u64, node_type: EditorNodeType) -> EditorUiNodeView {
    EditorUiNodeView {
        id,
        name: spec_node_type_name(node_type),
        node_type,
        style: spec_default_style(),
        text_content: seq![],
        image_path: seq![],
        children: seq![],
    }
}

/// An "+ <type>" button: a new node of that type goes under the selected
/// node (or becomes a root when nothing is selected) and is selected.
pub fn add_ui_node(
    node_type: EditorNodeType,
    document: &mut EditorDocument,
    selection: &mut EditorSelection,
    ids: &mut EditorIdCounter,
    changed: &mut EditorChanged,
)
    requires
        old(ids)@ < u64::MAX,
    ensures
        final(document)@ == spec_add_child(old(document)@, old(selection).selected, spec_new_ui_node(old(ids)@, node_type)),
        final(selection).selected == Some(old(ids)@),
        final(ids)@ == old(ids)@ + 1,
        final(changed).dirty,
{
    let id = ids.next_id();
    let node = new_node(id, node_type);
    document.add_child(selection.selected, node);
    selection.selected = Some(id);
    changed.dirty = true;
}

/// The delete button: the selected node goes with its subtree and the
/// selection is cleared; nothing happens when nothing is selected.
pub fn delete_selected_ui(document: &mut EditorDocument, selection: &mut EditorSelection, changed: &mut EditorChanged)
    ensures
        match old(selection).selected {
            Some(sel) => {
                &&& final(document)@ == spec_take(old(document)@, sel).0
                &&& final(selection).selected is None
                &&& final(changed).dirty
            },
            None => {
                &&& final(document)@ == old(document)@
                &&& final(selection).selected is None
                &&& final(changed).dirty == old(changed).dirty
            },
        },
{
    match selection.selected {
        Some(sel) => {
            document.remove_node(sel);
            selection.selected = None;
            changed.dirty = true;
        },
        None => {},
    }
}

/// What a row of the UI hierarchy asks for.
#[derive(Clone, Copy, Debug, PartialEq, Eq, Structural)]
pub enum UiHierarchyAction {
    Select(u64),
}

pub fn apply_ui_action(action: UiHierarchyAction, selection: &mut EditorSelection)
    ensures
        match action {
            UiHierarchyAction::Select(id) => final(selection).selected == Some(id),
        },
{
    match action {
        UiHierarchyAction::Select(id) => {
            selection.selected = Some(id);
        },
    }
}

/// The text of a row: `[<type>] <name>`.
pub fn tree_label(node_type: EditorNodeType, name: &str) -> (r: String)
    ensures
        r@ == "["@ + node_type.spec_label() + "] "@ + name@,
{
    let mut s = String::from_str("[");
    let t = node_type.label();
    append_str(&mut s, t.as_str());
    append_str(&mut s, "] ");
    append_str(&mut s, name);
    s
}

} // verus!
