use bevy_editor::console::{ConsoleLog, LogLevel};
use bevy_editor::editor_state::{EditorState, SceneChanged, SceneIdCounter, SceneSelection, TransformMode};
use bevy_editor::history::UndoHistory;
use bevy_editor::scene_actions::{
    apply_hierarchy_action, drop_position_for, finish_drag, HierarchyAction,
};
use bevy_editor::scene_commands::{
    add_object, copy_selected, delete_selected, enter_play_mode, exit_play_mode, focus_selected, new_scene,
    paste_node, redo_step, shortcut_commands, shortcut_duplicate, toolbar_delete, toolbar_duplicate, undo_step,
    ShortcutCommand, ShortcutKeys,
};
use bevy_editor::scene_doc::{DragDropState, DropPosition, DropTarget, SceneDocument};
use bevy_editor::scene_model::{new_scene_node, SceneLightKind, SceneNode, SceneNodeKind, ScenePrimitive};

struct World {
    doc: SceneDocument,
    sel: SceneSelection,
    changed: SceneChanged,
    ids: SceneIdCounter,
    undo: UndoHistory,
    console: ConsoleLog,
}

fn world() -> World {
    let mut root = new_scene_node(1, SceneNodeKind::Empty);
    root.name = "Root".to_string();
    let mut child = new_scene_node(5, SceneNodeKind::Mesh(ScenePrimitive::Cube));
    child.children.push(new_scene_node(6, SceneNodeKind::Empty));
    root.children.push(child);
    let mut changed = SceneChanged::default();
    changed.dirty = false;
    World {
        doc: SceneDocument { nodes: vec![root, new_scene_node(2, SceneNodeKind::Empty)] },
        sel: SceneSelection::default(),
        changed,
        ids: SceneIdCounter::default(),
        undo: UndoHistory::default(),
        console: ConsoleLog::default(),
    }
}

fn act(w: &mut World, a: HierarchyAction) {
    apply_hierarchy_action(a, &mut w.doc, &mut w.sel, &mut w.changed, &mut w.ids, &mut w.undo, &mut w.console);
}

fn last_msg(c: &ConsoleLog) -> String {
    c.entries.last().unwrap().message.clone()
}

fn ids(nodes: &[SceneNode]) -> Vec<u64> {
    nodes.iter().map(|n| n.id).collect()
}

fn all_ids(doc: &SceneDocument) -> Vec<u64> {
    doc.collect_ids().into_iter().map(|(i, _)| i).collect()
}

#[test]
fn select_only_selects() {
    let mut w = world();
    act(&mut w, HierarchyAction::Select(5));
    assert_eq!(w.sel.selected, Some(5));
    assert!(!w.changed.dirty);
    assert!(!w.undo.can_undo());
}

#[test]
fn toggle_visibility_flips_flag() {
    let mut w = world();
    act(&mut w, HierarchyAction::ToggleVisibility(6));
    assert!(!w.doc.find_node(6).unwrap().visible);
    assert!(w.changed.dirty);
    act(&mut w, HierarchyAction::ToggleVisibility(6));
    assert!(w.doc.find_node(6).unwrap().visible);
    assert!(!w.undo.can_undo());
}

#[test]
fn delete_removes_subtree_and_clears_selection() {
    let mut w = world();
    w.sel.selected = Some(5);
    act(&mut w, HierarchyAction::Delete(5));
    assert_eq!(all_ids(&w.doc), vec![1, 2]);
    assert_eq!(w.sel.selected, None);
    assert_eq!(last_msg(&w.console), "Deleted node 5");
    assert!(w.undo.can_undo());
}

#[test]
fn duplicate_gives_fresh_ids_in_pre_order() {
    let mut w = world();
    act(&mut w, HierarchyAction::Duplicate(5));
    let copy = w.doc.nodes.last().unwrap();
    assert_eq!(copy.id, 100);
    assert_eq!(copy.name, "Cube (copy)");
    assert_eq!(ids(&copy.children), vec![101]);
    assert_eq!(w.ids.next_id(), 102);
    assert_eq!(last_msg(&w.console), "Duplicated node 5");
    let mut all = all_ids(&w.doc);
    all.sort();
    all.dedup();
    assert_eq!(all.len(), 6);
}

#[test]
fn duplicate_of_missing_node_does_nothing() {
    let mut w = world();
    act(&mut w, HierarchyAction::Duplicate(77));
    assert_eq!(all_ids(&w.doc), vec![1, 5, 6, 2]);
    assert!(!w.undo.can_undo());
    assert_eq!(w.ids.next_id(), 100);
}

#[test]
fn unparent_moves_to_top_level() {
    let mut w = world();
    act(&mut w, HierarchyAction::Unparent(6));
    assert_eq!(ids(&w.doc.nodes), vec![1, 2, 6]);
    assert_eq!(last_msg(&w.console), "Unparented node 6 to root");
    // A missing node still records the scene for undo.
    act(&mut w, HierarchyAction::Unparent(404));
    assert_eq!(ids(&w.doc.nodes), vec![1, 2, 6]);
    assert_eq!(w.undo.undo_stack.len(), 2);
}

#[test]
fn add_child_and_add_root() {
    let mut w = world();
    act(&mut w, HierarchyAction::AddChild(2, SceneNodeKind::Light(SceneLightKind::Point)));
    let parent = w.doc.find_node(2).unwrap();
    assert_eq!(parent.children[0].id, 100);
    assert_eq!(parent.children[0].name, "Point Light");
    assert_eq!(last_msg(&w.console), "Added child to node 2");
    assert_eq!(w.sel.selected, None);
    act(&mut w, HierarchyAction::AddRoot(SceneNodeKind::Mesh(ScenePrimitive::Sphere)));
    assert_eq!(w.doc.nodes.last().unwrap().id, 101);
    assert_eq!(w.sel.selected, Some(101));
    assert_eq!(last_msg(&w.console), "Added Sphere");
}

#[test]
fn undo_reverts_a_hierarchy_action() {
    let mut w = world();
    act(&mut w, HierarchyAction::Delete(1));
    assert_eq!(all_ids(&w.doc), vec![2]);
    undo_step(&mut w.doc, &mut w.changed, &mut w.undo, &mut w.console);
    assert_eq!(all_ids(&w.doc), vec![1, 5, 6, 2]);
    assert_eq!(last_msg(&w.console), "Undo");
    redo_step(&mut w.doc, &mut w.changed, &mut w.undo, &mut w.console);
    assert_eq!(all_ids(&w.doc), vec![2]);
    assert_eq!(last_msg(&w.console), "Redo");
}

#[test]
fn undo_with_nothing_recorded_logs_nothing() {
    let mut w = world();
    let before = w.console.entries.len();
    undo_step(&mut w.doc, &mut w.changed, &mut w.undo, &mut w.console);
    redo_step(&mut w.doc, &mut w.changed, &mut w.undo, &mut w.console);
    assert_eq!(w.console.entries.len(), before);
    assert!(!w.changed.dirty);
}

#[test]
fn drop_position_by_row_zone() {
    assert_eq!(drop_position_for(true, false, false), DropPosition::Before);
    assert_eq!(drop_position_for(false, true, false), DropPosition::After);
    assert_eq!(drop_position_for(false, true, true), DropPosition::Inside);
    assert_eq!(drop_position_for(false, false, false), DropPosition::Inside);
}

#[test]
fn finishing_a_drag_moves_the_node() {
    let mut w = world();
    let mut drag = DragDropState::default();
    // Drag starts on node 6 this frame, pointer over node 2.
    let target = Some(DropTarget { target_id: 2, position: DropPosition::Inside });
    finish_drag(&mut drag, &mut w.doc, &mut w.changed, &mut w.undo, &mut w.console, Some(6), target, false, false);
    assert_eq!(drag.dragging, Some(6));
    assert!(drag.drop_target.is_some());
    // Released on the next frame.
    finish_drag(&mut drag, &mut w.doc, &mut w.changed, &mut w.undo, &mut w.console, None, target, false, true);
    assert!(drag.dragging.is_none());
    assert!(drag.drop_target.is_none());
    assert_eq!(ids(&w.doc.find_node(2).unwrap().children), vec![6]);
    assert_eq!(last_msg(&w.console), "Moved node 6");
    assert!(w.changed.dirty);
}

#[test]
fn dropping_onto_a_descendant_is_refused_but_recorded() {
    let mut w = world();
    let mut drag = DragDropState { dragging: Some(1), drop_target: None };
    let target = Some(DropTarget { target_id: 6, position: DropPosition::Inside });
    finish_drag(&mut drag, &mut w.doc, &mut w.changed, &mut w.undo, &mut w.console, None, target, true, false);
    assert_eq!(all_ids(&w.doc), vec![1, 5, 6, 2]);
    assert!(w.undo.can_undo());
    assert!(!w.changed.dirty);
    assert!(drag.dragging.is_none());
}

#[test]
fn toolbar_add_object_under_selection() {
    let mut w = world();
    let mut editor = EditorState::default();
    w.sel.selected = Some(2);
    add_object(
        SceneNodeKind::Light(SceneLightKind::Directional),
        &mut w.doc, &mut w.sel, &mut w.changed, &mut w.ids, &mut w.undo, &mut editor, &mut w.console,
    );
    assert_eq!(ids(&w.doc.find_node(2).unwrap().children), vec![100]);
    assert_eq!(w.sel.selected, Some(100));
    assert!(editor.scene_dirty);
    assert_eq!(last_msg(&w.console), "Added Directional Light");
    add_object(SceneNodeKind::Empty, &mut w.doc, &mut w.sel, &mut w.changed, &mut w.ids, &mut w.undo, &mut editor, &mut w.console);
    assert_eq!(last_msg(&w.console), "Added Empty node");
}

#[test]
fn delete_selected_from_keyboard_and_toolbar() {
    let mut w = world();
    assert!(!delete_selected(&mut w.doc, &mut w.sel, &mut w.changed, &w.ids, &mut w.undo, &mut w.console));
    w.sel.selected = Some(5);
    assert!(delete_selected(&mut w.doc, &mut w.sel, &mut w.changed, &w.ids, &mut w.undo, &mut w.console));
    assert_eq!(all_ids(&w.doc), vec![1, 2]);
    assert_eq!(last_msg(&w.console), "Deleted node");
    let mut editor = EditorState::default();
    toolbar_delete(&mut w.doc, &mut w.sel, &mut w.changed, &w.ids, &mut w.undo, &mut editor, &mut w.console);
    assert!(!editor.scene_dirty);
    w.sel.selected = Some(2);
    toolbar_delete(&mut w.doc, &mut w.sel, &mut w.changed, &w.ids, &mut w.undo, &mut editor, &mut w.console);
    assert!(editor.scene_dirty);
    assert_eq!(all_ids(&w.doc), vec![1]);
}

#[test]
fn duplicate_selected_from_toolbar_and_keyboard() {
    let mut w = world();
    let mut editor = EditorState::default();
    w.sel.selected = Some(5);
    let x = (0.5f32 + 1.0).to_bits();
    toolbar_duplicate(x, &mut w.doc, &mut w.sel, &mut w.changed, &mut w.ids, &mut w.undo, &mut editor, &mut w.console);
    let d = w.doc.nodes.last().unwrap();
    assert_eq!(d.id, 100);
    assert_eq!(d.name, "Cube (copy)");
    assert_eq!(f32::from_bits(d.props.translation[0]), 1.5);
    // The copied subtree keeps its ids.
    assert_eq!(ids(&d.children), vec![6]);
    assert_eq!(w.sel.selected, Some(100));
    assert!(editor.scene_dirty);
    w.sel.selected = Some(2);
    shortcut_duplicate(x, &mut w.doc, &mut w.sel, &mut w.changed, &w.ids, &mut w.undo, &mut w.console);
    assert_eq!(w.doc.nodes.last().unwrap().id, 10002);
    assert_eq!(w.sel.selected, Some(10002));
    assert_eq!(last_msg(&w.console), "Duplicated node");
}

#[test]
fn copy_and_paste_renumber_children() {
    let mut w = world();
    w.sel.selected = Some(5);
    let clip = copy_selected(&w.doc, &w.sel, &mut w.console).unwrap();
    assert_eq!(last_msg(&w.console), "Copied Cube");
    w.sel.selected = Some(2);
    paste_node(&clip, 0, &mut w.doc, &mut w.sel, &mut w.changed, &w.ids, &mut w.undo, &mut w.console);
    let p = &w.doc.find_node(2).unwrap().children[0];
    assert_eq!(p.id, 20005);
    assert_eq!(p.name, "Cube (pasted)");
    assert_eq!(ids(&p.children), vec![20105]);
    assert_eq!(w.sel.selected, Some(20005));
    assert_eq!(last_msg(&w.console), "Pasted node");
}

#[test]
fn focus_on_selected_node() {
    let mut w = world();
    assert!(focus_selected(&w.doc, &w.sel, &mut w.console).is_none());
    w.sel.selected = Some(5);
    let f = focus_selected(&w.doc, &w.sel, &mut w.console).unwrap();
    assert_eq!(f32::from_bits(f[1]), 0.5);
    assert_eq!(last_msg(&w.console), "Focused on Cube");
}

#[test]
fn play_mode_round_trip() {
    let mut w = world();
    let mut editor = EditorState::default();
    let orbit = (1u32, 2u32, 3u32, [4u32, 5, 6]);
    enter_play_mode(orbit, &mut editor, &mut w.changed, &mut w.console);
    assert!(editor.play_mode);
    assert!(w.changed.dirty);
    let back = exit_play_mode(&mut editor, &mut w.console);
    assert_eq!(back, Some(orbit));
    assert!(!editor.play_mode);
    assert!(editor.saved_orbit.is_none());
    assert_eq!(last_msg(&w.console), "Exited play mode");
}

#[test]
fn new_scene_resets_document() {
    let mut w = world();
    let mut editor = EditorState::default();
    editor.scene_file_path = Some("a.json".to_string());
    editor.scene_dirty = true;
    new_scene(&mut w.doc, &mut w.changed, &mut w.undo, &mut editor, &mut w.console);
    assert_eq!(ids(&w.doc.nodes), vec![1, 2]);
    assert!(editor.scene_file_path.is_none());
    assert!(!editor.scene_dirty);
    assert_eq!(last_msg(&w.console), "New scene created");
    assert!(w.undo.can_undo());
}

fn keys() -> ShortcutKeys {
    ShortcutKeys {
        ctrl: false, shift: false, escape: false, z: false, y: false, delete: false, d: false, c: false,
        v: false, q: false, w: false, e: false, r: false, f: false, g: false,
    }
}

#[test]
fn shortcuts_in_play_mode_only_escape() {
    let mut k = keys();
    k.delete = true;
    k.escape = true;
    assert_eq!(shortcut_commands(k, true, false), vec![ShortcutCommand::ExitPlayMode]);
    k.escape = false;
    assert!(shortcut_commands(k, true, false).is_empty());
}

#[test]
fn shortcuts_undo_redo_even_when_typing() {
    let mut k = keys();
    k.ctrl = true;
    k.z = true;
    k.d = true;
    assert_eq!(shortcut_commands(k, false, true), vec![ShortcutCommand::Undo]);
    k.shift = true;
    assert_eq!(shortcut_commands(k, false, true), vec![ShortcutCommand::Redo]);
    k.shift = false;
    assert_eq!(shortcut_commands(k, false, false), vec![ShortcutCommand::Undo, ShortcutCommand::Duplicate]);
}

#[test]
fn shortcuts_modes_need_no_ctrl() {
    let mut k = keys();
    k.w = true;
    k.g = true;
    k.f = true;
    assert_eq!(
        shortcut_commands(k, false, false),
        vec![ShortcutCommand::SetMode(TransformMode::Translate), ShortcutCommand::Focus, ShortcutCommand::ToggleGrid]
    );
    k.ctrl = true;
    assert_eq!(shortcut_commands(k, false, false), vec![ShortcutCommand::Focus]);
}

#[test]
fn console_messages_are_info() {
    let mut w = world();
    act(&mut w, HierarchyAction::Delete(2));
    assert_eq!(w.console.entries.last().unwrap().level, LogLevel::Info);
}

#[test]
fn undo_reverts_toolbar_and_shortcut_commands() {
    let mut w = world();
    let before = all_ids(&w.doc);
    let mut editor = EditorState::default();
    w.sel.selected = Some(5);
    add_object(SceneNodeKind::Light(SceneLightKind::Spot), &mut w.doc, &mut w.sel, &mut w.changed, &mut w.ids, &mut w.undo, &mut editor, &mut w.console);
    assert_eq!(all_ids(&w.doc), vec![1, 5, 6, 100, 2]);
    undo_step(&mut w.doc, &mut w.changed, &mut w.undo, &mut w.console);
    assert_eq!(all_ids(&w.doc), before);

    w.sel.selected = Some(5);
    toolbar_delete(&mut w.doc, &mut w.sel, &mut w.changed, &w.ids, &mut w.undo, &mut editor, &mut w.console);
    assert_eq!(all_ids(&w.doc), vec![1, 2]);
    undo_step(&mut w.doc, &mut w.changed, &mut w.undo, &mut w.console);
    assert_eq!(all_ids(&w.doc), before);

    let clip = new_scene_node(2, SceneNodeKind::Empty);
    w.sel.selected = None;
    paste_node(&clip, 0, &mut w.doc, &mut w.sel, &mut w.changed, &w.ids, &mut w.undo, &mut w.console);
    assert_eq!(all_ids(&w.doc), vec![1, 5, 6, 2, 20002]);
    undo_step(&mut w.doc, &mut w.changed, &mut w.undo, &mut w.console);
    assert_eq!(all_ids(&w.doc), before);
}

#[test]
fn added_objects_take_fresh_ids() {
    let mut w = world();
    let mut editor = EditorState::default();
    for _ in 0..3 {
        add_object(SceneNodeKind::Empty, &mut w.doc, &mut w.sel, &mut w.changed, &mut w.ids, &mut w.undo, &mut editor, &mut w.console);
    }
    let mut all = all_ids(&w.doc);
    all.sort();
    all.dedup();
    assert_eq!(all.len(), all_ids(&w.doc).len());
    assert_eq!(w.ids.current(), 103);
}
