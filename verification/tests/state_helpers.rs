use bevy_editor::console::{level_style, ConsoleLog, LogLevel};
use bevy_editor::editor_state::SceneIdCounter;
use bevy_editor::explorer::{collapse_folder, expand_folder, FolderEntry};
use bevy_editor::history::UndoHistory;
use bevy_editor::scene_actions::{hierarchy_action_fits, HierarchyAction};
use bevy_editor::scene_commands::paste_fits;
use bevy_editor::scene_doc::{DropPosition, SceneDocument};
use bevy_editor::scene_model::{new_scene_node, SceneNode, SceneNodeKind};
use bevy_editor::ui_doc::EditorDocument;
use bevy_editor::ui_model::{new_node, EditorIdCounter, EditorNodeType, EditorUiNode};

fn node_with_children(id: u64, kids: &[u64]) -> SceneNode {
    let mut n = new_scene_node(id, SceneNodeKind::Empty);
    for k in kids {
        n.children.push(new_scene_node(*k, SceneNodeKind::Empty));
    }
    n
}

fn folder(name: &str, depth: usize, has_subdirs: bool) -> FolderEntry {
    FolderEntry {
        path: format!("/p/{name}"),
        name: name.to_string(),
        depth,
        expanded: false,
        has_subdirs,
    }
}

#[test]
fn id_counters_report_the_next_id() {
    let mut ids = SceneIdCounter::default();
    assert_eq!(ids.current(), 100);
    assert_eq!(ids.next_id(), 100);
    assert_eq!(ids.current(), 101);
    let mut ui_ids = EditorIdCounter::default();
    assert_eq!(ui_ids.current(), 1);
    assert_eq!(ui_ids.next_id(), 1);
    assert_eq!(ui_ids.current(), 2);
}

#[test]
fn hierarchy_actions_fit_a_fresh_counter() {
    let doc = SceneDocument { nodes: vec![node_with_children(1, &[2, 3])] };
    let ids = SceneIdCounter::default();
    assert!(hierarchy_action_fits(HierarchyAction::Duplicate(1), &doc, &ids));
    assert!(hierarchy_action_fits(HierarchyAction::Duplicate(42), &doc, &ids));
    assert!(hierarchy_action_fits(HierarchyAction::AddRoot(SceneNodeKind::Empty), &doc, &ids));
    assert!(hierarchy_action_fits(HierarchyAction::Select(1), &doc, &ids));
}

#[test]
fn small_clipboard_fits_for_pasting() {
    assert!(paste_fits(&node_with_children(5, &[6, 7])));
    assert!(paste_fits(&new_scene_node(9, SceneNodeKind::Empty)));
}

#[test]
fn clearing_the_console_keeps_its_settings() {
    let mut c = ConsoleLog::default();
    c.warn("careful".to_string());
    assert_eq!(c.entries.len(), 2);
    c.clear();
    assert!(c.entries.is_empty());
    assert!(c.show);
    c.info("again".to_string());
    assert_eq!(c.entries.len(), 1);
    assert_eq!(c.entries[0].message, "again");
}

#[test]
fn log_levels_have_their_prefix_and_colour() {
    assert_eq!(level_style(LogLevel::Info), ("[INFO]", (160, 200, 160)));
    assert_eq!(level_style(LogLevel::Warn), ("[WARN]", (230, 200, 80)));
    assert_eq!(level_style(LogLevel::Error), ("[ERR] ", (230, 90, 90)));
}

#[test]
fn discarding_the_last_snapshot_leaves_the_earlier_ones() {
    let mut h = UndoHistory::default();
    h.push_snapshot(&vec![new_scene_node(1, SceneNodeKind::Empty)]);
    h.push_snapshot(&vec![new_scene_node(2, SceneNodeKind::Empty)]);
    h.discard_last();
    let back = h.undo(&Vec::new()).unwrap();
    assert_eq!(back[0].id, 1);
    h.discard_last();
    h.discard_last();
    assert!(!h.can_undo());
}

#[test]
fn collapsing_an_expanded_folder_gives_back_the_tree() {
    let mut tree = vec![folder("assets", 0, true), folder("src", 0, false)];
    expand_folder(&mut tree, 0, vec![folder("models", 1, false), folder("textures", 1, false)]);
    let names: Vec<&str> = tree.iter().map(|f| f.name.as_str()).collect();
    assert_eq!(names, vec!["assets", "models", "textures", "src"]);
    assert!(tree[0].expanded);
    collapse_folder(&mut tree, 0);
    let names: Vec<&str> = tree.iter().map(|f| f.name.as_str()).collect();
    assert_eq!(names, vec!["assets", "src"]);
    assert!(!tree[0].expanded);
}

#[test]
fn removing_a_just_added_scene_node_restores_the_scene() {
    let mut doc = SceneDocument { nodes: vec![node_with_children(1, &[2, 3])] };
    let before: Vec<(u64, String)> = doc.collect_ids();
    doc.add_node(Some(2), new_scene_node(50, SceneNodeKind::Empty));
    assert_ne!(doc.collect_ids(), before);
    assert!(doc.remove_node(50));
    assert_eq!(doc.collect_ids(), before);
    doc.add_node(Some(99), new_scene_node(51, SceneNodeKind::Empty));
    let taken = doc.take_node(51).unwrap();
    assert_eq!(taken.id, 51);
    assert_eq!(doc.collect_ids(), before);
}

#[test]
fn removing_a_just_added_ui_node_restores_the_document() {
    let mut doc = EditorDocument::default();
    doc.add_child(Some(1), new_node(7, EditorNodeType::Text));
    let ids_of = |d: &EditorDocument| -> Vec<u64> {
        let mut out = Vec::new();
        let mut stack: Vec<&EditorUiNode> = d.roots.iter().rev().collect();
        while let Some(n) = stack.pop() {
            out.push(n.id);
            stack.extend(n.children.iter().rev());
        }
        out
    };
    let before = ids_of(&doc);
    doc.add_child(Some(7), new_node(8, EditorNodeType::Button));
    assert_eq!(ids_of(&doc), vec![1, 7, 8]);
    assert!(doc.remove_node(8));
    assert_eq!(ids_of(&doc), before);
    doc.add_child(Some(42), new_node(9, EditorNodeType::Image));
    assert!(!doc.remove_node(9));
    assert_eq!(ids_of(&doc), before);
}

#[test]
fn a_moved_node_keeps_its_subtree() {
    for pos in [DropPosition::Before, DropPosition::Inside, DropPosition::After] {
        let mut doc = SceneDocument { nodes: vec![node_with_children(1, &[2, 3]), node_with_children(4, &[5])] };
        doc.find_node_mut(4).unwrap().name = "Mover".to_string();
        assert!(doc.move_node(4, 2, pos));
        let moved = doc.find_node(4).unwrap();
        assert_eq!(moved.name, "Mover");
        assert_eq!(moved.children.len(), 1);
        assert_eq!(moved.children[0].id, 5);
        assert_eq!(doc.nodes.len(), 1);
    }
}

#[test]
fn find_gives_the_first_listed_node_with_its_id() {
    let mut doc = SceneDocument { nodes: vec![node_with_children(1, &[2, 3]), node_with_children(4, &[5])] };
    doc.find_node_mut(5).unwrap().name = "Five".to_string();
    let listed = doc.collect_ids();
    let first = listed.iter().find(|(i, _)| *i == 5).unwrap();
    let found = doc.find_node(5).unwrap();
    assert_eq!((found.id, found.name.clone()), first.clone());
    assert!(doc.find_node(9).is_none());
    assert!(!listed.iter().any(|(i, _)| *i == 9));
    let found_name = doc.find_node(3).unwrap().name.clone();
    let taken = doc.take_node(3).unwrap();
    assert_eq!(taken.name, found_name);
}
