use bevy_editor::console::{ConsoleLog, LogLevel};
use bevy_editor::editor_state::{EditorState, SceneChanged, SceneIdCounter, SceneSelection, TransformMode};
use bevy_editor::history::UndoHistory;
use bevy_editor::scene_model::{new_scene_node, SceneNode, SceneNodeKind};

fn scene(ids: &[u64]) -> Vec<SceneNode> {
    ids.iter().map(|i| new_scene_node(*i, SceneNodeKind::Empty)).collect()
}

fn ids(nodes: &[SceneNode]) -> Vec<u64> {
    nodes.iter().map(|n| n.id).collect()
}

#[test]
fn undo_brings_back_the_recorded_scene() {
    let mut h = UndoHistory::default();
    assert!(!h.can_undo());
    h.push_snapshot(&scene(&[1]));
    assert!(h.can_undo());
    let back = h.undo(&scene(&[1, 2])).unwrap();
    assert_eq!(ids(&back), vec![1]);
    assert!(h.can_redo());
    let fwd = h.redo(&back).unwrap();
    assert_eq!(ids(&fwd), vec![1, 2]);
    assert!(!h.can_redo());
}

#[test]
fn undo_and_redo_on_empty_history_do_nothing() {
    let mut h = UndoHistory::default();
    assert!(h.undo(&scene(&[1])).is_none());
    assert!(h.redo(&scene(&[1])).is_none());
    assert!(!h.can_undo());
    assert!(!h.can_redo());
}

#[test]
fn new_snapshot_clears_redo() {
    let mut h = UndoHistory::default();
    h.push_snapshot(&scene(&[1]));
    h.undo(&scene(&[2]));
    assert!(h.can_redo());
    h.push_snapshot(&scene(&[3]));
    assert!(!h.can_redo());
}

#[test]
fn history_keeps_fifty_snapshots() {
    let mut h = UndoHistory::default();
    for i in 0..60u64 {
        h.push_snapshot(&scene(&[i]));
    }
    assert_eq!(h.undo_stack.len(), 50);
    // The oldest ten were dropped.
    assert_eq!(h.undo_stack[0][0].id, 10);
    let mut current = scene(&[99]);
    let mut count = 0;
    while let Some(prev) = h.undo(&current) {
        current = prev;
        count += 1;
    }
    assert_eq!(count, 50);
    assert_eq!(ids(&current), vec![10]);
}

#[test]
fn console_starts_with_greeting() {
    let c = ConsoleLog::default();
    assert!(c.show);
    assert_eq!(c.entries.len(), 1);
    assert_eq!(c.entries[0].level, LogLevel::Info);
    assert_eq!(c.entries[0].message, "Editor initialized.");
}

#[test]
fn console_levels() {
    let mut c = ConsoleLog::default();
    c.info("a".to_string());
    c.warn("b".to_string());
    c.error("c".to_string());
    c.log(LogLevel::Warn, "d".to_string());
    let got: Vec<(LogLevel, String)> = c.entries.iter().map(|e| (e.level, e.message.clone())).collect();
    assert_eq!(
        got,
        vec![
            (LogLevel::Info, "Editor initialized.".to_string()),
            (LogLevel::Info, "a".to_string()),
            (LogLevel::Warn, "b".to_string()),
            (LogLevel::Error, "c".to_string()),
            (LogLevel::Warn, "d".to_string()),
        ]
    );
}

#[test]
fn console_keeps_two_hundred_entries() {
    let mut c = ConsoleLog::default();
    for i in 0..250 {
        c.info(format!("m{i}"));
    }
    assert_eq!(c.entries.len(), 200);
    assert_eq!(c.entries[199].message, "m249");
    assert_eq!(c.entries[0].message, "m50");
}

#[test]
fn scene_ids_count_up_from_one_hundred() {
    let mut ids = SceneIdCounter::default();
    assert_eq!(ids.next_id(), 100);
    assert_eq!(ids.next_id(), 101);
    assert_eq!(ids.next_id(), 102);
}

#[test]
fn editor_defaults() {
    let e = EditorState::default();
    assert_eq!(e.transform_mode, TransformMode::Select);
    assert!(e.scene_file_path.is_none());
    assert!(!e.scene_dirty);
    assert!(e.show_grid);
    assert!(e.show_stats);
    assert!(!e.play_mode);
    assert!(e.saved_orbit.is_none());
    assert!(SceneSelection::default().selected.is_none());
    assert!(SceneChanged::default().dirty);
}

#[test]
fn transform_mode_labels() {
    assert_eq!(TransformMode::Select.label(), "Select");
    assert_eq!(TransformMode::Translate.label(), "Move");
    assert_eq!(TransformMode::Rotate.label(), "Rotate");
    assert_eq!(TransformMode::Scale.label(), "Scale");
    assert_eq!(TransformMode::default(), TransformMode::Select);
}
