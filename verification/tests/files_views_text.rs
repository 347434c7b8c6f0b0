use bevy_editor::console::{ConsoleLog, LogLevel};
use bevy_editor::editor_state::{EditorState, SceneChanged};
use bevy_editor::hierarchy_view::{find_name_in_snaps, node_icon, node_icon_color, node_matches_filter, snapshot_nodes};
use bevy_editor::history::UndoHistory;
use bevy_editor::launcher::open_project_scene;
use bevy_editor::scene_doc::SceneDocument;
use bevy_editor::scene_export::ExportResult;
use bevy_editor::scene_files::{
    finish_load, finish_save, report_export, scene_save_path, scene_title, LoadOutcome, SaveOutcome,
};
use bevy_editor::scene_model::{new_scene_node, SceneLightKind, SceneNodeKind, ScenePrimitive};
use bevy_editor::text::{last_piece, str_equals, str_less, trim_str, u64_to_string};

fn msgs(c: &ConsoleLog) -> Vec<(LogLevel, String)> {
    c.entries.iter().skip(1).map(|e| (e.level, e.message.clone())).collect()
}

#[test]
fn titles() {
    assert_eq!(scene_title(&None, false), "Unsaved Scene");
    assert_eq!(scene_title(&Some("/a/b/level.json".to_string()), true), "level.json \u{2022}");
    assert_eq!(scene_title(&Some("plain.json".to_string()), false), "plain.json");
    assert_eq!(scene_title(&Some("dir/".to_string()), false), "");
}

#[test]
fn save_paths() {
    let mut e = EditorState::default();
    assert_eq!(scene_save_path(&e, false), "scene.json");
    e.scene_file_path = Some("/p/level.json".to_string());
    assert_eq!(scene_save_path(&e, false), "/p/level.json");
    assert_eq!(scene_save_path(&e, true), "scene.json");
}

#[test]
fn save_outcomes() {
    let mut e = EditorState::default();
    e.scene_dirty = true;
    let mut c = ConsoleLog::default();
    finish_save(&mut e, &mut c, "x.json".to_string(), SaveOutcome::WriteFailed("disk full".to_string()));
    assert!(e.scene_dirty);
    finish_save(&mut e, &mut c, "x.json".to_string(), SaveOutcome::SerializeFailed("bad".to_string()));
    finish_save(&mut e, &mut c, "x.json".to_string(), SaveOutcome::Saved);
    assert!(!e.scene_dirty);
    assert_eq!(e.scene_file_path.as_deref(), Some("x.json"));
    assert_eq!(
        msgs(&c),
        vec![
            (LogLevel::Error, "Save failed: disk full".to_string()),
            (LogLevel::Error, "Serialization failed: bad".to_string()),
            (LogLevel::Info, "Scene saved to x.json".to_string()),
        ]
    );
}

#[test]
fn load_outcomes() {
    let mut doc = SceneDocument::default();
    let mut changed = SceneChanged { dirty: false };
    let mut undo = UndoHistory::default();
    let mut e = EditorState::default();
    let mut c = ConsoleLog::default();
    finish_load(&mut doc, &mut changed, &mut undo, &mut e, &mut c, "/p/a.json", LoadOutcome::ReadFailed("nope".to_string()));
    assert!(!changed.dirty);
    assert!(!undo.can_undo());
    let loaded = SceneDocument { nodes: vec![new_scene_node(7, SceneNodeKind::Empty)] };
    finish_load(&mut doc, &mut changed, &mut undo, &mut e, &mut c, "/p/a.json", LoadOutcome::Loaded(loaded));
    assert_eq!(doc.nodes.len(), 1);
    assert_eq!(doc.nodes[0].id, 7);
    assert!(undo.can_undo());
    assert!(changed.dirty);
    assert_eq!(e.scene_file_path.as_deref(), Some("/p/a.json"));
    finish_load(&mut doc, &mut changed, &mut undo, &mut e, &mut c, "/p/b.json", LoadOutcome::ParseFailed("eof".to_string()));
    assert_eq!(
        msgs(&c),
        vec![
            (LogLevel::Error, "Failed to read file: nope".to_string()),
            (LogLevel::Info, "Loaded scene: /p/a.json".to_string()),
            (LogLevel::Error, "Failed to parse scene: eof".to_string()),
        ]
    );
}

#[test]
fn export_reports() {
    let mut c = ConsoleLog::default();
    report_export(&mut c, "/p/build", &ExportResult { output_dir: "/p/build".into(), errors: vec![] });
    assert_eq!(
        msgs(&c),
        vec![
            (LogLevel::Info, "Exporting project to /p/build".to_string()),
            (LogLevel::Info, "\u{2705} Project exported to /p/build\n  \u{2192} cd /p/build && cargo run".to_string()),
        ]
    );
    let mut c = ConsoleLog::default();
    let r = ExportResult { output_dir: "/b".into(), errors: vec!["one".into(), "two".into()] };
    report_export(&mut c, "/b", &r);
    assert_eq!(
        msgs(&c),
        vec![
            (LogLevel::Info, "Exporting project to /b".to_string()),
            (LogLevel::Warn, "Export warning: one".to_string()),
            (LogLevel::Warn, "Export warning: two".to_string()),
            (LogLevel::Info, "\u{26a0} Project exported with 2 warning(s) to /b".to_string()),
        ]
    );
}

#[test]
fn opening_a_project_scene() {
    let mut doc = SceneDocument::default();
    let mut e = EditorState::default();
    let mut changed = SceneChanged { dirty: false };
    let mut c = ConsoleLog::default();
    let loaded = SceneDocument { nodes: vec![] };
    open_project_scene(&mut doc, &mut e, &mut changed, &mut c, "/p", "/p/scene.json".to_string(), loaded);
    assert!(doc.nodes.is_empty());
    assert_eq!(e.scene_file_path.as_deref(), Some("/p/scene.json"));
    assert!(changed.dirty);
    assert_eq!(c.entries.last().unwrap().message, "Loaded project: /p");
}

#[test]
fn snapshots_and_filter() {
    let mut a = new_scene_node(1, SceneNodeKind::Empty);
    a.name = "Player".to_string();
    let mut b = new_scene_node(2, SceneNodeKind::Mesh(ScenePrimitive::Cube));
    b.name = "Sword".to_string();
    a.children.push(b);
    let snaps = snapshot_nodes(&[a, new_scene_node(3, SceneNodeKind::Empty)]);
    assert_eq!(snaps.len(), 2);
    assert_eq!(snaps[0].children[0].name, "Sword");
    assert_eq!(find_name_in_snaps(&snaps, 2), Some("Sword"));
    assert_eq!(find_name_in_snaps(&snaps, 3), Some("Empty"));
    assert_eq!(find_name_in_snaps(&snaps, 9), None);
    assert!(node_matches_filter(&snaps[0], "swo"));
    assert!(node_matches_filter(&snaps[0], "play"));
    assert!(!node_matches_filter(&snaps[1], "swo"));
    assert!(node_matches_filter(&snaps[1], ""));
}

#[test]
fn icons_per_kind() {
    assert_eq!(node_icon(&SceneNodeKind::Empty), "\u{25cb}");
    assert_eq!(node_icon(&SceneNodeKind::Mesh(ScenePrimitive::Cube)), "\u{25c6}");
    assert_eq!(node_icon(&SceneNodeKind::Light(SceneLightKind::Spot)), "\u{2600}");
    assert_eq!(node_icon_color(&SceneNodeKind::Light(SceneLightKind::Spot)), (255, 220, 80));
}

#[test]
fn text_helpers() {
    assert_eq!(u64_to_string(0), "0");
    assert_eq!(u64_to_string(18446744073709551615), "18446744073709551615");
    assert_eq!(trim_str("\t a b \n"), "a b");
    assert_eq!(last_piece("a/b/c", '/'), "c");
    assert_eq!(last_piece("abc", '/'), "abc");
    assert!(str_equals("x", "x"));
    assert!(!str_equals("x", "xy"));
    assert!(str_less("abc", "abd"));
    assert!(str_less("ab", "abc"));
    assert!(!str_less("abc", "abc"));
    assert!(str_less("B", "a"));
}
