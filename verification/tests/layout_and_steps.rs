use bevy_editor::console::{ConsoleLog, LogLevel, LOG_CAPACITY};
use bevy_editor::editor_state::{SceneChanged, SceneSelection, TransformMode};
use bevy_editor::explorer::free_script_stem;
use bevy_editor::history::{UndoHistory, HISTORY_CAPACITY};
use bevy_editor::scene_doc::SceneDocument;
use bevy_editor::scene_export::{
    export_step, material_code, package_name, scene_node_code, to_pascal_case, transform_code, ExportStep,
    SceneCodeParts, ScriptInfo, StepOutcome,
};
use bevy_editor::scene_model::{new_scene_node, SceneLightKind, SceneNodeKind, SceneNodeProps};
use bevy_editor::ui_codegen::{
    int_text, node_code, node_component_code, ui_source, ui_source_fits, NodeCodeParts, NodeCodeTree,
};
use bevy_editor::ui_doc::EditorDocument;
use bevy_editor::ui_model::{new_node, EditorNodeType, EditorUiNode};
use bevy_editor::viewport_drag::{cancel_drag, drag_start_value, record_drag_move};

fn parts() -> NodeCodeParts {
    NodeCodeParts {
        component: "Node::default()".to_string(),
        background: "BG".to_string(),
        border: "BC".to_string(),
        text_color: "TC".to_string(),
        font_size: "16.0".to_string(),
    }
}

#[test]
fn console_keeps_the_last_two_hundred_entries() {
    let mut c = ConsoleLog::default();
    for i in 0..250 {
        c.log(LogLevel::Warn, format!("m{i}"));
    }
    assert_eq!(LOG_CAPACITY, 200);
    assert_eq!(c.entries.len(), 200);
    assert_eq!(c.entries[0].message, "m50");
    assert_eq!(c.entries[199].message, "m249");
    let mut a = ConsoleLog::default();
    let mut b = ConsoleLog::default();
    a.error("x".to_string());
    b.log(LogLevel::Error, "x".to_string());
    assert_eq!(a.entries.len(), b.entries.len());
    assert_eq!(a.entries[1].message, b.entries[1].message);
}

#[test]
fn history_keeps_fifty_scenes() {
    let mut h = UndoHistory::default();
    for i in 0..60u64 {
        h.push_snapshot(&vec![new_scene_node(i, SceneNodeKind::Empty)]);
    }
    assert_eq!(HISTORY_CAPACITY, 50);
    assert_eq!(h.undo_stack.len(), 50);
    assert_eq!(h.undo_stack[0][0].id, 10);
}

#[test]
fn escape_puts_the_dragged_value_back() {
    let mut doc = SceneDocument { nodes: vec![new_scene_node(1, SceneNodeKind::Empty)] };
    let before = doc.find_node(1).unwrap().props.translation;
    let start = drag_start_value(TransformMode::Translate, &doc.find_node(1).unwrap().props);
    assert_eq!(start, before);
    assert_eq!(drag_start_value(TransformMode::Select, &doc.find_node(1).unwrap().props), [0, 0, 0]);
    let mut undo = UndoHistory::default();
    let mut pushed = false;
    record_drag_move(&doc, &mut undo, &mut pushed, false);
    assert!(!pushed && !undo.can_undo());
    record_drag_move(&doc, &mut undo, &mut pushed, true);
    assert!(pushed && undo.can_undo());
    record_drag_move(&doc, &mut undo, &mut pushed, true);
    assert_eq!(undo.undo_stack.len(), 1);
    doc.find_node_mut(1).unwrap().props.translation = [7, 8, 9];
    let sel = SceneSelection { selected: Some(1) };
    let mut changed = SceneChanged { dirty: false };
    cancel_drag(&mut doc, &sel, &mut changed, &mut undo, TransformMode::Translate, start, pushed);
    assert_eq!(doc.find_node(1).unwrap().props.translation, before);
    assert!(changed.dirty);
    assert!(!undo.can_undo());
}

#[test]
fn first_free_script_name() {
    assert_eq!(free_script_stem(&vec![]), Some("new_script".to_string()));
    let taken = vec!["new_script.rs".to_string(), "new_script_2.rs".to_string(), "other.rs".to_string()];
    assert_eq!(free_script_stem(&taken), Some("new_script_3".to_string()));
}

#[test]
fn export_steps_follow_the_policy() {
    let mut errors = Vec::new();
    let none: Vec<ScriptInfo> = Vec::new();
    assert_eq!(
        export_step(ExportStep::CreateDirs, StepOutcome::Failed("denied".to_string()), &none, &mut errors),
        ExportStep::Finished
    );
    assert_eq!(errors, vec!["Failed to create output dirs: denied".to_string()]);

    let mut errors = Vec::new();
    let mut step = ExportStep::CreateDirs;
    let mut seen = Vec::new();
    while step != ExportStep::Finished {
        seen.push(step);
        let outcome = if step == ExportStep::WriteManifest {
            StepOutcome::Failed("disk full".to_string())
        } else {
            StepOutcome::Done
        };
        step = export_step(step, outcome, &none, &mut errors);
    }
    assert_eq!(
        seen,
        vec![ExportStep::CreateDirs, ExportStep::WriteManifest, ExportStep::WriteScriptsMod, ExportStep::WriteMain]
    );
    assert_eq!(errors, vec!["Failed to write Cargo.toml: disk full".to_string()]);

    let scripts = vec![ScriptInfo {
        mod_name: "spin".to_string(),
        component_name: "Spin".to_string(),
        update_fn: "spin_update".to_string(),
        source_path: "/p/scripts/spin.rs".to_string(),
    }];
    let mut errors = Vec::new();
    assert_eq!(export_step(ExportStep::WriteManifest, StepOutcome::Done, &scripts, &mut errors), ExportStep::CopyScript(0));
    assert_eq!(
        export_step(ExportStep::CopyScript(0), StepOutcome::Missing, &scripts, &mut errors),
        ExportStep::WriteScriptsMod
    );
    assert_eq!(errors, vec!["Script not found: /p/scripts/spin.rs".to_string()]);
}

#[test]
fn ui_node_code_layout() {
    assert_eq!(int_text(-42), "-42");
    assert_eq!(int_text(7), "7");
    assert_eq!(node_component_code(&vec![]), "Node::default()");
    assert_eq!(
        node_component_code(&vec!["width: Val::Auto,".to_string()]),
        "Node {\n            width: Val::Auto,\n            ..default()\n        }"
    );
    let mut n = new_node(1, EditorNodeType::Container);
    n.background_color = [0, 0, 0, 1.0f32.to_bits()];
    n.z_index = -2;
    let code = node_code(&n, 1, "commands", &parts(), &vec!["        child;".to_string()]);
    assert_eq!(
        code,
        "    commands.spawn((\n        Node::default(), BackgroundColor(BG), ZIndex(-2)\n    ))\n        .with_children(|parent| {\n        child;;\n        });\n"
    );
    let mut t = new_node(2, EditorNodeType::Text);
    t.text_content = "say \"hi\"".to_string();
    t.visible = false;
    let code = node_code(&t, 0, "parent", &parts(), &vec![]);
    assert_eq!(
        code,
        "parent.spawn((\n    Text::new(\"say \\\"hi\\\"\"),\n    TextFont { font_size: 16.0, ..default() },\n    TextColor(TC),\n    Visibility::Hidden,\n));\n"
    );
}

#[test]
fn scene_code_layout() {
    let mut p = SceneNodeProps::default();
    assert_eq!(
        material_code(&p, "B", "M", "R", "E"),
        "StandardMaterial {\n                base_color: Color::srgba(B),\n                emissive: LinearRgba::new(E),\n                ..default()\n            }"
    );
    p.emissive = [0; 4];
    assert_eq!(transform_code(&p, "T", "R", "S"), "Transform::from_translation(Vec3::new(T))");
    assert_eq!(material_code(&p, "B", "M", "R", "E"), "Color::srgba(B)");
    p.scale = [2.0f32.to_bits(); 3];
    p.metallic = 0.5f32.to_bits();
    assert_eq!(
        transform_code(&p, "T", "R", "S"),
        "Transform::from_translation(Vec3::new(T))\n            .with_scale(Vec3::new(S))"
    );
    assert_eq!(
        material_code(&p, "B", "M", "R", "E"),
        "StandardMaterial {\n                base_color: Color::srgba(B),\n                metallic: M,\n                ..default()\n            }"
    );
    let mut light = new_scene_node(3, SceneNodeKind::Light(SceneLightKind::Directional));
    light.name = "Sun".to_string();
    let sp = SceneCodeParts {
        transform: "TR".to_string(),
        material: "MA".to_string(),
        light_color: "LC".to_string(),
        intensity: "1000.0".to_string(),
        range: "20.0".to_string(),
        outer_angle: "0.7854".to_string(),
    };
    assert_eq!(
        scene_node_code(&light, 1, "commands", &sp, &vec![]),
        "    // Sun\n    commands.spawn((\n        DirectionalLight {\n            color: LC,\n            illuminance: 1000.0,\n            shadows_enabled: true,\n            ..default()\n        },\n        TR,\n    ));\n\n"
    );
}

#[test]
fn ascii_names_change_case_letter_by_letter() {
    assert_eq!(to_pascal_case("new_script_2"), "NewScript2");
    assert_eq!(package_name("My Game!"), "My-Game-");
}

fn tree_for(n: &EditorUiNode) -> NodeCodeTree {
    NodeCodeTree { parts: parts(), children: n.children.iter().map(tree_for).collect() }
}

#[test]
fn exported_source_keeps_a_buttons_children() {
    let mut button = new_node(2, EditorNodeType::Button);
    button.text_content = "Go".to_string();
    let mut child = new_node(3, EditorNodeType::Text);
    child.text_content = "child".to_string();
    button.children.push(child);
    let doc = EditorDocument { roots: vec![button] };
    assert!(ui_source_fits(&doc));
    let texts: Vec<_> = doc.roots.iter().map(tree_for).collect();
    let src = ui_source(&doc, &texts);
    assert!(src.starts_with("use bevy::prelude::*;\n\npub fn spawn_ui(mut commands: Commands) {\n"));
    assert!(src.ends_with("}\n"));
    assert!(src.contains(r#"Text::new("Go")"#));
    assert!(src.contains(r#"Text::new("child")"#));
    assert!(src.contains("btn.spawn((\n"));
    let label = src.find(r#"Text::new("Go")"#).unwrap();
    let kid = src.find(r#"Text::new("child")"#).unwrap();
    assert!(label < kid);
    assert!(src.contains("            btn.spawn((\n                Text::new(\"child\")"));
}

#[test]
fn exported_source_of_the_default_document() {
    let doc = EditorDocument::default();
    let texts: Vec<_> = doc.roots.iter().map(tree_for).collect();
    assert_eq!(
        ui_source(&doc, &texts),
        "use bevy::prelude::*;\n\npub fn spawn_ui(mut commands: Commands) {\n    commands.spawn(Node::default());\n}\n"
    );
}
