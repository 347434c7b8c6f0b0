use bevy_editor::scene_export::{
    find_script, find_script_by_stem, generate_cargo_toml, generate_scripts_mod, main_fn_source,
    manifest_for, material_parts, mesh_primitive_expr, package_name, parse_script_source, script_fallback,
    setup_scene_header, to_pascal_case, transform_parts, tree_has_mesh, ExportResult, ScriptInfo,
};
use bevy_editor::scene_model::{new_scene_node, SceneNodeKind, SceneNodeProps, ScenePrimitive};

fn script(m: &str, c: &str, u: &str) -> ScriptInfo {
    ScriptInfo {
        mod_name: m.to_string(),
        component_name: c.to_string(),
        update_fn: u.to_string(),
        source_path: format!("/p/scripts/{m}.rs"),
    }
}

#[test]
fn pascal_case_of_snake_case() {
    assert_eq!(to_pascal_case("player_move"), "PlayerMove");
    assert_eq!(to_pascal_case("__a__b_"), "AB");
    assert_eq!(to_pascal_case("HELLO_wORLD"), "HelloWorld");
    assert_eq!(to_pascal_case(""), "");
    assert_eq!(to_pascal_case("new_script_2"), "NewScript2");
}

#[test]
fn cargo_toml_named_after_directory() {
    let t = generate_cargo_toml("/home/u/my game!");
    assert_eq!(
        t,
        "[package]\nname = \"my-game-\"\nversion = \"0.1.0\"\nedition = \"2021\"\n\n[dependencies]\nbevy = \"0.18.1\"\n"
    );
    assert!(generate_cargo_toml("/tmp/build").contains("name = \"build\""));
    assert!(generate_cargo_toml("/").contains("name = \"exported_game\""));
}

#[test]
fn manifest_and_package_names() {
    assert_eq!(package_name("a b_c-d.e"), "a-b_c-d-e");
    assert!(manifest_for(None).contains("name = \"exported_game\""));
    assert!(manifest_for(Some("x y")).contains("name = \"x-y\""));
}

#[test]
fn scripts_mod_lists_modules() {
    let s = vec![script("a", "A", "a_update"), script("b", "B", "b_system")];
    assert_eq!(generate_scripts_mod(&s), "pub mod a;\npub mod b;\n");
    assert_eq!(generate_scripts_mod(&[]), "");
}

#[test]
fn find_script_by_file_stem() {
    let s = vec![script("mover", "Mover", "mover_update"), script("spin", "Spin", "spin_update")];
    assert_eq!(find_script(&s, "scripts/spin.rs").map(|i| i.component_name.clone()), Some("Spin".to_string()));
    assert!(find_script(&s, "scripts/other.rs").is_none());
    assert_eq!(find_script_by_stem(&s, "mover").map(|i| i.update_fn.clone()), Some("mover_update".to_string()));
}

#[test]
fn mesh_expressions() {
    assert_eq!(mesh_primitive_expr(&ScenePrimitive::Cube), "Cuboid::default()");
    assert_eq!(mesh_primitive_expr(&ScenePrimitive::Plane), "Plane3d::default().mesh().size(1.0, 1.0)");
    assert_eq!(mesh_primitive_expr(&ScenePrimitive::Capsule), "Capsule3d::default()");
}

#[test]
fn script_convention_found() {
    let src = "use bevy::prelude::*;\r\n\n#[derive(Component)]\n  pub struct Spinner;\n\npub fn spinner_system(q: Query<&Spinner>) {}\n";
    let (c, f) = parse_script_source(src, "spin");
    assert_eq!(c, "Spinner");
    assert_eq!(f, "spinner_system");
}

#[test]
fn script_convention_last_match_wins() {
    let src = "#[derive(Component)]\npub struct A;\n#[derive(Debug, Component)]\npub struct B;\npub fn x_update() {}\npub fn y_update() {}";
    let (c, f) = parse_script_source(src, "s");
    assert_eq!(c, "B");
    assert_eq!(f, "y_update");
}

#[test]
fn script_convention_needs_derive_on_previous_line() {
    let src = "#[derive(Component)]\n\npub struct Late;\npub fn helper() {}\n";
    let (c, f) = parse_script_source(src, "my_script");
    assert_eq!(c, "MyScript");
    assert_eq!(f, "my_script_update");
}

#[test]
fn script_fallback_names() {
    assert_eq!(script_fallback("enemy_ai"), ("EnemyAi".to_string(), "enemy_ai_update".to_string()));
}

#[test]
fn main_fn_with_and_without_scripts() {
    let none = main_fn_source(&[]);
    assert_eq!(
        none,
        "use bevy::prelude::*;\n\nmod scripts;\n\nfn main() {\n    App::new()\n        .add_plugins(DefaultPlugins)\n        .add_systems(Startup, setup_scene)\n        .run();\n}\n\n"
    );
    let s = vec![script("a", "A", "a_update")];
    let some = main_fn_source(&s);
    assert!(some.contains("        .add_systems(Update, (\n            scripts::a::a_update,\n        ))\n"));
}

#[test]
fn setup_header_asks_for_meshes_only_when_needed() {
    let with = setup_scene_header(true);
    assert!(with.contains("mut meshes: ResMut<Assets<Mesh>>"));
    assert!(with.starts_with("fn setup_scene(\n    mut commands: Commands,\n"));
    let without = setup_scene_header(false);
    assert!(!without.contains("meshes"));
    assert!(without.contains("Camera3d::default()"));
}

#[test]
fn mesh_search_goes_into_children() {
    let mut e = new_scene_node(1, SceneNodeKind::Empty);
    assert!(!tree_has_mesh(&[e.deep_clone()]));
    e.children.push(new_scene_node(2, SceneNodeKind::Mesh(ScenePrimitive::Cone)));
    assert!(tree_has_mesh(&[e]));
    assert!(!tree_has_mesh(&[]));
}

#[test]
fn transform_and_material_parts() {
    let mut p = SceneNodeProps::default();
    assert_eq!(transform_parts(&p), (false, false));
    // The default emissive colour has alpha one, so a full material is written.
    assert_eq!(material_parts(&p), (false, false, true));
    p.rotation_euler[1] = (-0.0f32).to_bits();
    assert_eq!(transform_parts(&p), (false, false));
    p.rotation_euler[1] = 10.0f32.to_bits();
    p.scale[2] = 2.0f32.to_bits();
    assert_eq!(transform_parts(&p), (true, true));
    p.metallic = 0.25f32.to_bits();
    p.emissive[3] = 0.0f32.to_bits();
    assert_eq!(material_parts(&p), (true, false, false));
    p.roughness = 0.75f32.to_bits();
    assert_eq!(material_parts(&p), (true, true, false));
}

#[test]
fn export_result_holds_errors() {
    let r = ExportResult { output_dir: "/out".to_string(), errors: vec!["x".to_string()] };
    assert_eq!(r.errors.len(), 1);
    assert_eq!(r.output_dir, "/out");
}
