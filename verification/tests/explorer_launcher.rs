use bevy_editor::explorer::{
    asset_subdir, build_folder_tree, collapse_folder, expand_folder, file_icon_large, folder_rows, is_hidden,
    list_dir_contents, new_script_stem, script_template, ContentEntry, FileExplorerState, FolderEntry,
};
use bevy_editor::launcher::{begin_editor, AppMode, AppModeRes, ChosenProject, LauncherState, ProjectEntry};

fn folder(name: &str, depth: usize, has_subdirs: bool) -> FolderEntry {
    FolderEntry { path: format!("/p/{name}"), name: name.to_string(), depth, expanded: false, has_subdirs }
}

fn names(v: &[FolderEntry]) -> Vec<String> {
    v.iter().map(|f| f.name.clone()).collect()
}

fn entry(name: &str, is_dir: bool) -> ContentEntry {
    ContentEntry { path: format!("/p/{name}"), name: name.to_string(), is_dir, size_bytes: 1 }
}

#[test]
fn hidden_entries() {
    assert!(is_hidden(".git"));
    assert!(is_hidden("target"));
    assert!(is_hidden("node_modules"));
    assert!(!is_hidden("src"));
    assert!(!is_hidden("targets"));
    assert!(!is_hidden(""));
}

#[test]
fn icons_by_extension() {
    assert_eq!(file_icon_large("main.rs", false), ("\u{1f980}", (220, 120, 60)));
    assert_eq!(file_icon_large("Cargo.toml", false).0, "\u{2699}");
    assert_eq!(file_icon_large("scene.json", false), ("{ }", (130, 200, 110)));
    assert_eq!(file_icon_large("a.tar.gz", false).0, "\u{1f4c4}");
    assert_eq!(file_icon_large("run.sh", false), (">_", (100, 200, 100)));
    assert_eq!(file_icon_large("src", true), ("\u{1f4c2}", (230, 190, 70)));
    // Without a dot the whole name is looked at.
    assert_eq!(file_icon_large("md", false).0, "\u{1f4dd}");
    // Upper case is not recognised.
    assert_eq!(file_icon_large("A.PNG", false).0, "\u{1f4c4}");
}

#[test]
fn asset_folders_by_extension() {
    assert_eq!(asset_subdir("GLB"), "models");
    assert_eq!(asset_subdir("hdr"), "textures");
    assert_eq!(asset_subdir("Ogg"), "audio");
    assert_eq!(asset_subdir("txt"), "misc");
}

#[test]
fn folder_tree_expand_and_collapse() {
    let mut tree = vec![folder("a", 0, true), folder("b", 0, false)];
    expand_folder(&mut tree, 0, vec![folder("a1", 1, true), folder("a2", 1, false)]);
    assert_eq!(names(&tree), vec!["a", "a1", "a2", "b"]);
    assert!(tree[0].expanded);
    expand_folder(&mut tree, 1, vec![folder("a1x", 2, false)]);
    assert_eq!(names(&tree), vec!["a", "a1", "a1x", "a2", "b"]);
    collapse_folder(&mut tree, 0);
    assert_eq!(names(&tree), vec!["a", "b"]);
    assert!(!tree[0].expanded);
    collapse_folder(&mut tree, 1);
    assert_eq!(names(&tree), vec!["a", "b"]);
}

#[test]
fn first_tree_opens_folders_with_subfolders() {
    let top = vec![folder("assets", 0, true), folder("docs", 0, false), folder("src", 0, true)];
    let scans = vec![vec![folder("models", 1, false)], vec![folder("ignored", 1, false)], vec![]];
    let tree = build_folder_tree(&top, &scans);
    assert_eq!(names(&tree), vec!["assets", "models", "docs", "src"]);
    assert!(tree[0].expanded);
    assert!(!tree[2].expanded);
    assert!(tree[3].expanded);
}

#[test]
fn listing_puts_folders_first_by_name() {
    let raw = vec![entry("b.rs", false), entry(".hidden", false), entry("zeta", true), entry("a.rs", false), entry("alpha", true), entry("target", true)];
    let got: Vec<String> = list_dir_contents(&raw).iter().map(|e| e.name.clone()).collect();
    assert_eq!(got, vec!["alpha", "zeta", "a.rs", "b.rs"]);
}

#[test]
fn folder_rows_sorted_by_name() {
    let raw = vec![folder("src", 0, true), folder(".git", 0, true), folder("Assets", 0, false), folder("docs", 0, false)];
    assert_eq!(names(&folder_rows(&raw)), vec!["Assets", "docs", "src"]);
}

#[test]
fn new_script_names_and_template() {
    assert_eq!(new_script_stem(1), "new_script");
    assert_eq!(new_script_stem(2), "new_script_2");
    assert_eq!(new_script_stem(13), "new_script_13");
    let t = script_template("new_script_2");
    assert!(t.starts_with("use bevy::prelude::*;\n\n/// Marker component"));
    assert!(t.contains("#[derive(Component)]\npub struct NewScript2;\n"));
    assert!(t.contains("pub fn new_script_2_update(\ntime: Res<Time>,\nmut query: Query<&mut Transform, With<NewScript2>>,\n) {\n"));
    assert!(t.ends_with("}\n}\n"));
}

#[test]
fn explorer_forms() {
    let mut s = FileExplorerState::new("/proj".to_string());
    assert!(s.needs_refresh && s.needs_content_refresh);
    assert_eq!(s.current_dir, "/proj");
    s.navigate("/proj/file.txt".to_string(), false);
    assert_eq!(s.current_dir, "/proj");
    s.set_dir_contents(vec![]);
    s.navigate("/proj/src".to_string(), true);
    assert_eq!(s.current_dir, "/proj/src");
    assert!(s.needs_content_refresh);
    s.start_new_folder("/proj".to_string());
    s.new_folder_name = "  new dir ".to_string();
    assert_eq!(s.take_new_folder(), Some(("/proj".to_string(), "new dir".to_string())));
    assert!(s.new_folder_parent.is_none());
    s.start_new_folder("/proj".to_string());
    s.new_folder_name = "   ".to_string();
    assert_eq!(s.take_new_folder(), None);
    s.start_rename("/proj/a.rs".to_string(), "a.rs".to_string());
    assert_eq!(s.take_rename("a.rs"), None);
    s.start_rename("/proj/a.rs".to_string(), "a.rs".to_string());
    s.rename_buf = " b.rs".to_string();
    assert_eq!(s.take_rename("a.rs"), Some("b.rs".to_string()));
    assert!(s.rename_target.is_none());
    s.open_project("/other");
    assert_eq!(s.root, "/other");
    assert!(s.needs_refresh);
}

#[test]
fn launcher_create_project() {
    let mut l = LauncherState::new("/home/me", vec![]);
    assert_eq!(l.new_project_path, "/home/me/Projects");
    l.toggle_create();
    assert!(l.show_create);
    l.new_project_name = "   ".to_string();
    assert!(l.request_create().is_none());
    assert_eq!(l.error_msg.as_deref(), Some("Project name cannot be empty."));
    l.new_project_name = " Game ".to_string();
    let (base, name) = l.request_create().unwrap();
    assert_eq!(base, "/home/me/Projects");
    assert_eq!(name, "Game");
    let mut chosen = ChosenProject::default();
    let mut app = AppModeRes::default();
    assert_eq!(app.mode, AppMode::Launcher);
    l.finish_create(&mut chosen, &mut app, name.clone(), "/home/me/Projects/Game".to_string(), Err("denied".to_string()));
    assert_eq!(l.error_msg.as_deref(), Some("Failed to create project: denied"));
    assert_eq!(app.mode, AppMode::Launcher);
    l.finish_create(&mut chosen, &mut app, name, "/home/me/Projects/Game".to_string(), Ok(()));
    assert_eq!(l.projects.len(), 1);
    assert_eq!(chosen.path.as_deref(), Some("/home/me/Projects/Game"));
    assert_eq!(app.mode, AppMode::Editor);
}

#[test]
fn launcher_open_and_remove() {
    let mut l = LauncherState::new(
        "/h",
        vec![
            ProjectEntry { name: "a".into(), path: "/h/a".into() },
            ProjectEntry { name: "b".into(), path: "/h/b".into() },
        ],
    );
    let mut chosen = ChosenProject::default();
    let mut app = AppModeRes::default();
    l.open_project(1, &mut chosen, &mut app);
    assert_eq!(chosen.path.as_deref(), Some("/h/b"));
    assert_eq!(app.mode, AppMode::Editor);
    l.remove_project(0);
    assert_eq!(l.projects.len(), 1);
    assert_eq!(l.projects[0].name, "b");
    assert!(begin_editor(&mut app));
    assert!(!begin_editor(&mut app));
    assert!(app.editor_initialized);
}
