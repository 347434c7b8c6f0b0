//! The project launcher: the list of known projects, the form that creates
//! one, and the switch from the launcher to the editor.

use vstd::prelude::*;

use crate::console::{spec_log, ConsoleLog, LogLevel};
use crate::editor_state::{EditorState, SceneChanged};
use crate::scene_doc::SceneDocument;
use crate::text::{append_str, trim, trim_str};

verus! {

#[derive(Clone, Copy, Debug, PartialEq, Eq, Structural)]
pub enum AppMode {
    Launcher,
    Editor,
}

pub struct AppModeRes {
    pub mode: AppMode,
    pub editor_initialized: bool,
}

impl Default for AppModeRes {
    /// The program starts in the launcher.
    fn default() -> (r: Self)
        ensures
            r.mode == AppMode::Launcher,
            !r.editor_initialized,
    {
        AppModeRes { mode: AppMode::Launcher, editor_initialized: false }
    }
}

/// The project the user opened, once there is one.
pub struct ChosenProject {
    pub path: Option<String>,
}

impl Default for ChosenProject {
    fn default() -> (r: Self)
        ensures
            r.path is None,
    {
        ChosenProject { path: None }
    }
}

#[derive(Clone, Debug)]
pub struct ProjectEntry {
    pub name: String,
    pub path: String,
}

pub open spec fn projects_view(v: Seq<ProjectEntry>) -> Seq<(Seq<char>, Seq<char>)> {
    v.map_values(|p: ProjectEntry| (p.name@, p.path@))
}

pub struct LauncherState {
    pub projects: Vec<ProjectEntry>,
    pub new_project_name: String,
    pub new_project_path: String,
    pub show_create: bool,
    pub error_msg: Option<String>,
}

impl LauncherState {
    /// The launcher of a user whose home folder is `home`, knowing
    /// `projects`: new projects go to `<home>/Projects` by default.
    pub fn new(home: &str, projects: Vec<ProjectEntry>) -> (r: Self)
        ensures
            r.projects@ == projects@,
            r.new_project_name@ == Seq::<char>::empty(),
            r.new_project_path@ == home@ + "/Projects"@,
            !r.show_create,
            r.error_msg is None,
    {
        let mut base = String::from_str(home);
        append_str(&mut base, "/Projects");
        LauncherState {
            projects,
            new_project_name: String::new(),
            new_project_path: base,
            show_create: false,
            error_msg: None,
        }
    }

    /// The "New Project" button shows or hides the form and clears its
    /// error.
    pub fn toggle_create(&mut self)
        ensures
            final(self).show_create == !old(self).show_create,
            final(self).error_msg is None,
            final(self).projects@ == old(self).projects@,
            final(self).new_project_name == old(self).new_project_name,
            final(self).new_project_path == old(self).new_project_path,
    {
        self.show_create = !self.show_create;
        self.error_msg = None;
    }

    /// The "Create" button: the trimmed folder and name of the project to
    /// create, or the error shown when the name is empty.
    pub fn request_create(&mut self) -> (r: Option<(String, String)>)
        ensures
            trim(old(self).new_project_name@).len() == 0 ==> {
                &&& r is None
                &&& final(self).error_msg matches Some(e) && e@ == "Project name cannot be empty."@
            },
            trim(old(self).new_project_name@).len() > 0 ==> {
                &&& r matches Some((base, name)) && base@ == trim(old(self).new_project_path@) && name@ == trim(old(self).new_project_name@)
                &&& final(self).error_msg == old(self).error_msg
            },
            final(self).projects@ == old(self).projects@,
            final(self).show_create == old(self).show_create,
            final(self).new_project_name == old(self).new_project_name,
            final(self).new_project_path == old(self).new_project_path,
    {
        let name = trim_str(self.new_project_name.as_str());
        let base = trim_str(self.new_project_path.as_str());
        if name.unicode_len() == 0 {
            self.error_msg = Some(String::from_str("Project name cannot be empty."));
            None
        } else {
            Some((base, name))
        }
    }

    /// Record the outcome of creating the project `name` in the folder
    /// `dir`: on success it joins the list and is opened in the editor.
    pub fn finish_create(
        &mut self,
        chosen: &mut ChosenProject,
        app: &mut AppModeRes,
        name: String,
        dir: String,
        result: Result<(), String>,
    )
        ensures
            match result {
                Ok(()) => {
                    &&& projects_view(final(self).projects@) == projects_view(old(self).projects@).push((name@, dir@))
                    &&& final(chosen).path matches Some(p) && p@ == dir@
                    &&& final(app).mode == AppMode::Editor
                    &&& final(app).editor_initialized == old(app).editor_initialized
                    &&& final(self).error_msg == old(self).error_msg
                },
                Err(e) => {
                    &&& final(self).projects@ == old(self).projects@
                    &&& final(self).error_msg matches Some(m) && m@ == "Failed to create project: "@ + e@
                    &&& final(chosen).path == old(chosen).path
                    &&& final(app).mode == old(app).mode
                    &&& final(app).editor_initialized == old(app).editor_initialized
                },
            },
            final(self).show_create == old(self).show_create,
            final(self).new_project_name == old(self).new_project_name,
            final(self).new_project_path == old(self).new_project_path,
    {
        match result {
            Ok(()) => {
                let path = dir.clone();
                let ghost before = self.projects@;
                self.projects.push(ProjectEntry { name, path });
                proof {
                    assert(projects_view(self.projects@) =~= projects_view(before).push((name@, dir@)));
                }
                chosen.path = Some(dir);
                app.mode = AppMode::Editor;
            },
            Err(e) => {
                let mut m = String::from_str("Failed to create project: ");
                append_str(&mut m, e.as_str());
                self.error_msg = Some(m);
            },
        }
    }

    /// Open the listed project at `idx` in the editor.
    pub fn open_project(&self, idx: usize, chosen: &mut ChosenProject, app: &mut AppModeRes)
        requires
            idx < self.projects@.len(),
        ensures
            final(chosen).path matches Some(p) && p@ == self.projects@[idx as int].path@,
            final(app).mode == AppMode::Editor,
            final(app).editor_initialized == old(app).editor_initialized,
    {
        chosen.path = Some(self.projects[idx].path.clone());
        app.mode = AppMode::Editor;
    }

    /// Take the project at `idx` off the list.
    pub fn remove_project(&mut self, idx: usize)
        requires
            idx < old(self).projects@.len(),
        ensures
            final(self).projects@ == old(self).projects@.remove(idx as int),
            final(self).show_create == old(self).show_create,
            final(self).error_msg == old(self).error_msg,
            final(self).new_project_name == old(self).new_project_name,
            final(self).new_project_path == old(self).new_project_path,
    {
        self.projects.remove(idx);
    }
}

// ─── Entering the editor ───────────────────────────────────────────────────

/// The first frame in the editor sets it up once: tells whether this is
/// that frame.
pub fn begin_editor(app: &mut AppModeRes) -> (first: bool)
    ensures
        first == !old(app).editor_initialized,
        final(app).editor_initialized,
        final(app).mode == old(app).mode,
{
    if app.editor_initialized {
        return false;
    }
    app.editor_initialized = true;
    true
}

/// Put the scene found in the opened project's `scene.json` in place.
pub fn open_project_scene(
    doc: &mut SceneDocument,
    editor: &mut EditorState,
    changed: &mut SceneChanged,
    console: &mut ConsoleLog,
    project: &str,
    scene_file: String,
    loaded: SceneDocument,
)
    ensures
        final(doc)@ == loaded@,
        *final(editor) == (EditorState { scene_file_path: Some(scene_file), ..*old(editor) }),
        final(changed).dirty,
        final(console)@ == spec_log(old(console)@, LogLevel::Info, "Loaded project: "@ + project@),
{
    *doc = loaded;
    editor.scene_file_path = Some(scene_file);
    changed.dirty = true;
    let mut msg = String::from_str("Loaded project: ");
    append_str(&mut msg, project);
    console.info(msg);
}

} // verus!
