//! The editor's side of saving, loading and exporting a scene: which file
//! to write, the window title, and what is recorded and logged once the
//! file system has answered.

use vstd::prelude::*;

use crate::console::{spec_log, ConsoleLog, ConsoleView, LogLevel};
use crate::editor_state::{EditorState, SceneChanged};
use crate::history::{spec_push_snapshot, UndoHistory};
use crate::scene_doc::SceneDocument;
use crate::scene_export::ExportResult;
use crate::text::{append_str, decimal, last_piece, split_on, strings_view, u64_to_string};

verus! {

// ─── Title ─────────────────────────────────────────────────────────────────

/// The file name of a scene path: what follows its last `/`.
pub open spec fn spec_file_part(path: Seq<char>) -> Seq<char> {
    split_on(path, '/').last()
}

/// The scene's name as the toolbar shows it: its file name, or "Unsaved
/// Scene", with " •" after it while there are unsaved changes.
pub open spec fn spec_scene_title(path: Option<Seq<char>>, dirty: bool) -> Seq<char> {
    let name = match path {
        Some(p) => spec_file_part(p),
        None => "Unsaved Scene"@,
    };
    if dirty { name + " \u{2022}"@ } else { name }
}

pub fn scene_title(path: &Option<String>, dirty: bool) -> (r: String)
    ensures
        r@ == spec_scene_title(
            match path {
                Some(p) => Some(p@),
                None => None,
            },
            dirty,
        ),
{
    let mut t = match path {
        Some(p) => last_piece(p.as_str(), '/'),
        None => String::from_str("Unsaved Scene"),
    };
    if dirty {
        append_str(&mut t, " \u{2022}");
    }
    t
}

// ─── Saving ────────────────────────────────────────────────────────────────

/// The file a save writes: the scene's own file, or `scene.json` for a new
/// scene and for "Save As".
pub fn scene_save_path(editor: &EditorState, save_as: bool) -> (p: String)
    ensures
        p@ == match editor.scene_file_path {
            Some(f) => if save_as { "scene.json"@ } else { f@ },
            None => "scene.json"@,
        },
{
    match &editor.scene_file_path {
        Some(f) => if save_as { String::from_str("scene.json") } else { f.clone() },
        None => String::from_str("scene.json"),
    }
}

/// How an attempt to save went.
pub enum SaveOutcome {
    Saved,
    WriteFailed(String),
    SerializeFailed(String),
}

/// Record the outcome of saving the scene to `path`: on success the scene
/// has that file and no unsaved changes.
pub fn finish_save(editor: &mut EditorState, console: &mut ConsoleLog, path: String, outcome: SaveOutcome)
    ensures
        match outcome {
            SaveOutcome::Saved => {
                &&& *final(editor) == (EditorState { scene_file_path: Some(path), scene_dirty: false, ..*old(editor) })
                &&& final(console)@ == spec_log(old(console)@, LogLevel::Info, "Scene saved to "@ + path@)
            },
            SaveOutcome::WriteFailed(e) => {
                &&& *final(editor) == *old(editor)
                &&& final(console)@ == spec_log(old(console)@, LogLevel::Error, "Save failed: "@ + e@)
            },
            SaveOutcome::SerializeFailed(e) => {
                &&& *final(editor) == *old(editor)
                &&& final(console)@ == spec_log(old(console)@, LogLevel::Error, "Serialization failed: "@ + e@)
            },
        },
{
    match outcome {
        SaveOutcome::Saved => {
            let mut msg = String::from_str("Scene saved to ");
            append_str(&mut msg, path.as_str());
            editor.scene_file_path = Some(path);
            editor.scene_dirty = false;
            console.info(msg);
        },
        SaveOutcome::WriteFailed(e) => {
            let mut msg = String::from_str("Save failed: ");
            append_str(&mut msg, e.as_str());
            console.error(msg);
        },
        SaveOutcome::SerializeFailed(e) => {
            let mut msg = String::from_str("Serialization failed: ");
            append_str(&mut msg, e.as_str());
            console.error(msg);
        },
    }
}

// ─── Loading ───────────────────────────────────────────────────────────────

/// How an attempt to load a scene file went.
pub enum LoadOutcome {
    Loaded(SceneDocument),
    ParseFailed(String),
    ReadFailed(String),
}

/// Record the outcome of loading the scene file `path`: a loaded scene
/// replaces the current one (recorded for undo first) and has that file and
/// no unsaved changes.
pub fn finish_load(
    doc: &mut SceneDocument,
    changed: &mut SceneChanged,
    undo: &mut UndoHistory,
    editor: &mut EditorState,
    console: &mut ConsoleLog,
    path: &str,
    outcome: LoadOutcome,
)
    ensures
        match outcome {
            LoadOutcome::Loaded(d) => {
                &&& final(doc)@ == d@
                &&& final(undo)@ == spec_push_snapshot(old(undo)@, old(doc)@)
                &&& *final(editor) == (EditorState { scene_file_path: Some(final(editor).scene_file_path->0), scene_dirty: false, ..*old(editor) })
                &&& final(editor).scene_file_path->0@ == path@
                &&& final(changed).dirty
                &&& final(console)@ == spec_log(old(console)@, LogLevel::Info, "Loaded scene: "@ + path@)
            },
            LoadOutcome::ParseFailed(e) => {
                &&& final(doc)@ == old(doc)@
                &&& final(undo)@ == old(undo)@
                &&& *final(editor) == *old(editor)
                &&& final(changed).dirty == old(changed).dirty
                &&& final(console)@ == spec_log(old(console)@, LogLevel::Error, "Failed to parse scene: "@ + e@)
            },
            LoadOutcome::ReadFailed(e) => {
                &&& final(doc)@ == old(doc)@
                &&& final(undo)@ == old(undo)@
                &&& *final(editor) == *old(editor)
                &&& final(changed).dirty == old(changed).dirty
                &&& final(console)@ == spec_log(old(console)@, LogLevel::Error, "Failed to read file: "@ + e@)
            },
        },
{
    match outcome {
        LoadOutcome::Loaded(d) => {
            undo.push_snapshot(&doc.nodes);
            *doc = d;
            editor.scene_file_path = Some(String::from_str(path));
            editor.scene_dirty = false;
            changed.dirty = true;
            let mut msg = String::from_str("Loaded scene: ");
            append_str(&mut msg, path);
            console.info(msg);
        },
        LoadOutcome::ParseFailed(e) => {
            let mut msg = String::from_str("Failed to parse scene: ");
            append_str(&mut msg, e.as_str());
            console.error(msg);
        },
        LoadOutcome::ReadFailed(e) => {
            let mut msg = String::from_str("Failed to read file: ");
            append_str(&mut msg, e.as_str());
            console.error(msg);
        },
    }
}

// ─── Export report ─────────────────────────────────────────────────────────

/// One "Export warning: ..." line per problem, in order.
pub open spec fn spec_log_warnings(c: ConsoleView, errors: Seq<Seq<char>>) -> ConsoleView
    decreases errors.len(),
{
    if errors.len() == 0 {
        c
    } else {
        spec_log(spec_log_warnings(c, errors.drop_last()), LogLevel::Warn, "Export warning: "@ + errors.last())
    }
}

/// What the console shows of an export into `dir` that met `errors`.
pub open spec fn spec_export_report(c: ConsoleView, dir: Seq<char>, errors: Seq<Seq<char>>) -> ConsoleView {
    let started = spec_log(c, LogLevel::Info, "Exporting project to "@ + dir);
    if errors.len() == 0 {
        spec_log(
            started,
            LogLevel::Info,
            "\u{2705} Project exported to "@ + dir + "\n  \u{2192} cd "@ + dir + " && cargo run"@,
        )
    } else {
        spec_log(
            spec_log_warnings(started, errors),
            LogLevel::Info,
            "\u{26a0} Project exported with "@ + decimal(errors.len()) + " warning(s) to "@ + dir,
        )
    }
}

/// Log the export of the project into `dir` and how it went.
pub fn report_export(console: &mut ConsoleLog, dir: &str, result: &ExportResult)
    requires
        result.errors@.len() <= u64::MAX,
    ensures
        final(console)@ == spec_export_report(old(console)@, dir@, strings_view(result.errors@)),
{
    let mut start = String::from_str("Exporting project to ");
    append_str(&mut start, dir);
    console.info(start);
    let ghost started = console@;
    let n = result.errors.len();
    if n == 0 {
        let mut msg = String::from_str("\u{2705} Project exported to ");
        append_str(&mut msg, dir);
        append_str(&mut msg, "\n  \u{2192} cd ");
        append_str(&mut msg, dir);
        append_str(&mut msg, " && cargo run");
        console.info(msg);
        proof {
            assert(strings_view(result.errors@).len() == 0);
        }
        return;
    }
    let mut i: usize = 0;
    while i < n
        invariant
            i <= n,
            n == result.errors@.len(),
            console@ == spec_log_warnings(started, strings_view(result.errors@.subrange(0, i as int))),
        decreases n - i,
    {
        let mut w = String::from_str("Export warning: ");
        append_str(&mut w, result.errors[i].as_str());
        proof {
            assert(strings_view(result.errors@.subrange(0, i + 1)).drop_last() =~= strings_view(result.errors@.subrange(0, i as int)));
        }
        console.warn(w);
        i = i + 1;
    }
    let mut msg = String::from_str("\u{26a0} Project exported with ");
    let count = u64_to_string(n as u64);
    append_str(&mut msg, count.as_str());
    append_str(&mut msg, " warning(s) to ");
    append_str(&mut msg, dir);
    console.info(msg);
    proof {
        assert(result.errors@.subrange(0, n as int) =~= result.errors@);
    }
}

} // verus!
