# bevy_editor

A scene editor and a UI-layout editor for the Bevy engine. The editing logic
is a library verified with Verus; the program around it draws the panels
with `bevy_egui`, reads and writes files, and runs the Bevy app.

## Layout

- `src/` — the verified library.
  - `scene_model`, `scene_doc`: scene nodes and the scene tree (add, find,
    remove, drag-and-drop moves), modelled as sequences of node views.
  - `history`, `console`, `editor_state`: undo/redo snapshots, the log, ids
    and editor flags.
  - `scene_actions`, `scene_commands`, `scene_files`: what the hierarchy
    panel, the toolbar, the shortcuts and saving/loading do to the state.
  - `hierarchy_view`, `explorer`, `launcher`: what the panels show (rows,
    filter, icons, folder tree, sorted listings, project list).
  - `scene_export`: the generated project's manifest, script modules,
    `main` and node code layout, and the export's step policy.
  - `viewport_drag`: starting, recording and calling off a gizmo drag.
  - `ui_model`, `ui_doc`, `ui_actions`, `ui_codegen`: the UI-layout editor
    and the Rust source it exports.
  - `text`: string helpers and the few calls into `std` whose behaviour is
    assumed.
  - `scene_laws`, `ui_laws`, `action_laws`: proved properties that span
    several operations.
- `tests/` — tests of the library on concrete values.
- `app/` — the Bevy program: panels, viewport, file and JSON I/O. Floating
  point values, which the library carries as `f32` bit patterns, are turned
  into numbers only here.
