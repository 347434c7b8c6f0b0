//! Document model, editing operations and code-generation helpers of a
//! scene and UI editor, with their contracts.

pub mod scene_model;
pub mod scene_doc;
pub mod scene_laws;
pub mod history;
pub mod console;
pub mod editor_state;
pub mod ui_model;
pub mod ui_doc;
pub mod ui_laws;
pub mod text;
pub mod scene_export;
pub mod scene_actions;
pub mod scene_commands;
pub mod scene_files;
pub mod hierarchy_view;
pub mod explorer;
pub mod launcher;
pub mod ui_actions;
pub mod ui_codegen;
pub mod action_laws;
pub mod viewport_drag;
