use bevy_editor::ui_actions::{add_ui_node, apply_ui_action, delete_selected_ui, tree_label, UiHierarchyAction};
use bevy_editor::ui_codegen::{
    align_to_rust, component_fields, escape_quotes, flex_dir_to_rust, indent, is_rect_zero, justify_to_rust,
    overflow_to_rust, position_to_rust, spawn_extras, ComponentField,
};
use bevy_editor::ui_doc::EditorDocument;
use bevy_editor::ui_model::{
    new_node, EditorAlignItems, EditorChanged, EditorFlexDirection, EditorIdCounter, EditorJustifyContent,
    EditorNodeType, EditorOverflow, EditorPositionType, EditorRect, EditorSelection, EditorUiNode, EditorVal,
    ShowExportWindow,
};

#[test]
fn default_document_has_full_size_root() {
    let d = EditorDocument::default();
    assert_eq!(d.roots.len(), 1);
    assert_eq!(d.roots[0].id, 1);
    assert_eq!(d.roots[0].name, "Root");
    assert!(matches!(d.roots[0].width, EditorVal::Percent(b) if f32::from_bits(b) == 100.0));
}

#[test]
fn add_under_selection_then_delete() {
    let mut d = EditorDocument::default();
    let mut sel = EditorSelection::default();
    let mut ids = EditorIdCounter::default();
    let mut changed = EditorChanged { dirty: false };
    add_ui_node(EditorNodeType::Text, &mut d, &mut sel, &mut ids, &mut changed);
    assert_eq!(d.roots.len(), 2);
    assert_eq!(d.roots[1].id, 1);
    assert_eq!(d.roots[1].name, "Text");
    assert_eq!(sel.selected, Some(1));
    sel.selected = Some(1);
    // The first root also has id 1: search finds it first.
    add_ui_node(EditorNodeType::Button, &mut d, &mut sel, &mut ids, &mut changed);
    assert_eq!(d.roots[0].children.len(), 1);
    assert_eq!(d.roots[0].children[0].id, 2);
    assert!(changed.dirty);
    delete_selected_ui(&mut d, &mut sel, &mut changed);
    assert!(sel.selected.is_none());
    assert!(d.find_node(2).is_none());
    changed.dirty = false;
    delete_selected_ui(&mut d, &mut sel, &mut changed);
    assert!(!changed.dirty);
}

#[test]
fn adding_under_missing_parent_changes_nothing() {
    let mut d = EditorDocument::default();
    let mut sel = EditorSelection { selected: Some(99) };
    let mut ids = EditorIdCounter::default();
    let mut changed = EditorChanged { dirty: false };
    add_ui_node(EditorNodeType::Image, &mut d, &mut sel, &mut ids, &mut changed);
    assert_eq!(d.roots.len(), 1);
    assert!(d.roots[0].children.is_empty());
    assert_eq!(sel.selected, Some(1));
}

#[test]
fn selecting_and_labels() {
    let mut sel = EditorSelection::default();
    apply_ui_action(UiHierarchyAction::Select(4), &mut sel);
    assert_eq!(sel.selected, Some(4));
    assert_eq!(tree_label(EditorNodeType::Container, "Panel"), "[Container] Panel");
    assert_eq!(new_node(3, EditorNodeType::Image).name, "Image");
}

#[test]
fn enum_names_in_rust() {
    assert_eq!(flex_dir_to_rust(&EditorFlexDirection::ColumnReverse), "FlexDirection::ColumnReverse");
    assert_eq!(justify_to_rust(&EditorJustifyContent::SpaceEvenly), "JustifyContent::SpaceEvenly");
    assert_eq!(align_to_rust(&EditorAlignItems::Baseline), "AlignItems::Baseline");
    assert_eq!(position_to_rust(&EditorPositionType::Absolute), "PositionType::Absolute");
    assert_eq!(overflow_to_rust(&EditorOverflow::Clip), "OverflowAxis::Clip");
}

#[test]
fn default_node_writes_no_fields() {
    let n = EditorUiNode::default();
    assert!(component_fields(&n).is_empty());
    let e = spawn_extras(&n);
    assert!(!e.background && !e.border_color && !e.z_index && !e.hidden);
}

#[test]
fn changed_fields_are_listed_in_order() {
    let mut n = EditorUiNode::default();
    n.border_radius = 4.0f32.to_bits();
    n.height = EditorVal::Px(10.0f32.to_bits());
    n.flex_shrink = 0.0f32.to_bits();
    n.overflow_y = EditorOverflow::Hidden;
    n.row_gap = EditorVal::Px((-0.0f32).to_bits());
    n.padding.left = EditorVal::Auto;
    assert_eq!(
        component_fields(&n),
        vec![ComponentField::Height, ComponentField::Padding, ComponentField::FlexShrink, ComponentField::Overflow, ComponentField::BorderRadius]
    );
    n.z_index = -2;
    n.visible = false;
    n.background_color[3] = 1.0f32.to_bits();
    let e = spawn_extras(&n);
    assert!(e.background && !e.border_color && e.z_index && e.hidden);
}

#[test]
fn zero_rects() {
    let z = EditorVal::Px(0);
    assert!(is_rect_zero(&EditorRect { top: z, right: z, bottom: EditorVal::Px(0x8000_0000), left: z }));
    assert!(!is_rect_zero(&EditorRect { top: z, right: z, bottom: z, left: EditorVal::Percent(0) }));
}

#[test]
fn indentation_and_escaping() {
    assert_eq!(indent(0), "");
    assert_eq!(indent(2), "        ");
    assert_eq!(escape_quotes("say \"hi\""), "say \\\"hi\\\"");
    assert_eq!(escape_quotes("plain"), "plain");
}

#[test]
fn export_window_starts_hidden() {
    let w = ShowExportWindow::default();
    assert!(!w.show);
    assert!(w.code.is_empty());
}

#[test]
fn value_units_and_numbers() {
    let half = 0.5f32.to_bits();
    assert_eq!(EditorVal::Auto.type_label(), "Auto");
    assert_eq!(EditorVal::Px(half).type_label(), "Px");
    assert_eq!(EditorVal::Percent(half).type_label(), "Percent");
    assert_eq!(EditorVal::Vw(half).type_label(), "Vw");
    assert_eq!(EditorVal::Vh(half).type_label(), "Vh");
    assert_eq!(EditorVal::Auto.inner(), 0);
    assert_eq!(EditorVal::Vh(half).inner(), half);
}
