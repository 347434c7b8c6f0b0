use bevy_editor::scene_doc::{DragDropState, DropPosition, SceneDocument};
use bevy_editor::scene_model::{new_scene_node, SceneLightKind, SceneNode, SceneNodeKind, ScenePrimitive};

fn leaf(id: u64, name: &str) -> SceneNode {
    let mut n = new_scene_node(id, SceneNodeKind::Empty);
    n.name = name.to_string();
    n
}

fn ids(nodes: &[SceneNode]) -> Vec<u64> {
    nodes.iter().map(|n| n.id).collect()
}

/// root 1 with children 10 (child 11) and 20; root 2.
fn sample() -> SceneDocument {
    let mut a = leaf(1, "a");
    let mut b = leaf(10, "b");
    b.children.push(leaf(11, "c"));
    a.children.push(b);
    a.children.push(leaf(20, "d"));
    SceneDocument { nodes: vec![a, leaf(2, "e")] }
}

#[test]
fn default_scene_has_ground_and_sun() {
    let d = SceneDocument::default();
    assert_eq!(ids(&d.nodes), vec![1, 2]);
    assert_eq!(d.nodes[0].name, "Ground");
    assert_eq!(d.nodes[0].kind, SceneNodeKind::Mesh(ScenePrimitive::Plane));
    assert_eq!(f32::from_bits(d.nodes[0].props.scale[0]), 5.0);
    assert_eq!(f32::from_bits(d.nodes[0].props.color[1]), 0.5);
    assert_eq!(d.nodes[1].name, "Sun");
    assert_eq!(d.nodes[1].kind, SceneNodeKind::Light(SceneLightKind::Directional));
    assert_eq!(f32::from_bits(d.nodes[1].props.light_intensity), 2000.0);
    assert_eq!(f32::from_bits(d.nodes[1].props.rotation_euler[0]), -45.0);
}

#[test]
fn find_node_searches_depth_first() {
    let d = sample();
    assert_eq!(d.find_node(11).map(|n| n.name.clone()), Some("c".to_string()));
    assert_eq!(d.find_node(2).map(|n| n.name.clone()), Some("e".to_string()));
    assert!(d.find_node(99).is_none());
}

#[test]
fn find_node_mut_writes_through() {
    let mut d = sample();
    d.find_node_mut(20).unwrap().name = "renamed".to_string();
    assert_eq!(d.find_node(20).unwrap().name, "renamed");
    assert!(d.find_node_mut(77).is_none());
}

#[test]
fn add_node_under_parent_or_at_top() {
    let mut d = sample();
    d.add_node(Some(10), leaf(50, "x"));
    assert_eq!(ids(&d.find_node(10).unwrap().children), vec![11, 50]);
    d.add_node(None, leaf(51, "y"));
    assert_eq!(ids(&d.nodes), vec![1, 2, 51]);
    // A parent that is not there puts the node at the top level.
    d.add_node(Some(999), leaf(52, "z"));
    assert_eq!(ids(&d.nodes), vec![1, 2, 51, 52]);
}

#[test]
fn remove_node_reports_whether_found() {
    let mut d = sample();
    assert!(d.remove_node(10));
    assert!(d.find_node(10).is_none());
    assert!(d.find_node(11).is_none());
    assert_eq!(ids(&d.nodes[0].children), vec![20]);
    assert!(!d.remove_node(10));
}

#[test]
fn take_node_hands_back_subtree() {
    let mut d = sample();
    let t = d.take_node(10).unwrap();
    assert_eq!(t.id, 10);
    assert_eq!(ids(&t.children), vec![11]);
    assert!(d.take_node(10).is_none());
}

#[test]
fn insert_node_before_after_inside() {
    let mut d = sample();
    d.insert_node(leaf(60, "p"), 20, DropPosition::Before);
    assert_eq!(ids(&d.nodes[0].children), vec![10, 60, 20]);
    d.insert_node(leaf(61, "q"), 2, DropPosition::After);
    assert_eq!(ids(&d.nodes), vec![1, 2, 61]);
    d.insert_node(leaf(62, "r"), 11, DropPosition::Inside);
    assert_eq!(ids(&d.find_node(11).unwrap().children), vec![62]);
    d.insert_node(leaf(63, "s"), 12345, DropPosition::Before);
    assert_eq!(ids(&d.nodes), vec![1, 2, 61, 63]);
}

#[test]
fn move_node_moves_subtree() {
    let mut d = sample();
    assert!(d.move_node(10, 2, DropPosition::Inside));
    assert_eq!(ids(&d.nodes[0].children), vec![20]);
    assert_eq!(ids(&d.find_node(2).unwrap().children), vec![10]);
    assert_eq!(ids(&d.find_node(10).unwrap().children), vec![11]);
}

#[test]
fn move_node_refuses_self_descendant_and_missing() {
    let mut d = sample();
    assert!(!d.move_node(10, 10, DropPosition::After));
    assert!(!d.move_node(1, 11, DropPosition::Inside));
    assert!(!d.move_node(404, 2, DropPosition::Before));
    assert_eq!(ids(&d.nodes), vec![1, 2]);
    assert_eq!(ids(&d.nodes[0].children), vec![10, 20]);
}

#[test]
fn is_ancestor_includes_self() {
    let d = sample();
    assert!(d.is_ancestor(1, 11));
    assert!(d.is_ancestor(10, 10));
    assert!(!d.is_ancestor(10, 20));
    assert!(!d.is_ancestor(99, 1));
}

#[test]
fn collect_ids_in_pre_order() {
    let d = sample();
    let got: Vec<(u64, String)> = d.collect_ids();
    let want: Vec<(u64, String)> = vec![
        (1, "a".into()),
        (10, "b".into()),
        (11, "c".into()),
        (20, "d".into()),
        (2, "e".into()),
    ];
    assert_eq!(got, want);
}

#[test]
fn move_keeps_every_node_once() {
    let mut d = sample();
    d.move_node(20, 11, DropPosition::Inside);
    let mut all: Vec<u64> = d.collect_ids().into_iter().map(|(i, _)| i).collect();
    all.sort();
    assert_eq!(all, vec![1, 2, 10, 11, 20]);
}

#[test]
fn drag_state_starts_empty() {
    let s = DragDropState::default();
    assert!(s.dragging.is_none());
    assert!(s.drop_target.is_none());
}

#[test]
fn new_scene_node_defaults_per_kind() {
    let cube = new_scene_node(5, SceneNodeKind::Mesh(ScenePrimitive::Cube));
    assert_eq!(cube.name, "Cube");
    assert_eq!(f32::from_bits(cube.props.translation[1]), 0.5);
    let cap = new_scene_node(6, SceneNodeKind::Mesh(ScenePrimitive::Capsule));
    assert_eq!(f32::from_bits(cap.props.translation[1]), 1.0);
    let spot = new_scene_node(7, SceneNodeKind::Light(SceneLightKind::Spot));
    assert_eq!(spot.name, "Spot Light");
    assert_eq!(f32::from_bits(spot.props.rotation_euler[0]), -90.0);
    assert_eq!(f32::from_bits(spot.props.light_intensity), 1000.0);
    let point = new_scene_node(8, SceneNodeKind::Light(SceneLightKind::Point));
    assert_eq!(f32::from_bits(point.props.translation[1]), 4.0);
    assert_eq!(f32::from_bits(point.props.light_intensity), 800.0);
    let empty = new_scene_node(9, SceneNodeKind::Empty);
    assert_eq!(empty.name, "Empty");
    assert!(empty.visible);
    assert!(empty.children.is_empty());
}

#[test]
fn kind_labels() {
    assert_eq!(SceneNodeKind::Mesh(ScenePrimitive::Torus).label(), "Mesh (Torus)");
    assert_eq!(SceneNodeKind::Light(SceneLightKind::Point).label(), "Light (Point)");
    assert_eq!(SceneNodeKind::Empty.label(), "Empty");
    assert_eq!(ScenePrimitive::Tetrahedron.label(), "Tetrahedron");
}

#[test]
fn deep_clone_copies_subtree() {
    let d = sample();
    let c = d.nodes[0].deep_clone();
    assert_eq!(c.id, 1);
    assert_eq!(ids(&c.children), vec![10, 20]);
    assert_eq!(ids(&c.children[0].children), vec![11]);
}
