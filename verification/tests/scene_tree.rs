use bevy_editor::scene_tree::{
    collect_scene_entities, drop_action, drop_target, entity_header_label, mark_scene_dirty,
    populate_scene_tree, scene_heading, scene_name, toggle_header, DropAction, DropZone, SceneNode,
};

fn node(entity: u64, name: Option<&str>, scene_root: bool, children: Vec<SceneNode>) -> SceneNode {
    SceneNode { entity, name: name.map(|n| n.to_string()), is_scene_root: scene_root, children }
}

fn sample() -> Vec<SceneNode> {
    vec![
        node(1, Some("Ground"), false, vec![node(2, None, false, vec![]), node(3, Some("Rock"), false, vec![])]),
        node(4, Some("Imported"), true, vec![node(5, None, false, vec![])]),
        node(6, None, false, vec![node(7, None, true, vec![]), node(8, None, false, vec![])]),
    ]
}

#[test]
fn saved_entities_depth_first_without_nested_scenes() {
    let mut entities = vec![];
    let mut roots = vec![];
    collect_scene_entities(&sample(), &mut entities, &mut roots);
    assert_eq!(entities, vec![1, 2, 3, 4, 6, 7, 8]);
    assert_eq!(roots, vec![4, 7]);
}

#[test]
fn tree_view_mirrors_hierarchy() {
    let tree = node(1, Some("Ground"), false, vec![node(2, None, false, vec![node(9, Some("Leaf"), false, vec![])])]);
    let view = populate_scene_tree(&tree);
    assert_eq!(view.label, "Ground");
    assert!(view.expanded);
    assert_eq!(view.children.len(), 1);
    assert_eq!(view.children[0].label, "Entity");
    assert_eq!(view.children[0].children[0].entity, 9);
    assert_eq!(view.children[0].children[0].label, "Leaf");
}

#[test]
fn header_toggles() {
    let t = toggle_header(true);
    assert!(!t.expanded && !t.content_visible);
    assert_eq!(t.icon, "embedded://bevy_editor/icons/chevron_right.png");
    let t = toggle_header(false);
    assert!(t.expanded && t.content_visible);
    assert_eq!(t.icon, "embedded://bevy_editor/icons/chevron_down.png");
}

#[test]
fn labels_and_headings() {
    assert_eq!(entity_header_label(Some("Cube"), false), "Cube");
    assert_eq!(entity_header_label(None, false), "Entity");
    assert_eq!(entity_header_label(Some("Cube"), true), "Loading...");
    assert_eq!(scene_heading(Some("level"), true), "level*");
    assert_eq!(scene_heading(None, false), "untiteled");
}

#[test]
fn scene_names_from_paths() {
    assert_eq!(scene_name(Some("scenes/level_one.asn")), "level_one");
    assert_eq!(scene_name(Some("a.b.scn")), "a.b");
    assert_eq!(scene_name(None), "untitled");
    assert_eq!(scene_name(Some("..")), "untitled");
}

#[test]
fn drop_places() {
    // Above the entity at place 2 of the same parent: the place before it.
    assert_eq!(drop_target(5, 1, true, 2, DropZone::Above), (1, 1));
    assert_eq!(drop_target(5, 1, true, 0, DropZone::Above), (1, 0));
    assert_eq!(drop_target(5, 1, false, 2, DropZone::Above), (1, 2));
    assert_eq!(drop_target(5, 1, false, 2, DropZone::Below), (1, 3));
    assert_eq!(drop_target(5, 1, true, 2, DropZone::Below), (1, 2));
    assert_eq!(drop_target(5, 1, true, 2, DropZone::Middle), (5, 2));
}

#[test]
fn drops_never_make_cycles() {
    // Dropping 3 onto its own descendant 7 (ancestors of 7: 6, 3, 1) is refused.
    assert!(matches!(drop_action(7, 3, 7, 0, &vec![6, 3, 1]), DropAction::Refuse));
    assert!(matches!(drop_action(7, 7, 7, 0, &vec![]), DropAction::Refuse));
    assert!(matches!(drop_action(7, 3, 7, 0, &vec![6, 1]), DropAction::AddChild { parent: 7, child: 3 }));
    assert!(matches!(drop_action(7, 3, 6, 1, &vec![1]), DropAction::InsertChild { parent: 6, index: 1, child: 3 }));
}

#[test]
fn dirty_marks() {
    let mut dirty = false;
    mark_scene_dirty(0, &mut dirty);
    assert!(!dirty);
    mark_scene_dirty(2, &mut dirty);
    assert!(dirty);
    mark_scene_dirty(0, &mut dirty);
    assert!(dirty);
}
