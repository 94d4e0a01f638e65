use bevy_editor::inspection::reflect_inspector::{variant_field_labels, VariantField, VariantInfo};
use bevy_editor::scene_tree::should_redraw_scene_tree;
use bevy_editor::inspection::bevy_inspector::{components_of_entity, ComponentEntry};
use bevy_editor::asset_browser::{
    asset_step, entry_icon, is_double_click, labeled_asset_places, opens_on_click, path_components,
    should_update, spawns_dragged_scene, toggle_labeled_assets, AssetBrowserEntry, AssetState, AssetStep,
    AssetTree, BrowserIcon,
};
use bevy_editor::cursor::{lock, CursorAction};
use bevy_editor::inspection::bevy_inspector::{
    filter_entities, handle_name, self_or_children_satisfy_filter, sorted_listing, text_contains, AssetIdText,
    EntityNameTree, Filter,
};
use bevy_editor::name_map::NameMap;
use bevy_editor::prefs::should_save;
use bevy_editor::scene::{
    check_single_field, scene_extensions, EditorSceneLoaderError, FieldError, SceneList, SceneMapSerializer,
};
use bevy_editor::viewport::{
    move_camera, on_pick_mesh, on_viewport_click, on_viewport_drag_start, PickAction, PointerButton,
    ViewportCameraMovement,
};

#[test]
fn cursor_lock_steps() {
    let focused = vec![true, false];
    let s = lock(true, true, false, &focused);
    assert!(s.actions == vec![CursorAction::Lock, CursorAction::Keep]);
    assert_eq!(s.hold, vec![true, false]);
    assert!(s.locked);
    let s = lock(false, true, true, &focused);
    assert!(s.actions == vec![CursorAction::Unlock, CursorAction::Unlock]);
    assert!(!s.locked);
    let s = lock(true, false, true, &focused);
    assert!(s.actions == vec![CursorAction::Keep, CursorAction::Keep]);
    assert!(s.locked);
    // A changed request is followed at once.
    assert!(lock(true, true, true, &focused).locked);
    assert!(!lock(false, true, false, &focused).locked);
}

#[test]
fn saves_on_exit() {
    assert!(!should_save(0));
    assert!(should_save(1));
}

#[test]
fn camera_moves() {
    assert_eq!(on_viewport_drag_start(None, PointerButton::Secondary), (Some(ViewportCameraMovement::Fly), true));
    assert_eq!(on_viewport_drag_start(None, PointerButton::Middle), (Some(ViewportCameraMovement::Pan), true));
    assert_eq!(on_viewport_drag_start(None, PointerButton::Primary), (None, false));
    assert!(on_viewport_click(None));
    assert!(!on_viewport_click(Some(ViewportCameraMovement::Pan)));
    assert_eq!(move_camera(Some(ViewportCameraMovement::Fly), true, true, false, true, false, false), Some((1, -1, 0)));
    assert_eq!(move_camera(Some(ViewportCameraMovement::Pan), true, false, false, false, false, false), None);
    assert_eq!(move_camera(None, true, false, false, false, false, false), None);
}

#[test]
fn picking_meshes() {
    let selections = vec![(1, true), (2, false), (3, true)];
    assert!(matches!(on_pick_mesh(false, true, false, 5, &selections), PickAction::Ignore));
    assert!(matches!(on_pick_mesh(true, false, false, 5, &selections), PickAction::Ignore));
    match on_pick_mesh(true, true, false, 5, &selections) {
        PickAction::Replace { deselect, select } => {
            assert_eq!(deselect, vec![1, 3]);
            assert_eq!(select, 5);
        }
        _ => panic!("expected a replacement"),
    }
    assert!(matches!(on_pick_mesh(true, true, true, 2, &selections), PickAction::Deselect(2)));
    assert!(matches!(on_pick_mesh(true, true, true, 5, &selections), PickAction::Select(5)));
}

#[test]
fn browser_entries() {
    let dir = AssetBrowserEntry::new(None, true, true, None);
    assert!(dir.has_children());
    assert!(dir.icon(true) == BrowserIcon::FolderOpen);
    assert!(dir.icon(false) == BrowserIcon::Folder);
    assert_eq!(dir.label("maps", false), "maps");
    let file = AssetBrowserEntry::new(None, false, false, None);
    assert!(!file.has_children() && !file.is_asset());
    assert!(file.icon(false) == BrowserIcon::File);
    let asset = AssetBrowserEntry::new(None, false, true, Some(vec!["Mesh0".into()]));
    assert!(asset.has_children() && asset.is_asset());
    assert!(asset.icon(false) == BrowserIcon::Package);
    assert_eq!(asset.label("tree.gltf", false), "Loading...");
    assert_eq!(asset.label("tree.gltf", true), "tree.gltf");
    let empty = AssetBrowserEntry::new(None, false, true, Some(vec![]));
    assert!(!empty.has_children());
    let sub = AssetBrowserEntry::new(Some("Mesh0".into()), true, true, None);
    assert!(sub.is_asset());
    assert_eq!(sub.label("tree.gltf", true), "Mesh0");
}

#[test]
fn asset_loading_steps() {
    let loading: AssetState<u8, u16> = AssetState::Loading(1);
    let ready: AssetState<u8, u16> = AssetState::Ready(2);
    assert!(matches!(asset_step::<u8, u16>(None, None), AssetStep::StartLoading));
    assert!(matches!(asset_step(Some(&loading), None), AssetStep::Wait));
    assert!(matches!(asset_step(Some(&loading), Some(9)), AssetStep::BecomeReady(9)));
    assert!(matches!(asset_step(Some(&ready), None), AssetStep::Offer));
    let mut tree: AssetTree<u8, u16> = AssetTree { states: NameMap::new() };
    tree.states.insert("a.png".into(), AssetState::Loading(1));
    tree.states.insert("b.png".into(), AssetState::Ready(2));
    tree.retain_inspected(&vec!["b.png".to_string(), "c.png".to_string()]);
    assert!(tree.states.get("a.png").is_none());
    assert!(matches!(tree.states.get("b.png"), Some(AssetState::Ready(2))));
}

#[test]
fn folder_view_decisions() {
    assert!(is_double_click(250) && !is_double_click(251));
    assert!(opens_on_click(100, true) && !opens_on_click(100, false));
    assert_eq!(entry_icon(true), "embedded://bevy_editor//icons/folder.png");
    assert_eq!(entry_icon(false), "embedded://bevy_editor//icons/file.png");
    assert_eq!(toggle_labeled_assets(false), (true, "embedded://bevy_editor//icons/chevron_left.png".to_string()));
    assert_eq!(toggle_labeled_assets(true), (false, "embedded://bevy_editor//icons/chevron_right.png".to_string()));
    assert_eq!(labeled_asset_places(3, 2), vec![(4, false), (5, true)]);
    assert!(labeled_asset_places(3, 0).is_empty());
    assert!(spawns_dragged_scene(true, true, false));
    assert!(!spawns_dragged_scene(true, true, true));
    assert!(should_update(true, false, true) && !should_update(false, true, true));
    assert_eq!(path_components("./assets/models/trees"), vec!["trees".to_string(), "models".to_string(), "assets".to_string()]);
    assert!(path_components("").is_empty());
}

fn tree(name: &str, children: Vec<EntityNameTree>) -> EntityNameTree {
    EntityNameTree { name: name.to_string(), children }
}

#[test]
fn entity_filters() {
    assert!(text_contains("hello world", "o w"));
    assert!(text_contains("abc", ""));
    assert!(!text_contains("abc", "abcd"));
    let f = Filter::from_text("CuBe", false);
    assert_eq!(f.word, "cube");
    assert!(f.is_active());
    assert!(!Filter::all().is_active());
    let entities = vec![
        tree("Ground", vec![tree("Big Cube", vec![])]),
        tree("Light", vec![]),
        tree("CUBE", vec![]),
    ];
    assert!(self_or_children_satisfy_filter(&entities[0], "cube", false));
    assert_eq!(filter_entities(&f, &entities), vec![0, 2]);
    assert_eq!(filter_entities(&Filter::all(), &entities), vec![0, 1, 2]);
    let fuzzy = Filter::from_text("lgt", true);
    assert_eq!(filter_entities(&fuzzy, &entities), vec![1]);
}

#[test]
fn handle_names() {
    assert_eq!(handle_name(Some("a.png".into()), &AssetIdText::Uuid(1)), "a.png");
    assert_eq!(handle_name(None, &AssetIdText::Index("Id(12)".into())), "Id(12)");
    assert_eq!(
        handle_name(None, &AssetIdText::Uuid(0x67e55044_10b1_426f_9247_bb680e5fe0c8)),
        "67e55044-10b1-426f-9247-bb680e5fe0c8"
    );
}

#[test]
fn resource_listing_sorted() {
    let entries = vec![("Time".to_string(), true), ("Assets".to_string(), false), ("Gravity".to_string(), true), ("Time".to_string(), true)];
    assert_eq!(sorted_listing(&entries), vec![2, 0, 3]);
}

#[test]
fn scene_format_checks() {
    assert!(check_single_field(0) == Err(FieldError::Missing));
    assert!(check_single_field(1) == Ok(()));
    assert!(check_single_field(2) == Err(FieldError::Duplicate));
    assert_eq!(scene_extensions(), vec!["asn".to_string()]);
    assert_eq!(EditorSceneLoaderError::Io("gone".into()).message(), "Error while trying to read the scene file: gone");
    assert_eq!(EditorSceneLoaderError::RonSpannedError("bad".into()).message(), "Could not parse RON: bad");
    assert_eq!(SceneList { scenes: vec![] }.title(), "Scene List");
}

#[test]
fn world_inspector_component_rows() {
    let entry = |name: &str, id: u64| ComponentEntry { name: name.to_string(), component_id: id, type_key: Some(id), size: 4 };
    let rows = components_of_entity(&vec![entry("b::Velocity", 1), entry("a::Name", 2), entry("c::Velocity", 3)]);
    let names: Vec<(&str, u64)> = rows.iter().map(|r| (r.name.as_str(), r.component_id)).collect();
    assert_eq!(names, vec![("Name", 2), ("Velocity", 1), ("Velocity", 3)]);
}

#[test]
fn scene_tree_redraws() {
    assert!(!should_redraw_scene_tree(false, true, true));
    assert!(should_redraw_scene_tree(true, true, false));
    assert!(should_redraw_scene_tree(true, false, true));
    assert!(!should_redraw_scene_tree(true, false, false));
}

#[test]
fn scene_map_entries_sorted_by_type_path() {
    let s = SceneMapSerializer {
        type_paths: vec!["b::T".to_string(), "a::Z".to_string(), "b::T".to_string(), "a::B".to_string()],
    };
    assert_eq!(s.entry_order(), vec![3, 1, 0, 2]);
}

#[test]
fn tuple_field_labels_are_decimal() {
    let fields: Vec<VariantField> = (0..12)
        .map(|_| VariantField { name: String::new(), type_path: "u8".to_string(), constructable: true })
        .collect();
    let (labels, _) = variant_field_labels(&VariantInfo::Tuple(fields));
    assert_eq!(labels[0], "0");
    assert_eq!(labels[10], "10");
    assert_eq!(labels[11], "11");
}
