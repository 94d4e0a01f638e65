use bevy_editor::fuzzy::{fuzzy_match, rank_by_score};
use bevy_editor::properties::{
    split_tags, ComponentData,
    collect_add_component_tree, get_entity_component_data, properties_view, rank_menu_items,
    ComponentIgnore, ComponentInfo, PropertiesView, TypeRegistration,
};
use bevy_editor::selection::{EntitySelection, SelectionMap};
use bevy_editor::text::{sort_by_name, str_less};

fn info(name: &str, id: u64, key: Option<u64>, registered: bool, size: usize) -> ComponentInfo {
    ComponentInfo { name: name.to_string(), component_id: id, type_key: key, registered, size }
}

#[test]
fn ignore_set() {
    let mut ignore = ComponentIgnore::new();
    assert!(!ignore.contains(3));
    ignore.insert(3);
    ignore.insert(3);
    assert!(ignore.contains(3));
    assert!(!ignore.contains(4));
}

#[test]
fn component_listing_sorted_with_transform_first() {
    let mut ignore = ComponentIgnore::new();
    ignore.insert(99);
    let components = vec![
        info("my::Zeta", 1, Some(10), true, 4),
        info("bevy::transform::Transform", 2, Some(20), true, 40),
        info("my::Alpha", 3, Some(30), true, 0),
        info("my::Hidden", 4, Some(99), true, 8),
        info("my::Unregistered", 5, Some(50), false, 8),
        info("my::NoType", 6, None, true, 8),
    ];
    let data = get_entity_component_data(&components, &ignore, 20);
    let names: Vec<&str> = data.iter().map(|d| d.name.as_str()).collect();
    // Sorted: Alpha, Transform, Zeta; then Transform swapped with the first.
    assert_eq!(names, vec!["Transform", "Alpha", "Zeta"]);
    assert_eq!(data[0].component_id, 2);
    assert_eq!(data[1].size, 0);
    assert_eq!(data[2].type_key, 10);
}

#[test]
fn component_listing_without_transform() {
    let ignore = ComponentIgnore::new();
    let components = vec![info("b::B", 1, Some(1), true, 1), info("a::A", 2, Some(2), true, 1)];
    let data = get_entity_component_data(&components, &ignore, 77);
    let names: Vec<&str> = data.iter().map(|d| d.name.as_str()).collect();
    assert_eq!(names, vec!["A", "B"]);
    assert!(get_entity_component_data(&vec![], &ignore, 77).is_empty());
}

fn reg(key: u64, path: &str, component: bool, default: bool) -> TypeRegistration {
    TypeRegistration { type_key: key, type_path: path.to_string(), is_component: component, has_default: default }
}

#[test]
fn add_component_menu_items() {
    let mut ignore = ComponentIgnore::new();
    ignore.insert(4);
    let regs = vec![
        reg(1, "game::Speed", true, true),
        reg(2, "game::Armor", true, true),
        reg(3, "game::NoDefault", true, false),
        reg(4, "game::Ignored", true, true),
        reg(5, "game::NotComponent", false, true),
        reg(6, "game::Armor", true, true),
    ];
    let menu = collect_add_component_tree(&regs, &ignore);
    assert_eq!(menu.search, "");
    assert_eq!(menu.items, vec!["game::Armor".to_string(), "game::Speed".to_string()]);
}

#[test]
fn fuzzy_scores() {
    assert_eq!(fuzzy_match("anything", ""), Some(0));
    assert_eq!(fuzzy_match("Transform", "xyz"), None);
    assert!(fuzzy_match("Transform", "trfm").is_some());
}

#[test]
fn rank_is_stable_and_descending() {
    assert_eq!(rank_by_score(&vec![1, 5, 1, 7]), vec![3, 1, 0, 2]);
    assert!(rank_by_score(&vec![]).is_empty());
}

#[test]
fn menu_ranked_by_search() {
    let items = vec!["game::Armor".to_string(), "game::Speed".to_string(), "game::Spawn".to_string()];
    let order = rank_menu_items(&items, "speed");
    assert_eq!(order[0], 1);
    assert_eq!(order.len(), 3);
    // With an empty search every item scores zero: the order is kept.
    assert_eq!(rank_menu_items(&items, ""), vec![0, 1, 2]);
}

#[test]
fn names_sorted_stably() {
    let names = vec!["b".to_string(), "a".to_string(), "b".to_string(), "".to_string()];
    assert_eq!(sort_by_name(&names), vec![3, 1, 0, 2]);
    assert!(str_less("a", "b"));
    assert!(str_less("ab", "abc"));
    assert!(!str_less("b", "b"));
    assert!(!str_less("é", "z"));
}

#[test]
fn properties_view_choices() {
    let mut map = SelectionMap::new();
    assert!(matches!(properties_view(&map), PropertiesView::Nothing));
    map.select(EntitySelection::new(4));
    assert!(matches!(properties_view(&map), PropertiesView::Entity(4)));
    map.select(EntitySelection::new(5));
    match properties_view(&map) {
        PropertiesView::Entities(es) => assert_eq!(es, vec![4, 5]),
        _ => panic!("expected entities"),
    }
    map.select_key(9, "Asset", 1);
    match properties_view(&map) {
        PropertiesView::Summary(lines) => {
            let mut lines = lines;
            lines.sort();
            assert_eq!(lines, vec!["Asset x1".to_string(), "Entity x2".to_string()]);
        }
        _ => panic!("expected a summary"),
    }
    let mut other = SelectionMap::new();
    other.select_key(9, "Asset", 1);
    assert!(matches!(properties_view(&other), PropertiesView::Nothing));
}

#[test]
fn tags_apart_from_components() {
    let d = |size: usize| ComponentData { name: "X".into(), component_id: 0, type_key: 0, size };
    let (tags, others) = split_tags(&vec![d(0), d(4), d(0), d(8)]);
    assert_eq!(tags, vec![0, 2]);
    assert_eq!(others, vec![1, 3]);
    let (tags, others) = split_tags(&vec![]);
    assert!(tags.is_empty() && others.is_empty());
}
