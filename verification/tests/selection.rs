use bevy_editor::hierarchy::hierarchy_click;
use bevy_editor::scene_tree::{select_on_click, selected_entities};
use bevy_editor::selection::{mark_entities, EntitySelection, SelectionItems, SelectionMap, ENTITY_SELECTION_KIND};

fn entities(map: &SelectionMap) -> Vec<u64> {
    map.of_type().unwrap_or_default()
}

#[test]
fn select_then_is_selected() {
    let mut map = SelectionMap::new();
    map.select(EntitySelection::new(7));
    assert!(map.is_selected(&EntitySelection::new(7)));
    assert!(!map.is_selected(&EntitySelection::new(8)));
    assert_eq!(entities(&map), vec![7]);
}

#[test]
fn deselect_then_not_selected() {
    let mut map = SelectionMap::new();
    map.select(EntitySelection::new(1));
    map.select(EntitySelection::new(2));
    map.deselect(&EntitySelection::new(1));
    assert!(!map.is_selected(&EntitySelection::new(1)));
    assert_eq!(entities(&map), vec![2]);
}

#[test]
fn select_then_deselect_restores() {
    let mut map = SelectionMap::new();
    map.select(EntitySelection::new(3));
    map.select(EntitySelection::new(4));
    map.deselect(&EntitySelection::new(4));
    assert_eq!(entities(&map), vec![3]);
    map.deselect(&EntitySelection::new(3));
    assert!(map.of_type().is_none());
    assert!(map.type_ids().is_empty());
}

#[test]
fn select_twice_moves_item_last() {
    let mut map = SelectionMap::new();
    map.select(EntitySelection::new(1));
    map.select(EntitySelection::new(2));
    map.select(EntitySelection::new(3));
    map.select(EntitySelection::new(1));
    // The last element takes the old place of the re-selected one.
    assert_eq!(entities(&map), vec![3, 2, 1]);
    map.select(EntitySelection::new(1));
    assert_eq!(entities(&map), vec![3, 2, 1]);
}

#[test]
fn select_keeps_other_kinds() {
    let mut map = SelectionMap::new();
    map.select_key(5, "File", 100);
    map.select(EntitySelection::new(1));
    assert_eq!(map.of_type_key(5), Some(vec![100]));
    let mut kinds = map.type_ids();
    kinds.sort();
    assert_eq!(kinds, vec![ENTITY_SELECTION_KIND, 5]);
    let group = map.of_type_id(5).unwrap();
    assert_eq!(group.label(), "File");
    assert_eq!(group.len(), 1);
}

#[test]
fn clear_empties_selection() {
    let mut map = SelectionMap::new();
    map.select(EntitySelection::new(1));
    map.select_key(9, "Other", 2);
    map.clear();
    assert!(map.type_ids().is_empty());
    assert!(map.iter().is_empty());
}

#[test]
fn click_without_ctrl_selects_alone() {
    let mut map = SelectionMap::new();
    map.select(EntitySelection::new(1));
    map.select(EntitySelection::new(2));
    select_on_click(&mut map, 3, false);
    assert_eq!(entities(&map), vec![3]);
}

#[test]
fn click_with_ctrl_toggles() {
    let mut map = SelectionMap::new();
    select_on_click(&mut map, 3, true);
    select_on_click(&mut map, 4, true);
    assert_eq!(entities(&map), vec![3, 4]);
    select_on_click(&mut map, 3, true);
    assert_eq!(entities(&map), vec![4]);
}

#[test]
fn hierarchy_background_click_clears() {
    let mut map = SelectionMap::new();
    hierarchy_click(&mut map, Some(1), false, false);
    assert_eq!(entities(&map), vec![1]);
    hierarchy_click(&mut map, None, false, false);
    assert_eq!(entities(&map), vec![1]);
    hierarchy_click(&mut map, None, false, true);
    assert!(map.of_type().is_none());
}

#[test]
fn despawn_takes_selected_entities() {
    let mut map = SelectionMap::new();
    assert!(selected_entities(&map).is_empty());
    map.select(EntitySelection::new(5));
    map.select(EntitySelection::new(6));
    assert_eq!(selected_entities(&map), vec![5, 6]);
}

#[test]
fn marks_follow_selection() {
    let mut map = SelectionMap::new();
    map.select(EntitySelection::new(1));
    map.select(EntitySelection::new(2));
    let marked = vec![2, 3];
    let (unmark, mark) = mark_entities(&map, &marked);
    assert_eq!(unmark, vec![3]);
    assert_eq!(mark, vec![1]);
    let mut after: Vec<u64> = marked.into_iter().filter(|e| !unmark.contains(e)).collect();
    after.extend(mark);
    after.sort();
    assert_eq!(after, vec![1, 2]);
}

#[test]
fn select_then_deselect_keeps_labels() {
    let mut map = SelectionMap::new();
    map.select_key(5, "File", 100);
    let item = EntitySelection::new(9);
    map.select(item.clone());
    assert_eq!(map.of_type_id(ENTITY_SELECTION_KIND).unwrap().label(), "Entity");
    map.deselect(&item);
    assert!(map.of_type_id(ENTITY_SELECTION_KIND).is_none());
    assert_eq!(map.type_ids(), vec![5]);
    assert_eq!(map.of_type_id(5).unwrap().label(), "File");
    assert_eq!(map.of_type_key(5), Some(vec![100]));
}
