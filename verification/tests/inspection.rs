use bevy_editor::inspection::error::{
    missing_componentid, missing_type_id, missing_typedata, no_access, no_access_component,
    no_access_resource, no_default_value, no_multiedit, no_world_in_context, nonexistent_asset_handle,
    nonexistent_component, nonexistent_entity, nonexistent_resource, nonexistent_state,
    not_in_type_registry, reflect_value_no_impl, typeid_name, unconstructable_variant, TextSegment,
    TypeDataError, WorldViewError,
};
use bevy_editor::inspection::list::{apply_list_op, respond_to_list_op, ListOp};
use bevy_editor::inspection::reflect_inspector::{
    get_type_data, inspector_options_enum_variant_field, inspector_options_struct_field,
    iter_all_eq, map_add_element, maybe_grid, maybe_grid_label_if, or, respond_to_set_op,
    respond_to_sets_op, shared_values, ui_for_list_controls, variant_constructable,
    construct_default_variant,
    variant_field_labels, GridLayout, InspectorOptions, ListControlClicks, MapDraft, SetOp, Target,
    VariantField, VariantInfo,
};
use bevy_editor::inspection::utils::pretty_type_name_str;

fn texts(job: &[TextSegment]) -> Vec<(bool, String)> {
    job.iter().map(|s| (s.monospace, s.text.clone())).collect()
}

#[test]
fn iter_all_eq_cases() {
    assert_eq!(iter_all_eq(&vec![]), None);
    assert_eq!(iter_all_eq(&vec![3]), Some(3));
    assert_eq!(iter_all_eq(&vec![3, 3, 3]), Some(3));
    assert_eq!(iter_all_eq(&vec![3, 4, 3]), None);
}

#[test]
fn list_controls_last_click_wins() {
    let all = ListControlClicks { add: true, remove: true, up: true, down: true };
    assert!(ui_for_list_controls(1, 3, &all) == Some(ListOp::MoveElementDown(1)));
    assert!(ui_for_list_controls(2, 3, &all) == Some(ListOp::MoveElementUp(2)));
    assert!(ui_for_list_controls(0, 1, &all) == Some(ListOp::RemoveElement(0)));
    let add = ListControlClicks { add: true, remove: false, up: false, down: false };
    assert!(ui_for_list_controls(0, 0, &add) == Some(ListOp::AddElement(0)));
    let none = ListControlClicks { add: false, remove: false, up: true, down: true };
    assert!(ui_for_list_controls(0, 1, &none).is_none());
}

#[test]
fn add_then_remove_restores_list() {
    let mut list = vec![10, 20, 30];
    let missing = apply_list_op(&mut list, ListOp::AddElement(1), &Some(0));
    assert!(!missing);
    assert_eq!(list, vec![10, 0, 20, 30]);
    apply_list_op(&mut list, ListOp::RemoveElement(1), &Some(0));
    assert_eq!(list, vec![10, 20, 30]);
}

#[test]
fn add_without_default_clones_neighbour_or_reports() {
    let mut list = vec![10, 20];
    assert!(!apply_list_op(&mut list, ListOp::AddElement(1), &None));
    assert_eq!(list, vec![10, 20, 20]);
    assert!(apply_list_op(&mut list, ListOp::AddElement(3), &None));
    assert_eq!(list, vec![10, 20, 20]);
    assert!(apply_list_op(&mut list, ListOp::AddElement(7), &None));
    assert_eq!(list, vec![10, 20, 20]);
}

#[test]
fn move_down_then_up_restores_list() {
    let mut list = vec![1, 2, 3];
    apply_list_op(&mut list, ListOp::MoveElementDown(0), &None);
    assert_eq!(list, vec![2, 1, 3]);
    apply_list_op(&mut list, ListOp::MoveElementUp(1), &None);
    assert_eq!(list, vec![1, 2, 3]);
    apply_list_op(&mut list, ListOp::MoveElementUp(0), &None);
    assert_eq!(list, vec![1, 2, 3]);
}

#[test]
fn list_op_on_many_lists() {
    let mut lists = vec![vec![1, 2], vec![3, 4]];
    let r = respond_to_list_op(&mut lists, ListOp::RemoveElement(0), &None::<i32>);
    assert!(r.changed);
    assert!(!r.missing_default);
    assert_eq!(lists, vec![vec![2], vec![4]]);
    let r = respond_to_list_op(&mut lists, ListOp::MoveElementUp(0), &None::<i32>);
    assert!(!r.changed);
    let mut empty: Vec<Vec<i32>> = vec![];
    let r = respond_to_list_op(&mut empty, ListOp::AddElement(0), &None);
    assert!(!r.changed);
}

#[test]
fn grid_layouts() {
    assert!(maybe_grid(0) == GridLayout::Nothing);
    assert!(maybe_grid(1) == GridLayout::Plain);
    assert!(maybe_grid(2) == GridLayout::Grid);
    assert!(maybe_grid_label_if(1, true) == GridLayout::Grid);
}

fn field(name: &str, path: &str, ok: bool) -> VariantField {
    VariantField { name: name.to_string(), type_path: path.to_string(), constructable: ok }
}

#[test]
fn variant_constructable_lists_blocking_fields() {
    assert!(variant_constructable(&VariantInfo::Unit).is_ok());
    let ok = VariantInfo::Struct(vec![field("a", "u8", true)]);
    assert!(variant_constructable(&ok).is_ok());
    let bad = VariantInfo::Tuple(vec![field("", "A", false), field("", "u8", true), field("", "B", false)]);
    assert_eq!(variant_constructable(&bad), Err(vec!["A".to_string(), "B".to_string()]));
}

#[test]
fn variant_labels() {
    let s = VariantInfo::Struct(vec![field("x", "f32", true), field("y", "f32", true)]);
    assert_eq!(variant_field_labels(&s), (vec!["x".to_string(), "y".to_string()], true));
    let t = VariantInfo::Tuple((0..12).map(|_| field("", "u8", true)).collect());
    let (labels, show) = variant_field_labels(&t);
    assert!(!show);
    assert_eq!(labels[0], "0");
    assert_eq!(labels[11], "11");
    assert_eq!(variant_field_labels(&VariantInfo::Unit), (vec![], false));
}

#[test]
fn inspector_options_by_target() {
    let mut o: InspectorOptions<u32> = InspectorOptions::new();
    o.insert(Target::Field(2), 7);
    o.insert(Target::VariantField { variant_index: 1, field_index: 0 }, 8);
    o.insert(Target::Field(2), 9);
    assert_eq!(inspector_options_struct_field(Some(&o), 2), Some(&9));
    assert_eq!(inspector_options_struct_field(Some(&o), 3), None);
    assert_eq!(inspector_options_enum_variant_field(Some(&o), 1, 0), Some(&8));
    assert_eq!(inspector_options_struct_field::<u32>(None, 2), None);
}

#[test]
fn or_combines_results() {
    assert_eq!(or::<()>(Ok(false), Ok(true)), Ok(true));
    assert_eq!(or::<()>(Ok(false), Ok(false)), Ok(false));
    assert_eq!(or(Err(1), Ok(true)), Err(1));
    assert_eq!(or(Ok(true), Err(2)), Err(2));
}

#[test]
fn type_data_errors() {
    let d = 5u8;
    assert!(matches!(get_type_data(Some(Some(&d))), Ok(5)));
    assert!(matches!(get_type_data::<u8>(Some(None)), Err(TypeDataError::NoTypeData)));
    assert!(matches!(get_type_data::<u8>(None), Err(TypeDataError::NotRegistered)));
}

#[test]
fn set_add_then_remove_restores() {
    let mut set = vec![1, 2];
    assert!(respond_to_set_op(&mut set, SetOp::AddElement(3)));
    assert_eq!(set, vec![1, 2, 3]);
    respond_to_set_op(&mut set, SetOp::AddElement(3));
    assert_eq!(set, vec![1, 2, 3]);
    respond_to_set_op(&mut set, SetOp::RemoveElement(3));
    assert_eq!(set, vec![1, 2]);
    let mut sets = vec![vec![1], vec![2]];
    assert!(respond_to_sets_op(&mut sets, SetOp::AddElement(9)));
    assert_eq!(sets, vec![vec![1, 9], vec![2, 9]]);
    let mut none: Vec<Vec<u64>> = vec![];
    assert!(!respond_to_sets_op(&mut none, SetOp::AddElement(9)));
}

#[test]
fn shared_values_across_sets() {
    assert_eq!(shared_values(&vec![vec![1, 2]]), vec![true, true]);
    assert_eq!(shared_values(&vec![vec![1], vec![2]]), vec![true]);
    assert_eq!(shared_values(&vec![vec![1, 2], vec![2, 3], vec![2]]), vec![false, true]);
}

#[test]
fn map_draft_steps() {
    let d = || MapDraft { key: 0, value: 1 };
    let s = map_add_element(None, d(), true, false, false);
    assert!(matches!(s.draft, Some(MapDraft { key: 0, value: 1 })) && s.insert.is_none() && !s.changed);
    let s = map_add_element(Some(MapDraft { key: 5, value: 6 }), d(), false, true, true);
    assert!(s.draft.is_none() && matches!(s.insert, Some(MapDraft { key: 5, value: 6 })) && s.changed);
    let s = map_add_element(Some(MapDraft { key: 5, value: 6 }), d(), false, false, true);
    assert!(s.draft.is_none() && s.insert.is_none() && s.changed);
    let s = map_add_element(Some(MapDraft { key: 5, value: 6 }), d(), false, false, false);
    assert!(s.draft.is_some() && !s.changed);
}

#[test]
fn short_type_names() {
    assert_eq!(pretty_type_name_str("core::option::Option<alloc::string::String>"), "Option<String>");
    assert_eq!(pretty_type_name_str("bevy_transform::components::transform::Transform"), "Transform");
}

#[test]
fn error_messages() {
    assert_eq!(
        texts(&no_access_resource("Time")),
        vec![(false, "No access to resource ".into()), (true, "Time".into()), (false, ".".into())]
    );
    assert_eq!(texts(&nonexistent_state("AppState"))[3], (true, ".add_state::<AppState>(..)".to_string()));
    assert_eq!(typeid_name(Some("Foo"), "TypeId(1)"), "Foo");
    assert_eq!(typeid_name(None, "TypeId(1)"), "TypeId(1)");
    let all: Vec<Vec<TextSegment>> = vec![
        no_access_component("1v1", "A"),
        nonexistent_resource("R"),
        nonexistent_entity("2v0"),
        nonexistent_component("2v0", "C"),
        missing_componentid("C"),
        missing_type_id("C"),
        missing_typedata("C", "ReflectDefault"),
        no_world_in_context("C"),
        nonexistent_asset_handle("h"),
        no_default_value("C"),
        not_in_type_registry("C"),
        no_multiedit("C"),
    ];
    for job in all {
        assert!(!job.is_empty());
    }
    let e = no_access(&WorldViewError::NoTypeData { data: "D".into() }, "T");
    assert_eq!(texts(&e), texts(&missing_typedata("T", "D")));
    for reason in [TypeDataError::NoTypeData, TypeDataError::NotRegistered, TypeDataError::NotFullyReflected] {
        assert!(!reflect_value_no_impl(&reason, "a::B").is_empty());
    }
    let u = unconstructable_variant("a::E", "V", &vec!["X".into()]);
    assert_eq!(texts(&u)[0], (true, "E::V".to_string()));
    assert_eq!(texts(&u)[4..].to_vec(), vec![(false, "- ".to_string()), (true, "X".to_string())]);
}

#[test]
fn construct_default_variant_names_first_missing_default() {
    assert_eq!(construct_default_variant(&VariantInfo::Unit), Ok(()));
    let ok = VariantInfo::Struct(vec![field("a", "u8", true)]);
    assert_eq!(construct_default_variant(&ok), Ok(()));
    let bad = VariantInfo::Tuple(vec![field("", "u8", true), field("", "A", false), field("", "B", false)]);
    assert_eq!(construct_default_variant(&bad), Err("A".to_string()));
}
