use bevy_editor::asset::database::{classify_entry, resolved_asset_path, EntryAction};
use bevy_editor::asset::database::{
    get_uuid_query, labeled_asset_uuid, normalize_path, refresh_entry, refresh_entry_with, to_lookup,
    AssetDatabaseMeta, QueryError, Timestamp,
};
use bevy_editor::asset::handle_refs::{handle_source, AssetHandleSerializerProcessor, AssetRef, HandleKind, HandleSource};
use bevy_editor::asset::database::AssetPathParts;
use bevy_editor::asset::id::{asset_id_text, is_payload_suitable, EditorAssetId, UntypedEditorAssetId};
use bevy_editor::gizmo::{write_batch_indirect_parameters_metadata, IndirectBuffer};

fn is_random(u: u128) -> bool {
    (u >> 76) & 0xf == 4 && (u >> 62) & 0x3 == 2
}

fn t(secs: i64, nanos: u32) -> Timestamp {
    Timestamp { secs, nanos }
}

#[test]
fn normalize_backslashes() {
    assert_eq!(normalize_path("models\\tree\\leaf.gltf"), "models/tree/leaf.gltf");
    assert_eq!(normalize_path("plain/path"), "plain/path");
    assert_eq!(normalize_path(""), "");
}

#[test]
fn uuid_queries() {
    assert_eq!(get_uuid_query(None), "select uuid from assets where not deleted and path = ?1 and label is null");
    assert_eq!(
        get_uuid_query(Some("Mesh0")),
        "select uuid from assets where not deleted and path = ?1 and label = Mesh0"
    );
}

#[test]
fn lookups() {
    assert!(matches!(to_lookup::<u32>(Ok(3)), Ok(Some(3))));
    assert!(matches!(to_lookup::<u32>(Err(QueryError::NoRows)), Ok(None)));
    assert!(matches!(to_lookup::<u32>(Err(QueryError::Failed("x".into()))), Err(QueryError::Failed(_))));
}

#[test]
fn refresh_decisions() {
    assert!(refresh_entry_with(Some((7, t(10, 0))), t(10, 0), 1).is_none());
    assert!(refresh_entry_with(Some((7, t(10, 0))), t(9, 999), 1).is_none());
    assert!(refresh_entry_with(Some((7, t(10, 0))), t(10, 1), 1) == Some((7, t(10, 1))));
    assert!(refresh_entry_with(None, t(3, 0), 1) == Some((1, t(3, 0))));
    let (u, when) = refresh_entry(None, t(5, 5)).unwrap();
    assert!(is_random(u));
    assert!(when == t(5, 5));
    assert!(refresh_entry(Some((9, t(1, 0))), t(2, 0)) == Some((9, t(2, 0))));
    assert_eq!(labeled_asset_uuid(Some(42)), 42);
    let a = labeled_asset_uuid(None);
    let b = labeled_asset_uuid(None);
    assert!(is_random(a) && is_random(b));
    assert_ne!(a, b);
    assert!(t(2, 0).after(&t(1, 999_999_999)));
}

#[test]
fn meta_defaults() {
    let m = AssetDatabaseMeta::default_meta();
    assert_eq!(m.meta_format_version, "1.0");
    assert_eq!(m.uuid, 0);
    assert!(m.dependencies.is_empty());
}

#[test]
fn ids_round_trip() {
    let id = EditorAssetId { asset_type: 3, uuid: 77 };
    let untyped = id.untyped();
    assert_eq!(untyped.type_id(), 3);
    assert!(untyped.try_typed(3) == Some(id));
    assert!(untyped.try_typed(4).is_none());
    assert!(EditorAssetId::try_from(UntypedEditorAssetId { type_key: 1, uuid: 2 }, 1) == Some(EditorAssetId { asset_type: 1, uuid: 2 }));
    assert!(untyped.typed(3) == id);
    assert!(untyped.typed_debug_checked(3) == id);
    assert!(untyped.typed_unchecked(8) == EditorAssetId { asset_type: 8, uuid: 77 });
    assert_eq!(EditorAssetId::default_for(5).uuid, 0);
}

#[test]
fn asset_id_field() {
    assert_eq!(asset_id_text(0, Some("a.png".into())), "Empty");
    assert_eq!(asset_id_text(5, None), "Missing");
    assert_eq!(asset_id_text(5, Some("a.png".into())), "a.png");
    assert!(is_payload_suitable(Some((1, true)), 1, true));
    assert!(!is_payload_suitable(Some((1, false)), 1, true));
    assert!(is_payload_suitable(Some((1, false)), 1, false));
    assert!(!is_payload_suitable(Some((2, true)), 1, true));
    assert!(!is_payload_suitable(None, 1, false));
}

fn parts(p: &str) -> AssetPathParts {
    AssetPathParts { path: p.to_string(), label: None }
}

#[test]
fn handles_in_scenes() {
    let p = AssetHandleSerializerProcessor::new();
    assert!(p.asset_ref(None).is_none());
    assert!(matches!(p.asset_ref(Some(HandleKind::Strong { path: None })), Some(AssetRef::Empty)));
    assert!(matches!(p.asset_ref(Some(HandleKind::Uuid(5))), Some(AssetRef::Uuid(5))));
    match p.asset_ref(Some(HandleKind::Strong { path: Some(parts("a.png")) })) {
        Some(AssetRef::AssetPath(x)) => assert_eq!(x.path, "a.png"),
        _ => panic!("expected a path"),
    }
    assert!(handle_source(false, true, AssetRef::Empty, 1).is_none());
    assert!(handle_source(true, false, AssetRef::Empty, 1).is_none());
    assert!(matches!(handle_source(true, true, AssetRef::Empty, 1), Some(HandleSource::Default)));
    assert!(matches!(
        handle_source(true, true, AssetRef::Uuid(9), 1),
        Some(HandleSource::FromUuid { asset_type: 1, uuid: 9 })
    ));
    assert!(matches!(handle_source(true, true, AssetRef::AssetPath(parts("b")), 1), Some(HandleSource::Load(_))));
}

#[test]
fn indirect_metadata() {
    let w = write_batch_indirect_parameters_metadata(true, 4, None, 2);
    assert!(w.buffer == IndirectBuffer::Indexed);
    assert_eq!(w.offset, 2);
    assert_eq!(w.metadata.base_output_index, 4);
    assert_eq!(w.metadata.batch_set_index, u32::MAX);
    let w = write_batch_indirect_parameters_metadata(false, 4, nonmax::NonMaxU32::new(7).map(u32::from), 2);
    assert!(w.buffer == IndirectBuffer::NonIndexed);
    assert_eq!(w.metadata.batch_set_index, 7);
}

#[test]
fn refresh_walk_decisions() {
    assert!(classify_entry(true, false, false) == EntryAction::Recurse);
    assert!(classify_entry(false, true, true) == EntryAction::Index);
    assert!(classify_entry(false, false, true) == EntryAction::Skip);
    assert!(classify_entry(false, true, false) == EntryAction::Skip);
    let p = resolved_asset_path(None);
    assert_eq!(p.path, "");
    assert!(p.label.is_none());
    let q = resolved_asset_path(Some(AssetPathParts { path: "a.gltf".into(), label: Some("Mesh0".into()) }));
    assert_eq!(q.path, "a.gltf");
    assert_eq!(q.label.as_deref(), Some("Mesh0"));
}
