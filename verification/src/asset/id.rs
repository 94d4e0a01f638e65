//! Ids of assets that stay valid when the asset moves: a uuid, and the key of
//! the asset's type.
use vstd::prelude::*;

verus! {

/// An asset id whose asset type is known only at run time.
#[derive(Clone, Copy, PartialEq, Eq, Structural)]
pub struct UntypedEditorAssetId {
    /// The key of the asset's type.
    pub type_key: u64,
    pub uuid: u128,
}

/// An asset id for assets of the type with key `asset_type`.
#[derive(Clone, Copy, PartialEq, Eq, Structural)]
pub struct EditorAssetId {
    pub asset_type: u64,
    pub uuid: u128,
}

/// The untyped id of `id`.
pub open spec fn untyped_of(id: EditorAssetId) -> UntypedEditorAssetId {
    UntypedEditorAssetId { type_key: id.asset_type, uuid: id.uuid }
}

/// `value` as an id of assets of type `asset_type`, where that is its type.
pub open spec fn retyped(value: UntypedEditorAssetId, asset_type: u64) -> Option<EditorAssetId> {
    if value.type_key == asset_type {
        Some(EditorAssetId { asset_type, uuid: value.uuid })
    } else {
        None
    }
}

impl EditorAssetId {
    /// The id of no asset: the nil uuid.
    pub fn default_for(asset_type: u64) -> (id: Self)
        ensures
            id.asset_type == asset_type,
            id.uuid == 0,
    {
        EditorAssetId { asset_type, uuid: 0 }
    }

    /// The id as an id of assets of type `asset_type`, if the untyped id has that type.
    pub fn try_from(value: UntypedEditorAssetId, asset_type: u64) -> (r: Option<Self>)
        ensures
            r == retyped(value, asset_type),
    {
        if value.type_key != asset_type {
            return None;
        }
        Some(EditorAssetId { asset_type, uuid: value.uuid })
    }

    /// The id with its type kept at run time.
    pub fn untyped(self) -> (r: UntypedEditorAssetId)
        ensures
            r == untyped_of(self),
    {
        UntypedEditorAssetId { type_key: self.asset_type, uuid: self.uuid }
    }
}

impl UntypedEditorAssetId {
    /// The key of the asset's type.
    pub fn type_id(&self) -> (k: u64)
        ensures
            k == self.type_key,
    {
        self.type_key
    }

    /// The id as one of assets of type `asset_type`, without checking the type.
    pub fn typed_unchecked(self, asset_type: u64) -> (r: EditorAssetId)
        ensures
            r == (EditorAssetId { asset_type, uuid: self.uuid }),
    {
        EditorAssetId { asset_type, uuid: self.uuid }
    }

    /// The id as one of assets of type `asset_type`, which must be its type
    /// (a debug build checks it).
    pub fn typed_debug_checked(self, asset_type: u64) -> (r: EditorAssetId)
        requires
            self.type_key == asset_type,
        ensures
            r == (EditorAssetId { asset_type, uuid: self.uuid }),
    {
        self.typed_unchecked(asset_type)
    }

    /// The id as one of assets of type `asset_type`, which must be its type.
    pub fn typed(self, asset_type: u64) -> (r: EditorAssetId)
        requires
            self.type_key == asset_type,
        ensures
            r == (EditorAssetId { asset_type, uuid: self.uuid }),
    {
        match self.try_typed(asset_type) {
            Some(id) => id,
            None => self.typed_unchecked(asset_type),
        }
    }

    /// The id as one of assets of type `asset_type`, if that is its type.
    pub fn try_typed(self, asset_type: u64) -> (r: Option<EditorAssetId>)
        ensures
            r == retyped(self, asset_type),
    {
        EditorAssetId::try_from(self, asset_type)
    }
}

/// An id made untyped turns back into itself as an id of its own type, and
/// into nothing as an id of any other type.
pub proof fn law_untyped_then_typed(id: EditorAssetId, other_type: u64)
    ensures
        retyped(untyped_of(id), id.asset_type) == Some(id),
        other_type != id.asset_type ==> retyped(untyped_of(id), other_type) is None,
{
}

/// Whether a dragged asset can be dropped onto a field for assets of type
/// `asset_type`: it is one of that type, and (where `needs_path`) it was
/// loaded from a path.
pub fn is_payload_suitable(payload: Option<(u64, bool)>, asset_type: u64, needs_path: bool) -> (r: bool)
    ensures
        r == match payload {
            Some((t, has_path)) => t == asset_type && (has_path || !needs_path),
            None => false,
        },
{
    match payload {
        Some((t, has_path)) => t == asset_type && (has_path || !needs_path),
        None => false,
    }
}

/// The text an asset id field shows: "Empty" for the nil uuid, else the
/// path the database has for it, or "Missing".
pub fn asset_id_text(uuid: u128, path: Option<String>) -> (t: String)
    ensures
        t@ == (if uuid == 0 {
            "Empty"@
        } else {
            match path {
                Some(p) => p@,
                None => "Missing"@,
            }
        }),
{
    if uuid == 0 {
        "Empty".to_string()
    } else {
        match path {
            Some(p) => p,
            None => "Missing".to_string(),
        }
    }
}

} // verus!
