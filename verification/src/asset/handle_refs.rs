//! How an asset handle is written into a scene, and what reading it back
//! makes of it.
use vstd::prelude::*;

use crate::asset::database::AssetPathParts;

verus! {

/// What a scene file holds in place of an asset handle.
pub enum AssetRef {
    /// A handle to no loaded file.
    Empty,
    /// A handle to the asset loaded from this path.
    AssetPath(AssetPathParts),
    /// A handle by uuid.
    Uuid(u128),
}

/// An asset handle as the serializer sees it.
pub enum HandleKind {
    /// A strong handle, with the path of its asset if it was loaded from one.
    Strong { path: Option<AssetPathParts> },
    /// A handle by uuid.
    Uuid(u128),
}

/// Writes asset handles into scenes as `AssetRef`s.
pub struct AssetHandleSerializerProcessor;

impl AssetHandleSerializerProcessor {
    pub fn new() -> (p: Self)
        ensures
            p == AssetHandleSerializerProcessor,
    {
        AssetHandleSerializerProcessor
    }

    /// What the processor writes for a value: `None` where the value is not
    /// an asset handle (the default logic writes it), else the handle's
    /// `AssetRef`: its path for a strong handle loaded from one, `Empty` for
    /// another strong handle, its uuid for a uuid handle.
    pub fn asset_ref(&self, handle: Option<HandleKind>) -> (r: Option<AssetRef>)
        ensures
            match handle {
                None => r is None,
                Some(HandleKind::Strong { path: Some(p) }) => r == Some(AssetRef::AssetPath(p)),
                Some(HandleKind::Strong { path: None }) => r == Some(AssetRef::Empty),
                Some(HandleKind::Uuid(u)) => r == Some(AssetRef::Uuid(u)),
            },
    {
        match handle {
            None => None,
            Some(HandleKind::Strong { path }) => match path {
                Some(p) => Some(AssetRef::AssetPath(p)),
                None => Some(AssetRef::Empty),
            },
            Some(HandleKind::Uuid(u)) => Some(AssetRef::Uuid(u)),
        }
    }
}

/// Where the handle that a scene's `AssetRef` stands for comes from.
pub enum HandleSource {
    /// The default value of the handle type.
    Default,
    /// Loading the asset at this path.
    Load(AssetPathParts),
    /// A uuid handle for assets of the given type.
    FromUuid { asset_type: u64, uuid: u128 },
}

/// Decides how to read a handle: `None` where the type is not an asset handle
/// with a default value (the default logic reads it); else from the `AssetRef`
/// read, for assets of type `asset_type`.
pub fn handle_source(is_handle: bool, has_default: bool, asset_ref: AssetRef, asset_type: u64) -> (r: Option<HandleSource>)
    ensures
        !(is_handle && has_default) ==> r is None,
        is_handle && has_default ==> match asset_ref {
            AssetRef::Empty => r == Some(HandleSource::Default),
            AssetRef::AssetPath(p) => r == Some(HandleSource::Load(p)),
            AssetRef::Uuid(u) => r == Some(HandleSource::FromUuid { asset_type, uuid: u }),
        },
{
    if !is_handle || !has_default {
        return None;
    }
    match asset_ref {
        AssetRef::Empty => Some(HandleSource::Default),
        AssetRef::AssetPath(p) => Some(HandleSource::Load(p)),
        AssetRef::Uuid(u) => Some(HandleSource::FromUuid { asset_type, uuid: u }),
    }
}

} // verus!
