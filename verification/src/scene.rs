//! Scenes as the editor saves them: the names in the scene format, its file
//! extension, and the checks on a scene's fields while it is read.
use vstd::prelude::*;

use crate::asset::id::EditorAssetId;
use crate::text::{lists_each_index, sort_by_name, sorts_before};

verus! {

/// Name of the serialized scene struct type.
pub const SCENE_STRUCT: &'static str = "Scene";

/// Name of the serialized entities field in a scene struct.
pub const SCENE_ENTITIES: &'static str = "entities";

/// Name of the serialized entity struct type.
pub const ENTITY_STRUCT: &'static str = "Entity";

/// Name of the serialized component field in an entity struct.
pub const ENTITY_FIELD_COMPONENTS: &'static str = "components";

/// The components of an entity as the scene map is written: by the type path
/// of each entry, in the order they are held.
pub struct SceneMapSerializer {
    pub type_paths: Vec<String>,
}

impl SceneMapSerializer {
    /// The order in which the entries are written: sorted by type path, entries
    /// with the same type path keeping their order.
    pub fn entry_order(&self) -> (order: Vec<usize>)
        ensures
            lists_each_index(order@, self.type_paths@.len()),
            forall|a: int, b: int| 0 <= a < b < order@.len() ==> sorts_before(
                self.type_paths@.map_values(|s: String| s@),
                order@[a] as int,
                order@[b] as int,
            ),
    {
        sort_by_name(&self.type_paths)
    }
}

/// Why reading a struct of the scene format failed.
#[derive(PartialEq, Eq, Structural)]
pub enum FieldError {
    /// The struct's one field is missing.
    Missing,
    /// The struct's one field occurs twice.
    Duplicate,
}

/// Checks the fields of a struct of the scene format that has one field,
/// which occurs `occurrences` times: it must occur once.
pub fn check_single_field(occurrences: usize) -> (r: Result<(), FieldError>)
    ensures
        r == (if occurrences == 0 {
            Err(FieldError::Missing)
        } else if occurrences == 1 {
            Ok(())
        } else {
            Err(FieldError::Duplicate)
        }),
{
    if occurrences == 0 {
        Err(FieldError::Missing)
    } else if occurrences == 1 {
        Ok(())
    } else {
        Err(FieldError::Duplicate)
    }
}

/// Why loading a scene file failed.
pub enum EditorSceneLoaderError {
    /// Reading the file failed, with the error's message.
    Io(String),
    /// The file is not valid RON, with the error's message.
    RonSpannedError(String),
}

impl EditorSceneLoaderError {
    /// The message of the error.
    pub fn message(&self) -> (m: String)
        ensures
            m@ == match *self {
                EditorSceneLoaderError::Io(e) => "Error while trying to read the scene file: "@ + e@,
                EditorSceneLoaderError::RonSpannedError(e) => "Could not parse RON: "@ + e@,
            },
    {
        match self {
            EditorSceneLoaderError::Io(e) => {
                let mut m = "Error while trying to read the scene file: ".to_string();
                m.append(e.as_str());
                m
            },
            EditorSceneLoaderError::RonSpannedError(e) => {
                let mut m = "Could not parse RON: ".to_string();
                m.append(e.as_str());
                m
            },
        }
    }
}

/// The extensions of the scene files the editor loads: "asn".
pub fn scene_extensions() -> (e: Vec<String>)
    ensures
        e@.len() == 1,
        e@[0]@ == "asn"@,
{
    let mut e: Vec<String> = Vec::new();
    e.push("asn".to_string());
    e
}

/// The scenes of a project.
pub struct SceneList {
    pub scenes: Vec<EditorAssetId>,
}

impl SceneList {
    /// The title of the scene list's settings.
    pub fn title(&self) -> (t: String)
        ensures
            t@ == "Scene List"@,
    {
        "Scene List".to_string()
    }
}

} // verus!
