//! Assets as the editor keeps track of them: ids, the index of the asset
//! database, and how asset handles are written into scenes.
pub mod database;
pub mod id;
pub mod handle_refs;
