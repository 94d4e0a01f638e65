pub mod bevy_inspector;
pub mod error;
pub mod list;
pub mod reflect_inspector;
pub mod utils;
