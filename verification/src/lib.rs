pub mod asset;
pub mod asset_browser;
pub mod cursor;
pub mod fuzzy;
pub mod gizmo;
pub mod hierarchy;
pub mod inspection;
pub mod keys;
pub mod name_map;
pub mod output;
pub mod pane;
pub mod panel;
pub mod paths;
pub mod plugins;
pub mod prefs;
pub mod properties;
pub mod scene;
pub mod scene_tree;
pub mod selection;
pub mod text;
pub mod viewport;
