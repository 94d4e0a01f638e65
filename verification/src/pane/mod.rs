//! Panes: their tab groups, the registry of pane contents, the windows that
//! open panes, and the layout they sit in.
pub mod layout;
pub mod registry;
pub mod tab;
pub mod window;
