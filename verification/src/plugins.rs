//! The plugins that make up the editor, its parts and its sample programs.
//! Each is built by the application, which hands it to the engine.
use vstd::prelude::*;

verus! {

/// The editor: its window, assets, panels, theme, layout and cursor.
pub struct EditorPlugins;

/// The editor's own assets: fonts and icons.
pub struct EditorAssetsPlugin;

/// The editor's layout: a header, the panel area and a footer.
pub struct EditorLayoutPlugin;

/// The editor's menu bar.
pub struct EditorMenuPlugin;

/// Panes and their docking.
pub struct PanePlugin;

/// The panes of the editor.
pub struct EditorPanePlugins;

/// The properties pane, as a pane plugin.
pub struct PropertiesPanePlugin;

/// The scene tree pane, as a pane plugin.
pub struct SceneTreePanePlugin;

/// Scenes as the editor loads and saves them.
pub struct EditorScenePlugin;

/// Assets as the editor keeps track of them.
pub struct EditorAssetPlugin;

/// Finding assets by their ids.
pub struct EditorAssetResolverPlugin;

/// The editor of a sample program.
pub struct EditorPlugin;

/// The part of a sample program that runs without the editor.
pub struct RuntimePlugin;

/// The part of a sample program shared by the editor and the runtime.
pub struct SharedPlugin;

/// The editor plugin of the simple sample program.
pub struct MyEditorPlugin;

} // verus!
