//! The asset browser: what each entry of the asset folder is, how it is
//! shown, and the loading state of the assets it shows.
use vstd::prelude::*;

use crate::name_map::NameMap;
use crate::paths::{file_name, parent, path_file_name, path_parent};

verus! {

/// An entry of the asset browser.
pub enum AssetBrowserEntry {
    Directory,
    /// A file that no asset loader reads.
    File,
    /// A file that an asset loader reads, with the labels of its sub-assets
    /// where they are known.
    Asset { labels: Option<Vec<String>> },
    /// A sub-asset of a file.
    LabeledAsset { label: String },
}

/// The icon shown beside an entry.
#[derive(Clone, Copy, PartialEq, Eq, Structural)]
pub enum BrowserIcon {
    Folder,
    FolderOpen,
    File,
    Package,
}

impl AssetBrowserEntry {
    /// What an entry is: a sub-asset where its path has a label, else a
    /// directory, else an asset where a loader reads its extension, else a file.
    pub fn new(label: Option<String>, is_dir: bool, has_loader: bool, labels: Option<Vec<String>>) -> (e: Self)
        ensures
            match label {
                Some(l) => e == (AssetBrowserEntry::LabeledAsset { label: l }),
                None => if is_dir {
                    e is Directory
                } else if has_loader {
                    e == (AssetBrowserEntry::Asset { labels })
                } else {
                    e is File
                },
            },
    {
        match label {
            Some(l) => AssetBrowserEntry::LabeledAsset { label: l },
            None => {
                if is_dir {
                    AssetBrowserEntry::Directory
                } else if has_loader {
                    AssetBrowserEntry::Asset { labels }
                } else {
                    AssetBrowserEntry::File
                }
            },
        }
    }

    /// Whether the entry can be expanded: a directory, or an asset with
    /// sub-assets.
    pub fn has_children(&self) -> (r: bool)
        ensures
            r == match *self {
                AssetBrowserEntry::Directory => true,
                AssetBrowserEntry::Asset { labels: Some(ls) } => ls@.len() > 0,
                _ => false,
            },
    {
        match self {
            AssetBrowserEntry::Directory => true,
            AssetBrowserEntry::Asset { labels } => match labels {
                Some(ls) => ls.len() > 0,
                None => false,
            },
            _ => false,
        }
    }

    /// The icon of the entry; a directory shows whether it is open.
    pub fn icon(&self, open: bool) -> (i: BrowserIcon)
        ensures
            i == match *self {
                AssetBrowserEntry::Directory => if open {
                    BrowserIcon::FolderOpen
                } else {
                    BrowserIcon::Folder
                },
                AssetBrowserEntry::File => BrowserIcon::File,
                _ => BrowserIcon::Package,
            },
    {
        match self {
            AssetBrowserEntry::Directory => {
                if open {
                    BrowserIcon::FolderOpen
                } else {
                    BrowserIcon::Folder
                }
            },
            AssetBrowserEntry::File => BrowserIcon::File,
            _ => BrowserIcon::Package,
        }
    }

    /// The label of the entry: its file name, or for an asset not yet
    /// loaded "Loading...", and for a loaded sub-asset its label.
    pub fn label(&self, file_name: &str, is_ready: bool) -> (l: String)
        ensures
            l@ == match *self {
                AssetBrowserEntry::Directory => file_name@,
                AssetBrowserEntry::File => file_name@,
                AssetBrowserEntry::Asset { .. } => if is_ready {
                    file_name@
                } else {
                    "Loading..."@
                },
                AssetBrowserEntry::LabeledAsset { label } => if is_ready {
                    label@
                } else {
                    "Loading..."@
                },
            },
    {
        match self {
            AssetBrowserEntry::Directory => file_name.to_string(),
            AssetBrowserEntry::File => file_name.to_string(),
            AssetBrowserEntry::Asset { .. } => {
                if is_ready {
                    file_name.to_string()
                } else {
                    "Loading...".to_string()
                }
            },
            AssetBrowserEntry::LabeledAsset { label } => {
                if is_ready {
                    label.clone()
                } else {
                    "Loading...".to_string()
                }
            },
        }
    }

    /// Whether the entry is an asset or a sub-asset, which the browser loads.
    pub fn is_asset(&self) -> (r: bool)
        ensures
            r == (*self is Asset || *self is LabeledAsset),
    {
        match self {
            AssetBrowserEntry::Asset { .. } => true,
            AssetBrowserEntry::LabeledAsset { .. } => true,
            _ => false,
        }
    }
}

/// The loading state of an asset shown in the browser: loading through a
/// handle of type `L`, or ready with a handle of type `R`.
pub enum AssetState<L, R> {
    Loading(L),
    Ready(R),
}

/// What the browser does for an asset it shows.
pub enum AssetStep<R> {
    /// Start loading it.
    StartLoading,
    /// It finished loading: it becomes ready with this handle.
    BecomeReady(R),
    /// It is still loading.
    Wait,
    /// It is ready: offer its handle for dragging.
    Offer,
}

/// Decides what the browser does for an asset in state `state`; `loaded` is
/// the handle its loading produced, where it finished.
pub fn asset_step<L, R>(state: Option<&AssetState<L, R>>, loaded: Option<R>) -> (s: AssetStep<R>)
    ensures
        match state {
            None => s is StartLoading,
            Some(AssetState::Loading(_)) => match loaded {
                Some(r) => s == AssetStep::BecomeReady(r),
                None => s is Wait,
            },
            Some(AssetState::Ready(_)) => s is Offer,
        },
{
    match state {
        None => AssetStep::StartLoading,
        Some(AssetState::Loading(_)) => match loaded {
            Some(r) => AssetStep::BecomeReady(r),
            None => AssetStep::Wait,
        },
        Some(AssetState::Ready(_)) => AssetStep::Offer,
    }
}

/// The loading states of the assets that the browser shows, by asset path.
pub struct AssetTree<L, R> {
    pub states: NameMap<AssetState<L, R>>,
}

impl<L, R> AssetTree<L, R> {
    /// After a frame: forgets the assets that were not shown.
    pub fn retain_inspected(&mut self, inspected: &Vec<String>)
        requires
            old(self).states.wf(),
        ensures
            final(self).states.wf(),
            final(self).states@ == old(self).states@.restrict(inspected@.map_values(|s: String| s@).to_set()),
    {
        self.states.retain_names(inspected);
    }
}

/// Whether a dragged asset puts its scene into the scene tree: it is being
/// dragged, it has a scene, and no scene is being dragged yet.
pub fn spawns_dragged_scene(is_dragged: bool, has_scene: bool, dragged_root_exists: bool) -> (r: bool)
    ensures
        r == (is_dragged && has_scene && !dragged_root_exists),
{
    is_dragged && has_scene && !dragged_root_exists
}

/// The milliseconds within which a second click is a double click.
pub const DOUBLE_CLICK_SUBSEC_MILLIS: u32 = 250;

/// Whether a click is a double click: the fraction of a second since the
/// last click, in milliseconds, is at most 250.
pub fn is_double_click(subsec_millis: u32) -> (r: bool)
    ensures
        r == (subsec_millis <= 250),
{
    subsec_millis <= DOUBLE_CLICK_SUBSEC_MILLIS
}

/// Whether a click on an entry opens it: a double click on a directory.
pub fn opens_on_click(subsec_millis: u32, is_dir: bool) -> (r: bool)
    ensures
        r == (subsec_millis <= 250 && is_dir),
{
    is_double_click(subsec_millis) && is_dir
}

/// The icon of an entry of the folder view.
pub fn entry_icon(is_dir: bool) -> (p: String)
    ensures
        p@ == (if is_dir {
            "embedded://bevy_editor//icons/folder.png"@
        } else {
            "embedded://bevy_editor//icons/file.png"@
        }),
{
    if is_dir {
        "embedded://bevy_editor//icons/folder.png".to_string()
    } else {
        "embedded://bevy_editor//icons/file.png".to_string()
    }
}

/// A click on an entry's sub-asset button: it flips between showing the
/// sub-assets (a leftward chevron) and hiding them (a rightward one).
pub fn toggle_labeled_assets(inspecting: bool) -> (r: (bool, String))
    ensures
        r.0 == !inspecting,
        r.1@ == (if r.0 {
            "embedded://bevy_editor//icons/chevron_left.png"@
        } else {
            "embedded://bevy_editor//icons/chevron_right.png"@
        }),
{
    let now = !inspecting;
    let icon = if now {
        "embedded://bevy_editor//icons/chevron_left.png".to_string()
    } else {
        "embedded://bevy_editor//icons/chevron_right.png".to_string()
    };
    (now, icon)
}

/// Where the sub-assets of the entry at `entry_index` go among its siblings:
/// right after it, in their order, the last one with a rounded corner.
pub fn labeled_asset_places(entry_index: usize, count: usize) -> (places: Vec<(usize, bool)>)
    requires
        entry_index + count < usize::MAX,
    ensures
        places@.len() == count,
        forall|i: int| 0 <= i < count ==> #[trigger] places@[i] == ((entry_index + 1 + i) as usize, i == count - 1),
{
    let mut places: Vec<(usize, bool)> = Vec::new();
    let mut i: usize = 0;
    while i < count
        invariant
            i <= count,
            entry_index + count < usize::MAX,
            places@.len() == i,
            forall|j: int| 0 <= j < i ==> #[trigger] places@[j] == ((entry_index + 1 + j) as usize, j == count - 1),
        decreases count - i,
    {
        places.push((entry_index + 1 + i, i == count - 1));
        i += 1;
    }
    places
}

/// The names on the path bar for `path`: the path's file name, then its
/// parent's, and so on up, until a path without a file name.
pub open spec fn breadcrumbs(path: Seq<char>) -> Seq<Seq<char>>
    decreases path.len(),
{
    match path_file_name(path) {
        None => Seq::empty(),
        Some(n) => seq![n] + match path_parent(path) {
            Some(p) => if p.len() < path.len() {
                breadcrumbs(p)
            } else {
                Seq::empty()
            },
            None => Seq::empty(),
        },
    }
}

/// The names on the path bar for the inspected directory.
pub fn path_components(path: &str) -> (names: Vec<String>)
    ensures
        names@.map_values(|n: String| n@) == breadcrumbs(path@),
    decreases path@.len(),
{
    match file_name(path) {
        None => Vec::new(),
        Some(n) => {
            let mut names: Vec<String> = Vec::new();
            names.push(n);
            match parent(path) {
                Some(p) => {
                    let mut rest = path_components(p.as_str());
                    let ghost first = names@;
                    let ghost tail = rest@;
                    names.append(&mut rest);
                    proof {
                        assert(names@.map_values(|n: String| n@) =~= first.map_values(|n: String| n@) + tail.map_values(
                            |n: String| n@,
                        ));
                    }
                },
                None => {},
            }
            proof {
                assert(names@.map_values(|n: String| n@) =~= breadcrumbs(path@));
            }
            names
        },
    }
}

/// Whether a browser redraws: its directory exists, and the database was
/// refreshed or the browser changed.
pub fn should_update(exists: bool, database_refreshed: bool, changed: bool) -> (r: bool)
    ensures
        r == (exists && (database_refreshed || changed)),
{
    exists && (database_refreshed || changed)
}

/// The asset browser pane.
pub struct AssetBrowser;

/// The plugin that sets up the asset browser.
pub struct AssetBrowserPlugin;

/// The plugin that sets up the asset browser pane.
pub struct AssetBrowserPanePlugin;

} // verus!
