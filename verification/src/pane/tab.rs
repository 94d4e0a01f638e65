//! The tabs of a pane: which one is active, where a dragged tab lands, and how
//! each tab is drawn.
use vstd::prelude::*;

use crate::keys::position_of;

verus! {

/// The tabs of a pane, by entity, and the index of the active one.
pub struct PaneTabgroup {
    pub tabs: Vec<u64>,
    pub active_tab_index: usize,
}

impl PaneTabgroup {
    /// The tab group of a new pane: its tabs, the first one active; the first
    /// tab takes the input focus where `focus_first` asks for it, which is
    /// returned. A pane has at least one tab.
    pub fn spawn_pane(tabs: Vec<u64>, focus_first: bool) -> (r: (Self, Option<u64>))
        requires
            tabs.len() > 0,
        ensures
            r.0.tabs == tabs,
            r.0.active_tab_index == 0,
            r.1 == (if focus_first {
                Some(tabs@[0])
            } else {
                None::<u64>
            }),
    {
        let focus = if focus_first {
            Some(tabs[0])
        } else {
            None
        };
        (PaneTabgroup { tabs, active_tab_index: 0 }, focus)
    }

    /// Keeps the active index within the tabs: it becomes at most the last index.
    pub fn clamp_active_tab_index(&mut self)
        requires
            old(self).tabs.len() > 0,
        ensures
            final(self).tabs == old(self).tabs,
            final(self).active_tab_index == (if old(self).active_tab_index < old(self).tabs.len() {
                old(self).active_tab_index as int
            } else {
                old(self).tabs.len() - 1
            }),
    {
        let last = self.tabs.len() - 1;
        if self.active_tab_index > last {
            self.active_tab_index = last;
        }
    }

    /// A press on `tab`: with the primary button it becomes the active tab and
    /// takes the input focus, which is returned; other buttons do nothing.
    pub fn on_tab_press(&mut self, tab: u64, primary: bool) -> (focus: Option<u64>)
        requires
            primary ==> old(self).tabs@.contains(tab),
        ensures
            final(self).tabs == old(self).tabs,
            !primary ==> focus is None && final(self).active_tab_index == old(self).active_tab_index,
            primary ==> focus == Some(tab) && final(self).active_tab_index < old(self).tabs.len()
                && old(self).tabs@[final(self).active_tab_index as int] == tab && forall|j: int|
                0 <= j < final(self).active_tab_index ==> old(self).tabs@[j] != tab,
    {
        if !primary {
            return None;
        }
        match position_of(&self.tabs, tab) {
            Some(i) => {
                self.active_tab_index = i;
            },
            None => {},
        }
        Some(tab)
    }

    /// A tab dropped onto the tab bar at `drop_index` becomes the active one.
    pub fn on_tab_drop(&mut self, drop_index: usize)
        ensures
            final(self).tabs == old(self).tabs,
            final(self).active_tab_index == drop_index,
    {
        if self.active_tab_index != drop_index {
            self.active_tab_index = drop_index;
        }
    }
}

/// Whether the pointer stops at tab `k`: it passed the middle of every tab
/// before it, and not that of tab `k` (or there is no tab `k`).
pub open spec fn stops_at(passed: Seq<bool>, k: int) -> bool {
    &&& 0 <= k <= passed.len()
    &&& forall|i: int| 0 <= i < k ==> passed[i]
    &&& k < passed.len() ==> !passed[k]
}

/// Where a tab dragged over the tab bar is dropped when the pointer stops at
/// tab `k`: before tab `k`, counted without the dragged tab where it lies
/// before `k`.
pub open spec fn drop_index_at(tabs: Seq<u64>, dragged: u64, k: int) -> int {
    if (exists|d: int| 0 <= d < k && tabs[d] == dragged) && !(k < tabs.len() && tabs[k] == dragged) {
        k - 1
    } else {
        k
    }
}

/// The index at which a tab dragged over a tab bar would be dropped;
/// `passed[i]` tells whether the pointer is past the middle of tab `i`.
pub fn tab_drop_index(tabs: &Vec<u64>, dragged: u64, passed: &Vec<bool>) -> (r: usize)
    requires
        passed.len() == tabs.len(),
    ensures
        exists|k: int| #[trigger] stops_at(passed@, k) && r == drop_index_at(tabs@, dragged, k),
{
    let n = tabs.len();
    let mut drop: usize = 0;
    let mut dragged_index: Option<usize> = None;
    let mut stopped = false;
    let mut i: usize = 0;
    while i < n && !stopped
        invariant
            n == tabs.len(),
            n == passed.len(),
            i <= n,
            drop == i,
            stopped ==> i < n && !passed@[i as int],
            forall|j: int| 0 <= j < i ==> passed@[j],
            match dragged_index {
                Some(d) => d < (if stopped { i + 1 } else { i as int }) && tabs@[d as int] == dragged && forall|j: int|
                    d < j < (if stopped { i + 1 } else { i as int }) ==> tabs@[j] != dragged,
                None => forall|j: int| 0 <= j < (if stopped { i + 1 } else { i as int }) ==> tabs@[j] != dragged,
            },
        decreases n - i, if stopped { 0int } else { 1int },
    {
        if tabs[i] == dragged {
            dragged_index = Some(i);
        }
        if !passed[i] {
            stopped = true;
        } else {
            drop += 1;
            i += 1;
        }
    }
    let mut r = drop;
    match dragged_index {
        Some(d) => {
            if drop > d {
                r = drop - 1;
            }
        },
        None => {},
    }
    proof {
        let k = i as int;
        assert(stops_at(passed@, k));
        match dragged_index {
            Some(d) => {
                if (d as int) < k {
                    assert(exists|x: int| 0 <= x < k && tabs@[x] == dragged);
                    if k < tabs@.len() && stopped {
                        assert(tabs@[k] != dragged);
                    }
                } else {
                    assert(stopped);
                    assert(tabs@[k] == dragged);
                }
            },
            None => {
                assert(!(exists|x: int| 0 <= x < k && tabs@[x] == dragged));
            },
        }
        assert(r == drop_index_at(tabs@, dragged, k));
    }
    r
}

/// The theme colors a tab is drawn with.
#[derive(Clone, Copy, PartialEq, Eq, Structural)]
pub enum ThemeToken {
    PaneBg,
    WindowBg,
    PaneTabActive,
}

/// How a tab is drawn.
#[derive(Clone, Copy, PartialEq, Eq, Structural)]
pub struct TabStyle {
    pub background: ThemeToken,
    pub border: ThemeToken,
}

/// The style of a tab: the active tab has the pane's background and, where
/// its pane has the focus, the accent border; the others blend into the window.
pub open spec fn tab_style_of(is_active: bool, is_focused: bool) -> TabStyle {
    TabStyle {
        background: if is_active { ThemeToken::PaneBg } else { ThemeToken::WindowBg },
        border: if is_active {
            if is_focused { ThemeToken::PaneTabActive } else { ThemeToken::PaneBg }
        } else {
            ThemeToken::WindowBg
        },
    }
}

/// What `focus_tabs` does to a tab group: a new style for each tab (where it
/// is redrawn) and the index of the tab whose pane is shown anew.
pub struct FocusPlan {
    pub styles: Vec<Option<TabStyle>>,
    pub show: Option<usize>,
}

/// Decides how the tabs of a group are redrawn: all of them where the group
/// or the input focus changed, and the active tab's pane shown anew where the
/// group changed; `focused[i]` tells whether tab `i` or its pane has the focus.
pub fn focus_tabs(group: &PaneTabgroup, group_changed: bool, focus_changed: bool, focused: &Vec<bool>) -> (plan: FocusPlan)
    requires
        focused.len() == group.tabs.len(),
    ensures
        plan.styles@.len() == group.tabs.len(),
        forall|i: int| 0 <= i < group.tabs.len() ==> #[trigger] plan.styles@[i] == (if group_changed || focus_changed {
            Some(tab_style_of(i == group.active_tab_index, focused@[i]))
        } else {
            None
        }),
        plan.show == (if group_changed && group.active_tab_index < group.tabs.len() {
            Some(group.active_tab_index)
        } else {
            None
        }),
{
    let mut styles: Vec<Option<TabStyle>> = Vec::new();
    let mut show: Option<usize> = None;
    let mut i: usize = 0;
    while i < group.tabs.len()
        invariant
            i <= group.tabs.len(),
            focused.len() == group.tabs.len(),
            styles@.len() == i,
            forall|j: int| 0 <= j < i ==> #[trigger] styles@[j] == (if group_changed || focus_changed {
                Some(tab_style_of(j == group.active_tab_index, focused@[j]))
            } else {
                None
            }),
            show == (if group_changed && group.active_tab_index < i {
                Some(group.active_tab_index)
            } else {
                None
            }),
        decreases group.tabs.len() - i,
    {
        let is_active = i == group.active_tab_index;
        if group_changed || focus_changed {
            let is_focused = focused[i];
            let background = if is_active {
                ThemeToken::PaneBg
            } else {
                ThemeToken::WindowBg
            };
            let border = if is_active {
                if is_focused {
                    ThemeToken::PaneTabActive
                } else {
                    ThemeToken::PaneBg
                }
            } else {
                ThemeToken::WindowBg
            };
            styles.push(Some(TabStyle { background, border }));
        } else {
            styles.push(None);
        }
        if is_active && group_changed {
            show = Some(i);
        }
        i += 1;
    }
    FocusPlan { styles, show }
}

/// The plugin that keeps tab groups in order.
pub struct PaneTabPlugin;

} // verus!
