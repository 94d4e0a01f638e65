use bevy_editor::inspection::reflect_inspector::{ui_for_list_controls, ListControlClicks};
use bevy_editor::inspection::list::apply_list_op;
use bevy_editor::pane::layout::{remove_dividers, resize_cursor, sized_axes, Divider, DividerChange, ResizeCursor};
use bevy_editor::pane::registry::{PaneRegistry, PaneSystem};
use bevy_editor::pane::tab::{focus_tabs, tab_drop_index, PaneTabgroup, TabStyle, ThemeToken};
use bevy_editor::pane::window::{panes_to_open, OpenPane};
use bevy_editor::panel::PanelRegistry;

#[test]
fn clamp_active_tab() {
    let mut g = PaneTabgroup { tabs: vec![10, 11], active_tab_index: 5 };
    g.clamp_active_tab_index();
    assert_eq!(g.active_tab_index, 1);
    g.active_tab_index = 0;
    g.clamp_active_tab_index();
    assert_eq!(g.active_tab_index, 0);
}

#[test]
fn pressing_tabs() {
    let mut g = PaneTabgroup { tabs: vec![10, 11, 12], active_tab_index: 0 };
    assert_eq!(g.on_tab_press(12, true), Some(12));
    assert_eq!(g.active_tab_index, 2);
    assert_eq!(g.on_tab_press(10, false), None);
    assert_eq!(g.active_tab_index, 2);
    g.on_tab_drop(1);
    assert_eq!(g.active_tab_index, 1);
}

#[test]
fn drop_index_of_dragged_tab() {
    let tabs = vec![1, 2, 3, 4];
    // Pointer past the middles of the first two tabs; dragging tab 4 from elsewhere.
    assert_eq!(tab_drop_index(&tabs, 9, &vec![true, true, false, false]), 2);
    // Dragging tab 1, which lies before the place: one less.
    assert_eq!(tab_drop_index(&tabs, 1, &vec![true, true, false, false]), 1);
    // Dragging the tab the pointer stops at: no change.
    assert_eq!(tab_drop_index(&tabs, 3, &vec![true, true, false, false]), 2);
    assert_eq!(tab_drop_index(&tabs, 9, &vec![true, true, true, true]), 4);
    assert_eq!(tab_drop_index(&tabs, 9, &vec![false, true, true, true]), 0);
    assert_eq!(tab_drop_index(&vec![], 9, &vec![]), 0);
}

#[test]
fn tab_styles() {
    let g = PaneTabgroup { tabs: vec![1, 2], active_tab_index: 0 };
    let plan = focus_tabs(&g, true, false, &vec![true, false]);
    assert!(plan.styles[0] == Some(TabStyle { background: ThemeToken::PaneBg, border: ThemeToken::PaneTabActive }));
    assert!(plan.styles[1] == Some(TabStyle { background: ThemeToken::WindowBg, border: ThemeToken::WindowBg }));
    assert_eq!(plan.show, Some(0));
    let plan = focus_tabs(&g, false, true, &vec![false, false]);
    assert!(plan.styles[0] == Some(TabStyle { background: ThemeToken::PaneBg, border: ThemeToken::PaneBg }));
    assert_eq!(plan.show, None);
    let plan = focus_tabs(&g, false, false, &vec![false, false]);
    assert!(plan.styles.iter().all(|s| s.is_none()));
}

#[test]
fn pane_registry_registration() {
    let mut r: PaneRegistry<&'static str> = PaneRegistry::new();
    assert!(!r.register("Viewport".into(), "viewport system"));
    assert!(!r.register("Output".into(), "output system"));
    assert_eq!(r.get("Viewport"), None);
    assert!(r.names().is_empty());
    let pending = r.take_pending();
    assert_eq!(pending.len(), 2);
    for (i, (name, _system)) in pending.iter().enumerate() {
        r.complete_registration(name, 100 + i as u64);
    }
    assert!(r.get("Viewport").is_some());
    assert!(r.get("Output").is_some());
    assert!(r.take_pending().is_empty());
    let mut names = r.names();
    names.sort();
    assert_eq!(names, vec!["Output".to_string(), "Viewport".to_string()]);
    assert!(r.register("Output".into(), "new output"));
    assert_eq!(r.get("Output"), None);
    let _ = PaneSystem::<u8>::Registered(1);
}

#[test]
fn panel_registry_read_after_write() {
    let mut r = PanelRegistry::new();
    assert!(!r.register_panel("Left".into(), 1));
    assert!(!r.register_panel("Right".into(), 2));
    assert_eq!(r.get("Left"), Some(1));
    assert!(r.register_panel("Left".into(), 3));
    assert_eq!(r.get("Left"), Some(3));
    assert_eq!(r.get("Right"), Some(2));
    assert_eq!(r.get("Top"), None);
}

#[test]
fn windows_to_open() {
    let requests = vec![
        OpenPane { name: "Output".into() },
        OpenPane { name: "Viewport".into() },
        OpenPane { name: "Output".into() },
    ];
    let open = vec!["Viewport".to_string()];
    assert_eq!(panes_to_open(&requests, &open), vec!["Output".to_string(), "Output".to_string()]);
}

#[test]
fn divider_changes() {
    assert!(remove_dividers(&vec![(1, false), (2, true), (3, false)]) == DividerChange::Keep);
    assert!(remove_dividers(&vec![(1, true), (3, false)]) == DividerChange::Unwrap { part: 3 });
    assert!(remove_dividers(&vec![(1, true)]) == DividerChange::Despawn);
    assert!(remove_dividers(&vec![]) == DividerChange::Despawn);
    assert!(resize_cursor(Divider::Horizontal) == ResizeCursor::EwResize);
    assert!(resize_cursor(Divider::Vertical) == ResizeCursor::NsResize);
    assert_eq!(sized_axes(Some(Divider::Horizontal)), (true, false));
    assert_eq!(sized_axes(Some(Divider::Vertical)), (false, true));
    assert_eq!(sized_axes(None), (false, false));
}

#[test]
fn new_pane_tabs() {
    let (g, focus) = PaneTabgroup::spawn_pane(vec![4, 5], true);
    assert_eq!(g.tabs, vec![4, 5]);
    assert_eq!(g.active_tab_index, 0);
    assert_eq!(focus, Some(4));
    let (_, focus) = PaneTabgroup::spawn_pane(vec![4], false);
    assert_eq!(focus, None);
}

#[test]
fn list_controls_give_fitting_edits() {
    for len in 1..4usize {
        for index in 0..len {
            for bits in 0..16u8 {
                let clicks = ListControlClicks { add: bits & 1 != 0, remove: bits & 2 != 0, up: bits & 4 != 0, down: bits & 8 != 0 };
                if let Some(op) = ui_for_list_controls(index, len, &clicks) {
                    let mut list: Vec<usize> = (0..len).collect();
                    apply_list_op(&mut list, op, &Some(99));
                }
            }
        }
    }
}
