//! The viewport: how dragging moves its camera, which keys fly it, and what
//! a click on a mesh selects.
use vstd::prelude::*;

verus! {

/// How the viewport camera moves while the pointer drags.
#[derive(Clone, Copy, Debug, PartialEq, Eq, Structural)]
pub enum ViewportCameraMovement {
    /// Turning and flying with the keys.
    Fly,
    /// Sliding sideways and up.
    Pan,
}

/// A pointer button.
#[derive(Clone, Copy, PartialEq, Eq, Structural)]
pub enum PointerButton {
    Primary,
    Secondary,
    Middle,
}

/// The camera's movement after a drag starts with `button`: the secondary
/// button flies, the middle one pans, the primary one leaves it as it was;
/// the cursor is locked while the camera moves.
pub fn on_viewport_drag_start(movement: Option<ViewportCameraMovement>, button: PointerButton) -> (r: (
    Option<ViewportCameraMovement>,
    bool,
))
    ensures
        r.0 == (match button {
            PointerButton::Secondary => Some(ViewportCameraMovement::Fly),
            PointerButton::Middle => Some(ViewportCameraMovement::Pan),
            PointerButton::Primary => movement,
        }),
        r.1 == r.0 is Some,
{
    let now = match button {
        PointerButton::Secondary => Some(ViewportCameraMovement::Fly),
        PointerButton::Middle => Some(ViewportCameraMovement::Pan),
        PointerButton::Primary => movement,
    };
    let lock = now.is_some();
    (now, lock)
}

/// Whether a click on the viewport goes on to what lies under it: not while
/// the camera moves.
pub fn on_viewport_click(movement: Option<ViewportCameraMovement>) -> (propagate: bool)
    ensures
        propagate == movement is None,
{
    movement.is_none()
}

/// One axis of flying: +1 where the key for forward is held, else -1 where
/// the key for backward is, else 0.
pub open spec fn axis(positive: bool, negative: bool) -> i8 {
    if positive {
        1i8
    } else if negative {
        -1i8
    } else {
        0i8
    }
}

/// The directions the flying camera moves in, along its forward, right and
/// up axes, from the keys W/S, D/A and E/Q; only while it flies.
pub fn move_camera(movement: Option<ViewportCameraMovement>, w: bool, s: bool, d: bool, a: bool, e: bool, q: bool) -> (dir: Option<(
    i8,
    i8,
    i8,
)>)
    ensures
        dir == (if movement == Some(ViewportCameraMovement::Fly) {
            Some((axis(w, s), axis(d, a), axis(e, q)))
        } else {
            None
        }),
{
    match movement {
        Some(ViewportCameraMovement::Fly) => {
            let forward: i8 = if w {
                1
            } else if s {
                -1
            } else {
                0
            };
            let right: i8 = if d {
                1
            } else if a {
                -1
            } else {
                0
            };
            let up: i8 = if e {
                1
            } else if q {
                -1
            } else {
                0
            };
            Some((forward, right, up))
        },
        _ => None,
    }
}

/// What a click on a mesh does to the selection.
pub enum PickAction {
    /// Nothing: not a primary click on a selectable mesh.
    Ignore,
    /// The selected entities in `deselect` are deselected and the mesh alone selected.
    Replace { deselect: Vec<u64>, select: u64 },
    /// The mesh is deselected.
    Deselect(u64),
    /// The mesh is selected too.
    Select(u64),
}

/// Decides what a click on `target` selects: `selections` are the selected
/// items with whether each is an entity selection.
pub fn on_pick_mesh(primary: bool, is_selectable_mesh: bool, ctrl: bool, target: u64, selections: &Vec<(u64, bool)>) -> (a: PickAction)
    ensures
        !(primary && is_selectable_mesh) ==> a is Ignore,
        primary && is_selectable_mesh && !ctrl ==> match a {
            PickAction::Replace { deselect, select } => select == target && deselect@ == selections@.filter(
                |s: (u64, bool)| s.1,
            ).map_values(|s: (u64, bool)| s.0),
            _ => false,
        },
        primary && is_selectable_mesh && ctrl ==> (if selections@.map_values(|s: (u64, bool)| s.0).contains(target) {
            a == PickAction::Deselect(target)
        } else {
            a == PickAction::Select(target)
        }),
{
    if !primary || !is_selectable_mesh {
        return PickAction::Ignore;
    }
    if !ctrl {
        let mut deselect: Vec<u64> = Vec::new();
        let mut i: usize = 0;
        while i < selections.len()
            invariant
                i <= selections.len(),
                deselect@ == selections@.take(i as int).filter(|s: (u64, bool)| s.1).map_values(|s: (u64, bool)| s.0),
            decreases selections.len() - i,
        {
            proof {
                assert(selections@.take(i + 1).drop_last() =~= selections@.take(i as int));
                reveal_with_fuel(Seq::filter, 1);
            }
            let (entity, is_entity) = selections[i];
            if is_entity {
                deselect.push(entity);
            }
            proof {
                let t = selections@.take(i + 1);
                assert(t.last() == selections@[i as int]);
                assert(t.filter(|s: (u64, bool)| s.1) == if selections@[i as int].1 {
                    t.drop_last().filter(|s: (u64, bool)| s.1).push(selections@[i as int])
                } else {
                    t.drop_last().filter(|s: (u64, bool)| s.1)
                });
                assert(deselect@ =~= t.filter(|s: (u64, bool)| s.1).map_values(|s: (u64, bool)| s.0));
            }
            i += 1;
        }
        proof {
            assert(selections@.take(selections@.len() as int) =~= selections@);
        }
        PickAction::Replace { deselect, select: target }
    } else {
        let mut found = false;
        let mut i: usize = 0;
        while i < selections.len()
            invariant
                i <= selections.len(),
                found == exists|j: int| 0 <= j < i && selections@[j].0 == target,
            decreases selections.len() - i,
        {
            if selections[i].0 == target {
                found = true;
            }
            i += 1;
        }
        proof {
            let ks = selections@.map_values(|s: (u64, bool)| s.0);
            if found {
                let j = choose|j: int| 0 <= j < i && selections@[j].0 == target;
                assert(ks[j] == target);
            } else {
                if ks.contains(target) {
                    let j = choose|j: int| 0 <= j < ks.len() && ks[j] == target;
                    assert(selections@[j].0 == target);
                }
            }
        }
        if found {
            PickAction::Deselect(target)
        } else {
            PickAction::Select(target)
        }
    }
}

/// The plugin that sets up the viewport.
pub struct ViewportPlugin;

/// The plugin that sets up the viewport pane.
pub struct ViewportPanePlugin;

/// The plugin that moves the viewport camera.
pub struct ViewportCameraPlugin;

/// The plugin that sets up the 3d viewport pane.
pub struct Viewport3dPanePlugin;

} // verus!
