//! Locking the cursor: while a lock is requested the cursor is hidden, held
//! in place and kept in its window.
use vstd::prelude::*;

verus! {

/// Whether the cursor lock is requested.
pub struct CursorLock(pub bool);

/// What a frame does to a window's cursor.
#[derive(Clone, Copy, PartialEq, Eq, Structural)]
pub enum CursorAction {
    /// Nothing.
    Keep,
    /// Remember where the cursor is, hide it and lock it in the window.
    Lock,
    /// Release the cursor and show it.
    Unlock,
}

/// The actions of one frame: one for each window, whether each window's
/// cursor is moved back to the remembered place, and whether the cursor is
/// locked afterwards.
pub struct LockStep {
    pub actions: Vec<CursorAction>,
    pub hold: Vec<bool>,
    pub locked: bool,
}

/// The action on a window: a new lock locks focused windows, a released lock
/// unlocks every window.
pub open spec fn cursor_action(lock: bool, changed: bool, locked: bool, focused: bool) -> CursorAction {
    if changed && lock && !locked {
        if focused { CursorAction::Lock } else { CursorAction::Keep }
    } else if changed && !lock && locked {
        CursorAction::Unlock
    } else {
        CursorAction::Keep
    }
}

/// Whether the cursor is locked after the frame.
pub open spec fn locked_after(lock: bool, changed: bool, locked: bool) -> bool {
    if changed && lock && !locked {
        true
    } else if changed && !lock && locked {
        false
    } else {
        locked
    }
}

/// Decides a frame of the cursor lock: `requested` is the request, `changed`
/// whether it changed since the last frame, `locked` whether the cursor is
/// locked, and `focused[i]` whether window `i` has the focus.
pub fn lock(requested: bool, changed: bool, locked: bool, focused: &Vec<bool>) -> (step: LockStep)
    ensures
        step.actions@.len() == focused@.len(),
        step.hold@.len() == focused@.len(),
        forall|i: int| 0 <= i < focused@.len() ==> #[trigger] step.actions@[i] == cursor_action(requested, changed, locked, focused@[i]),
        forall|i: int| 0 <= i < focused@.len() ==> #[trigger] step.hold@[i] == (requested && focused@[i]),
        step.locked == locked_after(requested, changed, locked),
{
    let mut actions: Vec<CursorAction> = Vec::new();
    let mut hold: Vec<bool> = Vec::new();
    let mut i: usize = 0;
    while i < focused.len()
        invariant
            i <= focused.len(),
            actions@.len() == i,
            hold@.len() == i,
            forall|j: int| 0 <= j < i ==> #[trigger] actions@[j] == cursor_action(requested, changed, locked, focused@[j]),
            forall|j: int| 0 <= j < i ==> #[trigger] hold@[j] == (requested && focused@[j]),
        decreases focused.len() - i,
    {
        let f = focused[i];
        let action = if changed && requested && !locked {
            if f {
                CursorAction::Lock
            } else {
                CursorAction::Keep
            }
        } else if changed && !requested && locked {
            CursorAction::Unlock
        } else {
            CursorAction::Keep
        };
        actions.push(action);
        hold.push(requested && f);
        i += 1;
    }
    let now = if changed && requested && !locked {
        true
    } else if changed && !requested && locked {
        false
    } else {
        locked
    };
    LockStep { actions, hold, locked: now }
}

/// After a frame in which the request changed, the cursor is locked exactly
/// when the lock is requested; in other frames it stays as it was.
pub proof fn law_lock_follows_request(lock: bool, changed: bool, locked: bool)
    ensures
        changed ==> locked_after(lock, changed, locked) == lock,
        !changed ==> locked_after(lock, changed, locked) == locked,
{
}

/// The plugin that locks the cursor on request.
pub struct CursorLockPlugin;

} // verus!
