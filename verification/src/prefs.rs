//! Preferences: loaded when the editor starts and saved when it exits.
use vstd::prelude::*;

verus! {

/// Sent after the preferences are saved.
pub struct Save;

/// Sent after the preferences are loaded.
pub struct Load;

/// Whether the preferences are saved this frame: once an exit is requested.
pub fn should_save(exit_requests: usize) -> (r: bool)
    ensures
        r == (exit_requests > 0),
{
    exit_requests != 0
}

/// The plugin that loads and saves preferences.
pub struct PrefsPlugin;

} // verus!
