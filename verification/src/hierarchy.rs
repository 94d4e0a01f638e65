//! The hierarchy pane: the inspected entities, selected by clicking.
use vstd::prelude::*;

use crate::scene_tree::select_on_click;
use crate::selection::{view_after_deselect, view_after_select, view_contains, SelectionMap, ENTITY_SELECTION_KIND};

verus! {

/// Marks an entity that the hierarchy pane lists.
pub struct InspectedEntity;

/// The hierarchy pane.
pub struct HierarchyPane;

/// A click in the hierarchy pane: on the entity `clicked` (with or without
/// ctrl, as in the scene tree), or on the empty background, which clears the
/// selection.
pub fn hierarchy_click(selection: &mut SelectionMap, clicked: Option<u64>, ctrl: bool, background_clicked: bool)
    requires
        old(selection).wf(),
    ensures
        final(selection).wf(),
        match clicked {
            Some(e) => if !ctrl {
                final(selection)@ == view_after_select(Map::empty(), ENTITY_SELECTION_KIND, e)
            } else if view_contains(old(selection)@, ENTITY_SELECTION_KIND, e) {
                final(selection)@ == view_after_deselect(old(selection)@, ENTITY_SELECTION_KIND, e)
            } else {
                final(selection)@ == view_after_select(old(selection)@, ENTITY_SELECTION_KIND, e)
            },
            None => if background_clicked {
                final(selection)@ == Map::<u64, Seq<u64>>::empty()
            } else {
                final(selection)@ == old(selection)@
            },
        },
{
    match clicked {
        Some(e) => select_on_click(selection, e, ctrl),
        None => {
            if background_clicked {
                selection.clear();
            }
        },
    }
}

} // verus!
