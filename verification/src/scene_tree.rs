//! The scene tree: how the inspected scene's hierarchy is listed, what a drop
//! onto an entity does, and what is saved.
use vstd::prelude::*;

use crate::paths::{file_name, path_file_name, path_without_extension, without_extension};
use crate::selection::{
    view_after_deselect, view_after_select, view_contains, EntitySelection, SelectionMap, ENTITY_SELECTION_KIND,
};

verus! {

/// An entity of the inspected scene with its children, in their order.
pub struct SceneNode {
    pub entity: u64,
    /// The entity's name, if it has one.
    pub name: Option<String>,
    /// Whether the entity is the root of a nested scene.
    pub is_scene_root: bool,
    pub children: Vec<SceneNode>,
}

/// The entities that go into a saved scene from `nodes`, depth first, each
/// before its descendants; a nested scene's root is kept without its descendants.
pub open spec fn scene_entities(nodes: Seq<SceneNode>) -> Seq<u64>
    decreases nodes, 0nat,
{
    if nodes.len() == 0 {
        Seq::empty()
    } else {
        scene_entities(nodes.drop_last()) + node_entities(nodes[nodes.len() - 1])
    }
}

/// The entities that go into a saved scene from `node` and its descendants.
pub open spec fn node_entities(node: SceneNode) -> Seq<u64>
    decreases node, 1nat,
{
    if node.is_scene_root {
        seq![node.entity]
    } else {
        proof {
            assert(decreases_to!(node => node.children));
        }
        seq![node.entity] + scene_entities(node.children@)
    }
}

/// The roots of nested scenes among `nodes` and their descendants that are
/// saved (their children are detached while the scene is saved).
pub open spec fn nested_scene_roots(nodes: Seq<SceneNode>) -> Seq<u64>
    decreases nodes, 0nat,
{
    if nodes.len() == 0 {
        Seq::empty()
    } else {
        nested_scene_roots(nodes.drop_last()) + node_scene_roots(nodes[nodes.len() - 1])
    }
}

/// The roots of nested scenes at `node` or below it that are saved.
pub open spec fn node_scene_roots(node: SceneNode) -> Seq<u64>
    decreases node, 1nat,
{
    if node.is_scene_root {
        seq![node.entity]
    } else {
        proof {
            assert(decreases_to!(node => node.children));
        }
        nested_scene_roots(node.children@)
    }
}

/// Collects the entities that go into a saved scene below a root with
/// children `nodes`, and the nested scene roots whose children are detached.
pub fn collect_scene_entities(nodes: &Vec<SceneNode>, entities: &mut Vec<u64>, scene_roots: &mut Vec<u64>)
    ensures
        final(entities)@ == old(entities)@ + scene_entities(nodes@),
        final(scene_roots)@ == old(scene_roots)@ + nested_scene_roots(nodes@),
    decreases nodes@, 2nat,
{
    let mut i: usize = 0;
    while i < nodes.len()
        invariant
            i <= nodes.len(),
            entities@ == old(entities)@ + scene_entities(nodes@.take(i as int)),
            scene_roots@ == old(scene_roots)@ + nested_scene_roots(nodes@.take(i as int)),
        decreases nodes.len() - i,
    {
        let node = &nodes[i];
        proof {
            assert(nodes@.take(i + 1).drop_last() =~= nodes@.take(i as int));
            assert(nodes@.take(i + 1)[i as int] == nodes@[i as int]);
        }
        let ghost e0 = entities@;
        let ghost r0 = scene_roots@;
        entities.push(node.entity);
        if node.is_scene_root {
            scene_roots.push(node.entity);
        } else {
            proof {
                assert(decreases_to!(nodes@ => nodes@[i as int]));
            }
            collect_scene_entities(&node.children, entities, scene_roots);
        }
        proof {
            let n = nodes@[i as int];
            assert(scene_entities(nodes@.take(i + 1)) == scene_entities(nodes@.take(i as int)) + node_entities(n));
            assert(nested_scene_roots(nodes@.take(i + 1)) == nested_scene_roots(nodes@.take(i as int)) + node_scene_roots(n));
            if n.is_scene_root {
                assert(entities@ =~= e0 + node_entities(n));
                assert(scene_roots@ =~= r0 + node_scene_roots(n));
            } else {
                assert(entities@ =~= e0 + node_entities(n));
                assert(scene_roots@ =~= r0 + node_scene_roots(n));
            }
            assert(entities@ =~= old(entities)@ + scene_entities(nodes@.take(i + 1)));
            assert(scene_roots@ =~= old(scene_roots)@ + nested_scene_roots(nodes@.take(i + 1)));
        }
        i += 1;
    }
    proof {
        assert(nodes@.take(nodes@.len() as int) =~= nodes@);
    }
}

/// An entity as the scene tree shows it: a header with its label, expanded
/// or not, over the views of its children.
pub struct EntityView {
    pub entity: u64,
    pub label: String,
    /// Whether the children are shown.
    pub expanded: bool,
    pub children: Vec<EntityView>,
}

/// The label of an entity: its name, or "Entity".
pub open spec fn entity_label(name: Option<String>) -> Seq<char> {
    match name {
        Some(n) => n@,
        None => "Entity"@,
    }
}

/// Whether `view` shows `node` and its descendants, each expanded and
/// labelled by its name.
pub open spec fn shows(view: EntityView, node: SceneNode) -> bool
    decreases node,
{
    &&& view.entity == node.entity
    &&& view.label@ == entity_label(node.name)
    &&& view.expanded
    &&& view.children@.len() == node.children@.len()
    &&& forall|i: int| 0 <= i < node.children@.len() ==> {
        proof {
            assert(decreases_to!(node => node.children@[i]));
        }
        shows(#[trigger] view.children@[i], node.children@[i])
    }
}

fn label_of(name: &Option<String>) -> (l: String)
    ensures
        l@ == entity_label(*name),
{
    match name {
        Some(n) => n.clone(),
        None => "Entity".to_string(),
    }
}

/// Builds the view of an entity of the scene tree and of its descendants.
pub fn populate_scene_tree(node: &SceneNode) -> (view: EntityView)
    ensures
        shows(view, *node),
    decreases node,
{
    let mut children: Vec<EntityView> = Vec::new();
    let mut i: usize = 0;
    while i < node.children.len()
        invariant
            i <= node.children.len(),
            children@.len() == i,
            forall|j: int| 0 <= j < i ==> shows(#[trigger] children@[j], node.children@[j]),
        decreases node.children.len() - i,
    {
        proof {
            assert(decreases_to!(*node => node.children@[i as int]));
        }
        let child = populate_scene_tree(&node.children[i]);
        children.push(child);
        i += 1;
    }
    EntityView { entity: node.entity, label: label_of(&node.name), expanded: true, children }
}

/// A header after a click on its chevron: whether it is expanded, the icon
/// it shows, and whether its content is visible.
pub struct HeaderToggle {
    pub expanded: bool,
    pub icon: String,
    pub content_visible: bool,
}

/// A click on a header's chevron flips it between expanded (a downward
/// chevron, content shown) and collapsed (a rightward chevron, content hidden).
pub fn toggle_header(expanded: bool) -> (t: HeaderToggle)
    ensures
        t.expanded == !expanded,
        t.content_visible == t.expanded,
        t.icon@ == (if t.expanded {
            "embedded://bevy_editor/icons/chevron_down.png"@
        } else {
            "embedded://bevy_editor/icons/chevron_right.png"@
        }),
{
    let now = !expanded;
    let icon = if now {
        "embedded://bevy_editor/icons/chevron_down.png".to_string()
    } else {
        "embedded://bevy_editor/icons/chevron_right.png".to_string()
    };
    HeaderToggle { expanded: now, icon, content_visible: now }
}

/// The label of an entity's header: "Loading..." while a nested scene loads,
/// else its name or "Entity".
pub fn entity_header_label(name: Option<&str>, is_loading_scene: bool) -> (l: String)
    ensures
        l@ == (if is_loading_scene {
            "Loading..."@
        } else {
            match name {
                Some(n) => n@,
                None => "Entity"@,
            }
        }),
{
    if is_loading_scene {
        "Loading...".to_string()
    } else {
        match name {
            Some(n) => n.to_string(),
            None => "Entity".to_string(),
        }
    }
}

/// The heading of the scene tree: the scene's name (or "untiteled"), with a
/// star while it has unsaved changes.
pub fn scene_heading(name: Option<&str>, dirty: bool) -> (h: String)
    ensures
        h@ == (match name {
            Some(n) => n@,
            None => "untiteled"@,
        }) + (if dirty {
            "*"@
        } else {
            ""@
        }),
{
    let mut h = match name {
        Some(n) => n.to_string(),
        None => "untiteled".to_string(),
    };
    if dirty {
        h.append("*");
    } else {
        h.append("");
    }
    h
}

/// Updates the selection after a click on an entity's header: without ctrl
/// the entity alone becomes selected; with ctrl it is toggled.
pub fn select_on_click(selection: &mut SelectionMap, entity: u64, ctrl: bool)
    requires
        old(selection).wf(),
    ensures
        final(selection).wf(),
        !ctrl ==> final(selection)@ == view_after_select(Map::empty(), ENTITY_SELECTION_KIND, entity),
        ctrl && view_contains(old(selection)@, ENTITY_SELECTION_KIND, entity) ==> final(selection)@
            == view_after_deselect(old(selection)@, ENTITY_SELECTION_KIND, entity),
        ctrl && !view_contains(old(selection)@, ENTITY_SELECTION_KIND, entity) ==> final(selection)@
            == view_after_select(old(selection)@, ENTITY_SELECTION_KIND, entity),
{
    if !ctrl {
        selection.clear();
        selection.select(EntitySelection::new(entity));
    } else {
        if selection.is_selected(&EntitySelection::new(entity)) {
            selection.deselect(&EntitySelection::new(entity));
        } else {
            selection.select(EntitySelection::new(entity));
        }
    }
}

/// Where the pointer is over a header while something is dragged onto it.
pub enum DropZone {
    /// Over its upper edge.
    Above,
    /// Over its lower edge.
    Below,
    /// Over its middle.
    Middle,
}

/// Where a drop onto `entity` puts the dragged entity: under `parent` (the
/// entity's parent) at an index next to `index` (the entity's place among its
/// siblings), or, over the middle, under the entity itself.
pub open spec fn drop_place(entity: u64, parent: u64, same_parent: bool, index: usize, zone: DropZone) -> (u64, int) {
    match zone {
        DropZone::Above => (parent, if same_parent && index > 0 { index - 1 } else { index as int }),
        DropZone::Below => (parent, if same_parent { index as int } else { index + 1 }),
        DropZone::Middle => (entity, index as int),
    }
}

/// What a drop does to the hierarchy.
pub enum DropAction {
    /// Nothing: the drop would make the dragged entity its own ancestor.
    Refuse,
    /// Append `child` to the children of `parent`.
    AddChild { parent: u64, child: u64 },
    /// Insert `child` among the children of `parent` at `index`.
    InsertChild { parent: u64, index: usize, child: u64 },
}

/// Where a drop of `dragged` onto `entity` puts it: the target and index of
/// `drop_place`; `target_ancestors` are the ancestors of that target.
pub open spec fn dropped(entity: u64, dragged: u64, target: u64, index: int, target_ancestors: Seq<u64>) -> DropAction {
    if target == dragged || target_ancestors.contains(dragged) {
        DropAction::Refuse
    } else if target == entity {
        DropAction::AddChild { parent: entity, child: dragged }
    } else {
        DropAction::InsertChild { parent: target, index: index as usize, child: dragged }
    }
}

/// The place a drop onto `entity` aims at, from where the pointer is.
pub fn drop_target(entity: u64, parent: u64, same_parent: bool, index: usize, zone: DropZone) -> (r: (u64, usize))
    requires
        index < usize::MAX,
    ensures
        (r.0, r.1 as int) == drop_place(entity, parent, same_parent, index, zone),
{
    match zone {
        DropZone::Above => {
            if same_parent {
                (parent, index.saturating_sub(1))
            } else {
                (parent, index)
            }
        },
        DropZone::Below => {
            if same_parent {
                (parent, index)
            } else {
                (parent, index + 1)
            }
        },
        DropZone::Middle => (entity, index),
    }
}

/// Decides what dropping `dragged` at `target` (found by `drop_target` for a
/// drop onto `entity`) does; `target_ancestors` are the ancestors of `target`.
pub fn drop_action(entity: u64, dragged: u64, target: u64, index: usize, target_ancestors: &Vec<u64>) -> (a: DropAction)
    ensures
        a == dropped(entity, dragged, target, index as int, target_ancestors@),
{
    let mut recurse = target == dragged;
    let mut i: usize = 0;
    while i < target_ancestors.len()
        invariant
            i <= target_ancestors.len(),
            recurse == (target == dragged || exists|j: int| 0 <= j < i && target_ancestors@[j] == dragged),
        decreases target_ancestors.len() - i,
    {
        if target_ancestors[i] == dragged {
            recurse = true;
        }
        i += 1;
    }
    if recurse {
        DropAction::Refuse
    } else if target == entity {
        DropAction::AddChild { parent: entity, child: dragged }
    } else {
        DropAction::InsertChild { parent: target, index, child: dragged }
    }
}

/// A drop never makes an entity its own ancestor: where it moves the dragged
/// entity, the new parent is neither the entity nor one of its descendants.
pub proof fn law_drop_keeps_hierarchy(entity: u64, dragged: u64, target: u64, index: int, target_ancestors: Seq<u64>)
    ensures
        match dropped(entity, dragged, target, index, target_ancestors) {
            DropAction::Refuse => target == dragged || target_ancestors.contains(dragged),
            DropAction::AddChild { parent, child } => child == dragged && parent == target && parent != child
                && !target_ancestors.contains(child),
            DropAction::InsertChild { parent, index: _, child } => child == dragged && parent == target && parent
                != child && !target_ancestors.contains(child),
        },
{
}

/// The entities that a despawn of the selection removes: the selected
/// entities, in the order of their selection.
pub fn selected_entities(selection: &SelectionMap) -> (es: Vec<u64>)
    requires
        selection.wf(),
    ensures
        selection@.contains_key(ENTITY_SELECTION_KIND) ==> es@ == selection@[ENTITY_SELECTION_KIND],
        !selection@.contains_key(ENTITY_SELECTION_KIND) ==> es@.len() == 0,
{
    match selection.of_type() {
        Some(es) => es,
        None => Vec::new(),
    }
}

/// The scene is marked as changed once any request to do so came in.
pub fn mark_scene_dirty(requests: usize, dirty: &mut bool)
    ensures
        *final(dirty) == (*old(dirty) || requests > 0),
{
    if requests > 0 {
        *dirty = true;
    }
}

/// A request to mark the inspected scene as changed.
pub struct MarkSceneDirty;

/// A request to open a scene.
pub struct OpenScene;

/// A request to save the inspected scene.
pub struct SaveScene;

/// The scene tree pane.
pub struct SceneTreePane;

/// The plugin that sets up the scene tree.
pub struct SceneTreePlugin;

/// The name of a scene from the path of its asset: the file name without its
/// extension, or "untitled".
pub open spec fn scene_name_of(path: Option<Seq<char>>) -> Seq<char> {
    match path {
        Some(p) => match path_file_name(path_without_extension(p)) {
            Some(n) => n,
            None => "untitled"@,
        },
        None => "untitled"@,
    }
}

/// The name of a scene loaded from `path`.
pub fn scene_name(path: Option<&str>) -> (name: String)
    ensures
        name@ == scene_name_of(
            match path {
                Some(p) => Some(p@),
                None => None,
            },
        ),
{
    match path {
        Some(p) => {
            let stem = without_extension(p);
            match file_name(stem.as_str()) {
                Some(n) => n,
                None => "untitled".to_string(),
            }
        },
        None => "untitled".to_string(),
    }
}

/// Whether a scene tree view is filled anew: once the scene's instance is
/// ready, where the view was just added or the scene changed.
pub fn should_redraw_scene_tree(instance_ready: bool, view_added: bool, outdated: bool) -> (r: bool)
    ensures
        r == (instance_ready && (view_added || outdated)),
{
    instance_ready && (view_added || outdated)
}

} // verus!
