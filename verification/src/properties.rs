//! The properties pane: which components of an entity it lists and in what
//! order, and what the "Add Component" menu offers.
use vstd::prelude::*;

use crate::fuzzy::{fuzzy_match, is_permutation, rank_by_score, ranks_before, search_score};
use crate::inspection::utils::{pretty_type_name_str, short_type_name};
use crate::keys::position_of;
use crate::selection::{SelectionGroup, SelectionMap, ENTITY_SELECTION_KIND};
use crate::text::{
    chars_less, decimal, decimal_text, index_occurs, lemma_chars_less_transitive,
    lemma_lists_each_index_covers, lists_each_index, sort_by_name, sorts_before,
};

verus! {

/// The component types that the properties pane leaves out, by type key.
pub struct ComponentIgnore {
    ids: Vec<u64>,
}

impl ComponentIgnore {
    pub closed spec fn view(&self) -> Set<u64> {
        self.ids@.to_set()
    }

    pub fn new() -> (c: Self)
        ensures
            c@ == Set::<u64>::empty(),
    {
        let c = ComponentIgnore { ids: Vec::new() };
        assert(c@ =~= Set::<u64>::empty());
        c
    }

    /// Leaves out components of type `type_key`.
    pub fn insert(&mut self, type_key: u64)
        ensures
            final(self)@ == old(self)@.insert(type_key),
    {
        if position_of(&self.ids, type_key).is_none() {
            self.ids.push(type_key);
            assert(self.ids@.to_set() =~= old(self).ids@.to_set().insert(type_key)) by {
                assert(self.ids@ == old(self).ids@.push(type_key));
                assert forall|x: u64| self.ids@.contains(x) <==> old(self).ids@.contains(x) || x == type_key by {
                    if self.ids@.contains(x) && x != type_key {
                        let j = choose|j: int| 0 <= j < self.ids@.len() && self.ids@[j] == x;
                        assert(old(self).ids@[j] == x);
                    }
                    if old(self).ids@.contains(x) {
                        let j = choose|j: int| 0 <= j < old(self).ids@.len() && old(self).ids@[j] == x;
                        assert(self.ids@[j] == x);
                    }
                    if x == type_key {
                        assert(self.ids@[self.ids@.len() - 1] == x);
                    }
                }
            }
        } else {
            assert(self.ids@.to_set() =~= old(self).ids@.to_set().insert(type_key));
        }
    }

    /// Whether components of type `type_key` are left out.
    pub fn contains(&self, type_key: u64) -> (r: bool)
        ensures
            r == self@.contains(type_key),
    {
        position_of(&self.ids, type_key).is_some()
    }
}

/// What the world tells about a component of an entity.
pub struct ComponentInfo {
    /// The full name of the component's type.
    pub name: String,
    pub component_id: u64,
    /// The key of the component's Rust type, if it has one.
    pub type_key: Option<u64>,
    /// Whether the type is in the type registry.
    pub registered: bool,
    /// The size of a value of the component; zero for a tag.
    pub size: usize,
}

/// A component as the properties pane lists it.
pub struct ComponentData {
    /// The short name of the component's type.
    pub name: String,
    pub component_id: u64,
    pub type_key: u64,
    pub size: usize,
}

/// Whether the pane lists a component: it has a registered Rust type that is not left out.
pub open spec fn is_listed(c: ComponentInfo, ignore: Set<u64>) -> bool {
    &&& c.type_key is Some
    &&& c.registered
    &&& !ignore.contains(c.type_key->0)
}

/// The components that the pane lists, in the order the entity has them.
pub open spec fn listed_components(cs: Seq<ComponentInfo>, ignore: Set<u64>) -> Seq<ComponentInfo>
    decreases cs.len(),
{
    if cs.len() == 0 {
        Seq::empty()
    } else if is_listed(cs.last(), ignore) {
        listed_components(cs.drop_last(), ignore).push(cs.last())
    } else {
        listed_components(cs.drop_last(), ignore)
    }
}

/// `data` lists `info` under its short name.
pub open spec fn describes(data: ComponentData, info: ComponentInfo) -> bool {
    &&& data.name@ == short_type_name(info.name@)
    &&& data.component_id == info.component_id
    &&& Some(data.type_key) == info.type_key
    &&& data.size == info.size
}

/// `data` is `sorted` with the first component of type `transform_key` swapped to the front.
pub open spec fn transform_first(sorted: Seq<ComponentData>, data: Seq<ComponentData>, transform_key: u64) -> bool {
    if exists|k: int| 0 <= k < sorted.len() && sorted[k].type_key == transform_key {
        let t = choose|k: int|
            0 <= k < sorted.len() && sorted[k].type_key == transform_key && forall|j: int|
                0 <= j < k ==> sorted[j].type_key != transform_key;
        data == sorted.update(t, sorted[0]).update(0, sorted[t])
    } else {
        data == sorted
    }
}

/// `sorted` lists the components that the pane lists, in the order `order`
/// gives them: ascending by short name, ties keeping the entity's order.
pub open spec fn sorted_listing(
    components: Seq<ComponentInfo>,
    ignore: Set<u64>,
    order: Seq<usize>,
    sorted: Seq<ComponentData>,
) -> bool {
    let listed = listed_components(components, ignore);
    &&& lists_each_index(order, listed.len())
    &&& sorted.len() == listed.len()
    &&& forall|k: int| 0 <= k < sorted.len() ==> describes(#[trigger] sorted[k], listed[order[k] as int])
    &&& forall|a: int, b: int| 0 <= a < b < order.len() ==> sorts_before(
        listed.map_values(|c: ComponentInfo| short_type_name(c.name@)),
        order[a] as int,
        order[b] as int,
    )
}

fn first_of_type(data: &Vec<ComponentData>, type_key: u64) -> (r: Option<usize>)
    ensures
        match r {
            Some(t) => t < data@.len() && data@[t as int].type_key == type_key && forall|j: int|
                0 <= j < t ==> data@[j].type_key != type_key,
            None => forall|j: int| 0 <= j < data@.len() ==> data@[j].type_key != type_key,
        },
{
    let mut t: usize = 0;
    while t < data.len()
        invariant
            t <= data.len(),
            forall|j: int| 0 <= j < t ==> data@[j].type_key != type_key,
        decreases data.len() - t,
    {
        if data[t].type_key == type_key {
            return Some(t);
        }
        t += 1;
    }
    None
}

proof fn lemma_listed_components_are_listed(cs: Seq<ComponentInfo>, ignore: Set<u64>)
    ensures
        forall|k: int| 0 <= k < listed_components(cs, ignore).len() ==> is_listed(
            #[trigger] listed_components(cs, ignore)[k],
            ignore,
        ),
    decreases cs.len(),
{
    if cs.len() > 0 {
        lemma_listed_components_are_listed(cs.drop_last(), ignore);
        let prev = listed_components(cs.drop_last(), ignore);
        if is_listed(cs.last(), ignore) {
            let all = listed_components(cs, ignore);
            assert(all == prev.push(cs.last()));
            assert forall|k: int| 0 <= k < all.len() implies is_listed(#[trigger] all[k], ignore) by {
                if k < prev.len() {
                    assert(all[k] == prev[k]);
                }
            }
        }
    }
}

fn listed_infos(components: &Vec<ComponentInfo>, ignore: &ComponentIgnore) -> (kept: Vec<usize>)
    ensures
        kept@.len() == listed_components(components@, ignore@).len(),
        forall|k: int| 0 <= k < kept@.len() ==> #[trigger] kept@[k] < components@.len()
            && components@[kept@[k] as int] == listed_components(components@, ignore@)[k],
{
    let mut kept: Vec<usize> = Vec::new();
    let mut i: usize = 0;
    while i < components.len()
        invariant
            i <= components.len(),
            kept@.len() == listed_components(components@.subrange(0, i as int), ignore@).len(),
            forall|k: int| 0 <= k < kept@.len() ==> #[trigger] kept@[k] < components@.len()
                && components@[kept@[k] as int] == listed_components(
                components@.subrange(0, i as int),
                ignore@,
            )[k],
        decreases components.len() - i,
    {
        proof {
            assert(components@.subrange(0, i + 1).drop_last() =~= components@.subrange(0, i as int));
        }
        let c = &components[i];
        let keep = match c.type_key {
            Some(t) => c.registered && !ignore.contains(t),
            None => false,
        };
        let ghost before = kept@;
        if keep {
            kept.push(i);
        }
        proof {
            let sub = components@.subrange(0, i + 1);
            let prev = components@.subrange(0, i as int);
            assert(sub.drop_last() =~= prev);
            assert(sub.last() == components@[i as int]);
            assert(keep == is_listed(components@[i as int], ignore@));
            assert(listed_components(sub, ignore@) == if keep {
                listed_components(prev, ignore@).push(components@[i as int])
            } else {
                listed_components(prev, ignore@)
            });
            assert forall|k: int| 0 <= k < kept@.len() implies kept@[k] < components@.len()
                && components@[kept@[k] as int] == listed_components(sub, ignore@)[k] by {
                if k < before.len() {
                    assert(kept@[k] == before[k]);
                    assert(before[k] < components@.len());
                } else {
                    assert(keep);
                    assert(kept@[k] == i);
                    assert(i < components@.len());
                }
            }
        }
        i += 1;
    }
    proof {
        assert(components@.subrange(0, components@.len() as int) =~= components@);
    }
    kept
}

/// The components of an entity as the properties pane lists them: those with a
/// registered Rust type that is not left out, under their short names, sorted
/// by name (ties keeping the entity's order), and the first transform moved to
/// the front by swapping it with the first component.
pub fn get_entity_component_data(
    components: &Vec<ComponentInfo>,
    ignore: &ComponentIgnore,
    transform_key: u64,
) -> (data: Vec<ComponentData>)
    ensures
        exists|order: Seq<usize>, sorted: Seq<ComponentData>|
            #![trigger lists_each_index(order, listed_components(components@, ignore@).len()), transform_first(sorted, data@, transform_key)]
            sorted_listing(components@, ignore@, order, sorted) && transform_first(sorted, data@, transform_key),
{
    let kept = listed_infos(components, ignore);
    let ghost listed = listed_components(components@, ignore@);
    let mut names: Vec<String> = Vec::new();
    let mut k: usize = 0;
    while k < kept.len()
        invariant
            k <= kept.len(),
            kept@.len() == listed.len(),
            forall|j: int| 0 <= j < kept@.len() ==> #[trigger] kept@[j] < components@.len()
                && components@[kept@[j] as int] == listed[j],
            names@.len() == k,
            forall|j: int| 0 <= j < k ==> #[trigger] names@[j]@ == short_type_name(listed[j].name@),
        decreases kept.len() - k,
    {
        names.push(pretty_type_name_str(components[kept[k]].name.as_str()));
        k += 1;
    }
    let order = sort_by_name(&names);
    proof {
        lemma_listed_components_are_listed(components@, ignore@);
    }
    proof {
        assert(names@.map_values(|s: String| s@) =~= listed.map_values(
            |c: ComponentInfo| short_type_name(c.name@),
        ));
    }
    let mut sorted: Vec<ComponentData> = Vec::new();
    let mut j: usize = 0;
    while j < order.len()
        invariant
            j <= order.len(),
            lists_each_index(order@, listed.len()),
            kept@.len() == listed.len(),
            names@.len() == listed.len(),
            forall|x: int| 0 <= x < kept@.len() ==> #[trigger] kept@[x] < components@.len()
                && components@[kept@[x] as int] == listed[x],
            forall|x: int| 0 <= x < names@.len() ==> #[trigger] names@[x]@ == short_type_name(listed[x].name@),
            sorted@.len() == j,
            forall|x: int| 0 <= x < j ==> describes(#[trigger] sorted@[x], listed[order@[x] as int]),
            forall|x: int| 0 <= x < listed.len() ==> is_listed(#[trigger] listed[x], ignore@),
        decreases order.len() - j,
    {
        let idx = order[j];
        let c = &components[kept[idx]];
        proof {
            assert(components@[kept@[idx as int] as int] == listed[idx as int]);
            assert(is_listed(listed[idx as int], ignore@));
        }
        let d = ComponentData {
            name: names[idx].clone(),
            component_id: c.component_id,
            type_key: match c.type_key {
                Some(t) => t,
                None => 0,
            },
            size: c.size,
        };
        sorted.push(d);
        j += 1;
    }
    let ghost sorted_view = sorted@;
    proof {
        assert(sorted_listing(components@, ignore@, order@, sorted_view));
    }
    match first_of_type(&sorted, transform_key) {
        Some(t) => {
            if t > 0 {
                let moved = sorted.remove(t);
                let first = sorted.remove(0);
                sorted.insert(0, moved);
                sorted.insert(t, first);
            }
            proof {
                let tt = choose|k: int|
                    0 <= k < sorted_view.len() && sorted_view[k].type_key == transform_key && forall|j: int|
                        0 <= j < k ==> sorted_view[j].type_key != transform_key;
                assert(0 <= t < sorted_view.len() && sorted_view[t as int].type_key == transform_key);
                assert(tt == t as int) by {
                    if tt < t {
                        assert(sorted_view[tt].type_key != transform_key);
                    } else if tt > t {
                        assert(sorted_view[t as int].type_key != transform_key);
                    }
                }
                assert(sorted@ =~= sorted_view.update(t as int, sorted_view[0]).update(0, sorted_view[t as int]));
            }
        },
        None => {},
    }
    proof {
        assert(lists_each_index(order@, listed_components(components@, ignore@).len()));
        assert(transform_first(sorted_view, sorted@, transform_key));
    }
    sorted
}

/// A type in the type registry, as the "Add Component" menu reads it.
pub struct TypeRegistration {
    pub type_key: u64,
    /// The full path of the type.
    pub type_path: String,
    /// Whether the type is registered as a component.
    pub is_component: bool,
    /// Whether the type has a registered default value.
    pub has_default: bool,
}

/// Whether the menu offers to add a component of this type: it is a component
/// with a default value, and it is not left out.
pub open spec fn offered(r: TypeRegistration, ignore: Set<u64>) -> bool {
    &&& r.is_component
    &&& !ignore.contains(r.type_key)
    &&& r.has_default
}

/// Whether some offered type has the path `p`.
pub open spec fn offers_path(regs: Seq<TypeRegistration>, ignore: Set<u64>, p: Seq<char>) -> bool {
    exists|i: int| 0 <= i < regs.len() && offered(#[trigger] regs[i], ignore) && regs[i].type_path@ == p
}

/// Whether `p` is one of `items`.
pub open spec fn lists_path(items: Seq<String>, p: Seq<char>) -> bool {
    exists|k: int| 0 <= k < items.len() && #[trigger] items[k]@ == p
}

/// Whether each of `items` comes strictly before the ones after it.
pub open spec fn strictly_ascending(items: Seq<String>) -> bool {
    forall|a: int, b: int| 0 <= a < b < items.len() ==> chars_less(#[trigger] items[a]@, #[trigger] items[b]@)
}

/// The "Add Component" menu: what is typed in its search field, and the paths
/// of the components it offers.
pub struct AddComponentMenu {
    pub search: String,
    pub items: Vec<String>,
}

fn offered_paths(registrations: &Vec<TypeRegistration>, ignore: &ComponentIgnore) -> (paths: Vec<String>)
    ensures
        forall|j: int| 0 <= j < paths@.len() ==> offers_path(registrations@, ignore@, #[trigger] paths@[j]@),
        forall|p: Seq<char>| offers_path(registrations@, ignore@, p) ==> lists_path(paths@, p),
{
    let mut paths: Vec<String> = Vec::new();
    let mut i: usize = 0;
    while i < registrations.len()
        invariant
            i <= registrations.len(),
            forall|j: int| 0 <= j < paths@.len() ==> offers_path(registrations@, ignore@, #[trigger] paths@[j]@),
            forall|j: int| 0 <= j < i ==> offered(#[trigger] registrations@[j], ignore@) ==> lists_path(
                paths@,
                registrations@[j].type_path@,
            ),
        decreases registrations.len() - i,
    {
        let r = &registrations[i];
        let ghost before = paths@;
        if r.is_component && !ignore.contains(r.type_key) && r.has_default {
            paths.push(r.type_path.clone());
            proof {
                assert(offered(registrations@[i as int], ignore@));
                assert(paths@[paths@.len() - 1]@ == registrations@[i as int].type_path@);
                assert forall|j: int| 0 <= j < paths@.len() implies offers_path(
                    registrations@,
                    ignore@,
                    #[trigger] paths@[j]@,
                ) by {
                    if j < before.len() {
                        assert(paths@[j] == before[j]);
                    }
                }
                assert forall|j: int| 0 <= j <= i && offered(#[trigger] registrations@[j], ignore@) implies lists_path(
                    paths@,
                    registrations@[j].type_path@,
                ) by {
                    if j < i {
                        let k = choose|k: int| 0 <= k < before.len() && #[trigger] before[k]@ == registrations@[j].type_path@;
                        assert(paths@[k] == before[k]);
                    }
                }
            }
        }
        i += 1;
    }
    proof {
        assert forall|p: Seq<char>| offers_path(registrations@, ignore@, p) implies lists_path(paths@, p) by {
            let j = choose|j: int| 0 <= j < registrations@.len() && offered(#[trigger] registrations@[j], ignore@)
                && registrations@[j].type_path@ == p;
        }
    }
    paths
}

/// Builds the "Add Component" menu from the type registry: the paths of the
/// offered components, each once, in ascending order, with an empty search.
pub fn collect_add_component_tree(registrations: &Vec<TypeRegistration>, ignore: &ComponentIgnore) -> (menu: AddComponentMenu)
    ensures
        menu.search@ == Seq::<char>::empty(),
        strictly_ascending(menu.items@),
        forall|p: Seq<char>| #[trigger] lists_path(menu.items@, p) <==> offers_path(registrations@, ignore@, p),
{
    let paths = offered_paths(registrations, ignore);
    let order = sort_by_name(&paths);
    let ghost ns = paths@.map_values(|s: String| s@);
    proof {
        lemma_lists_each_index_covers(order@, paths@.len());
    }
    let mut items: Vec<String> = Vec::new();
    let mut j: usize = 0;
    while j < order.len()
        invariant
            j <= order.len(),
            ns == paths@.map_values(|s: String| s@),
            lists_each_index(order@, paths@.len()),
            forall|a: int, b: int| 0 <= a < b < order@.len() ==> sorts_before(ns, order@[a] as int, order@[b] as int),
            forall|k: int| 0 <= k < paths@.len() ==> offers_path(registrations@, ignore@, #[trigger] paths@[k]@),
            strictly_ascending(items@),
            forall|k: int| 0 <= k < items@.len() ==> offers_path(registrations@, ignore@, #[trigger] items@[k]@),
            forall|t: int| 0 <= t < j ==> lists_path(items@, #[trigger] ns[order@[t] as int]),
            j > 0 ==> items@.len() > 0 && items@[items@.len() - 1]@ == ns[order@[j - 1] as int],
            j == 0 ==> items@.len() == 0,
        decreases order.len() - j,
    {
        let idx = order[j];
        let ghost before = items@;
        let push = items.len() == 0 || !(items[items.len() - 1] == paths[idx]);
        proof {
            assert(ns[idx as int] == paths@[idx as int]@);
        }
        if push {
            items.push(paths[idx].clone());
            proof {
                let l = before.len() as int;
                assert(items@[l]@ == ns[idx as int]);
                if l > 0 {
                    let last = before[l - 1]@;
                    assert(sorts_before(ns, order@[j - 1] as int, order@[j as int] as int));
                    assert(last != ns[idx as int]);
                    assert(chars_less(last, ns[idx as int]));
                }
                assert forall|a: int, b: int| 0 <= a < b < items@.len() implies chars_less(
                    #[trigger] items@[a]@,
                    #[trigger] items@[b]@,
                ) by {
                    if b == l && a < l - 1 {
                        assert(chars_less(before[a]@, before[l - 1]@));
                        lemma_chars_less_transitive(before[a]@, before[l - 1]@, items@[b]@);
                    } else if b < l {
                        assert(items@[a] == before[a]);
                        assert(items@[b] == before[b]);
                    }
                }
                assert forall|k: int| 0 <= k < items@.len() implies offers_path(
                    registrations@,
                    ignore@,
                    #[trigger] items@[k]@,
                ) by {
                    if k < l {
                        assert(items@[k] == before[k]);
                    }
                }
                assert forall|t: int| 0 <= t <= j implies lists_path(items@, #[trigger] ns[order@[t] as int]) by {
                    if t < j {
                        let k = choose|k: int| 0 <= k < before.len() && #[trigger] before[k]@ == ns[order@[t] as int];
                        assert(items@[k] == before[k]);
                    }
                }
            }
        } else {
            proof {
                assert(items@[items@.len() - 1]@ == ns[idx as int]);
            }
        }
        j += 1;
    }
    proof {
        assert forall|p: Seq<char>| #[trigger] lists_path(items@, p) <==> offers_path(registrations@, ignore@, p) by {
            if lists_path(items@, p) {
                let k = choose|k: int| 0 <= k < items@.len() && #[trigger] items@[k]@ == p;
            }
            if offers_path(registrations@, ignore@, p) {
                assert(lists_path(paths@, p));
                let k = choose|k: int| 0 <= k < paths@.len() && #[trigger] paths@[k]@ == p;
                assert(index_occurs(order@, k));
                let t = choose|t: int| 0 <= t < order@.len() && #[trigger] order@[t] == k;
                assert(ns[order@[t] as int] == p);
            }
        }
    }
    AddComponentMenu { search: String::new(), items }
}

/// The order in which the menu shows its items for a search: by descending
/// fuzzy score of each item against the search (no match counting as zero),
/// ties keeping the items' order.
pub fn rank_menu_items(items: &Vec<String>, search: &str) -> (order: Vec<usize>)
    ensures
        is_permutation(order@, items@.len()),
        forall|a: int, b: int| 0 <= a < b < order@.len() ==> ranks_before(
            items@.map_values(|s: String| search_score(s@, search@)),
            order@[a] as int,
            order@[b] as int,
        ),
{
    let mut scores: Vec<i64> = Vec::new();
    let mut i: usize = 0;
    while i < items.len()
        invariant
            i <= items.len(),
            scores@.len() == i,
            forall|k: int| 0 <= k < i ==> #[trigger] scores@[k] == search_score(items@[k]@, search@),
        decreases items.len() - i,
    {
        let score = match fuzzy_match(items[i].as_str(), search) {
            Some(s) => s,
            None => 0,
        };
        scores.push(score);
        i += 1;
    }
    proof {
        assert(scores@ =~= items@.map_values(|s: String| search_score(s@, search@)));
    }
    rank_by_score(&scores)
}

/// What the properties pane shows for a selection.
pub enum PropertiesView {
    /// Nothing is selected, or only items that are not entities.
    Nothing,
    /// Items of several kinds are selected: a line for each kind.
    Summary(Vec<String>),
    /// One entity is selected.
    Entity(u64),
    /// Several entities are selected.
    Entities(Vec<u64>),
}

/// The summary line of a kind: its label, " x" and the number of its selected items.
pub open spec fn summary_line(label: Seq<char>, count: nat) -> Seq<char> {
    label + " x"@ + decimal(count)
}

/// Whether `lines` holds one summary line for each kind of the selection `m`,
/// labelled by `labels`.
pub open spec fn summarizes(lines: Seq<String>, m: Map<u64, Seq<u64>>, labels: Map<u64, Seq<char>>) -> bool {
    exists|kinds: Seq<u64>|
        #![trigger kinds.to_set()]
        kinds.no_duplicates() && kinds.to_set() == m.dom() && kinds.len() == lines.len() && forall|i: int|
            0 <= i < lines.len() ==> #[trigger] lines[i]@ == summary_line(labels[kinds[i]], m[kinds[i]].len())
}

/// Decides what the properties pane shows: a summary where items of several
/// kinds are selected; else the selected entity, or the selected entities.
pub fn properties_view(selection: &SelectionMap) -> (v: PropertiesView)
    requires
        selection.wf(),
    ensures
        selection@.dom().len() > 1 ==> (v matches PropertiesView::Summary(lines) && summarizes(
            lines@,
            selection@,
            selection.labels(),
        )),
        selection@.dom().len() == 1 && selection@.contains_key(ENTITY_SELECTION_KIND) && selection@[ENTITY_SELECTION_KIND].len() == 1
            ==> v == PropertiesView::Entity(selection@[ENTITY_SELECTION_KIND][0]),
        selection@.dom().len() == 1 && selection@.contains_key(ENTITY_SELECTION_KIND) && selection@[ENTITY_SELECTION_KIND].len() != 1
            ==> (v matches PropertiesView::Entities(es) && es@ == selection@[ENTITY_SELECTION_KIND]),
        selection@.dom().len() == 0 || (selection@.dom().len() == 1 && !selection@.contains_key(ENTITY_SELECTION_KIND))
            ==> v == PropertiesView::Nothing,
{
    let ids = selection.type_ids();
    proof {
        ids@.unique_seq_to_set();
    }
    if ids.len() > 1 {
        let groups = selection.iter();
        let mut lines: Vec<String> = Vec::new();
        let mut i: usize = 0;
        while i < groups.len()
            invariant
                i <= groups.len(),
                lines@.len() == i,
                forall|k: int| 0 <= k < i ==> #[trigger] lines@[k]@ == summary_line(
                    groups@[k].label@,
                    groups@[k].items@.len(),
                ),
            decreases groups.len() - i,
        {
            let mut line = groups[i].label.clone();
            line.append(" x");
            let count = decimal_text(groups[i].items.len());
            line.append(count.as_str());
            lines.push(line);
            i += 1;
        }
        proof {
            let kinds = groups@.map_values(|g: SelectionGroup| g.kind);
            assert(kinds.no_duplicates()) by {
                assert forall|a: int, b: int| 0 <= a < kinds.len() && 0 <= b < kinds.len() && a != b implies kinds[a] != kinds[b] by {
                    if a < b {
                        assert(groups@[a].kind != groups@[b].kind);
                    } else {
                        assert(groups@[b].kind != groups@[a].kind);
                    }
                }
            }
            assert(kinds.to_set() =~= selection@.dom()) by {
                assert forall|k: u64| kinds.to_set().contains(k) <==> selection@.dom().contains(k) by {
                    if kinds.to_set().contains(k) {
                        let t = choose|t: int| 0 <= t < kinds.len() && kinds[t] == k;
                        assert(selection@.contains_key(groups@[t].kind));
                    }
                    if selection@.dom().contains(k) {
                        assert(selection@.contains_key(k));
                        let t = choose|t: int| 0 <= t < groups@.len() && groups@[t].kind == k;
                        assert(kinds[t] == k);
                    }
                }
            }
            assert forall|t: int| 0 <= t < lines@.len() implies #[trigger] lines@[t]@ == summary_line(
                selection.labels()[kinds[t]],
                selection@[kinds[t]].len(),
            ) by {
                assert(selection@.contains_key(groups@[t].kind));
            }
            assert(kinds.len() == lines@.len());
        }
        PropertiesView::Summary(lines)
    } else if ids.len() == 1 {
        match selection.of_type() {
            Some(entities) => {
                if entities.len() == 1 {
                    PropertiesView::Entity(entities[0])
                } else {
                    PropertiesView::Entities(entities)
                }
            },
            None => PropertiesView::Nothing,
        }
    } else {
        PropertiesView::Nothing
    }
}

/// The properties pane.
pub struct PropertiesPane;

/// The plugin that sets up the properties pane.
pub struct PropertiesPlugin;

/// The listed components split into tags (no data, shown as chips) and the
/// others (shown with their values), each by index and in listing order.
pub fn split_tags(data: &Vec<ComponentData>) -> (r: (Vec<usize>, Vec<usize>))
    ensures
        r.0@ == Seq::new(data@.len() as nat, |i: int| i as usize).filter(|i: usize| data@[i as int].size == 0),
        r.1@ == Seq::new(data@.len() as nat, |i: int| i as usize).filter(|i: usize| data@[i as int].size != 0),
{
    let ghost all = Seq::new(data@.len() as nat, |i: int| i as usize);
    let mut tags: Vec<usize> = Vec::new();
    let mut others: Vec<usize> = Vec::new();
    let mut i: usize = 0;
    while i < data.len()
        invariant
            i <= data.len(),
            all == Seq::new(data@.len() as nat, |i: int| i as usize),
            tags@ == all.take(i as int).filter(|k: usize| data@[k as int].size == 0),
            others@ == all.take(i as int).filter(|k: usize| data@[k as int].size != 0),
        decreases data.len() - i,
    {
        proof {
            assert(all.take(i + 1).drop_last() =~= all.take(i as int));
            assert(all.take(i + 1).last() == i);
            reveal_with_fuel(Seq::filter, 1);
        }
        if data[i].size == 0 {
            tags.push(i);
        } else {
            others.push(i);
        }
        i += 1;
    }
    proof {
        assert(all.take(data@.len() as int) =~= all);
    }
    (tags, others)
}

} // verus!
