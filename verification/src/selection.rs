//! The editor's selection: for each kind of selectable item, the items that are
//! currently selected, most recently selected last.
use vstd::prelude::*;

use crate::keys::{lemma_index_of_unique, position_of};

verus! {

/// An item that can be selected, identified by the key of its kind and its own key.
///
/// The kind key stands for the item's type, the item key for its value (for an
/// entity, its bits).
pub trait SelectionItem: Clone {
    /// The key of this kind of item.
    spec fn kind_key() -> u64;

    /// The key of this item within its kind.
    spec fn key_of(&self) -> u64;

    /// The label under which items of this kind are listed.
    spec fn label_of() -> Seq<char>;

    fn kind() -> (k: u64)
        ensures
            k == Self::kind_key(),
    ;

    fn key(&self) -> (k: u64)
        ensures
            k == self.key_of(),
    ;

    fn label() -> (l: String)
        ensures
            l@ == Self::label_of(),
    ;
}

/// A selected item that can be compared with an item of any kind: items of
/// different kinds are not comparable.
pub trait SelectedItem {
    fn eq_item(&self, other_kind: u64, other_key: u64) -> (r: Option<bool>);
}

impl<S: SelectionItem> SelectedItem for S {
    fn eq_item(&self, other_kind: u64, other_key: u64) -> (r: Option<bool>)
        ensures
            r == (if other_kind != S::kind_key() {
                None::<bool>
            } else {
                Some(self.key_of() == other_key)
            }),
    {
        if other_kind != S::kind() {
            None
        } else {
            Some(self.key() == other_key)
        }
    }
}

/// The items of one kind that are selected, with the label of that kind.
pub struct SelectionGroup {
    pub kind: u64,
    pub label: String,
    pub items: Vec<u64>,
}

/// What a group of selected items tells about itself.
pub trait SelectionItems {
    fn label(&self) -> (l: &str);

    fn len(&self) -> (n: usize);
}

impl SelectionItems for SelectionGroup {
    fn label(&self) -> (l: &str)
        ensures
            l@ == self.label@,
    {
        self.label.as_str()
    }

    fn len(&self) -> (n: usize)
        ensures
            n == self.items.len(),
    {
        self.items.len()
    }
}

/// An entity that is selected.
#[derive(Clone, Copy, PartialEq, Eq, Structural)]
pub struct EntitySelection {
    pub entity: u64,
}

/// The key of the entity kind among selectable kinds.
pub const ENTITY_SELECTION_KIND: u64 = 0;

impl EntitySelection {
    pub fn new(entity: u64) -> (s: Self)
        ensures
            s.entity == entity,
    {
        EntitySelection { entity }
    }
}

impl SelectionItem for EntitySelection {
    open spec fn kind_key() -> u64 {
        ENTITY_SELECTION_KIND
    }

    open spec fn key_of(&self) -> u64 {
        self.entity
    }

    closed spec fn label_of() -> Seq<char> {
        "Entity"@
    }

    fn kind() -> (k: u64) {
        ENTITY_SELECTION_KIND
    }

    fn key(&self) -> (k: u64) {
        self.entity
    }

    fn label() -> (l: String) {
        let l = "Entity".to_string();
        l
    }
}

/// Removes the element at `i` by moving the last element into its place.
pub open spec fn swap_removed(s: Seq<u64>, i: int) -> Seq<u64> {
    s.update(i, s.last()).drop_last()
}

/// The sequence after selecting `item`: it ends up last, and where it was
/// already present its old place is taken by the former last element.
pub open spec fn selected_after(s: Seq<u64>, item: u64) -> Seq<u64> {
    if s.contains(item) {
        swap_removed(s, s.index_of(item)).push(item)
    } else {
        s.push(item)
    }
}

/// The sequence after deselecting `item`: its first occurrence is removed.
pub open spec fn deselected_after(s: Seq<u64>, item: u64) -> Seq<u64> {
    if s.contains(item) {
        s.remove(s.index_of(item))
    } else {
        s
    }
}

/// The selection after selecting `item` of kind `kind`.
pub open spec fn view_after_select(m: Map<u64, Seq<u64>>, kind: u64, item: u64) -> Map<u64, Seq<u64>> {
    m.insert(
        kind,
        if m.contains_key(kind) {
            selected_after(m[kind], item)
        } else {
            seq![item]
        },
    )
}

/// The selection after deselecting `item` of kind `kind`: a kind whose last
/// item goes is dropped.
pub open spec fn view_after_deselect(m: Map<u64, Seq<u64>>, kind: u64, item: u64) -> Map<u64, Seq<u64>> {
    if !m.contains_key(kind) || !m[kind].contains(item) {
        m
    } else if m[kind].len() == 1 {
        m.remove(kind)
    } else {
        m.insert(kind, deselected_after(m[kind], item))
    }
}

/// Whether `item` of kind `kind` is selected in `m`.
pub open spec fn view_contains(m: Map<u64, Seq<u64>>, kind: u64, item: u64) -> bool {
    m.contains_key(kind) && m[kind].contains(item)
}

pub struct SelectionMap {
    groups: Vec<SelectionGroup>,
}

impl SelectionMap {
    /// The selected items of each kind.
    pub closed spec fn view(&self) -> Map<u64, Seq<u64>> {
        Map::new(
            |k: u64| exists|i: int| 0 <= i < self.groups.len() && self.groups[i].kind == k,
            |k: u64| self.groups[self.group_index(k)].items@,
        )
    }

    /// The label of each kind that has a selection.
    pub closed spec fn labels(&self) -> Map<u64, Seq<char>> {
        Map::new(
            |k: u64| exists|i: int| 0 <= i < self.groups.len() && self.groups[i].kind == k,
            |k: u64| self.groups[self.group_index(k)].label@,
        )
    }

    closed spec fn group_index(&self, k: u64) -> int {
        choose|i: int| 0 <= i < self.groups.len() && self.groups[i].kind == k
    }

    /// No kind is listed twice, no kind is listed without items, and no item
    /// is listed twice within its kind.
    pub closed spec fn wf(&self) -> bool {
        &&& forall|i: int, j: int|
            0 <= i < j < self.groups.len() ==> self.groups[i].kind != self.groups[j].kind
        &&& forall|i: int| 0 <= i < self.groups.len() ==> self.groups[i].items.len() > 0
        &&& forall|i: int| 0 <= i < self.groups.len() ==> self.groups[i].items@.no_duplicates()
    }

    proof fn lemma_group_index(&self, i: int)
        requires
            self.wf(),
            0 <= i < self.groups.len(),
        ensures
            self.view().contains_key(self.groups[i].kind),
            self.group_index(self.groups[i].kind) == i,
            self.view()[self.groups[i].kind] == self.groups[i].items@,
            self.labels()[self.groups[i].kind] == self.groups[i].label@,
    {
        let k = self.groups[i].kind;
        assert(exists|j: int| 0 <= j < self.groups.len() && self.groups[j].kind == k);
        let j = self.group_index(k);
        if j != i {
            if j < i {
                assert(self.groups[j].kind != self.groups[i].kind);
            } else {
                assert(self.groups[i].kind != self.groups[j].kind);
            }
        }
    }

    /// Every selection that `wf` admits lists each kind with its items, and
    /// has a label for exactly the kinds it lists.
    pub proof fn lemma_wf_view(&self)
        requires
            self.wf(),
        ensures
            forall|k: u64| #[trigger] self.view().contains_key(k) ==> self.view()[k].len() > 0
                && self.view()[k].no_duplicates(),
            self.labels().dom() == self.view().dom(),
    {
        assert(self.labels().dom() =~= self.view().dom());
        assert forall|k: u64| #[trigger] self.view().contains_key(k) implies self.view()[k].len()
            > 0 && self.view()[k].no_duplicates() by {
            let i = choose|i: int| 0 <= i < self.groups.len() && self.groups[i].kind == k;
            self.lemma_group_index(i);
        }
    }

    pub fn new() -> (m: Self)
        ensures
            m.wf(),
            m.view() == Map::<u64, Seq<u64>>::empty(),
    {
        let m = SelectionMap { groups: Vec::new() };
        assert(m.view() =~= Map::<u64, Seq<u64>>::empty());
        m
    }

    fn find_group(&self, kind: u64) -> (r: Option<usize>)
        requires
            self.wf(),
        ensures
            match r {
                Some(i) => i < self.groups.len() && self.groups[i as int].kind == kind,
                None => !self.view().contains_key(kind),
            },
    {
        let mut i: usize = 0;
        while i < self.groups.len()
            invariant
                i <= self.groups.len(),
                forall|j: int| 0 <= j < i ==> self.groups[j].kind != kind,
            decreases self.groups.len() - i,
        {
            if self.groups[i].kind == kind {
                return Some(i);
            }
            i += 1;
        }
        None
    }

    /// Deselects everything.
    pub fn clear(&mut self)
        ensures
            final(self).wf(),
            final(self).view() == Map::<u64, Seq<u64>>::empty(),
    {
        self.groups.clear();
        assert(self.view() =~= Map::<u64, Seq<u64>>::empty());
    }

    /// Whether `item` of kind `kind` is selected.
    pub fn is_selected_key(&self, kind: u64, item: u64) -> (r: bool)
        requires
            self.wf(),
        ensures
            r == view_contains(self.view(), kind, item),
    {
        match self.find_group(kind) {
            None => false,
            Some(g) => {
                proof {
                    self.lemma_group_index(g as int);
                }
                let r = position_of(&self.groups[g].items, item);
                proof {
                    if let Some(p) = r {
                        assert(self.groups[g as int].items@[p as int] == item);
                    }
                }
                r.is_some()
            },
        }
    }

    /// Whether `item` is selected.
    pub fn is_selected<S: SelectionItem>(&self, item: &S) -> (r: bool)
        requires
            self.wf(),
        ensures
            r == view_contains(self.view(), S::kind_key(), item.key_of()),
    {
        self.is_selected_key(S::kind(), item.key())
    }

    /// The kinds that have a selection.
    pub fn type_ids(&self) -> (ids: Vec<u64>)
        requires
            self.wf(),
        ensures
            ids@.to_set() == self.view().dom(),
            ids@.no_duplicates(),
    {
        let mut ids: Vec<u64> = Vec::new();
        let mut i: usize = 0;
        while i < self.groups.len()
            invariant
                i <= self.groups.len(),
                self.wf(),
                ids@.len() == i,
                forall|j: int| 0 <= j < i ==> ids@[j] == self.groups[j].kind,
            decreases self.groups.len() - i,
        {
            ids.push(self.groups[i].kind);
            i += 1;
        }
        proof {
            assert forall|k: u64| ids@.to_set().contains(k) <==> self.view().dom().contains(k) by {
                if ids@.to_set().contains(k) {
                    let j = choose|j: int| 0 <= j < ids@.len() && ids@[j] == k;
                    assert(self.groups[j].kind == k);
                }
                if self.view().dom().contains(k) {
                    let j = choose|j: int| 0 <= j < self.groups.len() && self.groups[j].kind == k;
                    assert(ids@[j] == k);
                }
            }
            assert(ids@.to_set() =~= self.view().dom());
        }
        ids
    }

    /// Selects `item` of kind `kind`, listed under `label` when its kind had
    /// no selection before; the item becomes the most recently selected one.
    pub fn select_key(&mut self, kind: u64, label: &str, item: u64)
        requires
            old(self).wf(),
        ensures
            final(self).wf(),
            final(self).view() == view_after_select(old(self).view(), kind, item),
            final(self).labels() == if old(self).labels().contains_key(kind) {
                old(self).labels()
            } else {
                old(self).labels().insert(kind, label@)
            },
    {
        let ghost old_map = *self;
        match self.find_group(kind) {
            None => {
                let mut items: Vec<u64> = Vec::new();
                items.push(item);
                let group = SelectionGroup { kind, label: label.to_string(), items };
                self.groups.push(group);
                proof {
                    let n = old_map.groups.len() as int;
                    assert(self.groups[n].items@ =~= seq![item]);
                    assert forall|i: int, j: int|
                        0 <= i < j < self.groups.len() implies self.groups[i].kind
                        != self.groups[j].kind by {
                        if j == n {
                            assert(old_map.groups[i].kind != kind) by {
                                if old_map.groups[i].kind == kind {
                                    assert(old_map.view().contains_key(kind));
                                }
                            }
                        } else {
                            assert(old_map.groups[i].kind != old_map.groups[j].kind);
                        }
                    }
                    assert forall|i: int|
                        0 <= i < self.groups.len() implies self.groups[i].items@.no_duplicates()
                        && self.groups[i].items.len() > 0 by {
                        if i < n {
                            assert(self.groups[i] == old_map.groups[i]);
                        }
                    }
                    self.lemma_view_after_push(old_map, kind);
                }
            },
            Some(g) => {
                proof {
                    old_map.lemma_group_index(g as int);
                }
                let mut group = self.groups.remove(g);
                let ghost old_items = group.items@;
                match position_of(&group.items, item) {
                    Some(pos) => {
                        proof {
                            lemma_index_of_unique(old_items, item, pos as int);
                        }
                        group.items.swap_remove(pos);
                    },
                    None => {},
                }
                group.items.push(item);
                proof {
                    lemma_selected_after(old_items, item);
                }
                self.groups.insert(g, group);
                proof {
                    self.lemma_view_after_replace(old_map, g as int);
                }
            },
        }
    }

    /// Selects `item`; it becomes the most recently selected item of its kind.
    pub fn select<S: SelectionItem>(&mut self, item: S)
        requires
            old(self).wf(),
        ensures
            final(self).wf(),
            final(self).view() == view_after_select(old(self).view(), S::kind_key(), item.key_of()),
            final(self).labels() == if old(self).labels().contains_key(S::kind_key()) {
                old(self).labels()
            } else {
                old(self).labels().insert(S::kind_key(), S::label_of())
            },
    {
        let label = S::label();
        self.select_key(S::kind(), label.as_str(), item.key());
    }

    /// Deselects `item` of kind `kind`; a kind left without items is dropped.
    pub fn deselect_key(&mut self, kind: u64, item: u64)
        requires
            old(self).wf(),
        ensures
            final(self).wf(),
            final(self).view() == view_after_deselect(old(self).view(), kind, item),
            final(self).view().contains_key(kind) ==> final(self).view()[kind] == old(self).view()[kind].filter(
                other_than(item),
            ),
            final(self).labels() == if final(self).view().contains_key(kind) {
                old(self).labels()
            } else {
                old(self).labels().remove(kind)
            },
    {
        proof {
            self.lemma_wf_view();
            if self.view().contains_key(kind) {
                law_deselect_keeps_order(self.view()[kind], item);
            }
        }
        let ghost old_map = *self;
        let g = match self.find_group(kind) {
            None => {
                return;
            },
            Some(g) => g,
        };
        proof {
            old_map.lemma_group_index(g as int);
        }
        let pos = match position_of(&self.groups[g].items, item) {
            None => {
                return;
            },
            Some(p) => p,
        };
        let ghost old_items = old_map.groups[g as int].items@;
        proof {
            lemma_index_of_unique(old_items, item, pos as int);
        }
        let mut group = self.groups.remove(g);
        group.items.remove(pos);
        if group.items.len() == 0 {
            proof {
                self.lemma_view_after_remove(old_map, g as int);
            }
        } else {
            proof {
                assert(group.items@ == old_items.remove(pos as int));
                assert forall|a: int, b: int| 0 <= a < b < group.items@.len() implies group.items@[a]
                    != group.items@[b] by {
                    let a2 = if a < pos { a } else { a + 1 };
                    let b2 = if b < pos { b } else { b + 1 };
                    assert(group.items@[a] == old_items[a2]);
                    assert(group.items@[b] == old_items[b2]);
                }
            }
            self.groups.insert(g, group);
            proof {
                self.lemma_view_after_replace(old_map, g as int);
            }
        }
    }

    /// Deselects `item`; a kind left without items is dropped.
    pub fn deselect<S: SelectionItem>(&mut self, item: &S)
        requires
            old(self).wf(),
        ensures
            final(self).wf(),
            final(self).view() == view_after_deselect(old(self).view(), S::kind_key(), item.key_of()),
            final(self).view().contains_key(S::kind_key()) ==> final(self).view()[S::kind_key()]
                == old(self).view()[S::kind_key()].filter(other_than(item.key_of())),
            final(self).labels() == if final(self).view().contains_key(S::kind_key()) {
                old(self).labels()
            } else {
                old(self).labels().remove(S::kind_key())
            },
    {
        self.deselect_key(S::kind(), item.key());
    }

    /// The selected items of kind `kind`, in the order of their selection.
    pub fn of_type_key(&self, kind: u64) -> (r: Option<Vec<u64>>)
        requires
            self.wf(),
        ensures
            match r {
                Some(items) => self.view().contains_key(kind) && items@ == self.view()[kind],
                None => !self.view().contains_key(kind),
            },
    {
        match self.find_group(kind) {
            None => None,
            Some(g) => {
                proof {
                    self.lemma_group_index(g as int);
                }
                Some(self.groups[g].items.clone())
            },
        }
    }

    /// The selected entities, in the order of their selection.
    pub fn of_type(&self) -> (r: Option<Vec<u64>>)
        requires
            self.wf(),
        ensures
            match r {
                Some(items) => self.view().contains_key(ENTITY_SELECTION_KIND) && items@
                    == self.view()[ENTITY_SELECTION_KIND],
                None => !self.view().contains_key(ENTITY_SELECTION_KIND),
            },
    {
        self.of_type_key(ENTITY_SELECTION_KIND)
    }

    /// The group of kind `kind`, if it has a selection.
    pub fn of_type_id(&self, kind: u64) -> (r: Option<&SelectionGroup>)
        requires
            self.wf(),
        ensures
            match r {
                Some(group) => self.view().contains_key(kind) && group.kind == kind
                    && group.items@ == self.view()[kind] && group.label@ == self.labels()[kind],
                None => !self.view().contains_key(kind),
            },
    {
        match self.find_group(kind) {
            None => None,
            Some(g) => {
                proof {
                    self.lemma_group_index(g as int);
                }
                Some(&self.groups[g])
            },
        }
    }

    /// All groups, one for each kind that has a selection.
    pub fn iter(&self) -> (groups: &Vec<SelectionGroup>)
        requires
            self.wf(),
        ensures
            forall|i: int| 0 <= i < groups.len() ==> #[trigger] self.view().contains_key(groups[i].kind)
                && self.view()[groups[i].kind] == groups[i].items@ && self.labels()[groups[i].kind]
                == groups[i].label@,
            forall|k: u64| #[trigger] self.view().contains_key(k) ==> exists|i: int|
                0 <= i < groups.len() && groups[i].kind == k,
            forall|i: int, j: int| 0 <= i < j < groups.len() ==> groups[i].kind != groups[j].kind,
    {
        proof {
            assert forall|i: int| 0 <= i < self.groups.len() implies #[trigger] self.view().contains_key(
                self.groups[i].kind,
            ) && self.view()[self.groups[i].kind] == self.groups[i].items@
                && self.labels()[self.groups[i].kind] == self.groups[i].label@ by {
                self.lemma_group_index(i);
            }
        }
        &self.groups
    }

    proof fn lemma_view_after_remove(&self, old_map: SelectionMap, g: int)
        requires
            old_map.wf(),
            0 <= g < old_map.groups.len(),
            self.groups@ == old_map.groups@.remove(g),
        ensures
            self.wf(),
            self.view() == old_map.view().remove(old_map.groups[g].kind),
            self.labels() == old_map.labels().remove(old_map.groups[g].kind),
    {
        let kind = old_map.groups[g].kind;
        assert forall|i: int, j: int|
            0 <= i < j < self.groups.len() implies self.groups[i].kind != self.groups[j].kind by {
            let i2 = if i < g { i } else { i + 1 };
            let j2 = if j < g { j } else { j + 1 };
            assert(self.groups[i] == old_map.groups[i2]);
            assert(self.groups[j] == old_map.groups[j2]);
        }
        assert forall|i: int| 0 <= i < self.groups.len() implies self.groups[i].items@.no_duplicates()
            && self.groups[i].items.len() > 0 by {
            let i2 = if i < g { i } else { i + 1 };
            assert(self.groups[i] == old_map.groups[i2]);
        }
        assert forall|k: u64| #[trigger] self.view().contains_key(k) <==> old_map.view().remove(
            kind,
        ).contains_key(k) by {
            if self.view().contains_key(k) {
                let i = choose|i: int| 0 <= i < self.groups.len() && self.groups[i].kind == k;
                let i2 = if i < g { i } else { i + 1 };
                assert(old_map.groups[i2].kind == k);
                assert(i2 != g) by {
                    if i2 == g {
                        assert(self.groups[i] == old_map.groups[i2]);
                    }
                }
                if k == kind {
                    assert(old_map.groups[i2].kind == old_map.groups[g].kind);
                    if i2 < g {
                        assert(old_map.groups[i2].kind != old_map.groups[g].kind);
                    } else {
                        assert(old_map.groups[g].kind != old_map.groups[i2].kind);
                    }
                }
            }
            if old_map.view().contains_key(k) && k != kind {
                let i = choose|i: int| 0 <= i < old_map.groups.len() && old_map.groups[i].kind == k;
                assert(i != g);
                let i3 = if i < g { i } else { i - 1 };
                assert(self.groups[i3] == old_map.groups[i]);
            }
        }
        assert forall|k: u64| #[trigger] self.view().contains_key(k) implies self.view()[k]
            == old_map.view()[k] && self.labels()[k] == old_map.labels()[k] by {
            let i = choose|i: int| 0 <= i < self.groups.len() && self.groups[i].kind == k;
            let i2 = if i < g { i } else { i + 1 };
            assert(self.groups[i] == old_map.groups[i2]);
            self.lemma_group_index(i);
            old_map.lemma_group_index(i2);
        }
        assert(self.view() =~= old_map.view().remove(kind));
        assert(self.labels() =~= old_map.labels().remove(kind));
    }

    proof fn lemma_view_after_push(&self, old_map: SelectionMap, kind: u64)
        requires
            old_map.wf(),
            self.wf(),
            self.groups@ == old_map.groups@.push(self.groups@.last()),
            self.groups@.last().kind == kind,
            !old_map.view().contains_key(kind),
        ensures
            self.view() == old_map.view().insert(kind, self.groups@.last().items@),
            self.labels() == old_map.labels().insert(kind, self.groups@.last().label@),
    {
        let n = old_map.groups.len() as int;
        self.lemma_group_index(n);
        assert forall|k: u64| #[trigger] self.view().contains_key(k) <==> old_map.view().insert(
            kind,
            self.groups@.last().items@,
        ).contains_key(k) by {
            if self.view().contains_key(k) && k != kind {
                let i = choose|i: int| 0 <= i < self.groups.len() && self.groups[i].kind == k;
                assert(i < n);
                assert(old_map.groups[i].kind == k);
            }
            if old_map.view().contains_key(k) {
                let i = choose|i: int| 0 <= i < old_map.groups.len() && old_map.groups[i].kind == k;
                assert(self.groups[i].kind == k);
            }
        }
        assert forall|k: u64| #[trigger] self.view().contains_key(k) implies self.view()[k]
            == old_map.view().insert(kind, self.groups@.last().items@)[k] && self.labels()[k]
            == old_map.labels().insert(kind, self.groups@.last().label@)[k] by {
            if k != kind {
                let i = choose|i: int| 0 <= i < self.groups.len() && self.groups[i].kind == k;
                assert(i < n);
                self.lemma_group_index(i);
                old_map.lemma_group_index(i);
            }
        }
        assert(self.view() =~= old_map.view().insert(kind, self.groups@.last().items@));
        assert(self.labels() =~= old_map.labels().insert(kind, self.groups@.last().label@));
    }

    proof fn lemma_view_after_replace(&self, old_map: SelectionMap, g: int)
        requires
            old_map.wf(),
            0 <= g < old_map.groups.len(),
            self.groups.len() == old_map.groups.len(),
            forall|i: int| 0 <= i < self.groups.len() && i != g ==> self.groups[i] == old_map.groups[i],
            self.groups[g].kind == old_map.groups[g].kind,
            self.groups[g].label == old_map.groups[g].label,
            self.groups[g].items.len() > 0,
            self.groups[g].items@.no_duplicates(),
        ensures
            self.wf(),
            self.view() == old_map.view().insert(self.groups[g].kind, self.groups[g].items@),
            self.labels() == old_map.labels(),
    {
        let kind = self.groups[g].kind;
        assert forall|i: int, j: int|
            0 <= i < j < self.groups.len() implies self.groups[i].kind != self.groups[j].kind by {
            assert(old_map.groups[i].kind != old_map.groups[j].kind);
        }
        assert forall|i: int| 0 <= i < self.groups.len() implies self.groups[i].items@.no_duplicates()
            && self.groups[i].items.len() > 0 by {
            if i != g {
                assert(self.groups[i] == old_map.groups[i]);
            }
        }
        assert forall|k: u64| #[trigger] self.view().contains_key(k) <==> old_map.view().contains_key(k) by {
            if self.view().contains_key(k) {
                let i = choose|i: int| 0 <= i < self.groups.len() && self.groups[i].kind == k;
                assert(old_map.groups[i].kind == k);
            }
            if old_map.view().contains_key(k) {
                let i = choose|i: int| 0 <= i < old_map.groups.len() && old_map.groups[i].kind == k;
                assert(self.groups[i].kind == k);
            }
        }
        old_map.lemma_group_index(g);
        assert forall|k: u64| #[trigger] self.view().contains_key(k) implies self.view()[k]
            == old_map.view().insert(kind, self.groups[g].items@)[k] && self.labels()[k]
            == old_map.labels()[k] by {
            let i = choose|i: int| 0 <= i < self.groups.len() && self.groups[i].kind == k;
            self.lemma_group_index(i);
            old_map.lemma_group_index(i);
        }
        assert(self.view() =~= old_map.view().insert(kind, self.groups[g].items@));
        assert(self.labels() =~= old_map.labels());
    }
}

proof fn lemma_selected_after(s: Seq<u64>, item: u64)
    requires
        s.no_duplicates(),
    ensures
        selected_after(s, item).no_duplicates(),
        selected_after(s, item).len() > 0,
{
    let r = selected_after(s, item);
    if s.contains(item) {
        let p = s.index_of(item);
        s.index_of_first_ensures(item);
        let t = swap_removed(s, p);
        assert(!t.contains(item)) by {
            if t.contains(item) {
                let q = choose|q: int| 0 <= q < t.len() && t[q] == item;
                if q == p {
                    assert(s[s.len() - 1] == item);
                } else {
                    assert(s[q] == item);
                }
            }
        }
        assert forall|a: int, b: int| 0 <= a < b < t.len() implies t[a] != t[b] by {
            let a2 = if a == p { s.len() - 1 } else { a };
            let b2 = if b == p { s.len() - 1 } else { b };
            assert(t[a] == s[a2]);
            assert(t[b] == s[b2]);
        }
        assert forall|a: int, b: int| 0 <= a < b < r.len() implies r[a] != r[b] by {
            if b == r.len() - 1 {
                assert(r[b] == item);
                assert(r[a] == t[a]);
            } else {
                assert(r[a] == t[a]);
                assert(r[b] == t[b]);
            }
        }
    } else {
        assert forall|a: int, b: int| 0 <= a < b < r.len() implies r[a] != r[b] by {
            if b == r.len() - 1 {
                assert(r[a] == s[a]);
            } else {
                assert(r[a] == s[a]);
                assert(r[b] == s[b]);
            }
        }
    }
}


/// Once an item is selected, it is selected.
pub proof fn law_selected_after_select(m: Map<u64, Seq<u64>>, kind: u64, item: u64)
    ensures
        view_contains(view_after_select(m, kind, item), kind, item),
{
    let r = view_after_select(m, kind, item);
    assert(r[kind].last() == item);
    assert(r[kind][r[kind].len() - 1] == item);
}

/// Once an item is deselected, it is no longer selected.
pub proof fn law_not_selected_after_deselect(m: Map<u64, Seq<u64>>, kind: u64, item: u64)
    requires
        m.contains_key(kind) ==> m[kind].no_duplicates(),
    ensures
        !view_contains(view_after_deselect(m, kind, item), kind, item),
{
    if view_contains(m, kind, item) && m[kind].len() != 1 {
        let s = m[kind];
        let p = s.index_of(item);
        let t = s.remove(p);
        if t.contains(item) {
            let q = choose|q: int| 0 <= q < t.len() && t[q] == item;
            let q2 = if q < p { q } else { q + 1 };
            assert(s[q2] == item);
            assert(q2 != p);
            if q2 < p {
                assert(s[q2] != s[p]);
            } else {
                assert(s[p] != s[q2]);
            }
        }
    }
}

/// Selecting an item that was not selected and then deselecting it gives back
/// the selection as it was.
pub proof fn law_select_then_deselect_restores(m: Map<u64, Seq<u64>>, kind: u64, item: u64)
    requires
        !view_contains(m, kind, item),
        m.contains_key(kind) ==> m[kind].len() > 0,
    ensures
        view_after_deselect(view_after_select(m, kind, item), kind, item) == m,
{
    let r = view_after_select(m, kind, item);
    if m.contains_key(kind) {
        let s = m[kind];
        let t = s.push(item);
        assert(r[kind] == t);
        assert(t[s.len() as int] == item);
        let p = t.index_of(item);
        assert(p == s.len()) by {
            if p != s.len() {
                assert(s[p] == item);
            }
        }
        assert(t.remove(p) =~= s);
        assert(view_after_deselect(r, kind, item) =~= m);
    } else {
        assert(r[kind] == seq![item]);
        assert(r[kind][0] == item);
        assert(view_after_deselect(r, kind, item) =~= m);
    }
}

/// Selecting an item that was not selected and then deselecting it gives back
/// the labels as they were: a kind that the selection did not list loses the
/// label that selecting gave it, and the other labels never change.
pub proof fn law_select_then_deselect_keeps_labels(
    m: Map<u64, Seq<u64>>,
    labels: Map<u64, Seq<char>>,
    kind: u64,
    label: Seq<char>,
    item: u64,
)
    requires
        !view_contains(m, kind, item),
        m.contains_key(kind) ==> m[kind].len() > 0,
        labels.dom() == m.dom(),
    ensures
        ({
            let selected = view_after_select(m, kind, item);
            let labels_selected = if labels.contains_key(kind) {
                labels
            } else {
                labels.insert(kind, label)
            };
            let deselected = view_after_deselect(selected, kind, item);
            let labels_deselected = if deselected.contains_key(kind) {
                labels_selected
            } else {
                labels_selected.remove(kind)
            };
            labels_deselected == labels
        }),
{
    law_select_then_deselect_restores(m, kind, item);
    let labels_selected = if labels.contains_key(kind) {
        labels
    } else {
        labels.insert(kind, label)
    };
    if !m.contains_key(kind) {
        assert(labels_selected.remove(kind) =~= labels);
    }
}

/// The items other than `x`.
pub open spec fn other_than(x: u64) -> spec_fn(u64) -> bool {
    |y: u64| y != x
}

proof fn lemma_filter_without(s: Seq<u64>, x: u64)
    requires
        !s.contains(x),
    ensures
        s.filter(other_than(x)) == s,
    decreases s.len(),
{
    reveal(Seq::filter);
    if s.len() > 0 {
        assert(!s.drop_last().contains(x)) by {
            if s.drop_last().contains(x) {
                let j = choose|j: int| 0 <= j < s.drop_last().len() && s.drop_last()[j] == x;
                assert(s[j] == x);
            }
        }
        lemma_filter_without(s.drop_last(), x);
        assert(s.last() != x) by {
            if s.last() == x {
                assert(s[s.len() - 1] == x);
            }
        }
        assert(s.drop_last().push(s.last()) =~= s);
    }
}

/// Deselecting keeps the other items in the order of their selection: what
/// is left is the selection with the deselected item taken out.
pub proof fn law_deselect_keeps_order(s: Seq<u64>, x: u64)
    requires
        s.no_duplicates(),
    ensures
        deselected_after(s, x) == s.filter(other_than(x)),
{
    if s.contains(x) {
        let p = choose|p: int| 0 <= p < s.len() && s[p] == x;
        lemma_index_of_unique(s, x, p);
        let a = s.subrange(0, p);
        let b = s.subrange(p + 1, s.len() as int);
        assert(s =~= a + seq![x] + b);
        assert(!a.contains(x)) by {
            if a.contains(x) {
                let j = choose|j: int| 0 <= j < a.len() && a[j] == x;
                assert(s[j] == s[p]);
            }
        }
        assert(!b.contains(x)) by {
            if b.contains(x) {
                let j = choose|j: int| 0 <= j < b.len() && b[j] == x;
                assert(s[p + 1 + j] == s[p]);
            }
        }
        lemma_filter_without(a, x);
        lemma_filter_without(b, x);
        Seq::filter_distributes_over_add(a + seq![x], b, other_than(x));
        Seq::filter_distributes_over_add(a, seq![x], other_than(x));
        assert(seq![x].filter(other_than(x)) =~= Seq::<u64>::empty()) by {
            reveal(Seq::filter);
            let one = seq![x];
            assert(one.drop_last() =~= Seq::<u64>::empty());
            assert(Seq::<u64>::empty().filter(other_than(x)) == Seq::<u64>::empty());
            assert(one.last() == x);
            assert(!(other_than(x))(x));
            assert(one.filter(other_than(x)) == one.drop_last().filter(other_than(x)));
        }
        assert(s.remove(p) =~= a + b);
        assert(a + Seq::<u64>::empty() =~= a);
    } else {
        lemma_filter_without(s, x);
    }
}

/// Selecting the same item twice is selecting it once.
pub proof fn law_select_idempotent(m: Map<u64, Seq<u64>>, kind: u64, item: u64)
    requires
        m.contains_key(kind) ==> m[kind].no_duplicates(),
    ensures
        view_after_select(view_after_select(m, kind, item), kind, item) == view_after_select(
            m,
            kind,
            item,
        ),
{
    let r = view_after_select(m, kind, item);
    let t = r[kind];
    if m.contains_key(kind) {
        lemma_selected_after(m[kind], item);
    } else {
        assert(t.no_duplicates());
    }
    assert(t.len() > 0);
    assert(t[t.len() - 1] == item);
    lemma_index_of_unique(t, item, t.len() - 1);
    assert(swap_removed(t, t.len() - 1).push(item) =~= t);
    assert(view_after_select(r, kind, item) =~= r);
}

/// Selecting an item of one kind leaves the selection of every other kind as it was.
pub proof fn law_select_keeps_other_kinds(
    m: Map<u64, Seq<u64>>,
    kind: u64,
    other: u64,
    item: u64,
)
    requires
        kind != other,
    ensures
        view_after_select(m, kind, item).contains_key(other) == m.contains_key(other),
        m.contains_key(other) ==> view_after_select(m, kind, item)[other] == m[other],
        view_after_deselect(m, kind, item).contains_key(other) == m.contains_key(other),
        m.contains_key(other) ==> view_after_deselect(m, kind, item)[other] == m[other],
{
}

/// Whether `x` is one of `xs`.
pub open spec fn listed(xs: Seq<u64>, x: u64) -> bool {
    xs.contains(x)
}

fn contains_key(xs: &Vec<u64>, x: u64) -> (r: bool)
    ensures
        r == xs@.contains(x),
{
    position_of(xs, x).is_some()
}

/// How the `Selected` marker is brought in line with the selection: the
/// marked entities that are not selected lose it, the selected entities that
/// are not marked get it, each in its order.
pub fn mark_entities(map: &SelectionMap, marked: &Vec<u64>) -> (r: (Vec<u64>, Vec<u64>))
    requires
        map.wf(),
    ensures
        r.0@ == marked@.filter(|e: u64| !selected_entities_of(map@).contains(e)),
        r.1@ == selected_entities_of(map@).filter(|e: u64| !marked@.contains(e)),
{
    let selected = match map.of_type() {
        Some(items) => items,
        None => Vec::new(),
    };
    let mut unmark: Vec<u64> = Vec::new();
    let mut i: usize = 0;
    while i < marked.len()
        invariant
            i <= marked.len(),
            selected@ == selected_entities_of(map@),
            unmark@ == marked@.take(i as int).filter(|e: u64| !selected@.contains(e)),
        decreases marked.len() - i,
    {
        proof {
            assert(marked@.take(i + 1).drop_last() =~= marked@.take(i as int));
            reveal_with_fuel(Seq::filter, 1);
        }
        let e = marked[i];
        if !contains_key(&selected, e) {
            unmark.push(e);
        }
        proof {
            assert(marked@.take(i + 1).last() == e);
        }
        i += 1;
    }
    proof {
        assert(marked@.take(marked@.len() as int) =~= marked@);
    }
    let mut mark: Vec<u64> = Vec::new();
    let mut j: usize = 0;
    while j < selected.len()
        invariant
            j <= selected.len(),
            mark@ == selected@.take(j as int).filter(|e: u64| !marked@.contains(e)),
        decreases selected.len() - j,
    {
        proof {
            assert(selected@.take(j + 1).drop_last() =~= selected@.take(j as int));
            reveal_with_fuel(Seq::filter, 1);
        }
        let e = selected[j];
        if !contains_key(marked, e) {
            mark.push(e);
        }
        proof {
            assert(selected@.take(j + 1).last() == e);
        }
        j += 1;
    }
    proof {
        assert(selected@.take(selected@.len() as int) =~= selected@);
    }
    (unmark, mark)
}

/// The selected entities of a selection, in the order of their selection.
pub open spec fn selected_entities_of(m: Map<u64, Seq<u64>>) -> Seq<u64> {
    if m.contains_key(ENTITY_SELECTION_KIND) {
        m[ENTITY_SELECTION_KIND]
    } else {
        Seq::empty()
    }
}

/// After the markers are brought in line, exactly the selected entities are
/// marked: removing `unmark` from the marked ones and adding `mark` leaves
/// the selected set.
pub proof fn law_marks_follow_selection(selected: Seq<u64>, marked: Seq<u64>)
    ensures
        ({
            let unmark = marked.filter(|e: u64| !selected.contains(e));
            let mark = selected.filter(|e: u64| !marked.contains(e));
            marked.to_set().difference(unmark.to_set()).union(mark.to_set()) == selected.to_set()
        }),
{
    let unmark = marked.filter(|e: u64| !selected.contains(e));
    let mark = selected.filter(|e: u64| !marked.contains(e));
    broadcast use vstd::seq_lib::group_filter_ensures;
    assert forall|e: u64| #[trigger] unmark.contains(e) <==> marked.contains(e) && !selected.contains(e) by {
        if unmark.contains(e) {
            marked.lemma_filter_contains_rev(|e: u64| !selected.contains(e), e);
            let k = choose|k: int| 0 <= k < unmark.len() && unmark[k] == e;
            marked.lemma_filter_pred(|e: u64| !selected.contains(e), k);
        }
        if marked.contains(e) && !selected.contains(e) {
            let k = choose|k: int| 0 <= k < marked.len() && marked[k] == e;
            assert(unmark.contains(marked[k]));
        }
    }
    assert forall|e: u64| #[trigger] mark.contains(e) <==> selected.contains(e) && !marked.contains(e) by {
        if mark.contains(e) {
            selected.lemma_filter_contains_rev(|e: u64| !marked.contains(e), e);
            let k = choose|k: int| 0 <= k < mark.len() && mark[k] == e;
            selected.lemma_filter_pred(|e: u64| !marked.contains(e), k);
        }
        if selected.contains(e) && !marked.contains(e) {
            let k = choose|k: int| 0 <= k < selected.len() && selected[k] == e;
            assert(mark.contains(selected[k]));
        }
    }
    assert(marked.to_set().difference(unmark.to_set()).union(mark.to_set()) =~= selected.to_set());
}

/// The system set in which the selection marks entities.
pub enum SelectionSystems {
    Mark,
}

/// The plugin that keeps the selection.
pub struct SelectionPlugin;

} // verus!
