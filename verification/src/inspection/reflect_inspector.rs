//! Decisions the reflection inspector takes before it draws anything.
use vstd::prelude::*;

use crate::inspection::error::TypeDataError;
use crate::inspection::list::{list_op_fits, ListOp};
use crate::keys::position_of;
use crate::text::{decimal, decimal_text};

verus! {

/// The common value of all `values`, if there is at least one and they agree.
pub fn iter_all_eq(values: &Vec<usize>) -> (r: Option<usize>)
    ensures
        r == (if values@.len() > 0 && (forall|j: int| 0 <= j < values@.len() ==> #[trigger] values@[j] == values@[0]) {
            Some(values@[0])
        } else {
            None::<usize>
        }),
{
    if values.len() == 0 {
        return None;
    }
    let first = values[0];
    let mut i: usize = 1;
    while i < values.len()
        invariant
            1 <= i <= values.len(),
            first == values@[0],
            forall|j: int| 0 <= j < i ==> values@[j] == first,
        decreases values.len() - i,
    {
        if values[i] != first {
            return None;
        }
        i += 1;
    }
    Some(first)
}

/// Which of the element controls of a list the user clicked.
pub struct ListControlClicks {
    pub add: bool,
    pub remove: bool,
    pub up: bool,
    pub down: bool,
}

/// Whether the element at `index` of a list of `len` elements can move up.
pub open spec fn up_enabled(index: usize) -> bool {
    index > 0
}

/// Whether the element at `index` of a list of `len` elements can move down.
pub open spec fn down_enabled(index: usize, len: usize) -> bool {
    len >= 1 && index < len - 1
}

/// The edit asked for through the controls of the element at `index`: the
/// last control clicked wins, and the move controls count only where enabled.
pub fn ui_for_list_controls(index: usize, len: usize, clicks: &ListControlClicks) -> (op: Option<ListOp>)
    ensures
        op == (if clicks.down && down_enabled(index, len) {
            Some(ListOp::MoveElementDown(index))
        } else if clicks.up && up_enabled(index) {
            Some(ListOp::MoveElementUp(index))
        } else if clicks.remove {
            Some(ListOp::RemoveElement(index))
        } else if clicks.add {
            Some(ListOp::AddElement(index))
        } else {
            None
        }),
        clicks.up && !clicks.down && index > 0 ==> op == Some(ListOp::MoveElementUp(index)),
        clicks.down && index + 1 < len ==> op == Some(ListOp::MoveElementDown(index)),
        op != Some(ListOp::MoveElementUp(0)),
        op != Some(ListOp::MoveElementDown((len - 1) as usize)) || len == 0,
{
    let mut op = None;
    if clicks.add {
        op = Some(ListOp::AddElement(index));
    }
    if clicks.remove {
        op = Some(ListOp::RemoveElement(index));
    }
    let up = index > 0;
    if up && clicks.up {
        op = Some(ListOp::MoveElementUp(index));
    }
    let down = match len.checked_sub(1) {
        Some(l) => index < l,
        None => false,
    };
    if down && clicks.down {
        op = Some(ListOp::MoveElementDown(index));
    }
    op
}

/// Every element but the first can move up, and every element but the last
/// can move down.
pub proof fn law_move_controls_enabled(index: usize, len: usize)
    requires
        index < len,
    ensures
        up_enabled(index) <==> index != 0,
        down_enabled(index, len) <==> index != len - 1,
{
}

/// Every edit asked for through the controls of an element of a list fits that list.
pub proof fn law_list_controls_fit(index: usize, len: usize, op: ListOp, has_default: bool)
    requires
        index < len,
        op == ListOp::AddElement(index) || op == ListOp::RemoveElement(index) || (op
            == ListOp::MoveElementUp(index) && up_enabled(index)) || (op == ListOp::MoveElementDown(
            index,
        ) && down_enabled(index, len)),
    ensures
        list_op_fits(op, len as nat, has_default),
{
}

/// How a group of `count` labelled rows is laid out.
#[derive(PartialEq, Eq, Structural)]
pub enum GridLayout {
    /// Nothing is drawn.
    Nothing,
    /// The single row is drawn without its label.
    Plain,
    /// The rows are drawn in a grid with their labels.
    Grid,
}

/// The layout of `count` rows; with `always_show_label` a single row keeps its label.
pub fn maybe_grid_label_if(count: usize, always_show_label: bool) -> (layout: GridLayout)
    ensures
        layout == (if count == 0 {
            GridLayout::Nothing
        } else if count == 1 && !always_show_label {
            GridLayout::Plain
        } else {
            GridLayout::Grid
        }),
{
    if count == 0 {
        GridLayout::Nothing
    } else if count == 1 && !always_show_label {
        GridLayout::Plain
    } else {
        GridLayout::Grid
    }
}

/// The layout of `count` rows, a single row being drawn without its label.
pub fn maybe_grid(count: usize) -> (layout: GridLayout)
    ensures
        layout == (if count == 0 {
            GridLayout::Nothing
        } else if count == 1 {
            GridLayout::Plain
        } else {
            GridLayout::Grid
        }),
{
    maybe_grid_label_if(count, false)
}

/// A field of an enum variant: the path of its type and whether a default
/// value of that type can be made.
pub struct VariantField {
    /// The field's name; a tuple variant's fields have none of their own.
    pub name: String,
    pub type_path: String,
    pub constructable: bool,
}

/// The shape of an enum variant.
pub enum VariantInfo {
    Struct(Vec<VariantField>),
    Tuple(Vec<VariantField>),
    Unit,
}

/// The type paths of the fields that cannot be constructed, in field order.
pub open spec fn unconstructable(fields: Seq<VariantField>) -> Seq<Seq<char>>
    decreases fields.len(),
{
    if fields.len() == 0 {
        Seq::empty()
    } else {
        let rest = unconstructable(fields.drop_last());
        if fields.last().constructable {
            rest
        } else {
            rest.push(fields.last().type_path@)
        }
    }
}

fn unconstructable_fields(fields: &Vec<VariantField>) -> (paths: Vec<String>)
    ensures
        paths@.map_values(|p: String| p@) == unconstructable(fields@),
{
    let mut paths: Vec<String> = Vec::new();
    let mut i: usize = 0;
    while i < fields.len()
        invariant
            i <= fields.len(),
            paths@.map_values(|p: String| p@) == unconstructable(fields@.subrange(0, i as int)),
        decreases fields.len() - i,
    {
        proof {
            assert(fields@.subrange(0, i + 1).drop_last() =~= fields@.subrange(0, i as int));
        }
        if !fields[i].constructable {
            paths.push(fields[i].type_path.clone());
        }
        proof {
            assert(paths@.map_values(|p: String| p@) =~= unconstructable(fields@.subrange(0, i + 1)));
        }
        i += 1;
    }
    proof {
        assert(fields@.subrange(0, fields@.len() as int) =~= fields@);
    }
    paths
}

/// Whether a default value of `variant` can be made: where it cannot, the
/// paths of the field types that stand in the way.
pub fn variant_constructable(variant: &VariantInfo) -> (r: Result<(), Vec<String>>)
    ensures
        match variant {
            VariantInfo::Unit => r is Ok,
            VariantInfo::Struct(fields) | VariantInfo::Tuple(fields) => match r {
                Ok(()) => unconstructable(fields@).len() == 0,
                Err(paths) => unconstructable(fields@).len() > 0 && paths@.map_values(
                    |p: String| p@,
                ) == unconstructable(fields@),
            },
        },
{
    let paths = match variant {
        VariantInfo::Struct(fields) => unconstructable_fields(fields),
        VariantInfo::Tuple(fields) => unconstructable_fields(fields),
        VariantInfo::Unit => {
            return Ok(());
        },
    };
    if paths.len() == 0 {
        Ok(())
    } else {
        Err(paths)
    }
}

/// What the fields before a position contribute to `unconstructable` stays at
/// its front when more fields follow.
proof fn lemma_unconstructable_prefix(fields: Seq<VariantField>, i: int, j: int)
    requires
        0 <= i <= j <= fields.len(),
    ensures
        unconstructable(fields.subrange(0, i)).len() <= unconstructable(fields.subrange(0, j)).len(),
        unconstructable(fields.subrange(0, i)) =~= unconstructable(fields.subrange(0, j)).subrange(
            0,
            unconstructable(fields.subrange(0, i)).len() as int,
        ),
    decreases j - i,
{
    if i < j {
        lemma_unconstructable_prefix(fields, i, j - 1);
        assert(fields.subrange(0, j).drop_last() =~= fields.subrange(0, j - 1));
    }
}

/// The type path of the first field, in order, whose type has no default value.
fn first_unconstructable(fields: &Vec<VariantField>) -> (r: Option<String>)
    ensures
        match r {
            None => unconstructable(fields@).len() == 0,
            Some(path) => unconstructable(fields@).len() > 0 && path@ == unconstructable(fields@)[0],
        },
{
    let mut i: usize = 0;
    while i < fields.len()
        invariant
            i <= fields.len(),
            unconstructable(fields@.subrange(0, i as int)).len() == 0,
        decreases fields.len() - i,
    {
        proof {
            assert(fields@.subrange(0, i + 1).drop_last() =~= fields@.subrange(0, i as int));
        }
        if !fields[i].constructable {
            proof {
                let upto = unconstructable(fields@.subrange(0, i + 1));
                assert(upto =~= seq![fields@[i as int].type_path@]);
                lemma_unconstructable_prefix(fields@, i + 1, fields@.len() as int);
                assert(fields@.subrange(0, fields@.len() as int) =~= fields@);
                assert(unconstructable(fields@)[0] == upto[0]);
            }
            return Some(fields[i].type_path.clone());
        }
        i += 1;
    }
    proof {
        assert(fields@.subrange(0, fields@.len() as int) =~= fields@);
    }
    None
}

/// Makes the default value of `variant` from the default values of its
/// fields' types: `Err` with the type path of the first field, in order,
/// whose type has none.
pub fn construct_default_variant(variant: &VariantInfo) -> (r: Result<(), String>)
    ensures
        match variant {
            VariantInfo::Unit => r is Ok,
            VariantInfo::Struct(fields) | VariantInfo::Tuple(fields) => match r {
                Ok(()) => unconstructable(fields@).len() == 0,
                Err(path) => unconstructable(fields@).len() > 0 && path@
                    == unconstructable(fields@)[0],
            },
        },
{
    let missing = match variant {
        VariantInfo::Struct(fields) => first_unconstructable(fields),
        VariantInfo::Tuple(fields) => first_unconstructable(fields),
        VariantInfo::Unit => None,
    };
    match missing {
        Some(path) => Err(path),
        None => Ok(()),
    }
}

/// The part of the inspected value that a set of options applies to.
#[derive(Clone, Copy, PartialEq, Eq, Structural)]
pub enum Target {
    Field(usize),
    VariantField { variant_index: usize, field_index: usize },
}

/// Options attached to the fields of an inspected type, at most one per target.
pub struct InspectorOptions<O> {
    entries: Vec<(Target, O)>,
}

impl<O> InspectorOptions<O> {
    pub closed spec fn view(&self) -> Map<Target, O> {
        Map::new(
            |t: Target| exists|i: int| 0 <= i < self.entries.len() && self.entries[i].0 == t,
            |t: Target| self.entries[choose|i: int| 0 <= i < self.entries.len() && self.entries[i].0 == t].1,
        )
    }

    pub closed spec fn wf(&self) -> bool {
        forall|i: int, j: int| 0 <= i < j < self.entries.len() ==> self.entries[i].0 != self.entries[j].0
    }

    pub fn new() -> (o: Self)
        ensures
            o.wf(),
            o.view() == Map::<Target, O>::empty(),
    {
        let o = InspectorOptions { entries: Vec::new() };
        assert(o.view() =~= Map::<Target, O>::empty());
        o
    }

    fn find(&self, target: Target) -> (r: Option<usize>)
        requires
            self.wf(),
        ensures
            match r {
                Some(i) => i < self.entries.len() && self.entries[i as int].0 == target,
                None => !self.view().contains_key(target),
            },
    {
        let mut i: usize = 0;
        while i < self.entries.len()
            invariant
                i <= self.entries.len(),
                forall|j: int| 0 <= j < i ==> self.entries[j].0 != target,
            decreases self.entries.len() - i,
        {
            if self.entries[i].0 == target {
                return Some(i);
            }
            i += 1;
        }
        None
    }

    proof fn lemma_entry(&self, i: int)
        requires
            self.wf(),
            0 <= i < self.entries.len(),
        ensures
            self.view().contains_key(self.entries[i].0),
            self.view()[self.entries[i].0] == self.entries[i].1,
    {
        let t = self.entries[i].0;
        assert(exists|j: int| 0 <= j < self.entries.len() && self.entries[j].0 == t);
        let j = choose|j: int| 0 <= j < self.entries.len() && self.entries[j].0 == t;
        if j != i {
            if j < i {
                assert(self.entries[j].0 != self.entries[i].0);
            } else {
                assert(self.entries[i].0 != self.entries[j].0);
            }
        }
    }

    /// The options for `target`.
    pub fn get(&self, target: Target) -> (r: Option<&O>)
        requires
            self.wf(),
        ensures
            match r {
                Some(o) => self.view().contains_key(target) && *o == self.view()[target],
                None => !self.view().contains_key(target),
            },
    {
        match self.find(target) {
            Some(i) => {
                proof {
                    self.lemma_entry(i as int);
                }
                Some(&self.entries[i].1)
            },
            None => None,
        }
    }

    /// Sets the options for `target`, replacing those it had.
    pub fn insert(&mut self, target: Target, options: O)
        requires
            old(self).wf(),
        ensures
            final(self).wf(),
            final(self).view() == old(self).view().insert(target, options),
    {
        let ghost old_self = *self;
        match self.find(target) {
            Some(i) => {
                self.entries.remove(i);
                self.entries.insert(i, (target, options));
                proof {
                    assert forall|a: int, b: int| 0 <= a < b < self.entries.len() implies self.entries[a].0
                        != self.entries[b].0 by {
                        assert(old_self.entries[a].0 != old_self.entries[b].0);
                    }
                    assert forall|t: Target| #[trigger] self.view().contains_key(t) <==> old_self.view().insert(
                        target,
                        options,
                    ).contains_key(t) by {
                        if self.view().contains_key(t) {
                            let j = choose|j: int| 0 <= j < self.entries.len() && self.entries[j].0 == t;
                            if j != i {
                                assert(old_self.entries[j].0 == t);
                            }
                        }
                        if old_self.view().contains_key(t) {
                            let j = choose|j: int| 0 <= j < old_self.entries.len() && old_self.entries[j].0 == t;
                            if j != i {
                                assert(self.entries[j].0 == t);
                            } else {
                                assert(self.entries[j].0 == target);
                            }
                        }
                    }
                    assert forall|t: Target| #[trigger] self.view().contains_key(t) implies self.view()[t]
                        == old_self.view().insert(target, options)[t] by {
                        let j = choose|j: int| 0 <= j < self.entries.len() && self.entries[j].0 == t;
                        self.lemma_entry(j);
                        if j != i as int {
                            old_self.lemma_entry(j);
                        }
                    }
                    assert(self.view() =~= old_self.view().insert(target, options));
                }
            },
            None => {
                self.entries.push((target, options));
                proof {
                    let n = old_self.entries.len() as int;
                    assert forall|a: int, b: int| 0 <= a < b < self.entries.len() implies self.entries[a].0
                        != self.entries[b].0 by {
                        if b == n {
                            if old_self.entries[a].0 == target {
                                assert(old_self.view().contains_key(target));
                            }
                        } else {
                            assert(old_self.entries[a].0 != old_self.entries[b].0);
                        }
                    }
                    assert forall|t: Target| #[trigger] self.view().contains_key(t) <==> old_self.view().insert(
                        target,
                        options,
                    ).contains_key(t) by {
                        if self.view().contains_key(t) {
                            let j = choose|j: int| 0 <= j < self.entries.len() && self.entries[j].0 == t;
                            if j != n {
                                assert(old_self.entries[j].0 == t);
                            }
                        }
                        if old_self.view().contains_key(t) {
                            let j = choose|j: int| 0 <= j < old_self.entries.len() && old_self.entries[j].0 == t;
                            assert(self.entries[j].0 == t);
                        }
                        if t == target {
                            assert(self.entries[n].0 == target);
                        }
                    }
                    assert forall|t: Target| #[trigger] self.view().contains_key(t) implies self.view()[t]
                        == old_self.view().insert(target, options)[t] by {
                        let j = choose|j: int| 0 <= j < self.entries.len() && self.entries[j].0 == t;
                        self.lemma_entry(j);
                        if j != n {
                            old_self.lemma_entry(j);
                        }
                    }
                    assert(self.view() =~= old_self.view().insert(target, options));
                }
            },
        }
    }
}

/// The options of field `field` of a struct; `None` where the value carries no
/// options or none for that field.
pub fn inspector_options_struct_field<O>(options: Option<&InspectorOptions<O>>, field: usize) -> (r: Option<&O>)
    requires
        options matches Some(o) ==> o.wf(),
    ensures
        match options {
            Some(o) => match r {
                Some(v) => o.view().contains_key(Target::Field(field)) && *v == o.view()[Target::Field(field)],
                None => !o.view().contains_key(Target::Field(field)),
            },
            None => r is None,
        },
{
    match options {
        Some(o) => o.get(Target::Field(field)),
        None => None,
    }
}

/// The options of field `field_index` of variant `variant_index` of an enum;
/// `None` where the value carries no options or none for that field.
pub fn inspector_options_enum_variant_field<O>(
    options: Option<&InspectorOptions<O>>,
    variant_index: usize,
    field_index: usize,
) -> (r: Option<&O>)
    requires
        options matches Some(o) ==> o.wf(),
    ensures
        match options {
            Some(o) => match r {
                Some(v) => o.view().contains_key(Target::VariantField { variant_index, field_index })
                    && *v == o.view()[Target::VariantField { variant_index, field_index }],
                None => !o.view().contains_key(Target::VariantField { variant_index, field_index }),
            },
            None => r is None,
        },
{
    match options {
        Some(o) => o.get(Target::VariantField { variant_index, field_index }),
        None => None,
    }
}

/// Whether either of two edits changed something, the first error winning.
pub fn or<E>(a: Result<bool, E>, b: Result<bool, E>) -> (r: Result<bool, E>)
    ensures
        r == (match a {
            Err(e) => Err(e),
            Ok(x) => match b {
                Err(e) => Err(e),
                Ok(y) => Ok(x || y),
            },
        }),
{
    match a {
        Err(e) => Err(e),
        Ok(x) => match b {
            Err(e) => Err(e),
            Ok(y) => Ok(x || y),
        },
    }
}

/// The custom inspector of a type: `registration` is `None` where the type is
/// not registered, and holds the type's inspector data where it is.
pub fn get_type_data<'a, D>(registration: Option<Option<&'a D>>) -> (r: Result<&'a D, TypeDataError>)
    ensures
        r == (match registration {
            None => Err(TypeDataError::NotRegistered),
            Some(None) => Err(TypeDataError::NoTypeData),
            Some(Some(d)) => Ok(d),
        }),
{
    match registration {
        None => Err(TypeDataError::NotRegistered),
        Some(None) => Err(TypeDataError::NoTypeData),
        Some(Some(d)) => Ok(d),
    }
}

/// The labels of a variant's fields: a struct variant's field names, a
/// tuple variant's field indices; and whether a single field keeps its label
/// (it does in a struct variant).
pub open spec fn variant_labels(variant: VariantInfo) -> (Seq<Seq<char>>, bool) {
    match variant {
        VariantInfo::Struct(fields) => (fields@.map_values(|f: VariantField| f.name@), true),
        VariantInfo::Tuple(fields) => (Seq::new(fields@.len(), |i: int| decimal(i as nat)), false),
        VariantInfo::Unit => (Seq::empty(), false),
    }
}

/// The labels of the fields of `variant`, and whether a single field keeps
/// its label.
pub fn variant_field_labels(variant: &VariantInfo) -> (r: (Vec<String>, bool))
    ensures
        r.0@.map_values(|l: String| l@) == variant_labels(*variant).0,
        r.1 == variant_labels(*variant).1,
{
    let mut labels: Vec<String> = Vec::new();
    match variant {
        VariantInfo::Struct(fields) => {
            let mut i: usize = 0;
            while i < fields.len()
                invariant
                    i <= fields.len(),
                    labels@.len() == i,
                    forall|j: int| 0 <= j < i ==> #[trigger] labels@[j]@ == fields@[j].name@,
                decreases fields.len() - i,
            {
                labels.push(fields[i].name.clone());
                i += 1;
            }
            proof {
                assert(labels@.map_values(|l: String| l@) =~= fields@.map_values(|f: VariantField| f.name@));
            }
            (labels, true)
        },
        VariantInfo::Tuple(fields) => {
            let mut i: usize = 0;
            while i < fields.len()
                invariant
                    i <= fields.len(),
                    labels@.len() == i,
                    forall|j: int| 0 <= j < i ==> #[trigger] labels@[j]@ == decimal(j as nat),
                decreases fields.len() - i,
            {
                labels.push(decimal_text(i));
                i += 1;
            }
            proof {
                assert(labels@.map_values(|l: String| l@) =~= Seq::new(fields@.len(), |i: int| decimal(i as nat)));
            }
            (labels, false)
        },
        VariantInfo::Unit => {
            proof {
                assert(labels@.map_values(|l: String| l@) =~= Seq::<Seq<char>>::empty());
            }
            (labels, false)
        },
    }
}

/// An edit of a set, by the key of the element.
#[derive(Clone, Copy, PartialEq, Eq, Structural)]
pub enum SetOp {
    AddElement(u64),
    RemoveElement(u64),
}

/// The elements of a set after `op`.
pub open spec fn set_after_op(s: Set<u64>, op: SetOp) -> Set<u64> {
    match op {
        SetOp::AddElement(x) => s.insert(x),
        SetOp::RemoveElement(x) => s.remove(x),
    }
}

/// Applies `op` to a set held as its elements without repeats; the set
/// counts as changed.
pub fn respond_to_set_op(set: &mut Vec<u64>, op: SetOp) -> (changed: bool)
    requires
        old(set)@.no_duplicates(),
    ensures
        final(set)@.no_duplicates(),
        final(set)@.to_set() == set_after_op(old(set)@.to_set(), op),
        changed,
{
    let ghost s0 = set@;
    match op {
        SetOp::AddElement(x) => {
            match position_of(set, x) {
                Some(_) => {
                    proof {
                        assert(s0.to_set().insert(x) =~= s0.to_set());
                    }
                },
                None => {
                    set.push(x);
                    proof {
                        assert forall|a: int, b: int| 0 <= a < b < set@.len() implies set@[a] != set@[b] by {
                            if b == set@.len() - 1 {
                                assert(set@[a] == s0[a]);
                            }
                        }
                        assert forall|y: u64| set@.to_set().contains(y) <==> s0.to_set().insert(x).contains(y) by {
                            if set@.contains(y) && y != x {
                                let j = choose|j: int| 0 <= j < set@.len() && set@[j] == y;
                                assert(s0[j] == y);
                            }
                            if s0.contains(y) {
                                let j = choose|j: int| 0 <= j < s0.len() && s0[j] == y;
                                assert(set@[j] == y);
                            }
                            if y == x {
                                assert(set@[set@.len() - 1] == x);
                            }
                        }
                        assert(set@.to_set() =~= s0.to_set().insert(x));
                    }
                },
            }
        },
        SetOp::RemoveElement(x) => {
            match position_of(set, x) {
                Some(p) => {
                    set.remove(p);
                    proof {
                        assert forall|a: int, b: int| 0 <= a < b < set@.len() implies set@[a] != set@[b] by {
                            let a2 = if a < p { a } else { a + 1 };
                            let b2 = if b < p { b } else { b + 1 };
                            assert(set@[a] == s0[a2]);
                            assert(set@[b] == s0[b2]);
                        }
                        assert forall|y: u64| set@.to_set().contains(y) <==> s0.to_set().remove(x).contains(y) by {
                            if set@.contains(y) {
                                let j = choose|j: int| 0 <= j < set@.len() && set@[j] == y;
                                let j2 = if j < p { j } else { j + 1 };
                                assert(s0[j2] == y);
                                assert(j2 != p);
                                if y == x {
                                    assert(s0[j2] == s0[p as int]);
                                }
                            }
                            if s0.contains(y) && y != x {
                                let j = choose|j: int| 0 <= j < s0.len() && s0[j] == y;
                                assert(j != p);
                                let j3 = if j < p { j } else { j - 1 };
                                assert(set@[j3] == y);
                            }
                        }
                        assert(set@.to_set() =~= s0.to_set().remove(x));
                    }
                },
                None => {
                    proof {
                        assert(s0.to_set().remove(x) =~= s0.to_set());
                    }
                },
            }
        },
    }
    true
}

/// Applies `op` to each of several sets edited together; they count as
/// changed where there is at least one.
pub fn respond_to_sets_op(sets: &mut Vec<Vec<u64>>, op: SetOp) -> (changed: bool)
    requires
        forall|i: int| 0 <= i < old(sets)@.len() ==> (#[trigger] old(sets)@[i])@.no_duplicates(),
    ensures
        final(sets)@.len() == old(sets)@.len(),
        forall|i: int| 0 <= i < final(sets)@.len() ==> (#[trigger] final(sets)@[i])@.no_duplicates()
            && final(sets)@[i]@.to_set() == set_after_op(old(sets)@[i]@.to_set(), op),
        changed == (old(sets)@.len() > 0),
{
    let ghost s0 = sets@;
    let mut changed = false;
    let mut i: usize = 0;
    while i < sets.len()
        invariant
            i <= sets.len(),
            sets@.len() == s0.len(),
            changed == (i > 0),
            forall|j: int| 0 <= j < i ==> (#[trigger] sets@[j])@.no_duplicates() && sets@[j]@.to_set()
                == set_after_op(s0[j]@.to_set(), op),
            forall|j: int| i <= j < sets@.len() ==> #[trigger] sets@[j] == s0[j],
            forall|j: int| 0 <= j < s0.len() ==> (#[trigger] s0[j])@.no_duplicates(),
        decreases sets.len() - i,
    {
        let mut set = Vec::new();
        sets.set_and_swap(i, &mut set);
        proof {
            assert(set == s0[i as int]);
        }
        let c = respond_to_set_op(&mut set, op);
        changed = changed || c;
        sets.set(i, set);
        i += 1;
    }
    changed
}

/// Whether each element of the first of several sets edited together is
/// shown (else "Different values"): where the sets have one element each, or
/// where all the other sets hold it.
pub fn shared_values(sets: &Vec<Vec<u64>>) -> (shared: Vec<bool>)
    requires
        sets@.len() > 0,
    ensures
        shared@.len() == sets@[0]@.len(),
        forall|k: int| 0 <= k < shared@.len() ==> #[trigger] shared@[k] == (sets@[0]@.len() == 1 || forall|j: int|
            1 <= j < sets@.len() ==> (#[trigger] sets@[j])@.contains(sets@[0]@[k])),
{
    let first = &sets[0];
    let mut shared: Vec<bool> = Vec::new();
    let mut k: usize = 0;
    while k < first.len()
        invariant
            k <= first.len(),
            sets@.len() > 0,
            *first == sets@[0],
            shared@.len() == k,
            forall|t: int| 0 <= t < k ==> #[trigger] shared@[t] == (sets@[0]@.len() == 1 || forall|j: int|
                1 <= j < sets@.len() ==> (#[trigger] sets@[j])@.contains(sets@[0]@[t])),
        decreases first.len() - k,
    {
        let v = first[k];
        let mut all = true;
        let mut j: usize = 1;
        while j < sets.len()
            invariant
                1 <= j <= sets.len(),
                all == forall|t: int| 1 <= t < j ==> (#[trigger] sets@[t])@.contains(v),
            decreases sets.len() - j,
        {
            if position_of(&sets[j], v).is_none() {
                all = false;
            }
            j += 1;
        }
        shared.push(first.len() == 1 || all);
        k += 1;
    }
    shared
}

/// The element being composed for insertion into a map.
pub struct MapDraft<K, V> {
    pub key: K,
    pub value: V,
}

/// What a frame of the "New element" row of a map does.
pub struct MapDraftStep<K, V> {
    /// The draft kept for the next frame.
    pub draft: Option<MapDraft<K, V>>,
    /// The element to insert into the map.
    pub insert: Option<MapDraft<K, V>>,
    /// Whether the map counts as changed.
    pub changed: bool,
}

/// Decides a frame of the "New element" row: "+" starts a draft from the
/// default key and value; "Insert" inserts the draft and ends it; "Cancel"
/// ends it; both count as a change.
pub fn map_add_element<K, V>(draft: Option<MapDraft<K, V>>, default: MapDraft<K, V>, add_clicked: bool, insert_clicked: bool, cancel_clicked: bool) -> (step: MapDraftStep<K, V>)
    ensures
        draft is None ==> step.insert is None && !step.changed && (if add_clicked {
            step.draft == Some(default)
        } else {
            step.draft is None
        }),
        draft is Some ==> step.changed == (insert_clicked || cancel_clicked) && (if insert_clicked {
            step.insert == draft
        } else {
            step.insert is None
        }) && (if insert_clicked || cancel_clicked {
            step.draft is None
        } else {
            step.draft == draft
        }),
{
    match draft {
        None => {
            if add_clicked {
                MapDraftStep { draft: Some(default), insert: None, changed: false }
            } else {
                MapDraftStep { draft: None, insert: None, changed: false }
            }
        },
        Some(d) => {
            if insert_clicked {
                MapDraftStep { draft: None, insert: Some(d), changed: true }
            } else if cancel_clicked {
                MapDraftStep { draft: None, insert: None, changed: true }
            } else {
                MapDraftStep { draft: Some(d), insert: None, changed: false }
            }
        },
    }
}

/// Adding an element that a set lacks and then removing it gives the set back.
pub proof fn law_set_add_then_remove(s: Set<u64>, x: u64)
    requires
        !s.contains(x),
    ensures
        set_after_op(set_after_op(s, SetOp::AddElement(x)), SetOp::RemoveElement(x)) == s,
{
    assert(s.insert(x).remove(x) =~= s);
}

} // verus!
