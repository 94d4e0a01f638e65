//! Editing lists from the inspector: adding, removing and moving elements.
use vstd::prelude::*;

verus! {

/// An edit of a list that the user asked for, at the index of an element.
#[derive(Clone, Copy, PartialEq, Eq, Structural)]
pub enum ListOp {
    AddElement(usize),
    RemoveElement(usize),
    MoveElementUp(usize),
    MoveElementDown(usize),
}

/// Whether `op` can be applied to a list of `len` elements without leaving it,
/// `has_default` telling whether a new element has a value to start from (an
/// element to add at a place past the end, with none, is not added).
pub open spec fn list_op_fits(op: ListOp, len: nat, has_default: bool) -> bool {
    match op {
        ListOp::AddElement(i) => has_default ==> i <= len,
        ListOp::RemoveElement(i) => i < len,
        ListOp::MoveElementUp(i) => i == 0 || i < len,
        ListOp::MoveElementDown(i) => i + 1 < len,
    }
}

/// Whether `new` is what `op` makes of `old`, `default` being the value a new
/// element starts from when its type has one. Values that the edit copies are
/// clones of the element they come from.
pub open spec fn list_after_op<T: Clone>(old: Seq<T>, new: Seq<T>, op: ListOp, default: Option<T>) -> bool {
    match op {
        ListOp::AddElement(i) => match default {
            Some(d) => new.len() == old.len() + 1 && cloned(d, new[i as int]) && new == old.insert(
                i as int,
                new[i as int],
            ),
            None => if i < old.len() {
                new.len() == old.len() + 1 && cloned(old[i as int], new[i as int]) && new
                    == old.insert(i as int, new[i as int])
            } else {
                new == old
            },
        },
        ListOp::RemoveElement(i) => new == old.remove(i as int),
        ListOp::MoveElementUp(i) => if i == 0 {
            new == old
        } else {
            new.len() == old.len() && cloned(old[i as int], new[i - 1]) && new == old.update(
                i - 1,
                new[i - 1],
            ).update(i as int, old[i - 1])
        },
        ListOp::MoveElementDown(i) => new.len() == old.len() && cloned(
            old[i + 1],
            new[i as int],
        ) && new == old.update(i as int, new[i as int]).update(i + 1, old[i as int]),
    }
}

/// Whether applying `op` changes a list.
pub open spec fn list_op_changes(op: ListOp) -> bool {
    match op {
        ListOp::MoveElementUp(i) => i > 0,
        _ => true,
    }
}

/// Whether adding an element to a list of `len` elements finds no value to start from.
pub open spec fn list_op_lacks_default<T>(op: ListOp, len: nat, default: Option<T>) -> bool {
    match op {
        ListOp::AddElement(i) => default is None && i >= len,
        _ => false,
    }
}

/// Applies `op` to one list.
pub fn apply_list_op<T: Clone>(list: &mut Vec<T>, op: ListOp, default: &Option<T>) -> (missing_default: bool)
    requires
        list_op_fits(op, old(list)@.len(), default is Some),
    ensures
        list_after_op(old(list)@, final(list)@, op, *default),
        missing_default == list_op_lacks_default(op, old(list)@.len(), *default),
{
    let len = list.len();
    match op {
        ListOp::AddElement(i) => {
            match default {
                Some(d) => {
                    let v = d.clone();
                    list.insert(i, v);
                    assert(list@[i as int] == v);
                    false
                },
                None => {
                    if i < list.len() {
                        let v = list[i].clone();
                        list.insert(i, v);
                        assert(list@[i as int] == v);
                        false
                    } else {
                        true
                    }
                },
            }
        },
        ListOp::RemoveElement(i) => {
            list.remove(i);
            false
        },
        ListOp::MoveElementUp(i) => {
            if i > 0 {
                let prev_idx = i - 1;
                let ghost old_list = list@;
                let element = list[i].clone();
                list.insert(prev_idx, element);
                list.remove(i + 1);
                assert(list@ =~= old_list.update(i - 1, element).update(i as int, old_list[i - 1]));
            }
            false
        },
        ListOp::MoveElementDown(i) => {
            let ghost old_list = list@;
            let next = list[i + 1].clone();
            list.insert(i, next);
            list.remove(i + 2);
            assert(list@ =~= old_list.update(i as int, next).update(i + 1, old_list[i as int]));
            false
        },
    }
}

/// The outcome of responding to a list edit.
pub struct ListOpResponse {
    /// Whether some list was changed.
    pub changed: bool,
    /// Whether an element could not be added for want of a value to start from.
    pub missing_default: bool,
}

/// Applies `op` to each of `lists` (the lists being edited together).
pub fn respond_to_list_op<T: Clone>(lists: &mut Vec<Vec<T>>, op: ListOp, default: &Option<T>) -> (r: ListOpResponse)
    requires
        forall|j: int| 0 <= j < old(lists)@.len() ==> list_op_fits(op, #[trigger] old(lists)@[j]@.len(), default is Some),
    ensures
        final(lists)@.len() == old(lists)@.len(),
        forall|j: int| 0 <= j < old(lists)@.len() ==> list_after_op(
            #[trigger] old(lists)@[j]@,
            final(lists)@[j]@,
            op,
            *default,
        ),
        r.changed == (old(lists)@.len() > 0 && list_op_changes(op)),
        r.missing_default == exists|j: int| 0 <= j < old(lists)@.len() && list_op_lacks_default(
            op,
            #[trigger] old(lists)@[j]@.len(),
            *default,
        ),
{
    let ghost old_lists = lists@;
    let n = lists.len();
    let mut done: Vec<Vec<T>> = Vec::new();
    let mut changed = false;
    let mut missing_default = false;
    let mut k: usize = 0;
    while k < n
        invariant
            n == old_lists.len(),
            k <= n,
            lists@ == old_lists.subrange(k as int, n as int),
            done@.len() == k,
            forall|j: int| 0 <= j < k ==> list_after_op(#[trigger] old_lists[j]@, done@[j]@, op, *default),
            forall|j: int| 0 <= j < n ==> list_op_fits(op, #[trigger] old_lists[j]@.len(), default is Some),
            changed == (k > 0 && list_op_changes(op)),
            missing_default == exists|j: int| 0 <= j < k && list_op_lacks_default(
                op,
                #[trigger] old_lists[j]@.len(),
                *default,
            ),
        decreases n - k,
    {
        let mut list = lists.remove(0);
        assert(list@ == old_lists[k as int]@);
        let missing = apply_list_op(&mut list, op, default);
        if missing {
            missing_default = true;
        }
        changed = match op {
            ListOp::MoveElementUp(i) => i > 0,
            _ => true,
        };
        done.push(list);
        proof {
            assert(lists@ =~= old_lists.subrange(k + 1, n as int));
            assert forall|j: int| 0 <= j < k + 1 implies list_after_op(
                #[trigger] old_lists[j]@,
                done@[j]@,
                op,
                *default,
            ) by {}
            if missing {
                assert(list_op_lacks_default(op, old_lists[k as int]@.len(), *default));
            }
        }
        k += 1;
    }
    *lists = done;
    ListOpResponse { changed, missing_default }
}

/// Removing the element that was just added gives back the list.
pub proof fn law_add_then_remove_restores<T: Clone>(old: Seq<T>, mid: Seq<T>, new: Seq<T>, i: usize, default: Option<T>)
    requires
        list_after_op(old, mid, ListOp::AddElement(i), default),
        !list_op_lacks_default(ListOp::AddElement(i), old.len(), default),
        i <= old.len(),
        list_after_op(mid, new, ListOp::RemoveElement(i), default),
    ensures
        new == old,
{
    assert(mid =~= old.insert(i as int, mid[i as int]));
    assert(mid.remove(i as int) =~= old);
}

/// Moving an element down and then back up leaves a list of the same length
/// whose every element is a clone of the element that stood there before.
pub proof fn law_move_down_then_up_restores<T: Clone>(old: Seq<T>, mid: Seq<T>, new: Seq<T>, i: usize, default: Option<T>)
    requires
        i + 1 < old.len(),
        old.len() <= usize::MAX,
        list_after_op(old, mid, ListOp::MoveElementDown(i), default),
        list_after_op(mid, new, ListOp::MoveElementUp((i + 1) as usize), default),
    ensures
        new.len() == old.len(),
        forall|j: int| 0 <= j < old.len() ==> cloned(old[j], #[trigger] new[j]),
{
    let up = (i + 1) as usize;
    assert(up == i + 1);
    assert(new == mid.update(i as int, new[i as int]).update(i + 1, mid[i as int]));
    assert forall|j: int| 0 <= j < old.len() implies cloned(old[j], #[trigger] new[j]) by {
        if j != i && j != i + 1 {
            assert(new[j] == old[j]);
        } else if j == i {
            assert(mid[i + 1] == old[i as int]);
        } else {
            assert(new[j] == mid[i as int]);
        }
    }
}

/// Moving keeps the length of a list; adding an element grows it by one
/// and removing one shrinks it by one.
pub proof fn law_list_op_lengths<T: Clone>(old: Seq<T>, new: Seq<T>, op: ListOp, default: Option<T>)
    requires
        list_op_fits(op, old.len(), default is Some),
        list_after_op(old, new, op, default),
    ensures
        new.len() == match op {
            ListOp::AddElement(i) => if list_op_lacks_default(op, old.len(), default) {
                old.len()
            } else {
                old.len() + 1
            },
            ListOp::RemoveElement(_) => (old.len() - 1) as nat,
            _ => old.len(),
        },
{
}

} // verus!
