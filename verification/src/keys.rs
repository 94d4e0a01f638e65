//! Searching sequences of keys (entities, kinds, indices).
use vstd::prelude::*;

verus! {

/// The first place at which `key` occurs in `keys`.
pub fn position_of(keys: &Vec<u64>, key: u64) -> (r: Option<usize>)
    ensures
        match r {
            Some(p) => p < keys.len() && keys@[p as int] == key && forall|j: int|
                0 <= j < p ==> keys@[j] != key,
            None => !keys@.contains(key),
        },
{
    let mut i: usize = 0;
    while i < keys.len()
        invariant
            i <= keys.len(),
            forall|j: int| 0 <= j < i ==> keys@[j] != key,
        decreases keys.len() - i,
    {
        if keys[i] == key {
            return Some(i);
        }
        i += 1;
    }
    None
}

/// Where a sequence without duplicates holds `key` at `p`, `index_of` names `p`.
pub proof fn lemma_index_of_unique(s: Seq<u64>, key: u64, p: int)
    requires
        s.no_duplicates(),
        0 <= p < s.len(),
        s[p] == key,
    ensures
        s.contains(key),
        s.index_of(key) == p,
{
    assert(s.contains(key));
    let q = s.index_of(key);
    if q != p {
        if q < p {
            assert(s[q] != s[p]);
        } else {
            assert(s[p] != s[q]);
        }
    }
}

} // verus!
