//! A map from names to values that keeps each name once.
use vstd::prelude::*;

verus! {

/// Values by name; each name occurs once.
pub struct NameMap<V> {
    entries: Vec<(String, V)>,
}

impl<V> NameMap<V> {
    /// The value of each name.
    pub closed spec fn view(&self) -> Map<Seq<char>, V> {
        Map::new(
            |k: Seq<char>| exists|i: int| 0 <= i < self.entries.len() && self.entries[i].0@ == k,
            |k: Seq<char>| self.entries[self.index_of_name(k)].1,
        )
    }

    closed spec fn index_of_name(&self, k: Seq<char>) -> int {
        choose|i: int| 0 <= i < self.entries.len() && self.entries[i].0@ == k
    }

    /// No name occurs twice.
    pub closed spec fn wf(&self) -> bool {
        forall|i: int, j: int| 0 <= i < j < self.entries.len() ==> self.entries[i].0@ != self.entries[j].0@
    }

    proof fn lemma_index(&self, i: int)
        requires
            self.wf(),
            0 <= i < self.entries.len(),
        ensures
            self.view().contains_key(self.entries[i].0@),
            self.view()[self.entries[i].0@] == self.entries[i].1,
    {
        let k = self.entries[i].0@;
        assert(exists|j: int| 0 <= j < self.entries.len() && self.entries[j].0@ == k);
        let j = self.index_of_name(k);
        if j != i {
            if j < i {
                assert(self.entries[j].0@ != self.entries[i].0@);
            } else {
                assert(self.entries[i].0@ != self.entries[j].0@);
            }
        }
    }

    pub fn new() -> (m: Self)
        ensures
            m.wf(),
            m.view() == Map::<Seq<char>, V>::empty(),
    {
        let m = NameMap { entries: Vec::new() };
        assert(m.view() =~= Map::<Seq<char>, V>::empty());
        m
    }

    fn find(&self, name: &str) -> (r: Option<usize>)
        requires
            self.wf(),
        ensures
            match r {
                Some(i) => i < self.entries.len() && self.entries[i as int].0@ == name@,
                None => !self.view().contains_key(name@),
            },
    {
        let key = name.to_string();
        let mut i: usize = 0;
        while i < self.entries.len()
            invariant
                i <= self.entries.len(),
                key@ == name@,
                forall|j: int| 0 <= j < i ==> self.entries[j].0@ != name@,
            decreases self.entries.len() - i,
        {
            if self.entries[i].0 == key {
                return Some(i);
            }
            i += 1;
        }
        None
    }

    /// The value of `name`, if it has one.
    pub fn get(&self, name: &str) -> (r: Option<&V>)
        requires
            self.wf(),
        ensures
            match r {
                Some(v) => self.view().contains_key(name@) && *v == self.view()[name@],
                None => !self.view().contains_key(name@),
            },
    {
        match self.find(name) {
            Some(i) => {
                proof {
                    self.lemma_index(i as int);
                }
                Some(&self.entries[i].1)
            },
            None => None,
        }
    }

    /// Gives `name` the value `value`; the result tells whether it had one.
    pub fn insert(&mut self, name: String, value: V) -> (replaced: bool)
        requires
            old(self).wf(),
        ensures
            final(self).wf(),
            final(self).view() == old(self).view().insert(name@, value),
            replaced == old(self).view().contains_key(name@),
    {
        let ghost old_map = *self;
        let ghost key = name@;
        match self.find(name.as_str()) {
            Some(i) => {
                self.entries.set(i, (name, value));
                proof {
                    assert forall|a: int, b: int| 0 <= a < b < self.entries.len() implies self.entries[a].0@ != self.entries[b].0@ by {
                        assert(old_map.entries[a].0@ != old_map.entries[b].0@);
                    }
                    old_map.lemma_index(i as int);
                    self.lemma_view_changed_at(&old_map, i as int);
                }
                true
            },
            None => {
                self.entries.push((name, value));
                proof {
                    let n = old_map.entries.len() as int;
                    assert forall|a: int, b: int| 0 <= a < b < self.entries.len() implies self.entries[a].0@ != self.entries[b].0@ by {
                        if b < n {
                            assert(old_map.entries[a].0@ != old_map.entries[b].0@);
                        } else {
                            assert(self.entries[a] == old_map.entries[a]);
                            if self.entries[a].0@ == key {
                                assert(old_map.entries[a].0@ == key);
                            }
                        }
                    }
                    self.lemma_view_changed_at(&old_map, n);
                }
                false
            },
        }
    }

    proof fn lemma_view_changed_at(&self, old_map: &Self, g: int)
        requires
            old_map.wf(),
            self.wf(),
            0 <= g < self.entries.len(),
            g <= old_map.entries.len(),
            self.entries.len() == (if g == old_map.entries.len() {
                old_map.entries.len() + 1
            } else {
                old_map.entries.len() as int
            }),
            forall|i: int| 0 <= i < self.entries.len() && i != g ==> self.entries[i] == old_map.entries[i],
            g < old_map.entries.len() ==> self.entries[g].0@ == old_map.entries[g].0@,
        ensures
            self.view() == old_map.view().insert(self.entries[g].0@, self.entries[g].1),
    {
        let key = self.entries[g].0@;
        let target = old_map.view().insert(key, self.entries[g].1);
        assert forall|k: Seq<char>| #[trigger] self.view().contains_key(k) <==> target.contains_key(k) by {
            if self.view().contains_key(k) && k != key {
                let i = choose|i: int| 0 <= i < self.entries.len() && self.entries[i].0@ == k;
                assert(i != g);
                assert(old_map.entries[i].0@ == k);
            }
            if old_map.view().contains_key(k) {
                let i = choose|i: int| 0 <= i < old_map.entries.len() && old_map.entries[i].0@ == k;
                if i != g {
                    assert(self.entries[i] == old_map.entries[i]);
                }
                assert(self.entries[i].0@ == k);
            }
            if k == key {
                assert(self.entries[g].0@ == k);
            }
        }
        assert forall|k: Seq<char>| #[trigger] self.view().contains_key(k) implies self.view()[k] == target[k] by {
            let i = choose|i: int| 0 <= i < self.entries.len() && self.entries[i].0@ == k;
            self.lemma_index(i);
            if i != g {
                assert(self.entries[i] == old_map.entries[i]);
                old_map.lemma_index(i);
            }
        }
        assert(self.view() =~= target);
    }

    /// Keeps only the names in `keep`, with their values.
    pub fn retain_names(&mut self, keep: &Vec<String>)
        requires
            old(self).wf(),
        ensures
            final(self).wf(),
            final(self).view() == old(self).view().restrict(keep@.map_values(|s: String| s@).to_set()),
    {
        let ghost old_map = *self;
        let ghost keys = keep@.map_values(|s: String| s@).to_set();
        let mut kept: Vec<(String, V)> = Vec::new();
        let ghost mut src: Seq<int> = Seq::empty();
        while self.entries.len() > 0
            invariant
                old_map.wf(),
                keys == keep@.map_values(|s: String| s@).to_set(),
                self.entries.len() <= old_map.entries.len(),
                self.entries@ == old_map.entries@.take(self.entries.len() as int),
                src.len() == kept@.len(),
                forall|t: int| 0 <= t < src.len() ==> self.entries.len() <= #[trigger] src[t] < old_map.entries.len()
                    && kept@[t] == old_map.entries[src[t]] && keys.contains(old_map.entries[src[t]].0@),
                forall|a: int, b: int| 0 <= a < b < src.len() ==> src[a] < src[b],
                forall|j: int| self.entries.len() <= j < old_map.entries.len() && keys.contains(#[trigger] old_map.entries[j].0@)
                    ==> exists|t: int| 0 <= t < src.len() && src[t] == j,
            decreases self.entries.len(),
        {
            let ghost n = self.entries.len() as int;
            let e = self.entries.pop().unwrap();
            proof {
                assert(e == old_map.entries[n - 1]);
                assert(self.entries@ =~= old_map.entries@.take(n - 1));
            }
            let mut wanted = false;
            let mut t: usize = 0;
            while t < keep.len()
                invariant
                    t <= keep.len(),
                    wanted == exists|u: int| 0 <= u < t && keep@[u]@ == e.0@,
                decreases keep.len() - t,
            {
                if keep[t] == e.0 {
                    wanted = true;
                }
                t += 1;
            }
            proof {
                if wanted {
                    let u = choose|u: int| 0 <= u < keep@.len() && keep@[u]@ == e.0@;
                    assert(keep@.map_values(|s: String| s@)[u] == e.0@);
                } else {
                    if keys.contains(e.0@) {
                        let ks = keep@.map_values(|s: String| s@);
                        let u = choose|u: int| 0 <= u < ks.len() && #[trigger] ks[u] == e.0@;
                        assert(keep@[u]@ == e.0@);
                    }
                }
            }
            let ghost k0 = kept@;
            let ghost s0 = src;
            if wanted {
                kept.insert(0, e);
                proof {
                    src = seq![n - 1] + src;
                    assert forall|t: int| 0 <= t < src.len() implies self.entries.len() <= #[trigger] src[t] < old_map.entries.len()
                        && kept@[t] == old_map.entries[src[t]] && keys.contains(old_map.entries[src[t]].0@) by {
                        if t > 0 {
                            assert(src[t] == s0[t - 1]);
                            assert(kept@[t] == k0[t - 1]);
                        }
                    }
                    assert forall|a: int, b: int| 0 <= a < b < src.len() implies src[a] < src[b] by {
                        if a > 0 {
                            assert(src[a] == s0[a - 1]);
                        }
                        assert(src[b] == s0[b - 1]);
                    }
                }
            }
            proof {
                assert forall|j: int| n - 1 <= j < old_map.entries.len() && keys.contains(#[trigger] old_map.entries[j].0@)
                    implies exists|t: int| 0 <= t < src.len() && src[t] == j by {
                    if j == n - 1 {
                        assert(src[0] == j);
                    } else {
                        let t = choose|t: int| 0 <= t < s0.len() && s0[t] == j;
                        if wanted {
                            assert(src[t + 1] == j);
                        } else {
                            assert(src[t] == j);
                        }
                    }
                }
            }
        }
        self.entries = kept;
        proof {
            assert forall|a: int, b: int| 0 <= a < b < self.entries.len() implies self.entries[a].0@ != self.entries[b].0@ by {
                let ia = src[a];
                let ib = src[b];
                assert(ia < ib);
                assert(old_map.entries[ia].0@ != old_map.entries[ib].0@);
            }
            let target = old_map.view().restrict(keys);
            assert forall|k: Seq<char>| #[trigger] self.view().contains_key(k) <==> target.contains_key(k) by {
                if self.view().contains_key(k) {
                    let i = choose|i: int| 0 <= i < self.entries.len() && self.entries[i].0@ == k;
                    let j = src[i];
                    assert(old_map.entries[j].0@ == k);
                }
                if target.contains_key(k) {
                    let j = choose|j: int| 0 <= j < old_map.entries.len() && old_map.entries[j].0@ == k;
                    let t = choose|t: int| 0 <= t < src.len() && src[t] == j;
                    assert(self.entries[t].0@ == k);
                }
            }
            assert forall|k: Seq<char>| #[trigger] self.view().contains_key(k) implies self.view()[k] == target[k] by {
                let i = choose|i: int| 0 <= i < self.entries.len() && self.entries[i].0@ == k;
                self.lemma_index(i);
                old_map.lemma_index(src[i]);
            }
            assert(self.view() =~= target);
        }
    }
}

} // verus!
