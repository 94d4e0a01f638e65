//! Panels: the registry of panel systems by name, and the area they fill.
use vstd::prelude::*;

verus! {

/// The systems that fill panels, by panel name.
pub struct PanelRegistry {
    panels: Vec<(String, u64)>,
}

impl PanelRegistry {
    /// The id of the system registered for each panel name.
    pub closed spec fn view(&self) -> Map<Seq<char>, u64> {
        Map::new(
            |k: Seq<char>| exists|i: int| 0 <= i < self.panels.len() && self.panels[i].0@ == k,
            |k: Seq<char>| self.panels[self.index_of_name(k)].1,
        )
    }

    closed spec fn index_of_name(&self, k: Seq<char>) -> int {
        choose|i: int| 0 <= i < self.panels.len() && self.panels[i].0@ == k
    }

    /// No name is registered twice.
    pub closed spec fn wf(&self) -> bool {
        forall|i: int, j: int| 0 <= i < j < self.panels.len() ==> self.panels[i].0@ != self.panels[j].0@
    }

    proof fn lemma_index(&self, i: int)
        requires
            self.wf(),
            0 <= i < self.panels.len(),
        ensures
            self.view().contains_key(self.panels[i].0@),
            self.view()[self.panels[i].0@] == self.panels[i].1,
    {
        let k = self.panels[i].0@;
        assert(exists|j: int| 0 <= j < self.panels.len() && self.panels[j].0@ == k);
        let j = self.index_of_name(k);
        if j != i {
            if j < i {
                assert(self.panels[j].0@ != self.panels[i].0@);
            } else {
                assert(self.panels[i].0@ != self.panels[j].0@);
            }
        }
    }

    pub fn new() -> (r: Self)
        ensures
            r.wf(),
            r.view() == Map::<Seq<char>, u64>::empty(),
    {
        let r = PanelRegistry { panels: Vec::new() };
        assert(r.view() =~= Map::<Seq<char>, u64>::empty());
        r
    }

    /// The id of the system registered for the panel named `name`.
    pub fn get(&self, name: &str) -> (r: Option<u64>)
        requires
            self.wf(),
        ensures
            r == (if self.view().contains_key(name@) {
                Some(self.view()[name@])
            } else {
                None::<u64>
            }),
    {
        let key = name.to_string();
        let mut i: usize = 0;
        while i < self.panels.len()
            invariant
                self.wf(),
                i <= self.panels.len(),
                key@ == name@,
                forall|j: int| 0 <= j < i ==> self.panels[j].0@ != name@,
            decreases self.panels.len() - i,
        {
            if self.panels[i].0 == key {
                proof {
                    self.lemma_index(i as int);
                }
                return Some(self.panels[i].1);
            }
            i += 1;
        }
        proof {
            if self.view().contains_key(name@) {
                let j = choose|j: int| 0 <= j < self.panels.len() && self.panels[j].0@ == name@;
            }
        }
        None
    }

    /// Registers `system` for the panel named `name`, replacing the one
    /// registered before under that name; the result tells whether one was.
    pub fn register_panel(&mut self, name: String, system: u64) -> (replaced: bool)
        requires
            old(self).wf(),
        ensures
            final(self).wf(),
            final(self).view() == old(self).view().insert(name@, system),
            replaced == old(self).view().contains_key(name@),
    {
        let ghost old_reg = *self;
        let mut i: usize = 0;
        while i < self.panels.len()
            invariant
                *self == old_reg,
                old_reg == *old(self),
                old_reg.wf(),
                i <= self.panels.len(),
                forall|j: int| 0 <= j < i ==> self.panels[j].0@ != name@,
            decreases self.panels.len() - i,
        {
            if self.panels[i].0 == name {
                self.panels.set(i, (name, system));
                proof {
                    assert forall|a: int, b: int| 0 <= a < b < self.panels.len() implies self.panels[a].0@ != self.panels[b].0@ by {
                        assert(old_reg.panels[a].0@ != old_reg.panels[b].0@);
                    }
                    old_reg.lemma_index(i as int);
                    assert forall|k: Seq<char>| #[trigger] self.view().contains_key(k) <==> old_reg.view().insert(name@, system).contains_key(k) by {
                        if self.view().contains_key(k) {
                            let j = choose|j: int| 0 <= j < self.panels.len() && self.panels[j].0@ == k;
                            assert(old_reg.panels[j].0@ == k);
                        }
                        if old_reg.view().contains_key(k) {
                            let j = choose|j: int| 0 <= j < old_reg.panels.len() && old_reg.panels[j].0@ == k;
                            assert(self.panels[j].0@ == k);
                        }
                        if k == name@ {
                            assert(self.panels[i as int].0@ == k);
                        }
                    }
                    assert forall|k: Seq<char>| #[trigger] self.view().contains_key(k) implies self.view()[k] == old_reg.view().insert(name@, system)[k] by {
                        let j = choose|j: int| 0 <= j < self.panels.len() && self.panels[j].0@ == k;
                        self.lemma_index(j);
                        if j != i {
                            old_reg.lemma_index(j);
                        }
                    }
                    assert(self.view() =~= old_reg.view().insert(name@, system));
                }
                return true;
            }
            i += 1;
        }
        let ghost key = name@;
        self.panels.push((name, system));
        proof {
            let n = old_reg.panels.len() as int;
            assert forall|a: int, b: int| 0 <= a < b < self.panels.len() implies self.panels[a].0@ != self.panels[b].0@ by {
                if b < n {
                    assert(old_reg.panels[a].0@ != old_reg.panels[b].0@);
                } else {
                    assert(self.panels[a] == old_reg.panels[a]);
                }
            }
            self.lemma_index(n);
            assert(!old_reg.view().contains_key(key)) by {
                if old_reg.view().contains_key(key) {
                    let j = choose|j: int| 0 <= j < old_reg.panels.len() && old_reg.panels[j].0@ == key;
                }
            }
            assert forall|k: Seq<char>| #[trigger] self.view().contains_key(k) <==> old_reg.view().insert(key, system).contains_key(k) by {
                if self.view().contains_key(k) && k != key {
                    let j = choose|j: int| 0 <= j < self.panels.len() && self.panels[j].0@ == k;
                    assert(j < n);
                    assert(old_reg.panels[j].0@ == k);
                }
                if old_reg.view().contains_key(k) {
                    let j = choose|j: int| 0 <= j < old_reg.panels.len() && old_reg.panels[j].0@ == k;
                    assert(self.panels[j].0@ == k);
                }
            }
            assert forall|k: Seq<char>| #[trigger] self.view().contains_key(k) implies self.view()[k] == old_reg.view().insert(key, system)[k] by {
                let j = choose|j: int| 0 <= j < self.panels.len() && self.panels[j].0@ == k;
                self.lemma_index(j);
                if j < n {
                    assert(self.panels[j] == old_reg.panels[j]);
                    old_reg.lemma_index(j);
                }
            }
            assert(self.view() =~= old_reg.view().insert(key, system));
        }
        false
    }
}

/// A read after a registration gives what was registered.
pub proof fn law_register_then_get(before: Map<Seq<char>, u64>, name: Seq<char>, system: u64, other: Seq<char>)
    ensures
        before.insert(name, system)[name] == system,
        other != name ==> before.insert(name, system).contains_key(other) == before.contains_key(other),
        other != name && before.contains_key(other) ==> before.insert(name, system)[other] == before[other],
{
}

/// A node that holds the panel layout.
pub struct PanelArea;

/// The plugin that lays out panels.
pub struct EditorPanelLayoutPlugin;

/// The plugin that sets up panels.
pub struct EditorPanelPlugin;

} // verus!
