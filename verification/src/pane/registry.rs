//! The registry of pane contents: for each pane name, the system that fills
//! a pane of that name, once it is registered with the world.
use vstd::prelude::*;

verus! {

/// The system of a pane: not yet registered with the world, or registered
/// under an id.
pub enum PaneSystem<S> {
    Unregistered(S),
    Registered(u64),
}

/// A registered pane name and its system; the system is out while it is
/// being registered.
pub struct PaneState<S> {
    pub name: String,
    pub system: Option<PaneSystem<S>>,
}

/// What the registry knows of a pane name.
pub enum PaneStatus<S> {
    /// Its system is out, being registered.
    Absent,
    /// Its system waits to be registered.
    Pending(S),
    /// Its system is registered under this id.
    Registered(u64),
}

/// The status that a pane's system stands for.
pub open spec fn status_of<S>(system: Option<PaneSystem<S>>) -> PaneStatus<S> {
    match system {
        None => PaneStatus::Absent,
        Some(PaneSystem::Unregistered(s)) => PaneStatus::Pending(s),
        Some(PaneSystem::Registered(id)) => PaneStatus::Registered(id),
    }
}

/// The panes that can be opened, by name.
pub struct PaneRegistry<S> {
    panes: Vec<PaneState<S>>,
}

impl<S> PaneRegistry<S> {
    /// The status of each registered name.
    pub closed spec fn view(&self) -> Map<Seq<char>, PaneStatus<S>> {
        Map::new(
            |k: Seq<char>| exists|i: int| 0 <= i < self.panes.len() && self.panes[i].name@ == k,
            |k: Seq<char>| status_of(self.panes[self.index_of_name(k)].system),
        )
    }

    closed spec fn index_of_name(&self, k: Seq<char>) -> int {
        choose|i: int| 0 <= i < self.panes.len() && self.panes[i].name@ == k
    }

    /// No name is registered twice.
    pub closed spec fn wf(&self) -> bool {
        forall|i: int, j: int| 0 <= i < j < self.panes.len() ==> self.panes[i].name@ != self.panes[j].name@
    }

    proof fn lemma_index(&self, i: int)
        requires
            self.wf(),
            0 <= i < self.panes.len(),
        ensures
            self.view().contains_key(self.panes[i].name@),
            self.index_of_name(self.panes[i].name@) == i,
            self.view()[self.panes[i].name@] == status_of(self.panes[i].system),
    {
        let k = self.panes[i].name@;
        assert(exists|j: int| 0 <= j < self.panes.len() && self.panes[j].name@ == k);
        let j = self.index_of_name(k);
        if j != i {
            if j < i {
                assert(self.panes[j].name@ != self.panes[i].name@);
            } else {
                assert(self.panes[i].name@ != self.panes[j].name@);
            }
        }
    }

    /// Replacing the state at `g` (with the same name), or adding one with a
    /// new name at the end, updates the view at that name alone.
    proof fn lemma_view_update(&self, old_reg: &Self, g: int)
        requires
            old_reg.wf(),
            0 <= g <= old_reg.panes.len(),
            self.panes.len() == (if g == old_reg.panes.len() {
                old_reg.panes.len() + 1
            } else {
                old_reg.panes.len() as int
            }),
            forall|i: int| 0 <= i < self.panes.len() && i != g ==> self.panes[i] == old_reg.panes[i],
            g < old_reg.panes.len() ==> self.panes[g].name@ == old_reg.panes[g].name@,
            g == old_reg.panes.len() ==> !old_reg.view().contains_key(self.panes[g].name@),
        ensures
            self.wf(),
            self.view() == old_reg.view().insert(self.panes[g].name@, status_of(self.panes[g].system)),
    {
        let name = self.panes[g].name@;
        assert forall|i: int, j: int| 0 <= i < j < self.panes.len() implies self.panes[i].name@ != self.panes[j].name@ by {
            if j == g && g == old_reg.panes.len() {
                assert(self.panes[i] == old_reg.panes[i]);
                if self.panes[i].name@ == name {
                    assert(old_reg.view().contains_key(name));
                }
            } else if i == g {
                assert(self.panes[j] == old_reg.panes[j]);
                assert(old_reg.panes[i].name@ != old_reg.panes[j].name@);
            } else if j == g {
                assert(self.panes[i] == old_reg.panes[i]);
                assert(old_reg.panes[i].name@ != old_reg.panes[j].name@);
            } else {
                assert(self.panes[i] == old_reg.panes[i]);
                assert(self.panes[j] == old_reg.panes[j]);
            }
        }
        let target = old_reg.view().insert(name, status_of(self.panes[g].system));
        assert forall|k: Seq<char>| #[trigger] self.view().contains_key(k) <==> target.contains_key(k) by {
            if self.view().contains_key(k) && k != name {
                let i = choose|i: int| 0 <= i < self.panes.len() && self.panes[i].name@ == k;
                assert(i != g);
                assert(self.panes[i] == old_reg.panes[i]);
                assert(old_reg.panes[i].name@ == k);
            }
            if old_reg.view().contains_key(k) {
                let i = choose|i: int| 0 <= i < old_reg.panes.len() && old_reg.panes[i].name@ == k;
                if i != g {
                    assert(self.panes[i] == old_reg.panes[i]);
                }
                assert(self.panes[i].name@ == k);
            }
            if k == name {
                assert(self.panes[g].name@ == k);
            }
        }
        assert forall|k: Seq<char>| #[trigger] self.view().contains_key(k) implies self.view()[k] == target[k] by {
            let i = choose|i: int| 0 <= i < self.panes.len() && self.panes[i].name@ == k;
            self.lemma_index(i);
            if i != g {
                assert(self.panes[i] == old_reg.panes[i]);
                old_reg.lemma_index(i);
            }
        }
        assert(self.view() =~= target);
    }

    pub fn new() -> (r: Self)
        ensures
            r.wf(),
            r.view() == Map::<Seq<char>, PaneStatus<S>>::empty(),
    {
        let r = PaneRegistry { panes: Vec::new() };
        assert(r.view() =~= Map::<Seq<char>, PaneStatus<S>>::empty());
        r
    }

    fn find(&self, name: &str) -> (r: Option<usize>)
        requires
            self.wf(),
        ensures
            match r {
                Some(i) => i < self.panes.len() && self.panes[i as int].name@ == name@,
                None => !self.view().contains_key(name@),
            },
    {
        let key = name.to_string();
        let mut i: usize = 0;
        while i < self.panes.len()
            invariant
                i <= self.panes.len(),
                key@ == name@,
                forall|j: int| 0 <= j < i ==> self.panes[j].name@ != name@,
            decreases self.panes.len() - i,
        {
            if self.panes[i].name == key {
                return Some(i);
            }
            i += 1;
        }
        None
    }

    /// The names whose systems are registered.
    pub fn names(&self) -> (names: Vec<String>)
        requires
            self.wf(),
        ensures
            forall|k: Seq<char>| (exists|i: int| 0 <= i < names@.len() && #[trigger] names@[i]@ == k) <==> (
            self.view().contains_key(k) && self.view()[k] is Registered),
            forall|i: int, j: int| 0 <= i < j < names@.len() ==> names@[i]@ != names@[j]@,
    {
        let mut names: Vec<String> = Vec::new();
        let ghost mut taken: Seq<int> = Seq::empty();
        let mut i: usize = 0;
        while i < self.panes.len()
            invariant
                i <= self.panes.len(),
                self.wf(),
                taken.len() == names@.len(),
                forall|t: int| 0 <= t < taken.len() ==> 0 <= #[trigger] taken[t] < i && names@[t]@ == self.panes[taken[t]].name@
                    && status_of(self.panes[taken[t]].system) is Registered,
                forall|j: int| 0 <= j < i && status_of(#[trigger] self.panes[j].system) is Registered ==> exists|t: int|
                    0 <= t < taken.len() && taken[t] == j,
                forall|a: int, b: int| 0 <= a < b < taken.len() ==> taken[a] < taken[b],
            decreases self.panes.len() - i,
        {
            let registered = match &self.panes[i].system {
                Some(PaneSystem::Registered(_)) => true,
                _ => false,
            };
            let ghost taken0 = taken;
            if registered {
                names.push(self.panes[i].name.clone());
                proof {
                    taken = taken.push(i as int);
                }
            }
            proof {
                assert forall|j: int| 0 <= j < i + 1 && status_of(#[trigger] self.panes[j].system) is Registered implies exists|t: int|
                    0 <= t < taken.len() && taken[t] == j by {
                    if j < i {
                        let t = choose|t: int| 0 <= t < taken0.len() && taken0[t] == j;
                        assert(taken[t] == j);
                    } else {
                        assert(registered);
                        assert(taken[taken.len() - 1] == j);
                    }
                }
            }
            i += 1;
        }
        proof {
            assert forall|k: Seq<char>| (exists|t: int| 0 <= t < names@.len() && #[trigger] names@[t]@ == k) <==> (
            self.view().contains_key(k) && self.view()[k] is Registered) by {
                if exists|t: int| 0 <= t < names@.len() && #[trigger] names@[t]@ == k {
                    let t = choose|t: int| 0 <= t < names@.len() && #[trigger] names@[t]@ == k;
                    self.lemma_index(taken[t]);
                }
                if self.view().contains_key(k) && self.view()[k] is Registered {
                    let j = choose|j: int| 0 <= j < self.panes.len() && self.panes[j].name@ == k;
                    self.lemma_index(j);
                    assert(status_of(self.panes[j].system) is Registered);
                    let t = choose|t: int| 0 <= t < taken.len() && taken[t] == j;
                    assert(names@[t]@ == k);
                }
            }
            assert forall|a: int, b: int| 0 <= a < b < names@.len() implies names@[a]@ != names@[b]@ by {
                assert(taken[a] < taken[b]);
            }
        }
        names
    }

    /// The id of the system that fills panes named `name`, once registered.
    pub fn get(&self, name: &str) -> (r: Option<u64>)
        requires
            self.wf(),
        ensures
            r == (if self.view().contains_key(name@) && self.view()[name@] is Registered {
                Some(self.view()[name@]->Registered_0)
            } else {
                None::<u64>
            }),
    {
        match self.find(name) {
            None => None,
            Some(i) => {
                proof {
                    self.lemma_index(i as int);
                }
                match &self.panes[i].system {
                    Some(PaneSystem::Registered(id)) => Some(*id),
                    _ => None,
                }
            },
        }
    }

    /// Registers `system` for panes named `name`; a system registered for
    /// that name before is replaced, which the result tells.
    pub fn register(&mut self, name: String, system: S) -> (replaced: bool)
        requires
            old(self).wf(),
        ensures
            final(self).wf(),
            final(self).view() == old(self).view().insert(name@, PaneStatus::Pending(system)),
            replaced == old(self).view().contains_key(name@),
    {
        let ghost old_reg = *self;
        match self.find(name.as_str()) {
            Some(i) => {
                self.panes.set(i, PaneState { name, system: Some(PaneSystem::Unregistered(system)) });
                proof {
                    old_reg.lemma_index(i as int);
                    self.lemma_view_update(&old_reg, i as int);
                }
                true
            },
            None => {
                self.panes.push(PaneState { name, system: Some(PaneSystem::Unregistered(system)) });
                proof {
                    self.lemma_view_update(&old_reg, old_reg.panes.len() as int);
                }
                false
            },
        }
    }

    /// Takes out the systems that wait to be registered, with their names,
    /// for the world to register; their names are left without a system
    /// until `complete_registration` gives them their ids.
    #[verifier::rlimit(40)]
    pub fn take_pending(&mut self) -> (pending: Vec<(String, S)>)
        requires
            old(self).wf(),
        ensures
            final(self).wf(),
            final(self).view().dom() == old(self).view().dom(),
            forall|k: Seq<char>| #[trigger] old(self).view().contains_key(k) ==> final(self).view()[k] == (if old(self).view()[k] is Pending {
                PaneStatus::Absent
            } else {
                old(self).view()[k]
            }),
            forall|k: Seq<char>| (exists|t: int| 0 <= t < pending@.len() && #[trigger] pending@[t].0@ == k) <==> (
            old(self).view().contains_key(k) && old(self).view()[k] is Pending),
            forall|t: int| 0 <= t < pending@.len() ==> old(self).view().contains_key(#[trigger] pending@[t].0@)
                && old(self).view()[pending@[t].0@] == PaneStatus::Pending(pending@[t].1),
    {
        let ghost old_reg = *self;
        let mut pending: Vec<(String, S)> = Vec::new();
        let ghost mut src: Seq<int> = Seq::empty();
        let mut i: usize = 0;
        while i < self.panes.len()
            invariant
                old_reg.wf(),
                i <= self.panes.len(),
                self.panes.len() == old_reg.panes.len(),
                forall|j: int| 0 <= j < self.panes.len() ==> #[trigger] self.panes[j].name@ == old_reg.panes[j].name@,
                forall|j: int| 0 <= j < i ==> #[trigger] status_of(self.panes[j].system) == (if status_of(old_reg.panes[j].system) is Pending {
                    PaneStatus::Absent
                } else {
                    status_of(old_reg.panes[j].system)
                }),
                forall|j: int| i <= j < self.panes.len() ==> #[trigger] self.panes[j] == old_reg.panes[j],
                src.len() == pending@.len(),
                forall|t: int| 0 <= t < src.len() ==> 0 <= #[trigger] src[t] < i && pending@[t].0@ == old_reg.panes[src[t]].name@
                    && status_of(old_reg.panes[src[t]].system) == PaneStatus::Pending(pending@[t].1),
                forall|j: int| 0 <= j < i && status_of(#[trigger] old_reg.panes[j].system) is Pending ==> exists|t: int|
                    0 <= t < src.len() && src[t] == j,
            decreases self.panes.len() - i,
        {
            let mut st = PaneState { name: String::new(), system: None };
            self.panes.set_and_swap(i, &mut st);
            proof {
                assert(st == old_reg.panes[i as int]);
            }
            let PaneState { name, system } = st;
            let ghost src0 = src;
            match system {
                Some(PaneSystem::Unregistered(sys)) => {
                    let kept = name.clone();
                    pending.push((name, sys));
                    self.panes.set(i, PaneState { name: kept, system: None });
                    proof {
                        src = src.push(i as int);
                    }
                },
                other => {
                    self.panes.set(i, PaneState { name, system: other });
                },
            }
            proof {
                assert forall|j: int| 0 <= j < i + 1 && status_of(#[trigger] old_reg.panes[j].system) is Pending implies exists|t: int|
                    0 <= t < src.len() && src[t] == j by {
                    if j < i {
                        let t = choose|t: int| 0 <= t < src0.len() && src0[t] == j;
                        assert(src[t] == j);
                    } else {
                        assert(src[src.len() - 1] == j);
                    }
                }
            }
            i += 1;
        }
        proof {
            assert forall|a: int, b: int| 0 <= a < b < self.panes.len() implies self.panes[a].name@ != self.panes[b].name@ by {
                assert(self.panes[a].name@ == old_reg.panes[a].name@);
                assert(self.panes[b].name@ == old_reg.panes[b].name@);
            }
            assert forall|k: Seq<char>| #[trigger] self.view().contains_key(k) <==> old_reg.view().contains_key(k) by {
                if self.view().contains_key(k) {
                    let j = choose|j: int| 0 <= j < self.panes.len() && self.panes[j].name@ == k;
                    assert(old_reg.panes[j].name@ == k);
                }
                if old_reg.view().contains_key(k) {
                    let j = choose|j: int| 0 <= j < old_reg.panes.len() && old_reg.panes[j].name@ == k;
                    assert(self.panes[j].name@ == k);
                }
            }
            assert(self.view().dom() =~= old_reg.view().dom());
            assert forall|k: Seq<char>| #[trigger] old_reg.view().contains_key(k) implies self.view()[k] == (if old_reg.view()[k] is Pending {
                PaneStatus::Absent
            } else {
                old_reg.view()[k]
            }) by {
                let j = choose|j: int| 0 <= j < old_reg.panes.len() && old_reg.panes[j].name@ == k;
                old_reg.lemma_index(j);
                assert(self.panes[j].name@ == k);
                self.lemma_index(j);
            }
            assert forall|t: int| 0 <= t < pending@.len() implies old_reg.view().contains_key(#[trigger] pending@[t].0@)
                && old_reg.view()[pending@[t].0@] == PaneStatus::Pending(pending@[t].1) by {
                old_reg.lemma_index(src[t]);
            }
            assert forall|k: Seq<char>| (exists|t: int| 0 <= t < pending@.len() && #[trigger] pending@[t].0@ == k) <==> (
            old_reg.view().contains_key(k) && old_reg.view()[k] is Pending) by {
                if exists|t: int| 0 <= t < pending@.len() && #[trigger] pending@[t].0@ == k {
                    let t = choose|t: int| 0 <= t < pending@.len() && #[trigger] pending@[t].0@ == k;
                    old_reg.lemma_index(src[t]);
                }
                if old_reg.view().contains_key(k) && old_reg.view()[k] is Pending {
                    let j = choose|j: int| 0 <= j < old_reg.panes.len() && old_reg.panes[j].name@ == k;
                    old_reg.lemma_index(j);
                    let t = choose|t: int| 0 <= t < src.len() && src[t] == j;
                    assert(pending@[t].0@ == k);
                }
            }
        }
        pending
    }

    /// Records that the system for panes named `name` is registered under `id`.
    pub fn complete_registration(&mut self, name: &str, id: u64)
        requires
            old(self).wf(),
        ensures
            final(self).wf(),
            final(self).view() == (if old(self).view().contains_key(name@) {
                old(self).view().insert(name@, PaneStatus::Registered(id))
            } else {
                old(self).view()
            }),
    {
        let ghost old_reg = *self;
        match self.find(name) {
            Some(i) => {
                let mut st = PaneState { name: String::new(), system: None };
                self.panes.set_and_swap(i, &mut st);
                let PaneState { name: key, system: _ } = st;
                self.panes.set(i, PaneState { name: key, system: Some(PaneSystem::Registered(id)) });
                proof {
                    self.lemma_view_update(&old_reg, i as int);
                }
            },
            None => {},
        }
    }
}

/// Once the systems that `take_pending` took out are registered and their
/// ids recorded, every name whose system waited is registered, and the other
/// names keep their status.
pub proof fn law_registration_completes<S>(before: Map<Seq<char>, PaneStatus<S>>, taken: Map<Seq<char>, PaneStatus<S>>, ids: Map<Seq<char>, u64>)
    requires
        taken.dom() == before.dom(),
        forall|k: Seq<char>| #[trigger] before.contains_key(k) ==> taken[k] == (if before[k] is Pending {
            PaneStatus::Absent
        } else {
            before[k]
        }),
        forall|k: Seq<char>| #[trigger] ids.contains_key(k) <==> before.contains_key(k) && before[k] is Pending,
    ensures
        forall|k: Seq<char>| #[trigger] before.contains_key(k) ==> !(taken.union_prefer_right(
            ids.map_values(|id: u64| PaneStatus::<S>::Registered(id)),
        )[k] is Pending),
{
    assert forall|k: Seq<char>| #[trigger] before.contains_key(k) implies !(taken.union_prefer_right(
        ids.map_values(|id: u64| PaneStatus::<S>::Registered(id)),
    )[k] is Pending) by {
        if ids.contains_key(k) {
            assert(ids.map_values(|id: u64| PaneStatus::<S>::Registered(id)).contains_key(k));
        }
    }
}

/// A request that panes of a name be registered.
pub enum PaneRegistrySystems {
    Registration,
}

} // verus!
