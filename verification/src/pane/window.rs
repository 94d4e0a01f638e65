//! Requests to open a pane in a window of its own.
use vstd::prelude::*;

verus! {

/// A request to open the pane named `name` in a new window.
pub struct OpenPane {
    pub name: String,
}

/// Whether some tab is named `name`.
pub open spec fn has_tab(open_tabs: Seq<String>, name: Seq<char>) -> bool {
    exists|t: int| 0 <= t < open_tabs.len() && #[trigger] open_tabs[t]@ == name
}

/// The requests that open a window, in their order: those whose pane has no
/// tab yet.
pub open spec fn requests_to_open(requests: Seq<String>, open_tabs: Seq<String>) -> Seq<Seq<char>>
    decreases requests.len(),
{
    if requests.len() == 0 {
        Seq::empty()
    } else {
        let rest = requests_to_open(requests.drop_last(), open_tabs);
        if has_tab(open_tabs, requests.last()@) {
            rest
        } else {
            rest.push(requests.last()@)
        }
    }
}

fn is_open(open_tabs: &Vec<String>, name: &String) -> (r: bool)
    ensures
        r == has_tab(open_tabs@, name@),
{
    let mut i: usize = 0;
    while i < open_tabs.len()
        invariant
            i <= open_tabs.len(),
            forall|t: int| 0 <= t < i ==> open_tabs@[t]@ != name@,
        decreases open_tabs.len() - i,
    {
        if open_tabs[i] == *name {
            return true;
        }
        i += 1;
    }
    false
}

/// The names of the panes to open in new windows: each request whose pane
/// is not already open as a tab.
pub fn panes_to_open(requests: &Vec<OpenPane>, open_tabs: &Vec<String>) -> (names: Vec<String>)
    ensures
        names@.map_values(|n: String| n@) == requests_to_open(requests@.map_values(|r: OpenPane| r.name), open_tabs@),
{
    let ghost names_of = requests@.map_values(|r: OpenPane| r.name);
    let mut names: Vec<String> = Vec::new();
    let mut i: usize = 0;
    while i < requests.len()
        invariant
            i <= requests.len(),
            names_of == requests@.map_values(|r: OpenPane| r.name),
            names@.map_values(|n: String| n@) == requests_to_open(names_of.take(i as int), open_tabs@),
        decreases requests.len() - i,
    {
        proof {
            assert(names_of.take(i + 1).drop_last() =~= names_of.take(i as int));
            assert(names_of.take(i + 1).last() == requests@[i as int].name);
        }
        let ghost before = names@;
        if !is_open(open_tabs, &requests[i].name) {
            names.push(requests[i].name.clone());
            proof {
                assert(names@.map_values(|n: String| n@) =~= before.map_values(|n: String| n@).push(requests@[i as int].name@));
            }
        }
        i += 1;
    }
    proof {
        assert(names_of.take(requests@.len() as int) =~= names_of);
    }
    names
}

/// The plugin that opens panes in windows of their own.
pub struct PaneWindowPlugin;

} // verus!
