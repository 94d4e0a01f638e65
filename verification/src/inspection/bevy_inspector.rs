//! The world inspector's choices: which entities a name filter keeps, in
//! which order resources and assets are listed, and how a handle is named.
use vstd::prelude::*;

use crate::fuzzy::{fuzzy_match, skim_score};
use crate::inspection::utils::{pretty_type_name_str, short_type_name};
use crate::text::{lemma_chars_less_irreflexive, lemma_lists_each_index_covers, index_occurs, lists_each_index, sort_by_name, sorts_before};

verus! {

/// `s` in lower case, as `str::to_lowercase` makes it.
pub uninterp spec fn lowercased(s: Seq<char>) -> Seq<char>;

/// Calls `str::to_lowercase`; which characters change is not stated here.
#[verifier::external_body]
fn to_lowercase(s: &str) -> (r: String)
    ensures
        r@ == lowercased(s@),
{
    s.to_lowercase()
}

/// Whether `needle` occurs in `haystack`.
pub open spec fn contains_text(haystack: Seq<char>, needle: Seq<char>) -> bool {
    exists|i: int| 0 <= i && i + needle.len() <= haystack.len() && #[trigger] haystack.subrange(i, i + needle.len()) == needle
}

/// Whether `needle` occurs in `haystack`, as `str::contains` tells.
pub fn text_contains(haystack: &str, needle: &str) -> (r: bool)
    ensures
        r == contains_text(haystack@, needle@),
{
    let hl = haystack.unicode_len();
    let nl = needle.unicode_len();
    if nl > hl {
        proof {
            assert(!contains_text(haystack@, needle@));
        }
        return false;
    }
    let mut i: usize = 0;
    while i <= hl - nl
        invariant
            hl == haystack@.len(),
            nl == needle@.len(),
            nl <= hl,
            i <= hl - nl + 1,
            forall|k: int| 0 <= k < i ==> #[trigger] haystack@.subrange(k, k + nl) != needle@,
        decreases hl - nl + 1 - i,
    {
        let mut j: usize = 0;
        let mut same = true;
        while j < nl && same
            invariant
                hl == haystack@.len(),
                nl == needle@.len(),
                i + nl <= hl,
                j <= nl,
                forall|t: int| 0 <= t < j ==> haystack@[i + t] == needle@[t],
                !same ==> j < nl && haystack@[i + j] != needle@[j as int],
            decreases nl - j + if same { 1int } else { 0int },
        {
            if haystack.get_char(i + j) != needle.get_char(j) {
                same = false;
            } else {
                j += 1;
            }
        }
        if same {
            proof {
                assert(haystack@.subrange(i as int, i + nl) =~= needle@);
            }
            return true;
        }
        proof {
            assert(haystack@.subrange(i as int, i + nl)[j as int] == haystack@[i + j]);
        }
        i += 1;
    }
    proof {
        assert forall|k: int| 0 <= k && k + needle@.len() <= haystack@.len() implies #[trigger] haystack@.subrange(
            k,
            k + needle@.len(),
        ) != needle@ by {
            assert(k < i);
        }
    }
    false
}

/// A name filter for entities: the typed word in lower case, matched fuzzily
/// or as a part of the name.
pub struct Filter {
    pub word: String,
    pub is_fuzzy: bool,
}

impl Filter {
    /// The filter for a typed word: the word in lower case.
    pub fn from_text(text: &str, is_fuzzy: bool) -> (f: Self)
        ensures
            f.word@ == lowercased(text@),
            f.is_fuzzy == is_fuzzy,
    {
        Filter { word: to_lowercase(text), is_fuzzy }
    }

    /// The empty filter, which keeps everything.
    pub fn all() -> (f: Self)
        ensures
            f.word@.len() == 0,
            !f.is_fuzzy,
    {
        Filter { word: String::new(), is_fuzzy: false }
    }

    /// Whether the filter keeps less than everything: its word is not empty.
    pub fn is_active(&self) -> (r: bool)
        ensures
            r == (self.word@.len() > 0),
    {
        self.word.unicode_len() > 0
    }
}

/// An entity's name and the names of its descendants.
pub struct EntityNameTree {
    pub name: String,
    pub children: Vec<EntityNameTree>,
}

/// Whether an entity's own name matches a filter word.
pub open spec fn name_matches(name: Seq<char>, word: Seq<char>, is_fuzzy: bool) -> bool {
    if is_fuzzy {
        skim_score(name, word) is Some
    } else {
        contains_text(lowercased(name), word)
    }
}

/// Whether an entity or one of its descendants matches a filter word.
pub open spec fn self_or_children_satisfy(node: EntityNameTree, word: Seq<char>, is_fuzzy: bool) -> bool
    decreases node,
{
    name_matches(node.name@, word, is_fuzzy) || exists|i: int|
        0 <= i < node.children@.len() && {
            proof {
                assert(decreases_to!(node => node.children@[i]));
            }
            self_or_children_satisfy(#[trigger] node.children@[i], word, is_fuzzy)
        }
}

/// The entity reached from `node` by following the child indices of `path`,
/// or nothing where an index is out of range.
pub open spec fn descendant_at(node: EntityNameTree, path: Seq<int>) -> Option<EntityNameTree>
    decreases path.len(),
{
    if path.len() == 0 {
        Some(node)
    } else if 0 <= path[0] < node.children@.len() {
        descendant_at(node.children@[path[0]], path.drop_first())
    } else {
        None
    }
}

/// Whether some entity of the tree under `node`, at any depth, `node` itself
/// included, has a name that matches the word.
pub open spec fn some_descendant_matches(node: EntityNameTree, word: Seq<char>, is_fuzzy: bool) -> bool {
    exists|path: Seq<int>|
        #[trigger] descendant_at(node, path) matches Some(d) && name_matches(d.name@, word, is_fuzzy)
}

/// An entity passes the filter exactly when it or one of its descendants, at
/// any depth, has a name that matches the word.
pub proof fn law_filter_keeps_matching_subtrees(node: EntityNameTree, word: Seq<char>, is_fuzzy: bool)
    ensures
        self_or_children_satisfy(node, word, is_fuzzy) == some_descendant_matches(node, word, is_fuzzy),
    decreases node,
{
    if self_or_children_satisfy(node, word, is_fuzzy) {
        if name_matches(node.name@, word, is_fuzzy) {
            assert(descendant_at(node, Seq::<int>::empty()) == Some(node));
        } else {
            let i = choose|i: int|
                0 <= i < node.children@.len() && self_or_children_satisfy(
                    #[trigger] node.children@[i],
                    word,
                    is_fuzzy,
                );
            let c = node.children@[i];
            assert(decreases_to!(node => c));
            law_filter_keeps_matching_subtrees(c, word, is_fuzzy);
            let p = choose|p: Seq<int>|
                #[trigger] descendant_at(c, p) matches Some(d) && name_matches(d.name@, word, is_fuzzy);
            let path = seq![i] + p;
            assert(path.drop_first() =~= p);
            assert(descendant_at(node, path) == descendant_at(c, p));
        }
    }
    if some_descendant_matches(node, word, is_fuzzy) {
        let path = choose|path: Seq<int>|
            #[trigger] descendant_at(node, path) matches Some(d) && name_matches(d.name@, word, is_fuzzy);
        if path.len() > 0 {
            let i = path[0];
            let c = node.children@[i];
            assert(decreases_to!(node => c));
            assert(descendant_at(c, path.drop_first()) == descendant_at(node, path));
            law_filter_keeps_matching_subtrees(c, word, is_fuzzy);
            assert(self_or_children_satisfy(node.children@[i], word, is_fuzzy));
        }
    }
}

/// Whether an entity or one of its descendants matches the filter word.
pub fn self_or_children_satisfy_filter(node: &EntityNameTree, word: &str, is_fuzzy: bool) -> (r: bool)
    ensures
        r == self_or_children_satisfy(*node, word@, is_fuzzy),
        r == some_descendant_matches(*node, word@, is_fuzzy),
    decreases node,
{
    proof {
        law_filter_keeps_matching_subtrees(*node, word@, is_fuzzy);
    }
    let self_matches = if is_fuzzy {
        fuzzy_match(node.name.as_str(), word).is_some()
    } else {
        let lower = to_lowercase(node.name.as_str());
        text_contains(lower.as_str(), word)
    };
    if self_matches {
        return true;
    }
    let mut i: usize = 0;
    while i < node.children.len()
        invariant
            i <= node.children.len(),
            forall|j: int| 0 <= j < i ==> !self_or_children_satisfy(#[trigger] node.children@[j], word@, is_fuzzy),
            self_or_children_satisfy(*node, word@, is_fuzzy) == some_descendant_matches(*node, word@, is_fuzzy),
        decreases node.children.len() - i,
    {
        proof {
            assert(decreases_to!(*node => node.children@[i as int]));
        }
        if self_or_children_satisfy_filter(&node.children[i], word, is_fuzzy) {
            return true;
        }
        i += 1;
    }
    false
}

/// Whether the filter keeps an entity: it is not active, or the entity or a
/// descendant matches.
pub open spec fn keeps_entity(word: Seq<char>, is_fuzzy: bool, e: EntityNameTree) -> bool {
    word.len() == 0 || self_or_children_satisfy(e, word, is_fuzzy)
}

/// Whether `j` is one of `kept`.
pub open spec fn in_kept(kept: Seq<usize>, j: int) -> bool {
    exists|t: int| 0 <= t < kept.len() && kept[t] == j
}

/// The entities a filter keeps, by index: all of them where it is not
/// active, else those that match or have a descendant that matches.
pub fn filter_entities(filter: &Filter, entities: &Vec<EntityNameTree>) -> (kept: Vec<usize>)
    ensures
        forall|t: int| 0 <= t < kept@.len() ==> #[trigger] kept@[t] < entities@.len(),
        forall|a: int, b: int| 0 <= a < b < kept@.len() ==> kept@[a] < kept@[b],
        forall|i: int| 0 <= i < entities@.len() ==> (in_kept(kept@, i) <==> #[trigger] keeps_entity(
            filter.word@,
            filter.is_fuzzy,
            entities@[i],
        )),
        forall|i: int| 0 <= i < entities@.len() ==> (#[trigger] in_kept(kept@, i) <==> (filter.word@.len()
            == 0 || some_descendant_matches(entities@[i], filter.word@, filter.is_fuzzy))),
{
    let active = filter.is_active();
    let mut kept: Vec<usize> = Vec::new();
    let mut i: usize = 0;
    while i < entities.len()
        invariant
            i <= entities.len(),
            active == (filter.word@.len() > 0),
            forall|t: int| 0 <= t < kept@.len() ==> #[trigger] kept@[t] < i,
            forall|a: int, b: int| 0 <= a < b < kept@.len() ==> kept@[a] < kept@[b],
            forall|j: int| 0 <= j < i ==> (in_kept(kept@, j) <==> #[trigger] keeps_entity(
                filter.word@,
                filter.is_fuzzy,
                entities@[j],
            )),
        decreases entities.len() - i,
    {
        let ghost k0 = kept@;
        let keep = !active || self_or_children_satisfy_filter(&entities[i], filter.word.as_str(), filter.is_fuzzy);
        if keep {
            kept.push(i);
        }
        proof {
            assert forall|j: int| 0 <= j < i + 1 implies (in_kept(kept@, j) <==> #[trigger] keeps_entity(
                filter.word@,
                filter.is_fuzzy,
                entities@[j],
            )) by {
                let pj = keeps_entity(filter.word@, filter.is_fuzzy, entities@[j]);
                if j < i {
                    assert(in_kept(k0, j) <==> pj);
                    if in_kept(kept@, j) {
                        let t = choose|t: int| 0 <= t < kept@.len() && kept@[t] == j;
                        if t < k0.len() {
                            assert(k0[t] == j);
                        }
                        assert(in_kept(k0, j));
                    }
                    if in_kept(k0, j) {
                        let t = choose|t: int| 0 <= t < k0.len() && k0[t] == j;
                        assert(kept@[t] == j);
                    }
                } else {
                    assert(keep == pj);
                    if keep {
                        assert(kept@[kept@.len() - 1] == j);
                    } else {
                        if in_kept(kept@, j) {
                            let t = choose|t: int| 0 <= t < kept@.len() && kept@[t] == j;
                            assert(k0[t] < i);
                        }
                    }
                }
            }
        }
        i += 1;
    }
    proof {
        assert forall|i: int| 0 <= i < entities@.len() implies (#[trigger] in_kept(kept@, i) <==> (
        filter.word@.len() == 0 || some_descendant_matches(entities@[i], filter.word@, filter.is_fuzzy))) by {
            law_filter_keeps_matching_subtrees(entities@[i], filter.word@, filter.is_fuzzy);
            assert(in_kept(kept@, i) <==> keeps_entity(filter.word@, filter.is_fuzzy, entities@[i]));
        }
    }
    kept
}

/// The character of the hexadecimal digit `d`, in lower case.
pub open spec fn hex_char(d: int) -> char {
    if d < 10 {
        (48 + d) as char
    } else {
        (87 + d) as char
    }
}

/// The `i`-th hexadecimal digit of `u`, the most significant first.
pub open spec fn uuid_nibble(u: u128, i: int) -> int {
    ((u >> ((4 * (31 - i)) as u128)) & 0xfu128) as int
}

/// The number of hyphens before place `j` of a written uuid.
pub open spec fn hyphens_before(j: int) -> int {
    if j < 8 {
        0
    } else if j < 13 {
        1
    } else if j < 18 {
        2
    } else if j < 23 {
        3
    } else {
        4
    }
}

/// A uuid as it is written: 32 lower-case hexadecimal digits in groups of
/// 8, 4, 4, 4 and 12, joined by hyphens.
pub open spec fn hyphenated(u: u128) -> Seq<char> {
    Seq::new(
        36,
        |j: int|
            if j == 8 || j == 13 || j == 18 || j == 23 {
                '-'
            } else {
                hex_char(uuid_nibble(u, j - hyphens_before(j)))
            },
    )
}

/// Writes a uuid with `Uuid`'s `Display`; its source writes the hyphenated
/// lower-case form of the uuid's bytes, most significant first.
#[verifier::external_body]
fn uuid_text(u: u128) -> (r: String)
    ensures
        r@ == hyphenated(u),
{
    uuid::Uuid::from_u128(u).to_string()
}

/// The id of an asset: by index (written as the engine writes it) or by uuid.
pub enum AssetIdText {
    Index(String),
    Uuid(u128),
}

/// The name under which an asset is listed: its path where the asset server
/// knows one, else its id.
pub fn handle_name(path: Option<String>, id: &AssetIdText) -> (name: String)
    ensures
        name@ == match path {
            Some(p) => p@,
            None => match *id {
                AssetIdText::Index(t) => t@,
                AssetIdText::Uuid(u) => hyphenated(u),
            },
        },
{
    match path {
        Some(p) => p,
        None => match id {
            AssetIdText::Index(t) => t.clone(),
            AssetIdText::Uuid(u) => uuid_text(*u),
        },
    }
}

/// The listed entries (resources or assets) among `entries`, each a short
/// name and whether it is listed, sorted by name, ties keeping their order.
pub fn sorted_listing(entries: &Vec<(String, bool)>) -> (order: Vec<usize>)
    ensures
        forall|t: int| 0 <= t < order@.len() ==> #[trigger] order@[t] < entries@.len() && entries@[order@[t] as int].1,
        forall|i: int| 0 <= i < entries@.len() && #[trigger] entries@[i].1 ==> exists|t: int|
            0 <= t < order@.len() && order@[t] == i,
        forall|a: int, b: int| 0 <= a < b < order@.len() ==> order@[a] != order@[b],
        forall|a: int, b: int| 0 <= a < b < order@.len() ==> sorts_before(
            entries@.map_values(|e: (String, bool)| e.0@),
            order@[a] as int,
            order@[b] as int,
        ),
{
    let mut names: Vec<String> = Vec::new();
    let mut index: Vec<usize> = Vec::new();
    let mut i: usize = 0;
    while i < entries.len()
        invariant
            i <= entries.len(),
            names@.len() == index@.len(),
            forall|t: int| 0 <= t < index@.len() ==> #[trigger] index@[t] < i && entries@[index@[t] as int].1
                && names@[t]@ == entries@[index@[t] as int].0@,
            forall|a: int, b: int| 0 <= a < b < index@.len() ==> index@[a] < index@[b],
            forall|j: int| 0 <= j < i && #[trigger] entries@[j].1 ==> exists|t: int| 0 <= t < index@.len() && index@[t] == j,
        decreases entries.len() - i,
    {
        let ghost i0 = index@;
        if entries[i].1 {
            names.push(entries[i].0.clone());
            index.push(i);
        }
        proof {
            assert forall|j: int| 0 <= j < i + 1 && #[trigger] entries@[j].1 implies exists|t: int|
                0 <= t < index@.len() && index@[t] == j by {
                if j < i {
                    let t = choose|t: int| 0 <= t < i0.len() && i0[t] == j;
                    assert(index@[t] == j);
                } else {
                    assert(index@[index@.len() - 1] == j);
                }
            }
        }
        i += 1;
    }
    let sub = sort_by_name(&names);
    proof {
        lemma_lists_each_index_covers(sub@, names@.len());
    }
    let ghost ns = names@.map_values(|s: String| s@);
    let ghost es = entries@.map_values(|e: (String, bool)| e.0@);
    let mut order: Vec<usize> = Vec::new();
    let mut k: usize = 0;
    while k < sub.len()
        invariant
            k <= sub.len(),
            lists_each_index(sub@, names@.len()),
            names@.len() == index@.len(),
            ns == names@.map_values(|s: String| s@),
            es == entries@.map_values(|e: (String, bool)| e.0@),
            forall|t: int| 0 <= t < index@.len() ==> #[trigger] index@[t] < entries@.len() && entries@[index@[t] as int].1
                && names@[t]@ == entries@[index@[t] as int].0@,
            forall|a: int, b: int| 0 <= a < b < index@.len() ==> index@[a] < index@[b],
            order@.len() == k,
            forall|t: int| 0 <= t < k ==> #[trigger] order@[t] == index@[sub@[t] as int],
        decreases sub.len() - k,
    {
        order.push(index[sub[k]]);
        k += 1;
    }
    proof {
        assert forall|a: int, b: int| 0 <= a < b < order@.len() implies order@[a] != order@[b] by {
            assert(sub@[a] != sub@[b]);
            let (x, y) = (sub@[a] as int, sub@[b] as int);
            if x < y {
                assert(index@[x] < index@[y]);
            } else {
                assert(index@[y] < index@[x]);
            }
        }
        assert forall|a: int, b: int| 0 <= a < b < order@.len() implies sorts_before(es, order@[a] as int, order@[b] as int) by {
            let (x, y) = (sub@[a] as int, sub@[b] as int);
            assert(sorts_before(ns, x, y));
            assert(ns[x] == es[index@[x] as int]);
            assert(ns[y] == es[index@[y] as int]);
            if ns[x] == ns[y] {
                lemma_chars_less_irreflexive(ns[x]);
                assert(x < y);
                assert(index@[x] < index@[y]);
            }
        }
        assert forall|j: int| 0 <= j < entries@.len() && #[trigger] entries@[j].1 implies exists|t: int|
            0 <= t < order@.len() && order@[t] == j by {
            let t = choose|t: int| 0 <= t < index@.len() && index@[t] == j;
            assert(index_occurs(sub@, t));
            let s = choose|s: int| 0 <= s < sub@.len() && #[trigger] sub@[s] == t;
            assert(order@[s] == j);
        }
    }
    order
}

/// A component of an entity as the world inspector lists it: its short type
/// name, id, type key (if it has a Rust type) and size.
pub struct ComponentRow {
    pub name: String,
    pub component_id: u64,
    pub type_key: Option<u64>,
    pub size: usize,
}

/// A component as the world describes it: its full type name, id, type key
/// and size.
pub struct ComponentEntry {
    pub name: String,
    pub component_id: u64,
    pub type_key: Option<u64>,
    pub size: usize,
}

/// The components of an entity under their short names, sorted by name,
/// ties keeping the entity's order; `order` gives where each row comes from.
pub open spec fn lists_components(entries: Seq<ComponentEntry>, order: Seq<usize>, rows: Seq<ComponentRow>) -> bool {
    let names = entries.map_values(|e: ComponentEntry| short_type_name(e.name@));
    &&& lists_each_index(order, entries.len())
    &&& rows.len() == entries.len()
    &&& forall|k: int| 0 <= k < rows.len() ==> {
        let e = entries[order[k] as int];
        &&& (#[trigger] rows[k]).name@ == names[order[k] as int]
        &&& rows[k].component_id == e.component_id
        &&& rows[k].type_key == e.type_key
        &&& rows[k].size == e.size
    }
    &&& forall|a: int, b: int| 0 <= a < b < order.len() ==> sorts_before(names, order[a] as int, order[b] as int)
}

/// The components of an entity as the world inspector lists them.
pub fn components_of_entity(entries: &Vec<ComponentEntry>) -> (rows: Vec<ComponentRow>)
    ensures
        exists|order: Seq<usize>| #[trigger] lists_components(entries@, order, rows@),
{
    let ghost names_spec = entries@.map_values(|e: ComponentEntry| short_type_name(e.name@));
    let mut names: Vec<String> = Vec::new();
    let mut i: usize = 0;
    while i < entries.len()
        invariant
            i <= entries.len(),
            names@.len() == i,
            names_spec == entries@.map_values(|e: ComponentEntry| short_type_name(e.name@)),
            forall|j: int| 0 <= j < i ==> #[trigger] names@[j]@ == names_spec[j],
        decreases entries.len() - i,
    {
        names.push(pretty_type_name_str(entries[i].name.as_str()));
        i += 1;
    }
    proof {
        assert(names@.map_values(|s: String| s@) =~= names_spec);
    }
    let order = sort_by_name(&names);
    let mut rows: Vec<ComponentRow> = Vec::new();
    let mut k: usize = 0;
    while k < order.len()
        invariant
            k <= order.len(),
            lists_each_index(order@, entries@.len()),
            names@.len() == entries@.len(),
            names_spec == entries@.map_values(|e: ComponentEntry| short_type_name(e.name@)),
            forall|j: int| 0 <= j < names@.len() ==> #[trigger] names@[j]@ == names_spec[j],
            rows@.len() == k,
            forall|t: int| 0 <= t < k ==> {
                let e = entries@[order@[t] as int];
                &&& (#[trigger] rows@[t]).name@ == names_spec[order@[t] as int]
                &&& rows@[t].component_id == e.component_id
                &&& rows@[t].type_key == e.type_key
                &&& rows@[t].size == e.size
            },
        decreases order.len() - k,
    {
        let idx = order[k];
        let e = &entries[idx];
        rows.push(ComponentRow { name: names[idx].clone(), component_id: e.component_id, type_key: e.type_key, size: e.size });
        k += 1;
    }
    proof {
        assert(lists_components(entries@, order@, rows@));
    }
    rows
}

} // verus!
