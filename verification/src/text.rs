//! The order of texts: lexicographic by character, as `str` orders them.
use vstd::prelude::*;

verus! {

/// Whether `a` comes strictly before `b`: at the first character where they
/// differ `a` has the smaller one, or `a` is a proper prefix of `b`.
pub open spec fn chars_less(a: Seq<char>, b: Seq<char>) -> bool
    decreases a.len(),
{
    if b.len() == 0 {
        false
    } else if a.len() == 0 {
        true
    } else if a[0] != b[0] {
        (a[0] as int) < (b[0] as int)
    } else {
        chars_less(a.drop_first(), b.drop_first())
    }
}

pub proof fn lemma_chars_less_irreflexive(a: Seq<char>)
    ensures
        !chars_less(a, a),
    decreases a.len(),
{
    if a.len() > 0 {
        lemma_chars_less_irreflexive(a.drop_first());
    }
}

pub proof fn lemma_chars_less_transitive(a: Seq<char>, b: Seq<char>, c: Seq<char>)
    requires
        chars_less(a, b),
        chars_less(b, c),
    ensures
        chars_less(a, c),
    decreases a.len(),
{
    if a.len() > 0 && b.len() > 0 && c.len() > 0 {
        if a[0] == b[0] && b[0] == c[0] {
            lemma_chars_less_transitive(a.drop_first(), b.drop_first(), c.drop_first());
        }
    }
}

pub proof fn lemma_chars_less_total(a: Seq<char>, b: Seq<char>)
    requires
        a != b,
    ensures
        chars_less(a, b) || chars_less(b, a),
    decreases a.len(),
{
    if a.len() > 0 && b.len() > 0 {
        if a[0] == b[0] {
            if a.drop_first() == b.drop_first() {
                assert(a =~= seq![a[0]] + a.drop_first());
                assert(b =~= seq![b[0]] + b.drop_first());
            }
            lemma_chars_less_total(a.drop_first(), b.drop_first());
        } else {
            assert((a[0] as int) != (b[0] as int));
        }
    } else if a.len() == 0 && b.len() == 0 {
        assert(a =~= b);
    }
}

/// Whether `a` comes strictly before `b`.
pub fn str_less(a: &str, b: &str) -> (r: bool)
    ensures
        r == chars_less(a@, b@),
{
    let la = a.unicode_len();
    let lb = b.unicode_len();
    let mut i: usize = 0;
    proof {
        assert(a@.skip(0) =~= a@);
        assert(b@.skip(0) =~= b@);
    }
    while i < la && i < lb
        invariant
            la == a@.len(),
            lb == b@.len(),
            i <= la,
            i <= lb,
            chars_less(a@, b@) == chars_less(a@.skip(i as int), b@.skip(i as int)),
        decreases la - i,
    {
        let ca = a.get_char(i);
        let cb = b.get_char(i);
        proof {
            assert(a@.skip(i as int)[0] == ca);
            assert(b@.skip(i as int)[0] == cb);
            assert(a@.skip(i as int).drop_first() =~= a@.skip(i + 1));
            assert(b@.skip(i as int).drop_first() =~= b@.skip(i + 1));
        }
        if ca != cb {
            return (ca as u32) < (cb as u32);
        }
        i += 1;
    }
    i < lb
}

/// Whether the text at `a` comes before the text at `b`, ties keeping their order.
pub open spec fn sorts_before(names: Seq<Seq<char>>, a: int, b: int) -> bool {
    chars_less(names[a], names[b]) || (names[a] == names[b] && a < b)
}

proof fn lemma_sorts_before_transitive(names: Seq<Seq<char>>, a: int, b: int, c: int)
    requires
        sorts_before(names, a, b),
        sorts_before(names, b, c),
    ensures
        sorts_before(names, a, c),
{
    if chars_less(names[a], names[b]) && chars_less(names[b], names[c]) {
        lemma_chars_less_transitive(names[a], names[b], names[c]);
    }
}

/// Whether `order` lists every index below `n` exactly once.
pub open spec fn lists_each_index(order: Seq<usize>, n: nat) -> bool {
    &&& order.len() == n
    &&& order.no_duplicates()
    &&& forall|k: int| 0 <= k < order.len() ==> order[k] < n
}

/// Whether `i` occurs in `order`.
pub open spec fn index_occurs(order: Seq<usize>, i: int) -> bool {
    exists|t: int| 0 <= t < order.len() && #[trigger] order[t] == i
}

/// Every index below `n` occurs in an order that lists each index once.
pub proof fn lemma_lists_each_index_covers(order: Seq<usize>, n: nat)
    requires
        lists_each_index(order, n),
    ensures
        forall|i: int| 0 <= i < n ==> #[trigger] index_occurs(order, i),
{
    let s = order.map_values(|x: usize| x as int);
    assert forall|a: int, b: int| 0 <= a < s.len() && 0 <= b < s.len() && a != b implies s[a] != s[b] by {
        if a < b {
            assert(order[a] != order[b]);
        } else {
            assert(order[b] != order[a]);
        }
    }
    assert(s.no_duplicates());
    s.unique_seq_to_set();
    vstd::seq_lib::seq_to_set_is_finite(s);
    vstd::set_lib::lemma_int_range(0, n as int);
    let r = vstd::set_lib::set_int_range(0, n as int);
    assert(s.to_set().subset_of(r)) by {
        assert forall|x: int| s.to_set().contains(x) implies r.contains(x) by {
            let t = choose|t: int| 0 <= t < s.len() && s[t] == x;
            assert(order[t] < n);
        }
    }
    vstd::set_lib::lemma_subset_equality(s.to_set(), r);
    assert forall|i: int| 0 <= i < n implies #[trigger] index_occurs(order, i) by {
        assert(r.contains(i));
        assert(s.to_set().contains(i));
        let t = choose|t: int| 0 <= t < s.len() && s[t] == i;
        assert(order[t] == i);
    }
}

/// The character of the decimal digit `d`.
pub open spec fn digit_char(d: nat) -> char {
    (48 + d) as char
}

/// The decimal digits of `n`, most significant first, without leading zeros.
pub open spec fn decimal(n: nat) -> Seq<char>
    decreases n,
{
    if n < 10 {
        seq![digit_char(n)]
    } else {
        decimal(n / 10).push(digit_char(n % 10))
    }
}

/// Writes `n` as `Display` writes an unsigned integer: in decimal.
pub(crate) fn decimal_text(n: usize) -> (r: String)
    ensures
        r@ == decimal(n as nat),
    decreases n,
{
    let d: u8 = (n % 10) as u8;
    let c: char = (48u8 + d) as char;
    assert(c == digit_char((n % 10) as nat));
    if n < 10 {
        let mut s = String::new();
        push_char(&mut s, c);
        assert(s@ =~= seq![c]);
        s
    } else {
        let mut s = decimal_text(n / 10);
        push_char(&mut s, c);
        s
    }
}

/// Appends `c` to `s`.
#[verifier::external_body]
pub(crate) fn push_char(s: &mut String, c: char)
    ensures
        final(s)@ == old(s)@.push(c),
{
    s.push(c);
}

/// The indices of `names` in ascending order of the names, ties keeping their order.
pub fn sort_by_name(names: &Vec<String>) -> (order: Vec<usize>)
    ensures
        lists_each_index(order@, names@.len()),
        forall|a: int, b: int| 0 <= a < b < order@.len() ==> sorts_before(
            names@.map_values(|s: String| s@),
            order@[a] as int,
            order@[b] as int,
        ),
{
    let ghost ns = names@.map_values(|s: String| s@);
    let mut order: Vec<usize> = Vec::new();
    let mut i: usize = 0;
    while i < names.len()
        invariant
            i <= names.len(),
            ns == names@.map_values(|s: String| s@),
            lists_each_index(order@, i as nat),
            forall|a: int, b: int|
                0 <= a < b < order@.len() ==> sorts_before(ns, order@[a] as int, order@[b] as int),
        decreases names.len() - i,
    {
        let mut p: usize = 0;
        while p < order.len() && !str_less(names[i].as_str(), names[order[p]].as_str())
            invariant
                p <= order.len(),
                i < names.len(),
                ns == names@.map_values(|s: String| s@),
                lists_each_index(order@, i as nat),
                forall|a: int| 0 <= a < p ==> sorts_before(ns, order@[a] as int, i as int),
            decreases order.len() - p,
        {
            proof {
                let j = order@[p as int] as int;
                assert(ns[j] == names@[j]@);
                assert(ns[i as int] == names@[i as int]@);
                if ns[j] != ns[i as int] {
                    lemma_chars_less_total(ns[j], ns[i as int]);
                }
            }
            p += 1;
        }
        proof {
            if p < order.len() {
                let j = order@[p as int] as int;
                assert(ns[j] == names@[j]@);
                assert(ns[i as int] == names@[i as int]@);
                assert(sorts_before(ns, i as int, j));
                assert forall|a: int| p <= a < order@.len() implies sorts_before(
                    ns,
                    i as int,
                    order@[a] as int,
                ) by {
                    if a > p {
                        lemma_sorts_before_transitive(ns, i as int, j, order@[a] as int);
                    }
                }
            }
        }
        let ghost old_order = order@;
        order.insert(p, i);
        proof {
            assert forall|a: int, b: int| 0 <= a < b < order@.len() implies sorts_before(
                ns,
                order@[a] as int,
                order@[b] as int,
            ) by {
                if b < p {
                } else if b == p {
                } else if a < p {
                    assert(order@[b] == old_order[b - 1]);
                } else if a == p {
                    assert(order@[b] == old_order[b - 1]);
                } else {
                    assert(order@[a] == old_order[a - 1]);
                    assert(order@[b] == old_order[b - 1]);
                }
            }
            assert forall|a: int, b: int| 0 <= a < b < order@.len() implies order@[a] != order@[b] by {
                assert(sorts_before(ns, order@[a] as int, order@[b] as int));
                if order@[a] == order@[b] {
                    lemma_chars_less_irreflexive(ns[order@[a] as int]);
                }
            }
        }
        i += 1;
    }
    order
}

} // verus!
