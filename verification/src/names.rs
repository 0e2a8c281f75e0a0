//! The order of logical resource names.
use vstd::prelude::*;

verus! {

/// Whether `a` stands strictly before `b`: character by character, by code point, with a proper
/// prefix first, as `str` is ordered.
pub open spec fn name_before(a: Seq<char>, b: Seq<char>) -> bool
    decreases a.len(),
{
    if b.len() == 0 {
        false
    } else if a.len() == 0 {
        true
    } else if a[0] != b[0] {
        (a[0] as int) < (b[0] as int)
    } else {
        name_before(a.drop_first(), b.drop_first())
    }
}

/// A name does not stand before itself.
pub proof fn lemma_name_before_irreflexive(a: Seq<char>)
    ensures
        !name_before(a, a),
    decreases a.len(),
{
    if a.len() > 0 {
        lemma_name_before_irreflexive(a.drop_first());
    }
}

/// [`name_before`] is transitive.
pub proof fn lemma_name_before_transitive(a: Seq<char>, b: Seq<char>, c: Seq<char>)
    requires
        name_before(a, b),
        name_before(b, c),
    ensures
        name_before(a, c),
    decreases a.len(),
{
    if a.len() > 0 && a[0] == b[0] && b[0] == c[0] {
        lemma_name_before_transitive(a.drop_first(), b.drop_first(), c.drop_first());
    }
}

/// Of two different names one stands before the other.
pub proof fn lemma_name_before_total(a: Seq<char>, b: Seq<char>)
    ensures
        a == b || name_before(a, b) || name_before(b, a),
    decreases a.len(),
{
    if a.len() == 0 || b.len() == 0 {
        if a.len() == 0 && b.len() == 0 {
            assert(a =~= b);
        }
    } else if a[0] == b[0] {
        lemma_name_before_total(a.drop_first(), b.drop_first());
        assert(a =~= seq![a[0]] + a.drop_first());
        assert(b =~= seq![b[0]] + b.drop_first());
    }
}

/// Whether `names` stand in order, none of them twice.
pub open spec fn in_order(names: Seq<Seq<char>>) -> bool {
    forall|i: int, j: int|
        #![trigger names[i], names[j]]
        0 <= i < j < names.len() ==> name_before(names[i], names[j])
}

/// The names of a set, in order.
pub open spec fn ordered(names: Set<Seq<char>>) -> Seq<Seq<char>> {
    choose|s: Seq<Seq<char>>| in_order(s) && #[trigger] s.to_set() == names
}

/// A list with one more name holds that name and the names that it held.
pub proof fn lemma_push_names(s: Seq<Seq<char>>, name: Seq<char>)
    ensures
        s.push(name).to_set() == s.to_set().insert(name),
{
    let t = s.push(name);
    assert forall|n: Seq<char>| t.contains(n) == (s.contains(n) || n == name) by {
        if s.contains(n) {
            assert(t[s.index_of(n)] == n);
        }
        assert(t[s.len() as int] == name);
    }
    assert(t.to_set() =~= s.to_set().insert(name));
}

/// A name among names in order has one place.
pub proof fn lemma_place_is_unique(s: Seq<Seq<char>>, i: int)
    requires
        in_order(s),
        0 <= i < s.len(),
    ensures
        s.contains(s[i]),
        s.index_of(s[i]) == i,
{
    let k = s.index_of(s[i]);
    assert(s.contains(s[i]));
    lemma_name_before_irreflexive(s[i]);
}

/// Names that stand in order are the ordered list of their own set: the order leaves no choice.
pub proof fn lemma_ordered_is_unique(s: Seq<Seq<char>>)
    requires
        in_order(s),
    ensures
        ordered(s.to_set()) == s,
{
    let t = ordered(s.to_set());
    assert(in_order(t) && t.to_set() == s.to_set());
    lemma_same_names_same_list(s, t);
}

proof fn lemma_same_names_same_list(s: Seq<Seq<char>>, t: Seq<Seq<char>>)
    requires
        in_order(s),
        in_order(t),
        s.to_set() == t.to_set(),
    ensures
        s == t,
    decreases s.len(),
{
    if s.len() == 0 || t.len() == 0 {
        if s.len() > 0 {
            assert(s.to_set().contains(s[0]));
            assert(t.contains(s[0]));
        }
        if t.len() > 0 {
            assert(t.to_set().contains(t[0]));
            assert(s.contains(t[0]));
        }
        assert(s =~= t);
    } else {
        let (a, b) = (s.last(), t.last());
        assert(s.to_set().contains(a) && t.to_set().contains(b));
        assert(t.contains(a) && s.contains(b));
        let i = choose|i: int| 0 <= i < t.len() && t[i] == a;
        let j = choose|j: int| 0 <= j < s.len() && s[j] == b;
        if a != b {
            assert(name_before(t[i], t[t.len() - 1]));
            assert(name_before(s[j], s[s.len() - 1]));
            lemma_name_before_transitive(a, b, a);
            lemma_name_before_irreflexive(a);
        }
        let (s0, t0) = (s.drop_last(), t.drop_last());
        assert forall|n: Seq<char>| s0.to_set().contains(n) == t0.to_set().contains(n) by {
            lemma_drop_last_names(s, n);
            lemma_drop_last_names(t, n);
        }
        assert(s0.to_set() =~= t0.to_set());
        lemma_same_names_same_list(s0, t0);
        assert(s =~= s0.push(a));
        assert(t =~= t0.push(b));
    }
}

proof fn lemma_drop_last_names(s: Seq<Seq<char>>, n: Seq<char>)
    requires
        in_order(s),
        s.len() > 0,
    ensures
        s.drop_last().to_set().contains(n) == (s.to_set().contains(n) && n != s.last()),
{
    let s0 = s.drop_last();
    if s0.contains(n) {
        let i = choose|i: int| 0 <= i < s0.len() && s0[i] == n;
        assert(s[i] == n && s.contains(n));
        assert(name_before(s[i], s[s.len() - 1]));
        lemma_name_before_irreflexive(n);
    }
    if s.contains(n) && n != s.last() {
        let i = choose|i: int| 0 <= i < s.len() && s[i] == n;
        assert(s0[i] == n);
    }
}

/// How two names stand to each other.
#[derive(Clone, Copy, Debug, PartialEq, Eq, Structural)]
pub enum NameOrder {
    /// The first name stands before the second.
    Before,
    /// The names are the same.
    Same,
    /// The first name stands after the second.
    After,
}

/// Compares two names by [`name_before`].
pub fn order_names(a: &str, b: &str) -> (order: NameOrder)
    ensures
        order == (if a@ == b@ {
            NameOrder::Same
        } else if name_before(a@, b@) {
            NameOrder::Before
        } else {
            NameOrder::After
        }),
{
    let mut left = a.chars();
    let mut right = b.chars();
    let ghost mut k: int = 0;
    proof {
        assert(a@.skip(0) =~= a@);
        assert(b@.skip(0) =~= b@);
    }
    loop
        invariant
            0 <= k <= a@.len(),
            k <= b@.len(),
            vstd::std_specs::iter::IteratorSpec::obeys_prophetic_iter_laws(&left),
            vstd::std_specs::iter::IteratorSpec::obeys_prophetic_iter_laws(&right),
            vstd::std_specs::iter::IteratorSpec::remaining(&left) == a@.skip(k),
            vstd::std_specs::iter::IteratorSpec::remaining(&right) == b@.skip(k),
            a@.take(k) == b@.take(k),
            name_before(a@, b@) == name_before(a@.skip(k), b@.skip(k)),
        decreases a@.len() - k,
    {
        let x = left.next();
        let y = right.next();
        match (x, y) {
            (None, None) => {
                assert(a@ =~= a@.take(k));
                assert(b@ =~= b@.take(k));
                return NameOrder::Same;
            },
            (None, Some(_)) => {
                return NameOrder::Before;
            },
            (Some(_), None) => {
                return NameOrder::After;
            },
            (Some(c), Some(d)) => {
                if c != d {
                    assert(a@[k] != b@[k]);
                    if c < d {
                        return NameOrder::Before;
                    }
                    return NameOrder::After;
                }
            },
        }
        proof {
            assert(a@.skip(k).drop_first() =~= a@.skip(k + 1));
            assert(b@.skip(k).drop_first() =~= b@.skip(k + 1));
            assert(a@.take(k + 1) =~= a@.take(k).push(a@[k]));
            assert(b@.take(k + 1) =~= b@.take(k).push(b@[k]));
            k = k + 1;
        }
    }
}

} // verus!
