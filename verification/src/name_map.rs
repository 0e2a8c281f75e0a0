//! A map keyed by logical resource name, walked in name order.
use crate::names::{self, order_names, NameOrder};
use crate::wire;
use vstd::prelude::*;

verus! {

/// The map that takes the name at each place to the value at the same place.
pub open spec fn paired<V>(names: Seq<Seq<char>>, values: Seq<V>) -> Map<Seq<char>, V> {
    Map::new(|n: Seq<char>| names.contains(n), |n: Seq<char>| values[names.index_of(n)])
}

/// A map from names to values, kept in name order.
#[derive(Debug)]
pub struct NameMap<V> {
    /// The names, in order, none of them twice.
    names: Vec<String>,
    /// The value of each name, at the name's place.
    values: Vec<V>,
}

impl<V> View for NameMap<V> {
    type V = Map<Seq<char>, V>;

    closed spec fn view(&self) -> Map<Seq<char>, V> {
        paired(wire::texts(self.names@), self.values@)
    }
}

impl<V> NameMap<V> {
    #[verifier::type_invariant]
    spec fn in_name_order(self) -> bool {
        &&& names::in_order(wire::texts(self.names@))
        &&& self.names.len() == self.values.len()
    }

    /// The names that the map holds, in order.
    pub open spec fn names(self) -> Seq<Seq<char>> {
        names::ordered(self@.dom())
    }

    /// An empty map.
    pub fn new() -> (map: Self)
        ensures
            map@ == Map::<Seq<char>, V>::empty(),
    {
        let map = NameMap { names: Vec::new(), values: Vec::new() };
        assert(map@ =~= Map::<Seq<char>, V>::empty());
        map
    }

    /// The number of names.
    pub fn len(&self) -> (n: usize)
        ensures
            n == self.names().len(),
            names::in_order(self.names()),
            self.names().to_set() == self@.dom(),
    {
        proof {
            use_type_invariant(self);
            lemma_paired(wire::texts(self.names@), self.values@);
            assert(self.names().to_set() =~= self@.dom());
        }
        self.names.len()
    }

    /// The `i`-th name, in name order.
    pub fn name_at(&self, i: usize) -> (name: &String)
        requires
            i < self.names().len(),
        ensures
            name@ == self.names()[i as int],
            self@.contains_key(name@),
    {
        proof {
            use_type_invariant(self);
            lemma_paired(wire::texts(self.names@), self.values@);
        }
        &self.names[i]
    }

    /// The value of the `i`-th name.
    pub fn value_at(&self, i: usize) -> (value: &V)
        requires
            i < self.names().len(),
        ensures
            *value == self@[self.names()[i as int]],
    {
        proof {
            use_type_invariant(self);
            lemma_paired(wire::texts(self.names@), self.values@);
        }
        &self.values[i]
    }

    /// The value of the `i`-th name, to be changed in place.
    pub fn value_at_mut(&mut self, i: usize) -> (value: &mut V)
        requires
            i < old(self).names().len(),
        ensures
            *value == old(self)@[old(self).names()[i as int]],
            final(self)@ == old(self)@.insert(old(self).names()[i as int], *final(value)),
    {
        proof {
            use_type_invariant(&*self);
            lemma_paired(wire::texts(self.names@), self.values@);
            lemma_paired_update(wire::texts(self.names@), self.values@, i as int);
        }
        &mut self.values[i]
    }

    /// The place of `name` where the map holds it, else the place at which it would stand.
    fn place(&self, name: &str) -> (place: Result<usize, usize>)
        ensures
            match place {
                Ok(i) => i < self.names.len() && self.names[i as int]@ == name@,
                Err(i) => {
                    &&& i <= self.names.len()
                    &&& forall|j: int|
                        #![trigger self.names[j]]
                        0 <= j < i ==> names::name_before(self.names[j]@, name@)
                    &&& forall|j: int|
                        #![trigger self.names[j]]
                        i <= j < self.names.len() ==> names::name_before(
                            name@,
                            self.names[j]@,
                        )
                },
            },
    {
        proof {
            use_type_invariant(self);
        }
        let mut low: usize = 0;
        let mut high: usize = self.names.len();
        while low < high
            invariant
                low <= high <= self.names.len(),
                names::in_order(wire::texts(self.names@)),
                forall|j: int|
                    #![trigger self.names[j]]
                    0 <= j < low ==> names::name_before(self.names[j]@, name@),
                forall|j: int|
                    #![trigger self.names[j]]
                    high <= j < self.names.len() ==> names::name_before(
                        name@,
                        self.names[j]@,
                    ),
            decreases high - low,
        {
            let middle: usize = low + (high - low) / 2;
            let ghost here = wire::texts(self.names@)[middle as int];
            match order_names(self.names[middle].as_str(), name) {
                NameOrder::Same => {
                    return Ok(middle);
                },
                NameOrder::Before => {
                    proof {
                        assert forall|j: int|
                            #![trigger self.names[j]]
                            0 <= j <= middle implies names::name_before(
                            self.names[j]@,
                            name@,
                        ) by {
                            if j < middle {
                                assert(names::name_before(wire::texts(self.names@)[j], here));
                                names::lemma_name_before_transitive(
                                    self.names[j]@,
                                    here,
                                    name@,
                                );
                            }
                        }
                    }
                    low = middle + 1;
                },
                NameOrder::After => {
                    proof {
                        names::lemma_name_before_total(here, name@);
                        assert forall|j: int|
                            #![trigger self.names[j]]
                            middle <= j < self.names.len() implies names::name_before(
                            name@,
                            self.names[j]@,
                        ) by {
                            if middle < j {
                                assert(names::name_before(here, wire::texts(self.names@)[j]));
                                names::lemma_name_before_transitive(
                                    name@,
                                    here,
                                    self.names[j]@,
                                );
                            }
                        }
                    }
                    high = middle;
                },
            }
        }
        Err(low)
    }

    /// The value of `name`, if the map holds the name.
    pub fn get(&self, name: &str) -> (value: Option<&V>)
        ensures
            match value {
                Some(v) => self@.contains_key(name@) && *v == self@[name@],
                None => !self@.contains_key(name@),
            },
    {
        proof {
            use_type_invariant(self);
            lemma_paired(wire::texts(self.names@), self.values@);
        }
        match self.place(name) {
            Ok(i) => {
                assert(wire::texts(self.names@)[i as int] == name@);
                Some(&self.values[i])
            },
            Err(i) => {
                proof {
                    lemma_absent(self.names@, name@, i as int);
                }
                None
            },
        }
    }

    /// The value of `name`, to be changed in place, if the map holds the name.
    pub fn get_mut(&mut self, name: &str) -> (value: Option<&mut V>)
        ensures
            match value {
                Some(v) => {
                    &&& old(self)@.contains_key(name@)
                    &&& *v == old(self)@[name@]
                    &&& final(self)@ == old(self)@.insert(name@, *final(v))
                },
                None => !old(self)@.contains_key(name@) && final(self)@ == old(self)@,
            },
    {
        proof {
            use_type_invariant(&*self);
            lemma_paired(wire::texts(self.names@), self.values@);
        }
        match self.place(name) {
            Ok(i) => {
                proof {
                    assert(wire::texts(self.names@)[i as int] == name@);
                    lemma_paired_update(wire::texts(self.names@), self.values@, i as int);
                }
                Some(&mut self.values[i])
            },
            Err(i) => {
                proof {
                    lemma_absent(self.names@, name@, i as int);
                }
                None
            },
        }
    }

    /// Whether the map holds `name`.
    pub fn contains_key(&self, name: &str) -> (held: bool)
        ensures
            held == self@.contains_key(name@),
    {
        self.get(name).is_some()
    }

    /// Gives `name` the value `value`, and returns the value that it had.
    pub fn insert(&mut self, name: String, value: V) -> (before: Option<V>)
        ensures
            final(self)@ == old(self)@.insert(name@, value),
            match before {
                Some(v) => old(self)@.contains_key(name@) && v == old(self)@[name@],
                None => !old(self)@.contains_key(name@),
            },
    {
        proof {
            use_type_invariant(&*self);
            lemma_paired(wire::texts(self.names@), self.values@);
        }
        match self.place(name.as_str()) {
            Ok(i) => {
                let mut held = value;
                proof {
                    assert(wire::texts(self.names@)[i as int] == name@);
                    lemma_paired_update(wire::texts(self.names@), self.values@, i as int);
                }
                std::mem::swap(&mut self.values[i], &mut held);
                Some(held)
            },
            Err(i) => {
                proof {
                    lemma_absent(self.names@, name@, i as int);
                    lemma_paired_insert(self.names@, self.values@, i as int, name, value);
                }
                let mut taken = NameMap::new();
                std::mem::swap(self, &mut taken);
                let NameMap { mut names, mut values } = taken;
                names.insert(i, name);
                values.insert(i, value);
                *self = NameMap { names, values };
                None
            },
        }
    }

    /// Takes `name` out of the map, and returns the value that it had.
    pub fn remove(&mut self, name: &str) -> (value: Option<V>)
        ensures
            final(self)@ == old(self)@.remove(name@),
            match value {
                Some(v) => old(self)@.contains_key(name@) && v == old(self)@[name@],
                None => !old(self)@.contains_key(name@),
            },
    {
        proof {
            use_type_invariant(&*self);
            lemma_paired(wire::texts(self.names@), self.values@);
        }
        match self.place(name) {
            Ok(i) => {
                proof {
                    assert(wire::texts(self.names@)[i as int] == name@);
                    lemma_paired_remove(self.names@, self.values@, i as int);
                }
                let mut taken = NameMap::new();
                std::mem::swap(self, &mut taken);
                let NameMap { mut names, mut values } = taken;
                let _ = names.remove(i);
                let value = values.remove(i);
                *self = NameMap { names, values };
                Some(value)
            },
            Err(i) => {
                proof {
                    lemma_absent(self.names@, name@, i as int);
                    assert(self@.remove(name@) =~= self@);
                }
                None
            },
        }
    }
}

impl<V: Clone> Clone for NameMap<V> {
    fn clone(&self) -> (copy: Self)
        ensures
            copy@.dom() == self@.dom(),
            forall|n: Seq<char>| #[trigger]
                self@.contains_key(n) ==> cloned::<V>(self@[n], copy@[n]),
    {
        proof {
            use_type_invariant(self);
        }
        let names = self.names.clone();
        let values = self.values.clone();
        assert(names@ =~= self.names@);
        let copy = NameMap { names, values };
        proof {
            let all = wire::texts(self.names@);
            assert(copy@.dom() =~= self@.dom());
            assert forall|n: Seq<char>| #[trigger] self@.contains_key(n) implies cloned::<V>(
                self@[n],
                copy@[n],
            ) by {
                assert(all.contains(n));
                assert(0 <= all.index_of(n) < all.len());
            }
        }
        copy
    }
}

/// Of names in order, each has the value at its own place, and no other order is possible.
proof fn lemma_paired<V>(names: Seq<Seq<char>>, values: Seq<V>)
    requires
        names::in_order(names),
        names.len() == values.len(),
    ensures
        names::ordered(paired(names, values).dom()) == names,
        forall|i: int|
            #![trigger names[i]]
            #![trigger values[i]]
            0 <= i < names.len() ==> paired(names, values).contains_key(names[i]) && paired(
                names,
                values,
            )[names[i]] == values[i],
{
    assert(paired(names, values).dom() =~= names.to_set());
    names::lemma_ordered_is_unique(names);
    assert forall|i: int|
        #![trigger names[i]]
        #![trigger values[i]]
        0 <= i < names.len() implies paired(names, values).contains_key(names[i]) && paired(
        names,
        values,
    )[names[i]] == values[i] by {
        names::lemma_place_is_unique(names, i);
    }
}

/// Changing the value at a place changes the value of the name there and nothing else.
proof fn lemma_paired_update<V>(names: Seq<Seq<char>>, values: Seq<V>, i: int)
    requires
        names::in_order(names),
        names.len() == values.len(),
        0 <= i < names.len(),
    ensures
        forall|v: V|
            #![trigger values.update(i, v)]
            paired(names, values.update(i, v)) == paired(names, values).insert(names[i], v),
{
    assert forall|v: V|
        #![trigger values.update(i, v)]
        paired(names, values.update(i, v)) == paired(names, values).insert(names[i], v) by {
        names::lemma_place_is_unique(names, i);
        assert(paired(names, values.update(i, v)) =~= paired(names, values).insert(names[i], v));
    }
}

/// Putting a name at the place where the order wants it keeps the order and adds that name.
proof fn lemma_paired_insert<V>(names: Seq<String>, values: Seq<V>, i: int, name: String, value: V)
    requires
        names::in_order(wire::texts(names)),
        names.len() == values.len(),
        0 <= i <= names.len(),
        forall|j: int|
            #![trigger names[j]]
            0 <= j < i ==> names::name_before(names[j]@, name@),
        forall|j: int|
            #![trigger names[j]]
            i <= j < names.len() ==> names::name_before(name@, names[j]@),
    ensures
        names::in_order(wire::texts(names.insert(i, name))),
        paired(wire::texts(names.insert(i, name)), values.insert(i, value)) == paired(
            wire::texts(names),
            values,
        ).insert(name@, value),
{
    let old_names = wire::texts(names);
    let new_names = wire::texts(names.insert(i, name));
    let new_values = values.insert(i, value);
    assert(new_names =~= old_names.insert(i, name@));
    assert forall|a: int, b: int|
        #![trigger new_names[a], new_names[b]]
        0 <= a < b < new_names.len() implies names::name_before(
        new_names[a],
        new_names[b],
    ) by {
        let a0 = if a < i { a } else { a - 1 };
        let b0 = if b < i { b } else { b - 1 };
        if a == i {
            assert(new_names[b] == names[b0]@);
        } else if b == i {
            assert(new_names[a] == names[a0]@);
        } else {
            assert(new_names[a] == old_names[a0]);
            assert(new_names[b] == old_names[b0]);
        }
    }
    let before = paired(old_names, values);
    let after = paired(new_names, new_values);
    lemma_paired(old_names, values);
    lemma_paired(new_names, new_values);
    assert(new_names[i] == name@ && new_values[i] == value);
    assert forall|n: Seq<char>| #![trigger after.contains_key(n)] after.contains_key(n)
        == before.insert(name@, value).contains_key(n) && (after.contains_key(n) ==> after[n]
        == before.insert(name@, value)[n]) by {
        if new_names.contains(n) && n != name@ {
            let k = new_names.index_of(n);
            let k0 = if k < i { k } else { k - 1 };
            assert(old_names[k0] == n);
            assert(new_values[k] == values[k0]);
        }
        if old_names.contains(n) {
            let k = old_names.index_of(n);
            let k1 = if k < i { k } else { k + 1 };
            assert(new_names[k1] == n);
        }
    }
    assert(after =~= before.insert(name@, value));
}

/// Taking the name at a place out keeps the order and removes that name.
proof fn lemma_paired_remove<V>(names: Seq<String>, values: Seq<V>, i: int)
    requires
        names::in_order(wire::texts(names)),
        names.len() == values.len(),
        0 <= i < names.len(),
    ensures
        names::in_order(wire::texts(names.remove(i))),
        paired(wire::texts(names.remove(i)), values.remove(i)) == paired(
            wire::texts(names),
            values,
        ).remove(names[i]@),
{
    let old_names = wire::texts(names);
    let new_names = wire::texts(names.remove(i));
    let new_values = values.remove(i);
    assert(new_names =~= old_names.remove(i));
    assert forall|a: int, b: int|
        #![trigger new_names[a], new_names[b]]
        0 <= a < b < new_names.len() implies names::name_before(
        new_names[a],
        new_names[b],
    ) by {
        let a0 = if a < i { a } else { a + 1 };
        let b0 = if b < i { b } else { b + 1 };
        assert(new_names[a] == old_names[a0]);
        assert(new_names[b] == old_names[b0]);
    }
    let before = paired(old_names, values);
    let after = paired(new_names, new_values);
    lemma_paired(old_names, values);
    lemma_paired(new_names, new_values);
    names::lemma_place_is_unique(old_names, i);
    assert forall|n: Seq<char>| #![trigger after.contains_key(n)] after.contains_key(n)
        == before.remove(names[i]@).contains_key(n) && (after.contains_key(n) ==> after[n]
        == before.remove(names[i]@)[n]) by {
        if new_names.contains(n) {
            let k = new_names.index_of(n);
            let k0 = if k < i { k } else { k + 1 };
            assert(old_names[k0] == n);
            assert(new_values[k] == values[k0]);
            names::lemma_place_is_unique(old_names, k0);
        }
        if old_names.contains(n) && n != names[i]@ {
            let k = old_names.index_of(n);
            let k1 = if k < i { k } else { k - 1 };
            assert(new_names[k1] == n);
        }
    }
    assert(after =~= before.remove(names[i]@));
}

/// A name that falls between two neighbours is not among the names.
proof fn lemma_absent(names: Seq<String>, name: Seq<char>, place: int)
    requires
        forall|j: int|
            #![trigger names[j]]
            0 <= j < place ==> names::name_before(names[j]@, name),
        forall|j: int|
            #![trigger names[j]]
            place <= j < names.len() ==> names::name_before(name, names[j]@),
    ensures
        !wire::texts(names).contains(name),
{
    names::lemma_name_before_irreflexive(name);
}

} // verus!
