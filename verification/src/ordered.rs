//! A map from names to values that is walked in the order of the names.

use vstd::prelude::*;

use crate::text::{is_before, precedes_irreflexive, precedes_total, precedes_transitive, same};
use crate::text::precedes;

verus! {

/// Each name stands before all that come after it.
pub open spec fn in_order(names: Seq<Seq<char>>) -> bool {
    forall|i: int, j: int|
        0 <= i < j < names.len() ==> precedes(#[trigger] names[i], #[trigger] names[j])
}

/// `names` are the names of `map`, each once, in order.
pub open spec fn lists<T>(names: Seq<Seq<char>>, map: Map<Seq<char>, T>) -> bool {
    &&& in_order(names)
    &&& forall|name: Seq<char>| #[trigger] names.contains(name) <==> map.contains_key(name)
}

/// A map whose entries stand in the order of their names.
pub struct OrderedMap<V> {
    entries: Vec<(String, V)>,
}

impl<V: View> OrderedMap<V> {
    /// The names, in order.
    pub closed spec fn names(&self) -> Seq<Seq<char>> {
        self.entries@.map_values(|entry: (String, V)| entry.0@)
    }

    /// What stands at each place.
    closed spec fn values(&self) -> Seq<V::V> {
        self.entries@.map_values(|entry: (String, V)| entry.1@)
    }

    /// The names are listed in order, each once.
    pub open spec fn wf(&self) -> bool {
        lists(self.names(), self@)
    }

    /// `after` is `before` with another value at place `i`.
    spec fn replaced(before: Self, after: Self, i: int) -> bool {
        after.entries@ == before.entries@.update(i, (before.entries@[i].0, after.entries@[i].1))
    }

    /// Another value at one place changes what stands under its name and nothing else.
    proof fn replacing(before: Self, after: Self, i: int)
        requires
            before.wf(),
            0 <= i < before.names().len(),
            Self::replaced(before, after, i),
        ensures
            after.wf(),
            after.names() == before.names(),
            after@ == before@.insert(before.names()[i], after.entries@[i].1@),
    {
        let names = before.names();
        assert(after.names() =~= names);
        before.ordered_is_wf();
        after.ordered_is_wf();
        let now = before@.insert(names[i], after.entries@[i].1@);
        assert(after.values() =~= before.values().update(i, after.entries@[i].1@));
        assert forall|key: Seq<char>| after@.dom().contains(key) == now.dom().contains(key) by {
            assert(names.contains(names[i]));
            assert(names.contains(key) <==> before@.contains_key(key));
            assert(names.contains(key) <==> after@.contains_key(key));
        }
        assert forall|key: Seq<char>| now.dom().contains(key) implies after@[key] == now[key] by {
            assert(names.contains(names[i]));
            assert(names.contains(key) <==> before@.contains_key(key));
            let k = choose|k: int| 0 <= k < names.len() && names[k] == key;
            assert(after@[names[k]] == after.values()[k]);
            assert(before@[names[k]] == before.values()[k]);
            if k != i {
                precedes_irreflexive(key);
            }
        }
        assert(after@ =~= now);
    }

    /// The names are in order, and that makes the map well formed.
    proof fn ordered_is_wf(&self)
        requires
            in_order(self.names()),
        ensures
            self.wf(),
            forall|i: int|
                0 <= i < self.names().len() ==> self@.contains_key(#[trigger] self.names()[i])
                    && self@[self.names()[i]] == self.values()[i],
    {
        let names = self.names();
        assert forall|name: Seq<char>| #[trigger] names.contains(name) implies self@.contains_key(
            name,
        ) by {
            let i = choose|i: int| 0 <= i < names.len() && names[i] == name;
            assert(self.entries@[i].0@ == name);
        }
        assert forall|name: Seq<char>| self@.contains_key(name) implies #[trigger] names.contains(
            name,
        ) by {
            let i = choose|i: int|
                0 <= i < self.entries@.len() && #[trigger] self.entries@[i].0@ == name;
            assert(names[i] == name);
        }
        assert forall|i: int| 0 <= i < names.len() implies self@.contains_key(#[trigger] names[i])
            && self@[names[i]] == self.values()[i] by {
            assert(self.entries@[i].0@ == names[i]);
            let k = choose|k: int|
                0 <= k < self.entries@.len() && #[trigger] self.entries@[k].0@ == names[i];
            assert(names[k] == names[i]);
            precedes_irreflexive(names[i]);
            assert(k == i);
        }
    }
}

impl<V: View> View for OrderedMap<V> {
    type V = Map<Seq<char>, V::V>;

    closed spec fn view(&self) -> Map<Seq<char>, V::V> {
        Map::new(
            |name: Seq<char>|
                exists|i: int| 0 <= i < self.entries@.len() && #[trigger] self.entries@[i].0@ == name,
            |name: Seq<char>|
                self.entries@[choose|i: int|
                    0 <= i < self.entries@.len() && #[trigger] self.entries@[i].0@ == name].1@,
        )
    }
}

/// Filtering one more element.
pub proof fn filter_push<A>(s: Seq<A>, pred: spec_fn(A) -> bool, x: A)
    ensures
        s.push(x).filter(pred) == if pred(x) {
            s.filter(pred).push(x)
        } else {
            s.filter(pred)
        },
{
    reveal(Seq::filter);
    assert(s.push(x).drop_last() =~= s);
}

/// One map has one list of names.
pub proof fn one_list<T>(a: Seq<Seq<char>>, b: Seq<Seq<char>>, map: Map<Seq<char>, T>)
    requires
        lists(a, map),
        lists(b, map),
    ensures
        a == b,
    decreases a.len(),
{
    if a.len() == 0 || b.len() == 0 {
        if a.len() > 0 {
            assert(a.contains(a[0]));
            assert(b.contains(a[0]));
        }
        if b.len() > 0 {
            assert(b.contains(b[0]));
            assert(a.contains(b[0]));
        }
        assert(a =~= b);
    } else {
        let x = a.last();
        let y = b.last();
        assert(a.contains(x) && b.contains(y));
        assert(b.contains(x) && a.contains(y));
        let i = choose|i: int| 0 <= i < b.len() && b[i] == x;
        let j = choose|j: int| 0 <= j < a.len() && a[j] == y;
        if x != y {
            assert(precedes(b[i], b[b.len() - 1]));
            assert(precedes(a[j], a[a.len() - 1]));
            precedes_transitive(x, y, x);
            precedes_irreflexive(x);
        }
        let smaller = map.remove(x);
        last_removed(a, map);
        last_removed(b, map);
        one_list(a.drop_last(), b.drop_last(), smaller);
        assert(a =~= a.drop_last().push(x));
        assert(b =~= b.drop_last().push(y));
    }
}

/// Without its last name a list lists the map without it.
proof fn last_removed<T>(names: Seq<Seq<char>>, map: Map<Seq<char>, T>)
    requires
        lists(names, map),
        names.len() > 0,
    ensures
        lists(names.drop_last(), map.remove(names.last())),
{
    let rest = names.drop_last();
    let smaller = map.remove(names.last());
    assert forall|name: Seq<char>| #[trigger] rest.contains(name) implies smaller.contains_key(
        name,
    ) by {
        let i = choose|i: int| 0 <= i < rest.len() && rest[i] == name;
        assert(names[i] == name);
        assert(names.contains(name));
        assert(precedes(names[i], names[names.len() - 1]));
        precedes_irreflexive(name);
    }
    assert forall|name: Seq<char>| smaller.contains_key(name) implies #[trigger] rest.contains(
        name,
    ) by {
        assert(map.contains_key(name));
        assert(names.contains(name));
        let i = choose|i: int| 0 <= i < names.len() && names[i] == name;
        assert(rest[i] == name);
    }
}

impl<V: View> OrderedMap<V> {
    /// The map without entries.
    pub fn new() -> (r: Self)
        ensures
            r.wf(),
            r@ == Map::<Seq<char>, V::V>::empty(),
    {
        let r = OrderedMap { entries: Vec::new() };
        proof {
            r.ordered_is_wf();
            assert(r@ =~= Map::<Seq<char>, V::V>::empty());
        }
        r
    }

    /// How many entries there are.
    pub fn len(&self) -> (n: usize)
        ensures
            n == self.names().len(),
    {
        self.entries.len()
    }

    /// The name at place `i`.
    pub fn name_at(&self, i: usize) -> (name: &str)
        requires
            i < self.names().len(),
        ensures
            name@ == self.names()[i as int],
    {
        self.entries[i].0.as_str()
    }

    /// The value at place `i`.
    pub fn value_at(&self, i: usize) -> (value: &V)
        requires
            self.wf(),
            i < self.names().len(),
        ensures
            self@.contains_key(self.names()[i as int]),
            value@ == self@[self.names()[i as int]],
    {
        proof {
            self.ordered_is_wf();
            assert(self.values()[i as int] == self.entries@[i as int].1@);
        }
        &self.entries[i].1
    }

    /// The first place whose name does not stand before `name`.
    fn place_of(&self, name: &str) -> (i: usize)
        requires
            self.wf(),
        ensures
            i <= self.names().len(),
            forall|j: int| 0 <= j < i ==> precedes(#[trigger] self.names()[j], name@),
            i < self.names().len() ==> !precedes(self.names()[i as int], name@),
    {
        let mut i: usize = 0;
        while i < self.entries.len() && is_before(self.entries[i].0.as_str(), name)
            invariant
                i <= self.entries@.len(),
                forall|j: int| 0 <= j < i ==> precedes(#[trigger] self.names()[j], name@),
            decreases self.entries@.len() - i,
        {
            assert(self.names()[i as int] == self.entries@[i as int].0@);
            i += 1;
        }
        i
    }

    /// The place of `name`, if it is there.
    fn find(&self, name: &str) -> (r: Option<usize>)
        requires
            self.wf(),
        ensures
            match r {
                Some(i) => i < self.names().len() && self.names()[i as int] == name@ && self@.contains_key(
                    name@,
                ) && self@[name@] == self.values()[i as int],
                None => !self@.contains_key(name@),
            },
    {
        let i = self.place_of(name);
        proof {
            self.ordered_is_wf();
        }
        if i < self.entries.len() && same(self.entries[i].0.as_str(), name) {
            assert(self.names()[i as int] == name@);
            Some(i)
        } else {
            proof {
                let names = self.names();
                if self@.contains_key(name@) {
                    assert(names.contains(name@));
                    let k = choose|k: int| 0 <= k < names.len() && names[k] == name@;
                    precedes_irreflexive(name@);
                    assert(k >= i);
                    assert(k != i) by {
                        assert(names[i as int] == self.entries@[i as int].0@);
                    }
                    assert(precedes(names[i as int], names[k]));
                }
            }
            None
        }
    }

    /// The value under `name`.
    pub fn get(&self, name: &str) -> (r: Option<&V>)
        requires
            self.wf(),
        ensures
            match r {
                Some(value) => self@.contains_key(name@) && value@ == self@[name@],
                None => !self@.contains_key(name@),
            },
    {
        match self.find(name) {
            Some(i) => {
                assert(self.values()[i as int] == self.entries@[i as int].1@);
                Some(&self.entries[i].1)
            },
            None => None,
        }
    }

    /// The value under `name`, to be changed in place.
    pub fn get_mut(&mut self, name: &str) -> (r: Option<&mut V>)
        requires
            old(self).wf(),
        ensures
            match r {
                Some(value) => {
                    &&& old(self)@.contains_key(name@)
                    &&& value@ == old(self)@[name@]
                    &&& final(self).wf()
                    &&& final(self).names() == old(self).names()
                    &&& final(self)@ == old(self)@.insert(name@, final(value)@)
                },
                None => !old(self)@.contains_key(name@) && *final(self) == *old(self),
            },
    {
        match self.find(name) {
            Some(i) => {
                proof {
                    self.ordered_is_wf();
                    assert forall|after: Self|
                        #![trigger after@]
                        Self::replaced(*self, after, i as int) implies {
                        &&& after.wf()
                        &&& after.names() == self.names()
                        &&& after@ == self@.insert(name@, after.entries@[i as int].1@)
                    } by {
                        Self::replacing(*self, after, i as int);
                    }
                }
                Some(&mut self.entries[i].1)
            },
            None => None,
        }
    }

    /// The value at place `i`, to be changed in place.
    pub fn value_at_mut(&mut self, i: usize) -> (value: &mut V)
        requires
            old(self).wf(),
            i < old(self).names().len(),
        ensures
            old(self)@.contains_key(old(self).names()[i as int]),
            value@ == old(self)@[old(self).names()[i as int]],
            final(self).wf(),
            final(self).names() == old(self).names(),
            final(self)@ == old(self)@.insert(old(self).names()[i as int], final(value)@),
    {
        proof {
            self.ordered_is_wf();
            assert(self.values()[i as int] == self.entries@[i as int].1@);
            assert forall|after: Self|
                #![trigger after@]
                Self::replaced(*self, after, i as int) implies {
                &&& after.wf()
                &&& after.names() == self.names()
                &&& after@ == self@.insert(self.names()[i as int], after.entries@[i as int].1@)
            } by {
                Self::replacing(*self, after, i as int);
            }
        }
        &mut self.entries[i].1
    }

    /// Puts `value` under `name`, in place of what was there.
    pub fn insert(&mut self, name: &str, value: V)
        requires
            old(self).wf(),
        ensures
            final(self).wf(),
            final(self)@ == old(self)@.insert(name@, value@),
    {
        let i = self.place_of(name);
        let there = i < self.entries.len() && same(self.entries[i].0.as_str(), name);
        let ghost before = self.names();
        let ghost held = self.values();
        let ghost map = self@;
        let ghost k = i as int;
        let ghost v = value@;
        proof {
            self.ordered_is_wf();
            assert(there ==> before[k] == name@) by {
                assert(there ==> before[k] == self.entries@[k].0@);
            }
            assert(!there && k < before.len() ==> precedes(name@, before[k])) by {
                if !there && k < before.len() {
                    assert(before[k] == self.entries@[k].0@);
                    precedes_total(name@, before[k]);
                }
            }
        }
        if there {
            self.entries.set(i, (name.to_owned(), value));
            proof {
                assert(self.names() =~= before);
                assert(self.values() =~= held.update(k, v));
            }
        } else {
            self.entries.insert(i, (name.to_owned(), value));
            proof {
                let names = self.names();
                assert(names =~= before.insert(k, name@));
                assert(self.values() =~= held.insert(k, v));
                assert forall|a: int, b: int| 0 <= a < b < names.len() implies precedes(
                    #[trigger] names[a],
                    #[trigger] names[b],
                ) by {
                    if a == k {
                        if b > k + 1 {
                            assert(names[b] == before[b - 1]);
                            precedes_transitive(name@, before[k], before[b - 1]);
                        }
                    } else if b == k {
                        assert(names[a] == before[a]);
                    }
                }
            }
        }
        proof {
            self.ordered_is_wf();
            let names = self.names();
            let now = map.insert(name@, v);
            assert(names[k] == name@);
            assert forall|key: Seq<char>| self@.contains_key(key) == #[trigger] now.contains_key(key)
                && (now.contains_key(key) ==> self@[key] == now[key]) by {
                if self@.contains_key(key) {
                    assert(names.contains(key));
                    let a = choose|a: int| 0 <= a < names.len() && names[a] == key;
                    if a == k {
                    } else if there || a < k {
                        assert(before[a] == key && held[a] == self.values()[a]);
                        assert(key != name@) by {
                            precedes_irreflexive(key);
                            assert(in_order(names));
                        }
                    } else {
                        assert(before[a - 1] == key && held[a - 1] == self.values()[a]);
                        assert(key != name@) by {
                            precedes_irreflexive(key);
                            assert(in_order(names));
                        }
                    }
                }
                if now.contains_key(key) && key != name@ {
                    assert(before.contains(key));
                    let a = choose|a: int| 0 <= a < before.len() && before[a] == key;
                    if there || a < k {
                        assert(names[a] == key);
                    } else {
                        assert(names[a + 1] == key);
                    }
                    assert(names.contains(key));
                }
                if key == name@ {
                    assert(names.contains(key));
                }
            }
            assert(self@.dom() =~= now.dom()) by {
                assert forall|key: Seq<char>| self@.dom().contains(key) == now.dom().contains(key) by {
                    assert(now.contains_key(key) == self@.contains_key(key));
                }
            }
            assert forall|key: Seq<char>| now.dom().contains(key) implies self@[key] == now[key] by {
                assert(now.contains_key(key));
            }
            assert(self@ =~= now);
        }
    }

    /// Takes away what is under `name`; says whether something was.
    pub fn remove(&mut self, name: &str) -> (r: bool)
        requires
            old(self).wf(),
        ensures
            final(self).wf(),
            r == old(self)@.contains_key(name@),
            final(self)@ == old(self)@.remove(name@),
    {
        match self.find(name) {
            Some(i) => {
                let ghost before = self.names();
                let ghost held = self.values();
                let ghost map = self@;
                let ghost k = i as int;
                proof {
                    self.ordered_is_wf();
                }
                let _ = self.entries.remove(i);
                proof {
                    let names = self.names();
                    assert(names =~= before.remove(k));
                    assert(self.values() =~= held.remove(k));
                    self.ordered_is_wf();
                    let now = map.remove(name@);
                    assert forall|key: Seq<char>|
                        self@.contains_key(key) == #[trigger] now.contains_key(key) && (
                        now.contains_key(key) ==> self@[key] == now[key]) by {
                        if self@.contains_key(key) {
                            assert(names.contains(key));
                            let a = choose|a: int| 0 <= a < names.len() && names[a] == key;
                            precedes_irreflexive(key);
                            if a < k {
                                assert(before[a] == key && held[a] == self.values()[a]);
                                assert(precedes(before[a], before[k]));
                            } else {
                                assert(before[a + 1] == key && held[a + 1] == self.values()[a]);
                                assert(precedes(before[k], before[a + 1]));
                            }
                        }
                        if now.contains_key(key) {
                            assert(before.contains(key));
                            let a = choose|a: int| 0 <= a < before.len() && before[a] == key;
                            if a < k {
                                assert(names[a] == key);
                            } else {
                                assert(names[a - 1] == key);
                            }
                            assert(names.contains(key));
                        }
                    }
                    assert(self@.dom() =~= now.dom()) by {
                        assert forall|key: Seq<char>|
                            self@.dom().contains(key) == now.dom().contains(key) by {
                            assert(now.contains_key(key) == self@.contains_key(key));
                        }
                    }
                    assert forall|key: Seq<char>| now.dom().contains(key) implies self@[key]
                        == now[key] by {
                        assert(now.contains_key(key));
                    }
                    assert(self@ =~= now);
                }
                true
            },
            None => {
                assert(self@.remove(name@) =~= self@);
                false
            },
        }
    }
}

} // verus!
