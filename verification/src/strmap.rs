//! A map from text to values that keeps the order of insertion.

use vstd::prelude::*;
use vstd::string::*;

use crate::text::same;

verus! {

/// A map from text to values. Keys occur once; entries keep the order in which
/// their keys first came in.
#[derive(Debug)]
pub struct StrMap<V> {
    pub entries: Vec<(String, V)>,
}

impl<V> StrMap<V> {
    /// The keys in order.
    pub open spec fn keys(self) -> Seq<Seq<char>> {
        Seq::new(self.entries@.len(), |i: int| self.entries@[i].0@)
    }

    /// The values in the order of their keys.
    pub open spec fn values(self) -> Seq<V> {
        Seq::new(self.entries@.len(), |i: int| self.entries@[i].1)
    }

    /// No key occurs twice.
    pub open spec fn wf(self) -> bool {
        self.keys().no_duplicates()
    }

    /// Where the key stands, or the number of entries.
    pub open spec fn at(self, key: Seq<char>) -> int {
        if self.keys().contains(key) {
            choose|i: int| 0 <= i < self.entries@.len() && self.entries@[i].0@ == key
        } else {
            self.entries@.len() as int
        }
    }
}

impl<V> View for StrMap<V> {
    type V = Map<Seq<char>, V>;

    open spec fn view(&self) -> Map<Seq<char>, V> {
        Map::new(|k: Seq<char>| self.keys().contains(k), |k: Seq<char>| self.entries@[self.at(k)].1)
    }
}

/// An entry's key leads to its value.
pub proof fn entry_in_map<V>(m: StrMap<V>, i: int)
    requires
        m.wf(),
        0 <= i < m.entries@.len(),
    ensures
        m@.dom().contains(m.entries@[i].0@),
        m@[m.entries@[i].0@] == m.entries@[i].1,
        m.at(m.entries@[i].0@) == i,
{
    let k = m.entries@[i].0@;
    assert(m.keys()[i] == k);
    assert(m.keys().contains(k));
    let j = m.at(k);
    assert(m.keys()[j] == k);
}

/// A key of the map stands in an entry.
pub proof fn key_has_entry<V>(m: StrMap<V>, k: Seq<char>)
    requires
        m@.dom().contains(k),
    ensures
        0 <= m.at(k) < m.entries@.len(),
        m.entries@[m.at(k)].0@ == k,
        m@[k] == m.entries@[m.at(k)].1,
{
    assert(m.keys().contains(k));
    let i = choose|i: int| 0 <= i < m.keys().len() && m.keys()[i] == k;
    assert(m.entries@[i].0@ == k);
}

impl<V> StrMap<V> {
    /// The empty map.
    pub fn new() -> (r: Self)
        ensures
            r.wf(),
            r@ == Map::<Seq<char>, V>::empty(),
            r.entries@.len() == 0,
    {
        let r = StrMap { entries: Vec::new() };
        assert(r@ =~= Map::<Seq<char>, V>::empty());
        r
    }

    /// Where the key stands.
    pub fn find(&self, key: &str) -> (r: Option<usize>)
        requires
            self.wf(),
        ensures
            r is Some <==> self@.dom().contains(key@),
            r is Some ==> r->0 < self.entries@.len() && self.entries@[r->0 as int].0@ == key@
                && self@[key@] == self.entries@[r->0 as int].1 && self.at(key@) == r->0,
    {
        let mut i: usize = 0;
        while i < self.entries.len()
            invariant
                i <= self.entries@.len(),
                self.wf(),
                forall|j: int| 0 <= j < i ==> self.entries@[j].0@ != key@,
            decreases self.entries@.len() - i,
        {
            if same(self.entries[i].0.as_str(), key) {
                proof {
                    entry_in_map(*self, i as int);
                }
                return Some(i);
            }
            i += 1;
        }
        proof {
            if self@.dom().contains(key@) {
                key_has_entry(*self, key@);
            }
        }
        None
    }

    /// Whether the key is there.
    pub fn contains_key(&self, key: &str) -> (r: bool)
        requires
            self.wf(),
        ensures
            r == self@.dom().contains(key@),
    {
        self.find(key).is_some()
    }

    /// The value of the key.
    pub fn get(&self, key: &str) -> (r: Option<&V>)
        requires
            self.wf(),
        ensures
            r is Some <==> self@.dom().contains(key@),
            r is Some ==> *r->0 == self@[key@],
    {
        match self.find(key) {
            Some(i) => Some(&self.entries[i].1),
            None => None,
        }
    }

    /// Sets the value of the key; a new key comes last.
    pub fn insert(&mut self, key: &str, value: V)
        requires
            old(self).wf(),
        ensures
            final(self).wf(),
            final(self)@ == old(self)@.insert(key@, value),
            old(self)@.dom().contains(key@) ==> final(self).keys() == old(self).keys(),
            !old(self)@.dom().contains(key@) ==> final(self).keys() == old(self).keys().push(key@),
    {
        let ghost before = *self;
        match self.find(key) {
            Some(i) => {
                let k = self.entries[i].0.clone();
                self.entries.set(i, (k, value));
                proof {
                    assert(self.keys() =~= before.keys());
                    assert(self@.dom() =~= before@.insert(key@, value).dom());
                    assert forall|x: Seq<char>| self@.dom().contains(x) implies self@[x]
                        == before@.insert(key@, value)[x] by {
                        key_has_entry(*self, x);
                        entry_in_map(*self, self.at(x));
                        entry_in_map(before, self.at(x));
                        entry_in_map(*self, i as int);
                    }
                    assert(self@ =~= before@.insert(key@, value));
                }
            },
            None => {
                self.entries.push((crate::text::owned(key), value));
                proof {
                    let n = before.entries@.len() as int;
                    assert(self.keys() =~= before.keys().push(key@));
                    assert forall|a: int, b: int|
                        0 <= a < n + 1 && 0 <= b < n + 1 && a != b implies self.keys()[a]
                        != self.keys()[b] by {
                        if a == n {
                            entry_in_map(before, b);
                        } else if b == n {
                            entry_in_map(before, a);
                        } else {
                            assert(before.keys()[a] != before.keys()[b]);
                        }
                    }
                    assert(self.wf());
                    assert forall|x: Seq<char>| self@.dom().contains(x) <==> before@.insert(
                        key@,
                        value,
                    ).dom().contains(x) by {
                        if self@.dom().contains(x) {
                            key_has_entry(*self, x);
                            if self.at(x) < n {
                                entry_in_map(before, self.at(x));
                            }
                        }
                        if before@.dom().contains(x) {
                            key_has_entry(before, x);
                            entry_in_map(*self, before.at(x));
                        }
                        entry_in_map(*self, n);
                    }
                    assert(self@.dom() =~= before@.insert(key@, value).dom());
                    assert forall|x: Seq<char>| self@.dom().contains(x) implies self@[x]
                        == before@.insert(key@, value)[x] by {
                        key_has_entry(*self, x);
                        if self.at(x) < n {
                            entry_in_map(before, self.at(x));
                        } else {
                            entry_in_map(*self, n);
                        }
                    }
                    assert(self@ =~= before@.insert(key@, value));
                }
            },
        }
    }

    /// Takes the key out; the others keep their order.
    pub fn remove(&mut self, key: &str) -> (r: Option<V>)
        requires
            old(self).wf(),
        ensures
            final(self).wf(),
            final(self)@ == old(self)@.remove(key@),
            r is Some <==> old(self)@.dom().contains(key@),
            r is Some ==> r->0 == old(self)@[key@],
    {
        let ghost before = *self;
        match self.find(key) {
            Some(i) => {
                let (_, value) = self.entries.remove(i);
                proof {
                    let n = before.entries@.len() as int;
                    let at = i as int;
                    assert(self.entries@ =~= before.entries@.remove(at));
                    assert forall|a: int, b: int|
                        0 <= a < n - 1 && 0 <= b < n - 1 && a != b implies self.keys()[a]
                        != self.keys()[b] by {
                        let a2 = if a < at { a } else { a + 1 };
                        let b2 = if b < at { b } else { b + 1 };
                        assert(before.keys()[a2] != before.keys()[b2]);
                    }
                    assert(self.wf());
                    assert forall|x: Seq<char>|
                        self@.dom().contains(x) <==> before@.remove(key@).dom().contains(x) by {
                        if self@.dom().contains(x) {
                            key_has_entry(*self, x);
                            let a = self.at(x);
                            let a2 = if a < at { a } else { a + 1 };
                            entry_in_map(before, a2);
                        }
                        if before@.dom().contains(x) && x != key@ {
                            key_has_entry(before, x);
                            let a = before.at(x);
                            let a2 = if a < at { a } else { a - 1 };
                            entry_in_map(*self, a2);
                        }
                    }
                    assert forall|x: Seq<char>| self@.dom().contains(x) implies self@[x]
                        == before@.remove(key@)[x] by {
                        key_has_entry(*self, x);
                        let a = self.at(x);
                        let a2 = if a < at { a } else { a + 1 };
                        entry_in_map(before, a2);
                    }
                    assert(self@ =~= before@.remove(key@));
                }
                Some(value)
            },
            None => {
                proof {
                    assert(self@ =~= before@.remove(key@));
                }
                None
            },
        }
    }
}

} // verus!
