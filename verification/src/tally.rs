//! Counting how often texts occur.

use vstd::multiset::*;
use vstd::prelude::*;
use vstd::seq_lib::*;
use vstd::string::*;

use crate::sorting::{lex_lt, lex_lt_order, stable_sort, text_key, text_less, SortKey};
use crate::text::same;

verus! {

/// A text and how often it occurs.
#[derive(Debug)]
pub struct Tally {
    pub name: String,
    pub count: usize,
}

impl View for Tally {
    type V = (Seq<char>, nat);

    open spec fn view(&self) -> (Seq<char>, nat) {
        (self.name@, self.count as nat)
    }
}

/// The contents of tallies.
pub open spec fn tally_views(tallies: Seq<Tally>) -> Seq<(Seq<char>, nat)> {
    tallies.map_values(|t: Tally| t@)
}

/// How often a text occurs.
pub open spec fn occurrences(list: Seq<Seq<char>>, name: Seq<char>) -> nat
    decreases list.len(),
{
    if list.len() == 0 {
        0
    } else {
        occurrences(list.drop_last(), name) + if list.last() == name {
            1nat
        } else {
            0nat
        }
    }
}

/// Each text of the list once, with how often it occurs.
pub open spec fn is_tally(t: Seq<(Seq<char>, nat)>, list: Seq<Seq<char>>) -> bool {
    &&& forall|i: int, j: int| 0 <= i < j < t.len() ==> (#[trigger] t[i]).0 != (#[trigger] t[j]).0
    &&& forall|i: int|
        0 <= i < t.len() ==> (#[trigger] t[i]).1 == occurrences(list, t[i].0) && t[i].1 > 0
    &&& forall|k: int| 0 <= k < list.len() ==> has_name(t, #[trigger] list[k])
}

/// Some tally has that name.
pub open spec fn has_name(t: Seq<(Seq<char>, nat)>, name: Seq<char>) -> bool {
    exists|i: int| 0 <= i < t.len() && (#[trigger] t[i]).0 == name
}

/// A tally comes before another: it is larger, or as large and its name is smaller.
pub open spec fn ranks_before(a: (Seq<char>, nat), b: (Seq<char>, nat)) -> bool {
    a.1 > b.1 || (a.1 == b.1 && lex_lt(text_key(a.0), text_key(b.0)))
}

/// The texts of a list with how often they occur, the most frequent first and the
/// equally frequent by name.
pub open spec fn is_ranking(t: Seq<(Seq<char>, nat)>, list: Seq<Seq<char>>) -> bool {
    &&& is_tally(t, list)
    &&& forall|i: int, j: int| 0 <= i < j < t.len() ==> ranks_before(#[trigger] t[i], #[trigger] t[j])
}

/// The texts of a list with how often they occur, by name.
pub open spec fn is_index(t: Seq<(Seq<char>, nat)>, list: Seq<Seq<char>>) -> bool {
    &&& is_tally(t, list)
    &&& forall|i: int, j: int|
        0 <= i < j < t.len() ==> lex_lt(text_key((#[trigger] t[i]).0), text_key((#[trigger] t[j]).0))
}

proof fn occurs_at_most(list: Seq<Seq<char>>, name: Seq<char>)
    ensures
        occurrences(list, name) <= list.len(),
    decreases list.len(),
{
    if list.len() > 0 {
        occurs_at_most(list.drop_last(), name);
    }
}

fn count_all(list: &Vec<String>) -> (r: Vec<Tally>)
    ensures
        is_tally(tally_views(r@), list.deep_view()),
{
    let ghost all = list.deep_view();
    let mut out: Vec<Tally> = Vec::new();
    let mut i: usize = 0;
    while i < list.len()
        invariant
            i <= list@.len(),
            all == list.deep_view(),
            is_tally(tally_views(out@), all.take(i as int)),
        decreases list@.len() - i,
    {
        let name = list[i].as_str();
        let ghost t = tally_views(out@);
        let ghost before = all.take(i as int);
        proof {
            assert(all.take(i + 1).drop_last() =~= before);
            assert(all.take(i + 1).last() == name@);
            assert forall|k: int| 0 <= k < i implies has_name(t, #[trigger] all[k]) by {
                assert(before[k] == all[k]);
            }
        }
        let mut k: usize = 0;
        while k < out.len() && !same(out[k].name.as_str(), name)
            invariant
                k <= out@.len(),
                t == tally_views(out@),
                forall|j: int| 0 <= j < k ==> (#[trigger] t[j]).0 != name@,
            decreases out@.len() - k,
        {
            assert(t[k as int].0 == out@[k as int].name@);
            k += 1;
        }
        if k < out.len() {
            proof {
                assert(t[k as int] == out@[k as int]@);
                occurs_at_most(before, name@);
            }
            let count: usize = out[k].count + 1;
            let old_name = out[k].name.clone();
            out.set(k, Tally { name: old_name, count });
            proof {
                let u = tally_views(out@);
                assert(u =~= t.update(k as int, (name@, t[k as int].1 + 1)));
                assert forall|j: int| 0 <= j < u.len() implies (#[trigger] u[j]).1 == occurrences(
                    all.take(i + 1),
                    u[j].0,
                ) && u[j].1 > 0 by {
                    assert(t[j].0 == u[j].0);
                    if j != k {
                        assert(u[j].0 != name@) by {
                            if j < k {
                                assert(t[j].0 != t[k as int].0);
                            } else {
                                assert(t[k as int].0 != t[j].0);
                            }
                        }
                    }
                }
                assert forall|m: int| 0 <= m < i + 1 implies has_name(u, #[trigger] all.take(i + 1)[m]) by {
                    if m < i {
                        let j = choose|j: int| 0 <= j < t.len() && (#[trigger] t[j]).0 == all[m];
                        assert(u[j].0 == t[j].0);
                    } else {
                        assert(u[k as int].0 == name@);
                    }
                }
            }
        } else {
            proof {
                assert forall|m: int| 0 <= m < i implies before[m] != name@ by {
                    assert(has_name(t, before[m]));
                }
                never_occurs(before, name@);
            }
            out.push(Tally { name: list[i].clone(), count: 1 });
            proof {
                let u = tally_views(out@);
                assert(u =~= t.push((name@, 1nat)));
                assert forall|j: int| 0 <= j < u.len() implies (#[trigger] u[j]).1 == occurrences(
                    all.take(i + 1),
                    u[j].0,
                ) && u[j].1 > 0 by {
                    if j < t.len() {
                        assert(u[j] == t[j]);
                    }
                }
                assert forall|a: int, b: int| 0 <= a < b < u.len() implies (#[trigger] u[a]).0 != (
                #[trigger] u[b]).0 by {
                    assert(u[a] == t[a]);
                    if b < t.len() {
                        assert(u[b] == t[b]);
                    }
                }
                assert forall|m: int| 0 <= m < i + 1 implies has_name(u, #[trigger] all.take(i + 1)[m]) by {
                    if m < i {
                        let j = choose|j: int| 0 <= j < t.len() && (#[trigger] t[j]).0 == all[m];
                        assert(u[j].0 == t[j].0);
                    } else {
                        assert(u[t.len() as int].0 == name@);
                    }
                }
            }
        }
        i += 1;
    }
    assert(all.take(i as int) =~= all);
    out
}

/// What occurs in a list stands in it.
pub proof fn occurring_is_there(list: Seq<Seq<char>>, name: Seq<char>)
    requires
        occurrences(list, name) > 0,
    ensures
        list.contains(name),
    decreases list.len(),
{
    if list.last() == name {
        assert(list[list.len() - 1] == name);
    } else {
        occurring_is_there(list.drop_last(), name);
        let i = choose|i: int| 0 <= i < list.drop_last().len() && list.drop_last()[i] == name;
        assert(list[i] == name);
    }
}

proof fn never_occurs(list: Seq<Seq<char>>, name: Seq<char>)
    requires
        forall|m: int| 0 <= m < list.len() ==> list[m] != name,
    ensures
        occurrences(list, name) == 0,
    decreases list.len(),
{
    if list.len() > 0 {
        never_occurs(list.drop_last(), name);
    }
}

/// Tallies that are sorted by size and name.
pub struct BySize {
    pub tally: Tally,
}

impl SortKey for BySize {
    open spec fn sort_key(&self) -> Seq<int> {
        seq![-(self.tally.count as int)] + text_key(self.tally.name@)
    }

    fn less(&self, other: &Self) -> (r: bool) {
        proof {
            assert(self.sort_key().drop_first() =~= text_key(self.tally.name@));
            assert(other.sort_key().drop_first() =~= text_key(other.tally.name@));
        }
        if self.tally.count != other.tally.count {
            self.tally.count > other.tally.count
        } else {
            text_less(self.tally.name.as_str(), other.tally.name.as_str())
        }
    }
}

/// Tallies that are sorted by name.
pub struct ByName {
    pub tally: Tally,
}

impl SortKey for ByName {
    open spec fn sort_key(&self) -> Seq<int> {
        text_key(self.tally.name@)
    }

    fn less(&self, other: &Self) -> (r: bool) {
        text_less(self.tally.name.as_str(), other.tally.name.as_str())
    }
}

proof fn same_key_same_name(a: Seq<char>, b: Seq<char>)
    requires
        text_key(a) == text_key(b),
    ensures
        a == b,
{
    assert(a.len() == text_key(a).len() == b.len());
    assert forall|i: int| 0 <= i < a.len() implies a[i] == b[i] by {
        assert(text_key(a)[i] == a[i] as int);
        assert(text_key(b)[i] == b[i] as int);
    }
    assert(a =~= b);
}

proof fn rearranged_tally(a: Seq<(Seq<char>, nat)>, b: Seq<(Seq<char>, nat)>, list: Seq<Seq<char>>)
    requires
        is_tally(a, list),
        a.to_multiset() == b.to_multiset(),
    ensures
        is_tally(b, list),
{
    broadcast use group_to_multiset_ensures;

    assert(a.no_duplicates());
    a.lemma_multiset_has_no_duplicates();
    b.lemma_multiset_has_no_duplicates_conv();
    assert forall|i: int| 0 <= i < b.len() implies a.contains(#[trigger] b[i]) by {
        assert(b.to_multiset().count(b[i]) > 0);
    }
    assert forall|i: int, j: int| 0 <= i < j < b.len() implies (#[trigger] b[i]).0 != (#[trigger] b[j]).0 by {
        let x = choose|x: int| 0 <= x < a.len() && a[x] == b[i];
        let y = choose|y: int| 0 <= y < a.len() && a[y] == b[j];
        assert(a.contains(b[i]) && a.contains(b[j]));
        if b[i].0 == b[j].0 {
            if x < y {
                assert(a[x].0 != a[y].0);
            } else if y < x {
                assert(a[y].0 != a[x].0);
            } else {
                assert(b[i] == b[j]);
            }
        }
    }
    assert forall|i: int| 0 <= i < b.len() implies (#[trigger] b[i]).1 == occurrences(list, b[i].0)
        && b[i].1 > 0 by {
        let x = choose|x: int| 0 <= x < a.len() && a[x] == b[i];
        assert(a.contains(b[i]));
        assert(a[x].1 == occurrences(list, a[x].0));
    }
    assert forall|k: int| 0 <= k < list.len() implies has_name(b, #[trigger] list[k]) by {
        assert(has_name(a, list[k]));
        let x = choose|x: int| 0 <= x < a.len() && (#[trigger] a[x]).0 == list[k];
        assert(a.to_multiset().count(a[x]) > 0);
        assert(b.contains(a[x]));
        let y = choose|y: int| 0 <= y < b.len() && b[y] == a[x];
        assert(b[y].0 == list[k]);
    }
}

proof fn mapped_multisets<A, B>(a: Seq<A>, b: Seq<A>, f: spec_fn(A) -> B)
    requires
        a.to_multiset() == b.to_multiset(),
    ensures
        a.map_values(f).to_multiset() == b.map_values(f).to_multiset(),
    decreases a.len(),
{
    broadcast use group_to_multiset_ensures;

    assert(a.to_multiset().len() == b.to_multiset().len());
    if a.len() == 0 {
        if b.len() > 0 {
            assert(b.contains(b[0]));
            assert(b.to_multiset().count(b[0]) > 0);
            assert(a.contains(b[0]));
        }
        assert(a.map_values(f) =~= b.map_values(f));
    } else {
        let x = a.last();
        assert(a.to_multiset().count(x) > 0);
        assert(b.contains(x));
        let i = choose|i: int| 0 <= i < b.len() && b[i] == x;
        let a2 = a.drop_last();
        let b2 = b.remove(i);
        assert(a =~= a2.push(x));
        assert(a.to_multiset() == a2.to_multiset().insert(x));
        assert(b2.to_multiset() =~= b.to_multiset().remove(x));
        assert(a2.to_multiset() =~= b2.to_multiset());
        mapped_multisets(a2, b2, f);
        assert(a.map_values(f) =~= a2.map_values(f).push(f(x)));
        assert(b2.map_values(f) =~= b.map_values(f).remove(i));
        assert(b.map_values(f)[i] == f(x));
        assert(b2.map_values(f).to_multiset() =~= b.map_values(f).to_multiset().remove(f(x)));
        assert(b.map_values(f).to_multiset().count(f(x)) > 0) by {
            assert(b.map_values(f).contains(f(x)));
        }
        assert(b.map_values(f).to_multiset() =~= b2.map_values(f).to_multiset().insert(f(x)));
    }
}

/// The texts of a list with how often they occur, the most frequent first.
pub fn ranking(list: &Vec<String>) -> (r: Vec<Tally>)
    ensures
        is_ranking(tally_views(r@), list.deep_view()),
{
    let mut counted = count_all(list);
    let ghost t = tally_views(counted@);
    let ghost given = counted@;
    let mut keyed: Vec<BySize> = Vec::new();
    let ghost mut n: int = 0;
    assert(given.skip(0) =~= given);
    while counted.len() > 0
        invariant
            0 <= n <= given.len(),
            counted@ == given.skip(n),
            keyed@.len() == n,
            forall|i: int| 0 <= i < n ==> (#[trigger] keyed@[i]).tally == given[i],
        decreases counted@.len(),
    {
        let tally = counted.remove(0);
        keyed.push(BySize { tally });
        proof {
            assert(given.skip(n)[0] == given[n]);
            assert(given.skip(n).remove(0) =~= given.skip(n + 1));
            n = n + 1;
        }
    }
    let ghost unsorted = keyed@;
    let mut sorted = stable_sort(keyed);
    let ghost all = sorted@;
    let ghost f = |k: BySize| k.tally@;
    proof {
        mapped_multisets(unsorted, all, f);
        assert(unsorted.map_values(f) =~= t);
        rearranged_tally(t, all.map_values(f), list.deep_view());
    }
    let mut out: Vec<Tally> = Vec::new();
    let ghost mut m: int = 0;
    assert(all.skip(0) =~= all);
    while sorted.len() > 0
        invariant
            0 <= m <= all.len(),
            sorted@ == all.skip(m),
            out@.len() == m,
            forall|i: int| 0 <= i < m ==> #[trigger] out@[i] == all[i].tally,
        decreases sorted@.len(),
    {
        let keyed = sorted.remove(0);
        out.push(keyed.tally);
        proof {
            assert(all.skip(m)[0] == all[m]);
            assert(all.skip(m).remove(0) =~= all.skip(m + 1));
            m = m + 1;
        }
    }
    proof {
        let u = tally_views(out@);
        assert(u =~= all.map_values(f));
        assert forall|i: int, j: int| 0 <= i < j < u.len() implies ranks_before(
            #[trigger] u[i],
            #[trigger] u[j],
        ) by {
            let a = all[i];
            let b = all[j];
            assert(!lex_lt(b.sort_key(), a.sort_key()));
            assert(a.sort_key().drop_first() =~= text_key(a.tally.name@));
            assert(b.sort_key().drop_first() =~= text_key(b.tally.name@));
            lex_lt_order(text_key(u[i].0), text_key(u[j].0), text_key(u[j].0));
            assert(u[i].0 != u[j].0);
            if text_key(u[i].0) == text_key(u[j].0) {
                same_key_same_name(u[i].0, u[j].0);
            }
        }
    }
    out
}

/// The texts of a list with how often they occur, by name.
pub fn index(list: &Vec<String>) -> (r: Vec<Tally>)
    ensures
        is_index(tally_views(r@), list.deep_view()),
{
    let mut counted = count_all(list);
    let ghost t = tally_views(counted@);
    let ghost given = counted@;
    let mut keyed: Vec<ByName> = Vec::new();
    let ghost mut n: int = 0;
    assert(given.skip(0) =~= given);
    while counted.len() > 0
        invariant
            0 <= n <= given.len(),
            counted@ == given.skip(n),
            keyed@.len() == n,
            forall|i: int| 0 <= i < n ==> (#[trigger] keyed@[i]).tally == given[i],
        decreases counted@.len(),
    {
        let tally = counted.remove(0);
        keyed.push(ByName { tally });
        proof {
            assert(given.skip(n)[0] == given[n]);
            assert(given.skip(n).remove(0) =~= given.skip(n + 1));
            n = n + 1;
        }
    }
    let ghost unsorted = keyed@;
    let mut sorted = stable_sort(keyed);
    let ghost all = sorted@;
    let ghost f = |k: ByName| k.tally@;
    proof {
        mapped_multisets(unsorted, all, f);
        assert(unsorted.map_values(f) =~= t);
        rearranged_tally(t, all.map_values(f), list.deep_view());
    }
    let mut out: Vec<Tally> = Vec::new();
    let ghost mut m: int = 0;
    assert(all.skip(0) =~= all);
    while sorted.len() > 0
        invariant
            0 <= m <= all.len(),
            sorted@ == all.skip(m),
            out@.len() == m,
            forall|i: int| 0 <= i < m ==> #[trigger] out@[i] == all[i].tally,
        decreases sorted@.len(),
    {
        let keyed = sorted.remove(0);
        out.push(keyed.tally);
        proof {
            assert(all.skip(m)[0] == all[m]);
            assert(all.skip(m).remove(0) =~= all.skip(m + 1));
            m = m + 1;
        }
    }
    proof {
        let u = tally_views(out@);
        assert(u =~= all.map_values(f));
        assert forall|i: int, j: int| 0 <= i < j < u.len() implies lex_lt(
            text_key((#[trigger] u[i]).0),
            text_key((#[trigger] u[j]).0),
        ) by {
            let a = all[i];
            let b = all[j];
            assert(!lex_lt(b.sort_key(), a.sort_key()));
            lex_lt_order(text_key(u[i].0), text_key(u[j].0), text_key(u[j].0));
            assert(u[i].0 != u[j].0);
            if text_key(u[i].0) == text_key(u[j].0) {
                same_key_same_name(u[i].0, u[j].0);
            }
        }
    }
    out
}

/// Each value comes before all that stand behind it.
pub open spec fn is_ascending<A>(s: Seq<A>, before: spec_fn(A, A) -> bool) -> bool {
    forall|i: int, j: int| 0 <= i < j < s.len() ==> before(#[trigger] s[i], #[trigger] s[j])
}

proof fn ascending_is_unique<A>(a: Seq<A>, b: Seq<A>, before: spec_fn(A, A) -> bool)
    requires
        forall|x: A, y: A| !(#[trigger] before(x, y) && before(y, x)),
        is_ascending(a, before),
        is_ascending(b, before),
        forall|x: A| a.contains(x) <==> #[trigger] b.contains(x),
    ensures
        a == b,
    decreases a.len(),
{
    if a.len() == 0 {
        if b.len() > 0 {
            assert(b.contains(b[0]));
        }
        assert(a =~= b);
    } else {
        assert(a.contains(a[0]));
        assert(b.contains(a[0]));
        let j = choose|j: int| 0 <= j < b.len() && b[j] == a[0];
        assert(b.contains(b[0]));
        let i = choose|i: int| 0 <= i < a.len() && a[i] == b[0];
        if i > 0 && j > 0 {
            assert(before(a[0], a[i]));
            assert(before(b[0], b[j]));
        }
        assert(a[0] == b[0]);
        let a2 = a.drop_first();
        let b2 = b.drop_first();
        assert forall|x: A| a2.contains(x) <==> #[trigger] b2.contains(x) by {
            if a2.contains(x) {
                let k = choose|k: int| 0 <= k < a2.len() && a2[k] == x;
                assert(before(a[0], a[k + 1]));
                assert(a[k + 1] == x);
                assert(a.contains(x));
                assert(b.contains(x));
                let m = choose|m: int| 0 <= m < b.len() && b[m] == x;
                assert(m > 0);
                assert(b2[m - 1] == x);
            }
            if b2.contains(x) {
                let k = choose|k: int| 0 <= k < b2.len() && b2[k] == x;
                assert(before(b[0], b[k + 1]));
                assert(b[k + 1] == x);
                assert(b.contains(x));
                assert(a.contains(x));
                let m = choose|m: int| 0 <= m < a.len() && a[m] == x;
                assert(m > 0);
                assert(a2[m - 1] == x);
            }
        }
        ascending_is_unique(a2, b2, before);
        assert(a =~= seq![a[0]] + a2);
        assert(b =~= seq![b[0]] + b2);
    }
}

proof fn same_tallies(a: Seq<(Seq<char>, nat)>, b: Seq<(Seq<char>, nat)>, list: Seq<Seq<char>>)
    requires
        is_tally(a, list),
        is_tally(b, list),
    ensures
        forall|x: (Seq<char>, nat)| a.contains(x) ==> #[trigger] b.contains(x),
{
    assert forall|x: (Seq<char>, nat)| a.contains(x) implies #[trigger] b.contains(x) by {
        let i = choose|i: int| 0 <= i < a.len() && a[i] == x;
        assert(a[i].1 == occurrences(list, a[i].0));
        occurring_is_there(list, x.0);
        let k = choose|k: int| 0 <= k < list.len() && list[k] == x.0;
        assert(has_name(b, list[k]));
        let j = choose|j: int| 0 <= j < b.len() && (#[trigger] b[j]).0 == x.0;
        assert(b[j] == x);
    }
}

/// There is one ranking of a list.
pub proof fn ranking_is_unique(
    a: Seq<(Seq<char>, nat)>,
    b: Seq<(Seq<char>, nat)>,
    list: Seq<Seq<char>>,
)
    requires
        is_ranking(a, list),
        is_ranking(b, list),
    ensures
        a == b,
{
    same_tallies(a, b, list);
    same_tallies(b, a, list);
    let before = |x: (Seq<char>, nat), y: (Seq<char>, nat)| ranks_before(x, y);
    assert forall|x: (Seq<char>, nat), y: (Seq<char>, nat)| !(#[trigger] before(x, y) && before(y, x)) by {
        lex_lt_order(text_key(x.0), text_key(y.0), text_key(x.0));
    }
    ascending_is_unique(a, b, before);
}

/// There is one index of a list.
pub proof fn index_is_unique(
    a: Seq<(Seq<char>, nat)>,
    b: Seq<(Seq<char>, nat)>,
    list: Seq<Seq<char>>,
)
    requires
        is_index(a, list),
        is_index(b, list),
    ensures
        a == b,
{
    same_tallies(a, b, list);
    same_tallies(b, a, list);
    let before = |x: (Seq<char>, nat), y: (Seq<char>, nat)| lex_lt(text_key(x.0), text_key(y.0));
    assert forall|x: (Seq<char>, nat), y: (Seq<char>, nat)| !(#[trigger] before(x, y) && before(y, x)) by {
        lex_lt_order(text_key(x.0), text_key(y.0), text_key(x.0));
    }
    ascending_is_unique(a, b, before);
}

/// Each text counts one for itself and nothing for others.
pub proof fn each_text_counts_one(list: Seq<Seq<char>>, name: Seq<char>, other: Seq<char>)
    ensures
        occurrences(Seq::empty(), name) == 0,
        occurrences(list.push(name), name) == occurrences(list, name) + 1,
        other != name ==> occurrences(list.push(other), name) == occurrences(list, name),
{
    assert(list.push(name).drop_last() =~= list);
    assert(list.push(name).last() == name);
    assert(list.push(other).drop_last() =~= list);
    assert(list.push(other).last() == other);
}

/// In a ranking a more frequent text stands before a less frequent one, and of two that
/// are as frequent the smaller one; each text of the list stands in it, once.
pub proof fn frequent_texts_rank_first(list: &Vec<String>, r: Vec<Tally>, i: int, j: int, k: int)
    requires
        call_ensures(ranking, (list,), r),
    ensures
        0 <= i < j < r@.len() ==> r@[i].count > r@[j].count || (r@[i].count == r@[j].count && lex_lt(
            text_key(r@[i].name@),
            text_key(r@[j].name@),
        )),
        0 <= i < j < r@.len() ==> r@[i].name@ != r@[j].name@,
        0 <= i < r@.len() ==> r@[i].count == occurrences(list.deep_view(), r@[i].name@) && r@[i].count > 0,
        0 <= k < list@.len() ==> exists|m: int| 0 <= m < r@.len() && (#[trigger] r@[m]).name@ == list@[k]@,
{
    let t = tally_views(r@);
    assert(t.len() == r@.len());
    if 0 <= i < j < r@.len() {
        assert(t[i] == r@[i]@ && t[j] == r@[j]@);
    }
    if 0 <= i < r@.len() {
        assert(t[i] == r@[i]@);
    }
    if 0 <= k < list@.len() {
        assert(list.deep_view()[k] == list@[k]@);
        assert(has_name(t, list.deep_view()[k]));
        let m = choose|m: int| 0 <= m < t.len() && (#[trigger] t[m]).0 == list.deep_view()[k];
        assert(t[m] == r@[m]@);
        assert(r@[m].name@ == list@[k]@);
    }
}

} // verus!
