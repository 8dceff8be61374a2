//! Stable sorting.

use vstd::prelude::*;
use vstd::string::*;

use crate::text::to_chars;

verus! {

/// Lexicographic order.
pub open spec fn lex_lt(a: Seq<int>, b: Seq<int>) -> bool
    decreases a.len(),
{
    if b.len() == 0 {
        false
    } else if a.len() == 0 {
        true
    } else if a[0] != b[0] {
        a[0] < b[0]
    } else {
        lex_lt(a.drop_first(), b.drop_first())
    }
}

/// A text as a sort key: its characters in the order of their code points.
pub open spec fn text_key(s: Seq<char>) -> Seq<int> {
    s.map_values(|c: char| c as int)
}

/// Values that are sorted by a key.
pub trait SortKey: Sized {
    /// The key.
    spec fn sort_key(&self) -> Seq<int>;

    /// Whether this value belongs before the other.
    fn less(&self, other: &Self) -> (r: bool)
        ensures
            r == lex_lt(self.sort_key(), other.sort_key()),
    ;
}

/// Having that key.
pub open spec fn key_is<T: SortKey>(k: Seq<int>) -> spec_fn(T) -> bool {
    |x: T| x.sort_key() == k
}

/// The values with that key, in order.
pub open spec fn with_key<T: SortKey>(s: Seq<T>, k: Seq<int>) -> Seq<T> {
    s.filter(key_is(k))
}

/// No value stands before one with a smaller key.
pub open spec fn is_sorted<T: SortKey>(s: Seq<T>) -> bool {
    forall|i: int, j: int| 0 <= i < j < s.len() ==> !lex_lt(#[trigger] s[j].sort_key(), #[trigger] s[i].sort_key())
}

/// `out` holds the values of `input` by ascending key; equal keys keep their order.
pub open spec fn is_stable_sort<T: SortKey>(out: Seq<T>, input: Seq<T>) -> bool {
    &&& is_sorted(out)
    &&& out.to_multiset() == input.to_multiset()
    &&& forall|k: Seq<int>| #[trigger] with_key(out, k) == with_key(input, k)
}

proof fn lex_lt_irreflexive(a: Seq<int>)
    ensures
        !lex_lt(a, a),
    decreases a.len(),
{
    if a.len() > 0 {
        lex_lt_irreflexive(a.drop_first());
    }
}

/// The order is a strict total order.
pub proof fn lex_lt_order(a: Seq<int>, b: Seq<int>, c: Seq<int>)
    ensures
        !lex_lt(a, a),
        !(lex_lt(a, b) && lex_lt(b, a)),
        lex_lt(a, b) || lex_lt(b, a) || a == b,
        lex_lt(a, b) && lex_lt(b, c) ==> lex_lt(a, c),
    decreases a.len() + b.len() + c.len(),
{
    lex_lt_irreflexive(a);
    if a.len() == 0 && b.len() == 0 {
        assert(a =~= b);
    }
    if a.len() > 0 && b.len() > 0 {
        let c2 = if c.len() > 0 { c.drop_first() } else { c };
        lex_lt_order(a.drop_first(), b.drop_first(), c2);
        if a[0] == b[0] && a.drop_first() == b.drop_first() {
            assert(a =~= seq![a[0]] + a.drop_first());
            assert(b =~= seq![b[0]] + b.drop_first());
        }
    }
}

/// Whether one text sorts before another.
pub fn text_less(a: &str, b: &str) -> (r: bool)
    ensures
        r == lex_lt(text_key(a@), text_key(b@)),
{
    let x = to_chars(a);
    let y = to_chars(b);
    let mut i: usize = 0;
    let ghost kx = text_key(x@);
    let ghost ky = text_key(y@);
    assert(kx.skip(0) =~= kx);
    assert(ky.skip(0) =~= ky);
    while i < x.len() && i < y.len()
        invariant
            i <= x@.len(),
            i <= y@.len(),
            x@ == a@,
            y@ == b@,
            kx == text_key(x@),
            ky == text_key(y@),
            lex_lt(kx, ky) == lex_lt(kx.skip(i as int), ky.skip(i as int)),
        decreases x@.len() - i,
    {
        if x[i] != y[i] {
            return x[i] < y[i];
        }
        assert(kx.skip(i as int).drop_first() =~= kx.skip(i as int + 1));
        assert(ky.skip(i as int).drop_first() =~= ky.skip(i as int + 1));
        i += 1;
    }
    i < y.len()
}

proof fn insert_keeps_keys<T: SortKey>(s: Seq<T>, pos: int, x: T, k: Seq<int>)
    requires
        0 <= pos <= s.len(),
        forall|j: int| pos <= j < s.len() ==> s[j].sort_key() != x.sort_key(),
    ensures
        with_key(s.insert(pos, x), k) == with_key(s.push(x), k),
{
    let f = key_is::<T>(k);
    let a = s.take(pos);
    let b = s.skip(pos);
    assert(s =~= a + b);
    assert(s.insert(pos, x) =~= a + (seq![x] + b));
    assert(s.push(x) =~= a + (b + seq![x]));
    Seq::filter_distributes_over_add(a, seq![x] + b, f);
    Seq::filter_distributes_over_add(a, b + seq![x], f);
    Seq::filter_distributes_over_add(seq![x], b, f);
    Seq::filter_distributes_over_add(b, seq![x], f);
    if k == x.sort_key() {
        assert forall|i: int| 0 <= i < b.len() implies !f(#[trigger] b[i]) by {
            assert(b[i] == s[pos + i]);
        }
        filter_none(b, f);
        assert(seq![x].filter(f) + b.filter(f) =~= b.filter(f) + seq![x].filter(f));
    } else {
        filter_none(seq![x], f);
        assert(seq![x].filter(f) + b.filter(f) =~= b.filter(f) + seq![x].filter(f));
    }
}

proof fn filter_none<T>(s: Seq<T>, f: spec_fn(T) -> bool)
    requires
        forall|i: int| 0 <= i < s.len() ==> !f(#[trigger] s[i]),
    ensures
        s.filter(f) == Seq::<T>::empty(),
    decreases s.len(),
{
    reveal(Seq::filter);
    if s.len() > 0 {
        assert forall|i: int| 0 <= i < s.drop_last().len() implies !f(#[trigger] s.drop_last()[i]) by {
            assert(s.drop_last()[i] == s[i]);
        }
        filter_none(s.drop_last(), f);
    }
    assert(s.filter(f) =~= Seq::<T>::empty());
}

proof fn push_keeps_keys<T: SortKey>(a: Seq<T>, b: Seq<T>, x: T, k: Seq<int>)
    requires
        with_key(a, k) == with_key(b, k),
    ensures
        with_key(a.push(x), k) == with_key(b.push(x), k),
{
    let f = key_is::<T>(k);
    assert(a.push(x) =~= a + seq![x]);
    assert(b.push(x) =~= b + seq![x]);
    Seq::filter_distributes_over_add(a, seq![x], f);
    Seq::filter_distributes_over_add(b, seq![x], f);
}

/// Sorts by ascending key; values with equal keys keep their order.
pub fn stable_sort<T: SortKey>(input: Vec<T>) -> (out: Vec<T>)
    ensures
        is_stable_sort(out@, input@),
{
    let mut rest = input;
    let ghost all = rest@;
    let mut out: Vec<T> = Vec::new();
    let ghost mut n: int = 0;
    assert(all.skip(0) =~= all);
    assert(out@ =~= all.take(0));
    while rest.len() > 0
        invariant
            0 <= n <= all.len(),
            rest@ == all.skip(n),
            is_sorted(out@),
            out@.to_multiset() == all.take(n).to_multiset(),
            forall|k: Seq<int>| #[trigger] with_key(out@, k) == with_key(all.take(n), k),
        decreases rest@.len(),
    {
        let x = rest.remove(0);
        let ghost before = out@;
        assert(x == all[n]);
        assert(rest@ =~= all.skip(n + 1));
        let mut pos: usize = out.len();
        while pos > 0 && x.less(&out[pos - 1])
            invariant
                pos <= out@.len(),
                out@ == before,
                forall|j: int| pos <= j < out@.len() ==> lex_lt(x.sort_key(), #[trigger] out@[j].sort_key()),
            decreases pos,
        {
            pos -= 1;
        }
        out.insert(pos, x);
        proof {
            let p = pos as int;
            assert(all.take(n + 1) =~= all.take(n).push(x));
            assert forall|j: int| p <= j < before.len() implies before[j].sort_key() != x.sort_key() by {
                lex_lt_order(x.sort_key(), before[j].sort_key(), x.sort_key());
            }
            assert forall|k: Seq<int>| #[trigger] with_key(out@, k) == with_key(all.take(n + 1), k) by {
                insert_keeps_keys(before, p, x, k);
                push_keeps_keys(before, all.take(n), x, k);
            }
            broadcast use vstd::seq_lib::group_to_multiset_ensures;
            assert(out@.to_multiset() =~= before.to_multiset().insert(x)) by {
                broadcast use vstd::seq_lib::group_to_multiset_ensures;
                vstd::seq_lib::to_multiset_insert(before, p, x);
            }
            assert(all.take(n).push(x).to_multiset() =~= all.take(n).to_multiset().insert(x));
            assert forall|i: int, j: int| 0 <= i < j < out@.len() implies !lex_lt(
                #[trigger] out@[j].sort_key(),
                #[trigger] out@[i].sort_key(),
            ) by {
                let kx = x.sort_key();
                if i == p {
                    assert(out@[j] == before[j - 1]);
                    lex_lt_order(kx, out@[j].sort_key(), kx);
                } else if j == p {
                    assert(out@[i] == before[i]);
                    if p > 0 {
                        assert(!lex_lt(kx, before[p - 1].sort_key()));
                        if i < p - 1 {
                            assert(!lex_lt(before[p - 1].sort_key(), before[i].sort_key()));
                            lex_lt_order(kx, before[i].sort_key(), before[p - 1].sort_key());
                            lex_lt_order(before[i].sort_key(), before[p - 1].sort_key(), kx);
                        }
                    }
                } else {
                    let i2 = if i < p { i } else { i - 1 };
                    let j2 = if j < p { j } else { j - 1 };
                    assert(out@[i] == before[i2]);
                    assert(out@[j] == before[j2]);
                }
            }
            n = n + 1;
        }
    }
    assert(all.take(n) =~= all);
    out
}

/// Texts sort by their first difference, and a text before every longer one that begins
/// with it.
pub proof fn texts_sort_by_first_difference(common: Seq<char>, a: char, x: Seq<char>, b: char, y: Seq<char>)
    ensures
        (a as int) < (b as int) ==> lex_lt(text_key(common + seq![a] + x), text_key(common + seq![b] + y)),
        (a as int) > (b as int) ==> !lex_lt(text_key(common + seq![a] + x), text_key(common + seq![b] + y)),
        lex_lt(text_key(common), text_key(common + seq![a] + x)),
    decreases common.len(),
{
    let s = text_key(common + seq![a] + x);
    let t = text_key(common + seq![b] + y);
    if common.len() == 0 {
        assert(s[0] == a as int);
        assert(t[0] == b as int);
    } else {
        let rest = common.drop_first();
        texts_sort_by_first_difference(rest, a, x, b, y);
        assert(s[0] == common[0] as int && t[0] == common[0] as int && text_key(common)[0] == common[0] as int);
        assert(s.drop_first() =~= text_key(rest + seq![a] + x));
        assert(t.drop_first() =~= text_key(rest + seq![b] + y));
        assert(text_key(common).drop_first() =~= text_key(rest));
    }
}

} // verus!
