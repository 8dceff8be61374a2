//! Finding, splitting and joining.

use vstd::prelude::*;
use vstd::string::*;

use super::{slice_text, to_chars};

verus! {

/// Where `c` first stands in `s`; the length of `s` where it does not.
pub open spec fn first_index(s: Seq<char>, c: char) -> int
    decreases s.len(),
{
    if s.len() == 0 || s[0] == c {
        0
    } else {
        1 + first_index(s.drop_first(), c)
    }
}

/// Where `c` last stands in `s`; -1 where it does not.
pub open spec fn last_index(s: Seq<char>, c: char) -> int
    decreases s.len(),
{
    if s.len() == 0 {
        -1
    } else if s.last() == c {
        s.len() - 1
    } else {
        last_index(s.drop_last(), c)
    }
}

/// What stands before and after the first `c`.
pub open spec fn split_once_at(s: Seq<char>, c: char) -> Option<(Seq<char>, Seq<char>)> {
    let i = first_index(s, c);
    if i < s.len() {
        Some((s.take(i), s.skip(i + 1)))
    } else {
        None
    }
}

/// What stands before and after the last `c`.
pub open spec fn rsplit_once_at(s: Seq<char>, c: char) -> Option<(Seq<char>, Seq<char>)> {
    let i = last_index(s, c);
    if i >= 0 {
        Some((s.take(i), s.skip(i + 1)))
    } else {
        None
    }
}

/// The pieces of `s` between the `c`s.
pub open spec fn split_at_char(s: Seq<char>, c: char) -> Seq<Seq<char>>
    decreases s.len(),
{
    let i = first_index(s, c);
    if 0 <= i < s.len() {
        seq![s.take(i)] + split_at_char(s.skip(i + 1), c)
    } else {
        seq![s]
    }
}

/// `p` stands in `s` at `i`.
pub open spec fn occurs_at(s: Seq<char>, p: Seq<char>, i: int) -> bool {
    &&& 0 <= i
    &&& i + p.len() <= s.len()
    &&& s.subrange(i, i + p.len()) == p
}

/// `p` stands somewhere in `s`.
pub open spec fn has_part(s: Seq<char>, p: Seq<char>) -> bool {
    exists|i: int| occurs_at(s, p, i)
}

/// The texts one after the other, with `sep` between each two.
pub open spec fn joined(parts: Seq<Seq<char>>, sep: Seq<char>) -> Seq<char>
    decreases parts.len(),
{
    if parts.len() == 0 {
        Seq::empty()
    } else if parts.len() == 1 {
        parts[0]
    } else {
        joined(parts.drop_last(), sep) + sep + parts.last()
    }
}

/// What `first_index` means.
pub proof fn first_index_is_first(s: Seq<char>, c: char)
    ensures
        0 <= first_index(s, c) <= s.len(),
        first_index(s, c) < s.len() ==> s[first_index(s, c)] == c,
        forall|j: int| 0 <= j < first_index(s, c) ==> s[j] != c,
        first_index(s, c) < s.len() <==> s.contains(c),
    decreases s.len(),
{
    if s.len() > 0 && s[0] != c {
        let d = s.drop_first();
        first_index_is_first(d, c);
        assert forall|j: int| 0 <= j < first_index(s, c) implies s[j] != c by {
            if j > 0 {
                assert(s[j] == d[j - 1]);
            }
        }
        if s.contains(c) {
            let i = choose|i: int| 0 <= i < s.len() && s[i] == c;
            assert(d[i - 1] == c);
        }
        if d.contains(c) {
            let i = choose|i: int| 0 <= i < d.len() && d[i] == c;
            assert(s[i + 1] == c);
        }
    }
}

/// What `last_index` means.
pub proof fn last_index_is_last(s: Seq<char>, c: char)
    ensures
        -1 <= last_index(s, c) < s.len(),
        last_index(s, c) >= 0 ==> s[last_index(s, c)] == c,
        forall|j: int| last_index(s, c) < j < s.len() ==> s[j] != c,
        last_index(s, c) >= 0 <==> s.contains(c),
    decreases s.len(),
{
    if s.len() > 0 && s.last() != c {
        let d = s.drop_last();
        last_index_is_last(d, c);
        if s.contains(c) {
            let i = choose|i: int| 0 <= i < s.len() && s[i] == c;
            assert(d[i] == c);
        }
        if d.contains(c) {
            let i = choose|i: int| 0 <= i < d.len() && d[i] == c;
            assert(s[i] == c);
        }
        assert forall|j: int| last_index(s, c) < j < s.len() implies s[j] != c by {
            if j < d.len() {
                assert(s[j] == d[j]);
            }
        }
    }
}

/// The first `c` is the only place that fits this description.
pub proof fn first_index_unique(s: Seq<char>, c: char, i: int)
    requires
        0 <= i < s.len(),
        s[i] == c,
        forall|j: int| 0 <= j < i ==> s[j] != c,
    ensures
        first_index(s, c) == i,
{
    first_index_is_first(s, c);
    if first_index(s, c) < i {
    } else if first_index(s, c) > i {
        assert(s[i] != c);
    }
}

fn find_from(v: &[char], c: char, from: usize) -> (r: usize)
    requires
        from <= v@.len(),
    ensures
        r == from + first_index(v@.skip(from as int), c),
        from <= r <= v@.len(),
{
    let mut i: usize = from;
    let ghost d = v@.skip(from as int);
    while i < v.len() && v[i] != c
        invariant
            from <= i <= v@.len(),
            d == v@.skip(from as int),
            first_index(d, c) == i - from + first_index(v@.skip(i as int), c),
        decreases v@.len() - i,
    {
        assert(v@.skip(i as int).drop_first() =~= v@.skip(i as int + 1));
        i += 1;
    }
    assert(first_index(v@.skip(i as int), c) == 0);
    i
}

/// Whether `c` stands in `s`.
pub fn has_char(s: &str, c: char) -> (r: bool)
    ensures
        r == s@.contains(c),
{
    let v = to_chars(s);
    let i: usize = find_from(&v, c, 0);
    assert(v@.skip(0) =~= v@);
    proof {
        first_index_is_first(v@, c);
    }
    i < v.len()
}

/// `str::split_once` with a character.
pub fn split_once(s: &str, c: char) -> (r: Option<(String, String)>)
    ensures
        r.deep_view() == split_once_at(s@, c),
{
    let v = to_chars(s);
    let i: usize = find_from(&v, c, 0);
    assert(v@.skip(0) =~= v@);
    if i < v.len() {
        let a = slice_text(&v, 0, i);
        let b = slice_text(&v, i + 1, v.len());
        assert(a@ =~= s@.take(i as int));
        assert(b@ =~= s@.skip(i as int + 1));
        Some((a, b))
    } else {
        None
    }
}

/// `str::rsplit_once` with a character.
pub fn rsplit_once(s: &str, c: char) -> (r: Option<(String, String)>)
    ensures
        r.deep_view() == rsplit_once_at(s@, c),
{
    let v = to_chars(s);
    let mut n: usize = v.len();
    assert(v@.take(n as int) =~= v@);
    while n > 0 && v[n - 1] != c
        invariant
            n <= v@.len(),
            last_index(v@, c) == last_index(v@.take(n as int), c),
        decreases n,
    {
        assert(v@.take(n as int).drop_last() =~= v@.take(n as int - 1));
        n -= 1;
    }
    if n == 0 {
        None
    } else {
        let a = slice_text(&v, 0, n - 1);
        let b = slice_text(&v, n, v.len());
        assert(a@ =~= s@.take(n as int - 1));
        assert(b@ =~= s@.skip(n as int));
        Some((a, b))
    }
}

/// `str::split` with a character.
pub fn split(s: &str, c: char) -> (r: Vec<String>)
    ensures
        r.deep_view() == split_at_char(s@, c),
{
    let v = to_chars(s);
    let mut out: Vec<String> = Vec::new();
    let mut from: usize = 0;
    assert(v@.skip(0) =~= v@);
    assert(out.deep_view() + split_at_char(v@, c) =~= split_at_char(v@, c));
    loop
        invariant
            from <= v@.len(),
            v@ == s@,
            out.deep_view() + split_at_char(v@.skip(from as int), c) == split_at_char(v@, c),
        decreases v@.len() - from,
    {
        let i: usize = find_from(&v, c, from);
        let piece = slice_text(&v, from, i);
        let ghost rest = v@.skip(from as int);
        let ghost before = out.deep_view();
        assert(piece@ =~= rest.take(i - from));
        out.push(piece);
        assert(out.deep_view() =~= before.push(piece@));
        if i >= v.len() {
            proof {
                assert(rest.take(i - from) =~= rest);
                assert(out.deep_view() =~= before + seq![rest]);
            }
            return out;
        }
        proof {
            assert(rest.skip(i - from + 1) =~= v@.skip(i as int + 1));
            assert(before + (seq![piece@] + split_at_char(v@.skip(i as int + 1), c)) =~= out.deep_view()
                + split_at_char(v@.skip(i as int + 1), c));
        }
        from = i + 1;
    }
}

fn matches_at(v: &[char], p: &[char], i: usize) -> (r: bool)
    requires
        i <= v@.len(),
    ensures
        r == occurs_at(v@, p@, i as int),
{
    if v.len() - i < p.len() {
        return false;
    }
    let mut k: usize = 0;
    let n: usize = v.len();
    while k < p.len()
        invariant
            k <= p@.len(),
            i + p@.len() <= v@.len(),
            n == v@.len(),
            forall|j: int| 0 <= j < k ==> v@[i + j] == p@[j],
        decreases p@.len() - k,
    {
        if v[i + k] != p[k] {
            assert(v@.subrange(i as int, i + p@.len())[k as int] != p@[k as int]);
            return false;
        }
        k += 1;
    }
    assert(v@.subrange(i as int, i + p@.len()) =~= p@);
    true
}

/// `str::starts_with`.
pub fn starts_with(s: &str, p: &str) -> (r: bool)
    ensures
        r == p@.is_prefix_of(s@),
{
    let v = to_chars(s);
    let q = to_chars(p);
    let r = matches_at(&v, &q, 0);
    r
}

/// `str::ends_with`.
pub fn ends_with(s: &str, p: &str) -> (r: bool)
    ensures
        r == p@.is_suffix_of(s@),
{
    let v = to_chars(s);
    let q = to_chars(p);
    if v.len() < q.len() {
        return false;
    }
    let n: usize = v.len() - q.len();
    let r = matches_at(&v, &q, n);
    assert(s@.subrange(n as int, n + q@.len()) =~= s@.subrange(n as int, s@.len() as int));
    r
}

/// `str::contains`.
pub fn contains(s: &str, p: &str) -> (r: bool)
    ensures
        r == has_part(s@, p@),
{
    let v = to_chars(s);
    let q = to_chars(p);
    let mut i: usize = 0;
    loop
        invariant
            i <= v@.len(),
            v@ == s@,
            q@ == p@,
            forall|j: int| 0 <= j < i ==> !occurs_at(v@, q@, j),
        decreases v@.len() - i,
    {
        if matches_at(&v, &q, i) {
            return true;
        }
        if i == v.len() {
            return false;
        }
        i += 1;
    }
}

/// `str::strip_prefix`: what follows `p`, where `s` begins with it.
pub fn strip_prefix(s: &str, p: &str) -> (r: Option<String>)
    ensures
        r is Some <==> p@.is_prefix_of(s@),
        r is Some ==> r->0@ == s@.skip(p@.len() as int),
{
    let v = to_chars(s);
    let q = to_chars(p);
    if matches_at(&v, &q, 0) {
        let t = slice_text(&v, q.len(), v.len());
        assert(t@ =~= s@.skip(p@.len() as int));
        Some(t)
    } else {
        None
    }
}

/// `str::strip_suffix`: what stands before `p`, where `s` ends with it.
pub fn strip_suffix(s: &str, p: &str) -> (r: Option<String>)
    ensures
        r is Some <==> p@.is_suffix_of(s@),
        r is Some ==> r->0@ == s@.take(s@.len() - p@.len()),
{
    let v = to_chars(s);
    let q = to_chars(p);
    if v.len() < q.len() {
        return None;
    }
    let n: usize = v.len() - q.len();
    assert(s@.subrange(n as int, n + q@.len()) =~= s@.subrange(n as int, s@.len() as int));
    if matches_at(&v, &q, n) {
        let t = slice_text(&v, 0, n);
        assert(t@ =~= s@.take(n as int));
        Some(t)
    } else {
        None
    }
}

/// The texts one after the other, with `sep` between each two.
pub fn join(parts: &[String], sep: &str) -> (r: String)
    ensures
        r@ == joined(parts.deep_view(), sep@),
{
    let mut out = String::new();
    let mut i: usize = 0;
    while i < parts.len()
        invariant
            i <= parts@.len(),
            out@ == joined(parts.deep_view().take(i as int), sep@),
        decreases parts@.len() - i,
    {
        let ghost all = parts.deep_view();
        if i > 0 {
            out.append(sep);
        }
        out.append(parts[i].as_str());
        proof {
            assert(all.take(i + 1).drop_last() =~= all.take(i as int));
            assert(all.take(i + 1).last() == parts@[i as int]@);
            if i == 0 {
                assert(out@ =~= parts@[0]@);
            }
        }
        i += 1;
    }
    assert(parts.deep_view().take(i as int) =~= parts.deep_view());
    out
}

/// Whether the list holds `s`.
pub fn list_has(list: &[String], s: &str) -> (r: bool)
    ensures
        r == list.deep_view().contains(s@),
{
    let mut i: usize = 0;
    while i < list.len()
        invariant
            i <= list@.len(),
            forall|j: int| 0 <= j < i ==> list.deep_view()[j] != s@,
        decreases list@.len() - i,
    {
        if super::same(list[i].as_str(), s) {
            assert(list.deep_view()[i as int] == s@);
            return true;
        }
        i += 1;
    }
    false
}

/// Splitting is done piece by piece: with a separator between two texts the pieces of the
/// first come before those of the second.
pub proof fn splitting_adds_up(a: Seq<char>, b: Seq<char>, c: char)
    ensures
        split_at_char(a + seq![c] + b, c) == split_at_char(a, c) + split_at_char(b, c),
        !a.contains(c) ==> split_at_char(a, c) == seq![a],
        split_at_char(a, c).len() > 0,
    decreases a.len(),
{
    let s = a + seq![c] + b;
    first_index_is_first(a, c);
    let i = first_index(a, c);
    if i < a.len() {
        let rest = a.skip(i + 1);
        splitting_adds_up(rest, b, c);
        assert(s[i] == c);
        assert forall|j: int| 0 <= j < i implies s[j] != c by {
            assert(s[j] == a[j]);
        }
        first_index_unique(s, c, i);
        assert(s.take(i) =~= a.take(i));
        assert(s.skip(i + 1) =~= rest + seq![c] + b);
        assert(seq![a.take(i)] + (split_at_char(rest, c) + split_at_char(b, c)) =~= seq![a.take(i)]
            + split_at_char(rest, c) + split_at_char(b, c));
    } else {
        let n = a.len() as int;
        assert(s[n] == c);
        assert forall|j: int| 0 <= j < n implies s[j] != c by {
            assert(s[j] == a[j]);
        }
        first_index_unique(s, c, n);
        assert(s.take(n) =~= a);
        assert(s.skip(n + 1) =~= b);
    }
}

/// No piece of a split text holds the separator, and the pieces joined by it give the
/// text back.
pub proof fn pieces_join_back(s: Seq<char>, c: char)
    ensures
        split_at_char(s, c).len() > 0,
        forall|k: int| 0 <= k < split_at_char(s, c).len() ==> !(#[trigger] split_at_char(s, c)[k]).contains(c),
        joined(split_at_char(s, c), seq![c]) == s,
    decreases s.len(),
{
    first_index_is_first(s, c);
    let i = first_index(s, c);
    if i < s.len() {
        let head = s.take(i);
        let rest = s.skip(i + 1);
        pieces_join_back(rest, c);
        let tail = split_at_char(rest, c);
        let all = split_at_char(s, c);
        assert(all == seq![head] + tail);
        assert(!head.contains(c));
        assert forall|k: int| 0 <= k < all.len() implies !(#[trigger] all[k]).contains(c) by {
            if k > 0 {
                assert(all[k] == tail[k - 1]);
            }
        }
        joining_adds_up(seq![head], tail, seq![c]);
        reveal_with_fuel(joined, 2);
        assert(head + seq![c] + rest =~= s);
    } else {
        assert(!s.contains(c));
    }
}

/// Joining two lists, neither empty, puts one more separator between what they join to.
pub proof fn joining_adds_up(a: Seq<Seq<char>>, b: Seq<Seq<char>>, sep: Seq<char>)
    requires
        a.len() > 0,
        b.len() > 0,
    ensures
        joined(a + b, sep) == joined(a, sep) + sep + joined(b, sep),
    decreases b.len(),
{
    let all = a + b;
    if b.len() == 1 {
        assert(all.drop_last() =~= a);
        assert(all.last() == b[0]);
    } else {
        let rest = b.drop_last();
        joining_adds_up(a, rest, sep);
        assert(all.drop_last() =~= a + rest);
        assert(all.last() == b.last());
        assert(joined(all, sep) =~= joined(a, sep) + sep + joined(b, sep));
    }
}

/// The last separator parts a text in two whose second part holds none.
pub proof fn last_separator_parts(a: Seq<char>, b: Seq<char>, c: char)
    requires
        !b.contains(c),
    ensures
        rsplit_once_at(a + seq![c] + b, c) == Some((a, b)),
        rsplit_once_at(b, c) is None,
{
    let s = a + seq![c] + b;
    let k = a.len() as int;
    last_index_is_last(s, c);
    last_index_is_last(b, c);
    assert(s[k] == c);
    assert forall|j: int| k < j < s.len() implies s[j] != c by {
        assert(s[j] == b[j - k - 1]);
        assert(b.contains(b[j - k - 1]));
    }
    assert(last_index(s, c) == k);
    assert(s.take(k) =~= a);
    assert(s.skip(k + 1) =~= b);
}

/// The first separator parts a text in two whose first part holds none.
pub proof fn first_separator_parts(a: Seq<char>, b: Seq<char>, c: char)
    requires
        !a.contains(c),
    ensures
        split_once_at(a + seq![c] + b, c) == Some((a, b)),
        split_once_at(a, c) is None,
{
    let s = a + seq![c] + b;
    let k = a.len() as int;
    first_index_is_first(a, c);
    assert(s[k] == c);
    assert forall|j: int| 0 <= j < k implies s[j] != c by {
        assert(s[j] == a[j]);
        assert(a.contains(a[j]));
    }
    first_index_unique(s, c, k);
    assert(s.take(k) =~= a);
    assert(s.skip(k + 1) =~= b);
}

/// A text holds a part wherever the part was put, and each part of a part.
pub proof fn parts_are_found(before: Seq<char>, p: Seq<char>, after: Seq<char>)
    ensures
        has_part(before + p + after, p),
        has_part(p, Seq::empty()),
        p.len() < before.len() ==> !has_part(p, before),
{
    let s = before + p + after;
    assert(s.subrange(before.len() as int, (before.len() + p.len()) as int) =~= p);
    assert(occurs_at(s, p, before.len() as int));
    assert(p.subrange(0, 0) =~= Seq::<char>::empty());
    assert(occurs_at(p, Seq::empty(), 0));
}

/// An ending is taken off where it stands, and only there.
pub proof fn endings_are_taken_off(s: &str, p: &str, r: Option<String>, rest: Seq<char>)
    requires
        call_ensures(strip_suffix, (s, p), r),
    ensures
        s@ == rest + p@ ==> r is Some && r->0@ == rest,
        r is Some ==> s@ == r->0@ + p@,
        s@.len() < p@.len() ==> r is None,
{
    if s@ == rest + p@ {
        assert(s@.subrange(s@.len() - p@.len(), s@.len() as int) =~= p@);
        assert(s@.take(s@.len() - p@.len()) =~= rest);
    }
    if r is Some {
        assert(s@ =~= s@.take(s@.len() - p@.len()) + s@.subrange(s@.len() - p@.len(), s@.len() as int));
    }
}

} // verus!
