//! Text handling on sequences of characters.

pub mod case;
pub mod number;
pub mod percent;
pub mod search;

use vstd::prelude::*;
use vstd::string::*;

verus! {

/// `String::push`: appends one character at the end.
pub assume_specification[ String::push ](s: &mut String, ch: char)
    ensures
        final(s)@ == old(s)@.push(ch),
;

/// The characters that carry the Unicode property White_Space.
pub open spec fn is_white_space(c: char) -> bool {
    let n = c as int;
    ||| 0x09 <= n <= 0x0d
    ||| n == 0x20
    ||| n == 0x85
    ||| n == 0xa0
    ||| n == 0x1680
    ||| 0x2000 <= n <= 0x200a
    ||| n == 0x2028
    ||| n == 0x2029
    ||| n == 0x202f
    ||| n == 0x205f
    ||| n == 0x3000
}

/// Whether `c` is white space.
pub fn white_space(c: char) -> (r: bool)
    ensures
        r == is_white_space(c),
{
    let n: u32 = c as u32;
    (n >= 0x09 && n <= 0x0d) || n == 0x20 || n == 0x85 || n == 0xa0 || n == 0x1680 || (n >= 0x2000
        && n <= 0x200a) || n == 0x2028 || n == 0x2029 || n == 0x202f || n == 0x205f || n == 0x3000
}

/// `s` without its leading white space.
pub open spec fn trim_start(s: Seq<char>) -> Seq<char>
    decreases s.len(),
{
    if s.len() > 0 && is_white_space(s[0]) {
        trim_start(s.drop_first())
    } else {
        s
    }
}

/// `s` without its trailing white space.
pub open spec fn trim_end(s: Seq<char>) -> Seq<char>
    decreases s.len(),
{
    if s.len() > 0 && is_white_space(s.last()) {
        trim_end(s.drop_last())
    } else {
        s
    }
}

/// `s` without leading and trailing white space.
pub open spec fn trimmed(s: Seq<char>) -> Seq<char> {
    trim_end(trim_start(s))
}

/// Nothing but white space.
pub open spec fn is_blank(s: Seq<char>) -> bool {
    trimmed(s).len() == 0
}

/// The characters of `s`.
pub fn to_chars(s: &str) -> (r: Vec<char>)
    ensures
        r@ == s@,
{
    let mut out: Vec<char> = Vec::new();
    for c in it: s.chars()
        invariant
            out@ == it.seq().take(it.index() as int),
            it.seq() == s@,
    {
        out.push(c);
        assert(out@ =~= it.seq().take(it.index() as int + 1));
    }
    assert(out@ =~= s@);
    out
}

/// The text made of the characters `from..to` of `chars`.
pub fn slice_text(chars: &[char], from: usize, to: usize) -> (r: String)
    requires
        from <= to <= chars@.len(),
    ensures
        r@ == chars@.subrange(from as int, to as int),
{
    let mut out = String::new();
    let mut i: usize = from;
    while i < to
        invariant
            from <= i <= to <= chars@.len(),
            out@ == chars@.subrange(from as int, i as int),
        decreases to - i,
    {
        out.push(chars[i]);
        i += 1;
        assert(out@ =~= chars@.subrange(from as int, i as int));
    }
    out
}

/// The text made of all of `chars`.
pub fn from_chars(chars: &[char]) -> (r: String)
    ensures
        r@ == chars@,
{
    let r = slice_text(chars, 0, chars.len());
    assert(r@ =~= chars@);
    r
}

/// `s` as an owned text.
pub fn owned(s: &str) -> (r: String)
    ensures
        r@ == s@,
{
    s.to_owned()
}

/// Whether two texts hold the same characters.
pub fn same(a: &str, b: &str) -> (r: bool)
    ensures
        r == (a@ == b@),
{
    let x = to_chars(a);
    let y = to_chars(b);
    same_chars(&x, &y)
}

/// Whether two runs of characters are the same.
pub fn same_chars(x: &[char], y: &[char]) -> (r: bool)
    ensures
        r == (x@ == y@),
{
    if x.len() != y.len() {
        return false;
    }
    let mut i: usize = 0;
    while i < x.len()
        invariant
            i <= x@.len(),
            x@.len() == y@.len(),
            forall|j: int| 0 <= j < i ==> x@[j] == y@[j],
        decreases x@.len() - i,
    {
        if x[i] != y[i] {
            return false;
        }
        i += 1;
    }
    assert(x@ =~= y@);
    true
}

/// Whether two optional texts are the same.
pub fn same_opt(a: &Option<String>, b: &Option<String>) -> (r: bool)
    ensures
        r == (a.deep_view() == b.deep_view()),
{
    match (a, b) {
        (Some(x), Some(y)) => same(x.as_str(), y.as_str()),
        (None, None) => true,
        _ => false,
    }
}

/// A copy of an optional text.
pub fn copy_opt(a: &Option<String>) -> (r: Option<String>)
    ensures
        r == *a,
        r.deep_view() == a.deep_view(),
{
    match a {
        Some(x) => Some(x.clone()),
        None => None,
    }
}

/// A copy of a list of texts.
pub fn copy_list(a: &Vec<String>) -> (r: Vec<String>)
    ensures
        r@ == a@,
        r.deep_view() == a.deep_view(),
{
    let mut out: Vec<String> = Vec::new();
    let mut i: usize = 0;
    while i < a.len()
        invariant
            i <= a@.len(),
            out@ == a@.take(i as int),
        decreases a@.len() - i,
    {
        out.push(a[i].clone());
        i += 1;
        assert(out@ =~= a@.take(i as int));
    }
    assert(out@ =~= a@);
    assert(out.deep_view() =~= a.deep_view());
    out
}

proof fn trim_start_step(s: Seq<char>, i: int)
    requires
        0 <= i < s.len(),
        is_white_space(s[i]),
    ensures
        trim_start(s.skip(i)) == trim_start(s.skip(i + 1)),
{
    assert(s.skip(i).drop_first() =~= s.skip(i + 1));
}

/// `str::trim`: the text without leading and trailing white space.
pub fn trim(s: &str) -> (r: String)
    ensures
        r@ == trimmed(s@),
{
    let v = to_chars(s);
    let mut lo: usize = 0;
    assert(v@.skip(0) =~= v@);
    while lo < v.len() && white_space(v[lo])
        invariant
            lo <= v@.len(),
            trim_start(v@.skip(lo as int)) == trim_start(v@),
        decreases v@.len() - lo,
    {
        proof {
            trim_start_step(v@, lo as int);
        }
        lo += 1;
    }
    assert(trim_start(v@) == v@.skip(lo as int));
    let mut hi: usize = v.len();
    assert(v@.subrange(lo as int, hi as int) =~= v@.skip(lo as int));
    while hi > lo && white_space(v[hi - 1])
        invariant
            lo <= hi <= v@.len(),
            trim_end(v@.subrange(lo as int, hi as int)) == trim_end(v@.skip(lo as int)),
        decreases hi,
    {
        assert(v@.subrange(lo as int, hi as int).drop_last() =~= v@.subrange(
            lo as int,
            hi as int - 1,
        ));
        hi -= 1;
    }
    slice_text(&v, lo, hi)
}

/// Trimming takes away nothing but ends, and leaves no white space at either.
pub proof fn trimmed_ends(s: Seq<char>)
    ensures
        trimmed(s).len() > 0 ==> !is_white_space(trimmed(s)[0]) && !is_white_space(
            trimmed(s).last(),
        ),
        trimmed(s).len() <= s.len(),
{
    trim_start_ends(s);
    trim_end_ends(trim_start(s));
}

proof fn trim_start_ends(s: Seq<char>)
    ensures
        trim_start(s).len() > 0 ==> !is_white_space(trim_start(s)[0]),
        trim_start(s).len() <= s.len(),
        forall|c: char| #[trigger] trim_start(s).contains(c) ==> s.contains(c),
    decreases s.len(),
{
    if s.len() > 0 && is_white_space(s[0]) {
        trim_start_ends(s.drop_first());
        assert forall|c: char| #[trigger] trim_start(s).contains(c) implies s.contains(c) by {
            let d = s.drop_first();
            assert(d.contains(c));
            let i = choose|i: int| 0 <= i < d.len() && d[i] == c;
            assert(s[i + 1] == c);
        }
    }
}

proof fn trim_end_ends(s: Seq<char>)
    ensures
        trim_end(s).len() > 0 ==> !is_white_space(trim_end(s).last()) && trim_end(s)[0] == s[0],
        trim_end(s).len() <= s.len(),
        forall|c: char| #[trigger] trim_end(s).contains(c) ==> s.contains(c),
    decreases s.len(),
{
    if s.len() > 0 && is_white_space(s.last()) {
        trim_end_ends(s.drop_last());
        assert forall|c: char| #[trigger] trim_end(s).contains(c) implies s.contains(c) by {
            let d = s.drop_last();
            assert(d.contains(c));
            let i = choose|i: int| 0 <= i < d.len() && d[i] == c;
            assert(s[i] == c);
        }
    }
}

/// Every character of the trimmed text is one of the text.
pub proof fn trimmed_chars(s: Seq<char>)
    ensures
        forall|c: char| #[trigger] trimmed(s).contains(c) ==> s.contains(c),
{
    trim_start_ends(s);
    trim_end_ends(trim_start(s));
}

/// Trimming twice is trimming once.
pub proof fn trim_idempotent(s: Seq<char>)
    ensures
        trimmed(trimmed(s)) == trimmed(s),
{
    trimmed_ends(s);
}

/// Whether the text is nothing but white space.
pub fn blank(s: &str) -> (r: bool)
    ensures
        r == is_blank(s@),
{
    let t = trim(s);
    t.as_str().is_empty()
}

/// The trimmed text, unless nothing is left of it.
pub open spec fn non_blank(s: Option<Seq<char>>) -> Option<Seq<char>> {
    match s {
        Some(t) => if is_blank(t) {
            None
        } else {
            Some(trimmed(t))
        },
        None => None,
    }
}

/// The trimmed text, unless nothing is left of it.
pub fn trim_opt(s: Option<&str>) -> (r: Option<String>)
    ensures
        r.deep_view() == non_blank(s.deep_view()),
{
    match s {
        Some(t) => {
            let u = trim(t);
            if u.as_str().is_empty() {
                None
            } else {
                Some(u)
            }
        },
        None => None,
    }
}

/// `s` without the `c`s at its end.
pub open spec fn without_trailing(s: Seq<char>, c: char) -> Seq<char>
    decreases s.len(),
{
    if s.len() > 0 && s.last() == c {
        without_trailing(s.drop_last(), c)
    } else {
        s
    }
}

/// `str::trim_end_matches` with a character.
pub fn trim_end_char(s: &str, c: char) -> (r: String)
    ensures
        r@ == without_trailing(s@, c),
{
    let v = to_chars(s);
    let mut n: usize = v.len();
    assert(v@.take(n as int) =~= v@);
    while n > 0 && v[n - 1] == c
        invariant
            n <= v@.len(),
            without_trailing(v@.take(n as int), c) == without_trailing(v@, c),
        decreases n,
    {
        assert(v@.take(n as int).drop_last() =~= v@.take(n as int - 1));
        n -= 1;
    }
    let r = slice_text(&v, 0, n);
    assert(r@ =~= v@.take(n as int));
    r
}

/// A text that neither begins nor ends with white space is its own trimmed form, and
/// so it is with white space put around it.
pub proof fn trimming_takes_off_blanks(before: Seq<char>, s: Seq<char>, after: Seq<char>)
    requires
        s.len() > 0 ==> !is_white_space(s[0]) && !is_white_space(s.last()),
        forall|i: int| 0 <= i < before.len() ==> is_white_space(#[trigger] before[i]),
        forall|i: int| 0 <= i < after.len() ==> is_white_space(#[trigger] after[i]),
    ensures
        trimmed(s) == s,
        trimmed(before + s + after) == s,
    decreases before.len() + after.len(),
{
    if before.len() > 0 {
        let b = before.drop_first();
        assert forall|i: int| 0 <= i < b.len() implies is_white_space(#[trigger] b[i]) by {
            assert(b[i] == before[i + 1]);
        }
        trimming_takes_off_blanks(b, s, after);
        assert((before + s + after).drop_first() =~= b + s + after);
        assert((before + s + after)[0] == before[0]);
    } else if after.len() > 0 {
        let a = after.drop_last();
        trimming_takes_off_blanks(before, s, a);
        assert(before + s + after =~= s + after);
        assert(before + s + a =~= s + a);
        if s.len() == 0 {
            blanks_trim_to_nothing(after);
            assert(s + after =~= after);
            assert(s =~= Seq::<char>::empty());
        } else {
            assert((s + after)[0] == s[0]);
            assert((s + a)[0] == s[0]);
            assert((s + after).drop_last() =~= s + a);
            assert((s + after).last() == after.last());
        }
    } else {
        assert(before + s + after =~= s);
    }
}

proof fn blanks_trim_to_nothing(s: Seq<char>)
    requires
        forall|i: int| 0 <= i < s.len() ==> is_white_space(#[trigger] s[i]),
    ensures
        trimmed(s) == Seq::<char>::empty(),
    decreases s.len(),
{
    if s.len() > 0 {
        let d = s.drop_first();
        assert forall|i: int| 0 <= i < d.len() implies is_white_space(#[trigger] d[i]) by {
            assert(d[i] == s[i + 1]);
        }
        blanks_trim_to_nothing(d);
    }
    assert(trimmed(s) =~= Seq::<char>::empty());
}

/// Blanks, tabs and line ends are white space; letters, digits and signs are not.
pub proof fn white_space_is_plain(c: char)
    ensures
        c == ' ' || c == '\t' || c == '\n' || c == '\r' ==> is_white_space(c),
        '!' <= c <= '~' ==> !is_white_space(c),
{
}

} // verus!
