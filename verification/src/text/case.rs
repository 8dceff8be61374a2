//! Upper and lower case.

use vstd::prelude::*;
use vstd::string::*;
use vstd::utf8::*;

use super::to_chars;

verus! {

/// ASCII letters `A` to `Z` become `a` to `z`; every other character stays.
pub open spec fn ascii_lower_char(c: char) -> char {
    if 'A' <= c <= 'Z' {
        (c as u8 + 32) as char
    } else {
        c
    }
}

/// ASCII letters `a` to `z` become `A` to `Z`; every other character stays.
pub open spec fn ascii_upper_char(c: char) -> char {
    if 'a' <= c <= 'z' {
        (c as u8 - 32) as char
    } else {
        c
    }
}

/// Every ASCII letter in lower case.
pub open spec fn ascii_lower(s: Seq<char>) -> Seq<char> {
    s.map_values(|c: char| ascii_lower_char(c))
}

/// Every ASCII letter in upper case.
pub open spec fn ascii_upper(s: Seq<char>) -> Seq<char> {
    s.map_values(|c: char| ascii_upper_char(c))
}

/// Equal but for the case of ASCII letters.
pub open spec fn eq_ascii_case(a: Seq<char>, b: Seq<char>) -> bool {
    ascii_lower(a) == ascii_lower(b)
}

/// `char::to_ascii_lowercase`.
pub fn lower_char(c: char) -> (r: char)
    ensures
        r == ascii_lower_char(c),
{
    if c >= 'A' && c <= 'Z' {
        (c as u8 + 32) as char
    } else {
        c
    }
}

/// `char::to_ascii_uppercase`.
pub fn upper_char(c: char) -> (r: char)
    ensures
        r == ascii_upper_char(c),
{
    if c >= 'a' && c <= 'z' {
        (c as u8 - 32) as char
    } else {
        c
    }
}

/// `str::to_ascii_lowercase`.
pub fn to_ascii_lower(s: &str) -> (r: String)
    ensures
        r@ == ascii_lower(s@),
{
    let v = to_chars(s);
    let mut out = String::new();
    let mut i: usize = 0;
    while i < v.len()
        invariant
            i <= v@.len(),
            out@ == ascii_lower(v@.take(i as int)),
        decreases v@.len() - i,
    {
        out.push(lower_char(v[i]));
        i += 1;
        assert(out@ =~= ascii_lower(v@.take(i as int)));
    }
    assert(v@.take(i as int) =~= v@);
    out
}

/// `str::to_ascii_uppercase`.
pub fn to_ascii_upper(s: &str) -> (r: String)
    ensures
        r@ == ascii_upper(s@),
{
    let v = to_chars(s);
    let mut out = String::new();
    let mut i: usize = 0;
    while i < v.len()
        invariant
            i <= v@.len(),
            out@ == ascii_upper(v@.take(i as int)),
        decreases v@.len() - i,
    {
        out.push(upper_char(v[i]));
        i += 1;
        assert(out@ =~= ascii_upper(v@.take(i as int)));
    }
    assert(v@.take(i as int) =~= v@);
    out
}

/// `str::eq_ignore_ascii_case`.
pub fn eq_ignore_ascii_case(a: &str, b: &str) -> (r: bool)
    ensures
        r == eq_ascii_case(a@, b@),
{
    let x = to_ascii_lower(a);
    let y = to_ascii_lower(b);
    super::same(x.as_str(), y.as_str())
}

/// What `str::to_lowercase` returns.
pub uninterp spec fn lowercase(s: Seq<char>) -> Seq<char>;

/// What `str::to_uppercase` returns.
pub uninterp spec fn uppercase(s: Seq<char>) -> Seq<char>;

/// `str::to_lowercase`: the Unicode lower case of the text. On ASCII text this
/// is the lower case of each letter; of other text only the name is stated.
#[verifier::external_body]
pub(crate) fn to_lowercase(s: &str) -> (r: String)
    ensures
        r@ == lowercase(s@),
        is_ascii_chars(s@) ==> r@ == ascii_lower(s@),
{
    s.to_lowercase()
}

/// `str::to_uppercase`: the Unicode upper case of the text. On ASCII text this
/// is the upper case of each letter. Of other text only the name is stated, and
/// that no letter has an upper case with `#` in it.
#[verifier::external_body]
pub(crate) fn to_uppercase(s: &str) -> (r: String)
    ensures
        r@ == uppercase(s@),
        is_ascii_chars(s@) ==> r@ == ascii_upper(s@),
        !s@.contains('#') ==> !r@.contains('#'),
{
    s.to_uppercase()
}

/// Comparing without case is symmetric and transitive, and case does not matter to it.
pub proof fn eq_ascii_case_laws(a: Seq<char>, b: Seq<char>, c: Seq<char>)
    ensures
        eq_ascii_case(a, a),
        eq_ascii_case(a, b) == eq_ascii_case(b, a),
        eq_ascii_case(a, b) && eq_ascii_case(b, c) ==> eq_ascii_case(a, c),
        eq_ascii_case(a, ascii_lower(a)),
        eq_ascii_case(a, ascii_upper(a)),
{
    assert(ascii_lower(ascii_lower(a)) =~= ascii_lower(a));
    assert(ascii_lower(ascii_upper(a)) =~= ascii_lower(a));
}

/// Capitals become the small letters thirty-two further on and the other way round; no
/// other character changes.
pub proof fn letters_change_case(c: char, lower: char, upper: char)
    requires
        call_ensures(lower_char, (c,), lower),
        call_ensures(upper_char, (c,), upper),
    ensures
        'A' <= c <= 'Z' ==> lower as int == c as int + 32 && upper == c,
        'a' <= c <= 'z' ==> upper as int == c as int - 32 && lower == c,
        !('A' <= c <= 'Z') && !('a' <= c <= 'z') ==> lower == c && upper == c,
{
}

/// Changing case is done letter by letter and keeps their number.
pub proof fn texts_change_case_by_letter(a: Seq<char>, b: Seq<char>)
    ensures
        ascii_lower(a + b) == ascii_lower(a) + ascii_lower(b),
        ascii_upper(a + b) == ascii_upper(a) + ascii_upper(b),
        ascii_lower(a).len() == a.len() && ascii_upper(a).len() == a.len(),
        ascii_lower(ascii_upper(a)) == ascii_lower(a),
        ascii_upper(ascii_lower(a)) == ascii_upper(a),
        ascii_lower(ascii_lower(a)) == ascii_lower(a),
{
    assert(ascii_lower(a + b) =~= ascii_lower(a) + ascii_lower(b));
    assert(ascii_upper(a + b) =~= ascii_upper(a) + ascii_upper(b));
    assert(ascii_lower(ascii_upper(a)) =~= ascii_lower(a));
    assert(ascii_upper(ascii_lower(a)) =~= ascii_upper(a));
    assert(ascii_lower(ascii_lower(a)) =~= ascii_lower(a));
}

/// Two texts are the same but for case exactly if they are as long and each letter is.
pub proof fn case_is_ignored_letter_by_letter(a: &str, b: &str, r: bool)
    requires
        call_ensures(eq_ignore_ascii_case, (a, b), r),
    ensures
        a@.len() != b@.len() ==> !r,
        a@ == b@ ==> r,
        a@.len() == b@.len() && (forall|i: int|
            0 <= i < a@.len() ==> #[trigger] a@[i] == b@[i] || ('A' <= a@[i] <= 'Z' && b@[i] as int == a@[i] as int + 32)
                || ('A' <= b@[i] <= 'Z' && a@[i] as int == b@[i] as int + 32)) ==> r,
{
    if r {
        assert(ascii_lower(a@).len() == ascii_lower(b@).len());
    }
    if a@.len() == b@.len() && (forall|i: int|
        0 <= i < a@.len() ==> #[trigger] a@[i] == b@[i] || ('A' <= a@[i] <= 'Z' && b@[i] as int == a@[i] as int + 32)
            || ('A' <= b@[i] <= 'Z' && a@[i] as int == b@[i] as int + 32)) {
        assert(ascii_lower(a@) =~= ascii_lower(b@));
    }
}

} // verus!
