//! Decimal numbers in text.

use vstd::prelude::*;
use vstd::string::*;

use super::case::{ascii_lower, to_ascii_lower};
use super::search::{split_once, split_once_at};
use super::{same, slice_text, to_chars};

verus! {

/// A decimal digit.
pub open spec fn is_digit(c: char) -> bool {
    '0' <= c <= '9'
}

/// The value of a decimal digit.
pub open spec fn digit_value(c: char) -> nat {
    (c as int - '0' as int) as nat
}

/// The digit for a value below ten.
pub open spec fn digit_char(n: nat) -> char {
    (n + '0' as int) as char
}

/// Nothing but digits, and at least one.
pub open spec fn is_digits(s: Seq<char>) -> bool {
    s.len() > 0 && forall|i: int| 0 <= i < s.len() ==> is_digit(#[trigger] s[i])
}

/// The number that a run of digits denotes.
pub open spec fn digits_value(s: Seq<char>) -> nat
    decreases s.len(),
{
    if s.len() == 0 {
        0
    } else {
        digits_value(s.drop_last()) * 10 + digit_value(s.last())
    }
}

/// A natural number in decimal digits, without leading zeros.
pub open spec fn dec_nat(n: nat) -> Seq<char>
    decreases n,
{
    if n < 10 {
        seq![digit_char(n)]
    } else {
        dec_nat(n / 10).push(digit_char(n % 10))
    }
}

/// An integer in decimal digits.
pub open spec fn dec_int(n: int) -> Seq<char> {
    if n < 0 {
        seq!['-'] + dec_nat((-n) as nat)
    } else {
        dec_nat(n as nat)
    }
}

/// Whether `c` is a decimal digit.
pub fn digit(c: char) -> (r: bool)
    ensures
        r == is_digit(c),
{
    c >= '0' && c <= '9'
}

fn push_digit(s: &mut String, d: u64)
    requires
        d < 10,
    ensures
        final(s)@ == old(s)@.push(digit_char(d as nat)),
{
    let c: char = (d as u8 + 48) as char;
    s.push(c);
}

/// `u64::to_string`.
pub fn u64_text(n: u64) -> (r: String)
    ensures
        r@ == dec_nat(n as nat),
    decreases n,
{
    if n < 10 {
        let mut s = String::new();
        push_digit(&mut s, n);
        assert(s@ =~= seq![digit_char(n as nat)]);
        s
    } else {
        let mut s = u64_text(n / 10);
        push_digit(&mut s, n % 10);
        s
    }
}

/// `usize::to_string`.
pub fn usize_text(n: usize) -> (r: String)
    ensures
        r@ == dec_nat(n as nat),
{
    u64_text(n as u64)
}

/// `i64::to_string`.
pub fn i64_text(n: i64) -> (r: String)
    ensures
        r@ == dec_int(n as int),
{
    if n >= 0 {
        u64_text(n as u64)
    } else {
        let m: u64 = if n == i64::MIN {
            0x8000_0000_0000_0000
        } else {
            (-n) as u64
        };
        let mut s = String::new();
        s.push('-');
        let d = u64_text(m);
        s.append(d.as_str());
        assert(s@ =~= seq!['-'] + dec_nat((-(n as int)) as nat));
        s
    }
}

/// Printing gives digits whose value is the number.
pub proof fn dec_nat_value(n: nat)
    ensures
        is_digits(dec_nat(n)),
        digits_value(dec_nat(n)) == n,
    decreases n,
{
    if n < 10 {
        let s = seq![digit_char(n)];
        assert(s.drop_last() =~= Seq::<char>::empty());
        assert(digits_value(s.drop_last()) == 0);
    } else {
        dec_nat_value(n / 10);
        let p = dec_nat(n / 10);
        let s = p.push(digit_char(n % 10));
        assert(s.drop_last() =~= p);
        assert(s.last() == digit_char(n % 10));
        assert forall|i: int| 0 <= i < s.len() implies is_digit(#[trigger] s[i]) by {
            if i < p.len() {
                assert(s[i] == p[i]);
            }
        }
        assert(n == (n / 10) * 10 + n % 10);
    }
}

proof fn digits_value_grows(s: Seq<char>, k: int)
    requires
        0 <= k <= s.len(),
    ensures
        digits_value(s.take(k)) <= digits_value(s),
    decreases s.len() - k,
{
    if k == s.len() {
        assert(s.take(k) =~= s);
    } else {
        digits_value_grows(s, k + 1);
        assert(s.take(k + 1).drop_last() =~= s.take(k));
    }
}

/// The number written in the digits of `s`, if it is one and at most `max`.
pub open spec fn unsigned_value(s: Seq<char>, max: nat) -> Option<nat> {
    let d = if s.len() > 0 && s[0] == '+' {
        s.skip(1)
    } else {
        s
    };
    if is_digits(d) && digits_value(d) <= max {
        Some(digits_value(d))
    } else {
        None
    }
}

/// The number written in `s` with an optional sign, if it is one and in range.
pub open spec fn signed_value(s: Seq<char>, min: int, max: int) -> Option<int> {
    let negative = s.len() > 0 && s[0] == '-';
    let d = if s.len() > 0 && (s[0] == '+' || s[0] == '-') {
        s.skip(1)
    } else {
        s
    };
    let v = if negative {
        -(digits_value(d) as int)
    } else {
        digits_value(d) as int
    };
    if is_digits(d) && min <= v <= max {
        Some(v)
    } else {
        None
    }
}

fn magnitude(v: &Vec<char>, from: usize) -> (r: Option<u64>)
    requires
        from <= v@.len(),
    ensures
        ({
            let d = v@.skip(from as int);
            &&& r is Some <==> is_digits(d) && digits_value(d) <= u64::MAX
            &&& r is Some ==> r->0 == digits_value(d)
        }),
{
    let ghost d = v@.skip(from as int);
    if from == v.len() {
        return None;
    }
    let mut acc: u64 = 0;
    let mut i: usize = from;
    assert(d.take(0) =~= Seq::<char>::empty());
    while i < v.len()
        invariant
            from <= i <= v@.len(),
            d == v@.skip(from as int),
            acc == digits_value(d.take(i - from)),
            forall|j: int| 0 <= j < i - from ==> is_digit(#[trigger] d[j]),
        decreases v@.len() - i,
    {
        let c: char = v[i];
        proof {
            assert(d[i - from] == c);
            assert(d.take(i - from + 1).drop_last() =~= d.take(i - from));
            assert(d.take(i - from + 1).last() == c);
            digits_value_grows(d, i - from + 1);
        }
        if !digit(c) {
            return None;
        }
        let x: u64 = (c as u8 - 48) as u64;
        if acc > (u64::MAX - x) / 10 {
            return None;
        }
        acc = acc * 10 + x;
        i += 1;
    }
    assert(d.take(i - from) =~= d);
    Some(acc)
}

/// `str::parse::<u64>`.
pub fn parse_u64(s: &str) -> (r: Option<u64>)
    ensures
        r is Some <==> unsigned_value(s@, u64::MAX as nat) is Some,
        r is Some ==> Some(r->0 as nat) == unsigned_value(s@, u64::MAX as nat),
{
    let v = to_chars(s);
    assert(v@.skip(0) =~= v@);
    if v.len() > 0 && v[0] == '+' {
        magnitude(&v, 1)
    } else {
        magnitude(&v, 0)
    }
}

/// `str::parse::<u32>`.
pub fn parse_u32(s: &str) -> (r: Option<u32>)
    ensures
        r is Some <==> unsigned_value(s@, u32::MAX as nat) is Some,
        r is Some ==> Some(r->0 as nat) == unsigned_value(s@, u32::MAX as nat),
{
    match parse_u64(s) {
        Some(n) => if n <= 0xffff_ffff {
            Some(n as u32)
        } else {
            None
        },
        None => None,
    }
}

/// `str::parse::<i64>`.
pub fn parse_i64(s: &str) -> (r: Option<i64>)
    ensures
        r is Some <==> signed_value(s@, i64::MIN as int, i64::MAX as int) is Some,
        r is Some ==> Some(r->0 as int) == signed_value(s@, i64::MIN as int, i64::MAX as int),
{
    let v = to_chars(s);
    assert(v@.skip(0) =~= v@);
    if v.len() > 0 && v[0] == '-' {
        match magnitude(&v, 1) {
            Some(m) => if m < 0x8000_0000_0000_0000 {
                Some(-(m as i64))
            } else if m == 0x8000_0000_0000_0000 {
                Some(i64::MIN)
            } else {
                None
            },
            None => None,
        }
    } else {
        let m = if v.len() > 0 && v[0] == '+' {
            magnitude(&v, 1)
        } else {
            magnitude(&v, 0)
        };
        match m {
            Some(m) => if m < 0x8000_0000_0000_0000 {
                Some(m as i64)
            } else {
                None
            },
            None => None,
        }
    }
}

/// `str::parse::<i32>`.
pub fn parse_i32(s: &str) -> (r: Option<i32>)
    ensures
        r is Some <==> signed_value(s@, i32::MIN as int, i32::MAX as int) is Some,
        r is Some ==> Some(r->0 as int) == signed_value(s@, i32::MIN as int, i32::MAX as int),
{
    match parse_i64(s) {
        Some(n) => if n >= -0x8000_0000 && n <= 0x7fff_ffff {
            Some(n as i32)
        } else {
            None
        },
        None => None,
    }
}

/// How many digits a text begins with.
pub open spec fn leading_digits(s: Seq<char>) -> int
    decreases s.len(),
{
    if s.len() == 0 || !is_digit(s[0]) {
        0
    } else {
        1 + leading_digits(s.drop_first())
    }
}

/// How many digits a text begins with.
pub fn count_leading_digits(v: &Vec<char>) -> (r: usize)
    ensures
        r == leading_digits(v@),
        r <= v@.len(),
{
    let mut i: usize = 0;
    assert(v@.skip(0) =~= v@);
    while i < v.len() && digit(v[i])
        invariant
            i <= v@.len(),
            leading_digits(v@) == i + leading_digits(v@.skip(i as int)),
        decreases v@.len() - i,
    {
        assert(v@.skip(i as int).drop_first() =~= v@.skip(i as int + 1));
        i += 1;
    }
    i
}

/// Nothing but digits, or nothing at all.
pub open spec fn all_digits(s: Seq<char>) -> bool {
    forall|i: int| 0 <= i < s.len() ==> is_digit(#[trigger] s[i])
}

/// Whether there is nothing but digits.
pub fn only_digits(v: &[char], from: usize, to: usize) -> (r: bool)
    requires
        from <= to <= v@.len(),
    ensures
        r == all_digits(v@.subrange(from as int, to as int)),
{
    let ghost part = v@.subrange(from as int, to as int);
    let mut i: usize = from;
    while i < to
        invariant
            from <= i <= to <= v@.len(),
            part == v@.subrange(from as int, to as int),
            forall|j: int| 0 <= j < i - from ==> is_digit(#[trigger] part[j]),
        decreases to - i,
    {
        if !digit(v[i]) {
            assert(!is_digit(part[i - from]));
            return false;
        }
        i += 1;
    }
    true
}

/// A sign.
pub open spec fn is_sign(c: char) -> bool {
    c == '+' || c == '-'
}

/// The text after a sign, where it begins with one.
pub open spec fn unsigned_part(s: Seq<char>) -> Seq<char> {
    if s.len() > 0 && is_sign(s[0]) {
        s.skip(1)
    } else {
        s
    }
}

/// Digits with at most one dot among or around them, and at least one digit.
pub open spec fn is_mantissa(s: Seq<char>) -> bool {
    match split_once_at(s, '.') {
        None => is_digits(s),
        Some((whole, fraction)) => all_digits(whole) && all_digits(fraction) && whole.len()
            + fraction.len() > 0,
    }
}

/// Where the exponent of a number begins: at the first `e` or `E`; the length of
/// the text where there is none.
pub open spec fn exponent_index(s: Seq<char>) -> int
    decreases s.len(),
{
    if s.len() == 0 || s[0] == 'e' || s[0] == 'E' {
        0
    } else {
        1 + exponent_index(s.drop_first())
    }
}

/// A decimal number as programs write one: an optional sign, then `inf`,
/// `infinity` or `nan` in any case, or digits with an optional dot and an
/// optional exponent.
pub open spec fn is_decimal(s: Seq<char>) -> bool {
    let body = unsigned_part(s);
    let name = ascii_lower(body);
    let e = exponent_index(body);
    ||| name == "inf"@
    ||| name == "infinity"@
    ||| name == "nan"@
    ||| is_mantissa(body.take(e)) && (e < body.len() ==> is_digits(
        unsigned_part(body.skip(e + 1)),
    ))
}

/// Whether a text is a decimal number: `str::parse` into a floating-point number
/// succeeds.
pub fn decimal(s: &str) -> (r: bool)
    ensures
        r == is_decimal(s@),
{
    let v = to_chars(s);
    let start: usize = if v.len() > 0 && (v[0] == '+' || v[0] == '-') {
        1
    } else {
        0
    };
    let ghost body = unsigned_part(v@);
    assert(body =~= v@.skip(start as int));
    let text = slice_text(&v, start, v.len());
    assert(text@ =~= body);
    let name = to_ascii_lower(text.as_str());
    if same(name.as_str(), "inf") || same(name.as_str(), "infinity") || same(name.as_str(), "nan") {
        return true;
    }
    let mut e: usize = start;
    assert(v@.skip(start as int) =~= body);
    while e < v.len() && v[e] != 'e' && v[e] != 'E'
        invariant
            start <= e <= v@.len(),
            exponent_index(body) == e - start + exponent_index(v@.skip(e as int)),
        decreases v@.len() - e,
    {
        assert(v@.skip(e as int).drop_first() =~= v@.skip(e as int + 1));
        e += 1;
    }
    assert(exponent_index(body) == e - start);
    let mantissa = slice_text(&v, start, e);
    assert(mantissa@ =~= body.take(e - start));
    if !mantissa_ok(mantissa.as_str()) {
        return false;
    }
    if e == v.len() {
        return true;
    }
    let digits_from: usize = if e + 1 < v.len() && (v[e + 1] == '+' || v[e + 1] == '-') {
        e + 2
    } else {
        e + 1
    };
    let ghost rest = unsigned_part(body.skip(e - start + 1));
    assert(body.skip(e - start + 1) =~= v@.skip(e as int + 1));
    assert(rest =~= v@.subrange(digits_from as int, v@.len() as int));
    digits_from < v.len() && only_digits(&v, digits_from, v.len())
}

fn mantissa_ok(s: &str) -> (r: bool)
    ensures
        r == is_mantissa(s@),
{
    match split_once(s, '.') {
        None => {
            let v = to_chars(s);
            assert(v@.subrange(0, v@.len() as int) =~= v@);
            v.len() > 0 && only_digits(&v, 0, v.len())
        },
        Some((whole, fraction)) => {
            let a = to_chars(whole.as_str());
            let b = to_chars(fraction.as_str());
            assert(a@.subrange(0, a@.len() as int) =~= a@);
            assert(b@.subrange(0, b@.len() as int) =~= b@);
            only_digits(&a, 0, a.len()) && only_digits(&b, 0, b.len()) && (a.len() > 0 || b.len()
                > 0)
        },
    }
}

/// What is printed reads back as the number.
pub proof fn print_parse_u64(n: u64)
    ensures
        unsigned_value(dec_nat(n as nat), u64::MAX as nat) == Some(n as nat),
{
    dec_nat_value(n as nat);
    assert(is_digit(dec_nat(n as nat)[0]));
}

/// What is printed reads back as the number.
pub proof fn print_parse_i64(n: i64)
    ensures
        signed_value(dec_int(n as int), i64::MIN as int, i64::MAX as int) == Some(n as int),
{
    if n < 0 {
        let m = (-(n as int)) as nat;
        dec_nat_value(m);
        let s = seq!['-'] + dec_nat(m);
        assert(s.skip(1) =~= dec_nat(m));
    } else {
        dec_nat_value(n as nat);
        assert(is_digit(dec_nat(n as nat)[0]));
    }
}

/// Digits before something that is no digit are what a text begins with.
pub proof fn leading_digits_are_counted(d: Seq<char>, rest: Seq<char>)
    requires
        all_digits(d),
        rest.len() > 0 ==> !is_digit(rest[0]),
    ensures
        leading_digits(d + rest) == d.len(),
        (d + rest).take(d.len() as int) == d,
    decreases d.len(),
{
    assert((d + rest).take(d.len() as int) =~= d);
    if d.len() == 0 {
        assert(d + rest =~= rest);
    } else {
        let tail = d.drop_first();
        assert forall|i: int| 0 <= i < tail.len() implies is_digit(#[trigger] tail[i]) by {
            assert(tail[i] == d[i + 1]);
        }
        leading_digits_are_counted(tail, rest);
        assert((d + rest).drop_first() =~= tail + rest);
        assert((d + rest)[0] == d[0]);
        assert(is_digit(d[0]));
    }
}

/// Digits read as the number that they denote, with a minus before them as its
/// opposite, and anything that holds another character as nothing.
pub proof fn digits_read_as_numbers(d: Seq<char>, min: int, max: int)
    requires
        is_digits(d),
    ensures
        digits_value(d) <= max && min <= 0 ==> signed_value(d, min, max) == Some(digits_value(d) as int),
        -(digits_value(d) as int) >= min && 0 <= max ==> signed_value(seq!['-'] + d, min, max) == Some(
            -(digits_value(d) as int),
        ),
        digits_value(d) > max ==> signed_value(d, min, max) is None,
        forall|a: Seq<char>, b: Seq<char>, c: char|
            a.len() > 0 && !is_digit(c) ==> signed_value(#[trigger] (a.push(c) + b), min, max) is None,
{
    assert(is_digit(d[0]));
    assert((seq!['-'] + d).skip(1) =~= d);
    assert forall|a: Seq<char>, b: Seq<char>, c: char|
        a.len() > 0 && !is_digit(c) implies signed_value(#[trigger] (a.push(c) + b), min, max) is None by {
        let s = a.push(c) + b;
        let k = a.len() as int;
        assert(s[k] == c);
        let t = if s[0] == '+' || s[0] == '-' {
            s.skip(1)
        } else {
            s
        };
        let j = if s[0] == '+' || s[0] == '-' {
            k - 1
        } else {
            k
        };
        assert(t[j] == c);
        assert(!is_digits(t));
    }
}

/// Each digit more multiplies by ten and adds the digit; the ten digits count from
/// zero to nine.
pub proof fn digits_count(d: Seq<char>, n: nat)
    requires
        n < 10,
    ensures
        digits_value(d.push(digit_char(n))) == digits_value(d) * 10 + n,
        digits_value(Seq::empty()) == 0,
        is_digit(digit_char(n)),
        digit_char(0) == '0',
        digit_char(9) == '9',
{
    assert(d.push(digit_char(n)).drop_last() =~= d);
}

/// A number is written without zeros before it.
pub proof fn plain_digits(n: nat)
    ensures
        dec_nat(n).len() > 0,
        '0' <= dec_nat(n)[0] <= '9',
        n > 0 ==> dec_nat(n)[0] != '0',
        n < 10 <==> dec_nat(n).len() == 1,
        n == 0 ==> dec_nat(n) == seq!['0'],
    decreases n,
{
    if n >= 10 {
        plain_digits(n / 10);
        assert(dec_nat(n)[0] == dec_nat(n / 10)[0]);
    }
}

/// Every whole number is written with at least one character.
pub proof fn printed_numbers_are_not_empty(n: int)
    ensures
        dec_int(n).len() > 0,
        n < 0 ==> dec_int(n)[0] == '-',
        n >= 0 ==> '0' <= dec_int(n)[0] <= '9',
{
    if n >= 0 {
        plain_digits(n as nat);
    }
}

proof fn exponent_place(s: Seq<char>, n: int)
    requires
        0 <= n <= s.len(),
        forall|i: int| 0 <= i < n ==> #[trigger] s[i] != 'e' && s[i] != 'E',
        n < s.len() ==> s[n] == 'e' || s[n] == 'E',
    ensures
        exponent_index(s) == n,
    decreases s.len(),
{
    if n > 0 {
        let d = s.drop_first();
        assert forall|i: int| 0 <= i < n - 1 implies #[trigger] d[i] != 'e' && d[i] != 'E' by {
            assert(d[i] == s[i + 1]);
        }
        exponent_place(d, n - 1);
    }
}

proof fn whole_part_is_plain(d: Seq<char>)
    requires
        is_digits(d),
    ensures
        !d.contains('.'),
        unsigned_part(d) == d,
        exponent_index(d) == d.len(),
{
    assert(is_digit(d[0]));
    exponent_place(d, d.len() as int);
}

/// Digits are a number, with a sign before them, a dot and more digits after them, and an
/// exponent; nothing is none.
pub proof fn plain_numbers_are_decimal(d: Seq<char>, f: Seq<char>, x: Seq<char>)
    requires
        is_digits(d),
        is_digits(f),
        is_digits(x),
    ensures
        is_decimal(d),
        is_decimal(seq!['-'] + d),
        is_decimal(seq!['+'] + d),
        is_decimal(d + seq!['.'] + f),
        is_decimal(d + seq!['e'] + x),
        !is_decimal(Seq::empty()),
{
    whole_part_is_plain(d);
    whole_part_is_plain(x);
    crate::text::search::first_separator_parts(d, f, '.');
    assert(d.take(d.len() as int) =~= d);
    let minus = seq!['-'] + d;
    let plus = seq!['+'] + d;
    assert(minus[0] == '-' && minus.skip(1) =~= d);
    assert(plus[0] == '+' && plus.skip(1) =~= d);
    let point = d + seq!['.'] + f;
    assert(point[0] == d[0] && is_digit(d[0]));
    assert forall|i: int| 0 <= i < point.len() implies #[trigger] point[i] != 'e' && point[i] != 'E' by {
        if i < d.len() {
            assert(point[i] == d[i]);
        } else if i > d.len() {
            assert(point[i] == f[i - d.len() - 1]);
        }
    }
    exponent_place(point, point.len() as int);
    assert(point.take(point.len() as int) =~= point);
    let power = d + seq!['e'] + x;
    assert(power[0] == d[0]);
    assert forall|i: int| 0 <= i < d.len() implies #[trigger] power[i] != 'e' && power[i] != 'E' by {
        assert(power[i] == d[i]);
    }
    assert(power[d.len() as int] == 'e');
    exponent_place(power, d.len() as int);
    assert(power.take(d.len() as int) =~= d);
    assert(power.skip(d.len() as int + 1) =~= x);
    let none = Seq::<char>::empty();
    reveal_strlit("inf");
    reveal_strlit("infinity");
    reveal_strlit("nan");
    assert("inf"@.len() == 3 && "infinity"@.len() == 8 && "nan"@.len() == 3);
    assert(ascii_lower(none).len() == 0);
    exponent_place(none, 0);
    assert(none.take(0) =~= none);
    crate::text::search::first_separator_parts(none, none, '.');
}

/// A number with a comma, a blank or a percent sign in it is none.
pub proof fn other_signs_are_not_decimal(s: Seq<char>, i: int)
    requires
        0 <= i < s.len(),
        s[i] == ',' || s[i] == ' ' || s[i] == '%' || s[i] == '/' || s[i] == '$',
    ensures
        !is_decimal(s),
{
    let body = unsigned_part(s);
    let k = if body.len() < s.len() {
        i - 1
    } else {
        i
    };
    assert(0 <= k < body.len() && body[k] == s[i]);
    reveal_strlit("inf");
    reveal_strlit("infinity");
    reveal_strlit("nan");
    let name = ascii_lower(body);
    assert(name[k] == s[i]);
    assert(name != "inf"@ && name != "infinity"@ && name != "nan"@) by {
        let a = "inf"@;
        let b = "infinity"@;
        let c = "nan"@;
        assert(a.len() == 3 && a[0] == 'i' && a[1] == 'n' && a[2] == 'f');
        assert(b.len() == 8 && b[0] == 'i' && b[1] == 'n' && b[2] == 'f' && b[3] == 'i' && b[4] == 'n' && b[5] == 'i'
            && b[6] == 't' && b[7] == 'y');
        assert(c.len() == 3 && c[0] == 'n' && c[1] == 'a' && c[2] == 'n');
        if name == b {
            assert(k == 0 || k == 1 || k == 2 || k == 3 || k == 4 || k == 5 || k == 6 || k == 7);
        }
        if name == a || name == c {
            assert(k == 0 || k == 1 || k == 2);
        }
    }
    let e = exponent_index(body);
    exponent_is_within(body);
    if k < e {
        let m = body.take(e);
        assert(m[k] == s[i]);
        crate::text::search::first_index_is_first(m, '.');
        let p = crate::text::search::first_index(m, '.');
        if p < m.len() {
            if k < p {
                assert(m.take(p)[k] == s[i]);
            } else if k > p {
                assert(m.skip(p + 1)[k - p - 1] == s[i]);
            }
        }
    } else if k > e {
        let x = body.skip(e + 1);
        assert(x[k - e - 1] == s[i]);
        let y = unsigned_part(x);
        if y.len() < x.len() {
            assert(k - e - 2 >= 0);
            assert(y[k - e - 2] == s[i]);
        }
    }
}

proof fn exponent_is_within(s: Seq<char>)
    ensures
        0 <= exponent_index(s) <= s.len(),
        exponent_index(s) < s.len() ==> s[exponent_index(s)] == 'e' || s[exponent_index(s)] == 'E',
    decreases s.len(),
{
    if s.len() > 0 && s[0] != 'e' && s[0] != 'E' {
        exponent_is_within(s.drop_first());
    }
}

} // verus!
