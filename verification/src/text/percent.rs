//! Percent encoding.

use vstd::prelude::*;
use vstd::string::*;
use vstd::utf8::*;

verus! {

/// The bytes that stand for themselves in a URL: ASCII letters and digits and
/// `-`, `_`, `.`, `~`.
pub open spec fn is_unreserved(b: u8) -> bool {
    ||| 0x41 <= b <= 0x5a
    ||| 0x61 <= b <= 0x7a
    ||| 0x30 <= b <= 0x39
    ||| b == 0x2d
    ||| b == 0x5f
    ||| b == 0x2e
    ||| b == 0x7e
}

/// A hexadecimal digit in upper case.
pub open spec fn upper_hex(n: u8) -> char {
    if n < 10 {
        (n + 48) as u8 as char
    } else {
        (n + 55) as u8 as char
    }
}

/// One byte: itself, or `%` and two hexadecimal digits.
pub open spec fn percent_byte(b: u8) -> Seq<char> {
    if is_unreserved(b) {
        seq![b as char]
    } else {
        seq!['%', upper_hex(b / 16), upper_hex(b % 16)]
    }
}

/// All bytes, one after the other.
pub open spec fn percent_bytes(bytes: Seq<u8>) -> Seq<char>
    decreases bytes.len(),
{
    if bytes.len() == 0 {
        Seq::empty()
    } else {
        percent_bytes(bytes.drop_last()) + percent_byte(bytes.last())
    }
}

/// A text with everything but unreserved characters percent-encoded.
pub open spec fn percent_encoded(s: Seq<char>) -> Seq<char> {
    percent_bytes(encode_utf8(s))
}

fn hex_char(n: u8) -> (r: char)
    requires
        n < 16,
    ensures
        r == upper_hex(n),
{
    if n < 10 {
        (n + 48) as char
    } else {
        (n + 55) as char
    }
}

/// A text with everything but unreserved characters percent-encoded.
pub fn percent_encode(s: &str) -> (r: String)
    ensures
        r@ == percent_encoded(s@),
{
    let bytes = s.as_bytes();
    let mut out = String::new();
    let mut i: usize = 0;
    while i < bytes.len()
        invariant
            i <= bytes@.len(),
            out@ == percent_bytes(bytes@.take(i as int)),
        decreases bytes@.len() - i,
    {
        let b: u8 = bytes[i];
        proof {
            assert(bytes@.take(i + 1).drop_last() =~= bytes@.take(i as int));
            assert(bytes@.take(i + 1).last() == b);
        }
        let ghost before = out@;
        if (b >= 0x41 && b <= 0x5a) || (b >= 0x61 && b <= 0x7a) || (b >= 0x30 && b <= 0x39) || b
            == 0x2d || b == 0x5f || b == 0x2e || b == 0x7e {
            out.push(b as char);
            assert(out@ =~= before + percent_byte(b));
        } else {
            out.push('%');
            out.push(hex_char(b / 16));
            out.push(hex_char(b % 16));
            assert(out@ =~= before + percent_byte(b));
        }
        i += 1;
    }
    assert(bytes@.take(i as int) =~= bytes@);
    out
}

/// The characters that percent encoding writes.
pub open spec fn is_url_safe(c: char) -> bool {
    c == '%' || (c as int <= 0x7f && is_unreserved(c as u8))
}

proof fn percent_bytes_safe(bytes: Seq<u8>)
    ensures
        forall|i: int| 0 <= i < percent_bytes(bytes).len() ==> is_url_safe(#[trigger] percent_bytes(bytes)[i]),
    decreases bytes.len(),
{
    if bytes.len() > 0 {
        let head = percent_bytes(bytes.drop_last());
        let tail = percent_byte(bytes.last());
        percent_bytes_safe(bytes.drop_last());
        assert forall|i: int| 0 <= i < percent_bytes(bytes).len() implies is_url_safe(#[trigger] percent_bytes(bytes)[i]) by {
            if i < head.len() {
                assert(percent_bytes(bytes)[i] == head[i]);
            } else {
                assert(percent_bytes(bytes)[i] == tail[i - head.len()]);
            }
        }
    }
}

/// Nothing but unreserved characters and `%` is left in an encoded text.
pub proof fn percent_encoding_is_safe(s: Seq<char>)
    ensures
        forall|i: int| 0 <= i < percent_encoded(s).len() ==> is_url_safe(#[trigger] percent_encoded(s)[i]),
{
    percent_bytes_safe(encode_utf8(s));
}

proof fn percent_byte_injective(a: u8, b: u8)
    requires
        percent_byte(a) == percent_byte(b),
    ensures
        a == b,
{
    if is_unreserved(a) {
        assert(percent_byte(a).len() == 1);
        if !is_unreserved(b) {
            assert(percent_byte(b).len() == 3);
        }
        assert(is_unreserved(b));
        assert(percent_byte(a)[0] == percent_byte(b)[0]);
        assert(percent_byte(a)[0] == a as char);
        assert(percent_byte(b)[0] == b as char);
    } else {
        assert(percent_byte(a).len() == 3);
        assert(!is_unreserved(b));
        assert(percent_byte(a)[1] == percent_byte(b)[1]);
        assert(percent_byte(a)[2] == percent_byte(b)[2]);
        upper_hex_injective(a / 16, b / 16);
        upper_hex_injective(a % 16, b % 16);
        assert(a as int == (a / 16) as int * 16 + (a % 16) as int);
        assert(b as int == (b / 16) as int * 16 + (b % 16) as int);
    }
}

proof fn upper_hex_injective(a: u8, b: u8)
    requires
        a < 16,
        b < 16,
        upper_hex(a) == upper_hex(b),
    ensures
        a == b,
{
}

proof fn percent_bytes_injective(a: Seq<u8>, b: Seq<u8>)
    requires
        percent_bytes(a) == percent_bytes(b),
    ensures
        a == b,
    decreases a.len() + b.len(),
{
    if a.len() == 0 {
        if b.len() > 0 {
            assert(percent_bytes(b).len() > 0);
        }
        assert(a =~= b);
    } else if b.len() == 0 {
        assert(percent_bytes(a).len() > 0);
    } else {
        let ea = percent_bytes(a);
        let n = ea.len() as int;
        let ta = percent_byte(a.last());
        let tb = percent_byte(b.last());
        let ha = percent_bytes(a.drop_last());
        let hb = percent_bytes(b.drop_last());
        assert(ea == ha + ta);
        assert(ea == hb + tb);
        percent_bytes_safe(a.drop_last());
        percent_bytes_safe(b.drop_last());
        // The last three characters are an escape exactly if the third from the
        // end is `%`, which stands for nothing else.
        if ta.len() != tb.len() {
            if ta.len() == 3 {
                percent_tail(b.drop_last(), tb, ea);
            } else {
                percent_tail(a.drop_last(), ta, ea);
            }
        }
        assert(ta.len() == tb.len());
        assert(ta =~= ea.skip(n - ta.len()));
        assert(tb =~= ea.skip(n - tb.len()));
        assert(ha =~= ea.take(n - ta.len()));
        assert(hb =~= ea.take(n - tb.len()));
        percent_byte_injective(a.last(), b.last());
        percent_bytes_injective(a.drop_last(), b.drop_last());
        assert(a =~= a.drop_last().push(a.last()));
        assert(b =~= b.drop_last().push(b.last()));
    }
}

proof fn percent_tail(head: Seq<u8>, tail: Seq<char>, all: Seq<char>)
    requires
        all == percent_bytes(head) + tail,
        tail.len() == 1,
    ensures
        all.len() < 3 || all[all.len() - 3] != '%',
{
    if all.len() >= 3 {
        let h = percent_bytes(head);
        let n = h.len() as int;
        assert(all[n - 2] == h[n - 2]);
        let last = percent_byte(head.last());
        let before = percent_bytes(head.drop_last());
        assert(h == before + last);
        if last.len() == 1 {
            assert(h[n - 2] == before[n - 2]);
            let last2 = percent_byte(head.drop_last().last());
            let before2 = percent_bytes(head.drop_last().drop_last());
            assert(before == before2 + last2);
            assert(before[n - 2] == last2[last2.len() - 1]);
        } else {
            assert(h[n - 2] == last[1]);
        }
    }
}

/// Two texts with the same encoding are the same text.
pub proof fn percent_encoding_injective(a: Seq<char>, b: Seq<char>)
    requires
        percent_encoded(a) == percent_encoded(b),
    ensures
        a == b,
{
    percent_bytes_injective(encode_utf8(a), encode_utf8(b));
    encode_utf8_decode_utf8(a);
    encode_utf8_decode_utf8(b);
}

/// Letters, digits and four signs stand for themselves; any other byte is written as a
/// percent sign and its two hexadecimal digits in capitals.
pub proof fn bytes_are_percent_encoded(b: u8)
    ensures
        (0x41 <= b <= 0x5a || 0x61 <= b <= 0x7a || 0x30 <= b <= 0x39 || b == 0x2d || b == 0x5f || b == 0x2e || b == 0x7e)
            ==> percent_byte(b) == seq![b as char],
        b == 0x20 ==> percent_byte(b) == seq!['%', '2', '0'],
        b == 0x2f ==> percent_byte(b) == seq!['%', '2', 'F'],
        b == 0x23 ==> percent_byte(b) == seq!['%', '2', '3'],
        b == 0x25 ==> percent_byte(b) == seq!['%', '2', '5'],
        b == 0x2b ==> percent_byte(b) == seq!['%', '2', 'B'],
        b == 0xc3 ==> percent_byte(b) == seq!['%', 'C', '3'],
        b == 0xff ==> percent_byte(b) == seq!['%', 'F', 'F'],
        b >= 0x80 ==> percent_byte(b).len() == 3,
{
}

/// Bytes are encoded one after the other.
pub proof fn encodings_follow_one_another(a: Seq<u8>, b: u8)
    ensures
        percent_bytes(a.push(b)) == percent_bytes(a) + percent_byte(b),
        percent_bytes(Seq::empty()).len() == 0,
{
    assert(a.push(b).drop_last() =~= a);
    assert(a.push(b).last() == b);
}

} // verus!
