//! The parts of a workbook's package. The workbook reader adds and multiplies the
//! numbers that it finds in them, and those must stay within its range.

use vstd::prelude::*;
use vstd::slice::*;

use super::compound::{read_u16, read_u32, u16_at, u32_at};

verus! {

/// What the `zip` reader delivers of each part of a package; nothing where the
/// bytes are no package.
pub uninterp spec fn package_content(bytes: Seq<u8>) -> Seq<Seq<u8>>;

/// `zip::ZipArchive::new` on bytes in memory, then `by_index` for every part, each
/// read byte by byte up to its end or to the first byte that is damaged. An empty
/// timestamp in a directory entry would overflow its count. The content is not
/// stated beyond the name, nor how much memory it takes.
#[verifier::external_body]
fn package_parts(bytes: &[u8]) -> (r: Vec<Vec<u8>>)
    requires
        entries_are_plain(bytes@),
    ensures
        r.deep_view() == package_content(bytes@),
{
    zip::ZipArchive::new(std::io::Cursor::new(bytes)).map_or_else(
        |_| Vec::new(),
        |mut archive| (0..archive.len())
            .map(|i| archive.by_index(i).map_or_else(
                |_| Vec::new(),
                |part| std::io::Read::bytes(part).map_while(|byte| byte.ok()).collect(),
            ))
            .collect(),
    )
}

/// The mark of an extra field that holds timestamps.
pub const TIMESTAMP_FIELD: u32 = 0x5455;

/// The mark of an entry of a package's directory.
pub const DIRECTORY_ENTRY: u32 = 0x0201_4b50;

/// The extra fields between two places hold no empty timestamp.
pub open spec fn fields_are_plain(b: Seq<u8>, from: int, end: int) -> bool
    decreases end - from,
{
    if from + 4 > end {
        true
    } else if u16_at(b, from) == TIMESTAMP_FIELD && u16_at(b, from + 2) == 0 {
        false
    } else {
        let next = from + 4 + u16_at(b, from + 2);
        next <= end ==> fields_are_plain(b, next, end)
    }
}

/// What may be an entry of the directory has plain extra fields, where they are
/// all there. They follow the name.
pub open spec fn entry_is_plain(b: Seq<u8>, p: int) -> bool {
    u32_at(b, p) == DIRECTORY_ENTRY ==> {
        let from = p + 46 + u16_at(b, p + 28);
        let end = from + u16_at(b, p + 30);
        end <= b.len() ==> fields_are_plain(b, from, end)
    }
}

/// Whatever may be an entry of the directory has plain extra fields.
pub open spec fn entries_are_plain(b: Seq<u8>) -> bool {
    forall|p: int| 0 <= p && p + 46 <= b.len() ==> #[trigger] entry_is_plain(b, p)
}

fn fields_plain(b: &[u8], from: usize, end: usize) -> (r: bool)
    requires
        end <= b@.len(),
        from <= end,
    ensures
        r == fields_are_plain(b@, from as int, end as int),
{
    let mut at: usize = from;
    while end - at >= 4
        invariant
            at <= end <= b@.len(),
            fields_are_plain(b@, from as int, end as int) == fields_are_plain(b@, at as int, end as int),
        decreases end - at,
    {
        let len: u32 = read_u16(b, at + 2);
        if read_u16(b, at) == TIMESTAMP_FIELD && len == 0 {
            return false;
        }
        if end - at - 4 < len as usize {
            return true;
        }
        at = at + 4 + len as usize;
    }
    true
}

fn entries_plain(b: &[u8]) -> (r: bool)
    ensures
        r == entries_are_plain(b@),
{
    let len: usize = b.len();
    let mut p: usize = 0;
    while p < len && len - p >= 46
        invariant
            p <= len == b@.len(),
            forall|q: int| 0 <= q < p && q + 46 <= b@.len() ==> #[trigger] entry_is_plain(b@, q),
        decreases len - p,
    {
        if read_u32(b, p) == DIRECTORY_ENTRY {
            let name: usize = read_u16(b, p + 28) as usize;
            let extra: usize = read_u16(b, p + 30) as usize;
            if len - p - 46 >= name && len - p - 46 - name >= extra {
                let from: usize = p + 46 + name;
                if !fields_plain(b, from, from + extra) {
                    assert(!entry_is_plain(b@, p as int));
                    return false;
                }
            }
        }
        assert(entry_is_plain(b@, p as int));
        p += 1;
    }
    true
}

/// A blank between the attributes of a tag.
pub open spec fn is_gap(c: u8) -> bool {
    c == 0x20 || c == 0x0d || c == 0x0a || c == 0x09
}

/// A mark around the value of an attribute.
pub open spec fn is_quote(c: u8) -> bool {
    c == 0x22 || c == 0x27
}

/// The quote that stands open behind a byte of a tag; zero for none.
pub open spec fn quote_after(quote: u8, c: u8) -> u8 {
    if quote == 0 {
        if is_quote(c) {
            c
        } else {
            0
        }
    } else if c == quote {
        0
    } else {
        quote
    }
}

/// Where a tag ends: at the first `>` that is not quoted; past the end for none.
pub open spec fn tag_end(b: Seq<u8>, i: int, quote: u8) -> int
    decreases b.len() - i,
{
    if i >= b.len() {
        b.len() as int
    } else if quote == 0 && b[i] == 0x3e {
        i
    } else {
        tag_end(b, i + 1, quote_after(quote, b[i]))
    }
}

/// The first place from `i` on, and before `end`, that is no gap; else `end`.
pub open spec fn past_gap(b: Seq<u8>, i: int, end: int) -> int
    decreases end - i,
{
    if i < end && is_gap(b[i]) {
        past_gap(b, i + 1, end)
    } else {
        i
    }
}

/// The first place from `i` on, and before `end`, that is a gap; else `end`.
pub open spec fn word_end(b: Seq<u8>, i: int, end: int) -> int
    decreases end - i,
{
    if i < end && !is_gap(b[i]) {
        word_end(b, i + 1, end)
    } else {
        i
    }
}

/// The first place of a byte from `i` on, and before `end`; else `end`.
pub open spec fn place_of_byte(b: Seq<u8>, c: u8, i: int, end: int) -> int
    decreases end - i,
{
    if i < end && b[i] != c {
        place_of_byte(b, c, i + 1, end)
    } else {
        i
    }
}

/// These bytes stand at a place, before `end`.
pub open spec fn stands_at(b: Seq<u8>, word: Seq<u8>, i: int, end: int) -> bool {
    i + word.len() <= end && b.subrange(i, i + word.len() as int) == word
}

/// The name of a tag: up to the first gap, without a closing slash.
pub open spec fn tag_name(b: Seq<u8>, i: int, end: int) -> Seq<u8> {
    let e = word_end(b, i, end);
    if e == end && i < e && b[e - 1] == 0x2f {
        b.subrange(i, e - 1)
    } else {
        b.subrange(i, e)
    }
}

/// A tag has that name, or that name behind a prefix.
pub open spec fn is_named(name: Seq<u8>, word: Seq<u8>) -> bool {
    ||| name == word
    ||| {
        let k = name.len() - word.len();
        k > 0 && name[k - 1] == 0x3a && name.skip(k) == word
    }
}

/// The value of the attribute whose key stands at a place of a tag; nothing where
/// none does.
pub open spec fn value_at(b: Seq<u8>, key: Seq<u8>, j: int, end: int) -> Option<Seq<u8>> {
    let k = past_gap(b, j + key.len() as int, end);
    let q = past_gap(b, k + 1, end);
    let close = place_of_byte(b, b[q], q + 1, end);
    if (is_gap(b[j - 1]) || is_quote(b[j - 1])) && stands_at(b, key, j, end) && k < end && b[k] == 0x3d
        && q < end && is_quote(b[q]) && close < end {
        Some(b.subrange(q + 1, close))
    } else {
        None
    }
}

/// A decimal digit.
pub open spec fn is_digit_byte(c: u8) -> bool {
    0x30 <= c <= 0x39
}

/// A letter of either case.
pub open spec fn is_letter_byte(c: u8) -> bool {
    0x41 <= c <= 0x5a || 0x61 <= c <= 0x7a
}

/// How many digits stand at the end.
pub open spec fn digit_run(v: Seq<u8>) -> nat
    decreases v.len(),
{
    if v.len() > 0 && is_digit_byte(v.last()) {
        digit_run(v.drop_last()) + 1
    } else {
        0
    }
}

/// How many letters stand at the end.
pub open spec fn letter_run(v: Seq<u8>) -> nat
    decreases v.len(),
{
    if v.len() > 0 && is_letter_byte(v.last()) {
        letter_run(v.drop_last()) + 1
    } else {
        0
    }
}

/// The number that digits denote.
pub open spec fn row_number(v: Seq<u8>) -> int
    decreases v.len(),
{
    if v.len() == 0 {
        0
    } else {
        row_number(v.drop_last()) * 10 + (v.last() - 0x30)
    }
}

/// The place of a letter in the alphabet, from 1 on.
pub open spec fn letter_number(c: u8) -> int {
    if c >= 0x61 {
        c - 0x60
    } else {
        c - 0x40
    }
}

/// The number that the letters of a column denote, from 1 on.
pub open spec fn column_number(v: Seq<u8>) -> int
    decreases v.len(),
{
    if v.len() == 0 {
        0
    } else {
        column_number(v.drop_last()) * 26 + letter_number(v.last())
    }
}

/// The digits of a cell's name.
pub open spec fn row_part(v: Seq<u8>) -> Seq<u8> {
    v.skip(v.len() - digit_run(v))
}

/// What stands before the digits of a cell's name.
pub open spec fn column_part(v: Seq<u8>) -> Seq<u8> {
    v.take(v.len() - digit_run(v))
}

/// The numbers in a cell's name stay in range: at most nine digits, and at most
/// six letters before them.
pub open spec fn is_short_name(v: Seq<u8>) -> bool {
    digit_run(v) == 0 || (digit_run(v) <= 9 && letter_run(column_part(v)) <= 6)
}

/// The name of a cell: letters, then digits that are not all zero.
pub open spec fn is_cell_name(v: Seq<u8>) -> bool {
    &&& digit_run(v) > 0
    &&& row_number(row_part(v)) > 0
    &&& column_part(v).len() > 0
    &&& letter_run(column_part(v)) == column_part(v).len()
}

/// All names between the colons of a range are short.
pub open spec fn names_are_short(v: Seq<u8>) -> bool
    decreases v.len(),
{
    let colon = place_of_byte(v, 0x3a, 0, v.len() as int);
    if 0 <= colon < v.len() {
        is_short_name(v.take(colon)) && names_are_short(v.skip(colon + 1))
    } else {
        is_short_name(v)
    }
}

/// One cell does not lie behind another, neither in its row nor in its column.
pub open spec fn is_before(a: Seq<u8>, b: Seq<u8>) -> bool {
    &&& row_number(row_part(a)) <= row_number(row_part(b))
    &&& column_number(column_part(a)) <= column_number(column_part(b))
}

/// The names of a range are short, and its two cells are in order.
pub open spec fn is_plain_range(v: Seq<u8>) -> bool {
    let colon = place_of_byte(v, 0x3a, 0, v.len() as int);
    let first = v.take(colon);
    let second = v.skip(colon + 1);
    &&& names_are_short(v)
    &&& colon < v.len() && is_cell_name(first) && is_cell_name(second) ==> is_before(first, second)
}

/// How many brackets are opened.
pub open spec fn brackets(v: Seq<u8>) -> nat
    decreases v.len(),
{
    if v.len() == 0 {
        0
    } else {
        brackets(v.drop_last()) + if v.last() == 0x5b {
            1nat
        } else {
            0nat
        }
    }
}

/// `c`.
pub open spec fn cell_word() -> Seq<u8> {
    seq![0x63u8]
}

/// `row`.
pub open spec fn row_word() -> Seq<u8> {
    seq![0x72u8, 0x6f, 0x77]
}

/// `dimension`.
pub open spec fn dimension_word() -> Seq<u8> {
    seq![0x64u8, 0x69, 0x6d, 0x65, 0x6e, 0x73, 0x69, 0x6f, 0x6e]
}

/// `numFmt`.
pub open spec fn format_word() -> Seq<u8> {
    seq![0x6eu8, 0x75, 0x6d, 0x46, 0x6d, 0x74]
}

/// `r`.
pub open spec fn name_key() -> Seq<u8> {
    seq![0x72u8]
}

/// `ref`.
pub open spec fn range_key() -> Seq<u8> {
    seq![0x72u8, 0x65, 0x66]
}

/// `formatCode`.
pub open spec fn code_key() -> Seq<u8> {
    seq![0x66u8, 0x6f, 0x72, 0x6d, 0x61, 0x74, 0x43, 0x6f, 0x64, 0x65]
}

/// What an attribute stands for.
#[derive(Debug, Clone, Copy, PartialEq, Eq, Structural)]
pub enum Attribute {
    CellName,
    Range,
    FormatCode,
}

/// The attribute of a tag whose numbers are counted with: the name of a cell or
/// row, the range of a sheet, or the code of a number format.
pub open spec fn counted_attribute(name: Seq<u8>) -> Option<Attribute> {
    if is_named(name, cell_word()) || is_named(name, row_word()) {
        Some(Attribute::CellName)
    } else if is_named(name, dimension_word()) {
        Some(Attribute::Range)
    } else if is_named(name, format_word()) {
        Some(Attribute::FormatCode)
    } else {
        None
    }
}

/// The key of an attribute.
pub open spec fn key_of(attribute: Attribute) -> Seq<u8> {
    match attribute {
        Attribute::CellName => name_key(),
        Attribute::Range => range_key(),
        Attribute::FormatCode => code_key(),
    }
}

/// The value of an attribute stays in range. A number format may open 255 brackets.
pub open spec fn is_plain_value(attribute: Attribute, v: Seq<u8>) -> bool {
    match attribute {
        Attribute::CellName => is_short_name(v),
        Attribute::Range => is_plain_range(v),
        Attribute::FormatCode => brackets(v) <= 255,
    }
}

/// What stands at a place of a tag is not an attribute out of range.
pub open spec fn place_is_plain(b: Seq<u8>, attribute: Attribute, j: int, end: int) -> bool {
    match value_at(b, key_of(attribute), j, end) {
        Some(v) => is_plain_value(attribute, v),
        None => true,
    }
}

/// The tag that may begin at a place, if it ends, has no attribute out of range.
pub open spec fn tag_is_plain(b: Seq<u8>, i: int) -> bool {
    let end = tag_end(b, i + 1, 0);
    b[i] == 0x3c && end < b.len() ==> match counted_attribute(tag_name(b, i + 1, end)) {
        Some(attribute) => forall|j: int|
            i + 1 < j < end ==> #[trigger] place_is_plain(b, attribute, j, end),
        None => true,
    }
}

/// How large a part may be, so that its rows and cells can be counted.
pub const MAX_PART: usize = 0x7fff_ffff;

/// A part that the workbook reader can count its way through.
pub open spec fn part_is_plain(b: Seq<u8>) -> bool {
    &&& b.len() <= MAX_PART
    &&& forall|i: int| 0 <= i < b.len() ==> #[trigger] tag_is_plain(b, i)
}

/// A package that the workbook reader can count its way through.
pub open spec fn is_plain_package(bytes: Seq<u8>) -> bool {
    &&& entries_are_plain(bytes)
    &&& forall|i: int|
        0 <= i < package_content(bytes).len() ==> part_is_plain(#[trigger] package_content(bytes)[i])
}

proof fn byte_is_found(b: Seq<u8>, c: u8, i: int, end: int)
    requires
        i <= end,
    ensures
        i <= place_of_byte(b, c, i, end) <= end,
    decreases end - i,
{
    if i < end && b[i] != c {
        byte_is_found(b, c, i + 1, end);
    }
}

fn find_tag_end(b: &[u8], i: usize) -> (r: usize)
    requires
        i <= b@.len(),
    ensures
        r == tag_end(b@, i as int, 0),
        i <= r <= b@.len(),
{
    let mut at: usize = i;
    let mut quote: u8 = 0;
    while at < b.len() && !(quote == 0 && b[at] == 0x3e)
        invariant
            i <= at <= b@.len(),
            tag_end(b@, i as int, 0) == tag_end(b@, at as int, quote),
        decreases b@.len() - at,
    {
        let c: u8 = b[at];
        quote = if quote == 0 {
            if c == 0x22 || c == 0x27 {
                c
            } else {
                0
            }
        } else if c == quote {
            0
        } else {
            quote
        };
        at += 1;
    }
    at
}

fn gap(c: u8) -> (r: bool)
    ensures
        r == is_gap(c),
{
    c == 0x20 || c == 0x0d || c == 0x0a || c == 0x09
}

fn skip_gap(b: &[u8], i: usize, end: usize) -> (r: usize)
    requires
        i <= end <= b@.len(),
    ensures
        r == past_gap(b@, i as int, end as int),
        i <= r <= end,
{
    let mut at: usize = i;
    while at < end && gap(b[at])
        invariant
            i <= at <= end <= b@.len(),
            past_gap(b@, i as int, end as int) == past_gap(b@, at as int, end as int),
        decreases end - at,
    {
        at += 1;
    }
    at
}

fn find_word_end(b: &[u8], i: usize, end: usize) -> (r: usize)
    requires
        i <= end <= b@.len(),
    ensures
        r == word_end(b@, i as int, end as int),
        i <= r <= end,
{
    let mut at: usize = i;
    while at < end && !gap(b[at])
        invariant
            i <= at <= end <= b@.len(),
            word_end(b@, i as int, end as int) == word_end(b@, at as int, end as int),
        decreases end - at,
    {
        at += 1;
    }
    at
}

fn find_byte(b: &[u8], c: u8, i: usize, end: usize) -> (r: usize)
    requires
        i <= end <= b@.len(),
    ensures
        r == place_of_byte(b@, c, i as int, end as int),
        i <= r <= end,
{
    let mut at: usize = i;
    while at < end && b[at] != c
        invariant
            i <= at <= end <= b@.len(),
            place_of_byte(b@, c, i as int, end as int) == place_of_byte(b@, c, at as int, end as int),
        decreases end - at,
    {
        at += 1;
    }
    at
}

fn word_stands(b: &[u8], word: &Vec<u8>, i: usize, end: usize) -> (r: bool)
    requires
        i <= end <= b@.len(),
    ensures
        r == stands_at(b@, word@, i as int, end as int),
{
    if end - i < word.len() {
        return false;
    }
    let mut k: usize = 0;
    while k < word.len()
        invariant
            k <= word@.len(),
            i + word@.len() <= end <= b@.len(),
            forall|m: int| 0 <= m < k ==> b@[i + m] == #[trigger] word@[m],
        decreases word@.len() - k,
    {
        if b[i + k] != word[k] {
            assert(b@.subrange(i as int, i + word@.len() as int)[k as int] != word@[k as int]);
            return false;
        }
        k += 1;
    }
    assert(b@.subrange(i as int, i + word@.len() as int) =~= word@);
    true
}

fn named(b: &[u8], from: usize, to: usize, word: &Vec<u8>) -> (r: bool)
    requires
        from <= to <= b@.len(),
    ensures
        r == is_named(b@.subrange(from as int, to as int), word@),
{
    let ghost name = b@.subrange(from as int, to as int);
    if to - from < word.len() {
        return false;
    }
    let k: usize = to - from - word.len();
    let same = word_stands(b, word, from + k, to);
    proof {
        assert(name.skip(k as int) =~= b@.subrange(from + k, from + k + word@.len()));
        if k == 0 {
            assert(name.skip(0) =~= name);
        } else {
            assert(name[k - 1] == b@[from + k - 1]);
        }
    }
    same && (k == 0 || b[from + k - 1] == 0x3a)
}

fn find_value<'a>(b: &'a [u8], key: &Vec<u8>, j: usize, end: usize) -> (r: Option<&'a [u8]>)
    requires
        1 <= j <= end <= b@.len(),
    ensures
        match value_at(b@, key@, j as int, end as int) {
            Some(v) => r is Some && r->0@ == v,
            None => r is None,
        },
{
    let before: u8 = b[j - 1];
    if !(gap(before) || before == 0x22 || before == 0x27) || !word_stands(b, key, j, end) {
        return None;
    }
    let k: usize = skip_gap(b, j + key.len(), end);
    if k >= end || b[k] != 0x3d {
        return None;
    }
    let q: usize = skip_gap(b, k + 1, end);
    if q >= end || !(b[q] == 0x22 || b[q] == 0x27) {
        return None;
    }
    let close: usize = find_byte(b, b[q], q + 1, end);
    if close >= end {
        return None;
    }
    Some(slice_subrange(b, q + 1, close))
}

proof fn digits_stand_there(v: Seq<u8>)
    ensures
        digit_run(v) <= v.len(),
        forall|i: int| v.len() - digit_run(v) <= i < v.len() ==> is_digit_byte(#[trigger] v[i]),
    decreases v.len(),
{
    if v.len() > 0 && is_digit_byte(v.last()) {
        digits_stand_there(v.drop_last());
        assert forall|i: int| v.len() - digit_run(v) <= i < v.len() implies is_digit_byte(
            #[trigger] v[i],
        ) by {
            if i < v.len() - 1 {
                assert(v.drop_last()[i] == v[i]);
            }
        }
    }
}

proof fn letters_stand_there(v: Seq<u8>)
    ensures
        letter_run(v) <= v.len(),
        forall|i: int| v.len() - letter_run(v) <= i < v.len() ==> is_letter_byte(#[trigger] v[i]),
    decreases v.len(),
{
    if v.len() > 0 && is_letter_byte(v.last()) {
        letters_stand_there(v.drop_last());
        assert forall|i: int| v.len() - letter_run(v) <= i < v.len() implies is_letter_byte(
            #[trigger] v[i],
        ) by {
            if i < v.len() - 1 {
                assert(v.drop_last()[i] == v[i]);
            }
        }
    }
}

fn count_digits(v: &[u8]) -> (r: usize)
    ensures
        r == digit_run(v@),
        r <= v@.len(),
{
    let mut n: usize = 0;
    assert(v@.take(v@.len() as int) =~= v@);
    while n < v.len() && 0x30 <= v[v.len() - 1 - n] && v[v.len() - 1 - n] <= 0x39
        invariant
            n <= v@.len(),
            digit_run(v@) == n + digit_run(v@.take(v@.len() - n)),
        decreases v@.len() - n,
    {
        assert(v@.take(v@.len() - n).drop_last() =~= v@.take(v@.len() - n - 1));
        n += 1;
    }
    n
}

fn count_letters(v: &[u8]) -> (r: usize)
    ensures
        r == letter_run(v@),
        r <= v@.len(),
{
    let mut n: usize = 0;
    assert(v@.take(v@.len() as int) =~= v@);
    while n < v.len() && letter(v[v.len() - 1 - n])
        invariant
            n <= v@.len(),
            letter_run(v@) == n + letter_run(v@.take(v@.len() - n)),
        decreases v@.len() - n,
    {
        assert(v@.take(v@.len() - n).drop_last() =~= v@.take(v@.len() - n - 1));
        n += 1;
    }
    n
}

fn letter(c: u8) -> (r: bool)
    ensures
        r == is_letter_byte(c),
{
    (0x41 <= c && c <= 0x5a) || (0x61 <= c && c <= 0x7a)
}

spec fn power(base: int, n: nat) -> int
    decreases n,
{
    if n == 0 {
        1
    } else {
        power(base, (n - 1) as nat) * base
    }
}

proof fn powers_are_small()
    ensures
        forall|n: nat| n <= 9 ==> #[trigger] power(10, n) <= 1_000_000_000,
        forall|n: nat| n <= 6 ==> #[trigger] power(27, n) <= 387_420_489,
{
    reveal_with_fuel(power, 10);
    assert forall|n: nat| n <= 9 implies #[trigger] power(10, n) <= 1_000_000_000 by {
        if n == 0 {
        } else if n == 1 {
        } else if n == 2 {
        } else if n == 3 {
        } else if n == 4 {
        } else if n == 5 {
        } else if n == 6 {
        } else if n == 7 {
        } else if n == 8 {
        } else {
        }
    }
    assert forall|n: nat| n <= 6 implies #[trigger] power(27, n) <= 387_420_489 by {
        if n == 0 {
        } else if n == 1 {
        } else if n == 2 {
        } else if n == 3 {
        } else if n == 4 {
        } else if n == 5 {
        } else {
        }
    }
}

fn read_row(v: &[u8]) -> (r: u64)
    requires
        v@.len() <= 9,
        forall|i: int| 0 <= i < v@.len() ==> is_digit_byte(#[trigger] v@[i]),
    ensures
        r == row_number(v@),
{
    let mut n: u64 = 0;
    let mut i: usize = 0;
    proof {
        powers_are_small();
    }
    while i < v.len()
        invariant
            i <= v@.len() <= 9,
            forall|k: int| 0 <= k < v@.len() ==> is_digit_byte(#[trigger] v@[k]),
            n == row_number(v@.take(i as int)),
            n < power(10, i as nat),
            forall|n: nat| n <= 9 ==> #[trigger] power(10, n) <= 1_000_000_000,
        decreases v@.len() - i,
    {
        assert(v@.take(i + 1).drop_last() =~= v@.take(i as int));
        assert(v@.take(i + 1).last() == v@[i as int]);
        assert(power(10, (i + 1) as nat) == power(10, i as nat) * 10);
        assert(power(10, i as nat) <= 1_000_000_000);
        assert(is_digit_byte(v@[i as int]));
        n = n * 10 + (v[i] - 0x30) as u64;
        i += 1;
    }
    assert(v@.take(i as int) =~= v@);
    n
}

fn read_column(v: &[u8]) -> (r: u64)
    requires
        v@.len() <= 6,
        forall|i: int| 0 <= i < v@.len() ==> is_letter_byte(#[trigger] v@[i]),
    ensures
        r == column_number(v@),
{
    let mut n: u64 = 0;
    let mut i: usize = 0;
    proof {
        powers_are_small();
    }
    while i < v.len()
        invariant
            i <= v@.len() <= 6,
            forall|k: int| 0 <= k < v@.len() ==> is_letter_byte(#[trigger] v@[k]),
            n == column_number(v@.take(i as int)),
            n < power(27, i as nat),
            forall|n: nat| n <= 6 ==> #[trigger] power(27, n) <= 387_420_489,
        decreases v@.len() - i,
    {
        assert(v@.take(i + 1).drop_last() =~= v@.take(i as int));
        assert(v@.take(i + 1).last() == v@[i as int]);
        assert(power(27, (i + 1) as nat) == power(27, i as nat) * 27);
        assert(power(27, i as nat) <= 387_420_489);
        assert(is_letter_byte(v@[i as int]));
        let c: u8 = v[i];
        let place: u64 = if c >= 0x61 {
            (c - 0x60) as u64
        } else {
            (c - 0x40) as u64
        };
        n = n * 26 + place;
        i += 1;
    }
    assert(v@.take(i as int) =~= v@);
    n
}

fn short_name(v: &[u8]) -> (r: bool)
    ensures
        r == is_short_name(v@),
{
    let digits: usize = count_digits(v);
    if digits == 0 {
        return true;
    }
    if digits > 9 {
        return false;
    }
    let column = slice_subrange(v, 0, v.len() - digits);
    assert(column@ =~= column_part(v@));
    count_letters(column) <= 6
}

/// The row and the column of a short cell name.
fn read_name(v: &[u8]) -> (r: Option<(u64, u64)>)
    requires
        is_short_name(v@),
    ensures
        match r {
            Some((row, column)) => is_cell_name(v@) && row == row_number(row_part(v@)) && column
                == column_number(column_part(v@)),
            None => !is_cell_name(v@),
        },
{
    let digits: usize = count_digits(v);
    if digits == 0 {
        return None;
    }
    let column = slice_subrange(v, 0, v.len() - digits);
    let row = slice_subrange(v, v.len() - digits, v.len());
    proof {
        assert(column@ =~= column_part(v@));
        assert(row@ =~= row_part(v@));
        digits_stand_there(v@);
        letters_stand_there(column@);
    }
    let letters: usize = count_letters(column);
    if letters == 0 || letters != column.len() {
        return None;
    }
    let row_number: u64 = read_row(row);
    if row_number == 0 {
        return None;
    }
    Some((row_number, read_column(column)))
}

fn short_names(v: &[u8]) -> (r: bool)
    ensures
        r == names_are_short(v@),
{
    let mut rest = v;
    loop
        invariant
            names_are_short(v@) == names_are_short(rest@),
        decreases rest@.len(),
    {
        let colon: usize = find_byte(rest, 0x3a, 0, rest.len());
        if colon >= rest.len() {
            return short_name(rest);
        }
        let first = slice_subrange(rest, 0, colon);
        assert(first@ =~= rest@.take(colon as int));
        if !short_name(first) {
            return false;
        }
        let next = slice_subrange(rest, colon + 1, rest.len());
        assert(next@ =~= rest@.skip(colon + 1));
        rest = next;
    }
}

proof fn pieces_are_short(v: Seq<u8>)
    requires
        names_are_short(v),
    ensures
        ({
            let colon = place_of_byte(v, 0x3a, 0, v.len() as int);
            colon < v.len() ==> is_short_name(v.take(colon)) && names_are_short(v.skip(colon + 1))
        }),
{
    byte_is_found(v, 0x3a, 0, v.len() as int);
}

fn plain_range(v: &[u8]) -> (r: bool)
    ensures
        r == is_plain_range(v@),
{
    if !short_names(v) {
        return false;
    }
    let colon: usize = find_byte(v, 0x3a, 0, v.len());
    if colon >= v.len() {
        return true;
    }
    let first = slice_subrange(v, 0, colon);
    let second = slice_subrange(v, colon + 1, v.len());
    proof {
        assert(first@ =~= v@.take(colon as int));
        assert(second@ =~= v@.skip(colon + 1));
        pieces_are_short(v@);
    }
    if !short_name(second) {
        proof {
            not_a_cell(second@);
        }
        return true;
    }
    match (read_name(first), read_name(second)) {
        (Some((top, left)), Some((bottom, right))) => top <= bottom && left <= right,
        _ => true,
    }
}

/// A text with a colon names no cell; nor does one whose last name is not short,
/// where all names are.
proof fn not_a_cell(v: Seq<u8>)
    requires
        names_are_short(v),
        !is_short_name(v),
    ensures
        !is_cell_name(v),
{
    let colon = place_of_byte(v, 0x3a, 0, v.len() as int);
    byte_is_found(v, 0x3a, 0, v.len() as int);
    colon_is_there(v, 0, v.len() as int);
    assert(v[colon] == 0x3a);
    if is_cell_name(v) {
        digits_stand_there(v);
        letters_stand_there(column_part(v));
        if colon >= v.len() - digit_run(v) {
            assert(is_digit_byte(v[colon]));
        } else {
            assert(column_part(v)[colon] == v[colon]);
            assert(is_letter_byte(column_part(v)[colon]));
        }
    }
}

proof fn colon_is_there(v: Seq<u8>, i: int, end: int)
    requires
        0 <= i <= end <= v.len(),
    ensures
        place_of_byte(v, 0x3a, i, end) < end ==> v[place_of_byte(v, 0x3a, i, end)] == 0x3a,
    decreases end - i,
{
    if i < end && v[i] != 0x3a {
        colon_is_there(v, i + 1, end);
    }
}

fn few_brackets(v: &[u8]) -> (r: bool)
    ensures
        r == (brackets(v@) <= 255),
{
    let mut n: usize = 0;
    let mut i: usize = 0;
    while i < v.len()
        invariant
            n <= i <= v@.len(),
            n == brackets(v@.take(i as int)),
        decreases v@.len() - i,
    {
        assert(v@.take(i + 1).drop_last() =~= v@.take(i as int));
        assert(v@.take(i + 1).last() == v@[i as int]);
        if v[i] == 0x5b {
            n += 1;
        }
        i += 1;
    }
    assert(v@.take(i as int) =~= v@);
    n <= 255
}

fn plain_value(attribute: Attribute, v: &[u8]) -> (r: bool)
    ensures
        r == is_plain_value(attribute, v@),
{
    match attribute {
        Attribute::CellName => short_name(v),
        Attribute::Range => plain_range(v),
        Attribute::FormatCode => few_brackets(v),
    }
}

/// The words that matter in a part.
struct Words {
    cell: Vec<u8>,
    row: Vec<u8>,
    dimension: Vec<u8>,
    format: Vec<u8>,
    name: Vec<u8>,
    range: Vec<u8>,
    code: Vec<u8>,
}

impl Words {
    spec fn wf(self) -> bool {
        &&& self.cell@ == cell_word()
        &&& self.row@ == row_word()
        &&& self.dimension@ == dimension_word()
        &&& self.format@ == format_word()
        &&& self.name@ == name_key()
        &&& self.range@ == range_key()
        &&& self.code@ == code_key()
    }

    fn new() -> (r: Self)
        ensures
            r.wf(),
    {
        let r = Words {
            cell: vec![0x63],
            row: vec![0x72, 0x6f, 0x77],
            dimension: vec![0x64, 0x69, 0x6d, 0x65, 0x6e, 0x73, 0x69, 0x6f, 0x6e],
            format: vec![0x6e, 0x75, 0x6d, 0x46, 0x6d, 0x74],
            name: vec![0x72],
            range: vec![0x72, 0x65, 0x66],
            code: vec![0x66, 0x6f, 0x72, 0x6d, 0x61, 0x74, 0x43, 0x6f, 0x64, 0x65],
        };
        assert(r.cell@ =~= cell_word());
        assert(r.row@ =~= row_word());
        assert(r.dimension@ =~= dimension_word());
        assert(r.format@ =~= format_word());
        assert(r.name@ =~= name_key());
        assert(r.range@ =~= range_key());
        assert(r.code@ =~= code_key());
        r
    }

    fn attribute(&self, b: &[u8], from: usize, to: usize) -> (r: Option<Attribute>)
        requires
            self.wf(),
            from <= to <= b@.len(),
        ensures
            r == counted_attribute(b@.subrange(from as int, to as int)),
    {
        if named(b, from, to, &self.cell) || named(b, from, to, &self.row) {
            Some(Attribute::CellName)
        } else if named(b, from, to, &self.dimension) {
            Some(Attribute::Range)
        } else if named(b, from, to, &self.format) {
            Some(Attribute::FormatCode)
        } else {
            None
        }
    }

    fn tag_plain(&self, b: &[u8], i: usize) -> (r: bool)
        requires
            self.wf(),
            i < b@.len(),
        ensures
            r == tag_is_plain(b@, i as int),
    {
        if b[i] != 0x3c {
            return true;
        }
        let start: usize = i + 1;
        let end: usize = find_tag_end(b, start);
        if end >= b.len() {
            return true;
        }
        let mut stop: usize = find_word_end(b, start, end);
        if stop == end && start < stop && b[stop - 1] == 0x2f {
            stop = stop - 1;
        }
        let attribute = match self.attribute(b, start, stop) {
            Some(attribute) => attribute,
            None => {
                return true;
            },
        };
        let key = match attribute {
            Attribute::CellName => &self.name,
            Attribute::Range => &self.range,
            Attribute::FormatCode => &self.code,
        };
        assert(b@.subrange(start as int, stop as int) == tag_name(b@, start as int, end as int));
        let mut j: usize = start + 1;
        while j < end
            invariant
                start == i + 1,
                b@[i as int] == 0x3c,
                counted_attribute(tag_name(b@, start as int, end as int)) == Some(attribute),
                start < j,
                end < b@.len(),
                end == tag_end(b@, start as int, 0),
                key@ == key_of(attribute),
                forall|k: int| start < k < j && k < end ==> #[trigger] place_is_plain(
                    b@,
                    attribute,
                    k,
                    end as int,
                ),
            decreases end - j,
        {
            if let Some(v) = find_value(b, key, j, end) {
                if !plain_value(attribute, v) {
                    assert(!place_is_plain(b@, attribute, j as int, end as int));
                    return false;
                }
            }
            assert(place_is_plain(b@, attribute, j as int, end as int));
            j += 1;
        }
        true
    }

    fn part_plain(&self, b: &Vec<u8>) -> (r: bool)
        requires
            self.wf(),
        ensures
            r == part_is_plain(b@),
    {
        if b.len() > MAX_PART {
            return false;
        }
        let bytes: &[u8] = b.as_slice();
        let mut i: usize = 0;
        while i < bytes.len()
            invariant
                i <= bytes@.len(),
                bytes@ == b@,
                self.wf(),
                forall|k: int| 0 <= k < i ==> #[trigger] tag_is_plain(b@, k),
            decreases bytes@.len() - i,
        {
            if !self.tag_plain(bytes, i) {
                return false;
            }
            i += 1;
        }
        true
    }
}

/// Whether the workbook reader can count its way through a package.
pub fn package_is_plain(bytes: &[u8]) -> (r: bool)
    ensures
        r == is_plain_package(bytes@),
{
    if !entries_plain(bytes) {
        return false;
    }
    let parts = package_parts(bytes);
    let ghost content = package_content(bytes@);
    assert(parts.deep_view() == content);
    assert(parts@.len() == content.len());
    let words = Words::new();
    let mut i: usize = 0;
    while i < parts.len()
        invariant
            i <= parts@.len() == content.len(),
            content == package_content(bytes@),
            parts.deep_view() == content,
            words.wf(),
            forall|k: int| 0 <= k < i ==> part_is_plain(#[trigger] content[k]),
        decreases parts@.len() - i,
    {
        assert(content[i as int] == parts@[i as int].deep_view());
        assert(parts@[i as int].deep_view() =~= parts@[i as int]@);
        if !words.part_plain(&parts[i]) {
            assert(!part_is_plain(package_content(bytes@)[i as int]));
            return false;
        }
        i += 1;
    }
    true
}

} // verus!
