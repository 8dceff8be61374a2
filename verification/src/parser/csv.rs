//! Reading separated values.

use vstd::prelude::*;
use vstd::slice::*;
use vstd::string::*;
use vstd::utf8::*;

use super::ingest::ParseError;
use super::synonyms::Grid;
use crate::text::owned;

verus! {

/// What is said of a file in an unknown encoding.
pub const UNSUPPORTED_ENCODING_MESSAGE: &'static str =
    "File encoding not supported. Please save your BOM as UTF-8 or Excel format.";

/// An error of the `csv` reader.
#[verifier::external_type_specification]
#[verifier::external_body]
pub struct ExCsvError(csv::Error);

/// What the `csv` reader finds in a text: its records, without a header row and
/// of any width; nothing where the text cannot be read.
pub uninterp spec fn csv_records(text: Seq<char>, delimiter: u8) -> Option<Grid>;

/// `csv::Reader` over a text, without headers and flexible in width: all records
/// with their fields. Quoting and line ends are not stated beyond the name. A text
/// is always read where the separator is ASCII: reading from memory does not fail,
/// widths are free, and what is left out between fields is ASCII, so every field of
/// a text is a text.
#[verifier::external_body]
fn read_records(text: &str, delimiter: u8) -> (r: Result<Vec<Vec<String>>, csv::Error>)
    ensures
        match csv_records(text@, delimiter) {
            Some(grid) => r is Ok && r->Ok_0.deep_view() == grid,
            None => r is Err,
        },
        delimiter < 0x80 ==> r is Ok,
{
    csv::ReaderBuilder::new()
        .has_headers(false)
        .flexible(true)
        .delimiter(delimiter)
        .from_reader(text.as_bytes())
        .into_records()
        .map(|record| record.map(|fields| fields.iter().map(str::to_string).collect()))
        .collect()
}

/// The message of `csv::Error`. Nothing is known of it.
#[verifier::external_body]
fn csv_error_text(error: &csv::Error) -> (r: String)
{
    error.to_string()
}

/// What `UTF_16LE.decode` makes of bytes: the text, and whether anything was
/// malformed.
pub uninterp spec fn utf16le_text(bytes: Seq<u8>) -> (Seq<char>, bool);

/// What `UTF_16BE.decode` makes of bytes: the text, and whether anything was
/// malformed.
pub uninterp spec fn utf16be_text(bytes: Seq<u8>) -> (Seq<char>, bool);

/// What `WINDOWS_1252.decode` makes of bytes: the text, and whether anything was
/// malformed.
pub uninterp spec fn windows1252_text(bytes: Seq<u8>) -> (Seq<char>, bool);

/// So few bytes that the size of their text can be counted.
pub open spec fn is_countable(bytes: Seq<u8>) -> bool {
    bytes.len() <= usize::MAX / 16
}

/// `encoding_rs::UTF_16LE.decode`. The text is not stated beyond the name.
#[verifier::external_body]
fn decode_utf16le(bytes: &[u8]) -> (r: (String, bool))
    requires
        is_countable(bytes@),
    ensures
        (r.0@, r.1) == utf16le_text(bytes@),
{
    let (text, _, malformed) = encoding_rs::UTF_16LE.decode(bytes);
    (text.into_owned(), malformed)
}

/// `encoding_rs::UTF_16BE.decode`. The text is not stated beyond the name.
#[verifier::external_body]
fn decode_utf16be(bytes: &[u8]) -> (r: (String, bool))
    requires
        is_countable(bytes@),
    ensures
        (r.0@, r.1) == utf16be_text(bytes@),
{
    let (text, _, malformed) = encoding_rs::UTF_16BE.decode(bytes);
    (text.into_owned(), malformed)
}

/// `encoding_rs::WINDOWS_1252.decode`. The text is not stated beyond the name.
#[verifier::external_body]
fn decode_windows1252(bytes: &[u8]) -> (r: (String, bool))
    requires
        is_countable(bytes@),
    ensures
        (r.0@, r.1) == windows1252_text(bytes@),
{
    let (text, _, malformed) = encoding_rs::WINDOWS_1252.decode(bytes);
    (text.into_owned(), malformed)
}

/// `std::str::from_utf8`: the text that the bytes encode, where they are UTF-8.
#[verifier::external_body]
fn from_utf8(bytes: &[u8]) -> (r: Option<String>)
    ensures
        r is Some <==> valid_utf8(bytes@),
        r is Some ==> encode_utf8(r->0@) == bytes@,
{
    std::str::from_utf8(bytes).ok().map(str::to_string)
}

/// The bytes begin with these two.
pub open spec fn begins_with2(bytes: Seq<u8>, a: u8, b: u8) -> bool {
    bytes.len() >= 2 && bytes[0] == a && bytes[1] == b
}

/// The bytes without the mark of UTF-8 at their beginning.
pub open spec fn without_utf8_mark(bytes: Seq<u8>) -> Seq<u8> {
    if bytes.len() >= 3 && bytes[0] == 0xef && bytes[1] == 0xbb && bytes[2] == 0xbf {
        bytes.skip(3)
    } else {
        bytes
    }
}

/// A text, unless anything of it was malformed.
pub open spec fn well_formed(text: (Seq<char>, bool)) -> Option<Seq<char>> {
    if text.1 {
        None
    } else {
        Some(text.0)
    }
}

/// The text of a file: by its mark in UTF-16, else in UTF-8, else in Windows-1252.
pub open spec fn file_text(bytes: Seq<u8>) -> Option<Seq<char>> {
    if begins_with2(bytes, 0xff, 0xfe) {
        well_formed(utf16le_text(bytes.skip(2)))
    } else if begins_with2(bytes, 0xfe, 0xff) {
        well_formed(utf16be_text(bytes.skip(2)))
    } else if valid_utf8(without_utf8_mark(bytes)) {
        Some(decode_utf8(without_utf8_mark(bytes)))
    } else {
        well_formed(windows1252_text(without_utf8_mark(bytes)))
    }
}

/// A decoded text, or the error where anything of it was malformed.
pub fn accept_text(decoded: (String, bool)) -> (r: Result<String, ParseError>)
    ensures
        decoded.1 ==> r is Err && r->Err_0 is EncodingError && r->Err_0->EncodingError_0@
            == UNSUPPORTED_ENCODING_MESSAGE@,
        !decoded.1 ==> r is Ok && r->Ok_0@ == decoded.0@,
{
    if decoded.1 {
        return Err(ParseError::EncodingError(owned(UNSUPPORTED_ENCODING_MESSAGE)));
    }
    Ok(decoded.0)
}

/// The bytes without the mark of UTF-8 at their beginning.
pub fn strip_utf8_bom(bytes: &[u8]) -> (r: &[u8])
    ensures
        r@ == without_utf8_mark(bytes@),
{
    if bytes.len() >= 3 && bytes[0] == 0xef && bytes[1] == 0xbb && bytes[2] == 0xbf {
        let rest = slice_subrange(bytes, 3, bytes.len());
        assert(rest@ =~= bytes@.skip(3));
        rest
    } else {
        bytes
    }
}

/// The text of a file.
pub fn decode_csv_bytes(bytes: &[u8]) -> (r: Result<String, ParseError>)
    requires
        is_countable(bytes@),
    ensures
        match file_text(bytes@) {
            Some(text) => r is Ok && r->Ok_0@ == text,
            None => r is Err && r->Err_0 is EncodingError && r->Err_0->EncodingError_0@
                == UNSUPPORTED_ENCODING_MESSAGE@,
        },
{
    if bytes.len() >= 2 && bytes[0] == 0xff && bytes[1] == 0xfe {
        let rest = slice_subrange(bytes, 2, bytes.len());
        assert(rest@ =~= bytes@.skip(2));
        return accept_text(decode_utf16le(rest));
    }
    if bytes.len() >= 2 && bytes[0] == 0xfe && bytes[1] == 0xff {
        let rest = slice_subrange(bytes, 2, bytes.len());
        assert(rest@ =~= bytes@.skip(2));
        return accept_text(decode_utf16be(rest));
    }
    let utf8_bytes = strip_utf8_bom(bytes);
    if let Some(text) = from_utf8(utf8_bytes) {
        proof {
            encode_utf8_decode_utf8(text@);
        }
        return Ok(text);
    }
    accept_text(decode_windows1252(utf8_bytes))
}

/// How many of the bytes of the first line are `b`.
pub open spec fn count_in_first_line(bytes: Seq<u8>, b: u8) -> nat
    decreases bytes.len(),
{
    if bytes.len() == 0 || bytes[0] == 0x0a || bytes[0] == 0x0d {
        0
    } else {
        count_in_first_line(bytes.drop_first(), b) + if bytes[0] == b {
            1nat
        } else {
            0nat
        }
    }
}

/// What separates values: semicolons or tabs where the first line has more of
/// them than of the others, else commas.
pub open spec fn delimiter_of(bytes: Seq<u8>) -> u8 {
    let commas = count_in_first_line(bytes, 0x2c);
    let semicolons = count_in_first_line(bytes, 0x3b);
    let tabs = count_in_first_line(bytes, 0x09);
    if semicolons > commas && semicolons >= tabs {
        0x3b
    } else if tabs > commas && tabs > semicolons {
        0x09
    } else {
        0x2c
    }
}

fn count_byte(bytes: &[u8], b: u8) -> (r: usize)
    ensures
        r == count_in_first_line(bytes@, b),
{
    let mut n: usize = 0;
    let mut i: usize = 0;
    assert(bytes@.skip(0) =~= bytes@);
    while i < bytes.len() && bytes[i] != 0x0a && bytes[i] != 0x0d
        invariant
            i <= bytes@.len(),
            n <= i,
            count_in_first_line(bytes@, b) == n + count_in_first_line(bytes@.skip(i as int), b),
        decreases bytes@.len() - i,
    {
        assert(bytes@.skip(i as int)[0] == bytes@[i as int]);
        assert(bytes@.skip(i as int).drop_first() =~= bytes@.skip(i as int + 1));
        if bytes[i] == b {
            n += 1;
        }
        i += 1;
    }
    n
}

/// What separates values.
pub fn sniff_delimiter(bytes: &[u8]) -> (r: u8)
    ensures
        r == delimiter_of(bytes@),
{
    let commas: usize = count_byte(bytes, 0x2c);
    let semicolons: usize = count_byte(bytes, 0x3b);
    let tabs: usize = count_byte(bytes, 0x09);
    if semicolons > commas && semicolons >= tabs {
        0x3b
    } else if tabs > commas && tabs > semicolons {
        0x09
    } else {
        0x2c
    }
}

/// The records of a file.
pub open spec fn file_records(bytes: Seq<u8>) -> Option<Grid> {
    match file_text(bytes) {
        Some(text) => csv_records(text, delimiter_of(encode_utf8(text))),
        None => None,
    }
}

/// Reads separated values: finds the encoding and the separator, and splits the
/// text into records. Every file in a known encoding can be read.
pub fn read_csv(bytes: &[u8]) -> (r: Result<Vec<Vec<String>>, ParseError>)
    requires
        is_countable(bytes@),
    ensures
        match file_records(bytes@) {
            Some(grid) => r is Ok && r->Ok_0.deep_view() == grid,
            None => r is Err && r->Err_0 is EncodingError && r->Err_0->EncodingError_0@
                == UNSUPPORTED_ENCODING_MESSAGE@,
        },
        r is Ok <==> file_text(bytes@) is Some,
{
    let text = match decode_csv_bytes(bytes) {
        Ok(text) => text,
        Err(error) => {
            return Err(error);
        },
    };
    let delimiter: u8 = sniff_delimiter(text.as_str().as_bytes());
    match read_records(text.as_str(), delimiter) {
        Ok(grid) => Ok(grid),
        Err(error) => Err(ParseError::Csv(csv_error_text(&error))),
    }
}

/// Only the first line counts: what follows its end does not, and each byte of it counts
/// for itself.
pub proof fn first_line_decides(line: Seq<u8>, end: u8, rest: Seq<u8>, b: u8)
    requires
        end == 0x0a || end == 0x0d,
        b != 0x0a && b != 0x0d,
    ensures
        count_in_first_line(line + seq![end] + rest, b) == count_in_first_line(line, b),
        count_in_first_line(Seq::empty(), b) == 0,
        count_in_first_line(seq![b] + line, b) == count_in_first_line(line, b) + 1,
        forall|c: u8|
            c != b && c != 0x0a && c != 0x0d ==> count_in_first_line(#[trigger] (seq![c] + line), b)
                == count_in_first_line(line, b),
    decreases line.len(),
{
    let all = line + seq![end] + rest;
    if line.len() == 0 {
        assert(all[0] == end);
    } else {
        first_line_decides(line.drop_first(), end, rest, b);
        assert(all[0] == line[0]);
        assert(all.drop_first() =~= line.drop_first() + seq![end] + rest);
    }
    assert((seq![b] + line).drop_first() =~= line);
    assert forall|c: u8| c != b && c != 0x0a && c != 0x0d implies count_in_first_line(#[trigger] (seq![c] + line), b)
        == count_in_first_line(line, b) by {
        assert((seq![c] + line).drop_first() =~= line);
        assert((seq![c] + line)[0] == c);
    }
}

/// Values are separated by semicolons where the first line has more of them than commas
/// and no fewer than tabs, by tabs where it has most of those, and else by commas.
pub proof fn separators_are_the_most_frequent(bytes: &[u8], r: u8)
    requires
        call_ensures(sniff_delimiter, (bytes,), r),
    ensures
        ({
            let commas = count_in_first_line(bytes@, 0x2c);
            let semicolons = count_in_first_line(bytes@, 0x3b);
            let tabs = count_in_first_line(bytes@, 0x09);
            &&& r == 0x2c || r == 0x3b || r == 0x09
            &&& semicolons > commas && semicolons >= tabs ==> r == 0x3b
            &&& tabs > commas && tabs > semicolons ==> r == 0x09
            &&& commas >= semicolons && commas >= tabs ==> r == 0x2c
            &&& r == 0x3b ==> semicolons > commas
            &&& r == 0x09 ==> tabs > commas
        }),
{
}

/// A text in UTF-8 is read as that text, with or without the mark at its beginning.
pub proof fn utf8_files_are_read(text: Seq<char>, marked: Seq<u8>)
    requires
        marked == seq![0xefu8, 0xbb, 0xbf] + encode_utf8(text),
        encode_utf8(text).len() < 2 || !(encode_utf8(text)[0] == 0xff || encode_utf8(text)[0] == 0xfe || encode_utf8(
            text,
        )[0] == 0xef),
    ensures
        file_text(encode_utf8(text)) == Some(text),
        file_text(marked) == Some(text),
{
    let plain = encode_utf8(text);
    encode_utf8_valid_utf8(text);
    encode_utf8_decode_utf8(text);
    assert(marked.skip(3) =~= plain);
    assert(marked[0] == 0xef && marked[1] == 0xbb && marked[2] == 0xbf);
    assert(without_utf8_mark(plain) == plain);
    assert(without_utf8_mark(marked) == plain);
}

/// A file with the mark of UTF-16 is read in that order of bytes, one that is neither
/// marked nor UTF-8 in Windows-1252; and one that is malformed is refused.
pub proof fn marks_choose_the_encoding(bytes: &[u8], r: Result<String, ParseError>)
    requires
        is_countable(bytes@),
        call_ensures(decode_csv_bytes, (bytes,), r),
    ensures
        bytes@.len() >= 2 && bytes@[0] == 0xff && bytes@[1] == 0xfe ==> {
            let (text, bad) = utf16le_text(bytes@.skip(2));
            (bad ==> r is Err) && (!bad ==> r is Ok && r->Ok_0@ == text)
        },
        bytes@.len() >= 2 && bytes@[0] == 0xfe && bytes@[1] == 0xff ==> {
            let (text, bad) = utf16be_text(bytes@.skip(2));
            (bad ==> r is Err) && (!bad ==> r is Ok && r->Ok_0@ == text)
        },
        bytes@.len() > 0 && bytes@[0] != 0xff && bytes@[0] != 0xfe && bytes@[0] != 0xef && !valid_utf8(bytes@) ==> {
            let (text, bad) = windows1252_text(bytes@);
            (bad ==> r is Err) && (!bad ==> r is Ok && r->Ok_0@ == text)
        },
        r is Err ==> r->Err_0 is EncodingError,
{
}

/// A decoded text is taken where nothing of it was malformed.
pub proof fn malformed_texts_are_refused(decoded: (String, bool), r: Result<String, ParseError>)
    requires
        call_ensures(accept_text, (decoded,), r),
    ensures
        r is Ok <==> !decoded.1,
        r is Ok ==> r->Ok_0@ == decoded.0@,
        r is Err ==> r->Err_0 is EncodingError,
{
}

/// The mark of UTF-8 is taken off where it stands, and nothing else is.
pub proof fn marks_are_taken_off(bytes: &[u8], r: &[u8], rest: Seq<u8>)
    requires
        call_ensures(strip_utf8_bom, (bytes,), r),
    ensures
        bytes@ == seq![0xefu8, 0xbb, 0xbf] + rest ==> r@ == rest,
        bytes@.len() == 0 || bytes@[0] != 0xef ==> r@ == bytes@,
{
    if bytes@ == seq![0xefu8, 0xbb, 0xbf] + rest {
        assert(bytes@[0] == 0xef && bytes@[1] == 0xbb && bytes@[2] == 0xbf);
        assert(bytes@.skip(3) =~= rest);
    }
}

/// A file that is read is split by the separator that its first line shows.
pub proof fn files_are_split_by_their_separator(bytes: &[u8], r: Result<Vec<Vec<String>>, ParseError>)
    requires
        is_countable(bytes@),
        call_ensures(read_csv, (bytes,), r),
    ensures
        file_text(bytes@) is None ==> r is Err && r->Err_0 is EncodingError,
        file_text(bytes@) is Some ==> r is Ok && Some(r->Ok_0.deep_view()) == csv_records(
            file_text(bytes@)->0,
            delimiter_of(encode_utf8(file_text(bytes@)->0)),
        ),
{
}

} // verus!
