//! Matches by part.

use vstd::prelude::*;
use vstd::string::*;
use vstd::utf8::is_ascii_chars;

use super::nexar::client::{empty_result, no_match, AvailabilityStatus, MatchInput, MatchInputView, MatchResult, MatchResultView};
use crate::text::case::{ascii_lower, ascii_upper, lowercase, to_lowercase, to_uppercase, uppercase};
use crate::text::{same, trim, trimmed};

verus! {

/// The manufacturer of a part, trimmed; empty where there is none.
pub open spec fn manufacturer_text(input: MatchInputView) -> Seq<char> {
    trimmed(
        match input.manufacturer {
            Some(m) => m,
            None => ""@,
        },
    )
}

/// The key of a part: its number in upper case and its manufacturer in lower
/// case, both trimmed.
pub open spec fn key_view(input: MatchInputView) -> (Seq<char>, Seq<char>) {
    (uppercase(trimmed(input.mpn)), lowercase(manufacturer_text(input)))
}

/// The key of a part.
pub fn cache_key(input: &MatchInput) -> (r: (String, String))
    ensures
        r.deep_view() == key_view(input@),
        is_ascii_chars(trimmed(input@.mpn)) ==> r.0@ == ascii_upper(trimmed(input@.mpn)),
        is_ascii_chars(manufacturer_text(input@)) ==> r.1@ == ascii_lower(manufacturer_text(input@)),
{
    let manufacturer = match &input.manufacturer {
        Some(m) => to_lowercase(trim(m.as_str()).as_str()),
        None => to_lowercase(trim("").as_str()),
    };
    (to_uppercase(trim(input.mpn.as_str()).as_str()), manufacturer)
}

/// The keys of parts, in order.
pub fn line_keys(lines: &[MatchInput]) -> (r: Vec<(String, String)>)
    ensures
        r.deep_view() == lines@.map_values(|l: MatchInput| key_view(l@)),
{
    let mut out: Vec<(String, String)> = Vec::new();
    let mut i: usize = 0;
    while i < lines.len()
        invariant
            i <= lines@.len(),
            out@.len() == i,
            forall|j: int| 0 <= j < i ==> (#[trigger] out@[j]).deep_view() == key_view(lines@[j]@),
        decreases lines@.len() - i,
    {
        out.push(cache_key(&lines[i]));
        i += 1;
    }
    assert(out.deep_view() =~= lines@.map_values(|l: MatchInput| key_view(l@)));
    out
}

/// Each key once, in the order in which they first occur.
pub open spec fn first_occurrences(keys: Seq<(Seq<char>, Seq<char>)>) -> Seq<(Seq<char>, Seq<char>)>
    decreases keys.len(),
{
    if keys.len() == 0 {
        Seq::empty()
    } else {
        let before = first_occurrences(keys.drop_last());
        if keys.drop_last().contains(keys.last()) {
            before
        } else {
            before.push(keys.last())
        }
    }
}

/// No key occurs twice among the first occurrences, and none is missing.
pub proof fn first_occurrences_are_unique(keys: Seq<(Seq<char>, Seq<char>)>)
    ensures
        first_occurrences(keys).no_duplicates(),
        forall|k: (Seq<char>, Seq<char>)| #[trigger] first_occurrences(keys).contains(k) <==> keys.contains(k),
    decreases keys.len(),
{
    if keys.len() > 0 {
        let rest = keys.drop_last();
        let last = keys.last();
        let before = first_occurrences(rest);
        first_occurrences_are_unique(rest);
        assert forall|k: (Seq<char>, Seq<char>)| #[trigger] first_occurrences(keys).contains(k) <==> keys.contains(k) by {
            if keys.contains(k) {
                let i = choose|i: int| 0 <= i < keys.len() && keys[i] == k;
                if i < rest.len() {
                    assert(rest[i] == k);
                    assert(before.contains(k));
                    let j = choose|j: int| 0 <= j < before.len() && before[j] == k;
                    assert(first_occurrences(keys)[j] == k);
                } else if rest.contains(last) {
                    assert(before.contains(k));
                } else {
                    assert(first_occurrences(keys)[before.len() as int] == k);
                }
            }
            if first_occurrences(keys).contains(k) {
                let j = choose|j: int| 0 <= j < first_occurrences(keys).len() && first_occurrences(keys)[j] == k;
                if j < before.len() {
                    assert(before[j] == k);
                    assert(before.contains(k));
                    let i = choose|i: int| 0 <= i < rest.len() && rest[i] == k;
                    assert(keys[i] == k);
                } else {
                    assert(keys[keys.len() - 1] == k);
                }
            }
        }
        if !rest.contains(last) {
            assert(!before.contains(last));
        }
    } else {
        assert(first_occurrences(keys) =~= keys);
    }
}

fn same_key(a: &(String, String), b: &(String, String)) -> (r: bool)
    ensures
        r == (a.deep_view() == b.deep_view()),
{
    same(a.0.as_str(), b.0.as_str()) && same(a.1.as_str(), b.1.as_str())
}

/// Each key once, in the order in which they first occur.
pub fn unique_keys(keys: &[(String, String)]) -> (r: Vec<(String, String)>)
    ensures
        r.deep_view() == first_occurrences(keys.deep_view()),
{
    let ghost all = keys.deep_view();
    let mut out: Vec<(String, String)> = Vec::new();
    let mut i: usize = 0;
    assert(out.deep_view() =~= first_occurrences(all.take(0)));
    while i < keys.len()
        invariant
            i <= keys@.len(),
            all == keys.deep_view(),
            out.deep_view() == first_occurrences(all.take(i as int)),
        decreases keys@.len() - i,
    {
        let key = &keys[i];
        let ghost kv = key.deep_view();
        let ghost before = out.deep_view();
        proof {
            assert(all.take(i + 1).drop_last() =~= all.take(i as int));
            assert(all.take(i + 1).last() == kv);
            first_occurrences_are_unique(all.take(i as int));
        }
        let mut seen = false;
        let mut k: usize = 0;
        while k < out.len() && !seen
            invariant
                k <= out@.len(),
                kv == key.deep_view(),
                before == out.deep_view(),
                seen ==> before.contains(kv),
                !seen ==> forall|j: int| 0 <= j < k ==> before[j] != kv,
            decreases out@.len() - k + if seen { 0int } else { 1int },
        {
            if same_key(&out[k], key) {
                assert(before[k as int] == kv);
                seen = true;
            } else {
                k += 1;
            }
        }
        if !seen {
            assert(!before.contains(kv));
            out.push((key.0.clone(), key.1.clone()));
            assert(out.deep_view() =~= before.push(kv));
        }
        i += 1;
    }
    assert(all.take(i as int) =~= all);
    out
}

/// A match kept under the key of its part.
#[derive(Debug)]
pub struct KeyedResult {
    pub key: (String, String),
    pub result: MatchResult,
}

/// The match kept under a key; the first where there are several.
pub open spec fn kept(results: Seq<KeyedResult>, key: (Seq<char>, Seq<char>)) -> Option<MatchResultView>
    decreases results.len(),
{
    if results.len() == 0 {
        None
    } else if results[0].key.deep_view() == key {
        Some(results[0].result@)
    } else {
        kept(results.drop_first(), key)
    }
}

/// The match for the part at a position: the kept one, or no match.
pub open spec fn fanned(
    results: Seq<KeyedResult>,
    key: (Seq<char>, Seq<char>),
    i: usize,
) -> MatchResultView {
    match kept(results, key) {
        Some(m) => MatchResultView { input_index: i, ..m },
        None => no_match(i),
    }
}

fn find_kept(results: &[KeyedResult], key: &(String, String)) -> (r: Option<usize>)
    ensures
        match kept(results@, key.deep_view()) {
            Some(m) => r is Some && r->0 < results@.len() && results@[r->0 as int].result@ == m,
            None => r is None,
        },
{
    let mut i: usize = 0;
    assert(results@.skip(0) =~= results@);
    while i < results.len()
        invariant
            i <= results@.len(),
            kept(results@, key.deep_view()) == kept(results@.skip(i as int), key.deep_view()),
        decreases results@.len() - i,
    {
        assert(results@.skip(i as int)[0] == results@[i as int]);
        if same_key(&results[i].key, key) {
            return Some(i);
        }
        assert(results@.skip(i as int).drop_first() =~= results@.skip(i as int + 1));
        i += 1;
    }
    None
}

/// A match for every part, in order.
pub fn fan_out(keys: &[(String, String)], results_by_key: &[KeyedResult]) -> (r: Vec<MatchResult>)
    ensures
        r@.len() == keys@.len(),
        forall|i: int|
            0 <= i < r@.len() ==> (#[trigger] r@[i])@ == fanned(
                results_by_key@,
                keys@[i].deep_view(),
                i as usize,
            ),
{
    let mut out: Vec<MatchResult> = Vec::new();
    let mut i: usize = 0;
    while i < keys.len()
        invariant
            i <= keys@.len(),
            out@.len() == i,
            forall|j: int|
                0 <= j < i ==> (#[trigger] out@[j])@ == fanned(
                    results_by_key@,
                    keys@[j].deep_view(),
                    j as usize,
                ),
        decreases keys@.len() - i,
    {
        let result = match find_kept(results_by_key, &keys[i]) {
            Some(k) => {
                let mut result = results_by_key[k].result.clone();
                result.input_index = i;
                result
            },
            None => empty_result(i),
        };
        out.push(result);
        i += 1;
    }
    out
}

/// Parts with the same key get the same match, but for their position.
pub proof fn same_key_same_match(
    results: Seq<KeyedResult>,
    a: MatchInputView,
    b: MatchInputView,
    i: usize,
    j: usize,
)
    requires
        key_view(a) == key_view(b),
    ensures
        (MatchResultView { input_index: 0, ..fanned(results, key_view(a), i) }) == (MatchResultView {
            input_index: 0,
            ..fanned(results, key_view(b), j)
        }),
{
}

/// Whether a match is kept: failures of the provider pass and are not.
pub fn is_cacheable(result: &MatchResult) -> (r: bool)
    ensures
        r == (result@.availability_status != AvailabilityStatus::Error),
{
    result.availability_status != AvailabilityStatus::Error
}

/// A match as it is kept: without its position, its origin and its error.
pub open spec fn stored(result: MatchResultView) -> MatchResultView {
    MatchResultView { input_index: 0, cached: false, error_detail: None, ..result }
}

/// A match as it is kept.
pub fn stored_form(result: &MatchResult) -> (r: MatchResult)
    ensures
        r@ == stored(result@),
{
    let mut stored = result.clone();
    stored.input_index = 0;
    stored.cached = false;
    stored.error_detail = None;
    stored
}

/// The matches that are kept, in order, under their keys.
pub open spec fn rows_to_keep(results: Seq<(MatchInput, MatchResult)>) -> Seq<
    ((Seq<char>, Seq<char>), MatchResultView),
>
    decreases results.len(),
{
    if results.len() == 0 {
        Seq::empty()
    } else {
        let before = rows_to_keep(results.drop_last());
        let (input, result) = results.last();
        if result@.availability_status == AvailabilityStatus::Error {
            before
        } else {
            before.push((key_view(input@), stored(result@)))
        }
    }
}

/// The contents of rows.
pub open spec fn keyed_views(rows: Seq<KeyedResult>) -> Seq<((Seq<char>, Seq<char>), MatchResultView)> {
    rows.map_values(|r: KeyedResult| (r.key.deep_view(), r.result@))
}

/// The matches that are kept, in order, under their keys.
pub fn cache_rows(results: &Vec<(MatchInput, MatchResult)>) -> (r: Vec<KeyedResult>)
    ensures
        keyed_views(r@) == rows_to_keep(results@),
{
    let mut out: Vec<KeyedResult> = Vec::new();
    let mut i: usize = 0;
    assert(keyed_views(out@) =~= rows_to_keep(results@.take(0)));
    while i < results.len()
        invariant
            i <= results@.len(),
            keyed_views(out@) == rows_to_keep(results@.take(i as int)),
        decreases results@.len() - i,
    {
        let ghost before = out@;
        proof {
            assert(results@.take(i + 1).drop_last() =~= results@.take(i as int));
            assert(results@.take(i + 1).last() == results@[i as int]);
        }
        if is_cacheable(&results[i].1) {
            let row = KeyedResult {
                key: cache_key(&results[i].0),
                result: stored_form(&results[i].1),
            };
            let ghost rv = (row.key.deep_view(), row.result@);
            out.push(row);
            assert(keyed_views(out@) =~= keyed_views(before).push(rv));
        }
        i += 1;
    }
    assert(results@.take(i as int) =~= results@);
    out
}

/// A match that was kept and is given out again: none where it is a failure.
pub fn served_form(result: MatchResult) -> (r: Option<MatchResult>)
    ensures
        result@.availability_status == AvailabilityStatus::Error ==> r is None,
        result@.availability_status != AvailabilityStatus::Error ==> r is Some && r->0@ == (
        MatchResultView { cached: true, ..result@ }),
{
    if !is_cacheable(&result) {
        return None;
    }
    let mut result = result;
    result.cached = true;
    Some(result)
}

/// No failure is ever kept.
pub proof fn failures_are_not_kept(results: Seq<(MatchInput, MatchResult)>, i: int)
    requires
        0 <= i < rows_to_keep(results).len(),
    ensures
        rows_to_keep(results)[i].1.availability_status != AvailabilityStatus::Error,
        !rows_to_keep(results)[i].1.cached,
    decreases results.len(),
{
    let before = rows_to_keep(results.drop_last());
    if i < before.len() {
        failures_are_not_kept(results.drop_last(), i);
    }
}

/// A part has one key however it is spelled: its number in capitals and its maker in small
/// letters, both trimmed.
pub proof fn cache_keys_ignore_spelling(input: &MatchInput, r: (String, String))
    requires
        call_ensures(cache_key, (input,), r),
    ensures
        r.0@ == uppercase(trimmed(input@.mpn)),
        input@.manufacturer is Some ==> r.1@ == lowercase(trimmed(input@.manufacturer->0)),
        input@.manufacturer is Some && is_ascii_chars(trimmed(input@.manufacturer->0)) ==> r.1@ == ascii_lower(
            trimmed(input@.manufacturer->0),
        ),
        is_ascii_chars(trimmed(input@.mpn)) ==> r.0@ == ascii_upper(trimmed(input@.mpn)),
{
}

/// A match that is kept under a part's key is that part's match, at its own position; a
/// part without one has no match.
pub proof fn kept_matches_are_given_out(keys: &[(String, String)], results: &[KeyedResult], r: Vec<MatchResult>, i: usize, k: int)
    requires
        call_ensures(fan_out, (keys, results), r),
        0 <= i < keys@.len(),
    ensures
        r@.len() == keys@.len(),
        r@[i as int]@.input_index == i,
        0 <= k < results@.len() && results@[k].key.deep_view() == keys@[i as int].deep_view() && (forall|j: int|
            0 <= j < k ==> (#[trigger] results@[j]).key.deep_view() != keys@[i as int].deep_view()) ==> r@[i as int]@ == (
        MatchResultView { input_index: i, ..results@[k].result@ }),
        (forall|j: int| 0 <= j < results@.len() ==> (#[trigger] results@[j]).key.deep_view() != keys@[i as int].deep_view())
            ==> r@[i as int]@.availability_status == AvailabilityStatus::NoMatch && r@[i as int]@.total_avail == 0
            && r@[i as int]@.matched_mpn is None,
{
    first_kept(results@, keys@[i as int].deep_view(), k);
    assert(r@[i as int]@ == fanned(results@, keys@[i as int].deep_view(), i));
}

proof fn first_kept(results: Seq<KeyedResult>, key: (Seq<char>, Seq<char>), k: int)
    ensures
        0 <= k < results.len() && results[k].key.deep_view() == key && (forall|j: int|
            0 <= j < k ==> (#[trigger] results[j]).key.deep_view() != key) ==> kept(results, key) == Some(
            results[k].result@,
        ),
        (forall|j: int| 0 <= j < results.len() ==> (#[trigger] results[j]).key.deep_view() != key) ==> kept(
            results,
            key,
        ) is None,
    decreases results.len(),
{
    if results.len() > 0 && results[0].key.deep_view() != key {
        let rest = results.drop_first();
        first_kept(rest, key, k - 1);
        assert forall|j: int| 0 <= j < rest.len() implies #[trigger] rest[j] == results[j + 1] by {}
    }
}

/// What is kept of a match is all but where it stood, where it came from and what went
/// wrong; a failure is never kept and never given out.
pub proof fn matches_are_kept_whole(result: &MatchResult, r: bool, s: MatchResult, t: Option<MatchResult>)
    requires
        call_ensures(is_cacheable, (result,), r),
        call_ensures(stored_form, (result,), s),
        call_ensures(served_form, (s,), t),
    ensures
        result@.availability_status == AvailabilityStatus::Error ==> !r && t is None,
        result@.availability_status != AvailabilityStatus::Error ==> r && t is Some,
        s@.availability_status == result@.availability_status,
        s@.lifecycle_status == result@.lifecycle_status,
        s@.match_status == result@.match_status,
        s@.total_avail == result@.total_avail,
        s@.matched_mpn == result@.matched_mpn,
        s@.matched_manufacturer == result@.matched_manufacturer,
        s@.factory_lead_days == result@.factory_lead_days,
        s@.top_sellers == result@.top_sellers,
        s@.nexar_part_id == result@.nexar_part_id,
        s@.input_index == 0 && !s@.cached && s@.error_detail is None,
        t is Some ==> t->0@ == (MatchResultView { cached: true, ..s@ }),
{
}

/// Every match that is no failure is kept, under the key of its part, in order.
pub proof fn found_matches_are_kept(results: Seq<(MatchInput, MatchResult)>, input: MatchInput, result: MatchResult)
    ensures
        result@.availability_status == AvailabilityStatus::Error ==> rows_to_keep(results.push((input, result)))
            == rows_to_keep(results),
        result@.availability_status != AvailabilityStatus::Error ==> ({
            let rows = rows_to_keep(results.push((input, result)));
            &&& rows.len() == rows_to_keep(results).len() + 1
            &&& rows.last().0 == key_view(input@)
            &&& rows.last().1.total_avail == result@.total_avail
            &&& rows.last().1.lifecycle_status == result@.lifecycle_status
            &&& rows.last().1.availability_status == result@.availability_status
            &&& rows.last().1.matched_mpn == result@.matched_mpn
        }),
        rows_to_keep(Seq::empty()).len() == 0,
{
    assert(results.push((input, result)).drop_last() =~= results);
    assert(results.push((input, result)).last() == (input, result));
}

} // verus!
