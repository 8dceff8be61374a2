//! How parts are stored.

use vstd::prelude::*;
use vstd::string::*;

use super::store::CURRENT_SK;
use super::types::{PartResult, PartResultView};
use crate::dynamo::{get_n, get_s, new_item, number_attr, put_n, put_opt, put_s, set_text, text_attr, viewed, AttrView, Item, ItemView};
use crate::model::enrichment::{
    availability_text, lifecycle_text, match_text, AvailabilityStatus, LifecycleStatus, MatchStatus,
};
use crate::text::number::{dec_int, i64_text, parse_i64, print_parse_i64, signed_value};
use crate::text::same;

verus! {

/// A match status by its name.
pub open spec fn match_of_text(raw: Option<Seq<char>>) -> MatchStatus {
    if raw == Some("Exact"@) {
        MatchStatus::Exact
    } else if raw == Some("Fuzzy"@) {
        MatchStatus::Fuzzy
    } else if raw == Some("Pending"@) {
        MatchStatus::Pending
    } else {
        MatchStatus::NoMatch
    }
}

/// An availability by its name.
pub open spec fn availability_of_text(raw: Option<Seq<char>>) -> AvailabilityStatus {
    if raw == Some("InStock"@) {
        AvailabilityStatus::InStock
    } else if raw == Some("OutOfStock"@) {
        AvailabilityStatus::OutOfStock
    } else if raw == Some("Error"@) {
        AvailabilityStatus::Error
    } else if raw == Some("Pending"@) {
        AvailabilityStatus::Pending
    } else {
        AvailabilityStatus::NoMatch
    }
}

/// A lifecycle status by its name.
pub open spec fn lifecycle_of_text(raw: Option<Seq<char>>) -> LifecycleStatus {
    if raw == Some("Active"@) {
        LifecycleStatus::Active
    } else if raw == Some("Eol"@) {
        LifecycleStatus::Eol
    } else if raw == Some("Nrnd"@) {
        LifecycleStatus::Nrnd
    } else if raw == Some("Discontinued"@) {
        LifecycleStatus::Discontinued
    } else {
        LifecycleStatus::Unknown
    }
}

fn is_name(raw: &Option<String>, name: &str) -> (r: bool)
    ensures
        r == (raw.deep_view() == Some(name@)),
{
    match raw {
        Some(t) => same(t.as_str(), name),
        None => false,
    }
}

/// A match status by its name.
pub fn parse_match(raw: &Option<String>) -> (r: MatchStatus)
    ensures
        r == match_of_text(raw.deep_view()),
{
    if is_name(raw, "Exact") {
        MatchStatus::Exact
    } else if is_name(raw, "Fuzzy") {
        MatchStatus::Fuzzy
    } else if is_name(raw, "Pending") {
        MatchStatus::Pending
    } else {
        MatchStatus::NoMatch
    }
}

/// An availability by its name.
pub fn parse_availability(raw: &Option<String>) -> (r: AvailabilityStatus)
    ensures
        r == availability_of_text(raw.deep_view()),
{
    if is_name(raw, "InStock") {
        AvailabilityStatus::InStock
    } else if is_name(raw, "OutOfStock") {
        AvailabilityStatus::OutOfStock
    } else if is_name(raw, "Error") {
        AvailabilityStatus::Error
    } else if is_name(raw, "Pending") {
        AvailabilityStatus::Pending
    } else {
        AvailabilityStatus::NoMatch
    }
}

/// A lifecycle status by its name.
pub fn parse_lifecycle(raw: &Option<String>) -> (r: LifecycleStatus)
    ensures
        r == lifecycle_of_text(raw.deep_view()),
{
    if is_name(raw, "Active") {
        LifecycleStatus::Active
    } else if is_name(raw, "Eol") {
        LifecycleStatus::Eol
    } else if is_name(raw, "Nrnd") {
        LifecycleStatus::Nrnd
    } else if is_name(raw, "Discontinued") {
        LifecycleStatus::Discontinued
    } else {
        LifecycleStatus::Unknown
    }
}

/// A number attribute, where it is an integer in range.
pub open spec fn int_attr(item: ItemView, key: Seq<char>) -> Option<int> {
    match number_attr(item, key) {
        Some(text) => signed_value(text, i64::MIN as int, i64::MAX as int),
        None => None,
    }
}

fn read_int(item: &Item, key: &str) -> (r: Option<i64>)
    requires
        item.wf(),
    ensures
        r is Some <==> int_attr(viewed(*item), key@) is Some,
        r is Some ==> int_attr(viewed(*item), key@) == Some(r->0 as int),
{
    match get_n(item, key) {
        Some(text) => parse_i64(text.as_str()),
        None => None,
    }
}

/// The low 32 bits of a number, with their sign.
pub open spec fn low_bits(n: int) -> i32 {
    ((n + 0x8000_0000) % 0x1_0000_0000 - 0x8000_0000) as i32
}

fn low_i32(n: i64) -> (r: i32)
    ensures
        r == low_bits(n as int),
{
    let shifted: i128 = n as i128 + 0x8000_0000 + 0x1_0000_0000_0000_0000;
    let low: i128 = shifted % 0x1_0000_0000;
    assert(low == (n + 0x8000_0000) % 0x1_0000_0000) by (nonlinear_arith)
        requires
            shifted == n + 0x8000_0000 + 0x1_0000_0000_0000_0000,
            low == shifted % 0x1_0000_0000,
    ;
    (low - 0x8000_0000) as i32
}

/// What a stored part says; nothing where it does not say when it was fetched.
pub open spec fn item_part(item: ItemView) -> Option<PartResultView> {
    match text_attr(item, "fetched_at"@) {
        None => None,
        Some(fetched_at) => if fetched_at.len() == 0 {
            None
        } else {
            Some(
                PartResultView {
                    provider_part_id: text_attr(item, "provider_part_id"@),
                    matched_mpn: text_attr(item, "matched_mpn"@),
                    matched_manufacturer: text_attr(item, "matched_manufacturer"@),
                    match_status: match_of_text(text_attr(item, "match_status"@)),
                    availability_status: availability_of_text(
                        text_attr(item, "availability_status"@),
                    ),
                    lifecycle_status: lifecycle_of_text(text_attr(item, "lifecycle_status"@)),
                    total_avail: match int_attr(item, "total_avail"@) {
                        Some(n) => n as i64,
                        None => 0,
                    },
                    factory_lead_days: match int_attr(item, "factory_lead_days"@) {
                        Some(n) => Some(low_bits(n)),
                        None => None,
                    },
                    hts_code: text_attr(item, "hts_code"@),
                    country_of_origin: text_attr(item, "country_of_origin"@),
                    category: text_attr(item, "category"@),
                    fetched_at,
                },
            )
        },
    }
}

/// The content of an optional part.
pub open spec fn part_view(part: Option<PartResult>) -> Option<PartResultView> {
    match part {
        Some(p) => Some(p@),
        None => None,
    }
}

/// What a stored part says.
pub fn item_to_result(item: &Item) -> (r: Option<PartResult>)
    requires
        item.wf(),
    ensures
        part_view(r) == item_part(viewed(*item)),
{
    let fetched_at = match get_s(item, "fetched_at") {
        Some(text) => text,
        None => {
            return None;
        },
    };
    if fetched_at.as_str().is_empty() {
        return None;
    }
    Some(
        PartResult {
            provider_part_id: get_s(item, "provider_part_id"),
            matched_mpn: get_s(item, "matched_mpn"),
            matched_manufacturer: get_s(item, "matched_manufacturer"),
            match_status: parse_match(&get_s(item, "match_status")),
            availability_status: parse_availability(&get_s(item, "availability_status")),
            lifecycle_status: parse_lifecycle(&get_s(item, "lifecycle_status")),
            total_avail: match read_int(item, "total_avail") {
                Some(n) => n,
                None => 0,
            },
            factory_lead_days: match read_int(item, "factory_lead_days") {
                Some(n) => Some(low_i32(n)),
                None => None,
            },
            hts_code: get_s(item, "hts_code"),
            country_of_origin: get_s(item, "country_of_origin"),
            category: get_s(item, "category"),
            fetched_at,
        },
    )
}

/// The text, unless it is empty.
pub open spec fn unless_empty(s: Option<Seq<char>>) -> Option<Seq<char>> {
    match s {
        Some(t) => if t.len() == 0 {
            None
        } else {
            Some(t)
        },
        None => None,
    }
}

/// A part as it is stored. Empty texts are left out.
pub open spec fn part_item(pk: Seq<char>, part: PartResultView) -> ItemView {
    let item = ItemView::empty().insert("pk"@, AttrView::S(pk)).insert(
        "sk"@,
        AttrView::S(CURRENT_SK@),
    ).insert("fetched_at"@, AttrView::S(part.fetched_at)).insert(
        "match_status"@,
        AttrView::S(match_text(part.match_status)),
    ).insert("availability_status"@, AttrView::S(availability_text(part.availability_status))).insert(
        "lifecycle_status"@,
        AttrView::S(lifecycle_text(part.lifecycle_status)),
    ).insert("total_avail"@, AttrView::N(dec_int(part.total_avail as int)));
    let item = set_text(item, "provider_part_id"@, unless_empty(part.provider_part_id));
    let item = set_text(item, "matched_mpn"@, unless_empty(part.matched_mpn));
    let item = set_text(item, "matched_manufacturer"@, unless_empty(part.matched_manufacturer));
    let item = set_text(item, "hts_code"@, unless_empty(part.hts_code));
    let item = set_text(item, "country_of_origin"@, unless_empty(part.country_of_origin));
    let item = set_text(item, "category"@, unless_empty(part.category));
    match part.factory_lead_days {
        Some(days) => item.insert("factory_lead_days"@, AttrView::N(dec_int(days as int))),
        None => item,
    }
}

fn filled(s: &Option<String>) -> (r: Option<&str>)
    ensures
        r.deep_view() == unless_empty(s.deep_view()),
{
    match s {
        Some(t) => if t.as_str().is_empty() {
            None
        } else {
            Some(t.as_str())
        },
        None => None,
    }
}

/// A part as it is stored.
pub fn result_to_item(pk: &str, result: &PartResult) -> (r: Item)
    ensures
        r.wf(),
        viewed(r) == part_item(pk@, result@),
{
    let mut item = new_item();
    put_s(&mut item, "pk", pk);
    put_s(&mut item, "sk", CURRENT_SK);
    put_s(&mut item, "fetched_at", result.fetched_at.as_str());
    put_s(&mut item, "match_status", result.match_status.as_str());
    put_s(&mut item, "availability_status", result.availability_status.as_str());
    put_s(&mut item, "lifecycle_status", result.lifecycle_status.as_str());
    put_n(&mut item, "total_avail", i64_text(result.total_avail).as_str());
    put_opt(&mut item, "provider_part_id", filled(&result.provider_part_id));
    put_opt(&mut item, "matched_mpn", filled(&result.matched_mpn));
    put_opt(&mut item, "matched_manufacturer", filled(&result.matched_manufacturer));
    put_opt(&mut item, "hts_code", filled(&result.hts_code));
    put_opt(&mut item, "country_of_origin", filled(&result.country_of_origin));
    put_opt(&mut item, "category", filled(&result.category));
    if let Some(days) = result.factory_lead_days {
        put_n(&mut item, "factory_lead_days", i64_text(days as i64).as_str());
    }
    item
}

/// A part whose empty texts are none.
pub open spec fn without_empty(part: PartResultView) -> PartResultView {
    PartResultView {
        provider_part_id: unless_empty(part.provider_part_id),
        matched_mpn: unless_empty(part.matched_mpn),
        matched_manufacturer: unless_empty(part.matched_manufacturer),
        hts_code: unless_empty(part.hts_code),
        country_of_origin: unless_empty(part.country_of_origin),
        category: unless_empty(part.category),
        ..part
    }
}

/// What is read back of a stored part that says when it was fetched is the part,
/// but for empty texts.
pub proof fn part_round_trip(pk: Seq<char>, part: PartResultView)
    requires
        part.fetched_at.len() > 0,
    ensures
        item_part(part_item(pk, part)) == Some(without_empty(part)),
{
    attribute_names_differ();
    status_round_trip(part.match_status, part.availability_status, part.lifecycle_status);
    print_parse_i64(part.total_avail);
    if let Some(days) = part.factory_lead_days {
        print_parse_i64(days as i64);
        assert(low_bits(days as int) == days);
    }
    let base = part_item(pk, PartResultView { factory_lead_days: None, ..part });
    assert(item_part(part_item(pk, part))->0 =~= without_empty(part));
}

/// The names of the states read back as the states.
pub proof fn status_round_trip(m: MatchStatus, a: AvailabilityStatus, l: LifecycleStatus)
    ensures
        match_of_text(Some(match_text(m))) == m,
        availability_of_text(Some(availability_text(a))) == a,
        lifecycle_of_text(Some(lifecycle_text(l))) == l,
{
    reveal_strlit("Exact");
    reveal_strlit("Fuzzy");
    reveal_strlit("None");
    reveal_strlit("Pending");
    assert("Exact"@.len() == 5);
    assert("Fuzzy"@.len() == 5);
    assert("None"@.len() == 4);
    assert("Pending"@.len() == 7);
    assert("Exact"@[0] != "Fuzzy"@[0]);
    reveal_strlit("InStock");
    reveal_strlit("OutOfStock");
    reveal_strlit("NoMatch");
    reveal_strlit("Error");
    assert("InStock"@.len() == 7);
    assert("OutOfStock"@.len() == 10);
    assert("NoMatch"@.len() == 7);
    assert("Error"@.len() == 5);
    assert("InStock"@[0] != "NoMatch"@[0]);
    assert("NoMatch"@[0] != "Pending"@[0]);
    assert("InStock"@[0] != "Pending"@[0]);
    reveal_strlit("Active");
    reveal_strlit("Nrnd");
    reveal_strlit("Eol");
    reveal_strlit("Discontinued");
    reveal_strlit("Unknown");
    assert("Active"@.len() == 6);
    assert("Nrnd"@.len() == 4);
    assert("Eol"@.len() == 3);
    assert("Discontinued"@.len() == 12);
    assert("Unknown"@.len() == 7);
}

proof fn attribute_names_differ()
    ensures
        "pk"@ != "sk"@,
        "pk"@ != "fetched_at"@,
        "pk"@ != "match_status"@,
        "pk"@ != "availability_status"@,
        "pk"@ != "lifecycle_status"@,
        "pk"@ != "total_avail"@,
        "pk"@ != "provider_part_id"@,
        "pk"@ != "matched_mpn"@,
        "pk"@ != "matched_manufacturer"@,
        "pk"@ != "hts_code"@,
        "pk"@ != "country_of_origin"@,
        "pk"@ != "category"@,
        "pk"@ != "factory_lead_days"@,
        "sk"@ != "fetched_at"@,
        "sk"@ != "match_status"@,
        "sk"@ != "availability_status"@,
        "sk"@ != "lifecycle_status"@,
        "sk"@ != "total_avail"@,
        "sk"@ != "provider_part_id"@,
        "sk"@ != "matched_mpn"@,
        "sk"@ != "matched_manufacturer"@,
        "sk"@ != "hts_code"@,
        "sk"@ != "country_of_origin"@,
        "sk"@ != "category"@,
        "sk"@ != "factory_lead_days"@,
        "fetched_at"@ != "match_status"@,
        "fetched_at"@ != "availability_status"@,
        "fetched_at"@ != "lifecycle_status"@,
        "fetched_at"@ != "total_avail"@,
        "fetched_at"@ != "provider_part_id"@,
        "fetched_at"@ != "matched_mpn"@,
        "fetched_at"@ != "matched_manufacturer"@,
        "fetched_at"@ != "hts_code"@,
        "fetched_at"@ != "country_of_origin"@,
        "fetched_at"@ != "category"@,
        "fetched_at"@ != "factory_lead_days"@,
        "match_status"@ != "availability_status"@,
        "match_status"@ != "lifecycle_status"@,
        "match_status"@ != "total_avail"@,
        "match_status"@ != "provider_part_id"@,
        "match_status"@ != "matched_mpn"@,
        "match_status"@ != "matched_manufacturer"@,
        "match_status"@ != "hts_code"@,
        "match_status"@ != "country_of_origin"@,
        "match_status"@ != "category"@,
        "match_status"@ != "factory_lead_days"@,
        "availability_status"@ != "lifecycle_status"@,
        "availability_status"@ != "total_avail"@,
        "availability_status"@ != "provider_part_id"@,
        "availability_status"@ != "matched_mpn"@,
        "availability_status"@ != "matched_manufacturer"@,
        "availability_status"@ != "hts_code"@,
        "availability_status"@ != "country_of_origin"@,
        "availability_status"@ != "category"@,
        "availability_status"@ != "factory_lead_days"@,
        "lifecycle_status"@ != "total_avail"@,
        "lifecycle_status"@ != "provider_part_id"@,
        "lifecycle_status"@ != "matched_mpn"@,
        "lifecycle_status"@ != "matched_manufacturer"@,
        "lifecycle_status"@ != "hts_code"@,
        "lifecycle_status"@ != "country_of_origin"@,
        "lifecycle_status"@ != "category"@,
        "lifecycle_status"@ != "factory_lead_days"@,
        "total_avail"@ != "provider_part_id"@,
        "total_avail"@ != "matched_mpn"@,
        "total_avail"@ != "matched_manufacturer"@,
        "total_avail"@ != "hts_code"@,
        "total_avail"@ != "country_of_origin"@,
        "total_avail"@ != "category"@,
        "total_avail"@ != "factory_lead_days"@,
        "provider_part_id"@ != "matched_mpn"@,
        "provider_part_id"@ != "matched_manufacturer"@,
        "provider_part_id"@ != "hts_code"@,
        "provider_part_id"@ != "country_of_origin"@,
        "provider_part_id"@ != "category"@,
        "provider_part_id"@ != "factory_lead_days"@,
        "matched_mpn"@ != "matched_manufacturer"@,
        "matched_mpn"@ != "hts_code"@,
        "matched_mpn"@ != "country_of_origin"@,
        "matched_mpn"@ != "category"@,
        "matched_mpn"@ != "factory_lead_days"@,
        "matched_manufacturer"@ != "hts_code"@,
        "matched_manufacturer"@ != "country_of_origin"@,
        "matched_manufacturer"@ != "category"@,
        "matched_manufacturer"@ != "factory_lead_days"@,
        "hts_code"@ != "country_of_origin"@,
        "hts_code"@ != "category"@,
        "hts_code"@ != "factory_lead_days"@,
        "country_of_origin"@ != "category"@,
        "country_of_origin"@ != "factory_lead_days"@,
        "category"@ != "factory_lead_days"@,
{
    reveal_strlit("pk");
    reveal_strlit("sk");
    reveal_strlit("fetched_at");
    reveal_strlit("match_status");
    reveal_strlit("availability_status");
    reveal_strlit("lifecycle_status");
    reveal_strlit("total_avail");
    reveal_strlit("provider_part_id");
    reveal_strlit("matched_mpn");
    reveal_strlit("matched_manufacturer");
    reveal_strlit("hts_code");
    reveal_strlit("country_of_origin");
    reveal_strlit("category");
    reveal_strlit("factory_lead_days");
    assert("pk"@.len() == 2);
    assert("sk"@.len() == 2);
    assert("fetched_at"@.len() == 10);
    assert("match_status"@.len() == 12);
    assert("availability_status"@.len() == 19);
    assert("lifecycle_status"@.len() == 16);
    assert("total_avail"@.len() == 11);
    assert("provider_part_id"@.len() == 16);
    assert("matched_mpn"@.len() == 11);
    assert("matched_manufacturer"@.len() == 20);
    assert("hts_code"@.len() == 8);
    assert("country_of_origin"@.len() == 17);
    assert("category"@.len() == 8);
    assert("factory_lead_days"@.len() == 17);
    assert("pk"@[0] != "sk"@[0]);
    assert("lifecycle_status"@[0] != "provider_part_id"@[0]);
    assert("total_avail"@[0] != "matched_mpn"@[0]);
    assert("hts_code"@[0] != "category"@[0]);
    assert("country_of_origin"@[0] != "factory_lead_days"@[0]);
}

/// The names of the statuses are read as the statuses, and any other text as the status of
/// which nothing is known.
pub proof fn status_names_are_read(raw: &Option<String>, m: MatchStatus, a: AvailabilityStatus, l: LifecycleStatus)
    requires
        call_ensures(parse_match, (raw,), m),
        call_ensures(parse_availability, (raw,), a),
        call_ensures(parse_lifecycle, (raw,), l),
    ensures
        ({
            let t = raw.deep_view();
            &&& t == Some("Exact"@) <==> m == MatchStatus::Exact
            &&& t == Some("Fuzzy"@) <==> m == MatchStatus::Fuzzy
            &&& t == Some("Pending"@) <==> m == MatchStatus::Pending
            &&& t == Some("InStock"@) <==> a == AvailabilityStatus::InStock
            &&& t == Some("OutOfStock"@) <==> a == AvailabilityStatus::OutOfStock
            &&& t == Some("Error"@) <==> a == AvailabilityStatus::Error
            &&& t == Some("Pending"@) <==> a == AvailabilityStatus::Pending
            &&& t == Some("Active"@) <==> l == LifecycleStatus::Active
            &&& t == Some("Eol"@) <==> l == LifecycleStatus::Eol
            &&& t == Some("Nrnd"@) <==> l == LifecycleStatus::Nrnd
            &&& t == Some("Discontinued"@) <==> l == LifecycleStatus::Discontinued
            &&& t is None ==> m == MatchStatus::NoMatch && a == AvailabilityStatus::NoMatch && l
                == LifecycleStatus::Unknown
        }),
{
    reveal_strlit("Exact");
    reveal_strlit("Fuzzy");
    reveal_strlit("Pending");
    reveal_strlit("InStock");
    reveal_strlit("OutOfStock");
    reveal_strlit("Error");
    reveal_strlit("Active");
    reveal_strlit("Eol");
    reveal_strlit("Nrnd");
    reveal_strlit("Discontinued");
    assert("Exact"@.len() == 5 && "Exact"@[0] == 'E');
    assert("Fuzzy"@.len() == 5 && "Fuzzy"@[0] == 'F');
    assert("Pending"@.len() == 7 && "Pending"@[0] == 'P');
    assert("InStock"@.len() == 7 && "InStock"@[0] == 'I');
    assert("OutOfStock"@.len() == 10);
    assert("Error"@.len() == 5);
    assert("Active"@.len() == 6);
    assert("Eol"@.len() == 3);
    assert("Nrnd"@.len() == 4);
    assert("Discontinued"@.len() == 12);
}

/// A part that was stored is read back with its statuses, its stock, its lead time and the
/// texts that say something.
pub proof fn stored_parts_are_read_back(pk: &str, part: &PartResult, item: Item, r: Option<PartResult>)
    requires
        part@.fetched_at.len() > 0,
        call_ensures(result_to_item, (pk, part), item),
        call_ensures(item_to_result, (&item,), r),
    ensures
        r is Some,
        r->0@.match_status == part@.match_status,
        r->0@.availability_status == part@.availability_status,
        r->0@.lifecycle_status == part@.lifecycle_status,
        r->0@.total_avail == part@.total_avail,
        r->0@.factory_lead_days == part@.factory_lead_days,
        r->0@.fetched_at == part@.fetched_at,
        part@.matched_mpn is Some && part@.matched_mpn->0.len() > 0 ==> r->0@.matched_mpn == part@.matched_mpn,
        part@.matched_manufacturer is Some && part@.matched_manufacturer->0.len() > 0 ==> r->0@.matched_manufacturer
            == part@.matched_manufacturer,
        part@.provider_part_id is Some && part@.provider_part_id->0.len() > 0 ==> r->0@.provider_part_id
            == part@.provider_part_id,
        part@.hts_code is Some && part@.hts_code->0.len() > 0 ==> r->0@.hts_code == part@.hts_code,
        part@.country_of_origin is Some && part@.country_of_origin->0.len() > 0 ==> r->0@.country_of_origin
            == part@.country_of_origin,
        part@.category is Some && part@.category->0.len() > 0 ==> r->0@.category == part@.category,
        part@.hts_code is None ==> r->0@.hts_code is None,
        part@.category is None ==> r->0@.category is None,
{
    part_round_trip(pk@, part@);
}

/// A part is kept under its key, in the one row that is current.
pub proof fn parts_are_kept_under_their_key(pk: &str, part: &PartResult, item: Item)
    requires
        call_ensures(result_to_item, (pk, part), item),
    ensures
        text_attr(viewed(item), "pk"@) == Some(pk@),
        text_attr(viewed(item), "sk"@) == Some("CURRENT"@),
{
    attribute_names_differ();
}

} // verus!
