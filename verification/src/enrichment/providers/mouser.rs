//! From Mouser's answers to parts.

use vstd::prelude::*;
use vstd::string::*;

use super::digikey::provider::{
    days_of_weeks, leading_number, life_of_status, parse_leading, says, status_life, weeks_to_days,
};
use crate::clock::{is_clock_text, now_seconds};
use crate::enrichment::types::{normal_mpn, normalize_mpn, PartQuery, PartQueryView, PartResult, PartResultView, ProviderError};
use crate::json::{field, get_view, Json, JsonView};
use crate::model::enrichment::{AvailabilityStatus, LifecycleStatus, MatchStatus};
use crate::text::case::{ascii_lower, to_ascii_lower, uppercase};
use crate::text::number::{
    digits_read_as_numbers, digits_value, is_digit, is_digits, leading_digits_are_counted, parse_i32, signed_value,
};
use crate::text::search::{join, joined, strip_suffix};
use crate::text::{copy_opt, is_blank, owned, same, trim, trimmed, trimming_takes_off_blanks};

verus! {

/// Where Mouser is found.
pub const DEFAULT_BASE: &'static str = "https://api.mouser.com/api/v1";

/// A part in Mouser's catalogue.
#[derive(Debug)]
pub struct MouserPart {
    pub mouser_part_number: Option<String>,
    pub manufacturer_part_number: Option<String>,
    pub manufacturer: Option<String>,
    pub availability_in_stock: Option<i64>,
    pub lifecycle_status: Option<String>,
    pub category: Option<String>,
    pub lead_time: Option<String>,
}

/// The first of the endings that a text has, taken off.
pub open spec fn without_ending(s: Seq<char>, endings: Seq<Seq<char>>) -> Option<Seq<char>>
    decreases endings.len(),
{
    if endings.len() == 0 {
        None
    } else if endings[0].is_suffix_of(s) {
        Some(s.take(s.len() - endings[0].len()))
    } else {
        without_ending(s, endings.drop_first())
    }
}

/// A number in the range of 32 bits.
pub open spec fn small_number(s: Seq<char>) -> Option<int> {
    signed_value(s, i32::MIN as int, i32::MAX as int)
}

/// The days that a lead time names: in weeks, in days, or as a bare number.
pub open spec fn lead_days(raw: Option<Seq<char>>) -> Option<i32> {
    match raw {
        None => None,
        Some(text) => if is_blank(text) {
            None
        } else {
            let lower = ascii_lower(trimmed(text));
            match without_ending(lower, seq![" weeks"@, " week"@, "wks"@, "wk"@]) {
                Some(weeks) => match small_number(trimmed(weeks)) {
                    Some(w) => Some(days_of_weeks(w)),
                    None => None,
                },
                None => match without_ending(lower, seq![" days"@, " day"@]) {
                    Some(days) => match small_number(trimmed(days)) {
                        Some(d) => Some(d as i32),
                        None => None,
                    },
                    None => match leading_number(trimmed(text)) {
                        Some(d) => Some(d as i32),
                        None => None,
                    },
                },
            }
        },
    }
}

fn strip_first(s: &str, endings: &[&str]) -> (r: Option<String>)
    ensures
        r.deep_view() == without_ending(s@, endings.deep_view()),
{
    let ghost all = endings.deep_view();
    let mut i: usize = 0;
    assert(all.skip(0) =~= all);
    while i < endings.len()
        invariant
            i <= endings@.len(),
            all == endings.deep_view(),
            without_ending(s@, all) == without_ending(s@, all.skip(i as int)),
        decreases endings@.len() - i,
    {
        assert(all.skip(i as int)[0] == endings@[i as int]@);
        if let Some(rest) = strip_suffix(s, endings[i]) {
            return Some(rest);
        }
        assert(all.skip(i as int).drop_first() =~= all.skip(i as int + 1));
        i += 1;
    }
    None
}

/// The days that a lead time names.
pub fn parse_lead_days(raw: Option<&str>) -> (r: Option<i32>)
    ensures
        r == lead_days(raw.deep_view()),
{
    let raw = match raw {
        Some(text) => trim(text),
        None => {
            return None;
        },
    };
    if raw.as_str().is_empty() {
        return None;
    }
    let lower = to_ascii_lower(raw.as_str());
    let week_endings: [&str; 4] = [" weeks", " week", "wks", "wk"];
    let day_endings: [&str; 2] = [" days", " day"];
    assert(week_endings.deep_view() =~= seq![" weeks"@, " week"@, "wks"@, "wk"@]);
    assert(day_endings.deep_view() =~= seq![" days"@, " day"@]);
    if let Some(weeks) = strip_first(lower.as_str(), &week_endings) {
        return match parse_i32(trim(weeks.as_str()).as_str()) {
            Some(w) => Some(weeks_to_days(w)),
            None => None,
        };
    }
    if let Some(days) = strip_first(lower.as_str(), &day_endings) {
        return parse_i32(trim(days.as_str()).as_str());
    }
    parse_leading(raw.as_str())
}

/// Where a part is in its life.
pub fn map_lifecycle(raw: Option<&str>) -> (r: LifecycleStatus)
    ensures
        r == status_life(raw.deep_view(), true),
{
    life_of_status(raw, true)
}

/// The part that an entry of the catalogue is, for a question.
pub open spec fn catalogue_part(part: MouserPart, query: PartQueryView, fetched_at: Seq<char>) -> PartResultView {
    let mpn = normal_mpn(query.mpn);
    let matched = match part.manufacturer_part_number {
        Some(number) => number@,
        None => mpn,
    };
    let total_avail = match part.availability_in_stock {
        Some(n) => n,
        None => 0,
    };
    PartResultView {
        provider_part_id: part.mouser_part_number.deep_view(),
        matched_mpn: Some(matched),
        matched_manufacturer: match part.manufacturer {
            Some(m) => Some(m@),
            None => query.manufacturer,
        },
        match_status: if normal_mpn(matched) == mpn {
            MatchStatus::Exact
        } else {
            MatchStatus::Fuzzy
        },
        availability_status: if total_avail > 0 {
            AvailabilityStatus::InStock
        } else {
            AvailabilityStatus::OutOfStock
        },
        lifecycle_status: status_life(part.lifecycle_status.deep_view(), true),
        total_avail,
        factory_lead_days: lead_days(part.lead_time.deep_view()),
        hts_code: None,
        country_of_origin: None,
        category: part.category.deep_view(),
        fetched_at,
    }
}

/// The part that an entry of the catalogue is, fetched at that time.
pub fn map_part_at(part: MouserPart, query: &PartQuery, fetched_at: String) -> (r: PartResult)
    ensures
        r@ == catalogue_part(part, query@, fetched_at@),
{
    let mpn = normalize_mpn(query.mpn.as_str());
    let lifecycle_status = match &part.lifecycle_status {
        Some(text) => map_lifecycle(Some(text.as_str())),
        None => map_lifecycle(None),
    };
    let factory_lead_days = match &part.lead_time {
        Some(text) => parse_lead_days(Some(text.as_str())),
        None => parse_lead_days(None),
    };
    let matched = match part.manufacturer_part_number {
        Some(number) => number,
        None => mpn.clone(),
    };
    let exact = same(normalize_mpn(matched.as_str()).as_str(), mpn.as_str());
    let total_avail: i64 = match part.availability_in_stock {
        Some(n) => n,
        None => 0,
    };
    PartResult {
        provider_part_id: part.mouser_part_number,
        matched_mpn: Some(matched),
        matched_manufacturer: match part.manufacturer {
            Some(m) => Some(m),
            None => copy_opt(&query.manufacturer),
        },
        match_status: if exact {
            MatchStatus::Exact
        } else {
            MatchStatus::Fuzzy
        },
        availability_status: if total_avail > 0 {
            AvailabilityStatus::InStock
        } else {
            AvailabilityStatus::OutOfStock
        },
        lifecycle_status,
        total_avail,
        factory_lead_days,
        hts_code: None,
        country_of_origin: None,
        category: part.category,
        fetched_at,
    }
}

/// The part that an entry of the catalogue is, fetched now.
pub fn map_part(part: MouserPart, query: &PartQuery) -> (r: PartResult)
    ensures
        r@ == catalogue_part(part, query@, r@.fetched_at),
        is_clock_text(r@.fetched_at),
{
    let fetched_at = now_seconds();
    map_part_at(part, query, fetched_at)
}

/// The texts that are there, in order.
pub open spec fn present(texts: Seq<Option<Seq<char>>>) -> Seq<Seq<char>>
    decreases texts.len(),
{
    if texts.len() == 0 {
        Seq::empty()
    } else {
        match texts.last() {
            Some(t) => present(texts.drop_last()).push(t),
            None => present(texts.drop_last()),
        }
    }
}

/// The first part that a search found, unless its errors say something.
pub fn read_search(errors: Vec<Option<String>>, parts: Vec<MouserPart>) -> (r: Result<
    Option<MouserPart>,
    ProviderError,
>)
    ensures
        ({
            let message = joined(present(errors.deep_view()), "; "@);
            if message.len() > 0 {
                r is Err && r->Err_0 is Request && r->Err_0->Request_0@ == message
            } else {
                r == Ok::<Option<MouserPart>, ProviderError>(
                    if parts@.len() > 0 {
                        Some(parts@[0])
                    } else {
                        None
                    },
                )
            }
        }),
{
    let ghost all = errors.deep_view();
    let mut messages: Vec<String> = Vec::new();
    let mut i: usize = 0;
    assert(messages.deep_view() =~= present(all.take(0)));
    while i < errors.len()
        invariant
            i <= errors@.len(),
            all == errors.deep_view(),
            messages.deep_view() == present(all.take(i as int)),
        decreases errors@.len() - i,
    {
        let ghost before = messages.deep_view();
        proof {
            assert(all.take(i + 1).drop_last() =~= all.take(i as int));
            assert(all.take(i + 1).last() == errors@[i as int].deep_view());
        }
        if let Some(text) = &errors[i] {
            messages.push(text.clone());
            assert(messages.deep_view() =~= before.push(text@));
        }
        i += 1;
    }
    assert(all.take(i as int) =~= all);
    let list: &[String] = messages.as_slice();
    assert(list.deep_view() =~= messages.deep_view());
    let message = join(list, "; ");
    if !message.as_str().is_empty() {
        return Err(ProviderError::Request(message));
    }
    let mut parts = parts;
    if parts.len() > 0 {
        Ok(Some(parts.remove(0)))
    } else {
        Ok(None)
    }
}

/// The key of the catalogue, which must be set and not be blank.
pub fn require_key(raw: Option<&str>) -> (r: Result<String, ProviderError>)
    ensures
        if raw is Some && !is_blank(raw->0@) {
            r is Ok && r->Ok_0@ == raw->0@
        } else {
            r is Err && r->Err_0 is NotConfigured && r->Err_0->NotConfigured_0@ == "MOUSER_API_KEY"@
        },
{
    match raw {
        Some(key) => if trim(key).as_str().is_empty() {
            Err(ProviderError::NotConfigured(owned("MOUSER_API_KEY")))
        } else {
            Ok(owned(key))
        },
        None => Err(ProviderError::NotConfigured(owned("MOUSER_API_KEY"))),
    }
}

/// What follows from the status of a reply: nothing where it is a success.
pub fn check_status(status: u16, body: &str) -> (r: Result<(), ProviderError>)
    ensures
        if status == 429 {
            r is Err && r->Err_0 is RateLimited
        } else if 200 <= status < 300 {
            r is Ok
        } else {
            r is Err && r->Err_0 is Request && r->Err_0->Request_0@ == body@
        },
{
    if status == 429 {
        return Err(ProviderError::RateLimited);
    }
    if status < 200 || status >= 300 {
        return Err(ProviderError::Request(owned(body)));
    }
    Ok(())
}

/// The request for a part.
pub open spec fn search_json(mpn: Seq<char>) -> JsonView {
    JsonView::Object(
        seq![
            (
                "SearchByPartRequest"@,
                JsonView::Object(
                    seq![
                        ("mouserPartNumber"@, JsonView::Text(mpn)),
                        ("partSearchOptions"@, JsonView::Text("Exact"@)),
                    ],
                ),
            ),
        ],
    )
}

/// The request for a part.
pub fn search_request(mpn: &str) -> (r: Json)
    ensures
        r@ == search_json(mpn@),
{
    let inner = Json::Object(
        vec![
            field("mouserPartNumber", Json::text(mpn)),
            field("partSearchOptions", Json::text("Exact")),
        ],
    );
    assert(inner@->Object_0 =~= seq![
        ("mouserPartNumber"@, JsonView::Text(mpn@)),
        ("partSearchOptions"@, JsonView::Text("Exact"@)),
    ]);
    let r = Json::Object(vec![field("SearchByPartRequest", inner)]);
    assert(r@->Object_0 =~= search_json(mpn@)->Object_0);
    r
}

/// The words of the catalogue have their meanings; `eol` is one of them.
pub proof fn catalogue_words_have_meanings(part: MouserPart, query: &PartQuery, fetched_at: String, r: PartResult)
    requires
        call_ensures(map_part_at, (part, query, fetched_at), r),
    ensures
        ({
            let life = r@.lifecycle_status;
            let s = part.lifecycle_status.deep_view();
            let over = says(s, "obsolete"@) || says(s, "end of life"@) || says(s, "eol"@);
            let old = says(s, "nrnd"@) || says(s, "not recommended"@);
            &&& over <==> life == LifecycleStatus::Eol
            &&& old && !over <==> life == LifecycleStatus::Nrnd
            &&& says(s, "discontinued"@) && !over && !old <==> life == LifecycleStatus::Discontinued
            &&& life == LifecycleStatus::Active ==> !over && !old && !says(s, "discontinued"@)
            &&& s is None ==> life == LifecycleStatus::Active
            &&& says(s, "active"@) ==> life != LifecycleStatus::Unknown
        }),
{
    reveal_strlit("");
    reveal_strlit("obsolete");
    reveal_strlit("end of life");
    reveal_strlit("eol");
    reveal_strlit("nrnd");
    reveal_strlit("not recommended");
    reveal_strlit("discontinued");
    reveal_strlit("active");
    assert(ascii_lower(""@).len() == 0);
}

/// An entry becomes a part with its own number, maker, stock and category; what it does
/// not name is taken from the question. It is in stock where a piece or more is there,
/// and exact where its number is the one that was asked for, trimmed and in upper case.
pub proof fn entries_keep_their_data(part: MouserPart, query: &PartQuery, fetched_at: String, r: PartResult)
    requires
        call_ensures(map_part_at, (part, query, fetched_at), r),
    ensures
        r@.fetched_at == fetched_at@,
        r@.provider_part_id == part.mouser_part_number.deep_view(),
        part.manufacturer_part_number is Some ==> r@.matched_mpn == Some(
            part.manufacturer_part_number->0@,
        ),
        part.manufacturer_part_number is None ==> r@.matched_mpn == Some(uppercase(trimmed(query.mpn@))),
        part.manufacturer is Some ==> r@.matched_manufacturer == Some(part.manufacturer->0@),
        part.manufacturer is None ==> r@.matched_manufacturer == query.manufacturer.deep_view(),
        part.availability_in_stock is Some ==> r@.total_avail == part.availability_in_stock->0,
        part.availability_in_stock is None ==> r@.total_avail == 0,
        r@.total_avail >= 1 <==> r@.availability_status == AvailabilityStatus::InStock,
        r@.total_avail <= 0 <==> r@.availability_status == AvailabilityStatus::OutOfStock,
        r@.category == part.category.deep_view(),
        r@.hts_code is None && r@.country_of_origin is None,
        part.manufacturer_part_number is Some ==> (r@.match_status == MatchStatus::Exact <==> uppercase(
            trimmed(part.manufacturer_part_number->0@),
        ) == uppercase(trimmed(query.mpn@))),
        r@.match_status == MatchStatus::Exact || r@.match_status == MatchStatus::Fuzzy,
        part.lead_time is None ==> r@.factory_lead_days is None,
{
}

proof fn digits_trim_to_themselves(d: Seq<char>)
    requires
        is_digits(d),
    ensures
        trimmed(d) == d,
{
    assert(is_digit(d[0]));
    assert(is_digit(d.last()));
    trimming_takes_off_blanks(Seq::empty(), d, Seq::empty());
}

proof fn ending_is_taken_off(d: Seq<char>, unit: Seq<char>)
    ensures
        unit.is_suffix_of(d + unit),
        (d + unit).take((d + unit).len() - unit.len()) == d,
{
    let s = d + unit;
    assert(s.subrange(s.len() - unit.len(), s.len() as int) =~= unit);
    assert(s.take(s.len() - unit.len()) =~= d);
}

/// A number of weeks is seven times as many days, and a number of days is itself, in
/// the singular and the plural, in short and in any case.
pub proof fn lead_times_are_read(raw: &str, r: Option<i32>, d: Seq<char>)
    requires
        call_ensures(parse_lead_days, (Some(raw),), r),
        is_digits(d),
        digits_value(d) * 7 <= i32::MAX,
    ensures
        ({
            let text = ascii_lower(trimmed(raw@));
            &&& text == d + " weeks"@ || text == d + " week"@ || text == d + "wks"@ || text == d
                + "wk"@ ==> r is Some && r->0 == digits_value(d) * 7
            &&& text == d + " days"@ || text == d + " day"@ ==> r is Some && r->0 == digits_value(d)
            &&& trimmed(raw@) == d ==> r is Some && r->0 == digits_value(d)
        }),
{
    reveal_strlit(" weeks");
    reveal_strlit(" week");
    reveal_strlit("wks");
    reveal_strlit("wk");
    reveal_strlit(" days");
    reveal_strlit(" day");
    reveal_with_fuel(without_ending, 5);
    let text = ascii_lower(trimmed(raw@));
    let n = text.len() as int;
    let weeks = seq![" weeks"@, " week"@, "wks"@, "wk"@];
    let days = seq![" days"@, " day"@];
    assert(text.len() == trimmed(raw@).len());
    digits_trim_to_themselves(d);
    digits_read_as_numbers(d, i32::MIN as int, i32::MAX as int);
    ending_is_taken_off(d, " weeks"@);
    ending_is_taken_off(d, " week"@);
    ending_is_taken_off(d, "wks"@);
    ending_is_taken_off(d, "wk"@);
    ending_is_taken_off(d, " days"@);
    ending_is_taken_off(d, " day"@);
    assert(weeks.drop_first() =~= seq![" week"@, "wks"@, "wk"@]);
    assert(weeks.drop_first().drop_first() =~= seq!["wks"@, "wk"@]);
    assert(weeks.drop_first().drop_first().drop_first() =~= seq!["wk"@]);
    assert(weeks.drop_first().drop_first().drop_first().drop_first() =~= Seq::<Seq<char>>::empty());
    assert(days.drop_first() =~= seq![" day"@]);
    assert(days.drop_first().drop_first() =~= Seq::<Seq<char>>::empty());
    trimming_takes_off_blanks(Seq::empty(), Seq::empty(), Seq::empty());
    last_is(text, " weeks"@);
    last_is(text, " week"@);
    last_is(text, "wks"@);
    last_is(text, "wk"@);
    last_is(text, " days"@);
    last_is(text, " day"@);
    if trimmed(raw@) == d {
        assert(is_digit(d.last()));
        assert(text[n - 1] == ascii_lower(d)[n - 1]);
        assert(text[n - 1] == d[n - 1]);
        leading_digits_are_counted(d, Seq::empty());
        assert(d + Seq::<char>::empty() =~= d);
    }
    if text == d + " week"@ {
        assert(text[n - 1] == 'k' && text[n - 2] == 'e');
    }
    if text == d + "wks"@ {
        assert(text[n - 1] == 's' && text[n - 2] == 'k' && text[n - 3] == 'w');
    }
    if text == d + "wk"@ {
        assert(text[n - 1] == 'k' && text[n - 2] == 'w');
    }
    if text == d + " days"@ {
        assert(text[n - 1] == 's' && text[n - 2] == 'y');
    }
    if text == d + " day"@ {
        assert(text[n - 1] == 'y');
    }
}

proof fn last_is(s: Seq<char>, unit: Seq<char>)
    ensures
        unit.is_suffix_of(s) ==> forall|k: int|
            1 <= k <= unit.len() ==> #[trigger] s[s.len() - k] == unit[unit.len() - k],
{
    if unit.is_suffix_of(s) {
        assert forall|k: int| 1 <= k <= unit.len() implies #[trigger] s[s.len() - k] == unit[unit.len() - k] by {
            assert(s.subrange(s.len() - unit.len(), s.len() as int)[unit.len() - k] == s[s.len() - k]);
        }
    }
}

/// A search without errors gives the first part that was found; one with an error that
/// says anything fails, whatever it found.
pub proof fn errors_outweigh_finds(
    errors: Vec<Option<String>>,
    parts: Vec<MouserPart>,
    r: Result<Option<MouserPart>, ProviderError>,
    i: int,
)
    requires
        call_ensures(read_search, (errors, parts), r),
    ensures
        errors@.len() == 0 ==> r is Ok,
        r is Ok && parts@.len() > 0 ==> r->Ok_0 == Some(parts@[0]),
        r is Ok && parts@.len() == 0 ==> r->Ok_0 is None,
        r is Err ==> r->Err_0 is Request,
        0 <= i < errors@.len() && errors@[i] is Some && errors@[i]->0@.len() > 0 ==> r is Err,
{
    let all = errors.deep_view();
    if errors@.len() == 0 {
        assert(all =~= Seq::<Option<Seq<char>>>::empty());
        assert(present(all) =~= Seq::<Seq<char>>::empty());
    }
    if 0 <= i < errors@.len() && errors@[i] is Some && errors@[i]->0@.len() > 0 {
        assert(all[i] == Some(errors@[i]->0@));
        present_is_kept(all, i);
        let texts = present(all);
        let k = choose|k: int| 0 <= k < texts.len() && texts[k] == all[i]->0;
        joined_is_longer(texts, "; "@, k);
    }
}

proof fn present_is_kept(texts: Seq<Option<Seq<char>>>, i: int)
    requires
        0 <= i < texts.len(),
        texts[i] is Some,
    ensures
        present(texts).contains(texts[i]->0),
    decreases texts.len(),
{
    let before = present(texts.drop_last());
    let all = present(texts);
    if i < texts.len() - 1 {
        assert(texts.drop_last()[i] == texts[i]);
        present_is_kept(texts.drop_last(), i);
        let k = choose|k: int| 0 <= k < before.len() && before[k] == texts[i]->0;
        assert(all[k] == before[k]);
    } else {
        assert(all[all.len() - 1] == texts[i]->0);
    }
}

proof fn joined_is_longer(parts: Seq<Seq<char>>, sep: Seq<char>, k: int)
    requires
        0 <= k < parts.len(),
    ensures
        joined(parts, sep).len() >= parts[k].len(),
    decreases parts.len(),
{
    if parts.len() > 1 && k < parts.len() - 1 {
        assert(parts.drop_last()[k] == parts[k]);
        joined_is_longer(parts.drop_last(), sep, k);
    }
}

/// What follows from a reply's status: only a success goes on, and too many requests
/// are told from other failures.
pub proof fn replies_are_told_apart(status: u16, body: &str, r: Result<(), ProviderError>)
    requires
        call_ensures(check_status, (status, body), r),
    ensures
        r is Ok <==> 200 <= status <= 299,
        status == 429 <==> r is Err && r->Err_0 is RateLimited,
        r is Err && status != 429 ==> r->Err_0 is Request && r->Err_0->Request_0@ == body@,
{
}

/// A blank key, or none, is refused; any other is used as it is.
pub proof fn blank_keys_are_refused(raw: Option<&str>, r: Result<String, ProviderError>)
    requires
        call_ensures(require_key, (raw,), r),
    ensures
        r is Ok ==> raw is Some && r->Ok_0@ == raw->0@ && !is_blank(raw->0@),
        raw is None || is_blank(raw->0@) ==> r is Err && r->Err_0 is NotConfigured,
        raw is Some && !is_blank(raw->0@) ==> r is Ok,
{
}

/// The request asks for the exact number that is looked for.
pub proof fn searches_are_exact(mpn: &str, r: Json)
    requires
        call_ensures(search_request, (mpn,), r),
    ensures
        ({
            let inner = get_view(r@, "SearchByPartRequest"@);
            &&& inner is Some
            &&& get_view(inner->0, "mouserPartNumber"@) == Some(JsonView::Text(mpn@))
            &&& get_view(inner->0, "partSearchOptions"@) == Some(JsonView::Text("Exact"@))
        }),
{
    reveal_strlit("mouserPartNumber");
    reveal_strlit("partSearchOptions");
    assert("mouserPartNumber"@.len() == 16);
    assert("partSearchOptions"@.len() == 17);
    reveal_with_fuel(crate::json::field_of, 4);
}

} // verus!
