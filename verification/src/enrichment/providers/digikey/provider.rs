//! From Digi-Key's answers to parts.

use vstd::prelude::*;
use vstd::string::*;

use super::dto::{Named, Product, ProductDetailsResponse};
use crate::clock::{is_clock_text, now_seconds};
use crate::enrichment::types::{PartResult, PartResultView, ProviderError};
use crate::model::enrichment::{AvailabilityStatus, LifecycleStatus, MatchStatus};
use crate::text::case::{ascii_lower, to_ascii_lower};
use crate::text::number::{
    count_leading_digits, digits_read_as_numbers, digits_value, is_digit, is_digits, leading_digits,
    leading_digits_are_counted, parse_i32, parse_u64, signed_value, unsigned_value,
};
use crate::text::percent::{percent_encode, percent_encoded};
use crate::text::search::{contains, has_part};
use crate::text::{owned, slice_text, to_chars, trim, trimmed};

verus! {

/// Where Digi-Key is found.
pub const BASE_URL: &'static str = "https://api.digikey.com";

/// How often a request is repeated that came too soon.
pub const MAX_RETRIES: u32 = 3;

/// Where a product is in its life: the flags first, then the words of its status.
pub open spec fn product_life(
    discontinued: Option<bool>,
    end_of_life: Option<bool>,
    status: Option<Seq<char>>,
) -> LifecycleStatus {
    if discontinued == Some(true) {
        LifecycleStatus::Discontinued
    } else if end_of_life == Some(true) {
        LifecycleStatus::Eol
    } else {
        status_life(status, false)
    }
}

/// Where a product is in its life by the words of its status; an empty one is
/// active. `eol` is a word too where that is asked for.
pub open spec fn status_life(status: Option<Seq<char>>, short_form: bool) -> LifecycleStatus {
    let words = match status {
        Some(text) => ascii_lower(text),
        None => ascii_lower(""@),
    };
    if has_part(words, "obsolete"@) || has_part(words, "end of life"@) || (short_form && has_part(
        words,
        "eol"@,
    )) {
        LifecycleStatus::Eol
    } else if has_part(words, "nrnd"@) || has_part(words, "not recommended"@) {
        LifecycleStatus::Nrnd
    } else if has_part(words, "discontinued"@) {
        LifecycleStatus::Discontinued
    } else if has_part(words, "active"@) || words.len() == 0 {
        LifecycleStatus::Active
    } else {
        LifecycleStatus::Unknown
    }
}

/// Where a product is in its life by the words of its status.
pub fn life_of_status(status: Option<&str>, short_form: bool) -> (r: LifecycleStatus)
    ensures
        r == status_life(status.deep_view(), short_form),
{
    let words = match status {
        Some(text) => to_ascii_lower(text),
        None => to_ascii_lower(""),
    };
    let words = words.as_str();
    if contains(words, "obsolete") || contains(words, "end of life") || (short_form && contains(
        words,
        "eol",
    )) {
        LifecycleStatus::Eol
    } else if contains(words, "nrnd") || contains(words, "not recommended") {
        LifecycleStatus::Nrnd
    } else if contains(words, "discontinued") {
        LifecycleStatus::Discontinued
    } else if contains(words, "active") || words.is_empty() {
        LifecycleStatus::Active
    } else {
        LifecycleStatus::Unknown
    }
}

/// The words of a product's status.
pub open spec fn status_words(product: Product) -> Option<Seq<char>> {
    match product.product_status {
        Some(s) => s.status.deep_view(),
        None => None,
    }
}

/// Where a product is in its life.
pub fn map_lifecycle(product: &Product) -> (r: LifecycleStatus)
    ensures
        r == product_life(product.discontinued, product.end_of_life, status_words(*product)),
{
    if let Some(true) = product.discontinued {
        return LifecycleStatus::Discontinued;
    }
    if let Some(true) = product.end_of_life {
        return LifecycleStatus::Eol;
    }
    match &product.product_status {
        Some(s) => match &s.status {
            Some(text) => life_of_status(Some(text.as_str()), false),
            None => life_of_status(None, false),
        },
        None => life_of_status(None, false),
    }
}

/// The number that a text begins with, in the range of 32 bits.
pub open spec fn leading_number(s: Seq<char>) -> Option<int> {
    let n = leading_digits(s);
    if n == 0 {
        None
    } else {
        signed_value(s.take(n), i32::MIN as int, i32::MAX as int)
    }
}

/// The number that a text begins with.
pub fn parse_leading(s: &str) -> (r: Option<i32>)
    ensures
        r is Some <==> leading_number(s@) is Some,
        r is Some ==> leading_number(s@) == Some(r->0 as int),
{
    let v = to_chars(s);
    let n: usize = count_leading_digits(&v);
    if n == 0 {
        return None;
    }
    let text = slice_text(&v, 0, n);
    assert(text@ =~= s@.take(n as int));
    parse_i32(text.as_str())
}

/// The weeks that a lead time names.
pub fn parse_lead_weeks(raw: &str) -> (r: Option<i32>)
    ensures
        r is Some <==> leading_number(trimmed(raw@)) is Some,
        r is Some ==> leading_number(trimmed(raw@)) == Some(r->0 as int),
{
    parse_leading(trim(raw).as_str())
}

/// Weeks in days, kept within range.
pub open spec fn days_of_weeks(weeks: int) -> i32 {
    if weeks * 7 > i32::MAX {
        i32::MAX
    } else if weeks * 7 < i32::MIN {
        i32::MIN
    } else {
        (weeks * 7) as i32
    }
}

/// Weeks in days, kept within range.
pub fn weeks_to_days(weeks: i32) -> (r: i32)
    ensures
        r == days_of_weeks(weeks as int),
{
    let days: i64 = weeks as i64 * 7;
    if days > 0x7fff_ffff {
        0x7fff_ffff
    } else if days < -0x8000_0000 {
        -0x8000_0000
    } else {
        days as i32
    }
}

/// The text, unless it is empty.
pub open spec fn filled_text(s: Option<Seq<char>>) -> Option<Seq<char>> {
    crate::enrichment::store_item::unless_empty(s)
}

fn keep_filled(s: Option<String>) -> (r: Option<String>)
    ensures
        r.deep_view() == filled_text(s.deep_view()),
{
    match s {
        Some(t) => if t.as_str().is_empty() {
            None
        } else {
            Some(t)
        },
        None => None,
    }
}

/// The name of something that may have one.
pub open spec fn name_of(n: Option<Named>) -> Option<Seq<char>> {
    match n {
        Some(n) => n.name.deep_view(),
        None => None,
    }
}

fn take_name(n: Option<Named>) -> (r: Option<String>)
    ensures
        r.deep_view() == name_of(n),
{
    match n {
        Some(n) => n.name,
        None => None,
    }
}

/// The part that a product is.
pub open spec fn product_part(product: Product, fetched_at: Seq<char>) -> PartResultView {
    let total_avail = match product.quantity_available {
        Some(n) => n,
        None => 0,
    };
    PartResultView {
        provider_part_id: product.digi_key_product_number.deep_view(),
        matched_mpn: product.manufacturer_product_number.deep_view(),
        matched_manufacturer: name_of(product.manufacturer),
        match_status: MatchStatus::Exact,
        availability_status: if total_avail > 0 {
            AvailabilityStatus::InStock
        } else {
            AvailabilityStatus::OutOfStock
        },
        lifecycle_status: product_life(
            product.discontinued,
            product.end_of_life,
            status_words(product),
        ),
        total_avail,
        factory_lead_days: match product.manufacturer_lead_weeks {
            Some(text) => match leading_number(trimmed(text@)) {
                Some(weeks) => Some(days_of_weeks(weeks)),
                None => None,
            },
            None => None,
        },
        hts_code: match product.classifications {
            Some(c) => filled_text(c.htsus_code.deep_view()),
            None => None,
        },
        country_of_origin: filled_text(product.country_of_origin.deep_view()),
        category: name_of(product.category),
        fetched_at,
    }
}

/// The part that a product is, fetched at that time.
pub fn map_product_at(product: Product, fetched_at: String) -> (r: PartResult)
    ensures
        r@ == product_part(product, fetched_at@),
{
    let lifecycle_status = map_lifecycle(&product);
    let total_avail: i64 = match product.quantity_available {
        Some(n) => n,
        None => 0,
    };
    let factory_lead_days = match &product.manufacturer_lead_weeks {
        Some(text) => match parse_lead_weeks(text.as_str()) {
            Some(weeks) => Some(weeks_to_days(weeks)),
            None => None,
        },
        None => None,
    };
    PartResult {
        provider_part_id: product.digi_key_product_number,
        matched_mpn: product.manufacturer_product_number,
        matched_manufacturer: take_name(product.manufacturer),
        match_status: MatchStatus::Exact,
        availability_status: if total_avail > 0 {
            AvailabilityStatus::InStock
        } else {
            AvailabilityStatus::OutOfStock
        },
        lifecycle_status,
        total_avail,
        factory_lead_days,
        hts_code: match product.classifications {
            Some(c) => keep_filled(c.htsus_code),
            None => None,
        },
        country_of_origin: keep_filled(product.country_of_origin),
        category: take_name(product.category),
        fetched_at,
    }
}

/// The part that a product is, fetched now.
pub fn map_product(product: Product) -> (r: PartResult)
    ensures
        r@ == product_part(product, r@.fetched_at),
        is_clock_text(r@.fetched_at),
{
    let fetched_at = now_seconds();
    map_product_at(product, fetched_at)
}

/// Where a product is asked for.
pub fn product_url(base_url: &str, mpn: &str) -> (r: String)
    ensures
        r@ == base_url@ + "/products/v4/search/"@ + percent_encoded(mpn@) + "/productdetails"@,
{
    let mut url = owned(base_url);
    url.append("/products/v4/search/");
    url.append(percent_encode(mpn).as_str());
    url.append("/productdetails");
    url
}

/// What is done with an answer.
#[derive(Debug, Clone, Copy, PartialEq, Eq, Structural)]
pub enum ProductStep {
    /// Wait that many seconds, and ask again.
    RetryAfter(u64),
    /// Give up: the limit is reached.
    RateLimited,
    /// There is no such product.
    NotFound,
    /// Give up: something is wrong.
    Failed,
    /// Read the product.
    Read,
}

/// What is done with an answer after that many repetitions.
pub open spec fn step_for(status: u16, retry_after: Option<Seq<char>>, attempt: u32) -> ProductStep {
    if status == 429 {
        if attempt >= MAX_RETRIES {
            ProductStep::RateLimited
        } else {
            let secs = match retry_after {
                Some(text) => match unsigned_value(text, u64::MAX as nat) {
                    Some(n) => n,
                    None => 1,
                },
                None => 1,
            };
            ProductStep::RetryAfter(
                if secs == 0 {
                    1
                } else {
                    secs as u64
                },
            )
        }
    } else if status == 404 {
        ProductStep::NotFound
    } else if 200 <= status < 300 {
        ProductStep::Read
    } else {
        ProductStep::Failed
    }
}

/// What is done with an answer after that many repetitions.
pub fn product_step(status: u16, retry_after: Option<&str>, attempt: u32) -> (r: ProductStep)
    ensures
        r == step_for(status, retry_after.deep_view(), attempt),
{
    if status == 429 {
        if attempt >= MAX_RETRIES {
            return ProductStep::RateLimited;
        }
        let secs: u64 = match retry_after {
            Some(text) => match parse_u64(text) {
                Some(n) => n,
                None => 1,
            },
            None => 1,
        };
        if secs == 0 {
            ProductStep::RetryAfter(1)
        } else {
            ProductStep::RetryAfter(secs)
        }
    } else if status == 404 {
        ProductStep::NotFound
    } else if 200 <= status && status < 300 {
        ProductStep::Read
    } else {
        ProductStep::Failed
    }
}

/// A request is repeated at most three times, each after at least a second.
pub proof fn retries_are_bounded(status: u16, retry_after: Option<Seq<char>>, attempt: u32)
    ensures
        step_for(status, retry_after, attempt) is RetryAfter ==> attempt < MAX_RETRIES && status
            == 429 && step_for(status, retry_after, attempt)->RetryAfter_0 >= 1,
{
}

/// The token that a reply holds, and how long it lasts. A reply that is no
/// success is quoted in the error.
pub fn read_token(success: bool, status: &str, body: &str, parsed: Result<(String, u64), String>) -> (r:
    Result<(String, u64), ProviderError>)
    ensures
        if !success {
            r is Err && r->Err_0 is Auth && r->Err_0->Auth_0@ == "token "@ + status@ + ": "@ + body@
        } else {
            match parsed {
                Ok(token) => r == Ok::<(String, u64), ProviderError>(token),
                Err(error) => r == Err::<(String, u64), ProviderError>(ProviderError::Auth(error)),
            }
        },
{
    if !success {
        let mut text = owned("token ");
        text.append(status);
        text.append(": ");
        text.append(body);
        return Err(ProviderError::Auth(text));
    }
    match parsed {
        Ok(token) => Ok(token),
        Err(error) => Err(ProviderError::Auth(error)),
    }
}

/// The error for a reply that is no success.
pub fn reply_failure(status: &str, body: &str) -> (r: ProviderError)
    ensures
        r is Request,
        r->Request_0@ == status@ + ": "@ + body@,
{
    let mut text = owned(status);
    text.append(": ");
    text.append(body);
    ProviderError::Request(text)
}

/// The part that a reply holds, as of that time; none where there was no reply or
/// it holds no product.
pub fn read_details_at(details: Option<ProductDetailsResponse>, fetched_at: String) -> (r: Option<
    PartResult,
>)
    ensures
        match details {
            Some(d) => match d.product {
                Some(product) => r is Some && r->0@ == product_part(product, fetched_at@),
                None => r is None,
            },
            None => r is None,
        },
{
    match details {
        Some(details) => match details.product {
            Some(product) => Some(map_product_at(product, fetched_at)),
            None => None,
        },
        None => None,
    }
}

/// The status of a product says a word, in any case.
pub open spec fn says(status: Option<Seq<char>>, word: Seq<char>) -> bool {
    status is Some && has_part(ascii_lower(status->0), word)
}

proof fn nothing_says_nothing(word: Seq<char>)
    requires
        word.len() > 0,
    ensures
        !has_part(ascii_lower(""@), word),
        ascii_lower(""@).len() == 0,
{
    reveal_strlit("");
    assert(ascii_lower(""@).len() == 0);
}

proof fn words_are_words()
    ensures
        "obsolete"@.len() > 0,
        "end of life"@.len() > 0,
        "eol"@.len() > 0,
        "nrnd"@.len() > 0,
        "not recommended"@.len() > 0,
        "discontinued"@.len() > 0,
        "active"@.len() > 0,
{
    reveal_strlit("obsolete");
    reveal_strlit("end of life");
    reveal_strlit("eol");
    reveal_strlit("nrnd");
    reveal_strlit("not recommended");
    reveal_strlit("discontinued");
    reveal_strlit("active");
}

/// Each word that a catalogue uses has its meaning, the graver word counting where
/// several are said: obsolete or at the end of its life, then not for new designs, then
/// discontinued, then active. A part of which nothing is said is active; one that is
/// described in no known word is unknown.
pub proof fn status_words_have_meanings(status: Option<&str>, short_form: bool, r: LifecycleStatus)
    requires
        call_ensures(life_of_status, (status, short_form), r),
    ensures
        ({
            let s = status.deep_view();
            let over = says(s, "obsolete"@) || says(s, "end of life"@);
            let old = says(s, "nrnd"@) || says(s, "not recommended"@);
            &&& over ==> r == LifecycleStatus::Eol
            &&& short_form && says(s, "eol"@) ==> r == LifecycleStatus::Eol
            &&& r == LifecycleStatus::Eol ==> over || (short_form && says(s, "eol"@))
            &&& old && r != LifecycleStatus::Eol ==> r == LifecycleStatus::Nrnd
            &&& r == LifecycleStatus::Nrnd ==> old && !over
            &&& says(s, "discontinued"@) && !over && !old && !short_form ==> r
                == LifecycleStatus::Discontinued
            &&& r == LifecycleStatus::Discontinued ==> says(s, "discontinued"@) && !over && !old
            &&& r == LifecycleStatus::Active ==> !over && !old && !says(s, "discontinued"@) && (says(
                s,
                "active"@,
            ) || s is None || s->0.len() == 0)
            &&& r == LifecycleStatus::Unknown ==> s is Some && s->0.len() > 0 && !over && !old && !says(
                s,
                "discontinued"@,
            ) && !says(s, "active"@)
        }),
{
    words_are_words();
    nothing_says_nothing("obsolete"@);
    nothing_says_nothing("end of life"@);
    nothing_says_nothing("eol"@);
    nothing_says_nothing("nrnd"@);
    nothing_says_nothing("not recommended"@);
    nothing_says_nothing("discontinued"@);
    nothing_says_nothing("active"@);
}

/// A product's flags come before the words of its status: a discontinued product is
/// discontinued, one at the end of its life is at its end; else its words count.
pub proof fn flags_come_first(product: Product, fetched_at: String, r: PartResult)
    requires
        call_ensures(map_product_at, (product, fetched_at), r),
    ensures
        ({
            let life = r@.lifecycle_status;
            let s = status_words(product);
            let flagged = product.discontinued == Some(true) || product.end_of_life == Some(true);
            &&& product.discontinued == Some(true) ==> life == LifecycleStatus::Discontinued
            &&& product.end_of_life == Some(true) && product.discontinued != Some(true) ==> life
                == LifecycleStatus::Eol
            &&& !flagged && (says(s, "obsolete"@) || says(s, "end of life"@)) ==> life
                == LifecycleStatus::Eol
            &&& !flagged && life != LifecycleStatus::Eol && (says(s, "nrnd"@) || says(
                s,
                "not recommended"@,
            )) ==> life == LifecycleStatus::Nrnd
            &&& !flagged && says(s, "discontinued"@) ==> life == LifecycleStatus::Discontinued || says(
                s,
                "obsolete"@,
            ) || says(s, "end of life"@) || says(s, "nrnd"@) || says(s, "not recommended"@)
            &&& life == LifecycleStatus::Active ==> !flagged && !says(s, "obsolete"@) && !says(
                s,
                "end of life"@,
            ) && !says(s, "nrnd"@) && !says(s, "not recommended"@) && !says(s, "discontinued"@)
            &&& !flagged && (product.product_status is None || product.product_status->0.status is None)
                ==> life == LifecycleStatus::Active
        }),
{
    words_are_words();
    nothing_says_nothing("obsolete"@);
    nothing_says_nothing("end of life"@);
    nothing_says_nothing("nrnd"@);
    nothing_says_nothing("not recommended"@);
    nothing_says_nothing("discontinued"@);
    nothing_says_nothing("active"@);
}

/// A product becomes a part with its own numbers, maker, stock, tariff code, origin and
/// category, matched exactly. It is in stock where a piece or more is there.
pub proof fn products_keep_their_data(product: Product, fetched_at: String, r: PartResult)
    requires
        call_ensures(map_product_at, (product, fetched_at), r),
    ensures
        r@.fetched_at == fetched_at@,
        r@.provider_part_id == product.digi_key_product_number.deep_view(),
        r@.matched_mpn == product.manufacturer_product_number.deep_view(),
        product.manufacturer is Some ==> r@.matched_manufacturer
            == product.manufacturer->0.name.deep_view(),
        product.category is Some ==> r@.category == product.category->0.name.deep_view(),
        r@.match_status == MatchStatus::Exact,
        product.quantity_available is Some ==> r@.total_avail == product.quantity_available->0,
        product.quantity_available is None ==> r@.total_avail == 0,
        r@.total_avail >= 1 <==> r@.availability_status == AvailabilityStatus::InStock,
        r@.total_avail <= 0 <==> r@.availability_status == AvailabilityStatus::OutOfStock,
        (product.country_of_origin matches Some(c) && c@.len() > 0) ==> r@.country_of_origin == Some(
            product.country_of_origin->0@,
        ),
        (product.country_of_origin matches Some(c) ==> c@.len() == 0) ==> r@.country_of_origin is None,
        (product.classifications matches Some(c) && c.htsus_code is Some && c.htsus_code->0@.len() > 0)
            ==> r@.hts_code == Some(product.classifications->0.htsus_code->0@),
{
}

/// A lead time that begins with a number, blanks apart, is that many weeks in days;
/// a product without one has none.
pub proof fn lead_weeks_become_days(
    product: Product,
    fetched_at: String,
    r: PartResult,
    d: Seq<char>,
    rest: Seq<char>,
)
    requires
        call_ensures(map_product_at, (product, fetched_at), r),
        is_digits(d),
        rest.len() > 0 ==> !is_digit(rest[0]),
    ensures
        product.manufacturer_lead_weeks is None ==> r@.factory_lead_days is None,
        product.manufacturer_lead_weeks is Some && trimmed(product.manufacturer_lead_weeks->0@) == d + rest
            && digits_value(d) * 7 <= i32::MAX ==> r@.factory_lead_days is Some
            && r@.factory_lead_days->0 == digits_value(d) * 7,
        product.manufacturer_lead_weeks is Some && trimmed(product.manufacturer_lead_weeks->0@) == rest
            ==> r@.factory_lead_days is None,
{
    leading_digits_are_counted(d, rest);
    digits_read_as_numbers(d, i32::MIN as int, i32::MAX as int);
    leading_digits_are_counted(Seq::empty(), rest);
    assert(Seq::<char>::empty() + rest =~= rest);
}

/// A reply without a product gives no part.
pub proof fn no_product_no_part(details: Option<ProductDetailsResponse>, fetched_at: String, r: Option<PartResult>)
    requires
        call_ensures(read_details_at, (details, fetched_at), r),
    ensures
        r is Some <==> details is Some && details->0.product is Some,
{
}

/// What is done with a reply follows its status: a success is read, what is not found
/// is not found, one that came too soon is repeated after the time that it names, up to
/// three times, and anything else is a failure.
pub proof fn replies_are_handled(status: u16, retry_after: Option<&str>, attempt: u32, r: ProductStep)
    requires
        call_ensures(product_step, (status, retry_after, attempt), r),
    ensures
        r == ProductStep::Read <==> 200 <= status <= 299,
        r == ProductStep::NotFound <==> status == 404,
        r == ProductStep::RateLimited <==> status == 429 && attempt >= 3,
        r is RetryAfter <==> status == 429 && attempt <= 2,
        r is Failed <==> !(200 <= status <= 299) && status != 404 && status != 429,
        r is RetryAfter && retry_after is None ==> r == ProductStep::RetryAfter(1),
        r is RetryAfter ==> r->RetryAfter_0 >= 1,
        r is RetryAfter && retry_after is Some && is_digits(retry_after->0@) && 1 <= digits_value(
            retry_after->0@,
        ) <= u64::MAX ==> r->RetryAfter_0 == digits_value(retry_after->0@),
{
    if retry_after is Some && is_digits(retry_after->0@) {
        assert(is_digit(retry_after->0@[0]));
    }
}

/// A product is asked for under its number, which stays one part of the address.
pub proof fn products_are_asked_for_by_number(base: &str, mpn: &str, r: String)
    requires
        call_ensures(product_url, (base, mpn), r),
    ensures
        base@.is_prefix_of(r@),
        r@.len() == base@.len() + 20 + percent_encoded(mpn@).len() + 15,
        r@.subrange(base@.len() as int + 20, base@.len() as int + 20 + percent_encoded(mpn@).len())
            == percent_encoded(mpn@),
{
    reveal_strlit("/products/v4/search/");
    reveal_strlit("/productdetails");
    let e = percent_encoded(mpn@);
    assert("/products/v4/search/"@.len() == 20);
    assert("/productdetails"@.len() == 15);
    assert(r@.take(base@.len() as int) =~= base@);
    assert(r@.subrange(base@.len() as int + 20, base@.len() as int + 20 + e.len()) =~= e);
}

/// A number of weeks is seven times as many days, as far as days can be counted.
pub proof fn weeks_have_seven_days(weeks: i32, r: i32)
    requires
        call_ensures(weeks_to_days, (weeks,), r),
    ensures
        -300_000_000 <= weeks <= 300_000_000 ==> r == 7 * weeks,
        weeks > 306_783_378 ==> r == i32::MAX,
{
}

/// A lead time is the number that its text begins with; a text that begins with none has
/// none.
pub proof fn lead_weeks_are_read(raw: &str, r: Option<i32>, d: Seq<char>, rest: Seq<char>)
    requires
        call_ensures(parse_lead_weeks, (raw,), r),
        is_digits(d),
        digits_value(d) <= i32::MAX,
        rest.len() == 0 || !is_digit(rest[0]),
    ensures
        trimmed(raw@) == d + rest ==> r is Some && r->0 == digits_value(d),
        trimmed(raw@).len() == 0 ==> r is None,
        trimmed(raw@).len() > 0 && !is_digit(trimmed(raw@)[0]) ==> r is None,
{
    let s = trimmed(raw@);
    if s == d + rest {
        leading_digits_are_counted(d, rest);
        assert(s.take(d.len() as int) =~= d);
        digits_read_as_numbers(d, i32::MIN as int, i32::MAX as int);
    }
}

} // verus!
