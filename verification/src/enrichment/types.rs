//! Parts, their keys, and what providers say of them.

use vstd::prelude::*;
use vstd::string::*;
use vstd::utf8::is_ascii_chars;

use crate::model::enrichment::{AvailabilityStatus, LifecycleStatus, MatchStatus};
use crate::text::case::{ascii_upper, to_uppercase, uppercase};
use crate::text::search::{first_index_unique, split_once, split_once_at};
use crate::text::{copy_opt, is_blank, owned, trim, trimmed, trimmed_chars};

verus! {

/// The manufacturer where none is known.
pub const UNKNOWN_MANUFACTURER: &'static str = "UNKNOWN";

/// A part that is looked for.
#[derive(Debug)]
pub struct PartQuery {
    pub mpn: String,
    pub manufacturer: Option<String>,
}

/// The content of a query.
#[verifier::ext_equal]
pub struct PartQueryView {
    pub mpn: Seq<char>,
    pub manufacturer: Option<Seq<char>>,
}

impl View for PartQuery {
    type V = PartQueryView;

    open spec fn view(&self) -> PartQueryView {
        PartQueryView { mpn: self.mpn@, manufacturer: self.manufacturer.deep_view() }
    }
}

impl Clone for PartQuery {
    fn clone(&self) -> (r: Self)
        ensures
            r == *self,
    {
        PartQuery { mpn: self.mpn.clone(), manufacturer: copy_opt(&self.manufacturer) }
    }
}

impl PartQuery {
    /// The key under which the part is kept.
    pub fn part_key(&self) -> (r: String)
        ensures
            r@ == key_of_part(self@.mpn, self@.manufacturer),
            is_ascii_part(self@.mpn, self@.manufacturer) ==> r@ == ascii_key(
                self@.mpn,
                self@.manufacturer,
            ),
            !self@.mpn.contains('#') ==> !normal_mpn(self@.mpn).contains('#')
                && is_key_of_one_part(r@, self@),
    {
        assert(self@ == (PartQueryView { mpn: self@.mpn, manufacturer: self@.manufacturer }));
        match &self.manufacturer {
            Some(m) => part_key(self.mpn.as_str(), Some(m.as_str())),
            None => part_key(self.mpn.as_str(), None),
        }
    }
}

/// A part number in its normal form: trimmed and in upper case.
pub open spec fn normal_mpn(mpn: Seq<char>) -> Seq<char> {
    uppercase(trimmed(mpn))
}

/// A manufacturer in its normal form: trimmed and in upper case, `UNKNOWN` where
/// there is none.
pub open spec fn normal_manufacturer(manufacturer: Option<Seq<char>>) -> Seq<char> {
    if manufacturer is Some && !is_blank(manufacturer->0) {
        uppercase(trimmed(manufacturer->0))
    } else {
        UNKNOWN_MANUFACTURER@
    }
}

/// The key under which a part is kept: the part number, `#`, the manufacturer.
pub open spec fn key_of_part(mpn: Seq<char>, manufacturer: Option<Seq<char>>) -> Seq<char> {
    normal_mpn(mpn) + "#"@ + normal_manufacturer(manufacturer)
}

/// A manufacturer in ASCII in its normal form.
pub open spec fn ascii_manufacturer(manufacturer: Option<Seq<char>>) -> Seq<char> {
    if manufacturer is Some && !is_blank(manufacturer->0) {
        ascii_upper(trimmed(manufacturer->0))
    } else {
        UNKNOWN_MANUFACTURER@
    }
}

/// The part number and the manufacturer are in ASCII, but for blanks around them.
pub open spec fn is_ascii_part(mpn: Seq<char>, manufacturer: Option<Seq<char>>) -> bool {
    is_ascii_chars(trimmed(mpn)) && (manufacturer is None || is_ascii_chars(trimmed(manufacturer->0)))
}

/// The key of a part in ASCII.
pub open spec fn ascii_key(mpn: Seq<char>, manufacturer: Option<Seq<char>>) -> Seq<char> {
    ascii_upper(trimmed(mpn)) + "#"@ + ascii_manufacturer(manufacturer)
}

/// A part number in its normal form.
pub fn normalize_mpn(mpn: &str) -> (r: String)
    ensures
        r@ == normal_mpn(mpn@),
        is_ascii_chars(trimmed(mpn@)) ==> r@ == ascii_upper(trimmed(mpn@)),
        !mpn@.contains('#') ==> !r@.contains('#'),
{
    proof {
        trimmed_chars(mpn@);
    }
    to_uppercase(trim(mpn).as_str())
}

/// A manufacturer in its normal form.
pub fn normalize_manufacturer(manufacturer: Option<&str>) -> (r: String)
    ensures
        r@ == normal_manufacturer(manufacturer.deep_view()),
        manufacturer is None || is_ascii_chars(trimmed(manufacturer->0@)) ==> r@ == ascii_manufacturer(
            manufacturer.deep_view(),
        ),
{
    if let Some(m) = manufacturer {
        let t = trim(m);
        if !t.as_str().is_empty() {
            return to_uppercase(t.as_str());
        }
    }
    owned(UNKNOWN_MANUFACTURER)
}

/// The key under which a part is kept.
pub fn part_key(mpn: &str, manufacturer: Option<&str>) -> (r: String)
    ensures
        r@ == key_of_part(mpn@, manufacturer.deep_view()),
        is_ascii_part(mpn@, manufacturer.deep_view()) ==> r@ == ascii_key(
            mpn@,
            manufacturer.deep_view(),
        ),
        !mpn@.contains('#') ==> !normal_mpn(mpn@).contains('#') && is_key_of_one_part(
            r@,
            PartQueryView { mpn: mpn@, manufacturer: manufacturer.deep_view() },
        ),
{
    let mut key = normalize_mpn(mpn);
    key.append("#");
    key.append(normalize_manufacturer(manufacturer).as_str());
    proof {
        let a = PartQueryView { mpn: mpn@, manufacturer: manufacturer.deep_view() };
        if !mpn@.contains('#') {
            assert forall|b: PartQueryView|
                !normal_mpn(b.mpn).contains('#') && #[trigger] key_of_part(b.mpn, b.manufacturer)
                    == key@ implies are_one_part(a, b) by {
                keys_tell_parts_apart(a, b);
            }
        }
    }
    key
}

/// Two queries ask for one part: their normal forms are the same.
pub open spec fn are_one_part(a: PartQueryView, b: PartQueryView) -> bool {
    normal_mpn(a.mpn) == normal_mpn(b.mpn) && normal_manufacturer(a.manufacturer)
        == normal_manufacturer(b.manufacturer)
}

/// Every other query with that key, and no `#` in its normal part number, asks for
/// the same part.
pub open spec fn is_key_of_one_part(key: Seq<char>, a: PartQueryView) -> bool {
    forall|b: PartQueryView|
        !normal_mpn(b.mpn).contains('#') && #[trigger] key_of_part(b.mpn, b.manufacturer) == key
            ==> are_one_part(a, b)
}

/// The part number and the manufacturer in a key; nothing where it has no `#` or
/// no part number.
pub open spec fn part_of_key(pk: Seq<char>) -> Option<(Seq<char>, Seq<char>)> {
    match split_once_at(pk, '#') {
        Some((mpn, manufacturer)) => if mpn.len() == 0 {
            None
        } else {
            Some((mpn, manufacturer))
        },
        None => None,
    }
}

/// The part number and the manufacturer in a key.
pub fn parse_part_key(pk: &str) -> (r: Option<(String, String)>)
    ensures
        r.deep_view() == part_of_key(pk@),
{
    match split_once(pk, '#') {
        Some((mpn, manufacturer)) => if mpn.as_str().is_empty() {
            None
        } else {
            Some((mpn, manufacturer))
        },
        None => None,
    }
}

/// A key gives back the normal forms that it was made of, where the part number
/// has any character and none of them is `#`.
pub proof fn part_key_round_trip(mpn: Seq<char>, manufacturer: Option<Seq<char>>)
    requires
        normal_mpn(mpn).len() > 0,
        !normal_mpn(mpn).contains('#'),
    ensures
        part_of_key(key_of_part(mpn, manufacturer)) == Some(
            (normal_mpn(mpn), normal_manufacturer(manufacturer)),
        ),
{
    reveal_strlit("#");
    let m = normal_mpn(mpn);
    let key = key_of_part(mpn, manufacturer);
    assert("#"@.len() == 1);
    assert("#"@[0] == '#');
    assert(key[m.len() as int] == '#');
    assert forall|j: int| 0 <= j < m.len() implies key[j] != '#' by {
        assert(key[j] == m[j]);
    }
    first_index_unique(key, '#', m.len() as int);
    assert(key.take(m.len() as int) =~= m);
    assert(key.skip(m.len() as int + 1) =~= normal_manufacturer(manufacturer));
}

proof fn joined_once(m: Seq<char>, f: Seq<char>, n: Seq<char>, g: Seq<char>)
    requires
        !m.contains('#'),
        !n.contains('#'),
        m + "#"@ + f == n + "#"@ + g,
    ensures
        m == n,
        f == g,
{
    reveal_strlit("#");
    let k = m + "#"@ + f;
    let l = n + "#"@ + g;
    assert("#"@.len() == 1 && "#"@[0] == '#');
    assert(k[m.len() as int] == '#');
    assert(l[n.len() as int] == '#');
    if m.len() < n.len() {
        assert(l[m.len() as int] == n[m.len() as int]);
        assert(n.contains(n[m.len() as int]));
    } else if n.len() < m.len() {
        assert(k[n.len() as int] == m[n.len() as int]);
        assert(m.contains(m[n.len() as int]));
    }
    assert(k.take(m.len() as int) =~= m);
    assert(l.take(n.len() as int) =~= n);
    assert(k.skip(m.len() as int + 1) =~= f);
    assert(l.skip(n.len() as int + 1) =~= g);
}

/// Parts with the same normal forms have one key; and parts with one key have the
/// same normal forms, where no normal part number holds `#`.
pub proof fn keys_tell_parts_apart(a: PartQueryView, b: PartQueryView)
    ensures
        normal_mpn(a.mpn) == normal_mpn(b.mpn) && normal_manufacturer(a.manufacturer)
            == normal_manufacturer(b.manufacturer) ==> key_of_part(a.mpn, a.manufacturer)
            == key_of_part(b.mpn, b.manufacturer),
        !normal_mpn(a.mpn).contains('#') && !normal_mpn(b.mpn).contains('#') && key_of_part(
            a.mpn,
            a.manufacturer,
        ) == key_of_part(b.mpn, b.manufacturer) ==> normal_mpn(a.mpn) == normal_mpn(b.mpn)
            && normal_manufacturer(a.manufacturer) == normal_manufacturer(b.manufacturer),
{
    let m = normal_mpn(a.mpn);
    let n = normal_mpn(b.mpn);
    if !m.contains('#') && !n.contains('#') && key_of_part(a.mpn, a.manufacturer) == key_of_part(
        b.mpn,
        b.manufacturer,
    ) {
        joined_once(m, normal_manufacturer(a.manufacturer), n, normal_manufacturer(b.manufacturer));
    }
}

proof fn upper_has_no_hash(mpn: Seq<char>)
    requires
        !mpn.contains('#'),
    ensures
        !ascii_upper(trimmed(mpn)).contains('#'),
{
    trimmed_chars(mpn);
    let t = trimmed(mpn);
    assert forall|i: int| 0 <= i < t.len() implies ascii_upper(t)[i] != '#' by {
        assert(t.contains(t[i]));
    }
}

/// Parts in ASCII with one key have the same normal forms, where no part number
/// holds `#`.
pub proof fn ascii_keys_tell_parts_apart(a: PartQueryView, b: PartQueryView)
    requires
        !a.mpn.contains('#'),
        !b.mpn.contains('#'),
        ascii_key(a.mpn, a.manufacturer) == ascii_key(b.mpn, b.manufacturer),
    ensures
        ascii_upper(trimmed(a.mpn)) == ascii_upper(trimmed(b.mpn)),
        ascii_manufacturer(a.manufacturer) == ascii_manufacturer(b.manufacturer),
{
    upper_has_no_hash(a.mpn);
    upper_has_no_hash(b.mpn);
    joined_once(
        ascii_upper(trimmed(a.mpn)),
        ascii_manufacturer(a.manufacturer),
        ascii_upper(trimmed(b.mpn)),
        ascii_manufacturer(b.manufacturer),
    );
}

/// The query that a key stands for; an unknown manufacturer is none.
pub open spec fn query_of_key(pk: Seq<char>) -> Option<PartQueryView> {
    match part_of_key(pk) {
        Some((mpn, manufacturer)) => Some(
            PartQueryView {
                mpn,
                manufacturer: if manufacturer == UNKNOWN_MANUFACTURER@ {
                    None
                } else {
                    Some(manufacturer)
                },
            },
        ),
        None => None,
    }
}

/// The query that a key stands for.
pub fn query_from_key(pk: &str) -> (r: Option<PartQuery>)
    ensures
        match query_of_key(pk@) {
            Some(q) => r is Some && r->0@ == q,
            None => r is None,
        },
{
    match parse_part_key(pk) {
        Some((mpn, manufacturer)) => {
            let manufacturer = if crate::text::same(manufacturer.as_str(), UNKNOWN_MANUFACTURER) {
                None
            } else {
                Some(manufacturer)
            };
            Some(PartQuery { mpn, manufacturer })
        },
        None => None,
    }
}

/// What a provider says of a part.
#[derive(Debug)]
pub struct PartResult {
    pub provider_part_id: Option<String>,
    pub matched_mpn: Option<String>,
    pub matched_manufacturer: Option<String>,
    pub match_status: MatchStatus,
    pub availability_status: AvailabilityStatus,
    pub lifecycle_status: LifecycleStatus,
    pub total_avail: i64,
    pub factory_lead_days: Option<i32>,
    pub hts_code: Option<String>,
    pub country_of_origin: Option<String>,
    pub category: Option<String>,
    pub fetched_at: String,
}

/// The content of what a provider says.
#[verifier::ext_equal]
pub struct PartResultView {
    pub provider_part_id: Option<Seq<char>>,
    pub matched_mpn: Option<Seq<char>>,
    pub matched_manufacturer: Option<Seq<char>>,
    pub match_status: MatchStatus,
    pub availability_status: AvailabilityStatus,
    pub lifecycle_status: LifecycleStatus,
    pub total_avail: i64,
    pub factory_lead_days: Option<i32>,
    pub hts_code: Option<Seq<char>>,
    pub country_of_origin: Option<Seq<char>>,
    pub category: Option<Seq<char>>,
    pub fetched_at: Seq<char>,
}

impl View for PartResult {
    type V = PartResultView;

    open spec fn view(&self) -> PartResultView {
        PartResultView {
            provider_part_id: self.provider_part_id.deep_view(),
            matched_mpn: self.matched_mpn.deep_view(),
            matched_manufacturer: self.matched_manufacturer.deep_view(),
            match_status: self.match_status,
            availability_status: self.availability_status,
            lifecycle_status: self.lifecycle_status,
            total_avail: self.total_avail,
            factory_lead_days: self.factory_lead_days,
            hts_code: self.hts_code.deep_view(),
            country_of_origin: self.country_of_origin.deep_view(),
            category: self.category.deep_view(),
            fetched_at: self.fetched_at@,
        }
    }
}

impl Clone for PartResult {
    fn clone(&self) -> (r: Self)
        ensures
            r == *self,
    {
        PartResult {
            provider_part_id: copy_opt(&self.provider_part_id),
            matched_mpn: copy_opt(&self.matched_mpn),
            matched_manufacturer: copy_opt(&self.matched_manufacturer),
            match_status: self.match_status,
            availability_status: self.availability_status,
            lifecycle_status: self.lifecycle_status,
            total_avail: self.total_avail,
            factory_lead_days: self.factory_lead_days,
            hts_code: copy_opt(&self.hts_code),
            country_of_origin: copy_opt(&self.country_of_origin),
            category: copy_opt(&self.category),
            fetched_at: self.fetched_at.clone(),
        }
    }
}

/// Why a provider says nothing.
#[derive(Debug)]
pub enum ProviderError {
    NotConfigured(String),
    Auth(String),
    Request(String),
    RateLimited,
}

/// The content of a provider's error.
#[verifier::ext_equal]
pub enum ProviderErrorView {
    NotConfigured(Seq<char>),
    Auth(Seq<char>),
    Request(Seq<char>),
    RateLimited,
}

impl View for ProviderError {
    type V = ProviderErrorView;

    open spec fn view(&self) -> ProviderErrorView {
        match self {
            ProviderError::NotConfigured(m) => ProviderErrorView::NotConfigured(m@),
            ProviderError::Auth(m) => ProviderErrorView::Auth(m@),
            ProviderError::Request(m) => ProviderErrorView::Request(m@),
            ProviderError::RateLimited => ProviderErrorView::RateLimited,
        }
    }
}

/// The message of a provider's error.
pub open spec fn provider_error_text(error: ProviderErrorView) -> Seq<char> {
    match error {
        ProviderErrorView::NotConfigured(m) => "provider not configured: "@ + m,
        ProviderErrorView::Auth(m) => "auth failed: "@ + m,
        ProviderErrorView::Request(m) => "request failed: "@ + m,
        ProviderErrorView::RateLimited => "rate limited"@,
    }
}

impl ProviderError {
    /// The message.
    pub fn message(&self) -> (r: String)
        ensures
            r@ == provider_error_text(self@),
    {
        match self {
            ProviderError::NotConfigured(m) => {
                let mut s = owned("provider not configured: ");
                s.append(m.as_str());
                s
            },
            ProviderError::Auth(m) => {
                let mut s = owned("auth failed: ");
                s.append(m.as_str());
                s
            },
            ProviderError::Request(m) => {
                let mut s = owned("request failed: ");
                s.append(m.as_str());
                s
            },
            ProviderError::RateLimited => owned("rate limited"),
        }
    }
}

/// The part number that a provider is asked for; none where it would be empty.
pub fn searched_mpn(query: &PartQuery) -> (r: Option<String>)
    ensures
        r.deep_view() == if normal_mpn(query@.mpn).len() > 0 {
            Some(normal_mpn(query@.mpn))
        } else {
            None
        },
{
    let mpn = normalize_mpn(query.mpn.as_str());
    if mpn.as_str().is_empty() {
        None
    } else {
        Some(mpn)
    }
}

/// A part has one key however its number and its maker are spelled: trimmed, in capitals,
/// a sign between them, and a maker that is missing or blank is unknown.
pub proof fn keys_ignore_spelling(mpn: &str, maker: Option<&str>, r: String)
    requires
        call_ensures(part_key, (mpn, maker), r),
    ensures
        maker is None || is_blank(maker->0@) ==> r@ == uppercase(trimmed(mpn@)) + "#"@ + "UNKNOWN"@,
        maker is Some && !is_blank(maker->0@) ==> r@ == uppercase(trimmed(mpn@)) + "#"@ + uppercase(trimmed(maker->0@)),
        is_ascii_chars(trimmed(mpn@)) && maker is None ==> r@ == ascii_upper(trimmed(mpn@)) + "#"@ + "UNKNOWN"@,
{
}

/// A query and its key ask for the same: the two ways to make a key agree.
pub proof fn queries_and_keys_agree(query: &PartQuery, maker: Option<&str>, mpn: &str, r: String, s: String)
    requires
        call_ensures(PartQuery::part_key, (query,), r),
        call_ensures(part_key, (mpn, maker), s),
        mpn@ == query@.mpn,
        maker.deep_view() == query@.manufacturer,
    ensures
        r@ == s@,
{
}

/// A key is read back: what stands before the first sign is the part, what follows its
/// maker, and an unknown maker is none. Without a sign, or a part, there is nothing.
pub proof fn keys_are_read_back(pk: &str, r: Option<PartQuery>, s: Option<(String, String)>, mpn: Seq<char>, maker: Seq<char>)
    requires
        call_ensures(query_from_key, (pk,), r),
        call_ensures(parse_part_key, (pk,), s),
    ensures
        pk@ == mpn + seq!['#'] + maker && mpn.len() > 0 && !mpn.contains('#') ==> {
            &&& r is Some && r->0@.mpn == mpn
            &&& maker == "UNKNOWN"@ ==> r->0@.manufacturer is None
            &&& maker != "UNKNOWN"@ ==> r->0@.manufacturer == Some(maker)
            &&& s.deep_view() == Some((mpn, maker))
        },
        !pk@.contains('#') ==> r is None && s is None,
        pk@.len() > 0 && pk@[0] == '#' ==> r is None && s is None,
{
    if pk@ == mpn + seq!['#'] + maker && mpn.len() > 0 && !mpn.contains('#') {
        crate::text::search::first_separator_parts(mpn, maker, '#');
    }
    crate::text::search::first_index_is_first(pk@, '#');
    if pk@.len() > 0 && pk@[0] == '#' {
        crate::text::search::first_index_unique(pk@, '#', 0);
    }
}

/// A provider is asked for a part by its number in normal form, and for nothing where that
/// is empty.
pub proof fn parts_are_searched_in_capitals(query: &PartQuery, r: Option<String>)
    requires
        call_ensures(searched_mpn, (query,), r),
    ensures
        uppercase(trimmed(query@.mpn)).len() == 0 <==> r is None,
        r is Some ==> r->0@ == uppercase(trimmed(query@.mpn)),
{
}

/// Every failure of a provider is told by its kind.
pub proof fn failures_of_providers_are_told(error: &ProviderError, r: String)
    requires
        call_ensures(ProviderError::message, (error,), r),
    ensures
        error is NotConfigured ==> r@ == "provider not configured: "@ + error->NotConfigured_0@,
        error is Auth ==> r@ == "auth failed: "@ + error->Auth_0@,
        error is Request ==> r@ == "request failed: "@ + error->Request_0@,
        error is RateLimited ==> r@ == "rate limited"@,
{
}

} // verus!
