//! What is asked of, and answered by, part enrichment.

use vstd::prelude::*;
use vstd::string::*;

use crate::json::{Json, JsonView};

verus! {

/// How well a part was matched.
#[derive(Debug, Clone, Copy, PartialEq, Eq, Structural)]
pub enum MatchStatus {
    Exact,
    Fuzzy,
    /// Written `None`.
    NoMatch,
    Pending,
}

/// Whether a part can be had.
#[derive(Debug, Clone, Copy, PartialEq, Eq, Structural)]
pub enum AvailabilityStatus {
    InStock,
    OutOfStock,
    NoMatch,
    Error,
    Pending,
}

/// Where a part is in its life.
#[derive(Debug, Clone, Copy, PartialEq, Eq, Structural)]
pub enum LifecycleStatus {
    Active,
    Nrnd,
    Eol,
    Discontinued,
    Unknown,
}

/// Where an answer comes from.
#[derive(Debug, Clone, Copy, PartialEq, Eq, Structural)]
pub enum EnrichSource {
    Cache,
    LiveMiss,
}

/// The name of a match status.
pub open spec fn match_text(status: MatchStatus) -> Seq<char> {
    match status {
        MatchStatus::Exact => "Exact"@,
        MatchStatus::Fuzzy => "Fuzzy"@,
        MatchStatus::NoMatch => "None"@,
        MatchStatus::Pending => "Pending"@,
    }
}

/// The name of an availability.
pub open spec fn availability_text(status: AvailabilityStatus) -> Seq<char> {
    match status {
        AvailabilityStatus::InStock => "InStock"@,
        AvailabilityStatus::OutOfStock => "OutOfStock"@,
        AvailabilityStatus::NoMatch => "NoMatch"@,
        AvailabilityStatus::Error => "Error"@,
        AvailabilityStatus::Pending => "Pending"@,
    }
}

/// The name of a lifecycle status.
pub open spec fn lifecycle_text(status: LifecycleStatus) -> Seq<char> {
    match status {
        LifecycleStatus::Active => "Active"@,
        LifecycleStatus::Nrnd => "Nrnd"@,
        LifecycleStatus::Eol => "Eol"@,
        LifecycleStatus::Discontinued => "Discontinued"@,
        LifecycleStatus::Unknown => "Unknown"@,
    }
}

impl MatchStatus {
    /// The name.
    pub fn as_str(self) -> (r: &'static str)
        ensures
            r@ == match_text(self),
    {
        match self {
            MatchStatus::Exact => "Exact",
            MatchStatus::Fuzzy => "Fuzzy",
            MatchStatus::NoMatch => "None",
            MatchStatus::Pending => "Pending",
        }
    }
}

impl AvailabilityStatus {
    /// The name.
    pub fn as_str(self) -> (r: &'static str)
        ensures
            r@ == availability_text(self),
    {
        match self {
            AvailabilityStatus::InStock => "InStock",
            AvailabilityStatus::OutOfStock => "OutOfStock",
            AvailabilityStatus::NoMatch => "NoMatch",
            AvailabilityStatus::Error => "Error",
            AvailabilityStatus::Pending => "Pending",
        }
    }
}

impl LifecycleStatus {
    /// The name.
    pub fn as_str(self) -> (r: &'static str)
        ensures
            r@ == lifecycle_text(self),
    {
        match self {
            LifecycleStatus::Active => "Active",
            LifecycleStatus::Nrnd => "Nrnd",
            LifecycleStatus::Eol => "Eol",
            LifecycleStatus::Discontinued => "Discontinued",
            LifecycleStatus::Unknown => "Unknown",
        }
    }
}

/// A part that is asked for.
#[derive(Debug)]
pub struct EnrichInput {
    pub mpn: String,
    pub manufacturer: Option<String>,
}

/// The content of a question.
#[verifier::ext_equal]
pub struct EnrichInputView {
    pub mpn: Seq<char>,
    pub manufacturer: Option<Seq<char>>,
}

impl View for EnrichInput {
    type V = EnrichInputView;

    open spec fn view(&self) -> EnrichInputView {
        EnrichInputView { mpn: self.mpn@, manufacturer: self.manufacturer.deep_view() }
    }
}

/// What is known of a part that was asked for.
#[derive(Debug)]
pub struct EnrichResult {
    pub input_index: usize,
    pub provider_part_id: Option<String>,
    pub matched_mpn: Option<String>,
    pub matched_manufacturer: Option<String>,
    pub match_status: MatchStatus,
    pub total_avail: i64,
    pub availability_status: AvailabilityStatus,
    pub lifecycle_status: LifecycleStatus,
    pub factory_lead_days: Option<i32>,
    pub top_sellers: Vec<Json>,
    pub hts_code: Option<String>,
    pub country_of_origin: Option<String>,
    pub category: Option<String>,
    pub fetched_at: Option<String>,
    pub source: Option<EnrichSource>,
}

/// The content of an answer.
#[verifier::ext_equal]
pub struct EnrichResultView {
    pub input_index: usize,
    pub provider_part_id: Option<Seq<char>>,
    pub matched_mpn: Option<Seq<char>>,
    pub matched_manufacturer: Option<Seq<char>>,
    pub match_status: MatchStatus,
    pub total_avail: i64,
    pub availability_status: AvailabilityStatus,
    pub lifecycle_status: LifecycleStatus,
    pub factory_lead_days: Option<i32>,
    pub top_sellers: Seq<JsonView>,
    pub hts_code: Option<Seq<char>>,
    pub country_of_origin: Option<Seq<char>>,
    pub category: Option<Seq<char>>,
    pub fetched_at: Option<Seq<char>>,
    pub source: Option<EnrichSource>,
}

/// The contents of JSON values.
pub open spec fn json_views(values: Seq<Json>) -> Seq<JsonView> {
    values.map_values(|j: Json| j@)
}

impl View for EnrichResult {
    type V = EnrichResultView;

    open spec fn view(&self) -> EnrichResultView {
        EnrichResultView {
            input_index: self.input_index,
            provider_part_id: self.provider_part_id.deep_view(),
            matched_mpn: self.matched_mpn.deep_view(),
            matched_manufacturer: self.matched_manufacturer.deep_view(),
            match_status: self.match_status,
            total_avail: self.total_avail,
            availability_status: self.availability_status,
            lifecycle_status: self.lifecycle_status,
            factory_lead_days: self.factory_lead_days,
            top_sellers: json_views(self.top_sellers@),
            hts_code: self.hts_code.deep_view(),
            country_of_origin: self.country_of_origin.deep_view(),
            category: self.category.deep_view(),
            fetched_at: self.fetched_at.deep_view(),
            source: self.source,
        }
    }
}

/// A copy of JSON values.
pub fn copy_json(values: &Vec<Json>) -> (r: Vec<Json>)
    ensures
        json_views(r@) == json_views(values@),
{
    let mut out: Vec<Json> = Vec::new();
    let mut i: usize = 0;
    while i < values.len()
        invariant
            i <= values@.len(),
            out@.len() == i,
            forall|j: int| 0 <= j < i ==> (#[trigger] out@[j])@ == values@[j]@,
        decreases values@.len() - i,
    {
        out.push(values[i].dup());
        i += 1;
    }
    assert(json_views(out@) =~= json_views(values@));
    out
}

/// Each status is written by its name.
pub proof fn statuses_are_written_by_name(
    m: MatchStatus,
    a: AvailabilityStatus,
    l: LifecycleStatus,
    x: &'static str,
    y: &'static str,
    z: &'static str,
)
    requires
        call_ensures(MatchStatus::as_str, (m,), x),
        call_ensures(AvailabilityStatus::as_str, (a,), y),
        call_ensures(LifecycleStatus::as_str, (l,), z),
    ensures
        m == MatchStatus::Exact ==> x@ == "Exact"@,
        m == MatchStatus::Fuzzy ==> x@ == "Fuzzy"@,
        m == MatchStatus::NoMatch ==> x@ == "None"@,
        m == MatchStatus::Pending ==> x@ == "Pending"@,
        a == AvailabilityStatus::InStock ==> y@ == "InStock"@,
        a == AvailabilityStatus::OutOfStock ==> y@ == "OutOfStock"@,
        a == AvailabilityStatus::NoMatch ==> y@ == "NoMatch"@,
        a == AvailabilityStatus::Error ==> y@ == "Error"@,
        a == AvailabilityStatus::Pending ==> y@ == "Pending"@,
        l == LifecycleStatus::Active ==> z@ == "Active"@,
        l == LifecycleStatus::Nrnd ==> z@ == "Nrnd"@,
        l == LifecycleStatus::Eol ==> z@ == "Eol"@,
        l == LifecycleStatus::Discontinued ==> z@ == "Discontinued"@,
        l == LifecycleStatus::Unknown ==> z@ == "Unknown"@,
{
}

} // verus!
