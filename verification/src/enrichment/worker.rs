//! What is done with a provider's answer.

use vstd::prelude::*;
use vstd::string::*;

use super::types::{provider_error_text, PartResult, PartResultView, ProviderError, ProviderErrorView};
use crate::clock::{is_clock_text, now_seconds};
use crate::model::enrichment::{AvailabilityStatus, LifecycleStatus, MatchStatus};

verus! {

/// What is stored of a part that no provider knows.
pub open spec fn unknown_part(fetched_at: Seq<char>) -> PartResultView {
    PartResultView {
        provider_part_id: None,
        matched_mpn: None,
        matched_manufacturer: None,
        match_status: MatchStatus::NoMatch,
        availability_status: AvailabilityStatus::NoMatch,
        lifecycle_status: LifecycleStatus::Unknown,
        total_avail: 0,
        factory_lead_days: None,
        hts_code: None,
        country_of_origin: None,
        category: None,
        fetched_at,
    }
}

/// What is stored of a part that no provider knows.
pub fn no_match_part(fetched_at: String) -> (r: PartResult)
    ensures
        r@ == unknown_part(fetched_at@),
{
    PartResult {
        provider_part_id: None,
        matched_mpn: None,
        matched_manufacturer: None,
        match_status: MatchStatus::NoMatch,
        availability_status: AvailabilityStatus::NoMatch,
        lifecycle_status: LifecycleStatus::Unknown,
        total_avail: 0,
        factory_lead_days: None,
        hts_code: None,
        country_of_origin: None,
        category: None,
        fetched_at,
    }
}

/// Whether this is what is stored of a part that no provider knows.
pub fn says_nothing(part: &PartResult) -> (r: bool)
    ensures
        r == (part@ == unknown_part(part@.fetched_at)),
{
    part.provider_part_id.is_none() && part.matched_mpn.is_none() && part.matched_manufacturer.is_none()
        && part.match_status == MatchStatus::NoMatch && part.availability_status
        == AvailabilityStatus::NoMatch && part.lifecycle_status == LifecycleStatus::Unknown
        && part.total_avail == 0 && part.factory_lead_days.is_none() && part.hts_code.is_none()
        && part.country_of_origin.is_none() && part.category.is_none()
}

/// What is done with a provider's answer.
#[derive(Debug)]
pub enum Outcome {
    /// The part is stored, and queued to be looked up again where nobody knew it.
    Store { part: PartResult, unresolved: bool },
    /// Nothing is stored. The limit of the provider may be the reason.
    Fail { error: String, rate_limited: bool },
}

/// What is done with a provider's answer that came at that time: what it says is
/// stored; that it knows nothing is stored too; an error is passed on.
pub fn outcome_at(answer: Result<Option<PartResult>, ProviderError>, fetched_at: String) -> (r: Outcome)
    ensures
        match answer {
            Ok(Some(part)) => r == (Outcome::Store { part, unresolved: false }),
            Ok(None) => r is Store && r->unresolved && r->part@ == unknown_part(fetched_at@),
            Err(error) => r is Fail && r->error@ == provider_error_text(error@) && r->rate_limited
                == (error@ == ProviderErrorView::RateLimited),
        },
{
    match answer {
        Ok(Some(part)) => Outcome::Store { part, unresolved: false },
        Ok(None) => Outcome::Store { part: no_match_part(fetched_at), unresolved: true },
        Err(ProviderError::RateLimited) => Outcome::Fail {
            error: ProviderError::RateLimited.message(),
            rate_limited: true,
        },
        Err(error) => Outcome::Fail { error: error.message(), rate_limited: false },
    }
}

/// What is done with a provider's answer that comes now.
pub fn outcome(answer: Result<Option<PartResult>, ProviderError>) -> (r: Outcome)
    ensures
        match answer {
            Ok(Some(part)) => r == (Outcome::Store { part, unresolved: false }),
            Ok(None) => r is Store && r->unresolved && r->part@ == unknown_part(
                r->part@.fetched_at,
            ) && is_clock_text(r->part@.fetched_at),
            Err(error) => r is Fail && r->error@ == provider_error_text(error@) && r->rate_limited
                == (error@ == ProviderErrorView::RateLimited),
        },
{
    let fetched_at = now_seconds();
    outcome_at(answer, fetched_at)
}

/// What a provider says is stored as it is; that nobody knows the part is stored and the
/// part queued again; a failure stores nothing, and a reached limit is told apart.
pub proof fn answers_are_stored(answer: Result<Option<PartResult>, ProviderError>, at: String, r: Outcome)
    requires
        call_ensures(outcome_at, (answer, at), r),
    ensures
        answer is Ok && answer->Ok_0 is Some ==> r is Store && r->part == answer->Ok_0->0 && !r->unresolved,
        answer is Ok && answer->Ok_0 is None ==> r is Store && r->unresolved && r->part@.match_status
            == MatchStatus::NoMatch && r->part@.availability_status == AvailabilityStatus::NoMatch
            && r->part@.lifecycle_status == LifecycleStatus::Unknown && r->part@.total_avail == 0
            && r->part@.fetched_at == at@,
        answer is Err ==> r is Fail && (r->rate_limited <==> answer->Err_0 is RateLimited),
{
}

/// A part that says nothing is one that nobody knows: with a match, stock or an id it says
/// something.
pub proof fn silent_parts_are_unknown(part: &PartResult, r: bool)
    requires
        call_ensures(says_nothing, (part,), r),
    ensures
        part@.match_status != MatchStatus::NoMatch ==> !r,
        part@.availability_status != AvailabilityStatus::NoMatch ==> !r,
        part@.lifecycle_status != LifecycleStatus::Unknown ==> !r,
        part@.total_avail != 0 ==> !r,
        part@.provider_part_id is Some || part@.matched_mpn is Some || part@.hts_code is Some
            || part@.factory_lead_days is Some || part@.category is Some || part@.country_of_origin is Some
            || part@.matched_manufacturer is Some ==> !r,
        !r ==> part@.match_status != MatchStatus::NoMatch || part@.availability_status != AvailabilityStatus::NoMatch
            || part@.lifecycle_status != LifecycleStatus::Unknown || part@.total_avail != 0
            || part@.provider_part_id is Some || part@.matched_mpn is Some || part@.hts_code is Some
            || part@.factory_lead_days is Some || part@.category is Some || part@.country_of_origin is Some
            || part@.matched_manufacturer is Some,
{
}

} // verus!
