//! The daily refresh of all known parts.

use vstd::prelude::*;
use vstd::string::*;

use crate::text::search::{contains, has_part};

verus! {

/// How long to wait between runs, in seconds.
pub const DEFAULT_INTERVAL_SECS: u64 = 86_400;

/// How far a run has come.
#[derive(Debug, Clone, Copy, PartialEq, Eq, Structural)]
pub struct SyncProgress {
    pub refreshed: u64,
    pub incomplete: bool,
}

/// An error that says the provider's limit was reached.
pub open spec fn says_rate_limited(error: Seq<char>) -> bool {
    has_part(error, "rate limited"@) || has_part(error, "RateLimited"@)
}

/// A run after another part was looked up: counted where it was, over where the
/// provider's limit was reached, and no different after any other error.
pub open spec fn after_part(p: SyncProgress, error: Option<Seq<char>>) -> SyncProgress {
    match error {
        None => SyncProgress { refreshed: (p.refreshed + 1) as u64, ..p },
        Some(error) => if says_rate_limited(error) {
            SyncProgress { incomplete: true, ..p }
        } else {
            p
        },
    }
}

impl SyncProgress {
    /// A run that begins.
    pub fn new() -> (r: Self)
        ensures
            r == (SyncProgress { refreshed: 0, incomplete: false }),
    {
        SyncProgress { refreshed: 0, incomplete: false }
    }

    /// Takes in how a part fared; whether the run goes on.
    pub fn take_part(&mut self, error: Option<&str>) -> (r: bool)
        requires
            old(self).refreshed < u64::MAX,
        ensures
            *final(self) == after_part(*old(self), error.deep_view()),
            r == (error is None || !says_rate_limited(error->0@)),
    {
        match error {
            None => {
                self.refreshed = self.refreshed + 1;
                true
            },
            Some(error) => {
                if contains(error, "rate limited") || contains(error, "RateLimited") {
                    self.incomplete = true;
                    false
                } else {
                    true
                }
            },
        }
    }
}

/// The message of a reached limit says so.
pub proof fn rate_limit_stops_the_run()
    ensures
        says_rate_limited(
            super::types::provider_error_text(super::types::ProviderErrorView::RateLimited),
        ),
{
    let text = "rate limited"@;
    assert(text.subrange(0, text.len() as int) =~= text);
    assert(crate::text::search::occurs_at(text, text, 0));
}

/// Each part that was refreshed counts one; a limit that was reached ends the run; any
/// other failure neither counts nor ends it.
pub proof fn runs_count_what_they_refresh(p: SyncProgress, before: Seq<char>, after: Seq<char>)
    requires
        p.refreshed < u64::MAX,
    ensures
        after_part(p, None).refreshed == p.refreshed + 1 && after_part(p, None).incomplete == p.incomplete,
        after_part(p, Some(before + "rate limited"@ + after)) == (SyncProgress { incomplete: true, ..p }),
        after_part(p, Some(before + "RateLimited"@ + after)) == (SyncProgress { incomplete: true, ..p }),
        !has_part(before, "rate limited"@) && !has_part(before, "RateLimited"@) ==> after_part(p, Some(before)) == p,
{
    crate::text::search::parts_are_found(before, "rate limited"@, after);
    crate::text::search::parts_are_found(before, "RateLimited"@, after);
}

} // verus!
