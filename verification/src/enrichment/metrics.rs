//! What happened, in numbers.

use vstd::prelude::*;

verus! {

/// Counters of what happened. A counter that passes its range starts again.
#[derive(Debug, Clone, Copy, PartialEq, Eq, Structural)]
pub struct Metrics {
    pub cache_hit: u64,
    pub live_miss: u64,
    pub nomatch: u64,
    pub rate_limited: u64,
    pub http_429: u64,
    pub nightly_refreshed: u64,
    pub nightly_incomplete: u64,
}

/// A counter after `n` more.
pub open spec fn counted(count: u64, n: u64) -> u64 {
    ((count + n) % 0x1_0000_0000_0000_0000) as u64
}

fn count(counter: u64, n: u64) -> (r: u64)
    ensures
        r == counted(counter, n),
{
    ((counter as u128 + n as u128) % 0x1_0000_0000_0000_0000) as u64
}

impl Metrics {
    /// Nothing happened yet.
    pub fn new() -> (r: Self)
        ensures
            r == (Metrics {
                cache_hit: 0,
                live_miss: 0,
                nomatch: 0,
                rate_limited: 0,
                http_429: 0,
                nightly_refreshed: 0,
                nightly_incomplete: 0,
            }),
    {
        Metrics {
            cache_hit: 0,
            live_miss: 0,
            nomatch: 0,
            rate_limited: 0,
            http_429: 0,
            nightly_refreshed: 0,
            nightly_incomplete: 0,
        }
    }
}

/// A part was found in the cache.
pub fn digikey_cache_hit(m: &mut Metrics)
    ensures
        *final(m) == (Metrics { cache_hit: counted(old(m).cache_hit, 1), ..*old(m) }),
{
    m.cache_hit = count(m.cache_hit, 1);
}

/// A part was not in the cache and is asked for.
pub fn digikey_live_miss(m: &mut Metrics)
    ensures
        *final(m) == (Metrics { live_miss: counted(old(m).live_miss, 1), ..*old(m) }),
{
    m.live_miss = count(m.live_miss, 1);
}

/// No provider knew a part.
pub fn digikey_nomatch(m: &mut Metrics)
    ensures
        *final(m) == (Metrics { nomatch: counted(old(m).nomatch, 1), ..*old(m) }),
{
    m.nomatch = count(m.nomatch, 1);
}

/// A provider's limit was reached.
pub fn digikey_rate_limited(m: &mut Metrics)
    ensures
        *final(m) == (Metrics { rate_limited: counted(old(m).rate_limited, 1), ..*old(m) }),
{
    m.rate_limited = count(m.rate_limited, 1);
}

/// A provider answered that it is asked too often.
pub fn digikey_http_429(m: &mut Metrics)
    ensures
        *final(m) == (Metrics { http_429: counted(old(m).http_429, 1), ..*old(m) }),
{
    m.http_429 = count(m.http_429, 1);
}

/// That many parts were refreshed in a nightly run.
pub fn enrichment_nightly_refreshed(m: &mut Metrics, n: u64)
    ensures
        *final(m) == (Metrics {
            nightly_refreshed: counted(old(m).nightly_refreshed, n),
            ..*old(m)
        }),
{
    if n > 0 {
        m.nightly_refreshed = count(m.nightly_refreshed, n);
    }
}

/// A nightly run stopped early.
pub fn enrichment_nightly_incomplete(m: &mut Metrics)
    ensures
        *final(m) == (Metrics {
            nightly_incomplete: counted(old(m).nightly_incomplete, 1),
            ..*old(m)
        }),
{
    m.nightly_incomplete = count(m.nightly_incomplete, 1);
}

/// A find in the cache counts one there and nowhere else.
pub proof fn cache_hits_are_counted(m: &mut Metrics)
    requires
        call_ensures(digikey_cache_hit, (m,), ()),
        old(m).cache_hit < u64::MAX,
    ensures
        final(m).cache_hit == old(m).cache_hit + 1,
        final(m).live_miss == old(m).live_miss && final(m).nomatch == old(m).nomatch && final(m).rate_limited
            == old(m).rate_limited && final(m).http_429 == old(m).http_429 && final(m).nightly_refreshed
            == old(m).nightly_refreshed && final(m).nightly_incomplete == old(m).nightly_incomplete,
{
}

/// A part that is asked for counts one there and nowhere else.
pub proof fn live_misses_are_counted(m: &mut Metrics)
    requires
        call_ensures(digikey_live_miss, (m,), ()),
        old(m).live_miss < u64::MAX,
    ensures
        final(m).live_miss == old(m).live_miss + 1,
        final(m).cache_hit == old(m).cache_hit && final(m).nomatch == old(m).nomatch && final(m).rate_limited
            == old(m).rate_limited && final(m).http_429 == old(m).http_429 && final(m).nightly_refreshed
            == old(m).nightly_refreshed && final(m).nightly_incomplete == old(m).nightly_incomplete,
{
}

/// A part that nobody knows counts one there and nowhere else.
pub proof fn unknown_parts_are_counted(m: &mut Metrics)
    requires
        call_ensures(digikey_nomatch, (m,), ()),
        old(m).nomatch < u64::MAX,
    ensures
        final(m).nomatch == old(m).nomatch + 1,
        final(m).cache_hit == old(m).cache_hit && final(m).live_miss == old(m).live_miss && final(m).rate_limited
            == old(m).rate_limited && final(m).http_429 == old(m).http_429 && final(m).nightly_refreshed
            == old(m).nightly_refreshed && final(m).nightly_incomplete == old(m).nightly_incomplete,
{
}

/// A reached limit counts one there and nowhere else.
pub proof fn reached_limits_are_counted(m: &mut Metrics)
    requires
        call_ensures(digikey_rate_limited, (m,), ()),
        old(m).rate_limited < u64::MAX,
    ensures
        final(m).rate_limited == old(m).rate_limited + 1,
        final(m).cache_hit == old(m).cache_hit && final(m).live_miss == old(m).live_miss && final(m).nomatch
            == old(m).nomatch && final(m).http_429 == old(m).http_429 && final(m).nightly_refreshed
            == old(m).nightly_refreshed && final(m).nightly_incomplete == old(m).nightly_incomplete,
{
}

/// A nightly run counts the parts that it refreshed, and that it stopped early.
pub proof fn nightly_runs_are_counted(m: &mut Metrics, n: u64)
    requires
        call_ensures(enrichment_nightly_refreshed, (m, n), ()),
        old(m).nightly_refreshed + n <= u64::MAX,
    ensures
        final(m).nightly_refreshed == old(m).nightly_refreshed + n,
        final(m).nightly_incomplete == old(m).nightly_incomplete && final(m).cache_hit == old(m).cache_hit,
{
}

/// An answer that a provider is asked too often counts one there and nowhere else.
pub proof fn refused_requests_are_counted(m: &mut Metrics)
    requires
        call_ensures(digikey_http_429, (m,), ()),
        old(m).http_429 < u64::MAX,
    ensures
        final(m).http_429 == old(m).http_429 + 1,
        final(m).cache_hit == old(m).cache_hit && final(m).live_miss == old(m).live_miss && final(m).nomatch
            == old(m).nomatch && final(m).rate_limited == old(m).rate_limited && final(m).nightly_refreshed
            == old(m).nightly_refreshed && final(m).nightly_incomplete == old(m).nightly_incomplete,
{
}

/// A nightly run that stopped early counts one there and nowhere else.
pub proof fn stopped_runs_are_counted(m: &mut Metrics)
    requires
        call_ensures(enrichment_nightly_incomplete, (m,), ()),
        old(m).nightly_incomplete < u64::MAX,
    ensures
        final(m).nightly_incomplete == old(m).nightly_incomplete + 1,
        final(m).nightly_refreshed == old(m).nightly_refreshed && final(m).cache_hit == old(m).cache_hit
            && final(m).http_429 == old(m).http_429,
{
}

} // verus!
