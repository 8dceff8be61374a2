//! How often Digi-Key is asked: so many times a minute, and so many a day.

use vstd::prelude::*;
use vstd::string::*;

use crate::enrichment::types::{ProviderError, ProviderErrorView};
use crate::text::number::{parse_u64, unsigned_value};
use crate::text::owned;

verus! {

/// A minute in nanoseconds.
pub const MINUTE_NANOS: u64 = 60_000_000_000;

/// How much longer than needed to wait, in nanoseconds.
pub const SLACK_NANOS: u64 = 10_000_000;

/// A second in nanoseconds.
pub const SECOND_NANOS: u64 = 1_000_000_000;

/// The requests of the last minute and of today, and how many may be. Times are
/// in nanoseconds since the program started.
#[derive(Debug)]
pub struct RateLimiter {
    pub minute: Vec<u64>,
    pub day: i32,
    pub day_count: u32,
    pub max_per_minute: usize,
    pub max_per_day: u32,
    pub paused_until: Option<u64>,
}

/// What is done before a request.
#[derive(Debug, Clone, Copy, PartialEq, Eq, Structural)]
pub enum SlotStep {
    /// The request may go out.
    Taken,
    /// Wait that many nanoseconds, and try again.
    Wait(u64),
}

/// The requests that are more than a minute old are forgotten, from the oldest on.
pub open spec fn recent(minute: Seq<u64>, now: u64) -> Seq<u64>
    decreases minute.len(),
{
    if minute.len() > 0 && now > minute[0] && now - minute[0] > MINUTE_NANOS {
        recent(minute.drop_first(), now)
    } else {
        minute
    }
}

impl RateLimiter {
    /// Requests are kept in the order in which they were made, at least one may be
    /// made in a minute and in a day.
    pub open spec fn wf(self) -> bool {
        &&& forall|i: int, j: int|
            0 <= i < j < self.minute@.len() ==> (#[trigger] self.minute@[i]) <= (
            #[trigger] self.minute@[j])
        &&& self.max_per_minute >= 1
        &&& self.max_per_day >= 1
    }

    /// No requests yet, under these limits.
    pub fn with_limits(max_per_minute: usize, max_per_day: u32) -> (r: Self)
        ensures
            r.wf(),
            r.minute@.len() == 0,
            r.day == 0,
            r.day_count == 0,
            r.max_per_minute == if max_per_minute == 0 {
                1
            } else {
                max_per_minute
            },
            r.max_per_day == if max_per_day == 0 {
                1
            } else {
                max_per_day
            },
            r.paused_until is None,
    {
        RateLimiter {
            minute: Vec::new(),
            day: 0,
            day_count: 0,
            max_per_minute: if max_per_minute == 0 {
                1
            } else {
                max_per_minute
            },
            max_per_day: if max_per_day == 0 {
                1
            } else {
                max_per_day
            },
            paused_until: None,
        }
    }

    /// Raises the limits to those that Digi-Key names; it never lowers them.
    pub fn observe_limits(&mut self, burst_per_minute: Option<usize>, daily: Option<u32>)
        requires
            old(self).wf(),
        ensures
            final(self).wf(),
            final(self).max_per_minute == match burst_per_minute {
                Some(burst) => if burst > old(self).max_per_minute {
                    burst
                } else {
                    old(self).max_per_minute
                },
                None => old(self).max_per_minute,
            },
            final(self).max_per_day == match daily {
                Some(day) => if day > old(self).max_per_day {
                    day
                } else {
                    old(self).max_per_day
                },
                None => old(self).max_per_day,
            },
            final(self).minute == old(self).minute,
            final(self).day == old(self).day,
            final(self).day_count == old(self).day_count,
            final(self).paused_until == old(self).paused_until,
    {
        if let Some(burst) = burst_per_minute {
            if burst > self.max_per_minute {
                self.max_per_minute = burst;
            }
        }
        if let Some(day) = daily {
            if day > self.max_per_day {
                self.max_per_day = day;
            }
        }
    }

    /// Holds requests back for that many seconds, at least one. A longer pause
    /// stays.
    pub fn pause_for(&mut self, now: u64, secs: u64)
        requires
            old(self).wf(),
            now + secs * SECOND_NANOS + SECOND_NANOS <= u64::MAX,
        ensures
            final(self).wf(),
            ({
                let until = now + (if secs == 0 {
                    1
                } else {
                    secs as int
                }) * SECOND_NANOS;
                final(self).paused_until == match old(self).paused_until {
                    Some(existing) => if existing < until {
                        Some(until as u64)
                    } else {
                        Some(existing)
                    },
                    None => Some(until as u64),
                }
            }),
            final(self).minute == old(self).minute,
            final(self).day == old(self).day,
            final(self).day_count == old(self).day_count,
            final(self).max_per_minute == old(self).max_per_minute,
            final(self).max_per_day == old(self).max_per_day,
    {
        let secs: u64 = if secs == 0 {
            1
        } else {
            secs
        };
        let until: u64 = now + secs * SECOND_NANOS;
        let longer = match self.paused_until {
            Some(existing) => existing < until,
            None => true,
        };
        if longer {
            self.paused_until = Some(until);
        }
    }

    /// How long requests are still held back.
    pub fn pause_left(&self, now: u64) -> (r: Option<u64>)
        ensures
            r == match self.paused_until {
                Some(until) => if now < until {
                    Some((until - now) as u64)
                } else {
                    None
                },
                None => None::<u64>,
            },
    {
        match self.paused_until {
            Some(until) => if now < until {
                Some(until - now)
            } else {
                None
            },
            None => None,
        }
    }

    /// Ends a pause that is over.
    pub fn end_pause(&mut self, now: u64)
        requires
            old(self).wf(),
        ensures
            final(self).wf(),
            final(self).paused_until == match old(self).paused_until {
                Some(until) => if now >= until {
                    None
                } else {
                    Some(until)
                },
                None => None,
            },
            final(self).minute == old(self).minute,
            final(self).day == old(self).day,
            final(self).day_count == old(self).day_count,
            final(self).max_per_minute == old(self).max_per_minute,
            final(self).max_per_day == old(self).max_per_day,
    {
        if let Some(until) = self.paused_until {
            if now >= until {
                self.paused_until = None;
            }
        }
    }

    /// How many requests were made on that day.
    pub open spec fn made_on(self, day: i32) -> u32 {
        if self.day == day {
            self.day_count
        } else {
            0
        }
    }

    /// Counts a request of that day, unless the day's requests are used up.
    pub fn take_day(&mut self, day: i32) -> (r: Result<(), ProviderError>)
        requires
            old(self).wf(),
        ensures
            final(self).wf(),
            final(self).day == day,
            ({
                let made = old(self).made_on(day);
                &&& made >= old(self).max_per_day ==> r is Err && r->Err_0 is RateLimited
                    && final(self).day_count == made
                &&& made < old(self).max_per_day ==> r is Ok && final(self).day_count == made + 1
            }),
            final(self).minute == old(self).minute,
            final(self).max_per_minute == old(self).max_per_minute,
            final(self).max_per_day == old(self).max_per_day,
            final(self).paused_until == old(self).paused_until,
    {
        if self.day != day {
            self.day = day;
            self.day_count = 0;
        }
        if self.day_count >= self.max_per_day {
            return Err(ProviderError::RateLimited);
        }
        self.day_count = self.day_count + 1;
        Ok(())
    }

    /// Makes a request now if fewer than allowed were made in the last minute;
    /// else how long to wait until the oldest of them is forgotten.
    pub fn take_minute(&mut self, now: u64) -> (r: SlotStep)
        requires
            old(self).wf(),
            forall|i: int| 0 <= i < old(self).minute@.len() ==> (#[trigger] old(self).minute@[i]) <= now,
        ensures
            final(self).wf(),
            ({
                let kept = recent(old(self).minute@, now);
                if kept.len() < old(self).max_per_minute {
                    &&& r == SlotStep::Taken
                    &&& final(self).minute@ == kept.push(now)
                } else {
                    &&& r == SlotStep::Wait((MINUTE_NANOS - (now - kept[0]) + SLACK_NANOS) as u64)
                    &&& final(self).minute@ == kept
                }
            }),
            forall|i: int| 0 <= i < final(self).minute@.len() ==> (#[trigger] final(self).minute@[i]) <= now,
            final(self).day == old(self).day,
            final(self).day_count == old(self).day_count,
            final(self).max_per_minute == old(self).max_per_minute,
            final(self).max_per_day == old(self).max_per_day,
            final(self).paused_until == old(self).paused_until,
    {
        let ghost given = self.minute@;
        while self.minute.len() > 0 && now > self.minute[0] && now - self.minute[0] > MINUTE_NANOS
            invariant
                self.wf(),
                recent(given, now) == recent(self.minute@, now),
                forall|i: int| 0 <= i < self.minute@.len() ==> (#[trigger] self.minute@[i]) <= now,
                self.day == old(self).day,
                self.day_count == old(self).day_count,
                self.max_per_minute == old(self).max_per_minute,
                self.max_per_day == old(self).max_per_day,
                self.paused_until == old(self).paused_until,
            decreases self.minute@.len(),
        {
            let ghost before = self.minute@;
            let _ = self.minute.remove(0);
            assert(self.minute@ =~= before.drop_first());
        }
        if self.minute.len() < self.max_per_minute {
            self.minute.push(now);
            return SlotStep::Taken;
        }
        let oldest: u64 = self.minute[0];
        SlotStep::Wait(MINUTE_NANOS - (now - oldest) + SLACK_NANOS)
    }

    /// One try to make a request: a pause holds it back, else the requests of the
    /// last minute may.
    pub fn take_slot(&mut self, now: u64) -> (r: SlotStep)
        requires
            old(self).wf(),
            forall|i: int| 0 <= i < old(self).minute@.len() ==> (#[trigger] old(self).minute@[i]) <= now,
        ensures
            final(self).wf(),
            match old(self).paused_until {
                Some(until) => now < until ==> r == SlotStep::Wait((until - now) as u64)
                    && *final(self) == *old(self),
                None => true,
            },
            old(self).paused_until is None || old(self).paused_until->0 <= now ==> ({
                let kept = recent(old(self).minute@, now);
                &&& final(self).paused_until is None
                &&& if kept.len() < old(self).max_per_minute {
                    &&& r == SlotStep::Taken
                    &&& final(self).minute@ == kept.push(now)
                } else {
                    &&& r == SlotStep::Wait((MINUTE_NANOS - (now - kept[0]) + SLACK_NANOS) as u64)
                    &&& final(self).minute@ == kept
                }
            }),
            forall|i: int| 0 <= i < final(self).minute@.len() ==> (#[trigger] final(self).minute@[i]) <= now,
            final(self).day == old(self).day,
            final(self).day_count == old(self).day_count,
            final(self).max_per_minute == old(self).max_per_minute,
            final(self).max_per_day == old(self).max_per_day,
    {
        if let Some(left) = self.pause_left(now) {
            return SlotStep::Wait(left);
        }
        self.end_pause(now);
        self.take_minute(now)
    }
}

/// How many requests lie in the minute up to a time.
pub open spec fn in_last_minute(minute: Seq<u64>, now: u64) -> nat
    decreases minute.len(),
{
    if minute.len() == 0 {
        0
    } else {
        in_last_minute(minute.drop_last(), now) + if minute.last() <= now && now - minute.last()
            <= MINUTE_NANOS {
            1nat
        } else {
            0nat
        }
    }
}

proof fn last_minute_bound(minute: Seq<u64>, now: u64)
    ensures
        in_last_minute(minute, now) <= minute.len(),
    decreases minute.len(),
{
    if minute.len() > 0 {
        last_minute_bound(minute.drop_last(), now);
    }
}

/// What is forgotten is more than a minute old, so at most as many requests lie
/// in the last minute as are kept; and no request is made that would be one too
/// many.
pub proof fn minute_limit_holds(kept: Seq<u64>, now: u64, max_per_minute: usize)
    requires
        kept.len() < max_per_minute,
    ensures
        in_last_minute(kept.push(now), now) <= max_per_minute,
{
    last_minute_bound(kept.push(now), now);
}

proof fn drop_old_first(minute: Seq<u64>, now: u64)
    requires
        minute.len() > 0,
        now > minute[0],
        now - minute[0] > MINUTE_NANOS,
    ensures
        in_last_minute(minute.drop_first(), now) == in_last_minute(minute, now),
    decreases minute.len(),
{
    if minute.len() > 1 {
        assert(minute.drop_first().drop_last() =~= minute.drop_last().drop_first());
        drop_old_first(minute.drop_last(), now);
    } else {
        assert(minute.drop_first() =~= Seq::<u64>::empty());
        assert(minute.drop_last() =~= Seq::<u64>::empty());
    }
}

/// Forgetting old requests forgets none of the last minute.
pub proof fn forgetting_is_safe(minute: Seq<u64>, now: u64)
    ensures
        in_last_minute(recent(minute, now), now) == in_last_minute(minute, now),
    decreases minute.len(),
{
    if minute.len() > 0 && now > minute[0] && now - minute[0] > MINUTE_NANOS {
        drop_old_first(minute, now);
        forgetting_is_safe(minute.drop_first(), now);
    }
}

/// A limit that a setting names; it must be set, be a number and not be zero.
pub open spec fn setting_fault(name: Seq<char>, raw: Option<Seq<char>>, max: nat) -> Option<
    ProviderErrorView,
> {
    match raw {
        None => Some(ProviderErrorView::NotConfigured(name)),
        Some(text) => match unsigned_value(text, max) {
            None => Some(ProviderErrorView::NotConfigured(name + " must be a positive integer"@)),
            Some(n) => if n == 0 {
                Some(ProviderErrorView::NotConfigured(name + " must be >= 1"@))
            } else {
                None
            },
        },
    }
}

/// A limit that a setting names, up to `max`.
pub fn require_limit(name: &str, raw: Option<&str>, max: u64) -> (r: Result<u64, ProviderError>)
    ensures
        match setting_fault(name@, raw.deep_view(), max as nat) {
            Some(fault) => r is Err && r->Err_0@ == fault,
            None => r is Ok && unsigned_value(raw->0@, max as nat) == Some(r->Ok_0 as nat)
                && 1 <= r->Ok_0 <= max,
        },
{
    let raw = match raw {
        Some(raw) => raw,
        None => {
            return Err(ProviderError::NotConfigured(owned(name)));
        },
    };
    let value: u64 = match parse_u64(raw) {
        Some(n) => if n <= max {
            n
        } else {
            let mut text = owned(name);
            text.append(" must be a positive integer");
            return Err(ProviderError::NotConfigured(text));
        },
        None => {
            let mut text = owned(name);
            text.append(" must be a positive integer");
            return Err(ProviderError::NotConfigured(text));
        },
    };
    if value == 0 {
        let mut text = owned(name);
        text.append(" must be >= 1");
        return Err(ProviderError::NotConfigured(text));
    }
    Ok(value)
}

/// The day's requests are counted, a new day starts at nothing, and once they are used up
/// no more go out that day.
pub proof fn days_are_counted(limiter: &mut RateLimiter, day: i32, r: Result<(), ProviderError>)
    requires
        old(limiter).wf(),
        call_ensures(RateLimiter::take_day, (limiter, day), r),
    ensures
        final(limiter).day == day,
        old(limiter).day != day ==> r is Ok && final(limiter).day_count == 1,
        old(limiter).day == day && old(limiter).day_count < old(limiter).max_per_day ==> r is Ok
            && final(limiter).day_count == old(limiter).day_count + 1,
        old(limiter).day == day && old(limiter).day_count >= old(limiter).max_per_day ==> r is Err
            && r->Err_0 is RateLimited && final(limiter).day_count == old(limiter).day_count,
        final(limiter).day_count <= final(limiter).max_per_day || old(limiter).day_count > old(limiter).max_per_day,
{
}

/// No request goes out during a pause, and the time to wait is what is left of it.
pub proof fn pauses_hold_requests_back(limiter: &mut RateLimiter, now: u64, until: u64, r: SlotStep)
    requires
        old(limiter).wf(),
        forall|i: int| 0 <= i < old(limiter).minute@.len() ==> (#[trigger] old(limiter).minute@[i]) <= now,
        call_ensures(RateLimiter::take_slot, (limiter, now), r),
        old(limiter).paused_until == Some(until),
        now < until,
    ensures
        r == SlotStep::Wait((until - now) as u64),
        final(limiter).minute@ == old(limiter).minute@,
        final(limiter).paused_until == Some(until),
{
}

/// The first request of all goes out at once and is remembered; where no pause holds and
/// as many as allowed went out in the last minute, the next waits until a minute after the
/// oldest of them, and a hundredth of a second more.
pub proof fn full_minutes_hold_requests_back(limiter: &mut RateLimiter, now: u64, r: SlotStep)
    requires
        old(limiter).wf(),
        forall|i: int| 0 <= i < old(limiter).minute@.len() ==> (#[trigger] old(limiter).minute@[i]) <= now,
        call_ensures(RateLimiter::take_slot, (limiter, now), r),
        old(limiter).paused_until is None,
    ensures
        old(limiter).minute@.len() == 0 ==> r == SlotStep::Taken && final(limiter).minute@ == seq![now],
        old(limiter).minute@.len() > 0 && old(limiter).minute@.len() >= old(limiter).max_per_minute && now
            - old(limiter).minute@[0] <= 60_000_000_000 ==> r == SlotStep::Wait(
            (60_000_000_000 - (now - old(limiter).minute@[0]) + 10_000_000) as u64,
        ) && final(limiter).minute@ == old(limiter).minute@,
        0 < old(limiter).minute@.len() < old(limiter).max_per_minute && now - old(limiter).minute@[0] <= 60_000_000_000
            ==> r == SlotStep::Taken && final(limiter).minute@ == old(limiter).minute@.push(now),
{
    if old(limiter).minute@.len() == 0 {
        assert(old(limiter).minute@.push(now) =~= seq![now]);
    }
}

/// Requests of more than a minute ago are forgotten, later ones are not.
pub proof fn old_requests_are_forgotten(minute: Seq<u64>, first: u64, now: u64)
    requires
        first <= now,
    ensures
        now - first > 60_000_000_000 ==> recent(seq![first] + minute, now) == recent(minute, now),
        now - first <= 60_000_000_000 ==> recent(seq![first] + minute, now) == seq![first] + minute,
        recent(Seq::empty(), now).len() == 0,
{
    assert((seq![first] + minute).drop_first() =~= minute);
    assert((seq![first] + minute)[0] == first);
}

/// A pause lasts as long as it was asked for, at least a second, and never cuts a longer
/// one short.
pub proof fn pauses_last(limiter: &mut RateLimiter, now: u64, secs: u64)
    requires
        old(limiter).wf(),
        now + secs * 1_000_000_000 + 1_000_000_000 <= u64::MAX,
        call_ensures(RateLimiter::pause_for, (limiter, now, secs), ()),
    ensures
        final(limiter).paused_until is Some,
        old(limiter).paused_until is None && secs > 0 ==> final(limiter).paused_until->0 == now + secs * 1_000_000_000,
        old(limiter).paused_until is None && secs == 0 ==> final(limiter).paused_until->0 == now + 1_000_000_000,
        final(limiter).paused_until->0 >= now + secs * 1_000_000_000,
        old(limiter).paused_until is Some ==> final(limiter).paused_until->0 >= old(limiter).paused_until->0,
        final(limiter).max_per_minute == old(limiter).max_per_minute,
{
}

/// The limits only grow.
pub proof fn limits_only_grow(limiter: &mut RateLimiter, burst: Option<usize>, daily: Option<u32>)
    requires
        old(limiter).wf(),
        call_ensures(RateLimiter::observe_limits, (limiter, burst, daily), ()),
    ensures
        final(limiter).max_per_minute >= old(limiter).max_per_minute,
        final(limiter).max_per_day >= old(limiter).max_per_day,
        burst is Some ==> final(limiter).max_per_minute >= burst->0,
        daily is Some ==> final(limiter).max_per_day >= daily->0,
        burst is Some && burst->0 <= old(limiter).max_per_minute ==> final(limiter).max_per_minute
            == old(limiter).max_per_minute,
        burst is Some && burst->0 > old(limiter).max_per_minute ==> final(limiter).max_per_minute == burst->0,
        daily is Some && daily->0 > old(limiter).max_per_day ==> final(limiter).max_per_day == daily->0,
        burst is None ==> final(limiter).max_per_minute == old(limiter).max_per_minute,
        daily is None ==> final(limiter).max_per_day == old(limiter).max_per_day,
        final(limiter).day_count == old(limiter).day_count,
{
}

/// A limit must be set, be a whole number and be at least one.
pub proof fn limits_are_required(name: &str, raw: Option<&str>, max: u64, n: u64, r: Result<u64, ProviderError>)
    requires
        call_ensures(require_limit, (name, raw, max), r),
    ensures
        raw is None ==> r is Err && r->Err_0 is NotConfigured && r->Err_0->NotConfigured_0@ == name@,
        raw is Some && raw->0@ == crate::text::number::dec_nat(n as nat) && 1 <= n <= max ==> r == Ok::<u64, ProviderError>(n),
        raw is Some && raw->0@ == "0"@ ==> r is Err && r->Err_0 is NotConfigured,
        r is Ok ==> 1 <= r->Ok_0 <= max,
{
    crate::text::number::dec_nat_value(n as nat);
    reveal_strlit("0");
    crate::text::number::plain_digits(0);
    crate::text::number::dec_nat_value(0);
    assert("0"@ =~= seq!['0']);
}

/// What is left of a pause is the time up to its end, and nothing once that has come.
pub proof fn pauses_end(limiter: &RateLimiter, now: u64, r: Option<u64>)
    requires
        call_ensures(RateLimiter::pause_left, (limiter, now), r),
    ensures
        limiter.paused_until is None ==> r is None,
        limiter.paused_until is Some && now >= limiter.paused_until->0 ==> r is None,
        limiter.paused_until is Some && now < limiter.paused_until->0 ==> r is Some && r->0 + now
            == limiter.paused_until->0,
{
}

/// A pause that is over is forgotten, one that is not stays.
pub proof fn pauses_are_forgotten(limiter: &mut RateLimiter, now: u64)
    requires
        old(limiter).wf(),
        call_ensures(RateLimiter::end_pause, (limiter, now), ()),
    ensures
        old(limiter).paused_until is Some && now >= old(limiter).paused_until->0 ==> final(limiter).paused_until is None,
        old(limiter).paused_until is Some && now < old(limiter).paused_until->0 ==> final(limiter).paused_until
            == old(limiter).paused_until,
        final(limiter).minute == old(limiter).minute && final(limiter).day_count == old(limiter).day_count,
{
}

/// A limiter begins with nothing made, under the limits that were set, at least one.
pub proof fn limiters_begin_empty(per_minute: usize, per_day: u32, r: RateLimiter)
    requires
        call_ensures(RateLimiter::with_limits, (per_minute, per_day), r),
    ensures
        r.minute@.len() == 0 && r.day_count == 0 && r.paused_until is None,
        per_minute > 0 ==> r.max_per_minute == per_minute,
        per_day > 0 ==> r.max_per_day == per_day,
        per_minute == 0 ==> r.max_per_minute == 1,
        per_day == 0 ==> r.max_per_day == 1,
{
}

/// A limit that is no number, or nought, is told by its name.
pub proof fn wrong_limits_are_told(name: &str, raw: &str, max: u64, r: Result<u64, ProviderError>)
    requires
        call_ensures(require_limit, (name, Some(raw), max), r),
    ensures
        unsigned_value(raw@, max as nat) is None ==> r is Err && r->Err_0 is NotConfigured && r->Err_0->NotConfigured_0@
            == name@ + " must be a positive integer"@,
        unsigned_value(raw@, max as nat) == Some(0nat) ==> r is Err && r->Err_0 is NotConfigured
            && r->Err_0->NotConfigured_0@ == name@ + " must be >= 1"@,
{
}

} // verus!
