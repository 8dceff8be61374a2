//! Asking one provider after the other.

use vstd::prelude::*;
use vstd::string::*;

use crate::enrichment::types::{PartResult, ProviderError};

verus! {

/// What the providers said so far.
#[derive(Debug)]
pub struct Fallback {
    pub saw_clean_miss: bool,
    pub rate_limited: bool,
    pub last_error: Option<ProviderError>,
}

/// What is done after a provider's answer.
#[derive(Debug)]
pub enum FallbackStep {
    /// The part is found.
    Found(PartResult),
    /// The next provider is asked.
    Next(Fallback),
}

impl Fallback {
    /// Nobody was asked yet.
    pub fn new() -> (r: Self)
        ensures
            r == (Fallback { saw_clean_miss: false, rate_limited: false, last_error: None }),
    {
        Fallback { saw_clean_miss: false, rate_limited: false, last_error: None }
    }

    /// Takes in a provider's answer. One that is not set up is passed over.
    pub fn take_answer(self, answer: Result<Option<PartResult>, ProviderError>) -> (r: FallbackStep)
        ensures
            r == match answer {
                Ok(Some(part)) => FallbackStep::Found(part),
                Ok(None) => FallbackStep::Next(Fallback { saw_clean_miss: true, ..self }),
                Err(ProviderError::NotConfigured(_)) => FallbackStep::Next(self),
                Err(ProviderError::RateLimited) => FallbackStep::Next(
                    Fallback { rate_limited: true, ..self },
                ),
                Err(error) => FallbackStep::Next(Fallback { last_error: Some(error), ..self }),
            },
    {
        let mut state = self;
        match answer {
            Ok(Some(part)) => FallbackStep::Found(part),
            Ok(None) => {
                state.saw_clean_miss = true;
                FallbackStep::Next(state)
            },
            Err(ProviderError::NotConfigured(_)) => FallbackStep::Next(state),
            Err(ProviderError::RateLimited) => {
                state.rate_limited = true;
                FallbackStep::Next(state)
            },
            Err(error) => {
                state.last_error = Some(error);
                FallbackStep::Next(state)
            },
        }
    }

    /// What is said once all providers were asked: a reached limit before all;
    /// that nobody knows the part only where somebody said so, or nobody said
    /// anything; else the last error.
    pub fn finish(self) -> (r: Result<Option<PartResult>, ProviderError>)
        ensures
            self.rate_limited ==> r is Err && r->Err_0 is RateLimited,
            !self.rate_limited && !self.saw_clean_miss && self.last_error is Some ==> r is Err
                && r->Err_0 == self.last_error->0,
            !self.rate_limited && (self.saw_clean_miss || self.last_error is None) ==> r is Ok
                && r->Ok_0 is None,
    {
        if self.rate_limited {
            return Err(ProviderError::RateLimited);
        }
        if !self.saw_clean_miss {
            if let Some(error) = self.last_error {
                return Err(error);
            }
        }
        Ok(None)
    }
}

/// What the providers said, after all these answers without a hit.
pub open spec fn after_answers(f: Fallback, answers: Seq<Result<Option<PartResult>, ProviderError>>) -> Fallback
    decreases answers.len(),
{
    if answers.len() == 0 {
        f
    } else {
        let before = after_answers(f, answers.drop_last());
        match answers.last() {
            Ok(Some(_)) => before,
            Ok(None) => Fallback { saw_clean_miss: true, ..before },
            Err(ProviderError::NotConfigured(_)) => before,
            Err(ProviderError::RateLimited) => Fallback { rate_limited: true, ..before },
            Err(error) => Fallback { last_error: Some(error), ..before },
        }
    }
}

/// Once any provider's limit was reached it is never said that nobody knows the
/// part, whatever the others say.
pub proof fn rate_limit_is_never_a_miss(
    f: Fallback,
    answers: Seq<Result<Option<PartResult>, ProviderError>>,
    i: int,
)
    requires
        0 <= i < answers.len(),
        answers[i] is Err,
        answers[i]->Err_0 is RateLimited,
    ensures
        after_answers(f, answers).rate_limited,
    decreases answers.len(),
{
    if i < answers.len() - 1 {
        assert(answers.drop_last()[i] == answers[i]);
        rate_limit_is_never_a_miss(f, answers.drop_last(), i);
    } else {
        assert(answers.last() == answers[i]);
    }
}

/// The first provider that knows the part ends the search; any other answer goes on to the
/// next.
pub proof fn finds_end_the_search(f: Fallback, answer: Result<Option<PartResult>, ProviderError>, r: FallbackStep)
    requires
        call_ensures(Fallback::take_answer, (f, answer), r),
    ensures
        answer is Ok && answer->Ok_0 is Some ==> r is Found && r->Found_0 == answer->Ok_0->0,
        !(answer is Ok && answer->Ok_0 is Some) ==> r is Next,
        r is Next ==> {
            let next = r->Next_0;
            &&& next.saw_clean_miss <==> f.saw_clean_miss || answer is Ok
            &&& next.rate_limited <==> f.rate_limited || answer is Err && answer->Err_0 is RateLimited
            &&& answer is Err && (answer->Err_0 is Auth || answer->Err_0 is Request) ==> next.last_error == Some(
                answer->Err_0,
            )
            &&& answer is Ok || answer->Err_0 is NotConfigured || answer->Err_0 is RateLimited ==> next.last_error
                == f.last_error
        },
{
}

/// At the end a reached limit is told before all; that nobody knows the part where one
/// provider said so, or none was set up; and else the last failure.
pub proof fn searches_end(f: Fallback, r: Result<Option<PartResult>, ProviderError>)
    requires
        call_ensures(Fallback::finish, (f,), r),
    ensures
        f.rate_limited ==> r is Err && r->Err_0 is RateLimited,
        !f.rate_limited && f.saw_clean_miss ==> r is Ok && r->Ok_0 is None,
        !f.rate_limited && !f.saw_clean_miss && f.last_error is None ==> r is Ok && r->Ok_0 is None,
        !f.rate_limited && !f.saw_clean_miss && f.last_error is Some ==> r is Err && r->Err_0 == f.last_error->0,
        !(r is Ok && r->Ok_0 is Some),
{
}

} // verus!
