//! Access to the part search.

use vstd::prelude::*;
use vstd::string::*;

use crate::text::number::{dec_nat, u64_text};
use crate::text::owned;

verus! {

/// A token is renewed when it has this little left, in nanoseconds: a minute.
pub const REFRESH_BUFFER_NANOS: u64 = 60_000_000_000;

/// Where the client's id is set.
pub const ENV_CLIENT_ID: &'static str = "NEXAR_CLIENT_ID";

/// Where the client's secret is set.
pub const ENV_CLIENT_SECRET: &'static str = "NEXAR_CLIENT_SECRET";

/// Why there is no token.
#[derive(Debug)]
pub enum AuthError {
    RequestFailed(String),
    TokenMissing,
    EnvVarMissing(String),
}

/// The content of an error.
#[verifier::ext_equal]
pub enum AuthErrorView {
    RequestFailed(Seq<char>),
    TokenMissing,
    EnvVarMissing(Seq<char>),
}

impl View for AuthError {
    type V = AuthErrorView;

    open spec fn view(&self) -> AuthErrorView {
        match self {
            AuthError::RequestFailed(m) => AuthErrorView::RequestFailed(m@),
            AuthError::TokenMissing => AuthErrorView::TokenMissing,
            AuthError::EnvVarMissing(m) => AuthErrorView::EnvVarMissing(m@),
        }
    }
}

/// The message of an error.
pub open spec fn auth_error_text(error: AuthErrorView) -> Seq<char> {
    match error {
        AuthErrorView::RequestFailed(m) => "request failed: "@ + m,
        AuthErrorView::TokenMissing => "token missing in auth response"@,
        AuthErrorView::EnvVarMissing(m) => "missing environment variable: "@ + m,
    }
}

impl AuthError {
    /// The message.
    pub fn message(&self) -> (r: String)
        ensures
            r@ == auth_error_text(self@),
    {
        match self {
            AuthError::RequestFailed(m) => {
                let mut s = owned("request failed: ");
                s.append(m.as_str());
                s
            },
            AuthError::TokenMissing => owned("token missing in auth response"),
            AuthError::EnvVarMissing(m) => {
                let mut s = owned("missing environment variable: ");
                s.append(m.as_str());
                s
            },
        }
    }
}

/// A token and the end of its life, in nanoseconds since the program started.
#[derive(Debug)]
pub struct CachedToken {
    pub access_token: String,
    pub expires_at: u64,
}

/// A token that has more than a minute left.
pub open spec fn is_fresh(expires_at: u64, now: u64) -> bool {
    expires_at > now + REFRESH_BUFFER_NANOS
}

/// Whether a token has more than a minute left.
pub fn is_token_fresh(token: &CachedToken, now: u64) -> (r: bool)
    ensures
        r == is_fresh(token.expires_at, now),
{
    token.expires_at > now && token.expires_at - now > REFRESH_BUFFER_NANOS
}

/// The token that can be used again.
pub fn reusable_token(cached: &Option<CachedToken>, now: u64) -> (r: Option<String>)
    ensures
        r.deep_view() == match *cached {
            Some(token) => if is_fresh(token.expires_at, now) {
                Some(token.access_token@)
            } else {
                None
            },
            None => None,
        },
{
    match cached {
        Some(token) => if is_token_fresh(token, now) {
            Some(token.access_token.clone())
        } else {
            None
        },
        None => None,
    }
}

/// What asks for a token.
pub fn token_request(client_id: &str, client_secret: &str) -> (r: String)
    ensures
        r@ == "grant_type=client_credentials&client_id="@ + client_id@ + "&client_secret="@
            + client_secret@ + "&scope=supply.domain"@,
{
    let mut body = owned("grant_type=client_credentials&client_id=");
    body.append(client_id);
    body.append("&client_secret=");
    body.append(client_secret);
    body.append("&scope=supply.domain");
    body
}

/// What answers the question for a token.
#[derive(Debug)]
pub struct TokenResponse {
    pub access_token: Option<String>,
    pub expires_in: u64,
}

/// Why an answer holds no token. The error of reading it is given where it could
/// not be read.
pub open spec fn token_fault(
    status: u16,
    body: Seq<char>,
    parsed: Result<TokenResponse, String>,
) -> Option<AuthErrorView> {
    if status < 200 || status >= 300 {
        Some(
            AuthErrorView::RequestFailed("status "@ + dec_nat(status as nat) + " body "@ + body),
        )
    } else {
        match parsed {
            Err(error) => Some(
                AuthErrorView::RequestFailed(
                    "failed to parse token response as json: "@ + error@ + " body: "@ + body,
                ),
            ),
            Ok(response) => if response.access_token is None {
                Some(AuthErrorView::TokenMissing)
            } else {
                None
            },
        }
    }
}

/// The token that an answer holds, and how long it lives in seconds.
pub fn read_token(status: u16, body: &str, parsed: Result<TokenResponse, String>) -> (r: Result<
    (String, u64),
    AuthError,
>)
    ensures
        match token_fault(status, body@, parsed) {
            Some(fault) => r is Err && r->Err_0@ == fault,
            None => r is Ok && parsed is Ok && Some(r->Ok_0.0) == parsed->Ok_0.access_token
                && r->Ok_0.1 == parsed->Ok_0.expires_in,
        },
{
    if status < 200 || status >= 300 {
        let mut text = owned("status ");
        text.append(u64_text(status as u64).as_str());
        text.append(" body ");
        text.append(body);
        return Err(AuthError::RequestFailed(text));
    }
    match parsed {
        Err(error) => {
            let mut text = owned("failed to parse token response as json: ");
            text.append(error.as_str());
            text.append(" body: ");
            text.append(body);
            Err(AuthError::RequestFailed(text))
        },
        Ok(response) => match response.access_token {
            Some(token) => Ok((token, response.expires_in)),
            None => Err(AuthError::TokenMissing),
        },
    }
}

/// A token is used again while it has more than a minute left.
pub proof fn tokens_are_used_until_a_minute_before_their_end(token: CachedToken, now: u64, r: bool, s: Option<String>)
    requires
        call_ensures(is_token_fresh, (&token, now), r),
        call_ensures(reusable_token, (&Some(token), now), s),
    ensures
        r <==> token.expires_at - now > 60_000_000_000,
        r ==> s is Some && s->0@ == token.access_token@,
        !r ==> s is None,
{
}

/// Where no token is kept, none is used again.
pub proof fn no_token_no_use(now: u64, s: Option<String>)
    requires
        call_ensures(reusable_token, (&None::<CachedToken>, now), s),
    ensures
        s is None,
{
}

/// An answer gives its token where it is a success and holds one, and else the reason.
pub proof fn tokens_are_read(status: u16, body: &str, parsed: Result<TokenResponse, String>, r: Result<(String, u64), AuthError>)
    requires
        call_ensures(read_token, (status, body, parsed), r),
    ensures
        r is Ok <==> 200 <= status <= 299 && parsed is Ok && parsed->Ok_0.access_token is Some,
        r is Ok ==> r->Ok_0.0 == parsed->Ok_0.access_token->0 && r->Ok_0.1 == parsed->Ok_0.expires_in,
        200 <= status <= 299 && parsed is Ok && parsed->Ok_0.access_token is None ==> r is Err && r->Err_0 is TokenMissing,
        status < 200 || status >= 300 ==> r is Err && r->Err_0 is RequestFailed,
{
}

/// A token is asked for with the client's own words.
pub proof fn tokens_are_asked_for(id: &str, secret: &str, r: String)
    requires
        call_ensures(token_request, (id, secret), r),
    ensures
        r@ == "grant_type=client_credentials&client_id="@ + id@ + "&client_secret="@ + secret@
            + "&scope=supply.domain"@,
{
}

/// Every failure to get a token is told by its kind, with what came back.
pub proof fn failures_to_get_tokens_are_told(error: &AuthError, r: String)
    requires
        call_ensures(AuthError::message, (error,), r),
    ensures
        error is RequestFailed ==> r@ == "request failed: "@ + error->RequestFailed_0@,
        error is TokenMissing ==> r@ == "token missing in auth response"@,
        error is EnvVarMissing ==> r@ == "missing environment variable: "@ + error->EnvVarMissing_0@,
{
}

/// An answer that is no success is told with its status and its body.
pub proof fn failed_answers_are_told(status: u16, body: &str, parsed: Result<TokenResponse, String>, r: Result<(String, u64), AuthError>)
    requires
        call_ensures(read_token, (status, body, parsed), r),
        status >= 300,
    ensures
        r is Err && r->Err_0 is RequestFailed,
        r->Err_0->RequestFailed_0@ == "status "@ + dec_nat(status as nat) + " body "@ + body@,
{
}

} // verus!
