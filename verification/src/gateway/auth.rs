//! Who makes a request and what they may do.

use vstd::prelude::*;
use vstd::string::*;

use crate::http::{error_message_reply, error_reply, refusal, refusal_with_message, Reply};
use crate::text::search::{split_once, split_once_at, strip_prefix};
use crate::text::{copy_opt, is_blank, owned, same, trim, trimmed};

verus! {

/// The part a person has in a team.
#[derive(Debug, Clone, Copy, PartialEq, Eq, Structural)]
pub enum TeamRole {
    Owner,
    Admin,
    ReadOnly,
}

/// The name of a role.
pub open spec fn role_text(role: TeamRole) -> Seq<char> {
    match role {
        TeamRole::Owner => "owner"@,
        TeamRole::Admin => "admin"@,
        TeamRole::ReadOnly => "read_only"@,
    }
}

/// The role with that name.
pub open spec fn role_of(text: Seq<char>) -> Option<TeamRole> {
    if text == "owner"@ {
        Some(TeamRole::Owner)
    } else if text == "admin"@ {
        Some(TeamRole::Admin)
    } else if text == "read_only"@ {
        Some(TeamRole::ReadOnly)
    } else {
        None
    }
}

impl TeamRole {
    /// The name of the role.
    pub fn as_str(self) -> (r: &'static str)
        ensures
            r@ == role_text(self),
    {
        match self {
            TeamRole::Owner => "owner",
            TeamRole::Admin => "admin",
            TeamRole::ReadOnly => "read_only",
        }
    }

    /// The role with that name.
    pub fn parse(value: &str) -> (r: Option<Self>)
        ensures
            r == role_of(value@),
    {
        if same(value, "owner") {
            Some(TeamRole::Owner)
        } else if same(value, "admin") {
            Some(TeamRole::Admin)
        } else if same(value, "read_only") {
            Some(TeamRole::ReadOnly)
        } else {
            None
        }
    }

    /// Whether the role may change boms.
    pub fn can_write(self) -> (r: bool)
        ensures
            r == (self != TeamRole::ReadOnly),
    {
        !matches!(self, TeamRole::ReadOnly)
    }

    /// Whether the role may manage the team.
    pub fn can_manage_team(self) -> (r: bool)
        ensures
            r == (self == TeamRole::Owner || self == TeamRole::Admin),
    {
        matches!(self, TeamRole::Owner | TeamRole::Admin)
    }

    /// Whether somebody can be invited in this role.
    pub fn can_invite_as(self) -> (r: bool)
        ensures
            r == (self == TeamRole::Admin || self == TeamRole::ReadOnly),
    {
        matches!(self, TeamRole::Admin | TeamRole::ReadOnly)
    }
}

/// A role's name reads back as the role.
pub proof fn role_round_trip(role: TeamRole)
    ensures
        role_of(role_text(role)) == Some(role),
{
    reveal_strlit("owner");
    reveal_strlit("admin");
    reveal_strlit("read_only");
    assert("owner"@[0] != "admin"@[0]);
}

/// The person behind a request.
#[derive(Debug)]
pub struct AuthUser {
    pub user_id: String,
    pub account_id: String,
    pub email: Option<String>,
    pub first_name: Option<String>,
    pub last_name: Option<String>,
    pub role: TeamRole,
}

/// The content of a user.
#[verifier::ext_equal]
pub struct AuthUserView {
    pub user_id: Seq<char>,
    pub account_id: Seq<char>,
    pub email: Option<Seq<char>>,
    pub first_name: Option<Seq<char>>,
    pub last_name: Option<Seq<char>>,
    pub role: TeamRole,
}

impl View for AuthUser {
    type V = AuthUserView;

    open spec fn view(&self) -> AuthUserView {
        AuthUserView {
            user_id: self.user_id@,
            account_id: self.account_id@,
            email: self.email.deep_view(),
            first_name: self.first_name.deep_view(),
            last_name: self.last_name.deep_view(),
            role: self.role,
        }
    }
}

impl Clone for AuthUser {
    fn clone(&self) -> (r: Self)
        ensures
            r == *self,
    {
        AuthUser {
            user_id: self.user_id.clone(),
            account_id: self.account_id.clone(),
            email: copy_opt(&self.email),
            first_name: copy_opt(&self.first_name),
            last_name: copy_opt(&self.last_name),
            role: self.role,
        }
    }
}

/// The user pool that issues tokens.
#[derive(Debug)]
pub struct AuthConfig {
    pub client_id: String,
    pub issuer: String,
    pub jwks_url: String,
}

impl AuthConfig {
    /// The configuration of a user pool in a region; `us-west-2` where none is given.
    pub fn for_pool(user_pool_id: &str, client_id: &str, region: Option<&str>) -> (r: Self)
        ensures
            r.client_id@ == client_id@,
            r.issuer@ == issuer_of(user_pool_id@, region.deep_view()),
            r.jwks_url@ == r.issuer@ + "/.well-known/jwks.json"@,
    {
        let mut issuer = owned("https://cognito-idp.");
        match region {
            Some(region) => issuer.append(region),
            None => issuer.append("us-west-2"),
        }
        issuer.append(".amazonaws.com/");
        issuer.append(user_pool_id);
        let mut jwks_url = issuer.clone();
        jwks_url.append("/.well-known/jwks.json");
        AuthConfig { client_id: owned(client_id), issuer, jwks_url }
    }
}

/// The issuer of a user pool's tokens.
pub open spec fn issuer_of(user_pool_id: Seq<char>, region: Option<Seq<char>>) -> Seq<char> {
    let region = match region {
        Some(region) => region,
        None => "us-west-2"@,
    };
    "https://cognito-idp."@ + region + ".amazonaws.com/"@ + user_pool_id
}

/// Why a request has no user.
#[derive(Debug, Clone, Copy, PartialEq, Eq, Structural)]
pub enum AuthError {
    MissingHeader,
    InvalidHeader,
    InvalidToken,
}

/// The message of an authentication error.
pub open spec fn auth_error_text(error: AuthError) -> Seq<char> {
    match error {
        AuthError::MissingHeader => "missing authorization header"@,
        AuthError::InvalidHeader => "invalid authorization header"@,
        AuthError::InvalidToken => "token verification failed"@,
    }
}

impl AuthError {
    /// The message.
    pub fn message(self) -> (r: &'static str)
        ensures
            r@ == auth_error_text(self),
    {
        match self {
            AuthError::MissingHeader => "missing authorization header",
            AuthError::InvalidHeader => "invalid authorization header",
            AuthError::InvalidToken => "token verification failed",
        }
    }
}

/// What a verified token says of its holder.
#[derive(Debug)]
pub struct CognitoClaims {
    pub sub: String,
    pub email: Option<String>,
    pub given_name: Option<String>,
    pub family_name: Option<String>,
    pub token_use: String,
}

/// What a token's header says of the key that signed it: nothing where the
/// token is malformed, and no id where the header holds none.
pub uninterp spec fn token_header_kid(token: Seq<char>) -> Option<Option<Seq<char>>>;

/// `jsonwebtoken::decode_header`: the `kid` of a token's header. Which tokens
/// have a readable header is not stated beyond the name.
#[verifier::external_body]
fn decode_header_kid(token: &str) -> (r: Option<Option<String>>)
    ensures
        r.deep_view() == token_header_kid(token@),
{
    jsonwebtoken::decode_header(token).ok().map(|header| header.kid)
}

/// The id of the key that signed the token.
pub fn signing_key_id(token: &str) -> (r: Result<String, AuthError>)
    ensures
        match token_header_kid(token@) {
            Some(Some(kid)) => r is Ok && r->Ok_0@ == kid,
            _ => r == Err::<String, AuthError>(AuthError::InvalidToken),
        },
{
    key_id(decode_header_kid(token))
}

/// The key id of a header; a header without one is an invalid token.
pub fn key_id(header: Option<Option<String>>) -> (r: Result<String, AuthError>)
    ensures
        match header.deep_view() {
            Some(Some(kid)) => r is Ok && r->Ok_0@ == kid,
            _ => r == Err::<String, AuthError>(AuthError::InvalidToken),
        },
{
    match header {
        Some(Some(kid)) => Ok(kid),
        _ => Err(AuthError::InvalidToken),
    }
}

/// A name without surrounding white space; blanks and a dash are no name.
pub open spec fn cleaned_name(raw: Option<Seq<char>>) -> Option<Seq<char>> {
    match raw {
        Some(name) => if is_blank(name) || trimmed(name) == "-"@ {
            None
        } else {
            Some(trimmed(name))
        },
        None => None,
    }
}

/// A name without surrounding white space; blanks and a dash are no name.
pub fn clean_name(raw: Option<String>) -> (r: Option<String>)
    ensures
        r.deep_view() == cleaned_name(raw.deep_view()),
{
    match raw {
        Some(name) => {
            let t = trim(name.as_str());
            if t.as_str().is_empty() || same(t.as_str(), "-") {
                None
            } else {
                Some(t)
            }
        },
        None => None,
    }
}

/// A person on their own: the owner of the account that has their id.
pub open spec fn identity_view(
    user_id: Seq<char>,
    email: Option<Seq<char>>,
    first_name: Option<Seq<char>>,
    last_name: Option<Seq<char>>,
) -> AuthUserView {
    AuthUserView {
        user_id,
        account_id: user_id,
        email,
        first_name,
        last_name,
        role: TeamRole::Owner,
    }
}

/// A person on their own: the owner of the account that has their id.
pub fn identity_user(
    user_id: String,
    email: Option<String>,
    first_name: Option<String>,
    last_name: Option<String>,
) -> (r: AuthUser)
    ensures
        r@ == identity_view(
            user_id@,
            email.deep_view(),
            first_name.deep_view(),
            last_name.deep_view(),
        ),
{
    AuthUser {
        account_id: user_id.clone(),
        user_id,
        email,
        first_name,
        last_name,
        role: TeamRole::Owner,
    }
}

/// The person that verified claims speak of. Only identity tokens count.
pub fn user_from_claims(claims: CognitoClaims) -> (r: Result<AuthUser, AuthError>)
    ensures
        claims.token_use@ != "id"@ ==> r == Err::<AuthUser, AuthError>(AuthError::InvalidToken),
        claims.token_use@ == "id"@ ==> r is Ok && r->Ok_0@ == identity_view(
            claims.sub@,
            claims.email.deep_view(),
            cleaned_name(claims.given_name.deep_view()),
            cleaned_name(claims.family_name.deep_view()),
        ),
{
    if !same(claims.token_use.as_str(), "id") {
        return Err(AuthError::InvalidToken);
    }
    Ok(
        identity_user(
            claims.sub,
            claims.email,
            clean_name(claims.given_name),
            clean_name(claims.family_name),
        ),
    )
}

/// The token of an `Authorization` header.
pub open spec fn bearer_of(header: Option<Seq<char>>) -> Result<Seq<char>, AuthError> {
    match header {
        None => Err(AuthError::MissingHeader),
        Some(value) => if "Bearer "@.is_prefix_of(value) {
            Ok(value.skip("Bearer "@.len() as int))
        } else {
            Err(AuthError::InvalidHeader)
        },
    }
}

/// The token of an `Authorization` header.
pub fn bearer_token(header: Option<&str>) -> (r: Result<String, AuthError>)
    ensures
        match bearer_of(header.deep_view()) {
            Ok(token) => r is Ok && r->Ok_0@ == token,
            Err(error) => r == Err::<String, AuthError>(error),
        },
{
    match header {
        None => Err(AuthError::MissingHeader),
        Some(value) => match strip_prefix(value, "Bearer ") {
            Some(token) => Ok(token),
            None => Err(AuthError::InvalidHeader),
        },
    }
}

/// The user id and the email in `user_id` or `user_id:email`.
pub open spec fn bypass_identity(identity: Seq<char>) -> Option<(Seq<char>, Option<Seq<char>>)> {
    match split_once_at(identity, ':') {
        Some((user_id, email)) => if user_id.len() > 0 && email.len() > 0 {
            Some((user_id, Some(email)))
        } else {
            Some((identity, None))
        },
        None => if identity.len() > 0 {
            Some((identity, None))
        } else {
            None
        },
    }
}

/// The names in `First|Last`.
pub open spec fn bypass_names(names: Option<Seq<char>>) -> (Option<Seq<char>>, Option<Seq<char>>) {
    match names {
        None => (None, None),
        Some(names) => match split_once_at(names, '|') {
            Some((first, last)) => (cleaned_name(Some(first)), cleaned_name(Some(last))),
            None => (cleaned_name(Some(names)), cleaned_name(Some(""@))),
        },
    }
}

/// The person that a local token `test:user_id:email|First|Last` names.
pub open spec fn bypass_user(header: Option<Seq<char>>) -> Option<AuthUserView> {
    match bearer_of(header) {
        Err(_) => None,
        Ok(token) => if !"test:"@.is_prefix_of(token) {
            None
        } else {
            let rest = token.skip("test:"@.len() as int);
            let (identity, names) = match split_once_at(rest, '|') {
                Some((identity, names)) => (identity, Some(names)),
                None => (rest, None),
            };
            match bypass_identity(identity) {
                Some((user_id, email)) => Some(
                    identity_view(user_id, email, bypass_names(names).0, bypass_names(names).1),
                ),
                None => None,
            }
        },
    }
}

/// The person that a local token `test:user_id:email|First|Last` names.
pub fn local_bypass_identity(header: Option<&str>) -> (r: Option<AuthUser>)
    ensures
        r is Some <==> bypass_user(header.deep_view()) is Some,
        r is Some ==> Some(r->0@) == bypass_user(header.deep_view()),
{
    let token = match bearer_token(header) {
        Ok(token) => token,
        Err(_) => {
            return None;
        },
    };
    let rest = match strip_prefix(token.as_str(), "test:") {
        Some(rest) => rest,
        None => {
            return None;
        },
    };
    let (identity, names) = match split_once(rest.as_str(), '|') {
        Some((identity, names)) => (identity, Some(names)),
        None => (rest, None),
    };
    let (first_name, last_name) = match names {
        Some(names) => match split_once(names.as_str(), '|') {
            Some((first, last)) => (clean_name(Some(first)), clean_name(Some(last))),
            None => (clean_name(Some(names)), clean_name(Some(owned("")))),
        },
        None => (None, None),
    };
    match split_once(identity.as_str(), ':') {
        Some((user_id, email)) => {
            if !user_id.as_str().is_empty() && !email.as_str().is_empty() {
                Some(identity_user(user_id, Some(email), first_name, last_name))
            } else {
                Some(identity_user(identity, None, first_name, last_name))
            }
        },
        None => {
            if identity.as_str().is_empty() {
                None
            } else {
                Some(identity_user(identity, None, first_name, last_name))
            }
        },
    }
}

/// Refuses those who may only read.
pub fn require_write(user: &AuthUser) -> (r: Result<(), Reply>)
    ensures
        r is Ok <==> user.role != TeamRole::ReadOnly,
        r is Err ==> r->Err_0@ == refusal_with_message(
            403,
            "forbidden"@,
            "read_only role cannot perform this action"@,
        ),
{
    if user.role.can_write() {
        Ok(())
    } else {
        Err(error_message_reply(403, "forbidden", "read_only role cannot perform this action"))
    }
}

/// Refuses those who may not manage the team.
pub fn require_manage_team(user: &AuthUser) -> (r: Result<(), Reply>)
    ensures
        r is Ok <==> (user.role == TeamRole::Owner || user.role == TeamRole::Admin),
        r is Err ==> r->Err_0@ == refusal_with_message(
            403,
            "forbidden"@,
            "only owner or admin can manage team members"@,
        ),
{
    if user.role.can_manage_team() {
        Ok(())
    } else {
        Err(error_message_reply(403, "forbidden", "only owner or admin can manage team members"))
    }
}

/// Who a caller is, as far as it shows without asking the issuer of tokens.
#[derive(Debug)]
pub enum Identity {
    Known(AuthUser),
    Refused(Reply),
    /// The token is to be verified.
    Verify,
}

/// Finds out who a caller is: by the local bypass where that is switched on, else
/// by a token, which needs a configured issuer.
pub fn identify(bypass: Option<&str>, configured: bool, header: Option<&str>) -> (r: Identity)
    ensures
        ({
            let known = if bypass is Some && bypass->0@ == "1"@ {
                bypass_user(header.deep_view())
            } else {
                None
            };
            match known {
                Some(user) => r is Known && r->Known_0@ == user,
                None => if configured {
                    r is Verify
                } else {
                    r is Refused && r->Refused_0@ == refusal(503, "auth not configured"@)
                },
            }
        }),
{
    if let Some(switch) = bypass {
        if same(switch, "1") {
            if let Some(user) = local_bypass_identity(header) {
                return Identity::Known(user);
            }
        }
    }
    if !configured {
        return Identity::Refused(error_reply(503, "auth not configured"));
    }
    Identity::Verify
}

/// Who a caller is, once the token was verified.
pub fn admit_identity(outcome: Result<AuthUser, AuthError>) -> (r: Result<AuthUser, Reply>)
    ensures
        match outcome {
            Ok(user) => r == Ok::<AuthUser, Reply>(user),
            Err(error) => r is Err && r->Err_0@ == refusal(401, auth_error_text(error)),
        },
{
    match outcome {
        Ok(user) => Ok(user),
        Err(error) => Err(error_reply(401, error.message())),
    }
}

/// Owners and admins manage the team and change boms; readers do neither; nobody is
/// invited as an owner.
pub proof fn roles_allow(role: TeamRole, write: bool, manage: bool, invite: bool)
    requires
        call_ensures(TeamRole::can_write, (role,), write),
        call_ensures(TeamRole::can_manage_team, (role,), manage),
        call_ensures(TeamRole::can_invite_as, (role,), invite),
    ensures
        role == TeamRole::Owner ==> write && manage && !invite,
        role == TeamRole::Admin ==> write && manage && invite,
        role == TeamRole::ReadOnly ==> !write && !manage && invite,
{
}

/// The three roles are known by their names and nothing else is a role.
pub proof fn roles_are_named(value: &str, r: Option<TeamRole>)
    requires
        call_ensures(TeamRole::parse, (value,), r),
    ensures
        r == Some(TeamRole::Owner) <==> value@ == "owner"@,
        r == Some(TeamRole::Admin) <==> value@ == "admin"@,
        r == Some(TeamRole::ReadOnly) <==> value@ == "read_only"@,
{
    reveal_strlit("owner");
    reveal_strlit("admin");
    reveal_strlit("read_only");
    assert("owner"@.len() == 5 && "owner"@[0] == 'o');
    assert("admin"@.len() == 5 && "admin"@[0] == 'a');
    assert("read_only"@.len() == 9);
}

/// Who may only read is refused where something changes, and nobody else is.
pub proof fn readers_are_refused(user: &AuthUser, r: Result<(), Reply>, s: Result<(), Reply>)
    requires
        call_ensures(require_write, (user,), r),
        call_ensures(require_manage_team, (user,), s),
    ensures
        user.role == TeamRole::ReadOnly ==> r is Err && r->Err_0@.status == 403 && s is Err && s->Err_0@.status == 403,
        user.role == TeamRole::Owner || user.role == TeamRole::Admin ==> r is Ok && s is Ok,
{
}

/// The token is what follows the word `Bearer` and a blank; without them there is none.
pub proof fn bearer_tokens_are_read(header: &str, r: Result<String, AuthError>, token: Seq<char>)
    requires
        call_ensures(bearer_token, (Some(header),), r),
    ensures
        header@ == "Bearer "@ + token ==> r is Ok && r->Ok_0@ == token,
        r is Err ==> r->Err_0 == AuthError::InvalidHeader,
        header@.len() < 7 ==> r is Err,
        r is Ok ==> header@ == "Bearer "@ + r->Ok_0@,
{
    reveal_strlit("Bearer ");
    assert("Bearer "@.len() == 7);
    if header@ == "Bearer "@ + token {
        assert("Bearer "@.is_prefix_of(header@));
        assert(header@.skip(7) =~= token);
    }
    if r is Ok {
        assert(header@ =~= "Bearer "@ + header@.skip(7)) by {
            assert("Bearer "@ == header@.subrange(0, 7));
            assert(header@.subrange(0, 7) + header@.skip(7) =~= header@);
        }
    }
}

/// A request without the header has no token.
pub proof fn no_header_no_token(r: Result<String, AuthError>)
    requires
        call_ensures(bearer_token, (None::<&str>,), r),
    ensures
        r == Err::<String, AuthError>(AuthError::MissingHeader),
{
}

/// The person of an identity token has the token's id and email, is the owner of their own
/// account, and has the names that are names. Other tokens are refused.
pub proof fn claims_make_users(claims: CognitoClaims, r: Result<AuthUser, AuthError>)
    requires
        call_ensures(user_from_claims, (claims,), r),
    ensures
        r is Ok <==> claims.token_use@ == "id"@,
        r is Err ==> r->Err_0 == AuthError::InvalidToken,
        r is Ok ==> {
            let user = r->Ok_0@;
            &&& user.user_id == claims.sub@
            &&& user.account_id == claims.sub@
            &&& user.email == claims.email.deep_view()
            &&& user.role == TeamRole::Owner
            &&& claims.given_name is None ==> user.first_name is None
            &&& claims.family_name is None ==> user.last_name is None
            &&& claims.given_name is Some && !is_blank(claims.given_name->0@) && trimmed(claims.given_name->0@) != "-"@
                ==> user.first_name == Some(trimmed(claims.given_name->0@))
            &&& claims.family_name is Some && !is_blank(claims.family_name->0@) && trimmed(claims.family_name->0@) != "-"@
                ==> user.last_name == Some(trimmed(claims.family_name->0@))
        },
{
}

/// Blanks and a dash are no name; any other name is kept without the blanks around it.
pub proof fn names_are_cleaned(raw: Option<String>, r: Option<String>)
    requires
        call_ensures(clean_name, (raw,), r),
    ensures
        raw is None ==> r is None,
        raw is Some && is_blank(raw->0@) ==> r is None,
        raw is Some && trimmed(raw->0@) == "-"@ ==> r is None,
        raw is Some && !is_blank(raw->0@) && trimmed(raw->0@) != "-"@ ==> r is Some && r->0@ == trimmed(raw->0@),
{
}

/// The issuer is the pool in its region, and its keys are published below it.
pub proof fn pools_have_issuers(pool: &str, client: &str, region: &str, r: AuthConfig, d: AuthConfig)
    requires
        call_ensures(AuthConfig::for_pool, (pool, client, Some(region)), r),
        call_ensures(AuthConfig::for_pool, (pool, client, None::<&str>), d),
    ensures
        r.issuer@ == "https://cognito-idp."@ + region@ + ".amazonaws.com/"@ + pool@,
        d.issuer@ == "https://cognito-idp."@ + "us-west-2"@ + ".amazonaws.com/"@ + pool@,
        r.jwks_url@ == r.issuer@ + "/.well-known/jwks.json"@,
        r.client_id@ == client@,
        region@ == "us-west-2"@ ==> r.issuer@ == d.issuer@,
{
}

/// A header without the id of a key is an invalid token.
pub proof fn tokens_name_their_key(header: Option<Option<String>>, r: Result<String, AuthError>)
    requires
        call_ensures(key_id, (header,), r),
    ensures
        r is Ok <==> header is Some && header->0 is Some,
        r is Ok ==> r->Ok_0@ == header->0->0@,
        r is Err ==> r->Err_0 == AuthError::InvalidToken,
{
}

/// Without the bypass switched on nobody is known by a local token: the token is verified,
/// or where no issuer is set up, refused.
pub proof fn local_tokens_need_the_bypass(bypass: Option<&str>, configured: bool, header: Option<&str>, r: Identity)
    requires
        call_ensures(identify, (bypass, configured, header), r),
        bypass is None || bypass->0@ != "1"@,
    ensures
        configured ==> r is Verify,
        !configured ==> r is Refused && r->Refused_0@.status == 503,
{
}

/// With the bypass switched on, a token that names a local user and email is that user.
pub proof fn local_tokens_name_users(
    configured: bool,
    header: &str,
    bypass: &str,
    r: Identity,
    user_id: Seq<char>,
    email: Seq<char>,
)
    requires
        call_ensures(identify, (Some(bypass), configured, Some(header)), r),
        bypass@ == "1"@,
        header@ == "Bearer "@ + ("test:"@ + (user_id + seq![':'] + email)),
        user_id.len() > 0,
        email.len() > 0,
        !user_id.contains(':'),
        !user_id.contains('|'),
        !email.contains('|'),
    ensures
        r is Known,
        r->Known_0@.user_id == user_id,
        r->Known_0@.account_id == user_id,
        r->Known_0@.email == Some(email),
        r->Known_0@.role == TeamRole::Owner,
        r->Known_0@.first_name is None,
        r->Known_0@.last_name is None,
{
    let rest = user_id + seq![':'] + email;
    let token = "test:"@ + rest;
    assert("Bearer "@.is_prefix_of(header@));
    assert(header@.skip("Bearer "@.len() as int) =~= token);
    assert("test:"@.is_prefix_of(token));
    assert(token.skip("test:"@.len() as int) =~= rest);
    assert(!rest.contains('|')) by {
        if rest.contains('|') {
            let k = choose|k: int| 0 <= k < rest.len() && rest[k] == '|';
            if k < user_id.len() {
                assert(user_id[k] == '|');
            } else if k > user_id.len() {
                assert(email[k - user_id.len() - 1] == '|');
            }
        }
    }
    crate::text::search::first_separator_parts(rest, Seq::empty(), '|');
    crate::text::search::first_separator_parts(user_id, email, ':');
}

/// Whoever was verified is let in as themselves; whoever was not is told so.
pub proof fn verified_users_are_let_in(outcome: Result<AuthUser, AuthError>, r: Result<AuthUser, Reply>)
    requires
        call_ensures(admit_identity, (outcome,), r),
    ensures
        outcome is Ok ==> r is Ok && r->Ok_0 == outcome->Ok_0,
        outcome is Err ==> r is Err && r->Err_0@.status == 401,
{
}

/// A local token names the user, the email and the two names, in that order.
pub proof fn local_tokens_bring_names(
    header: &str,
    r: Option<AuthUser>,
    user_id: Seq<char>,
    email: Seq<char>,
    first: Seq<char>,
    last: Seq<char>,
)
    requires
        call_ensures(local_bypass_identity, (Some(header),), r),
        header@ == "Bearer "@ + ("test:"@ + ((user_id + seq![':'] + email) + seq!['|'] + (first + seq!['|'] + last))),
        user_id.len() > 0,
        email.len() > 0,
        !user_id.contains(':'),
        !user_id.contains('|'),
        !email.contains('|'),
        !first.contains('|'),
        !is_blank(first),
        !is_blank(last),
        trimmed(first) != "-"@,
        trimmed(last) != "-"@,
    ensures
        r is Some,
        r->0@.user_id == user_id && r->0@.account_id == user_id,
        r->0@.email == Some(email),
        r->0@.first_name == Some(trimmed(first)),
        r->0@.last_name == Some(trimmed(last)),
{
    let identity = user_id + seq![':'] + email;
    let names = first + seq!['|'] + last;
    let rest = identity + seq!['|'] + names;
    let token = "test:"@ + rest;
    assert("Bearer "@.is_prefix_of(header@));
    assert(header@.skip("Bearer "@.len() as int) =~= token);
    assert("test:"@.is_prefix_of(token));
    assert(token.skip("test:"@.len() as int) =~= rest);
    assert(!identity.contains('|')) by {
        if identity.contains('|') {
            let k = choose|k: int| 0 <= k < identity.len() && identity[k] == '|';
            if k < user_id.len() {
                assert(user_id[k] == '|');
            } else if k > user_id.len() {
                assert(email[k - user_id.len() - 1] == '|');
            }
        }
    }
    crate::text::search::first_separator_parts(identity, names, '|');
    crate::text::search::first_separator_parts(user_id, email, ':');
    crate::text::search::first_separator_parts(first, last, '|');
}

/// A person on their own is the owner of the account that has their id.
pub proof fn people_own_their_account(
    user_id: String,
    email: Option<String>,
    first: Option<String>,
    last: Option<String>,
    r: AuthUser,
)
    requires
        call_ensures(identity_user, (user_id, email, first, last), r),
    ensures
        r@.user_id == user_id@ && r@.account_id == user_id@,
        r@.role == TeamRole::Owner,
        r@.email == email.deep_view() && r@.first_name == first.deep_view() && r@.last_name == last.deep_view(),
{
}

/// A local token without an email names its user alone; one that names nobody is none.
pub proof fn local_tokens_may_have_no_email(header: &str, r: Option<AuthUser>, user_id: Seq<char>)
    requires
        call_ensures(local_bypass_identity, (Some(header),), r),
        !user_id.contains(':'),
        !user_id.contains('|'),
    ensures
        header@ == "Bearer "@ + ("test:"@ + user_id) && user_id.len() > 0 ==> r is Some && r->0@.user_id == user_id
            && r->0@.email is None,
        header@ == "Bearer "@ + "test:"@ ==> r is None,
        header@ == "Bearer "@ + ("test:"@ + user_id.push(':')) ==> r is Some && r->0@.user_id == user_id.push(':')
            && r->0@.email is None,
{
    let token = "test:"@ + user_id;
    let colon = user_id.push(':');
    assert("Bearer "@.is_prefix_of("Bearer "@ + token));
    assert(("Bearer "@ + token).skip("Bearer "@.len() as int) =~= token);
    assert("test:"@.is_prefix_of(token));
    assert(token.skip("test:"@.len() as int) =~= user_id);
    assert("Bearer "@.is_prefix_of("Bearer "@ + "test:"@));
    assert(("Bearer "@ + "test:"@).skip("Bearer "@.len() as int) =~= "test:"@);
    assert("test:"@.is_prefix_of("test:"@));
    assert("test:"@.skip("test:"@.len() as int) =~= Seq::<char>::empty());
    let more = "test:"@ + colon;
    assert("Bearer "@.is_prefix_of("Bearer "@ + more));
    assert(("Bearer "@ + more).skip("Bearer "@.len() as int) =~= more);
    assert("test:"@.is_prefix_of(more));
    assert(more.skip("test:"@.len() as int) =~= colon);
    assert(!colon.contains('|')) by {
        if colon.contains('|') {
            let k = choose|k: int| 0 <= k < colon.len() && colon[k] == '|';
            if k < user_id.len() {
                assert(user_id[k] == '|');
            }
        }
    }
    crate::text::search::first_separator_parts(user_id, Seq::empty(), '|');
    crate::text::search::first_separator_parts(user_id, Seq::empty(), ':');
    crate::text::search::first_separator_parts(colon, Seq::empty(), '|');
    crate::text::search::first_separator_parts(Seq::empty(), Seq::empty(), '|');
    crate::text::search::first_separator_parts(Seq::empty(), Seq::empty(), ':');
    assert(user_id + seq![':'] + Seq::<char>::empty() =~= colon);
}

/// Each failure to tell who a caller is has its words.
pub proof fn failures_to_identify_are_told(error: AuthError, r: &'static str)
    requires
        call_ensures(AuthError::message, (error,), r),
    ensures
        error == AuthError::MissingHeader ==> r@ == "missing authorization header"@,
        error == AuthError::InvalidHeader ==> r@ == "invalid authorization header"@,
        error == AuthError::InvalidToken ==> r@ == "token verification failed"@,
{
}

} // verus!
