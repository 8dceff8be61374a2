//! Who belongs to which account.

use vstd::prelude::*;
use vstd::string::*;
use vstd::utf8::is_ascii_chars;

use crate::clock::{format_rfc3339, has_plain_year, moment_of, parse_moment, rfc3339_text, utc_now, Moment, MAX_SECS};
use crate::dynamo::{
    get_s, new_item, put_n, put_opt, put_s, set_text, text_attr, viewed, viewed_insert, viewed_remove, AttrView, Item, ItemView,
};
use crate::gateway::auth::{role_of, role_round_trip, role_text, AuthUser, AuthUserView, TeamRole};
use crate::gateway::billing::records::{account_key, account_pk, as_str_opt, grant_email, normalize_grant_email, plausible_email};
use crate::gateway::billing::service::lookup;
use crate::ids::{is_uuid_text, new_uuid};
use crate::model::purchasing::BillingPlan;
use crate::sorting::{is_stable_sort, lex_lt, stable_sort, text_key, text_less, SortKey};
use crate::strmap::{entry_in_map, key_has_entry, StrMap};
use crate::text::case::{ascii_lower, eq_ascii_case, eq_ignore_ascii_case};
use crate::text::number::{dec_int, i64_text};
use crate::text::search::starts_with;
use crate::text::{copy_opt, owned, same, trimmed};

verus! {

/// How long an invitation holds, in seconds: seven days.
pub const INVITE_TTL_SECS: i64 = 604_800;

/// Why a team operation is refused.
#[derive(Debug)]
pub enum TeamError {
    Invalid(String),
    Conflict(String),
    Forbidden(String),
    NotFound,
    Expired,
    EmailMismatch,
    Store(String),
}

/// The content of a team error.
#[verifier::ext_equal]
pub enum TeamErrorView {
    Invalid(Seq<char>),
    Conflict(Seq<char>),
    Forbidden(Seq<char>),
    NotFound,
    Expired,
    EmailMismatch,
    Store(Seq<char>),
}

impl View for TeamError {
    type V = TeamErrorView;

    open spec fn view(&self) -> TeamErrorView {
        match self {
            TeamError::Invalid(m) => TeamErrorView::Invalid(m@),
            TeamError::Conflict(m) => TeamErrorView::Conflict(m@),
            TeamError::Forbidden(m) => TeamErrorView::Forbidden(m@),
            TeamError::NotFound => TeamErrorView::NotFound,
            TeamError::Expired => TeamErrorView::Expired,
            TeamError::EmailMismatch => TeamErrorView::EmailMismatch,
            TeamError::Store(m) => TeamErrorView::Store(m@),
        }
    }
}

/// The message of a team error.
pub open spec fn team_error_text(error: TeamErrorView) -> Seq<char> {
    match error {
        TeamErrorView::Invalid(m) => m,
        TeamErrorView::Conflict(m) => m,
        TeamErrorView::Forbidden(m) => m,
        TeamErrorView::NotFound => "not found"@,
        TeamErrorView::Expired => "invite expired"@,
        TeamErrorView::EmailMismatch => "invite email does not match signed-in user"@,
        TeamErrorView::Store(m) => m,
    }
}

impl TeamError {
    /// The message.
    pub fn message(&self) -> (r: String)
        ensures
            r@ == team_error_text(self@),
    {
        match self {
            TeamError::Invalid(m) => m.clone(),
            TeamError::Conflict(m) => m.clone(),
            TeamError::Forbidden(m) => m.clone(),
            TeamError::NotFound => owned("not found"),
            TeamError::Expired => owned("invite expired"),
            TeamError::EmailMismatch => owned("invite email does not match signed-in user"),
            TeamError::Store(m) => m.clone(),
        }
    }
}

/// A member of an account.
#[derive(Debug)]
pub struct MemberRecord {
    pub user_id: String,
    pub account_id: String,
    pub email: Option<String>,
    pub role: TeamRole,
    pub created_at: String,
}

/// The content of a member.
#[verifier::ext_equal]
pub struct MemberView {
    pub user_id: Seq<char>,
    pub account_id: Seq<char>,
    pub email: Option<Seq<char>>,
    pub role: TeamRole,
    pub created_at: Seq<char>,
}

impl View for MemberRecord {
    type V = MemberView;

    open spec fn view(&self) -> MemberView {
        MemberView {
            user_id: self.user_id@,
            account_id: self.account_id@,
            email: self.email.deep_view(),
            role: self.role,
            created_at: self.created_at@,
        }
    }
}

impl Clone for MemberRecord {
    fn clone(&self) -> (r: Self)
        ensures
            r == *self,
    {
        MemberRecord {
            user_id: self.user_id.clone(),
            account_id: self.account_id.clone(),
            email: copy_opt(&self.email),
            role: self.role,
            created_at: self.created_at.clone(),
        }
    }
}

impl SortKey for MemberRecord {
    open spec fn sort_key(&self) -> Seq<int> {
        text_key(self.created_at@)
    }

    fn less(&self, other: &Self) -> (r: bool) {
        text_less(self.created_at.as_str(), other.created_at.as_str())
    }
}

/// An invitation to an account.
#[derive(Debug)]
pub struct InviteRecord {
    pub id: String,
    pub account_id: String,
    pub email: String,
    pub role: TeamRole,
    pub invited_by: String,
    pub expires_at: String,
    pub created_at: String,
}

/// The content of an invitation.
#[verifier::ext_equal]
pub struct InviteView {
    pub id: Seq<char>,
    pub account_id: Seq<char>,
    pub email: Seq<char>,
    pub role: TeamRole,
    pub invited_by: Seq<char>,
    pub expires_at: Seq<char>,
    pub created_at: Seq<char>,
}

impl View for InviteRecord {
    type V = InviteView;

    open spec fn view(&self) -> InviteView {
        InviteView {
            id: self.id@,
            account_id: self.account_id@,
            email: self.email@,
            role: self.role,
            invited_by: self.invited_by@,
            expires_at: self.expires_at@,
            created_at: self.created_at@,
        }
    }
}

impl Clone for InviteRecord {
    fn clone(&self) -> (r: Self)
        ensures
            r == *self,
    {
        InviteRecord {
            id: self.id.clone(),
            account_id: self.account_id.clone(),
            email: self.email.clone(),
            role: self.role,
            invited_by: self.invited_by.clone(),
            expires_at: self.expires_at.clone(),
            created_at: self.created_at.clone(),
        }
    }
}

impl SortKey for InviteRecord {
    open spec fn sort_key(&self) -> Seq<int> {
        text_key(self.created_at@)
    }

    fn less(&self, other: &Self) -> (r: bool) {
        text_less(self.created_at.as_str(), other.created_at.as_str())
    }
}

/// The members of an account and its open invitations.
#[derive(Debug)]
pub struct TeamSnapshot {
    pub members: Vec<MemberRecord>,
    pub invites: Vec<InviteRecord>,
}

/// The teams, in memory. A user belongs to one account.
pub struct TeamStore {
    pub users: StrMap<MemberRecord>,
    pub invites: StrMap<InviteRecord>,
    pub plans: StrMap<BillingPlan>,
}

/// The content of the teams.
#[verifier::ext_equal]
pub struct TeamView {
    pub users: Map<Seq<char>, MemberView>,
    pub invites: Map<Seq<char>, InviteView>,
    pub plans: Map<Seq<char>, BillingPlan>,
}

impl View for TeamStore {
    type V = TeamView;

    open spec fn view(&self) -> TeamView {
        TeamView { users: viewed(self.users), invites: viewed(self.invites), plans: self.plans@ }
    }
}

/// An invitation that is over. One without a readable date is.
pub open spec fn expired_at(expires_at: Seq<char>, now: Moment) -> bool {
    match moment_of(expires_at) {
        Some(end) => !end.is_after(now),
        None => true,
    }
}

/// Whether an invitation is over at that time.
pub fn is_expired(expires_at: &str, now: Moment) -> (r: bool)
    ensures
        r == expired_at(expires_at@, now),
{
    match parse_moment(expires_at) {
        Some(end) => !end.after(now),
        None => true,
    }
}

/// The second at which a stored row may be dropped.
pub fn ttl_epoch(expires_at: &str) -> (r: Option<i64>)
    ensures
        r == match moment_of(expires_at@) {
            Some(end) => Some(end.secs),
            None => None::<i64>,
        },
{
    match parse_moment(expires_at) {
        Some(end) => Some(end.secs),
        None => None,
    }
}

/// An email in its normal form: trimmed, in lower case, at least five bytes
/// long, with an `@` and a dot.
pub fn normalize_email(email: &str) -> (r: Result<String, TeamError>)
    ensures
        match grant_email(email@) {
            Some(e) => r is Ok && r->Ok_0@ == e,
            None => r is Err && r->Err_0@ == TeamErrorView::Invalid("invalid email"@),
        },
        is_ascii_chars(trimmed(email@)) ==> match plausible_email(ascii_lower(trimmed(email@))) {
            Some(e) => r is Ok && r->Ok_0@ == e,
            None => r is Err && r->Err_0@ == TeamErrorView::Invalid("invalid email"@),
        },
{
    match normalize_grant_email(email) {
        Ok(e) => Ok(e),
        Err(error) => Err(TeamError::Invalid(error)),
    }
}

/// Belonging to the account.
pub open spec fn member_of(account_id: Seq<char>) -> spec_fn(MemberRecord) -> bool {
    |m: MemberRecord| m.account_id@ == account_id
}

/// Being an invitation to the account that is not over.
pub open spec fn open_invite_to(account_id: Seq<char>, now: Moment) -> spec_fn(InviteRecord) -> bool {
    |i: InviteRecord| i.account_id@ == account_id && !expired_at(i.expires_at@, now)
}

/// The members of the account, in the order in which they are kept.
pub open spec fn account_members(store: TeamStore, account_id: Seq<char>) -> Seq<MemberRecord> {
    store.users.values().filter(member_of(account_id))
}

/// The open invitations to the account, in the order in which they are kept.
pub open spec fn account_invites(store: TeamStore, account_id: Seq<char>, now: Moment) -> Seq<
    InviteRecord,
> {
    store.invites.values().filter(open_invite_to(account_id, now))
}

/// Some member of the account has the email, whatever its case.
pub open spec fn has_member_email(
    users: Map<Seq<char>, MemberView>,
    account_id: Seq<char>,
    email: Seq<char>,
) -> bool {
    exists|u: Seq<char>| #[trigger]
        users.dom().contains(u) && users[u].account_id == account_id && users[u].email is Some
            && eq_ascii_case(users[u].email->0, email)
}

/// Some open invitation to the account has the email.
pub open spec fn has_open_invite(
    invites: Map<Seq<char>, InviteView>,
    account_id: Seq<char>,
    email: Seq<char>,
    now: Moment,
) -> bool {
    exists|i: Seq<char>| #[trigger]
        invites.dom().contains(i) && invites[i].account_id == account_id && invites[i].email
            == email && !expired_at(invites[i].expires_at, now)
}

/// Why an invitation cannot be made.
pub open spec fn invite_fault(
    team: TeamView,
    account_id: Seq<char>,
    email: Seq<char>,
    role: TeamRole,
    now: Moment,
) -> Option<TeamErrorView> {
    if role == TeamRole::Owner {
        Some(TeamErrorView::Invalid("invite role must be read_only or admin"@))
    } else {
        match grant_email(email) {
            None => Some(TeamErrorView::Invalid("invalid email"@)),
            Some(email) => if has_member_email(team.users, account_id, email) {
                Some(TeamErrorView::Conflict("that email is already a member of this account"@))
            } else if has_open_invite(team.invites, account_id, email, now) {
                Some(TeamErrorView::Conflict("a pending invite already exists for that email"@))
            } else {
                None
            },
        }
    }
}

/// When an invitation ends that is made now; no later than the calendar.
pub open spec fn invite_end(now: Moment) -> Moment {
    Moment {
        secs: if now.secs + INVITE_TTL_SECS > MAX_SECS {
            MAX_SECS
        } else {
            (now.secs + INVITE_TTL_SECS) as i64
        },
        nanos: now.nanos,
    }
}

/// The invitation that is made.
pub open spec fn new_invite(
    account_id: Seq<char>,
    email: Seq<char>,
    role: TeamRole,
    invited_by: Seq<char>,
    now: Moment,
    id: Seq<char>,
) -> InviteView {
    InviteView {
        id,
        account_id,
        email: grant_email(email)->0,
        role,
        invited_by,
        expires_at: rfc3339_text(invite_end(now).secs, invite_end(now).nanos),
        created_at: rfc3339_text(now.secs, now.nanos),
    }
}

/// The other members of the account, and its open invitations, are none: the
/// user is on their own.
pub open spec fn is_alone(team: TeamView, account_id: Seq<char>, now: Moment) -> bool {
    &&& forall|u: Seq<char>, v: Seq<char>|
        #![trigger team.users.dom().contains(u), team.users.dom().contains(v)]
        team.users.dom().contains(u) && team.users.dom().contains(v) && team.users[u].account_id
            == account_id && team.users[v].account_id == account_id ==> u == v
    &&& forall|i: Seq<char>| #[trigger]
        team.invites.dom().contains(i) && team.invites[i].account_id == account_id ==> expired_at(
            team.invites[i].expires_at,
            now,
        )
}

/// Why an invitation cannot be accepted.
pub open spec fn accept_fault(
    team: TeamView,
    token: Seq<char>,
    user: AuthUserView,
    now: Moment,
) -> Option<TeamErrorView> {
    match lookup(team.invites, token) {
        None => Some(TeamErrorView::NotFound),
        Some(invite) => if expired_at(invite.expires_at, now) {
            Some(TeamErrorView::Expired)
        } else {
            match user.email {
                None => Some(
                    TeamErrorView::Invalid("signed-in user has no email; cannot accept invite"@),
                ),
                Some(email) => match grant_email(email) {
                    None => Some(TeamErrorView::Invalid("invalid email"@)),
                    Some(email) => if email != invite.email {
                        Some(TeamErrorView::EmailMismatch)
                    } else {
                        match lookup(team.users, user.user_id) {
                            None => None,
                            Some(existing) => if existing.account_id == invite.account_id {
                                Some(
                                    TeamErrorView::Conflict("you already belong to this account"@),
                                )
                            } else if existing.role == TeamRole::Owner && !is_alone(
                                team,
                                existing.account_id,
                                now,
                            ) {
                                Some(
                                    TeamErrorView::Conflict(
                                        "leave or remove other members from your current account before joining another team"@,
                                    ),
                                )
                            } else {
                                None
                            },
                        }
                    },
                },
            }
        },
    }
}

/// The member that an accepted invitation makes of a user.
pub open spec fn joined_member(invite: InviteView, user: AuthUserView, now: Moment) -> MemberView {
    MemberView {
        user_id: user.user_id,
        account_id: invite.account_id,
        email: Some(invite.email),
        role: invite.role,
        created_at: rfc3339_text(now.secs, now.nanos),
    }
}

/// The teams after an invitation was, or was not, accepted. One that is over is
/// taken away.
pub open spec fn after_accept(team: TeamView, token: Seq<char>, user: AuthUserView, now: Moment) -> TeamView {
    match accept_fault(team, token, user, now) {
        None => TeamView {
            users: team.users.insert(user.user_id, joined_member(team.invites[token], user, now)),
            invites: team.invites.remove(token),
            ..team
        },
        Some(TeamErrorView::Expired) => TeamView { invites: team.invites.remove(token), ..team },
        Some(_) => team,
    }
}

/// A member of the account.
pub open spec fn member_in(team: TeamView, account_id: Seq<char>, user_id: Seq<char>) -> Option<MemberView> {
    match lookup(team.users, user_id) {
        Some(m) => if m.account_id == account_id {
            Some(m)
        } else {
            None
        },
        None => None,
    }
}

/// Why a member cannot be removed.
pub open spec fn remove_fault(team: TeamView, account_id: Seq<char>, user_id: Seq<char>) -> Option<TeamErrorView> {
    match member_in(team, account_id, user_id) {
        None => Some(TeamErrorView::NotFound),
        Some(m) => if m.role == TeamRole::Owner {
            Some(TeamErrorView::Forbidden("cannot remove the account owner"@))
        } else {
            None
        },
    }
}

/// Why a member's role cannot be changed.
pub open spec fn patch_fault(
    team: TeamView,
    account_id: Seq<char>,
    user_id: Seq<char>,
    role: TeamRole,
) -> Option<TeamErrorView> {
    if role == TeamRole::Owner {
        Some(TeamErrorView::Invalid("ownership is not transferable"@))
    } else {
        match member_in(team, account_id, user_id) {
            None => Some(TeamErrorView::NotFound),
            Some(m) => if m.role == TeamRole::Owner {
                Some(TeamErrorView::Forbidden("cannot change the owner role"@))
            } else {
                None
            },
        }
    }
}

/// A user once their membership is known: a member takes the account and the
/// role of their team; anybody else becomes the owner of an account of their own.
pub open spec fn resolved_user(team: TeamView, user: AuthUserView) -> AuthUserView {
    match lookup(team.users, user.user_id) {
        Some(m) => AuthUserView {
            account_id: m.account_id,
            role: m.role,
            email: if user.email is None {
                m.email
            } else {
                user.email
            },
            ..user
        },
        None => AuthUserView { account_id: user.user_id, role: TeamRole::Owner, ..user },
    }
}

/// The teams once a user's membership is known.
pub open spec fn after_resolve(team: TeamView, user: AuthUserView, now: Moment) -> TeamView {
    if team.users.dom().contains(user.user_id) {
        team
    } else {
        TeamView {
            users: team.users.insert(
                user.user_id,
                MemberView {
                    user_id: user.user_id,
                    account_id: user.user_id,
                    email: user.email,
                    role: TeamRole::Owner,
                    created_at: rfc3339_text(now.secs, now.nanos),
                },
            ),
            ..team
        }
    }
}

/// A refusal is that error.
pub open spec fn refused<T>(r: Result<T, TeamError>, fault: Option<TeamErrorView>) -> bool {
    match r {
        Ok(_) => fault is None,
        Err(e) => fault == Some(e@),
    }
}

impl TeamStore {
    /// Keys occur once; each member and each invitation stands under its id.
    pub open spec fn wf(self) -> bool {
        &&& self.users.wf()
        &&& self.invites.wf()
        &&& self.plans.wf()
        &&& forall|u: Seq<char>| #[trigger] self@.users.dom().contains(u) ==> self@.users[u].user_id == u
        &&& forall|i: Seq<char>| #[trigger] self@.invites.dom().contains(i) ==> self@.invites[i].id == i
    }

    /// No teams.
    pub fn memory() -> (r: Self)
        ensures
            r.wf(),
            r@ == (TeamView { users: Map::empty(), invites: Map::empty(), plans: Map::empty() }),
    {
        let r = TeamStore { users: StrMap::new(), invites: StrMap::new(), plans: StrMap::new() };
        assert(viewed(r.users) =~= Map::empty());
        assert(viewed(r.invites) =~= Map::empty());
        r
    }

    /// Sets the plan of an account.
    pub fn set_plan_override(&mut self, account_id: &str, plan: BillingPlan)
        requires
            old(self).wf(),
        ensures
            final(self).wf(),
            final(self)@ == (TeamView {
                plans: old(self)@.plans.insert(account_id@, plan),
                ..old(self)@
            }),
    {
        self.plans.insert(account_id, plan);
    }

    /// The plan set for an account.
    pub fn plan_override(&self, account_id: &str) -> (r: Option<BillingPlan>)
        requires
            self.wf(),
        ensures
            r == lookup(self@.plans, account_id@),
    {
        match self.plans.get(account_id) {
            Some(plan) => Some(*plan),
            None => None,
        }
    }

    fn get_user_membership(&self, user_id: &str) -> (r: Option<MemberRecord>)
        requires
            self.wf(),
        ensures
            match lookup(self@.users, user_id@) {
                Some(m) => r is Some && r->0@ == m,
                None => r is None,
            },
    {
        match self.users.get(user_id) {
            Some(m) => Some(m.clone()),
            None => None,
        }
    }

    fn get_member(&self, account_id: &str, user_id: &str) -> (r: Option<MemberRecord>)
        requires
            self.wf(),
        ensures
            match member_in(self@, account_id@, user_id@) {
                Some(m) => r is Some && r->0@ == m,
                None => r is None,
            },
    {
        match self.get_user_membership(user_id) {
            Some(m) => if same(m.account_id.as_str(), account_id) {
                Some(m)
            } else {
                None
            },
            None => None,
        }
    }

    fn get_invite(&self, invite_id: &str) -> (r: Option<InviteRecord>)
        requires
            self.wf(),
        ensures
            match lookup(self@.invites, invite_id@) {
                Some(i) => r is Some && r->0@ == i,
                None => r is None,
            },
    {
        match self.invites.get(invite_id) {
            Some(i) => Some(i.clone()),
            None => None,
        }
    }

    fn put_member(&mut self, member: &MemberRecord)
        requires
            old(self).wf(),
        ensures
            final(self).wf(),
            final(self)@ == (TeamView {
                users: old(self)@.users.insert(member@.user_id, member@),
                ..old(self)@
            }),
    {
        let ghost before = self.users;
        self.users.insert(member.user_id.as_str(), member.clone());
        proof {
            viewed_insert(before, self.users, member@.user_id, *member);
        }
    }

    fn put_invite(&mut self, invite: &InviteRecord)
        requires
            old(self).wf(),
        ensures
            final(self).wf(),
            final(self)@ == (TeamView {
                invites: old(self)@.invites.insert(invite@.id, invite@),
                ..old(self)@
            }),
    {
        let ghost before = self.invites;
        self.invites.insert(invite.id.as_str(), invite.clone());
        proof {
            viewed_insert(before, self.invites, invite@.id, *invite);
        }
    }

    fn delete_invite(&mut self, invite_id: &str)
        requires
            old(self).wf(),
        ensures
            final(self).wf(),
            final(self)@ == (TeamView {
                invites: old(self)@.invites.remove(invite_id@),
                ..old(self)@
            }),
    {
        let ghost before = self.invites;
        let _ = self.invites.remove(invite_id);
        proof {
            viewed_remove(before, self.invites, invite_id@);
        }
    }

    fn delete_member(&mut self, account_id: &str, user_id: &str)
        requires
            old(self).wf(),
        ensures
            final(self).wf(),
            final(self)@ == (TeamView {
                users: if member_in(old(self)@, account_id@, user_id@) is Some {
                    old(self)@.users.remove(user_id@)
                } else {
                    old(self)@.users
                },
                ..old(self)@
            }),
    {
        if self.get_member(account_id, user_id).is_some() {
            let ghost before = self.users;
            let _ = self.users.remove(user_id);
            proof {
                viewed_remove(before, self.users, user_id@);
            }
        }
    }

    /// Fills in the account and the role of a user at that time; a user without
    /// a team gets an account of their own.
    pub fn resolve_membership_at(&mut self, user: &mut AuthUser, now: Moment)
        requires
            old(self).wf(),
            now.has_date(),
        ensures
            final(self).wf(),
            final(user)@ == resolved_user(old(self)@, old(user)@),
            final(self)@ == after_resolve(old(self)@, old(user)@, now),
    {
        if let Some(member) = self.get_user_membership(user.user_id.as_str()) {
            user.account_id = member.account_id;
            user.role = member.role;
            if user.email.is_none() {
                user.email = member.email;
            }
            return;
        }
        let member = MemberRecord {
            user_id: user.user_id.clone(),
            account_id: user.user_id.clone(),
            email: copy_opt(&user.email),
            role: TeamRole::Owner,
            created_at: format_rfc3339(now),
        };
        self.put_member(&member);
        user.account_id = member.account_id;
        user.role = TeamRole::Owner;
    }

    /// Fills in the account and the role of a user now.
    pub fn resolve_membership(&mut self, user: &mut AuthUser)
        requires
            old(self).wf(),
        ensures
            final(self).wf(),
            final(user)@ == resolved_user(old(self)@, old(user)@),
            exists|now: Moment|
                now.can_be_now() && final(self)@ == #[trigger] after_resolve(old(self)@, old(user)@, now),
    {
        let now = utc_now();
        self.resolve_membership_at(user, now)
    }

    /// The members of an account and its open invitations at that time, the
    /// oldest first.
    pub fn snapshot_at(&self, account_id: &str, now: Moment) -> (r: TeamSnapshot)
        ensures
            is_stable_sort(r.members@, account_members(*self, account_id@)),
            is_stable_sort(r.invites@, account_invites(*self, account_id@, now)),
    {
        let mut members: Vec<MemberRecord> = Vec::new();
        let ghost f = member_of(account_id@);
        let ghost all = self.users.values();
        let mut i: usize = 0;
        assert(all.take(0).filter(f) =~= Seq::<MemberRecord>::empty()) by {
            reveal(Seq::filter);
        }
        while i < self.users.entries.len()
            invariant
                i <= self.users.entries@.len(),
                all == self.users.values(),
                f == member_of(account_id@),
                members@ == all.take(i as int).filter(f),
            decreases self.users.entries@.len() - i,
        {
            let m = &self.users.entries[i].1;
            proof {
                assert(all.take(i + 1).drop_last() =~= all.take(i as int));
                assert(all.take(i + 1).last() == *m);
                reveal(Seq::filter);
            }
            if same(m.account_id.as_str(), account_id) {
                members.push(m.clone());
            }
            i += 1;
        }
        assert(all.take(i as int) =~= all);
        let mut invites: Vec<InviteRecord> = Vec::new();
        let ghost g = open_invite_to(account_id@, now);
        let ghost all_invites = self.invites.values();
        let mut k: usize = 0;
        assert(all_invites.take(0).filter(g) =~= Seq::<InviteRecord>::empty()) by {
            reveal(Seq::filter);
        }
        while k < self.invites.entries.len()
            invariant
                k <= self.invites.entries@.len(),
                all_invites == self.invites.values(),
                g == open_invite_to(account_id@, now),
                invites@ == all_invites.take(k as int).filter(g),
            decreases self.invites.entries@.len() - k,
        {
            let invite = &self.invites.entries[k].1;
            proof {
                assert(all_invites.take(k + 1).drop_last() =~= all_invites.take(k as int));
                assert(all_invites.take(k + 1).last() == *invite);
                reveal(Seq::filter);
            }
            if same(invite.account_id.as_str(), account_id) && !is_expired(
                invite.expires_at.as_str(),
                now,
            ) {
                invites.push(invite.clone());
            }
            k += 1;
        }
        assert(all_invites.take(k as int) =~= all_invites);
        TeamSnapshot { members: stable_sort(members), invites: stable_sort(invites) }
    }

    /// The members of an account and its open invitations now, the oldest first.
    pub fn snapshot(&self, account_id: &str) -> (r: TeamSnapshot)
        ensures
            is_stable_sort(r.members@, account_members(*self, account_id@)),
            exists|now: Moment|
                now.can_be_now() && is_stable_sort(
                    r.invites@,
                    #[trigger] account_invites(*self, account_id@, now),
                ),
    {
        let now = utc_now();
        self.snapshot_at(account_id, now)
    }

    fn member_with_email(&self, account_id: &str, email: &str) -> (r: bool)
        requires
            self.wf(),
        ensures
            r == has_member_email(self@.users, account_id@, email@),
    {
        let mut i: usize = 0;
        while i < self.users.entries.len()
            invariant
                i <= self.users.entries@.len(),
                self.wf(),
                forall|j: int|
                    0 <= j < i ==> {
                        let m = (#[trigger] self.users.entries@[j]).1@;
                        !(m.account_id == account_id@ && m.email is Some && eq_ascii_case(
                            m.email->0,
                            email@,
                        ))
                    },
            decreases self.users.entries@.len() - i,
        {
            let m = &self.users.entries[i].1;
            proof {
                entry_in_map(self.users, i as int);
            }
            if same(m.account_id.as_str(), account_id) {
                if let Some(existing) = &m.email {
                    if eq_ignore_ascii_case(existing.as_str(), email) {
                        assert(self@.users.dom().contains(self.users.entries@[i as int].0@));
                        return true;
                    }
                }
            }
            i += 1;
        }
        proof {
            if has_member_email(self@.users, account_id@, email@) {
                let u = choose|u: Seq<char>| #[trigger]
                    self@.users.dom().contains(u) && self@.users[u].account_id == account_id@
                        && self@.users[u].email is Some && eq_ascii_case(
                        self@.users[u].email->0,
                        email@,
                    );
                key_has_entry(self.users, u);
            }
        }
        false
    }

    fn invite_with_email(&self, account_id: &str, email: &str, now: Moment) -> (r: bool)
        requires
            self.wf(),
        ensures
            r == has_open_invite(self@.invites, account_id@, email@, now),
    {
        let mut i: usize = 0;
        while i < self.invites.entries.len()
            invariant
                i <= self.invites.entries@.len(),
                self.wf(),
                forall|j: int|
                    0 <= j < i ==> {
                        let m = (#[trigger] self.invites.entries@[j]).1@;
                        !(m.account_id == account_id@ && m.email == email@ && !expired_at(
                            m.expires_at,
                            now,
                        ))
                    },
            decreases self.invites.entries@.len() - i,
        {
            let m = &self.invites.entries[i].1;
            proof {
                entry_in_map(self.invites, i as int);
            }
            if same(m.account_id.as_str(), account_id) && same(m.email.as_str(), email)
                && !is_expired(m.expires_at.as_str(), now) {
                assert(self@.invites.dom().contains(self.invites.entries@[i as int].0@));
                return true;
            }
            i += 1;
        }
        proof {
            if has_open_invite(self@.invites, account_id@, email@, now) {
                let u = choose|u: Seq<char>| #[trigger]
                    self@.invites.dom().contains(u) && self@.invites[u].account_id == account_id@
                        && self@.invites[u].email == email@ && !expired_at(
                        self@.invites[u].expires_at,
                        now,
                    );
                key_has_entry(self.invites, u);
            }
        }
        false
    }

    fn alone(&self, account_id: &str, now: Moment) -> (r: bool)
        requires
            self.wf(),
        ensures
            r == is_alone(self@, account_id@, now),
    {
        let mut first: Option<usize> = None;
        let mut i: usize = 0;
        while i < self.users.entries.len()
            invariant
                i <= self.users.entries@.len(),
                self.wf(),
                match first {
                    None => forall|j: int| 0 <= j < i ==> (#[trigger] self.users.entries@[j]).1@.account_id != account_id@,
                    Some(f) => f < i && self.users.entries@[f as int].1@.account_id == account_id@
                        && forall|j: int| 0 <= j < i && j != f ==> (#[trigger] self.users.entries@[j]).1@.account_id != account_id@,
                },
            decreases self.users.entries@.len() - i,
        {
            let m = &self.users.entries[i].1;
            if same(m.account_id.as_str(), account_id) {
                match first {
                    Some(f) => {
                        proof {
                            entry_in_map(self.users, i as int);
                            entry_in_map(self.users, f as int);
                            let u = self.users.entries@[i as int].0@;
                            let v = self.users.entries@[f as int].0@;
                            assert(self@.users.dom().contains(u));
                            assert(self@.users.dom().contains(v));
                            assert(self.users.keys()[i as int] != self.users.keys()[f as int]);
                        }
                        return false;
                    },
                    None => {
                        first = Some(i);
                    },
                }
            }
            i += 1;
        }
        let mut k: usize = 0;
        while k < self.invites.entries.len()
            invariant
                k <= self.invites.entries@.len(),
                self.wf(),
                forall|j: int|
                    0 <= j < k ==> {
                        let m = (#[trigger] self.invites.entries@[j]).1@;
                        m.account_id == account_id@ ==> expired_at(m.expires_at, now)
                    },
            decreases self.invites.entries@.len() - k,
        {
            let m = &self.invites.entries[k].1;
            if same(m.account_id.as_str(), account_id) && !is_expired(m.expires_at.as_str(), now) {
                proof {
                    entry_in_map(self.invites, k as int);
                    assert(self@.invites.dom().contains(self.invites.entries@[k as int].0@));
                }
                return false;
            }
            k += 1;
        }
        proof {
            assert forall|u: Seq<char>, v: Seq<char>|
                #![trigger self@.users.dom().contains(u), self@.users.dom().contains(v)]
                self@.users.dom().contains(u) && self@.users.dom().contains(v)
                    && self@.users[u].account_id == account_id@ && self@.users[v].account_id
                    == account_id@ implies u == v by {
                key_has_entry(self.users, u);
                key_has_entry(self.users, v);
            }
            assert forall|c: Seq<char>| #[trigger]
                self@.invites.dom().contains(c) && self@.invites[c].account_id
                    == account_id@ implies expired_at(self@.invites[c].expires_at, now) by {
                key_has_entry(self.invites, c);
            }
        }
        true
    }

    /// Invites an email to an account, at that time and under that id.
    pub fn create_invite_at(
        &mut self,
        account_id: &str,
        email: &str,
        role: TeamRole,
        invited_by: &str,
        now: Moment,
        id: String,
    ) -> (r: Result<InviteRecord, TeamError>)
        requires
            old(self).wf(),
            now.has_date(),
        ensures
            final(self).wf(),
            ({
                let fault = invite_fault(old(self)@, account_id@, email@, role, now);
                let invite = new_invite(account_id@, email@, role, invited_by@, now, id@);
                &&& refused(r, fault)
                &&& fault is Some ==> *final(self) == *old(self)
                &&& fault is None ==> r->Ok_0@ == invite && final(self)@ == (TeamView {
                    invites: old(self)@.invites.insert(id@, invite),
                    ..old(self)@
                })
                &&& fault is None && has_plain_year(invite_end(now).secs as int) ==> moment_of(
                    r->Ok_0@.expires_at,
                ) == Some(invite_end(now))
            }),
    {
        if !role.can_invite_as() {
            return Err(TeamError::Invalid(owned("invite role must be read_only or admin")));
        }
        let email = match normalize_email(email) {
            Ok(email) => email,
            Err(error) => {
                return Err(error);
            },
        };
        if self.member_with_email(account_id, email.as_str()) {
            return Err(
                TeamError::Conflict(owned("that email is already a member of this account")),
            );
        }
        if self.invite_with_email(account_id, email.as_str(), now) {
            return Err(
                TeamError::Conflict(owned("a pending invite already exists for that email")),
            );
        }
        let end = Moment {
            secs: if now.secs > MAX_SECS - INVITE_TTL_SECS {
                MAX_SECS
            } else {
                now.secs + INVITE_TTL_SECS
            },
            nanos: now.nanos,
        };
        let invite = InviteRecord {
            id,
            account_id: owned(account_id),
            email,
            role,
            invited_by: owned(invited_by),
            expires_at: format_rfc3339(end),
            created_at: format_rfc3339(now),
        };
        self.put_invite(&invite);
        Ok(invite)
    }

    /// Invites an email to an account now, under a fresh id.
    pub fn create_invite(
        &mut self,
        account_id: &str,
        email: &str,
        role: TeamRole,
        invited_by: &str,
    ) -> (r: Result<InviteRecord, TeamError>)
        requires
            old(self).wf(),
        ensures
            final(self).wf(),
            r is Err ==> *final(self) == *old(self),
            r is Ok ==> is_uuid_text(r->Ok_0@.id) && final(self)@ == (TeamView {
                invites: old(self)@.invites.insert(r->Ok_0@.id, r->Ok_0@),
                ..old(self)@
            }),
            exists|now: Moment|
                {
                    let fault = #[trigger] invite_fault(old(self)@, account_id@, email@, role, now);
                    &&& now.can_be_now()
                    &&& refused(r, fault)
                    &&& fault is None ==> r->Ok_0@ == new_invite(
                        account_id@,
                        email@,
                        role,
                        invited_by@,
                        now,
                        r->Ok_0@.id,
                    )
                },
    {
        let now = utc_now();
        let id = new_uuid();
        self.create_invite_at(account_id, email, role, invited_by, now, id)
    }

    /// Takes back an invitation of the account.
    pub fn revoke_invite(&mut self, account_id: &str, invite_id: &str) -> (r: Result<(), TeamError>)
        requires
            old(self).wf(),
        ensures
            final(self).wf(),
            ({
                let found = match lookup(old(self)@.invites, invite_id@) {
                    Some(invite) => invite.account_id == account_id@,
                    None => false,
                };
                &&& refused(
                    r,
                    if found {
                        None
                    } else {
                        Some(TeamErrorView::NotFound)
                    },
                )
                &&& found ==> final(self)@ == (TeamView {
                    invites: old(self)@.invites.remove(invite_id@),
                    ..old(self)@
                })
                &&& !found ==> *final(self) == *old(self)
            }),
    {
        let invite = match self.get_invite(invite_id) {
            Some(invite) => invite,
            None => {
                return Err(TeamError::NotFound);
            },
        };
        if !same(invite.account_id.as_str(), account_id) {
            return Err(TeamError::NotFound);
        }
        self.delete_invite(invite_id);
        Ok(())
    }

    /// Takes a member out of the account; the owner stays.
    pub fn remove_member(&mut self, account_id: &str, user_id: &str) -> (r: Result<(), TeamError>)
        requires
            old(self).wf(),
        ensures
            final(self).wf(),
            refused(r, remove_fault(old(self)@, account_id@, user_id@)),
            r is Ok ==> final(self)@ == (TeamView {
                users: old(self)@.users.remove(user_id@),
                ..old(self)@
            }),
            r is Err ==> *final(self) == *old(self),
    {
        let member = match self.get_member(account_id, user_id) {
            Some(member) => member,
            None => {
                return Err(TeamError::NotFound);
            },
        };
        if member.role == TeamRole::Owner {
            return Err(TeamError::Forbidden(owned("cannot remove the account owner")));
        }
        self.delete_member(account_id, user_id);
        Ok(())
    }

    /// Changes the role of a member; ownership stays where it is.
    pub fn patch_member_role(&mut self, account_id: &str, user_id: &str, role: TeamRole) -> (r:
        Result<MemberRecord, TeamError>)
        requires
            old(self).wf(),
        ensures
            final(self).wf(),
            refused(r, patch_fault(old(self)@, account_id@, user_id@, role)),
            r is Ok ==> r->Ok_0@ == (MemberView { role, ..old(self)@.users[user_id@] }),
            r is Ok ==> final(self)@ == (TeamView {
                users: old(self)@.users.insert(user_id@, r->Ok_0@),
                ..old(self)@
            }),
            r is Err ==> *final(self) == *old(self),
    {
        if role == TeamRole::Owner {
            return Err(TeamError::Invalid(owned("ownership is not transferable")));
        }
        let mut member = match self.get_member(account_id, user_id) {
            Some(member) => member,
            None => {
                return Err(TeamError::NotFound);
            },
        };
        if member.role == TeamRole::Owner {
            return Err(TeamError::Forbidden(owned("cannot change the owner role")));
        }
        member.role = role;
        self.put_member(&member);
        proof {
            assert(self@.users.dom().contains(user_id@));
        }
        Ok(member)
    }

    /// Accepts an invitation at that time.
    pub fn accept_invite_at(&mut self, token: &str, user: &AuthUser, now: Moment) -> (r: Result<
        MemberRecord,
        TeamError,
    >)
        requires
            old(self).wf(),
            now.has_date(),
        ensures
            final(self).wf(),
            refused(r, accept_fault(old(self)@, token@, user@, now)),
            r is Ok ==> r->Ok_0@ == joined_member(old(self)@.invites[token@], user@, now),
            final(self)@ == after_accept(old(self)@, token@, user@, now),
    {
        let invite = match self.get_invite(token) {
            Some(invite) => invite,
            None => {
                return Err(TeamError::NotFound);
            },
        };
        assert(self@.invites.dom().contains(token@));
        if is_expired(invite.expires_at.as_str(), now) {
            self.delete_invite(invite.id.as_str());
            return Err(TeamError::Expired);
        }
        let email = match &user.email {
            Some(email) => email,
            None => {
                return Err(
                    TeamError::Invalid(
                        owned("signed-in user has no email; cannot accept invite"),
                    ),
                );
            },
        };
        let email = match normalize_email(email.as_str()) {
            Ok(email) => email,
            Err(error) => {
                return Err(error);
            },
        };
        if !same(email.as_str(), invite.email.as_str()) {
            return Err(TeamError::EmailMismatch);
        }
        if let Some(existing) = self.get_user_membership(user.user_id.as_str()) {
            if same(existing.account_id.as_str(), invite.account_id.as_str()) {
                return Err(TeamError::Conflict(owned("you already belong to this account")));
            }
            if existing.role == TeamRole::Owner {
                if !self.alone(existing.account_id.as_str(), now) {
                    return Err(
                        TeamError::Conflict(
                            owned(
                                "leave or remove other members from your current account before joining another team",
                            ),
                        ),
                    );
                }
            }
            self.delete_member(existing.account_id.as_str(), user.user_id.as_str());
        }
        let member = MemberRecord {
            user_id: user.user_id.clone(),
            account_id: invite.account_id.clone(),
            email: Some(invite.email.clone()),
            role: invite.role,
            created_at: format_rfc3339(now),
        };
        self.put_member(&member);
        self.delete_invite(invite.id.as_str());
        proof {
            let before = old(self)@.users;
            assert(before.remove(user@.user_id).insert(user@.user_id, member@) =~= before.insert(
                user@.user_id,
                member@,
            ));
        }
        Ok(member)
    }

    /// Accepts an invitation now.
    pub fn accept_invite(&mut self, token: &str, user: &AuthUser) -> (r: Result<
        MemberRecord,
        TeamError,
    >)
        requires
            old(self).wf(),
        ensures
            final(self).wf(),
            exists|now: Moment|
                {
                    &&& now.can_be_now()
                    &&& refused(r, #[trigger] accept_fault(old(self)@, token@, user@, now))
                    &&& r is Ok ==> r->Ok_0@ == joined_member(
                        old(self)@.invites[token@],
                        user@,
                        now,
                    )
                    &&& final(self)@ == after_accept(old(self)@, token@, user@, now)
                },
    {
        let now = utc_now();
        self.accept_invite_at(token, user, now)
    }

    /// The account of a member who has the email, whatever its case.
    pub fn find_account_by_email(&self, email: &str) -> (r: Option<String>)
        requires
            self.wf(),
        ensures
            r is Some ==> has_member_email(self@.users, r->0@, email@),
            r is None ==> forall|a: Seq<char>| !#[trigger] has_member_email(self@.users, a, email@),
    {
        let mut i: usize = 0;
        while i < self.users.entries.len()
            invariant
                i <= self.users.entries@.len(),
                self.wf(),
                forall|j: int|
                    0 <= j < i ==> {
                        let m = (#[trigger] self.users.entries@[j]).1@;
                        !(m.email is Some && eq_ascii_case(m.email->0, email@))
                    },
            decreases self.users.entries@.len() - i,
        {
            let m = &self.users.entries[i].1;
            proof {
                entry_in_map(self.users, i as int);
                assert(self@.users.dom().contains(self.users.entries@[i as int].0@));
            }
            if let Some(existing) = &m.email {
                if eq_ignore_ascii_case(existing.as_str(), email) {
                    return Some(m.account_id.clone());
                }
            }
            i += 1;
        }
        proof {
            assert forall|a: Seq<char>| !#[trigger] has_member_email(self@.users, a, email@) by {
                if has_member_email(self@.users, a, email@) {
                    let u = choose|u: Seq<char>| #[trigger]
                        self@.users.dom().contains(u) && self@.users[u].account_id == a
                            && self@.users[u].email is Some && eq_ascii_case(
                            self@.users[u].email->0,
                            email@,
                        );
                    key_has_entry(self.users, u);
                }
            }
        }
        None
    }
}

/// The seats that a team takes: one for each member and each open invitation.
pub fn seats_used(snapshot: &TeamSnapshot) -> (r: u32)
    ensures
        r == (snapshot.members@.len() + snapshot.invites@.len()) % 0x1_0000_0000,
{
    let n: u128 = snapshot.members.len() as u128 + snapshot.invites.len() as u128;
    (n % 0x1_0000_0000) as u32
}

impl TeamStore {
    /// The seats that an account takes now.
    pub fn seat_usage(&self, account_id: &str) -> (r: u32)
        ensures
            exists|now: Moment|
                now.can_be_now() && r == (account_members(*self, account_id@).len() + (#[trigger] account_invites(
                    *self,
                    account_id@,
                    now,
                )).len()) % 0x1_0000_0000,
    {
        let now = utc_now();
        let snapshot = self.snapshot_at(account_id, now);
        proof {
            broadcast use vstd::seq_lib::group_to_multiset_ensures;
            let m = account_members(*self, account_id@);
            let i = account_invites(*self, account_id@, now);
            assert(snapshot.members@.to_multiset().len() == m.to_multiset().len());
            assert(snapshot.invites@.to_multiset().len() == i.to_multiset().len());
        }
        seats_used(&snapshot)
    }
}

/// A team's owner survives every attempt to remove or demote them.
pub proof fn owner_stays(team: TeamView, account_id: Seq<char>, user_id: Seq<char>, role: TeamRole)
    requires
        member_in(team, account_id, user_id) is Some,
        member_in(team, account_id, user_id)->0.role == TeamRole::Owner,
    ensures
        remove_fault(team, account_id, user_id) is Some,
        patch_fault(team, account_id, user_id, role) is Some,
{
}

/// Until it expires, an invitation can be accepted by a person with its address who
/// is in no team yet; they join with the role of the invitation.
pub proof fn open_invite_can_be_accepted(
    team: TeamView,
    token: Seq<char>,
    user: AuthUserView,
    expiry: Moment,
    now: Moment,
)
    requires
        team.invites.dom().contains(token),
        moment_of(team.invites[token].expires_at) == Some(expiry),
        expiry.is_after(now),
        user.email is Some,
        grant_email(user.email->0) == Some(team.invites[token].email),
        !team.users.dom().contains(user.user_id),
    ensures
        accept_fault(team, token, user, now) is None,
        after_accept(team, token, user, now).users[user.user_id] == joined_member(
            team.invites[token],
            user,
            now,
        ),
{
}

/// An accepted invitation cannot be accepted again.
pub proof fn invite_is_used_up(
    team: TeamView,
    token: Seq<char>,
    user: AuthUserView,
    now: Moment,
    other: AuthUserView,
    later: Moment,
)
    requires
        accept_fault(team, token, user, now) is None,
    ensures
        accept_fault(after_accept(team, token, user, now), token, other, later) == Some(
            TeamErrorView::NotFound,
        ),
        after_accept(team, token, user, now).users[user.user_id].account_id
            == team.invites[token].account_id,
        after_accept(team, token, user, now).users[user.user_id].role == team.invites[token].role,
{
}

/// Accepting touches no other user.
pub proof fn accept_touches_nobody_else(
    team: TeamView,
    token: Seq<char>,
    user: AuthUserView,
    now: Moment,
    other: Seq<char>,
)
    requires
        other != user.user_id,
    ensures
        lookup(after_accept(team, token, user, now).users, other) == lookup(team.users, other),
{
}

/// A row of a member: under the account, or under the user.
pub open spec fn member_row(member: MemberView, account_row: bool) -> ItemView {
    let item = if account_row {
        ItemView::empty().insert("pk"@, AttrView::S(account_pk(member.account_id))).insert(
            "sk"@,
            AttrView::S("MEMBER#"@ + member.user_id),
        )
    } else {
        ItemView::empty().insert("pk"@, AttrView::S("USER#"@ + member.user_id)).insert(
            "sk"@,
            AttrView::S("ACCOUNT"@),
        )
    };
    let item = item.insert("user_id"@, AttrView::S(member.user_id)).insert(
        "account_id"@,
        AttrView::S(member.account_id),
    ).insert("role"@, AttrView::S(role_text(member.role))).insert(
        "created_at"@,
        AttrView::S(member.created_at),
    );
    set_text(item, "email"@, member.email)
}

fn prefixed(prefix: &str, id: &str) -> (r: String)
    ensures
        r@ == prefix@ + id@,
{
    let mut s = owned(prefix);
    s.append(id);
    s
}

/// A row of a member: under the account, or under the user.
pub fn member_item(member: &MemberRecord, account_row: bool) -> (r: Item)
    ensures
        r.wf(),
        viewed(r) == member_row(member@, account_row),
{
    let mut item = new_item();
    if account_row {
        put_s(&mut item, "pk", account_key(member.account_id.as_str()).as_str());
        put_s(&mut item, "sk", prefixed("MEMBER#", member.user_id.as_str()).as_str());
    } else {
        put_s(&mut item, "pk", prefixed("USER#", member.user_id.as_str()).as_str());
        put_s(&mut item, "sk", "ACCOUNT");
    }
    put_s(&mut item, "user_id", member.user_id.as_str());
    put_s(&mut item, "account_id", member.account_id.as_str());
    put_s(&mut item, "role", member.role.as_str());
    put_s(&mut item, "created_at", member.created_at.as_str());
    put_opt(&mut item, "email", as_str_opt(&member.email));
    item
}

/// The text, or none.
pub open spec fn or_empty(s: Option<Seq<char>>) -> Seq<char> {
    match s {
        Some(t) => t,
        None => Seq::empty(),
    }
}

fn unwrap_text(s: Option<String>) -> (r: String)
    ensures
        r@ == or_empty(s.deep_view()),
{
    match s {
        Some(t) => t,
        None => String::new(),
    }
}

/// The role that a stored row names.
pub open spec fn row_role(item: ItemView) -> Option<TeamRole> {
    match text_attr(item, "role"@) {
        Some(text) => role_of(text),
        None => None,
    }
}

fn read_role(item: &Item) -> (r: Option<TeamRole>)
    requires
        item.wf(),
    ensures
        r == row_role(viewed(*item)),
{
    match get_s(item, "role") {
        Some(text) => TeamRole::parse(text.as_str()),
        None => None,
    }
}

/// What a stored row says of a member.
pub open spec fn row_member(item: ItemView) -> Option<MemberView> {
    if text_attr(item, "user_id"@) is Some && text_attr(item, "account_id"@) is Some && row_role(
        item,
    ) is Some {
        Some(
            MemberView {
                user_id: text_attr(item, "user_id"@)->0,
                account_id: text_attr(item, "account_id"@)->0,
                email: text_attr(item, "email"@),
                role: row_role(item)->0,
                created_at: or_empty(text_attr(item, "created_at"@)),
            },
        )
    } else {
        None
    }
}

/// What a stored row says of a member.
pub fn member_from_item(item: &Item) -> (r: Option<MemberRecord>)
    requires
        item.wf(),
    ensures
        match row_member(viewed(*item)) {
            Some(m) => r is Some && r->0@ == m,
            None => r is None,
        },
{
    match (get_s(item, "user_id"), get_s(item, "account_id"), read_role(item)) {
        (Some(user_id), Some(account_id), Some(role)) => Some(
            MemberRecord {
                user_id,
                account_id,
                email: get_s(item, "email"),
                role,
                created_at: unwrap_text(get_s(item, "created_at")),
            },
        ),
        _ => None,
    }
}

/// An invitation as it is stored.
pub open spec fn invite_row(invite: InviteView) -> ItemView {
    let item = ItemView::empty().insert("pk"@, AttrView::S(account_pk(invite.account_id))).insert(
        "sk"@,
        AttrView::S("INVITE#"@ + invite.id),
    ).insert("invite_id"@, AttrView::S(invite.id)).insert(
        "account_id"@,
        AttrView::S(invite.account_id),
    ).insert("email"@, AttrView::S(invite.email)).insert(
        "role"@,
        AttrView::S(role_text(invite.role)),
    ).insert("invited_by"@, AttrView::S(invite.invited_by)).insert(
        "expires_at"@,
        AttrView::S(invite.expires_at),
    ).insert("created_at"@, AttrView::S(invite.created_at)).insert("status"@, AttrView::S("pending"@));
    with_ttl(item, invite.expires_at)
}

/// The row with the second at which it may be dropped.
pub open spec fn with_ttl(item: ItemView, expires_at: Seq<char>) -> ItemView {
    match moment_of(expires_at) {
        Some(end) => item.insert("ttl"@, AttrView::N(dec_int(end.secs as int))),
        None => item,
    }
}

fn put_ttl(item: &mut Item, expires_at: &str)
    requires
        old(item).wf(),
    ensures
        final(item).wf(),
        viewed(*final(item)) == with_ttl(viewed(*old(item)), expires_at@),
{
    if let Some(ttl) = ttl_epoch(expires_at) {
        put_n(item, "ttl", i64_text(ttl).as_str());
    }
}

/// An invitation as it is stored.
pub fn invite_item(invite: &InviteRecord) -> (r: Item)
    ensures
        r.wf(),
        viewed(r) == invite_row(invite@),
{
    let mut item = new_item();
    put_s(&mut item, "pk", account_key(invite.account_id.as_str()).as_str());
    put_s(&mut item, "sk", prefixed("INVITE#", invite.id.as_str()).as_str());
    put_s(&mut item, "invite_id", invite.id.as_str());
    put_s(&mut item, "account_id", invite.account_id.as_str());
    put_s(&mut item, "email", invite.email.as_str());
    put_s(&mut item, "role", invite.role.as_str());
    put_s(&mut item, "invited_by", invite.invited_by.as_str());
    put_s(&mut item, "expires_at", invite.expires_at.as_str());
    put_s(&mut item, "created_at", invite.created_at.as_str());
    put_s(&mut item, "status", "pending");
    put_ttl(&mut item, invite.expires_at.as_str());
    item
}

/// The row that leads from an invitation's token to its account.
pub open spec fn token_row(invite: InviteView) -> ItemView {
    with_ttl(
        ItemView::empty().insert("pk"@, AttrView::S("TOKEN#"@ + invite.id)).insert(
            "sk"@,
            AttrView::S("INVITE"@),
        ).insert("account_id"@, AttrView::S(invite.account_id)).insert(
            "invite_id"@,
            AttrView::S(invite.id),
        ),
        invite.expires_at,
    )
}

/// The row that leads from an invitation's token to its account.
pub fn token_item(invite: &InviteRecord) -> (r: Item)
    ensures
        r.wf(),
        viewed(r) == token_row(invite@),
{
    let mut item = new_item();
    put_s(&mut item, "pk", prefixed("TOKEN#", invite.id.as_str()).as_str());
    put_s(&mut item, "sk", "INVITE");
    put_s(&mut item, "account_id", invite.account_id.as_str());
    put_s(&mut item, "invite_id", invite.id.as_str());
    put_ttl(&mut item, invite.expires_at.as_str());
    item
}

/// What a stored row says of an invitation.
pub open spec fn row_invite(item: ItemView) -> Option<InviteView> {
    if text_attr(item, "invite_id"@) is Some && text_attr(item, "account_id"@) is Some && text_attr(
        item,
        "email"@,
    ) is Some && row_role(item) is Some && text_attr(item, "expires_at"@) is Some {
        Some(
            InviteView {
                id: text_attr(item, "invite_id"@)->0,
                account_id: text_attr(item, "account_id"@)->0,
                email: text_attr(item, "email"@)->0,
                role: row_role(item)->0,
                invited_by: or_empty(text_attr(item, "invited_by"@)),
                expires_at: text_attr(item, "expires_at"@)->0,
                created_at: or_empty(text_attr(item, "created_at"@)),
            },
        )
    } else {
        None
    }
}

/// What a stored row says of an invitation.
pub fn invite_from_item(item: &Item) -> (r: Option<InviteRecord>)
    requires
        item.wf(),
    ensures
        match row_invite(viewed(*item)) {
            Some(m) => r is Some && r->0@ == m,
            None => r is None,
        },
{
    match (
        get_s(item, "invite_id"),
        get_s(item, "account_id"),
        get_s(item, "email"),
        read_role(item),
        get_s(item, "expires_at"),
    ) {
        (Some(id), Some(account_id), Some(email), Some(role), Some(expires_at)) => Some(
            InviteRecord {
                id,
                account_id,
                email,
                role,
                invited_by: unwrap_text(get_s(item, "invited_by")),
                expires_at,
                created_at: unwrap_text(get_s(item, "created_at")),
            },
        ),
        _ => None,
    }
}

/// What is read back of either row of a member is the member.
pub proof fn member_round_trip(member: MemberView, account_row: bool)
    ensures
        row_member(member_row(member, account_row)) == Some(member),
{
    role_round_trip(member.role);
    reveal_strlit("pk");
    reveal_strlit("sk");
    reveal_strlit("user_id");
    reveal_strlit("account_id");
    reveal_strlit("role");
    reveal_strlit("created_at");
    reveal_strlit("email");
    assert("pk"@.len() == 2);
    assert("sk"@.len() == 2);
    assert("user_id"@.len() == 7);
    assert("account_id"@.len() == 10);
    assert("role"@.len() == 4);
    assert("created_at"@.len() == 10);
    assert("email"@.len() == 5);
    assert("pk"@[0] != "sk"@[0]);
    assert("account_id"@[0] != "created_at"@[0]);
}

/// What is read back of a stored invitation is the invitation.
pub proof fn invite_round_trip(invite: InviteView)
    ensures
        row_invite(invite_row(invite)) == Some(invite),
{
    role_round_trip(invite.role);
    reveal_strlit("pk");
    reveal_strlit("sk");
    reveal_strlit("invite_id");
    reveal_strlit("account_id");
    reveal_strlit("role");
    reveal_strlit("created_at");
    reveal_strlit("email");
    reveal_strlit("invited_by");
    reveal_strlit("expires_at");
    reveal_strlit("status");
    reveal_strlit("ttl");
    assert("pk"@.len() == 2);
    assert("sk"@.len() == 2);
    assert("invite_id"@.len() == 9);
    assert("account_id"@.len() == 10);
    assert("role"@.len() == 4);
    assert("created_at"@.len() == 10);
    assert("email"@.len() == 5);
    assert("invited_by"@.len() == 10);
    assert("expires_at"@.len() == 10);
    assert("status"@.len() == 6);
    assert("ttl"@.len() == 3);
    assert("pk"@[0] != "sk"@[0]);
    assert("account_id"@[0] != "created_at"@[0]);
    assert("account_id"@[0] != "invited_by"@[0]);
    assert("account_id"@[0] != "expires_at"@[0]);
    assert("created_at"@[0] != "invited_by"@[0]);
    assert("created_at"@[0] != "expires_at"@[0]);
    assert("invited_by"@[0] != "expires_at"@[0]);
}

/// The member rows and the invitation rows among an account's stored rows.
pub open spec fn is_member_row(item: ItemView) -> bool {
    "MEMBER#"@.is_prefix_of(or_empty(text_attr(item, "sk"@))) && row_member(item) is Some
}

/// A row that holds an invitation.
pub open spec fn is_invite_row(item: ItemView) -> bool {
    !"MEMBER#"@.is_prefix_of(or_empty(text_attr(item, "sk"@))) && "INVITE#"@.is_prefix_of(
        or_empty(text_attr(item, "sk"@)),
    ) && row_invite(item) is Some
}

/// The members that stored rows hold, in order.
pub open spec fn members_of_rows(items: Seq<Item>) -> Seq<MemberView>
    decreases items.len(),
{
    if items.len() == 0 {
        Seq::empty()
    } else {
        let before = members_of_rows(items.drop_last());
        let item = viewed(items.last());
        if is_member_row(item) {
            before.push(row_member(item)->0)
        } else {
            before
        }
    }
}

/// The invitations that stored rows hold, in order.
pub open spec fn invites_of_rows(items: Seq<Item>) -> Seq<InviteView>
    decreases items.len(),
{
    if items.len() == 0 {
        Seq::empty()
    } else {
        let before = invites_of_rows(items.drop_last());
        let item = viewed(items.last());
        if is_invite_row(item) {
            before.push(row_invite(item)->0)
        } else {
            before
        }
    }
}

/// The contents of members.
pub open spec fn member_views(members: Seq<MemberRecord>) -> Seq<MemberView> {
    members.map_values(|m: MemberRecord| m@)
}

/// The contents of invitations.
pub open spec fn invite_views(invites: Seq<InviteRecord>) -> Seq<InviteView> {
    invites.map_values(|i: InviteRecord| i@)
}

/// The members and the invitations that an account's stored rows hold.
pub fn snapshot_from_items(items: &Vec<Item>) -> (r: TeamSnapshot)
    requires
        forall|i: int| 0 <= i < items@.len() ==> (#[trigger] items@[i]).wf(),
    ensures
        member_views(r.members@) == members_of_rows(items@),
        invite_views(r.invites@) == invites_of_rows(items@),
{
    let mut members: Vec<MemberRecord> = Vec::new();
    let mut invites: Vec<InviteRecord> = Vec::new();
    let mut i: usize = 0;
    assert(member_views(members@) =~= members_of_rows(items@.take(0)));
    assert(invite_views(invites@) =~= invites_of_rows(items@.take(0)));
    while i < items.len()
        invariant
            i <= items@.len(),
            forall|j: int| 0 <= j < items@.len() ==> (#[trigger] items@[j]).wf(),
            member_views(members@) == members_of_rows(items@.take(i as int)),
            invite_views(invites@) == invites_of_rows(items@.take(i as int)),
        decreases items@.len() - i,
    {
        let item = &items[i];
        let ghost ms = members@;
        let ghost is = invites@;
        proof {
            assert(items@.take(i + 1).drop_last() =~= items@.take(i as int));
            assert(items@.take(i + 1).last() == *item);
        }
        let sk = unwrap_text(get_s(item, "sk"));
        if starts_with(sk.as_str(), "MEMBER#") {
            if let Some(member) = member_from_item(item) {
                members.push(member);
                assert(member_views(members@) =~= member_views(ms).push(member@));
            }
        } else if starts_with(sk.as_str(), "INVITE#") {
            if let Some(invite) = invite_from_item(item) {
                invites.push(invite);
                assert(invite_views(invites@) =~= invite_views(is).push(invite@));
            }
        }
        i += 1;
    }
    assert(items@.take(i as int) =~= items@);
    TeamSnapshot { members, invites }
}

/// An invitation holds before its end and is over from then on; one whose end cannot be
/// read is over.
pub proof fn invitations_end(expires_at: &str, now: Moment, r: bool)
    requires
        call_ensures(is_expired, (expires_at, now), r),
    ensures
        moment_of(expires_at@) is None ==> r,
        moment_of(expires_at@) is Some ==> {
            let end = moment_of(expires_at@)->0;
            !r <==> end.secs > now.secs || end.secs == now.secs && end.nanos > now.nanos
        },
{
}

/// Anybody can be invited who has an address, but not as an owner, nor while a member has
/// the address in whatever case, nor while an invitation to it is open.
pub proof fn invitations_need_a_new_address(
    team: TeamView,
    account_id: Seq<char>,
    email: Seq<char>,
    role: TeamRole,
    now: Moment,
    u: Seq<char>,
    i: Seq<char>,
)
    ensures
        role == TeamRole::Owner ==> invite_fault(team, account_id, email, role, now) is Some,
        grant_email(email) is None ==> invite_fault(team, account_id, email, role, now) is Some,
        role != TeamRole::Owner && grant_email(email) is Some && team.users.dom().contains(u) && team.users[u].account_id
            == account_id && team.users[u].email is Some && eq_ascii_case(team.users[u].email->0, grant_email(email)->0)
            ==> invite_fault(team, account_id, email, role, now) is Some && invite_fault(
            team,
            account_id,
            email,
            role,
            now,
        )->0 is Conflict,
        role != TeamRole::Owner && grant_email(email) is Some && team.invites.dom().contains(i)
            && team.invites[i].account_id == account_id && team.invites[i].email == grant_email(email)->0
            && !expired_at(team.invites[i].expires_at, now) ==> invite_fault(team, account_id, email, role, now) is Some
            && invite_fault(team, account_id, email, role, now)->0 is Conflict,
        role != TeamRole::Owner && grant_email(email) is Some && (forall|v: Seq<char>| #[trigger]
            team.users.dom().contains(v) ==> team.users[v].account_id != account_id) && (forall|j: Seq<char>| #[trigger]
            team.invites.dom().contains(j) ==> team.invites[j].account_id != account_id) ==> invite_fault(
            team,
            account_id,
            email,
            role,
            now,
        ) is None,
{
}

/// An invitation is to the account and for the role that were given, to the address in its
/// normal form, and holds for seven days.
pub proof fn invitations_hold_for_a_week(
    account_id: Seq<char>,
    email: Seq<char>,
    role: TeamRole,
    invited_by: Seq<char>,
    now: Moment,
    id: Seq<char>,
)
    requires
        now.secs + 7 * 24 * 60 * 60 <= MAX_SECS,
    ensures
        ({
            let invite = new_invite(account_id, email, role, invited_by, now, id);
            &&& invite.id == id
            &&& invite.account_id == account_id
            &&& invite.role == role
            &&& invite.invited_by == invited_by
            &&& grant_email(email) is Some ==> Some(invite.email) == grant_email(email)
            &&& invite.created_at == rfc3339_text(now.secs, now.nanos)
            &&& invite.expires_at == rfc3339_text((now.secs + 7 * 24 * 60 * 60) as i64, now.nanos)
        }),
{
}

/// Who is invited can join within the week: they become a member of the account with the
/// role of the invitation, nobody else is touched, and the invitation is gone. A week
/// later they cannot.
pub proof fn invited_people_can_join(
    team: TeamView,
    account_id: Seq<char>,
    email: Seq<char>,
    role: TeamRole,
    invited_by: Seq<char>,
    now: Moment,
    id: Seq<char>,
    user: AuthUserView,
    later: Moment,
    other: Seq<char>,
)
    requires
        invite_fault(team, account_id, email, role, now) is None,
        moment_of(new_invite(account_id, email, role, invited_by, now, id).expires_at) == Some(invite_end(now)),
        now.secs + 7 * 24 * 60 * 60 <= MAX_SECS,
        user.email is Some,
        grant_email(user.email->0) == grant_email(email),
        !team.users.dom().contains(user.user_id),
    ensures
        ({
            let invited = TeamView {
                invites: team.invites.insert(id, new_invite(account_id, email, role, invited_by, now, id)),
                ..team
            };
            let after = after_accept(invited, id, user, later);
            let me = resolved_user(after, user);
            &&& later.secs < now.secs + 7 * 24 * 60 * 60 ==> {
                &&& accept_fault(invited, id, user, later) is None
                &&& after.users.dom().contains(user.user_id)
                &&& after.users[user.user_id].account_id == account_id
                &&& after.users[user.user_id].role == role
                &&& after.users[user.user_id].email == grant_email(email)
                &&& me.account_id == account_id && me.role == role && me.user_id == user.user_id
                &&& !after.invites.dom().contains(id)
            }
            &&& later.secs > now.secs + 7 * 24 * 60 * 60 ==> {
                &&& accept_fault(invited, id, user, later) == Some(TeamErrorView::Expired)
                &&& !after.users.dom().contains(user.user_id)
                &&& !after.invites.dom().contains(id)
            }
            &&& other != user.user_id ==> (after.users.dom().contains(other) <==> team.users.dom().contains(other))
            &&& other != user.user_id && team.users.dom().contains(other) ==> after.users[other] == team.users[other]
            &&& other != id && team.invites.dom().contains(other) ==> after.invites.dom().contains(other)
                && after.invites[other] == team.invites[other]
        }),
{
}

/// An invitation is for its address alone: whoever signs in with another, or with none,
/// is refused, and so is one who is in the account already. Nothing changes then.
pub proof fn invitations_are_personal(team: TeamView, token: Seq<char>, user: AuthUserView, now: Moment, end: Moment)
    requires
        team.invites.dom().contains(token),
        moment_of(team.invites[token].expires_at) == Some(end),
        end.secs > now.secs,
    ensures
        user.email is None ==> accept_fault(team, token, user, now) is Some && after_accept(team, token, user, now)
            == team,
        user.email is Some && grant_email(user.email->0) is Some && grant_email(user.email->0)->0
            != team.invites[token].email ==> accept_fault(team, token, user, now) == Some(TeamErrorView::EmailMismatch)
            && after_accept(team, token, user, now) == team,
        team.users.dom().contains(user.user_id) && team.users[user.user_id].account_id
            == team.invites[token].account_id ==> accept_fault(team, token, user, now) is Some && after_accept(
            team,
            token,
            user,
            now,
        ) == team,
{
}

/// An owner does not leave others behind: while another member is in the account, or an
/// invitation to it is open, its owner cannot join another. One who is not an owner can.
pub proof fn owners_do_not_leave_others_behind(
    team: TeamView,
    token: Seq<char>,
    user: AuthUserView,
    now: Moment,
    end: Moment,
    other: Seq<char>,
)
    requires
        team.invites.dom().contains(token),
        moment_of(team.invites[token].expires_at) == Some(end),
        end.secs > now.secs,
        user.email is Some,
        grant_email(user.email->0) == Some(team.invites[token].email),
        team.users.dom().contains(user.user_id),
        team.users[user.user_id].account_id != team.invites[token].account_id,
    ensures
        team.users[user.user_id].role == TeamRole::Owner && other != user.user_id && team.users.dom().contains(other)
            && team.users[other].account_id == team.users[user.user_id].account_id ==> accept_fault(
            team,
            token,
            user,
            now,
        ) is Some && accept_fault(team, token, user, now)->0 is Conflict,
        team.users[user.user_id].role == TeamRole::Owner && team.invites.dom().contains(other)
            && team.invites[other].account_id == team.users[user.user_id].account_id && moment_of(
            team.invites[other].expires_at,
        ) is Some && moment_of(team.invites[other].expires_at)->0.secs > now.secs ==> accept_fault(
            team,
            token,
            user,
            now,
        ) is Some && accept_fault(team, token, user, now)->0 is Conflict,
        team.users[user.user_id].role != TeamRole::Owner ==> accept_fault(team, token, user, now) is None
            && after_accept(team, token, user, now).users[user.user_id].account_id == team.invites[token].account_id,
{
}

/// A member is found in their team with their role each time they sign in; anybody else
/// becomes the owner of an account of their own, and stays it.
pub proof fn users_keep_their_team(team: TeamView, user: AuthUserView, now: Moment, other: Seq<char>)
    ensures
        ({
            let me = resolved_user(team, user);
            let after = after_resolve(team, user, now);
            &&& me.user_id == user.user_id
            &&& me.first_name == user.first_name && me.last_name == user.last_name
            &&& user.email is Some ==> me.email == user.email
            &&& team.users.dom().contains(user.user_id) ==> me.account_id == team.users[user.user_id].account_id
                && me.role == team.users[user.user_id].role && after == team
            &&& team.users.dom().contains(user.user_id) && user.email is None ==> me.email
                == team.users[user.user_id].email
            &&& !team.users.dom().contains(user.user_id) ==> me.account_id == user.user_id && me.role == TeamRole::Owner
            &&& resolved_user(after, user).account_id == me.account_id && resolved_user(after, user).role == me.role
            &&& other != user.user_id ==> (after.users.dom().contains(other) <==> team.users.dom().contains(other))
            &&& after.invites == team.invites && after.plans == team.plans
        }),
{
}

/// A member who is not the owner can be removed and given another role, and only in their
/// own account; ownership cannot be given.
pub proof fn members_are_managed_in_their_account(
    team: TeamView,
    account_id: Seq<char>,
    user_id: Seq<char>,
    role: TeamRole,
)
    ensures
        remove_fault(team, account_id, user_id) is None <==> team.users.dom().contains(user_id)
            && team.users[user_id].account_id == account_id && team.users[user_id].role != TeamRole::Owner,
        patch_fault(team, account_id, user_id, role) is None <==> role != TeamRole::Owner && team.users.dom().contains(
            user_id,
        ) && team.users[user_id].account_id == account_id && team.users[user_id].role != TeamRole::Owner,
        !team.users.dom().contains(user_id) || team.users[user_id].account_id != account_id ==> remove_fault(
            team,
            account_id,
            user_id,
        ) == Some(TeamErrorView::NotFound),
{
}

/// Each member and each open invitation takes a seat.
pub proof fn everybody_takes_a_seat(snapshot: &TeamSnapshot, r: u32)
    requires
        call_ensures(seats_used, (snapshot,), r),
        snapshot.members@.len() + snapshot.invites@.len() <= u32::MAX,
    ensures
        r == snapshot.members@.len() + snapshot.invites@.len(),
{
}

proof fn row_keys_differ()
    ensures
        "pk"@ != "sk"@,
        "pk"@ != "user_id"@,
        "pk"@ != "account_id"@,
        "pk"@ != "role"@,
        "pk"@ != "created_at"@,
        "pk"@ != "email"@,
        "pk"@ != "invite_id"@,
        "pk"@ != "invited_by"@,
        "pk"@ != "expires_at"@,
        "pk"@ != "status"@,
        "pk"@ != "ttl"@,
        "sk"@ != "user_id"@,
        "sk"@ != "account_id"@,
        "sk"@ != "role"@,
        "sk"@ != "created_at"@,
        "sk"@ != "email"@,
        "sk"@ != "invite_id"@,
        "sk"@ != "invited_by"@,
        "sk"@ != "expires_at"@,
        "sk"@ != "status"@,
        "sk"@ != "ttl"@,
        "status"@ != "ttl"@,
{
    reveal_strlit("pk");
    reveal_strlit("sk");
    reveal_strlit("user_id");
    reveal_strlit("account_id");
    reveal_strlit("role");
    reveal_strlit("created_at");
    reveal_strlit("email");
    reveal_strlit("invite_id");
    reveal_strlit("invited_by");
    reveal_strlit("expires_at");
    reveal_strlit("status");
    reveal_strlit("ttl");
    assert("pk"@.len() == 2 && "pk"@[0] == 'p');
    assert("sk"@.len() == 2 && "sk"@[0] == 's');
    assert("user_id"@.len() == 7);
    assert("account_id"@.len() == 10);
    assert("role"@.len() == 4);
    assert("created_at"@.len() == 10);
    assert("email"@.len() == 5);
    assert("invite_id"@.len() == 9);
    assert("invited_by"@.len() == 10);
    assert("expires_at"@.len() == 10);
    assert("status"@.len() == 6);
    assert("ttl"@.len() == 3);
}

/// A member is kept under the account and under the user; an invitation under its account
/// and under its token. Invitations may be dropped once they are over.
pub proof fn rows_have_their_places(member: MemberView, invite: InviteView, end: Moment)
    ensures
        text_attr(member_row(member, true), "pk"@) == Some("ACCOUNT#"@ + member.account_id),
        text_attr(member_row(member, true), "sk"@) == Some("MEMBER#"@ + member.user_id),
        text_attr(member_row(member, false), "pk"@) == Some("USER#"@ + member.user_id),
        text_attr(member_row(member, false), "sk"@) == Some("ACCOUNT"@),
        text_attr(invite_row(invite), "pk"@) == Some("ACCOUNT#"@ + invite.account_id),
        text_attr(invite_row(invite), "sk"@) == Some("INVITE#"@ + invite.id),
        text_attr(invite_row(invite), "status"@) == Some("pending"@),
        text_attr(token_row(invite), "pk"@) == Some("TOKEN#"@ + invite.id),
        text_attr(token_row(invite), "sk"@) == Some("INVITE"@),
        text_attr(token_row(invite), "account_id"@) == Some(invite.account_id),
        moment_of(invite.expires_at) == Some(end) ==> crate::dynamo::number_attr(invite_row(invite), "ttl"@) == Some(
            dec_int(end.secs as int),
        ) && crate::dynamo::number_attr(token_row(invite), "ttl"@) == Some(dec_int(end.secs as int)),
{
    row_keys_differ();
    reveal_strlit("account_id");
    reveal_strlit("invite_id");
    reveal_strlit("ttl");
    assert("account_id"@.len() == 10);
    assert("invite_id"@.len() == 9);
    assert("ttl"@.len() == 3);
}

/// Of an account's rows, those of members are read as members and those of invitations as
/// invitations, each once and in order.
pub proof fn rows_are_read_in_order(items: Seq<Item>, item: Item, member: MemberView, invite: InviteView)
    ensures
        viewed(item) == member_row(member, true) ==> members_of_rows(items.push(item)) == members_of_rows(items).push(
            member,
        ) && invites_of_rows(items.push(item)) == invites_of_rows(items),
        viewed(item) == invite_row(invite) ==> invites_of_rows(items.push(item)) == invites_of_rows(items).push(invite)
            && members_of_rows(items.push(item)) == members_of_rows(items),
        members_of_rows(Seq::empty()).len() == 0 && invites_of_rows(Seq::empty()).len() == 0,
{
    member_round_trip(member, true);
    invite_round_trip(invite);
    rows_have_their_places(member, invite, Moment { secs: 0, nanos: 0 });
    reveal_strlit("MEMBER#");
    reveal_strlit("INVITE#");
    let m = "MEMBER#"@ + member.user_id;
    let i = "INVITE#"@ + invite.id;
    assert("MEMBER#"@.len() == 7 && "MEMBER#"@[0] == 'M');
    assert("INVITE#"@.len() == 7 && "INVITE#"@[0] == 'I');
    assert("MEMBER#"@.is_prefix_of(m));
    assert("INVITE#"@.is_prefix_of(i));
    assert(i[0] == 'I');
    assert(!"MEMBER#"@.is_prefix_of(i)) by {
        if "MEMBER#"@.is_prefix_of(i) {
            assert("MEMBER#"@ == i.subrange(0, 7));
            assert(i.subrange(0, 7)[0] == i[0]);
        }
    }
    assert(items.push(item).drop_last() =~= items);
    assert(items.push(item).last() == item);
}

/// A member who is removed is in no team, and nobody else is removed.
pub proof fn removed_members_are_gone(
    store: &mut TeamStore,
    account_id: &str,
    user_id: &str,
    r: Result<(), TeamError>,
    other: Seq<char>,
)
    requires
        old(store).wf(),
        call_ensures(TeamStore::remove_member, (store, account_id, user_id), r),
    ensures
        r is Ok <==> old(store)@.users.dom().contains(user_id@) && old(store)@.users[user_id@].account_id == account_id@
            && old(store)@.users[user_id@].role != TeamRole::Owner,
        r is Ok ==> !final(store)@.users.dom().contains(user_id@),
        other != user_id@ ==> (final(store)@.users.dom().contains(other) <==> old(store)@.users.dom().contains(other)),
        r is Err ==> final(store)@ == old(store)@,
        final(store)@.invites == old(store)@.invites,
{
}

/// A member whose role is changed has that role, in the same account; nobody else's changes.
pub proof fn changed_roles_are_kept(
    store: &mut TeamStore,
    account_id: &str,
    user_id: &str,
    role: TeamRole,
    r: Result<MemberRecord, TeamError>,
    other: Seq<char>,
)
    requires
        old(store).wf(),
        call_ensures(TeamStore::patch_member_role, (store, account_id, user_id, role), r),
    ensures
        role == TeamRole::Owner ==> r is Err,
        r is Ok ==> ({
            let before = old(store)@.users[user_id@];
            let after = final(store)@.users[user_id@];
            &&& after.role == role
            &&& after.account_id == account_id@
            &&& after.user_id == before.user_id && after.email == before.email && after.created_at == before.created_at
            &&& r->Ok_0@ == after
            &&& before.role != TeamRole::Owner
        }),
        other != user_id@ && old(store)@.users.dom().contains(other) ==> final(store)@.users.dom().contains(other)
            && final(store)@.users[other] == old(store)@.users[other],
        r is Err ==> final(store)@ == old(store)@,
{
}

/// An invitation that is taken back can no longer be accepted; that of another account
/// cannot be taken back.
pub proof fn revoked_invitations_are_gone(
    store: &mut TeamStore,
    account_id: &str,
    invite_id: &str,
    r: Result<(), TeamError>,
    user: AuthUserView,
    now: Moment,
)
    requires
        old(store).wf(),
        call_ensures(TeamStore::revoke_invite, (store, account_id, invite_id), r),
    ensures
        r is Ok <==> old(store)@.invites.dom().contains(invite_id@) && old(store)@.invites[invite_id@].account_id
            == account_id@,
        r is Ok ==> accept_fault(final(store)@, invite_id@, user, now) == Some(TeamErrorView::NotFound),
        r is Err ==> r->Err_0 is NotFound && final(store)@ == old(store)@,
        final(store)@.users == old(store)@.users,
{
}

/// A plan that was set for an account is found, and no other account's changes.
pub proof fn set_plans_are_found(store: &mut TeamStore, account_id: &str, plan: BillingPlan, other: Seq<char>)
    requires
        old(store).wf(),
        call_ensures(TeamStore::set_plan_override, (store, account_id, plan), ()),
    ensures
        final(store)@.plans.dom().contains(account_id@) && final(store)@.plans[account_id@] == plan,
        other != account_id@ ==> (final(store)@.plans.dom().contains(other) <==> old(store)@.plans.dom().contains(other)),
        final(store)@.users == old(store)@.users && final(store)@.invites == old(store)@.invites,
{
}

/// The members that are shown are those of the account, and the invitations those to it
/// that are not over; each of them is shown, and the oldest first.
pub proof fn teams_are_complete(store: &TeamStore, account_id: &str, now: Moment, r: TeamSnapshot, m: MemberRecord, v: InviteRecord, i: int, j: int)
    requires
        call_ensures(TeamStore::snapshot_at, (store, account_id, now), r),
    ensures
        r.members@.contains(m) <==> store.users.values().contains(m) && m@.account_id == account_id@,
        r.invites@.contains(v) <==> store.invites.values().contains(v) && v@.account_id == account_id@ && !expired_at(
            v@.expires_at,
            now,
        ),
        0 <= i < j < r.members@.len() ==> !lex_lt(
            text_key(r.members@[j]@.created_at),
            text_key(r.members@[i]@.created_at),
        ),
        0 <= i < j < r.invites@.len() ==> !lex_lt(
            text_key(r.invites@[j]@.created_at),
            text_key(r.invites@[i]@.created_at),
        ),
{
    let members = account_members(*store, account_id@);
    let invites = account_invites(*store, account_id@, now);
    r.members@.to_multiset_ensures();
    members.to_multiset_ensures();
    assert(r.members@.contains(m) <==> r.members@.to_multiset().count(m) > 0);
    assert(members.contains(m) <==> members.to_multiset().count(m) > 0);
    r.invites@.to_multiset_ensures();
    invites.to_multiset_ensures();
    assert(r.invites@.contains(v) <==> r.invites@.to_multiset().count(v) > 0);
    assert(invites.contains(v) <==> invites.to_multiset().count(v) > 0);
    filtering_keeps(store.users.values(), member_of(account_id@), m);
    filtering_keeps(store.invites.values(), open_invite_to(account_id@, now), v);
    if 0 <= i < j < r.members@.len() {
        assert(!lex_lt(r.members@[j].sort_key(), r.members@[i].sort_key()));
    }
    if 0 <= i < j < r.invites@.len() {
        assert(!lex_lt(r.invites@[j].sort_key(), r.invites@[i].sort_key()));
    }
}

proof fn filtering_keeps<T>(s: Seq<T>, f: spec_fn(T) -> bool, x: T)
    ensures
        s.filter(f).contains(x) <==> s.contains(x) && f(x),
    decreases s.len(),
{
    reveal(Seq::filter);
    if s.len() > 0 {
        let d = s.drop_last();
        let e = d.filter(f);
        filtering_keeps(d, f, x);
        assert(s[s.len() - 1] == s.last());
        if d.contains(x) {
            let k = choose|k: int| 0 <= k < d.len() && d[k] == x;
            assert(s[k] == x);
        }
        if s.contains(x) && s.last() != x {
            let k = choose|k: int| 0 <= k < s.len() && s[k] == x;
            assert(d[k] == x);
        }
        let p = e.push(s.last());
        assert(p[e.len() as int] == s.last());
        if e.contains(x) {
            let k = choose|k: int| 0 <= k < e.len() && e[k] == x;
            assert(p[k] == x);
        }
        if p.contains(x) && s.last() != x {
            let k = choose|k: int| 0 <= k < p.len() && p[k] == x;
            assert(e[k] == x);
        }
    }
}

/// An invitation that is made is kept under its id, as it was given; one that is refused
/// changes nothing.
pub proof fn invitations_are_kept(
    store: &mut TeamStore,
    account_id: &str,
    email: &str,
    role: TeamRole,
    invited_by: &str,
    now: Moment,
    id: String,
    r: Result<InviteRecord, TeamError>,
)
    requires
        old(store).wf(),
        now.has_date(),
        call_ensures(TeamStore::create_invite_at, (store, account_id, email, role, invited_by, now, id), r),
    ensures
        role == TeamRole::Owner ==> r is Err,
        grant_email(email@) is None ==> r is Err,
        r is Err ==> final(store)@ == old(store)@,
        r is Ok ==> ({
            let kept = final(store)@.invites;
            &&& kept.dom().contains(id@)
            &&& kept[id@] == r->Ok_0@
            &&& kept[id@].role == role
            &&& kept[id@].account_id == account_id@
            &&& kept[id@].invited_by == invited_by@
            &&& Some(kept[id@].email) == grant_email(email@)
            &&& final(store)@.users == old(store)@.users
        }),
        r is Ok && 0 <= now.secs && now.secs + 604_800 <= 253_402_300_799 ==> moment_of(r->Ok_0@.expires_at) == Some(
            Moment { secs: (now.secs + 604_800) as i64, nanos: now.nanos },
        ),
{
}

/// Whoever accepts an invitation is in its account with its role, and the invitation is
/// used up; where it is refused nobody's team changes.
pub proof fn accepting_joins_the_account(
    store: &mut TeamStore,
    token: &str,
    user: &AuthUser,
    now: Moment,
    r: Result<MemberRecord, TeamError>,
    other: Seq<char>,
)
    requires
        old(store).wf(),
        now.has_date(),
        call_ensures(TeamStore::accept_invite_at, (store, token, user, now), r),
    ensures
        !old(store)@.invites.dom().contains(token@) ==> r is Err && r->Err_0 is NotFound,
        r is Ok ==> ({
            let invite = old(store)@.invites[token@];
            &&& r->Ok_0@.account_id == invite.account_id
            &&& r->Ok_0@.role == invite.role
            &&& r->Ok_0@.user_id == user@.user_id
            &&& final(store)@.users[user@.user_id] == r->Ok_0@
            &&& !final(store)@.invites.dom().contains(token@)
            &&& user@.email is Some && grant_email(user@.email->0) == Some(invite.email)
        }),
        r is Err ==> final(store)@.users == old(store)@.users,
        other != user@.user_id && old(store)@.users.dom().contains(other) ==> final(store)@.users[other]
            == old(store)@.users[other],
{
}

/// The account that is found for an address has a member with it, in any case.
pub proof fn accounts_are_found_by_address(store: &TeamStore, email: &str, r: Option<String>)
    requires
        store.wf(),
        call_ensures(TeamStore::find_account_by_email, (store, email), r),
    ensures
        r is Some ==> exists|w: Seq<char>| #[trigger] store@.users.dom().contains(w) && store@.users[w].account_id
            == r->0@ && store@.users[w].email is Some && eq_ascii_case(store@.users[w].email->0, email@),
{
}

/// Signing in fills in the account and the role of a user, and gives a new one an account
/// of their own.
pub proof fn signing_in_finds_the_team(store: &mut TeamStore, user: &mut AuthUser, now: Moment)
    requires
        old(store).wf(),
        now.has_date(),
        call_ensures(TeamStore::resolve_membership_at, (store, user, now), ()),
    ensures
        final(user)@.user_id == old(user)@.user_id,
        old(store)@.users.dom().contains(old(user)@.user_id) ==> final(user)@.account_id
            == old(store)@.users[old(user)@.user_id].account_id && final(user)@.role
            == old(store)@.users[old(user)@.user_id].role && final(store)@ == old(store)@,
        !old(store)@.users.dom().contains(old(user)@.user_id) ==> final(user)@.account_id == old(user)@.user_id
            && final(user)@.role == TeamRole::Owner && final(store)@.users.dom().contains(old(user)@.user_id)
            && final(store)@.users[old(user)@.user_id].role == TeamRole::Owner,
        final(store)@.invites == old(store)@.invites,
{
}

/// Every refusal of the team store is told in words.
pub proof fn team_refusals_are_told(error: &TeamError, r: String)
    requires
        call_ensures(TeamError::message, (error,), r),
    ensures
        error is Invalid ==> r@ == error->Invalid_0@,
        error is Conflict ==> r@ == error->Conflict_0@,
        error is Forbidden ==> r@ == error->Forbidden_0@,
        error is NotFound ==> r@ == "not found"@,
        error is Expired ==> r@ == "invite expired"@,
        error is EmailMismatch ==> r@ == "invite email does not match signed-in user"@,
        error is Store ==> r@ == error->Store_0@,
{
}

} // verus!
