//! What requests about teams may do and are answered.

use vstd::prelude::*;
use vstd::string::*;

use super::mail::{accept_url, base_url, InviteEmailDelivery};
use super::store::{InviteRecord, InviteView, MemberRecord, MemberView, TeamError, TeamErrorView, TeamSnapshot};
use crate::gateway::auth::{require_manage_team, role_of, role_text, AuthUser, AuthUserView, TeamRole};
use crate::gateway::billing::handlers::refused_with;
use crate::gateway::billing::records::{plan_str, plan_text};
use crate::gateway::entitlements::{limits_for, plan_limits};
use crate::http::{error_reply, refusal, refusal_with_message, Reply, ReplyView};
use crate::json::{field, or_null, Json, JsonView};
use crate::model::purchasing::BillingPlan;
use crate::text::number::dec_nat;
use crate::text::percent::percent_encoded;
use crate::text::{is_blank, same, trim, trimmed};

verus! {

/// An invitation to be made.
#[derive(Debug)]
pub struct CreateInviteBody {
    pub email: String,
    pub role: String,
}

/// An invitation to be accepted.
#[derive(Debug)]
pub struct AcceptInviteBody {
    pub token: String,
}

/// A role to be given.
#[derive(Debug)]
pub struct PatchMemberBody {
    pub role: String,
}

/// Why somebody may not manage the team.
pub open spec fn manage_fault(role: TeamRole) -> Option<ReplyView> {
    if role == TeamRole::ReadOnly {
        Some(
            refusal_with_message(
                403,
                "forbidden"@,
                "only owner or admin can manage team members"@,
            ),
        )
    } else {
        None
    }
}

/// The role that a text names, of those that can be given.
pub open spec fn giveable_role(text: Seq<char>) -> Option<TeamRole> {
    match role_of(text) {
        Some(TeamRole::Owner) => None,
        other => other,
    }
}

fn parse_giveable(text: &str) -> (r: Option<TeamRole>)
    ensures
        r == giveable_role(text@),
{
    match TeamRole::parse(text) {
        Some(role) => if role.can_invite_as() {
            Some(role)
        } else {
            None
        },
        None => None,
    }
}

/// Why nobody can be invited in that role by that user.
pub open spec fn inviter_fault(user: TeamRole, role: Seq<char>) -> Option<ReplyView> {
    match manage_fault(user) {
        Some(reply) => Some(reply),
        None => if giveable_role(role) is None {
            Some(refusal(400, "role must be read_only or admin"@))
        } else {
            None
        },
    }
}

/// Whether the user can invite somebody in that role.
pub fn admit_inviter(user: &AuthUser, role: &str) -> (r: Result<TeamRole, Reply>)
    ensures
        refused_with(r) == inviter_fault(user.role, role@),
        r is Ok ==> giveable_role(role@) == Some(r->Ok_0),
{
    match require_manage_team(user) {
        Ok(()) => {},
        Err(reply) => {
            return Err(reply);
        },
    }
    match parse_giveable(role) {
        Some(role) => Ok(role),
        None => Err(error_reply(400, "role must be read_only or admin")),
    }
}

/// What is answered when all seats are taken.
pub open spec fn seats_reply(plan: BillingPlan, used: u32) -> ReplyView {
    let seats = plan_limits(plan).seats;
    ReplyView {
        status: 402,
        body: JsonView::Object(
            seq![
                ("error"@, JsonView::Text("plan_cap_exceeded"@)),
                ("plan"@, JsonView::Text(plan_text(plan))),
                ("cap"@, JsonView::Text("seats"@)),
                ("used"@, JsonView::Number(dec_nat(used as nat))),
                ("limit"@, JsonView::Number(dec_nat(seats as nat))),
                (
                    "message"@,
                    JsonView::Text(
                        if seats == 1 {
                            "Free plan includes 1 seat (owner only). Upgrade to invite teammates."@
                        } else {
                            "This plan's seat limit has been reached. Upgrade or revoke a pending invite."@
                        },
                    ),
                ),
            ],
        ),
    }
}

/// Why there is no seat left.
pub open spec fn seat_fault(plan: BillingPlan, used: u32) -> Option<ReplyView> {
    if used >= plan_limits(plan).seats {
        Some(seats_reply(plan, used))
    } else {
        None
    }
}

/// Whether a seat is left.
pub fn admit_seat(plan: BillingPlan, used: u32) -> (r: Result<(), Reply>)
    ensures
        refused_with(r) == seat_fault(plan, used),
{
    let limits = limits_for(plan);
    if used >= limits.seats {
        let message = if limits.seats == 1 {
            "Free plan includes 1 seat (owner only). Upgrade to invite teammates."
        } else {
            "This plan's seat limit has been reached. Upgrade or revoke a pending invite."
        };
        let reply = Reply {
            status: 402,
            body: Json::Object(
                vec![
                    field("error", Json::text("plan_cap_exceeded")),
                    field("plan", Json::text(plan_str(plan))),
                    field("cap", Json::text("seats")),
                    field("used", Json::number(used as u64)),
                    field("limit", Json::number(limits.seats as u64)),
                    field("message", Json::text(message)),
                ],
            ),
        };
        assert(reply.body@->Object_0 =~= seats_reply(plan, used).body->Object_0);
        return Err(reply);
    }
    Ok(())
}

/// An owner on their own on the free plan has no seat to give, so nobody can be
/// invited there.
pub proof fn free_plan_has_no_seat(used: u32)
    requires
        used >= 1,
    ensures
        seat_fault(BillingPlan::Free, used) is Some,
{
}

/// How an invitation's mail fared: in a word, with the error, and whether it went
/// out.
pub open spec fn delivery_fields(delivery: Option<Result<InviteEmailDelivery, String>>) -> (
    Seq<char>,
    Option<Seq<char>>,
    bool,
) {
    match delivery {
        Some(Ok(InviteEmailDelivery::Queued)) => ("queued"@, None, true),
        Some(Ok(InviteEmailDelivery::Sent)) => ("sent"@, None, true),
        Some(Err(error)) => ("failed"@, Some(error@), false),
        None => ("not_configured"@, None, false),
    }
}

/// What is answered once an invitation was made.
pub open spec fn invited_reply(
    invite: InviteView,
    url: Seq<char>,
    delivery: Option<Result<InviteEmailDelivery, String>>,
) -> ReplyView {
    let (word, error, sent) = delivery_fields(delivery);
    ReplyView {
        status: 201,
        body: JsonView::Object(
            seq![
                ("id"@, JsonView::Text(invite.id)),
                ("email"@, JsonView::Text(invite.email)),
                ("role"@, JsonView::Text(role_text(invite.role))),
                ("expires_at"@, JsonView::Text(invite.expires_at)),
                ("accept_url"@, JsonView::Text(url)),
                ("email_sent"@, JsonView::Bool(sent)),
                ("email_delivery"@, JsonView::Text(word)),
                ("email_error"@, or_null(error)),
            ],
        ),
    }
}

/// What is answered once an invitation was made.
pub fn invite_reply(
    invite: &InviteRecord,
    url: &str,
    delivery: Option<Result<InviteEmailDelivery, String>>,
) -> (r: Reply)
    ensures
        r@ == invited_reply(invite@, url@, delivery),
{
    let (word, error, sent) = match &delivery {
        Some(Ok(InviteEmailDelivery::Queued)) => ("queued", None, true),
        Some(Ok(InviteEmailDelivery::Sent)) => ("sent", None, true),
        Some(Err(error)) => ("failed", Some(error.clone()), false),
        None => ("not_configured", None, false),
    };
    let r = Reply {
        status: 201,
        body: Json::Object(
            vec![
                field("id", Json::text(invite.id.as_str())),
                field("email", Json::text(invite.email.as_str())),
                field("role", Json::text(invite.role.as_str())),
                field("expires_at", Json::text(invite.expires_at.as_str())),
                field("accept_url", Json::text(url)),
                field("email_sent", Json::boolean(sent)),
                field("email_delivery", Json::text(word)),
                field("email_error", Json::text_or_null(&error)),
            ],
        ),
    };
    assert(r.body@->Object_0 =~= invited_reply(invite@, url@, delivery).body->Object_0);
    r
}

/// Why somebody cannot be removed by that user.
pub open spec fn remover_fault(user: AuthUserView, user_id: Seq<char>) -> Option<ReplyView> {
    match manage_fault(user.role) {
        Some(reply) => Some(reply),
        None => if user_id == user.user_id {
            Some(refusal(403, "cannot remove yourself"@))
        } else {
            None
        },
    }
}

/// Whether the user can remove somebody: never themselves.
pub fn admit_remover(user: &AuthUser, user_id: &str) -> (r: Result<(), Reply>)
    ensures
        refused_with(r) == remover_fault(user@, user_id@),
{
    match require_manage_team(user) {
        Ok(()) => {},
        Err(reply) => {
            return Err(reply);
        },
    }
    if same(user_id, user.user_id.as_str()) {
        return Err(error_reply(403, "cannot remove yourself"));
    }
    Ok(())
}

/// Why a role cannot be given by that user.
pub open spec fn patcher_fault(user: AuthUserView, user_id: Seq<char>, role: Seq<char>) -> Option<
    ReplyView,
> {
    match manage_fault(user.role) {
        Some(reply) => Some(reply),
        None => if user_id == user.user_id {
            Some(refusal(403, "cannot change your own role"@))
        } else if giveable_role(role) is None {
            Some(refusal(400, "role must be read_only or admin"@))
        } else {
            None
        },
    }
}

/// Whether the user can give somebody that role: never themselves.
pub fn admit_patcher(user: &AuthUser, user_id: &str, role: &str) -> (r: Result<TeamRole, Reply>)
    ensures
        refused_with(r) == patcher_fault(user@, user_id@, role@),
        r is Ok ==> giveable_role(role@) == Some(r->Ok_0),
{
    match require_manage_team(user) {
        Ok(()) => {},
        Err(reply) => {
            return Err(reply);
        },
    }
    if same(user_id, user.user_id.as_str()) {
        return Err(error_reply(403, "cannot change your own role"));
    }
    match parse_giveable(role) {
        Some(role) => Ok(role),
        None => Err(error_reply(400, "role must be read_only or admin")),
    }
}

/// The token of an invitation to be accepted.
pub fn admit_token(token: &str) -> (r: Result<String, Reply>)
    ensures
        refused_with(r) == if is_blank(token@) {
            Some(refusal(400, "token is required"@))
        } else {
            None
        },
        r is Ok ==> r->Ok_0@ == trimmed(token@),
{
    let token = trim(token);
    if token.as_str().is_empty() {
        return Err(error_reply(400, "token is required"));
    }
    Ok(token)
}

/// What is answered when a team operation is refused.
pub open spec fn team_reply(error: TeamErrorView) -> ReplyView {
    match error {
        TeamErrorView::Invalid(message) => refusal(400, message),
        TeamErrorView::Conflict(message) => refusal(409, message),
        TeamErrorView::Forbidden(message) => refusal(403, message),
        TeamErrorView::NotFound => refusal(404, "not found"@),
        TeamErrorView::Expired => refusal(410, "invite expired"@),
        TeamErrorView::EmailMismatch => refusal(
            403,
            "invite email does not match signed-in user"@,
        ),
        TeamErrorView::Store(detail) => refusal(500, detail),
    }
}

/// What is answered when a team operation is refused.
pub fn team_error(error: TeamError) -> (r: Reply)
    ensures
        r@ == team_reply(error@),
{
    match error {
        TeamError::Invalid(message) => error_reply(400, message.as_str()),
        TeamError::Conflict(message) => error_reply(409, message.as_str()),
        TeamError::Forbidden(message) => error_reply(403, message.as_str()),
        TeamError::NotFound => error_reply(404, "not found"),
        TeamError::Expired => error_reply(410, "invite expired"),
        TeamError::EmailMismatch => error_reply(
            403,
            "invite email does not match signed-in user",
        ),
        TeamError::Store(detail) => error_reply(500, detail.as_str()),
    }
}

/// A member as JSON.
pub open spec fn member_object(member: MemberView) -> JsonView {
    JsonView::Object(
        seq![
            ("user_id"@, JsonView::Text(member.user_id)),
            ("email"@, or_null(member.email)),
            ("role"@, JsonView::Text(role_text(member.role))),
            ("created_at"@, JsonView::Text(member.created_at)),
        ],
    )
}

/// A member as JSON.
pub fn member_json(member: &MemberRecord) -> (r: Json)
    ensures
        r@ == member_object(member@),
{
    let r = Json::Object(
        vec![
            field("user_id", Json::text(member.user_id.as_str())),
            field("email", Json::text_or_null(&member.email)),
            field("role", Json::text(member.role.as_str())),
            field("created_at", Json::text(member.created_at.as_str())),
        ],
    );
    assert(r@->Object_0 =~= member_object(member@)->Object_0);
    r
}

/// An invitation as JSON.
pub open spec fn invite_object(invite: InviteView, app_base: Option<Seq<char>>) -> JsonView {
    JsonView::Object(
        seq![
            ("id"@, JsonView::Text(invite.id)),
            ("email"@, JsonView::Text(invite.email)),
            ("role"@, JsonView::Text(role_text(invite.role))),
            ("invited_by"@, JsonView::Text(invite.invited_by)),
            ("expires_at"@, JsonView::Text(invite.expires_at)),
            ("created_at"@, JsonView::Text(invite.created_at)),
            (
                "accept_url"@,
                JsonView::Text(
                    base_url(app_base) + "/invite/accept?token="@ + percent_encoded(invite.id),
                ),
            ),
        ],
    )
}

/// An invitation as JSON.
pub fn invite_json(invite: &InviteRecord, app_base: Option<&str>) -> (r: Json)
    ensures
        r@ == invite_object(invite@, app_base.deep_view()),
{
    let r = Json::Object(
        vec![
            field("id", Json::text(invite.id.as_str())),
            field("email", Json::text(invite.email.as_str())),
            field("role", Json::text(invite.role.as_str())),
            field("invited_by", Json::text(invite.invited_by.as_str())),
            field("expires_at", Json::text(invite.expires_at.as_str())),
            field("created_at", Json::text(invite.created_at.as_str())),
            field("accept_url", Json::text(accept_url(invite.id.as_str(), app_base).as_str())),
        ],
    );
    assert(r@->Object_0 =~= invite_object(invite@, app_base.deep_view())->Object_0);
    r
}

/// A team as it is shown to one of its members.
pub open spec fn team_object(
    user: AuthUserView,
    plan: BillingPlan,
    members: Seq<MemberRecord>,
    invites: Seq<InviteRecord>,
    app_base: Option<Seq<char>>,
) -> JsonView {
    JsonView::Object(
        seq![
            ("account_id"@, JsonView::Text(user.account_id)),
            ("user_id"@, JsonView::Text(user.user_id)),
            ("role"@, JsonView::Text(role_text(user.role))),
            ("plan"@, JsonView::Text(plan_text(plan))),
            (
                "seats"@,
                JsonView::Object(
                    seq![
                        (
                            "used"@,
                            JsonView::Number(
                                dec_nat(((members.len() + invites.len()) % 0x1_0000_0000) as nat),
                            ),
                        ),
                        ("limit"@, JsonView::Number(dec_nat(plan_limits(plan).seats as nat))),
                    ],
                ),
            ),
            (
                "members"@,
                JsonView::Array(members.map_values(|m: MemberRecord| member_object(m@))),
            ),
            (
                "invites"@,
                JsonView::Array(invites.map_values(|i: InviteRecord| invite_object(i@, app_base))),
            ),
        ],
    )
}

fn member_array(members: &Vec<MemberRecord>) -> (r: Json)
    ensures
        r@ == JsonView::Array(members@.map_values(|m: MemberRecord| member_object(m@))),
{
    let mut out: Vec<Json> = Vec::new();
    let mut i: usize = 0;
    while i < members.len()
        invariant
            i <= members@.len(),
            out@.len() == i,
            forall|j: int| 0 <= j < i ==> (#[trigger] out@[j])@ == member_object(members@[j]@),
        decreases members@.len() - i,
    {
        out.push(member_json(&members[i]));
        i += 1;
    }
    let r = Json::Array(out);
    assert(r@->Array_0 =~= members@.map_values(|m: MemberRecord| member_object(m@)));
    r
}

fn invite_array(invites: &Vec<InviteRecord>, app_base: Option<&str>) -> (r: Json)
    ensures
        r@ == JsonView::Array(
            invites@.map_values(|i: InviteRecord| invite_object(i@, app_base.deep_view())),
        ),
{
    let mut out: Vec<Json> = Vec::new();
    let mut i: usize = 0;
    while i < invites.len()
        invariant
            i <= invites@.len(),
            out@.len() == i,
            forall|j: int|
                0 <= j < i ==> (#[trigger] out@[j])@ == invite_object(
                    invites@[j]@,
                    app_base.deep_view(),
                ),
        decreases invites@.len() - i,
    {
        out.push(invite_json(&invites[i], app_base));
        i += 1;
    }
    let r = Json::Array(out);
    assert(r@->Array_0 =~= invites@.map_values(
        |i: InviteRecord| invite_object(i@, app_base.deep_view()),
    ));
    r
}

/// A team as it is shown to one of its members.
pub fn team_json(
    user: &AuthUser,
    plan: BillingPlan,
    snapshot: &TeamSnapshot,
    app_base: Option<&str>,
) -> (r: Json)
    ensures
        r@ == team_object(
            user@,
            plan,
            snapshot.members@,
            snapshot.invites@,
            app_base.deep_view(),
        ),
{
    let limits = limits_for(plan);
    let used: u32 = super::store::seats_used(snapshot);
    let seats = Json::Object(
        vec![
            field("used", Json::number(used as u64)),
            field("limit", Json::number(limits.seats as u64)),
        ],
    );
    let ghost expected = team_object(
        user@,
        plan,
        snapshot.members@,
        snapshot.invites@,
        app_base.deep_view(),
    )->Object_0;
    assert(seats@->Object_0 =~= expected[4].1->Object_0);
    let r = Json::Object(
        vec![
            field("account_id", Json::text(user.account_id.as_str())),
            field("user_id", Json::text(user.user_id.as_str())),
            field("role", Json::text(user.role.as_str())),
            field("plan", Json::text(plan_str(plan))),
            field("seats", seats),
            field("members", member_array(&snapshot.members)),
            field("invites", invite_array(&snapshot.invites, app_base)),
        ],
    );
    assert(r@->Object_0 =~= expected);
    r
}

/// Readers invite nobody, remove nobody and give no roles.
pub proof fn readers_do_not_manage(
    user: &AuthUser,
    user_id: &str,
    role: &str,
    a: Result<TeamRole, Reply>,
    b: Result<(), Reply>,
    c: Result<TeamRole, Reply>,
)
    requires
        call_ensures(admit_inviter, (user, role), a),
        call_ensures(admit_remover, (user, user_id), b),
        call_ensures(admit_patcher, (user, user_id, role), c),
        user.role == TeamRole::ReadOnly,
    ensures
        a is Err && a->Err_0@.status == 403,
        b is Err && b->Err_0@.status == 403,
        c is Err && c->Err_0@.status == 403,
{
}

/// Owners and admins invite readers and admins, and give others these two roles, never
/// ownership; they neither remove themselves nor change their own role.
pub proof fn managers_manage_others(
    user: &AuthUser,
    user_id: &str,
    role: &str,
    a: Result<TeamRole, Reply>,
    b: Result<(), Reply>,
    c: Result<TeamRole, Reply>,
)
    requires
        call_ensures(admit_inviter, (user, role), a),
        call_ensures(admit_remover, (user, user_id), b),
        call_ensures(admit_patcher, (user, user_id, role), c),
        user.role != TeamRole::ReadOnly,
    ensures
        role@ == "admin"@ ==> a == Ok::<TeamRole, Reply>(TeamRole::Admin),
        role@ == "read_only"@ ==> a == Ok::<TeamRole, Reply>(TeamRole::ReadOnly),
        role@ != "admin"@ && role@ != "read_only"@ ==> a is Err && a->Err_0@.status == 400,
        b is Ok <==> user_id@ != user.user_id@,
        b is Err ==> b->Err_0@.status == 403,
        user_id@ == user.user_id@ ==> c is Err && c->Err_0@.status == 403,
        user_id@ != user.user_id@ && role@ == "admin"@ ==> c == Ok::<TeamRole, Reply>(TeamRole::Admin),
        user_id@ != user.user_id@ && role@ == "read_only"@ ==> c == Ok::<TeamRole, Reply>(TeamRole::ReadOnly),
        user_id@ != user.user_id@ && role@ != "admin"@ && role@ != "read_only"@ ==> c is Err && c->Err_0@.status == 400,
{
    reveal_strlit("owner");
    reveal_strlit("admin");
    reveal_strlit("read_only");
    assert("owner"@.len() == 5 && "owner"@[0] == 'o');
    assert("admin"@.len() == 5 && "admin"@[0] == 'a');
    assert("read_only"@.len() == 9);
}

/// There is a seat for another while fewer are taken than the plan has: one on the free
/// plan, two on the smaller paid one and five on the larger. A full team is asked to pay.
pub proof fn seats_are_limited(plan: BillingPlan, used: u32, r: Result<(), Reply>)
    requires
        call_ensures(admit_seat, (plan, used), r),
    ensures
        plan == BillingPlan::Free ==> (r is Ok <==> used < 1),
        plan == BillingPlan::Growth ==> (r is Ok <==> used < 2),
        plan == BillingPlan::Scale ==> (r is Ok <==> used < 5),
        r is Err ==> {
            let fields = r->Err_0@.body->Object_0;
            &&& r->Err_0@.status == 402
            &&& r->Err_0@.body is Object
            &&& fields.contains(("error"@, JsonView::Text("plan_cap_exceeded"@)))
            &&& fields.contains(("cap"@, JsonView::Text("seats"@)))
            &&& fields.contains(("used"@, JsonView::Number(dec_nat(used as nat))))
            &&& plan == BillingPlan::Growth ==> fields.contains(("limit"@, JsonView::Number(dec_nat(2))))
            &&& plan == BillingPlan::Scale ==> fields.contains(("limit"@, JsonView::Number(dec_nat(5))))
            &&& plan == BillingPlan::Free ==> fields.contains(("limit"@, JsonView::Number(dec_nat(1))))
        },
{
    if r is Err {
        let fields = r->Err_0@.body->Object_0;
        assert(fields[0] == ("error"@, JsonView::Text("plan_cap_exceeded"@)));
        assert(fields[2] == ("cap"@, JsonView::Text("seats"@)));
        assert(fields[3] == ("used"@, JsonView::Number(dec_nat(used as nat))));
        assert(fields[4] == ("limit"@, JsonView::Number(dec_nat(plan_limits(plan).seats as nat))));
    }
}

/// The answer to an invitation shows it, with the link to accept it and how its mail
/// fared.
pub proof fn invitations_are_shown(
    invite: &InviteRecord,
    url: &str,
    delivery: Option<Result<InviteEmailDelivery, String>>,
    r: Reply,
)
    requires
        call_ensures(invite_reply, (invite, url, delivery), r),
    ensures
        r@.status == 201,
        r@.body is Object,
        ({
            let fields = r@.body->Object_0;
            &&& fields.contains(("id"@, JsonView::Text(invite@.id)))
            &&& fields.contains(("email"@, JsonView::Text(invite@.email)))
            &&& fields.contains(("expires_at"@, JsonView::Text(invite@.expires_at)))
            &&& fields.contains(("accept_url"@, JsonView::Text(url@)))
            &&& invite@.role == TeamRole::Admin ==> fields.contains(("role"@, JsonView::Text("admin"@)))
            &&& invite@.role == TeamRole::ReadOnly ==> fields.contains(("role"@, JsonView::Text("read_only"@)))
            &&& delivery is None ==> fields.contains(("email_sent"@, JsonView::Bool(false))) && fields.contains(
                ("email_delivery"@, JsonView::Text("not_configured"@)),
            ) && fields.contains(("email_error"@, JsonView::Null))
            &&& delivery == Some(Ok::<InviteEmailDelivery, String>(InviteEmailDelivery::Sent)) ==> fields.contains(
                ("email_sent"@, JsonView::Bool(true)),
            ) && fields.contains(("email_delivery"@, JsonView::Text("sent"@)))
            &&& delivery == Some(Ok::<InviteEmailDelivery, String>(InviteEmailDelivery::Queued)) ==> fields.contains(
                ("email_sent"@, JsonView::Bool(true)),
            ) && fields.contains(("email_delivery"@, JsonView::Text("queued"@)))
            &&& delivery is Some && delivery->0 is Err ==> fields.contains(("email_sent"@, JsonView::Bool(false)))
                && fields.contains(("email_delivery"@, JsonView::Text("failed"@))) && fields.contains(
                ("email_error"@, JsonView::Text(delivery->0->Err_0@)),
            )
        }),
{
    let fields = r@.body->Object_0;
    let (word, error, sent) = delivery_fields(delivery);
    assert(fields[0] == ("id"@, JsonView::Text(invite@.id)));
    assert(fields[1] == ("email"@, JsonView::Text(invite@.email)));
    assert(fields[2] == ("role"@, JsonView::Text(role_text(invite@.role))));
    assert(fields[3] == ("expires_at"@, JsonView::Text(invite@.expires_at)));
    assert(fields[4] == ("accept_url"@, JsonView::Text(url@)));
    assert(fields[5] == ("email_sent"@, JsonView::Bool(sent)));
    assert(fields[6] == ("email_delivery"@, JsonView::Text(word)));
    assert(fields[7] == ("email_error"@, or_null(error)));
}

/// A token is taken without the blanks around it; a blank one is none.
pub proof fn tokens_are_required(token: &str, r: Result<String, Reply>)
    requires
        call_ensures(admit_token, (token,), r),
    ensures
        is_blank(token@) ==> r is Err && r->Err_0@.status == 400,
        !is_blank(token@) ==> r is Ok && r->Ok_0@ == trimmed(token@),
{
}

/// Each refusal of a team operation has its status.
pub proof fn team_refusals_have_statuses(error: TeamError, r: Reply)
    requires
        call_ensures(team_error, (error,), r),
    ensures
        error is Invalid ==> r@.status == 400,
        error is Conflict ==> r@.status == 409,
        error is Forbidden || error is EmailMismatch ==> r@.status == 403,
        error is NotFound ==> r@.status == 404,
        error is Expired ==> r@.status == 410,
        error is Store ==> r@.status == 500,
        error is Invalid ==> r@.body->Object_0.contains(("error"@, JsonView::Text(error->Invalid_0@))),
        error is Conflict ==> r@.body->Object_0.contains(("error"@, JsonView::Text(error->Conflict_0@))),
        error is Forbidden ==> r@.body->Object_0.contains(("error"@, JsonView::Text(error->Forbidden_0@))),
        error is Store ==> r@.body->Object_0.contains(("error"@, JsonView::Text(error->Store_0@))),
{
    let fields = r@.body->Object_0;
    assert(fields.contains(fields[0]));
}

/// A team is shown with its account, the viewer's role, its plan, the seats taken and the
/// seats there are, and everybody in it.
pub proof fn teams_are_shown(
    user: &AuthUser,
    plan: BillingPlan,
    snapshot: &TeamSnapshot,
    app_base: Option<&str>,
    r: Json,
    i: int,
)
    requires
        call_ensures(team_json, (user, plan, snapshot, app_base), r),
        snapshot.members@.len() + snapshot.invites@.len() <= u32::MAX,
    ensures
        r@ is Object,
        ({
            let f = r@->Object_0;
            &&& f.len() == 7
            &&& f[0] == ("account_id"@, JsonView::Text(user@.account_id))
            &&& f[1] == ("user_id"@, JsonView::Text(user@.user_id))
            &&& user@.role == TeamRole::Owner ==> f[2] == ("role"@, JsonView::Text("owner"@))
            &&& plan == BillingPlan::Growth ==> f[3] == ("plan"@, JsonView::Text("growth"@))
            &&& f[4].0 == "seats"@ && f[4].1 is Object
            &&& f[4].1->Object_0[0] == (
                "used"@,
                JsonView::Number(dec_nat((snapshot.members@.len() + snapshot.invites@.len()) as nat)),
            )
            &&& plan == BillingPlan::Growth ==> f[4].1->Object_0[1] == ("limit"@, JsonView::Number(dec_nat(2)))
            &&& f[5].0 == "members"@ && f[5].1 is Array && f[5].1->Array_0.len() == snapshot.members@.len()
            &&& f[6].0 == "invites"@ && f[6].1 is Array && f[6].1->Array_0.len() == snapshot.invites@.len()
            &&& 0 <= i < snapshot.members@.len() ==> {
                let m = f[5].1->Array_0[i]->Object_0;
                &&& m[0] == ("user_id"@, JsonView::Text(snapshot.members@[i]@.user_id))
                &&& m[1] == ("email"@, or_null(snapshot.members@[i]@.email))
                &&& snapshot.members@[i]@.role == TeamRole::Owner ==> m[2] == ("role"@, JsonView::Text("owner"@))
                &&& m[3] == ("created_at"@, JsonView::Text(snapshot.members@[i]@.created_at))
            }
            &&& 0 <= i < snapshot.invites@.len() ==> {
                let m = f[6].1->Array_0[i]->Object_0;
                &&& m[0] == ("id"@, JsonView::Text(snapshot.invites@[i]@.id))
                &&& m[1] == ("email"@, JsonView::Text(snapshot.invites@[i]@.email))
                &&& m[3] == ("invited_by"@, JsonView::Text(snapshot.invites@[i]@.invited_by))
                &&& m[4] == ("expires_at"@, JsonView::Text(snapshot.invites@[i]@.expires_at))
                &&& m[5] == ("created_at"@, JsonView::Text(snapshot.invites@[i]@.created_at))
            }
        }),
{
    let n = (snapshot.members@.len() + snapshot.invites@.len()) as int;
    assert(n % 0x1_0000_0000 == n);
}

/// A full team on the free plan is told that it has one seat, another that its seats are
/// taken.
pub proof fn full_teams_are_told(plan: BillingPlan, used: u32, r: Result<(), Reply>)
    requires
        call_ensures(admit_seat, (plan, used), r),
        r is Err,
    ensures
        plan == BillingPlan::Free ==> r->Err_0@.body->Object_0.contains(
            (
                "message"@,
                JsonView::Text("Free plan includes 1 seat (owner only). Upgrade to invite teammates."@),
            ),
        ),
        plan != BillingPlan::Free ==> r->Err_0@.body->Object_0.contains(
            (
                "message"@,
                JsonView::Text(
                    "This plan's seat limit has been reached. Upgrade or revoke a pending invite."@,
                ),
            ),
        ),
        plan == BillingPlan::Growth ==> r->Err_0@.body->Object_0.contains(("plan"@, JsonView::Text("growth"@))),
        plan == BillingPlan::Scale ==> r->Err_0@.body->Object_0.contains(("plan"@, JsonView::Text("scale"@))),
{
    let f = r->Err_0@.body->Object_0;
    assert(f.contains(f[5]));
    assert(f.contains(f[1]));
}

/// An invitation is shown with the link to accept it.
pub proof fn shown_invitations_have_links(invite: &InviteRecord, base: &str, r: Json)
    requires
        call_ensures(invite_json, (invite, Some(base)), r),
        base@.len() > 0,
        base@.last() != '/',
    ensures
        r@->Object_0.contains(
            (
                "accept_url"@,
                JsonView::Text(base@ + "/invite/accept?token="@ + percent_encoded(invite@.id)),
            ),
        ),
        r@->Object_0.contains(("id"@, JsonView::Text(invite@.id))),
        invite@.role == TeamRole::Admin ==> r@->Object_0.contains(("role"@, JsonView::Text("admin"@))),
{
    let f = r@->Object_0;
    assert(f.contains(f[0]));
    assert(f.contains(f[2]));
    assert(f.contains(f[6]));
    reveal_with_fuel(crate::text::without_trailing, 2);
}

} // verus!
