//! What requests about billing may do and are answered.

use vstd::prelude::*;
use vstd::string::*;

use super::records::{
    as_str_opt, grant_email, is_operator, is_operator_email, normalize_grant_email, plan_str, plan_text, BillingRecord,
    BillingRecordView,
};
use crate::gateway::auth::{require_manage_team, AuthUser, TeamRole};
use crate::http::{error_reply, refusal, refusal_with_message, Reply, ReplyView};
use crate::json::{as_text, field, get_view, or_null, text_of, Json, JsonView};
use crate::model::purchasing::BillingPlan;
use crate::text::case::{ascii_lower, eq_ascii_case, to_ascii_lower};
use crate::text::{is_blank, owned, same, trim};

verus! {

/// A grant to an email.
#[derive(Debug)]
pub struct GrantBody {
    pub email: String,
    pub expires_at: Option<String>,
}

/// A plan given by hand.
#[derive(Debug)]
pub struct AdminSetPlanBody {
    pub account_id: String,
    pub plan: String,
    pub expires_at: Option<String>,
    pub note: Option<String>,
}

/// A result's refusal; nothing where there is none.
pub open spec fn refused_with<T>(r: Result<T, Reply>) -> Option<ReplyView> {
    match r {
        Ok(_) => None,
        Err(reply) => Some(reply@),
    }
}

/// Refuses all but operators.
pub fn require_operator(user: &AuthUser) -> (r: Result<(), Reply>)
    ensures
        refused_with(r) == if is_operator(user@.email) {
            None
        } else {
            Some(refusal(403, "forbidden"@))
        },
{
    if is_operator_email(as_str_opt(&user.email)) {
        Ok(())
    } else {
        Err(error_reply(403, "forbidden"))
    }
}

/// Refuses a request without the admin secret; all of them where none is set.
pub fn verify_admin_secret(expected: Option<&str>, provided: Option<&str>) -> (r: Result<(), Reply>)
    ensures
        refused_with(r) == secret_fault(expected.deep_view(), provided.deep_view()),
{
    match expected {
        None => Err(error_reply(503, "admin API not configured")),
        Some(expected) => {
            if expected.is_empty() {
                return Err(error_reply(503, "admin API not configured"));
            }
            let good = match provided {
                Some(provided) => same(provided, expected),
                None => false,
            };
            if good {
                Ok(())
            } else {
                Err(error_reply(401, "invalid admin secret"))
            }
        },
    }
}

/// Why a request is refused for the admin secret.
pub open spec fn secret_fault(expected: Option<Seq<char>>, provided: Option<Seq<char>>) -> Option<
    ReplyView,
> {
    if expected is None || expected->0.len() == 0 {
        Some(refusal(503, "admin API not configured"@))
    } else if provided != expected {
        Some(refusal(401, "invalid admin secret"@))
    } else {
        None
    }
}

/// The plan that a request names, in any case.
pub open spec fn named_plan(plan: Seq<char>) -> Option<BillingPlan> {
    let name = ascii_lower(plan);
    if name == "growth"@ {
        Some(BillingPlan::Growth)
    } else if name == "scale"@ {
        Some(BillingPlan::Scale)
    } else if name == "free"@ {
        Some(BillingPlan::Free)
    } else {
        None
    }
}

/// The plan that a request names, in any case.
pub fn parse_admin_plan(plan: &str) -> (r: Result<BillingPlan, Reply>)
    ensures
        match named_plan(plan@) {
            Some(p) => r == Ok::<BillingPlan, Reply>(p),
            None => r is Err && r->Err_0@ == refusal(400, "plan must be free, growth, or scale"@),
        },
{
    let name = to_ascii_lower(plan);
    if same(name.as_str(), "growth") {
        Ok(BillingPlan::Growth)
    } else if same(name.as_str(), "scale") {
        Ok(BillingPlan::Scale)
    } else if same(name.as_str(), "free") {
        Ok(BillingPlan::Free)
    } else {
        Err(error_reply(400, "plan must be free, growth, or scale"))
    }
}

/// Why a plan cannot be given by hand.
pub open spec fn set_plan_fault(
    expected: Option<Seq<char>>,
    provided: Option<Seq<char>>,
    configured: bool,
    payload: Result<AdminSetPlanBody, String>,
) -> Option<ReplyView> {
    match secret_fault(expected, provided) {
        Some(reply) => Some(reply),
        None => if !configured {
            Some(refusal(503, "billing store not configured"@))
        } else {
            match payload {
                Err(error) => Some(refusal(400, error@)),
                Ok(body) => if is_blank(body.account_id@) {
                    Some(refusal(400, "account_id is required"@))
                } else if named_plan(body.plan@) is None {
                    Some(refusal(400, "plan must be free, growth, or scale"@))
                } else {
                    None
                },
            }
        },
    }
}

/// Whether a plan can be given by hand, and which.
pub fn admit_set_plan(
    expected: Option<&str>,
    provided: Option<&str>,
    configured: bool,
    payload: Result<AdminSetPlanBody, String>,
) -> (r: Result<(AdminSetPlanBody, BillingPlan), Reply>)
    ensures
        refused_with(r) == set_plan_fault(
            expected.deep_view(),
            provided.deep_view(),
            configured,
            payload,
        ),
        r is Ok ==> payload == Ok::<AdminSetPlanBody, String>(r->Ok_0.0) && named_plan(
            r->Ok_0.0.plan@,
        ) == Some(r->Ok_0.1),
{
    match verify_admin_secret(expected, provided) {
        Ok(()) => {},
        Err(reply) => {
            return Err(reply);
        },
    }
    if !configured {
        return Err(error_reply(503, "billing store not configured"));
    }
    let body = match payload {
        Ok(body) => body,
        Err(error) => {
            return Err(error_reply(400, error.as_str()));
        },
    };
    if trim(body.account_id.as_str()).as_str().is_empty() {
        return Err(error_reply(400, "account_id is required"));
    }
    match parse_admin_plan(body.plan.as_str()) {
        Ok(plan) => Ok((body, plan)),
        Err(reply) => Err(reply),
    }
}

/// What is answered once a plan was given by hand.
pub fn set_plan_reply(body: &AdminSetPlanBody, plan: BillingPlan) -> (r: Json)
    ensures
        r@ == JsonView::Object(
            seq![
                ("account_id"@, JsonView::Text(body.account_id@)),
                ("plan"@, JsonView::Text(plan_text(plan))),
                ("expires_at"@, or_null(body.expires_at.deep_view())),
            ],
        ),
{
    let r = Json::Object(
        vec![
            field("account_id", Json::text(body.account_id.as_str())),
            field("plan", Json::text(plan_str(plan))),
            field("expires_at", Json::text_or_null(&body.expires_at)),
        ],
    );
    assert(r@->Object_0 =~= seq![
        ("account_id"@, JsonView::Text(body.account_id@)),
        ("plan"@, JsonView::Text(plan_text(plan))),
        ("expires_at"@, or_null(body.expires_at.deep_view())),
    ]);
    r
}

/// Why a plan given by hand cannot be taken away.
pub open spec fn clear_plan_fault(
    expected: Option<Seq<char>>,
    provided: Option<Seq<char>>,
    configured: bool,
    account_id: Option<Seq<char>>,
) -> Option<ReplyView> {
    match secret_fault(expected, provided) {
        Some(reply) => Some(reply),
        None => if !configured {
            Some(refusal(503, "billing store not configured"@))
        } else if account_id is None || account_id->0.len() == 0 {
            Some(refusal(400, "account_id query param is required"@))
        } else {
            None
        },
    }
}

/// Whether a plan given by hand can be taken away, and whose.
pub fn admit_clear_plan(
    expected: Option<&str>,
    provided: Option<&str>,
    configured: bool,
    account_id: Option<&str>,
) -> (r: Result<String, Reply>)
    ensures
        refused_with(r) == clear_plan_fault(
            expected.deep_view(),
            provided.deep_view(),
            configured,
            account_id.deep_view(),
        ),
        r is Ok ==> account_id.deep_view() == Some(r->Ok_0@),
{
    match verify_admin_secret(expected, provided) {
        Ok(()) => {},
        Err(reply) => {
            return Err(reply);
        },
    }
    if !configured {
        return Err(error_reply(503, "billing store not configured"));
    }
    match account_id {
        Some(id) => if id.is_empty() {
            Err(error_reply(400, "account_id query param is required"))
        } else {
            Ok(owned(id))
        },
        None => Err(error_reply(400, "account_id query param is required")),
    }
}

/// Why an operator's request about grants is refused before its body is looked at.
pub open spec fn operator_fault(email: Option<Seq<char>>, configured: bool) -> Option<ReplyView> {
    if !is_operator(email) {
        Some(refusal(403, "forbidden"@))
    } else if !configured {
        Some(refusal(503, "billing store not configured"@))
    } else {
        None
    }
}

/// Whether a request about grants comes from an operator and grants are kept.
pub fn admit_operator(user: &AuthUser, configured: bool) -> (r: Result<(), Reply>)
    ensures
        refused_with(r) == operator_fault(user@.email, configured),
{
    match require_operator(user) {
        Ok(()) => {},
        Err(reply) => {
            return Err(reply);
        },
    }
    if !configured {
        return Err(error_reply(503, "billing store not configured"));
    }
    Ok(())
}

/// Why a grant cannot be made.
pub open spec fn grant_fault(
    email: Option<Seq<char>>,
    configured: bool,
    payload: Result<GrantBody, String>,
) -> Option<ReplyView> {
    match operator_fault(email, configured) {
        Some(reply) => Some(reply),
        None => match payload {
            Err(error) => Some(refusal(400, error@)),
            Ok(body) => if grant_email(body.email@) is None {
                Some(refusal(400, "invalid email"@))
            } else {
                None
            },
        },
    }
}

/// Whether a grant can be made: to which email, and until when.
pub fn admit_grant(user: &AuthUser, configured: bool, payload: Result<GrantBody, String>) -> (r:
    Result<(String, Option<String>), Reply>)
    ensures
        refused_with(r) == grant_fault(user@.email, configured, payload),
        r is Ok ==> grant_email(payload->Ok_0.email@) == Some(r->Ok_0.0@) && r->Ok_0.1
            == payload->Ok_0.expires_at,
{
    match admit_operator(user, configured) {
        Ok(()) => {},
        Err(reply) => {
            return Err(reply);
        },
    }
    let body = match payload {
        Ok(body) => body,
        Err(error) => {
            return Err(error_reply(400, error.as_str()));
        },
    };
    match normalize_grant_email(body.email.as_str()) {
        Ok(email) => Ok((email, body.expires_at)),
        Err(error) => Err(error_reply(400, error.as_str())),
    }
}

/// Why a grant cannot be taken back.
pub open spec fn revoke_fault(
    operator: Option<Seq<char>>,
    configured: bool,
    email: Option<Seq<char>>,
) -> Option<ReplyView> {
    match operator_fault(operator, configured) {
        Some(reply) => Some(reply),
        None => if email is None || email->0.len() == 0 {
            Some(refusal(400, "email query param is required"@))
        } else if grant_email(email->0) is None {
            Some(refusal(400, "invalid email"@))
        } else {
            None
        },
    }
}

/// Whether a grant can be taken back, and from which email.
pub fn admit_revoke(user: &AuthUser, configured: bool, email: Option<&str>) -> (r: Result<
    String,
    Reply,
>)
    ensures
        refused_with(r) == revoke_fault(user@.email, configured, email.deep_view()),
        r is Ok ==> grant_email(email->0@) == Some(r->Ok_0@),
{
    match admit_operator(user, configured) {
        Ok(()) => {},
        Err(reply) => {
            return Err(reply);
        },
    }
    match email {
        Some(email) => {
            if email.is_empty() {
                return Err(error_reply(400, "email query param is required"));
            }
            match normalize_grant_email(email) {
                Ok(email) => Ok(email),
                Err(error) => Err(error_reply(400, error.as_str())),
            }
        },
        None => Err(error_reply(400, "email query param is required")),
    }
}

/// Why a checkout or the portal is refused.
pub open spec fn payment_fault(
    role: TeamRole,
    payload_error: Option<Seq<char>>,
    configured: bool,
) -> Option<ReplyView> {
    if role == TeamRole::ReadOnly {
        Some(
            refusal_with_message(
                403,
                "forbidden"@,
                "only owner or admin can manage team members"@,
            ),
        )
    } else {
        match payload_error {
            Some(error) => Some(refusal(400, error)),
            None => if configured {
                None
            } else {
                Some(refusal(503, "Stripe billing not configured"@))
            },
        }
    }
}

/// Whether a checkout or the portal can be opened.
pub fn admit_payment(user: &AuthUser, payload_error: Option<String>, configured: bool) -> (r: Result<
    (),
    Reply,
>)
    ensures
        refused_with(r) == payment_fault(user.role, payload_error.deep_view(), configured),
{
    match require_manage_team(user) {
        Ok(()) => {},
        Err(reply) => {
            return Err(reply);
        },
    }
    match payload_error {
        Some(error) => Err(error_reply(400, error.as_str())),
        None => if configured {
            Ok(())
        } else {
            Err(error_reply(503, "Stripe billing not configured"))
        },
    }
}

/// The price of a plan, or why it cannot be bought.
pub open spec fn plan_price(
    secret_key: Seq<char>,
    price_growth: Seq<char>,
    price_scale: Seq<char>,
    plan: BillingPlan,
) -> Result<Seq<char>, Seq<char>> {
    if secret_key.len() == 0 {
        Err("Stripe billing not configured"@)
    } else if plan == BillingPlan::Free {
        Err("cannot checkout free plan"@)
    } else {
        let price = if plan == BillingPlan::Growth {
            price_growth
        } else {
            price_scale
        };
        if price.len() == 0 {
            Err("Stripe price id not configured for plan"@)
        } else {
            Ok(price)
        }
    }
}

/// The price of a plan, or why it cannot be bought.
pub fn checkout_price(
    secret_key: &str,
    price_growth: &str,
    price_scale: &str,
    plan: BillingPlan,
) -> (r: Result<String, String>)
    ensures
        match plan_price(secret_key@, price_growth@, price_scale@, plan) {
            Ok(price) => r is Ok && r->Ok_0@ == price,
            Err(error) => r is Err && r->Err_0@ == error,
        },
{
    if secret_key.is_empty() {
        return Err(owned("Stripe billing not configured"));
    }
    let price = match plan {
        BillingPlan::Growth => price_growth,
        BillingPlan::Scale => price_scale,
        BillingPlan::Free => {
            return Err(owned("cannot checkout free plan"));
        },
    };
    if price.is_empty() {
        return Err(owned("Stripe price id not configured for plan"));
    }
    Ok(owned(price))
}

/// A text field of an answer of the payment service, or the error where it is
/// missing.
pub fn required_text(response: &Json, key: &str, missing: &str) -> (r: Result<String, String>)
    ensures
        match text_of(get_view(response@, key@)) {
            Some(text) => r is Ok && r->Ok_0@ == text,
            None => r is Err && r->Err_0@ == missing@,
        },
{
    match as_text(response.get(key)) {
        Some(text) => Ok(text),
        None => Err(owned(missing)),
    }
}

/// The fields of a new customer of the payment service.
pub open spec fn customer_fields(account_id: Seq<char>, email: Option<Seq<char>>) -> Seq<
    (Seq<char>, Seq<char>),
> {
    let fields = seq![("metadata[account_id]"@, account_id)];
    match email {
        Some(email) => fields.push(("email"@, email)),
        None => fields,
    }
}

/// The fields of a new customer of the payment service.
pub fn customer_form(account_id: &str, email: Option<&str>) -> (r: Vec<(String, String)>)
    ensures
        r.deep_view() == customer_fields(account_id@, email.deep_view()),
{
    let mut form = vec![(owned("metadata[account_id]"), owned(account_id))];
    if let Some(email) = email {
        form.push((owned("email"), owned(email)));
    }
    assert(form.deep_view() =~= customer_fields(account_id@, email.deep_view()));
    form
}

/// What is done when somebody without access asks for their status: nothing
/// without an email or where it is known; else the email is noted, and where the
/// account was not heard of at all, mails go out.
#[derive(Debug, Clone, Copy, PartialEq, Eq, Structural)]
pub enum InterestAction {
    Nothing,
    Note,
    MailAndNote,
}

/// What is done when somebody without access asks for their status.
pub fn interest_action(email: Option<&str>, recorded: Option<Option<&str>>) -> (r: InterestAction)
    ensures
        r == match (email, recorded) {
            (None, _) => InterestAction::Nothing,
            (Some(_), Some(Some(_))) => InterestAction::Nothing,
            (Some(_), Some(None)) => InterestAction::Note,
            (Some(_), None) => InterestAction::MailAndNote,
        },
{
    match (email, recorded) {
        (None, _) => InterestAction::Nothing,
        (Some(_), Some(Some(_))) => InterestAction::Nothing,
        (Some(_), Some(None)) => InterestAction::Note,
        (Some(_), None) => InterestAction::MailAndNote,
    }
}

/// Why no portal can be opened for an account; none where one can.
pub open spec fn portal_fault(secret_key: Seq<char>, record: Option<BillingRecordView>) -> Option<Seq<char>> {
    if secret_key.len() == 0 {
        Some("Stripe billing not configured"@)
    } else {
        match record {
            None => Some("no billing account — start a plan first"@),
            Some(record) => if record.stripe_customer_id is None {
                Some("no Stripe customer on file"@)
            } else {
                None
            },
        }
    }
}

/// The customer whose portal is opened.
pub fn portal_customer(secret_key: &str, record: Option<BillingRecord>) -> (r: Result<String, String>)
    ensures
        ({
            let known = match record {
                Some(record) => Some(record@),
                None => None,
            };
            match portal_fault(secret_key@, known) {
                Some(fault) => r is Err && r->Err_0@ == fault,
                None => r is Ok && Some(r->Ok_0@) == known->0.stripe_customer_id,
            }
        }),
{
    if secret_key.is_empty() {
        return Err(owned("Stripe billing not configured"));
    }
    match record {
        None => Err(owned("no billing account — start a plan first")),
        Some(record) => match record.stripe_customer_id {
            Some(customer_id) => Ok(customer_id),
            None => Err(owned("no Stripe customer on file")),
        },
    }
}

/// Only those who run the service may use what is for operators.
pub proof fn only_operators_pass(user: &AuthUser, configured: bool, r: Result<(), Reply>, s: Result<(), Reply>)
    requires
        call_ensures(require_operator, (user,), r),
        call_ensures(admit_operator, (user, configured), s),
    ensures
        r is Ok <==> is_operator(user@.email),
        user@.email is None ==> r is Err && s is Err,
        r is Err ==> r->Err_0@.status == 403,
        s is Ok <==> is_operator(user@.email) && configured,
        !is_operator(user@.email) ==> s is Err && s->Err_0@.status == 403,
        is_operator(user@.email) && !configured ==> s is Err && s->Err_0@.status == 503,
{
}

/// The admin interface opens to the secret that was set and to nothing else, and not at
/// all where none was set.
pub proof fn admin_secret_must_match(expected: Option<&str>, provided: Option<&str>, r: Result<(), Reply>)
    requires
        call_ensures(verify_admin_secret, (expected, provided), r),
    ensures
        expected is None || expected->0@.len() == 0 ==> r is Err && r->Err_0@.status == 503,
        expected is Some && expected->0@.len() > 0 && provided is Some && provided->0@ == expected->0@ ==> r is Ok,
        expected is Some && expected->0@.len() > 0 && provided is None ==> r is Err && r->Err_0@.status == 401,
        expected is Some && expected->0@.len() > 0 && provided is Some && provided->0@ != expected->0@ ==> r is Err
            && r->Err_0@.status == 401,
{
}

/// The three plans can be named, in any case, and nothing else is a plan.
pub proof fn plans_are_named_in_any_case(plan: &str, r: Result<BillingPlan, Reply>)
    requires
        call_ensures(parse_admin_plan, (plan,), r),
    ensures
        eq_ascii_case(plan@, "free"@) <==> r == Ok::<BillingPlan, Reply>(BillingPlan::Free),
        eq_ascii_case(plan@, "growth"@) <==> r == Ok::<BillingPlan, Reply>(BillingPlan::Growth),
        eq_ascii_case(plan@, "scale"@) <==> r == Ok::<BillingPlan, Reply>(BillingPlan::Scale),
        r is Err ==> r->Err_0@.status == 400,
{
    reveal_strlit("free");
    reveal_strlit("growth");
    reveal_strlit("scale");
    assert(ascii_lower("free"@) =~= "free"@);
    assert(ascii_lower("growth"@) =~= "growth"@);
    assert(ascii_lower("scale"@) =~= "scale"@);
    assert("free"@.len() == 4);
    assert("growth"@.len() == 6);
    assert("scale"@.len() == 5);
}

/// A plan is given by hand only to a named account, with the secret, and it is the plan
/// that was asked for.
pub proof fn plans_by_hand_are_as_asked(
    expected: Option<&str>,
    provided: Option<&str>,
    configured: bool,
    payload: Result<AdminSetPlanBody, String>,
    r: Result<(AdminSetPlanBody, BillingPlan), Reply>,
)
    requires
        call_ensures(admit_set_plan, (expected, provided, configured, payload), r),
    ensures
        r is Ok ==> expected is Some && provided is Some && expected->0@ == provided->0@ && expected->0@.len() > 0
            && configured && payload is Ok && !is_blank(payload->Ok_0.account_id@),
        r is Ok && r->Ok_0.1 == BillingPlan::Scale ==> eq_ascii_case(payload->Ok_0.plan@, "scale"@),
        r is Ok && r->Ok_0.1 == BillingPlan::Growth ==> eq_ascii_case(payload->Ok_0.plan@, "growth"@),
        r is Ok && r->Ok_0.1 == BillingPlan::Free ==> eq_ascii_case(payload->Ok_0.plan@, "free"@),
        r is Ok ==> r->Ok_0.0 == payload->Ok_0,
        expected is Some && provided is Some && expected->0@ == provided->0@ && expected->0@.len() > 0 && configured
            && payload is Ok && !is_blank(payload->Ok_0.account_id@) && (eq_ascii_case(
            payload->Ok_0.plan@,
            "scale"@,
        ) || eq_ascii_case(payload->Ok_0.plan@, "growth"@) || eq_ascii_case(payload->Ok_0.plan@, "free"@)) ==> r is Ok,
{
    reveal_strlit("free");
    reveal_strlit("growth");
    reveal_strlit("scale");
    assert(ascii_lower("free"@) =~= "free"@);
    assert(ascii_lower("growth"@) =~= "growth"@);
    assert(ascii_lower("scale"@) =~= "scale"@);
    assert("free"@.len() == 4);
    assert("growth"@.len() == 6);
    assert("scale"@.len() == 5);
}

/// A plan is taken away only from a named account, with the secret.
pub proof fn plans_are_taken_from_named_accounts(
    expected: Option<&str>,
    provided: Option<&str>,
    configured: bool,
    account_id: Option<&str>,
    r: Result<String, Reply>,
)
    requires
        call_ensures(admit_clear_plan, (expected, provided, configured, account_id), r),
    ensures
        r is Ok <==> expected is Some && provided is Some && expected->0@ == provided->0@ && expected->0@.len() > 0
            && configured && account_id is Some && account_id->0@.len() > 0,
        r is Ok ==> r->Ok_0@ == account_id->0@,
{
}

/// A grant goes to the address that was given, until the end that was given, and only an
/// operator makes one.
pub proof fn grants_are_made_by_operators(
    user: &AuthUser,
    configured: bool,
    payload: Result<GrantBody, String>,
    r: Result<(String, Option<String>), Reply>,
)
    requires
        call_ensures(admit_grant, (user, configured, payload), r),
    ensures
        r is Ok <==> is_operator(user@.email) && configured && payload is Ok && grant_email(payload->Ok_0.email@) is Some,
        r is Ok ==> Some(r->Ok_0.0@) == grant_email(payload->Ok_0.email@) && r->Ok_0.1 == payload->Ok_0.expires_at,
        is_operator(user@.email) && configured && r is Err ==> r->Err_0@.status == 400,
{
}

/// A grant is taken back from the address that was given, and only by an operator.
pub proof fn grants_are_taken_back_by_operators(
    user: &AuthUser,
    configured: bool,
    email: Option<&str>,
    r: Result<String, Reply>,
)
    requires
        call_ensures(admit_revoke, (user, configured, email), r),
    ensures
        r is Ok ==> is_operator(user@.email) && configured && email is Some && email->0@.len() > 0,
        r is Ok ==> Some(r->Ok_0@) == grant_email(email->0@),
        is_operator(user@.email) && configured && email is Some && email->0@.len() > 0 && grant_email(email->0@) is Some
            ==> r is Ok,
        is_operator(user@.email) && configured && r is Err ==> r->Err_0@.status == 400,
{
}

/// Members who only read do not pay; everybody else may, once payment is set up.
pub proof fn readers_do_not_pay(
    user: &AuthUser,
    payload_error: Option<String>,
    configured: bool,
    r: Result<(), Reply>,
)
    requires
        call_ensures(admit_payment, (user, payload_error, configured), r),
    ensures
        r is Ok <==> user.role != TeamRole::ReadOnly && payload_error is None && configured,
        user.role == TeamRole::ReadOnly ==> r is Err && r->Err_0@.status == 403,
        user.role != TeamRole::ReadOnly && payload_error is Some ==> r is Err && r->Err_0@.status == 400,
        user.role != TeamRole::ReadOnly && payload_error is None && !configured ==> r is Err && r->Err_0@.status == 503,
{
}

/// Each paid plan is sold at its own price, and the free one is not for sale.
pub proof fn plans_are_sold_at_their_price(
    secret_key: &str,
    price_growth: &str,
    price_scale: &str,
    plan: BillingPlan,
    r: Result<String, String>,
)
    requires
        call_ensures(checkout_price, (secret_key, price_growth, price_scale, plan), r),
    ensures
        plan == BillingPlan::Free ==> r is Err,
        secret_key@.len() == 0 ==> r is Err,
        r is Ok ==> r->Ok_0@.len() > 0,
        plan == BillingPlan::Growth && secret_key@.len() > 0 && price_growth@.len() > 0 ==> r is Ok && r->Ok_0@
            == price_growth@,
        plan == BillingPlan::Scale && secret_key@.len() > 0 && price_scale@.len() > 0 ==> r is Ok && r->Ok_0@
            == price_scale@,
        plan == BillingPlan::Growth && price_growth@.len() == 0 ==> r is Err,
        plan == BillingPlan::Scale && price_scale@.len() == 0 ==> r is Err,
{
}

/// A customer is made for the account, with its email where it has one.
pub proof fn customers_are_made_for_accounts(account_id: &str, email: Option<&str>, r: Vec<(String, String)>)
    requires
        call_ensures(customer_form, (account_id, email), r),
    ensures
        r.deep_view().contains(("metadata[account_id]"@, account_id@)),
        email is Some ==> r.deep_view().contains(("email"@, email->0@)) && r@.len() == 2,
        email is None ==> r@.len() == 1,
{
    let form = r.deep_view();
    assert(form[0] == ("metadata[account_id]"@, account_id@));
    if email is Some {
        assert(form[1] == ("email"@, email->0@));
    }
    assert(form.len() == r@.len());
}

/// Mails go out once: to an account that was not heard of, with an email; an account that
/// was heard of without one is noted, and anything else is known already.
pub proof fn interest_is_mailed_once(email: Option<&str>, recorded: Option<Option<&str>>, r: InterestAction)
    requires
        call_ensures(interest_action, (email, recorded), r),
    ensures
        r == InterestAction::MailAndNote <==> email is Some && recorded is None,
        r == InterestAction::Note <==> email is Some && recorded is Some && recorded->0 is None,
        r == InterestAction::Nothing <==> email is None || recorded is Some && recorded->0 is Some,
{
}

/// The portal is that of the customer on file.
pub proof fn portals_need_a_customer(secret_key: &str, record: Option<BillingRecord>, r: Result<String, String>)
    requires
        call_ensures(portal_customer, (secret_key, record), r),
    ensures
        r is Ok <==> secret_key@.len() > 0 && record is Some && record->0@.stripe_customer_id is Some,
        r is Ok ==> Some(r->Ok_0@) == record->0@.stripe_customer_id,
{
}

} // verus!
