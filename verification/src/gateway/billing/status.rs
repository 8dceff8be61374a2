//! What an account may do.

use vstd::prelude::*;
use vstd::string::*;

use super::records::{override_view, plan_str, plan_text, BillingRecord, BillingRecordView, PlanOverride, PlanOverrideView};
use crate::clock::{format_rfc3339, moment_of, parse_moment, rfc3339_text, utc_now, Moment, MAX_SECS, MIN_SECS};
use crate::gateway::entitlements::{empty_usage, limits_for, no_usage, plan_limits, usage_with_boms};
use crate::http::{error_message_reply, refusal_with_message, Reply, ReplyView};
use crate::json::{field, Json, JsonView};
use crate::model::purchasing::{
    BillingAccountStatus, BillingAccountStatusView, BillingPlan, BillingStatus, PlanSource, PlanUsage, PurchaseStatus,
};
use crate::text::number::{dec_nat, parse_i64, signed_value};
use crate::text::{copy_opt, is_blank, owned, same, trim, trimmed};

verus! {

/// A grant holds until it expires. One without a readable date never does.
pub open spec fn active_at(entry: PlanOverrideView, now: Moment) -> bool {
    match entry.expires_at {
        None => true,
        Some(text) => match moment_of(text) {
            None => true,
            Some(expires) => expires.is_after(now),
        },
    }
}

/// Whether the grant holds at that time.
pub fn grant_is_active_at(entry: &PlanOverride, now: Moment) -> (r: bool)
    ensures
        r == active_at(entry@, now),
{
    match &entry.expires_at {
        None => true,
        Some(text) => match parse_moment(text.as_str()) {
            None => true,
            Some(expires) => expires.after(now),
        },
    }
}

/// Whether the grant holds now.
pub fn grant_is_active(entry: &PlanOverride) -> (r: bool)
    ensures
        exists|now: Moment| now.can_be_now() && r == #[trigger] active_at(entry@, now),
{
    let now = utc_now();
    grant_is_active_at(entry, now)
}

/// The grant, where it holds.
pub open spec fn held(entry: Option<PlanOverrideView>, now: Moment) -> Option<PlanOverrideView> {
    match entry {
        Some(e) => if active_at(e, now) {
            Some(e)
        } else {
            None
        },
        None => None,
    }
}

/// The states of a subscription that entitle to its plan.
pub open spec fn entitling(status: BillingStatus) -> bool {
    status == BillingStatus::Active || status == BillingStatus::Trialing || status
        == BillingStatus::PastDue
}

/// Unix seconds become a timestamp; any other text is passed on as it is.
pub open spec fn period_end(value: Option<Seq<char>>) -> Option<Seq<char>> {
    match value {
        None => None,
        Some(text) => if is_blank(text) {
            None
        } else {
            match signed_value(trimmed(text), i64::MIN as int, i64::MAX as int) {
                Some(secs) => timestamp_of(secs as i64),
                None => Some(trimmed(text)),
            }
        },
    }
}

/// The timestamp of a number of seconds since 1970, where it has a date.
pub open spec fn timestamp_of(ts: i64) -> Option<Seq<char>> {
    if MIN_SECS <= ts <= MAX_SECS {
        Some(rfc3339_text(ts, 0))
    } else {
        None
    }
}

/// The timestamp of a number of seconds since 1970, where it has a date.
pub fn unix_timestamp_to_rfc3339(ts: i64) -> (r: Option<String>)
    ensures
        r.deep_view() == timestamp_of(ts),
{
    if MIN_SECS <= ts && ts <= MAX_SECS {
        Some(format_rfc3339(Moment { secs: ts, nanos: 0 }))
    } else {
        None
    }
}

/// Unix seconds become a timestamp; any other text is passed on as it is.
pub fn normalize_period_end(value: Option<&str>) -> (r: Option<String>)
    ensures
        r.deep_view() == period_end(value.deep_view()),
{
    match value {
        None => None,
        Some(text) => {
            let t = trim(text);
            if t.as_str().is_empty() {
                return None;
            }
            match parse_i64(t.as_str()) {
                Some(secs) => unix_timestamp_to_rfc3339(secs),
                None => Some(t),
            }
        },
    }
}

/// The plan of an account, its state, where it comes from, and when it ends:
/// operators first, then a grant that holds, then a paid subscription.
pub open spec fn effective_plan(
    record: BillingRecordView,
    grant: Option<PlanOverrideView>,
    is_operator: bool,
) -> (BillingPlan, BillingStatus, PlanSource, Option<Seq<char>>) {
    if is_operator {
        (BillingPlan::Scale, BillingStatus::Active, PlanSource::Admin, None)
    } else if grant is Some {
        (grant->0.plan, BillingStatus::Active, PlanSource::Admin, grant->0.expires_at)
    } else if record.plan != BillingPlan::Free && entitling(record.status) {
        (record.plan, record.status, PlanSource::Stripe, None)
    } else if record.status == BillingStatus::Canceled {
        (BillingPlan::Free, BillingStatus::Canceled, PlanSource::Free, None)
    } else {
        (BillingPlan::Free, BillingStatus::Inactive, PlanSource::Free, None)
    }
}

/// What an account may do, from its record, its grant and who asks.
pub open spec fn account_status(
    record: BillingRecordView,
    entry: Option<PlanOverrideView>,
    usage: PlanUsage,
    is_operator: bool,
    now: Moment,
) -> BillingAccountStatusView {
    let grant = held(entry, now);
    let (plan, status, plan_source, admin_expires_at) = effective_plan(record, grant, is_operator);
    let provisioned = is_operator || grant is Some || plan_source == PlanSource::Stripe;
    BillingAccountStatusView {
        plan,
        status,
        plan_source,
        can_purchase: provisioned,
        limits: plan_limits(plan),
        usage,
        stripe_customer_id: record.stripe_customer_id,
        current_period_end: period_end(record.current_period_end),
        admin_expires_at,
        provisioned,
        is_operator,
    }
}

/// What an account may do at that time.
pub fn status_from_record_at(
    record: &BillingRecord,
    override_plan: Option<PlanOverride>,
    usage: PlanUsage,
    is_operator: bool,
    now: Moment,
) -> (r: BillingAccountStatus)
    ensures
        r@ == account_status(record@, override_view(override_plan), usage, is_operator, now),
{
    let active_override = match override_plan {
        Some(entry) => if grant_is_active_at(&entry, now) {
            Some(entry)
        } else {
            None
        },
        None => None,
    };
    let granted = active_override.is_some();
    let (plan, status, plan_source, admin_expires_at) = if is_operator {
        (BillingPlan::Scale, BillingStatus::Active, PlanSource::Admin, None)
    } else {
        match active_override {
            Some(entry) => (entry.plan, BillingStatus::Active, PlanSource::Admin, entry.expires_at),
            None => {
                if record.plan != BillingPlan::Free && matches!(
                    record.status,
                    BillingStatus::Active | BillingStatus::Trialing | BillingStatus::PastDue
                ) {
                    (record.plan, record.status, PlanSource::Stripe, None)
                } else if record.status == BillingStatus::Canceled {
                    (BillingPlan::Free, BillingStatus::Canceled, PlanSource::Free, None)
                } else {
                    (BillingPlan::Free, BillingStatus::Inactive, PlanSource::Free, None)
                }
            },
        }
    };
    let provisioned = is_operator || granted || (plan_source == PlanSource::Stripe && matches!(
        status,
        BillingStatus::Active | BillingStatus::Trialing | BillingStatus::PastDue
    ));
    BillingAccountStatus {
        plan,
        status,
        plan_source,
        can_purchase: provisioned,
        limits: limits_for(plan),
        usage,
        stripe_customer_id: copy_opt(&record.stripe_customer_id),
        current_period_end: normalize_period_end(
            super::records::as_str_opt(&record.current_period_end),
        ),
        admin_expires_at,
        provisioned,
        is_operator,
    }
}

/// What an account may do now.
pub fn status_from_record(
    record: &BillingRecord,
    override_plan: Option<PlanOverride>,
    usage: PlanUsage,
    is_operator: bool,
) -> (r: BillingAccountStatus)
    ensures
        exists|now: Moment|
            now.can_be_now() && r@ == #[trigger] account_status(
                record@,
                override_view(override_plan),
                usage,
                is_operator,
                now,
            ),
{
    let now = utc_now();
    status_from_record_at(record, override_plan, usage, is_operator, now)
}

/// An account is enabled exactly if an operator asks, a grant holds, or a paid
/// subscription is in an entitling state; and only enabled accounts purchase.
pub proof fn provisioned_iff(
    record: BillingRecordView,
    entry: Option<PlanOverrideView>,
    usage: PlanUsage,
    is_operator: bool,
    now: Moment,
)
    ensures
        ({
            let s = account_status(record, entry, usage, is_operator, now);
            &&& s.can_purchase == s.provisioned
            &&& s.provisioned <==> (is_operator || held(entry, now) is Some || (record.plan
                != BillingPlan::Free && entitling(record.status)))
            &&& !s.provisioned ==> s.plan == BillingPlan::Free
            &&& s.limits == plan_limits(s.plan)
            &&& s.usage == usage
        }),
{
}

/// What is shown where no billing is set up.
pub open spec fn free_status(active_boms_count: u32, is_operator: bool) -> BillingAccountStatusView {
    let plan = if is_operator {
        BillingPlan::Scale
    } else {
        BillingPlan::Free
    };
    BillingAccountStatusView {
        plan,
        status: if is_operator {
            BillingStatus::Active
        } else {
            BillingStatus::Inactive
        },
        plan_source: if is_operator {
            PlanSource::Admin
        } else {
            PlanSource::Free
        },
        can_purchase: is_operator,
        limits: plan_limits(plan),
        usage: PlanUsage { active_boms_count, ..no_usage() },
        stripe_customer_id: None,
        current_period_end: None,
        admin_expires_at: None,
        provisioned: is_operator,
        is_operator,
    }
}

/// What is shown where no billing is set up.
pub fn free_status_payload(active_boms_count: u32, is_operator: bool) -> (r: BillingAccountStatus)
    ensures
        r@ == free_status(active_boms_count, is_operator),
{
    let plan = if is_operator {
        BillingPlan::Scale
    } else {
        BillingPlan::Free
    };
    BillingAccountStatus {
        plan,
        status: if is_operator {
            BillingStatus::Active
        } else {
            BillingStatus::Inactive
        },
        plan_source: if is_operator {
            PlanSource::Admin
        } else {
            PlanSource::Free
        },
        can_purchase: is_operator,
        limits: limits_for(plan),
        usage: usage_with_boms(active_boms_count, empty_usage()),
        stripe_customer_id: None,
        current_period_end: None,
        admin_expires_at: None,
        provisioned: is_operator,
        is_operator,
    }
}

/// A cap that stands in the way.
#[derive(Debug)]
pub struct CapError {
    pub plan: BillingPlan,
    pub cap: String,
    pub used: u32,
    pub limit: u32,
    pub purchase_status: Option<PurchaseStatus>,
}

/// The content of a cap error.
#[verifier::ext_equal]
pub struct CapErrorView {
    pub plan: BillingPlan,
    pub cap: Seq<char>,
    pub used: u32,
    pub limit: u32,
    pub purchase_status: Option<PurchaseStatus>,
}

impl View for CapError {
    type V = CapErrorView;

    open spec fn view(&self) -> CapErrorView {
        CapErrorView {
            plan: self.plan,
            cap: self.cap@,
            used: self.used,
            limit: self.limit,
            purchase_status: self.purchase_status,
        }
    }
}

/// The error for an account that is not enabled.
pub open spec fn not_provisioned_cap() -> CapErrorView {
    CapErrorView {
        plan: BillingPlan::Free,
        cap: "not_provisioned"@,
        used: 0,
        limit: 0,
        purchase_status: Some(PurchaseStatus::RequiresSubscription),
    }
}

/// The error for an account that is not enabled.
pub fn not_provisioned_error() -> (r: CapError)
    ensures
        r@ == not_provisioned_cap(),
{
    CapError {
        plan: BillingPlan::Free,
        cap: owned("not_provisioned"),
        used: 0,
        limit: 0,
        purchase_status: Some(PurchaseStatus::RequiresSubscription),
    }
}

/// What an account that is not enabled is told.
pub open spec fn not_enabled_text() -> Seq<char> {
    "This account is not enabled yet. We will reach out after we review your registration."@
}

/// What an account that is not enabled is answered.
pub fn not_provisioned_response() -> (r: Reply)
    ensures
        r@ == refusal_with_message(403, "not_provisioned"@, not_enabled_text()),
{
    error_message_reply(
        403,
        "not_provisioned",
        "This account is not enabled yet. We will reach out after we review your registration.",
    )
}

/// A cap error as an answer: 403 where the account is not enabled, else 402.
pub open spec fn cap_reply(error: CapErrorView) -> ReplyView {
    let not_provisioned = error.cap == "not_provisioned"@;
    let fields = seq![
        ("error"@, JsonView::Text(if not_provisioned { "not_provisioned"@ } else { "plan_cap_exceeded"@ })),
        ("plan"@, JsonView::Text(plan_text(error.plan))),
        ("cap"@, JsonView::Text(error.cap)),
        ("used"@, JsonView::Number(dec_nat(error.used as nat))),
        ("limit"@, JsonView::Number(dec_nat(error.limit as nat))),
    ];
    if not_provisioned {
        ReplyView {
            status: 403,
            body: JsonView::Object(fields.push(("message"@, JsonView::Text(not_enabled_text())))),
        }
    } else {
        ReplyView { status: 402, body: JsonView::Object(fields) }
    }
}

impl CapError {
    /// The error as an answer.
    pub fn into_response(self) -> (r: Reply)
        ensures
            r@ == cap_reply(self@),
    {
        let not_provisioned = same(self.cap.as_str(), "not_provisioned");
        let error = if not_provisioned {
            "not_provisioned"
        } else {
            "plan_cap_exceeded"
        };
        let mut fields = vec![
            field("error", Json::text(error)),
            field("plan", Json::text(plan_str(self.plan))),
            field("cap", Json::text(self.cap.as_str())),
            field("used", Json::number(self.used as u64)),
            field("limit", Json::number(self.limit as u64)),
        ];
        if not_provisioned {
            fields.push(
                field(
                    "message",
                    Json::text(
                        "This account is not enabled yet. We will reach out after we review your registration.",
                    ),
                ),
            );
        }
        let status: u16 = if not_provisioned {
            403
        } else {
            402
        };
        let r = Reply { status, body: Json::Object(fields) };
        assert(r.body@->Object_0 =~= cap_reply(self@).body->Object_0);
        r
    }
}

/// A person who has no access and does not run the service is told of, once.
pub fn is_waiting(status: &BillingAccountStatus) -> (r: bool)
    ensures
        r == (!status.provisioned && !status.is_operator),
{
    !status.provisioned && !status.is_operator
}

/// The plan of an account: the free one where nothing is known.
pub fn plan_or_free(status: Option<Result<BillingAccountStatus, String>>) -> (r: BillingPlan)
    ensures
        r == match status {
            Some(Ok(status)) => status.plan,
            _ => BillingPlan::Free,
        },
{
    match status {
        Some(Ok(status)) => status.plan,
        _ => BillingPlan::Free,
    }
}

/// A grant without an end, or with one that cannot be read, always holds; a grant with an
/// end holds before that moment and not from then on.
pub proof fn grants_hold_until_they_end(entry: &PlanOverride, now: Moment, r: bool)
    requires
        call_ensures(grant_is_active_at, (entry, now), r),
    ensures
        entry.expires_at is None ==> r,
        entry.expires_at is Some && moment_of(entry.expires_at->0@) is None ==> r,
        entry.expires_at is Some && moment_of(entry.expires_at->0@) is Some ==> {
            let end = moment_of(entry.expires_at->0@)->0;
            r <==> end.secs > now.secs || end.secs == now.secs && end.nanos > now.nanos
        },
{
}

/// A grant that ended does not hold again.
pub proof fn ended_grants_stay_ended(entry: &PlanOverride, now: Moment, later: Moment, r: bool, s: bool)
    requires
        call_ensures(grant_is_active_at, (entry, now), r),
        call_ensures(grant_is_active_at, (entry, later), s),
        now.secs < later.secs || now.secs == later.secs && now.nanos <= later.nanos,
    ensures
        !r ==> !s,
{
}

/// Who runs the service has everything, whatever is recorded.
pub proof fn operators_have_everything(
    record: &BillingRecord,
    entry: Option<PlanOverride>,
    usage: PlanUsage,
    now: Moment,
    r: BillingAccountStatus,
)
    requires
        call_ensures(status_from_record_at, (record, entry, usage, true, now), r),
    ensures
        r@.plan == BillingPlan::Scale,
        r@.status == BillingStatus::Active,
        r@.plan_source == PlanSource::Admin,
        r@.can_purchase && r@.provisioned && r@.is_operator,
        r@.admin_expires_at is None,
{
}

/// A grant that holds gives its plan until it ends, ahead of any subscription; one that
/// ended gives nothing.
pub proof fn grants_go_before_subscriptions(
    record: &BillingRecord,
    entry: PlanOverride,
    usage: PlanUsage,
    now: Moment,
    active: bool,
    r: BillingAccountStatus,
    without: BillingAccountStatus,
)
    requires
        call_ensures(grant_is_active_at, (&entry, now), active),
        call_ensures(status_from_record_at, (record, Some(entry), usage, false, now), r),
        call_ensures(status_from_record_at, (record, None::<PlanOverride>, usage, false, now), without),
    ensures
        active ==> r@.plan == entry@.plan && r@.status == BillingStatus::Active && r@.plan_source
            == PlanSource::Admin && r@.admin_expires_at == entry@.expires_at && r@.provisioned && r@.can_purchase,
        !active ==> r@ == without@,
        !r@.is_operator,
{
}

/// A paid subscription gives its plan while it runs, is on trial or is past due, and none
/// once it is canceled or was never taken.
pub proof fn subscriptions_give_their_plan(
    record: &BillingRecord,
    usage: PlanUsage,
    now: Moment,
    r: BillingAccountStatus,
)
    requires
        call_ensures(status_from_record_at, (record, None::<PlanOverride>, usage, false, now), r),
    ensures
        ({
            let runs = record@.status == BillingStatus::Active || record@.status == BillingStatus::Trialing
                || record@.status == BillingStatus::PastDue;
            let paid = record@.plan == BillingPlan::Growth || record@.plan == BillingPlan::Scale;
            &&& runs && paid ==> r@.plan == record@.plan && r@.status == record@.status && r@.plan_source
                == PlanSource::Stripe && r@.provisioned && r@.can_purchase
            &&& !(runs && paid) ==> r@.plan == BillingPlan::Free && r@.plan_source == PlanSource::Free
                && !r@.provisioned && !r@.can_purchase
            &&& !(runs && paid) && record@.status == BillingStatus::Canceled ==> r@.status
                == BillingStatus::Canceled
            &&& !(runs && paid) && record@.status != BillingStatus::Canceled ==> r@.status
                == BillingStatus::Inactive
            &&& r@.admin_expires_at is None
            &&& r@.stripe_customer_id == record@.stripe_customer_id
            &&& r@.usage == usage
        }),
{
}

/// What is shown of an account always has the caps of the plan that is shown.
pub proof fn caps_are_those_of_the_plan(
    record: &BillingRecord,
    entry: Option<PlanOverride>,
    usage: PlanUsage,
    is_operator: bool,
    now: Moment,
    r: BillingAccountStatus,
)
    requires
        call_ensures(status_from_record_at, (record, entry, usage, is_operator, now), r),
    ensures
        r@.limits == plan_limits(r@.plan),
        r@.usage == usage,
        r@.is_operator == is_operator,
        r@.can_purchase <==> r@.provisioned,
        !r@.provisioned ==> r@.plan == BillingPlan::Free && r@.limits.seats == 1,
{
}

/// The end of a period that was stored as seconds is shown as their timestamp; any other
/// text is shown without the blanks around it, and a blank one not at all.
pub proof fn ends_of_periods_are_readable(text: &str, r: Option<String>, secs: i64)
    requires
        call_ensures(normalize_period_end, (Some(text),), r),
        0 <= secs <= 253_402_300_799,
    ensures
        is_blank(text@) ==> r is None,
        text@ == crate::text::number::dec_int(secs as int) ==> r.deep_view() == Some(rfc3339_text(secs, 0)),
        !is_blank(text@) && signed_value(trimmed(text@), i64::MIN as int, i64::MAX as int) is None
            ==> r.deep_view() == Some(trimmed(text@)),
{
    if text@ == crate::text::number::dec_int(secs as int) {
        crate::text::number::print_parse_i64(secs);
        let s = text@;
        crate::text::number::dec_nat_value(secs as nat);
        crate::text::trimming_takes_off_blanks(Seq::empty(), s, Seq::empty());
    }
}

/// Where no end of a period is stored, none is shown.
pub proof fn no_end_of_a_period_is_made_up(r: Option<String>)
    requires
        call_ensures(normalize_period_end, (None::<&str>,), r),
    ensures
        r is None,
{
}

/// Where no billing is set up, only those who run the service have a plan.
pub proof fn without_billing_only_operators_have_plans(boms: u32, is_operator: bool, r: BillingAccountStatus)
    requires
        call_ensures(free_status_payload, (boms, is_operator), r),
    ensures
        is_operator ==> r@.plan == BillingPlan::Scale && r@.status == BillingStatus::Active && r@.provisioned
            && r@.can_purchase && r@.plan_source == PlanSource::Admin,
        !is_operator ==> r@.plan == BillingPlan::Free && r@.status == BillingStatus::Inactive
            && !r@.provisioned && !r@.can_purchase && r@.plan_source == PlanSource::Free,
        r@.usage.active_boms_count == boms,
        r@.usage.orders_count == 0 && r@.usage.lines_count == 0 && r@.usage.analyses_count == 0
            && r@.usage.purchasing_actions_count == 0,
        r@.limits == plan_limits(r@.plan),
        r@.is_operator == is_operator,
{
}

/// An account that is not enabled is forbidden; any other cap asks for payment. Both
/// answers name the plan, the cap, what was used of it and how much it is.
pub proof fn caps_ask_for_payment(error: CapError, r: Reply)
    requires
        call_ensures(CapError::into_response, (error,), r),
    ensures
        error@.cap == "not_provisioned"@ <==> r@.status == 403,
        error@.cap != "not_provisioned"@ <==> r@.status == 402,
        r@.body is Object,
        r@.body->Object_0.contains(("cap"@, JsonView::Text(error@.cap))),
        r@.body->Object_0.contains(("used"@, JsonView::Number(dec_nat(error@.used as nat)))),
        r@.body->Object_0.contains(("limit"@, JsonView::Number(dec_nat(error@.limit as nat)))),
        error@.plan == BillingPlan::Free ==> r@.body->Object_0.contains(("plan"@, JsonView::Text("free"@))),
        error@.plan == BillingPlan::Growth ==> r@.body->Object_0.contains(("plan"@, JsonView::Text("growth"@))),
        error@.plan == BillingPlan::Scale ==> r@.body->Object_0.contains(("plan"@, JsonView::Text("scale"@))),
        error@.cap == "not_provisioned"@ ==> r@.body->Object_0.contains(
            ("error"@, JsonView::Text("not_provisioned"@)),
        ),
        error@.cap != "not_provisioned"@ ==> r@.body->Object_0.contains(
            ("error"@, JsonView::Text("plan_cap_exceeded"@)),
        ),
{
    let b = r@.body->Object_0;
    assert(b[0].0 == "error"@);
    assert(b[1] == ("plan"@, JsonView::Text(plan_text(error@.plan))));
    assert(b[2] == ("cap"@, JsonView::Text(error@.cap)));
    assert(b[3] == ("used"@, JsonView::Number(dec_nat(error@.used as nat))));
    assert(b[4] == ("limit"@, JsonView::Number(dec_nat(error@.limit as nat))));
}

/// The error for an account that is not enabled is answered as such.
pub proof fn accounts_that_are_not_enabled_are_forbidden(error: CapError, r: Reply)
    requires
        call_ensures(not_provisioned_error, (), error),
        call_ensures(CapError::into_response, (error,), r),
    ensures
        r@.status == 403,
        error@.purchase_status == Some(PurchaseStatus::RequiresSubscription),
        error@.plan == BillingPlan::Free && error@.limit == 0 && error@.used == 0,
{
}

/// Those who wait for access are those without it who do not run the service.
pub proof fn those_without_access_wait(status: &BillingAccountStatus, r: bool)
    requires
        call_ensures(is_waiting, (status,), r),
    ensures
        status.provisioned || status.is_operator ==> !r,
        !status.provisioned && !status.is_operator ==> r,
{
}

/// Seconds since 1970 become the timestamp of that second, where the calendar has it.
pub proof fn seconds_become_timestamps(ts: i64, r: Option<String>)
    requires
        call_ensures(unix_timestamp_to_rfc3339, (ts,), r),
    ensures
        0 <= ts <= 253_402_300_799 ==> r is Some && r->0@ == rfc3339_text(ts, 0),
        ts == i64::MAX ==> r is None,
{
}

/// The plan of an account that nothing is known of is the free one.
pub proof fn unknown_plans_are_free(status: Option<Result<BillingAccountStatus, String>>, r: BillingPlan)
    requires
        call_ensures(plan_or_free, (status,), r),
    ensures
        status is None ==> r == BillingPlan::Free,
        status is Some && status->0 is Err ==> r == BillingPlan::Free,
        status is Some && status->0 is Ok ==> r == status->0->Ok_0.plan,
{
}

/// An account that is not enabled is answered with that, and forbidden.
pub proof fn not_enabled_is_forbidden(r: Reply)
    requires
        call_ensures(not_provisioned_response, (), r),
    ensures
        r@.status == 403,
        crate::json::get_view(r@.body, "error"@) == Some(JsonView::Text("not_provisioned"@)),
{
    crate::json::first_field_is_found(r@.body->Object_0, "error"@, 0);
}

} // verus!
