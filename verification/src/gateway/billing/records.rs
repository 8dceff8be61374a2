//! Billing records and how they are stored.

use vstd::prelude::*;
use vstd::string::*;
use vstd::utf8::*;

use crate::dynamo::{get_n, get_s, new_item, number_attr, put_opt, put_s, set_text, text_attr, viewed, AttrView, Item, ItemView};
use crate::model::purchasing::{BillingPlan, BillingStatus, PlanUsage};
use crate::text::case::{ascii_lower, lowercase, to_ascii_lower, to_lowercase};
use crate::text::number::{dec_nat, parse_u32, u64_text, unsigned_value};
use crate::text::search::{ends_with, has_char};
use crate::text::{copy_opt, is_blank, owned, same, trim, trimmed};

verus! {

/// An account's subscription.
#[derive(Debug)]
pub struct BillingRecord {
    pub account_id: String,
    pub email: Option<String>,
    pub stripe_customer_id: Option<String>,
    pub stripe_subscription_id: Option<String>,
    pub plan: BillingPlan,
    pub status: BillingStatus,
    pub current_period_end: Option<String>,
}

/// The content of a billing record.
#[verifier::ext_equal]
pub struct BillingRecordView {
    pub account_id: Seq<char>,
    pub email: Option<Seq<char>>,
    pub stripe_customer_id: Option<Seq<char>>,
    pub stripe_subscription_id: Option<Seq<char>>,
    pub plan: BillingPlan,
    pub status: BillingStatus,
    pub current_period_end: Option<Seq<char>>,
}

impl View for BillingRecord {
    type V = BillingRecordView;

    open spec fn view(&self) -> BillingRecordView {
        BillingRecordView {
            account_id: self.account_id@,
            email: self.email.deep_view(),
            stripe_customer_id: self.stripe_customer_id.deep_view(),
            stripe_subscription_id: self.stripe_subscription_id.deep_view(),
            plan: self.plan,
            status: self.status,
            current_period_end: self.current_period_end.deep_view(),
        }
    }
}

impl Clone for BillingRecord {
    fn clone(&self) -> (r: Self)
        ensures
            r == *self,
    {
        BillingRecord {
            account_id: self.account_id.clone(),
            email: copy_opt(&self.email),
            stripe_customer_id: copy_opt(&self.stripe_customer_id),
            stripe_subscription_id: copy_opt(&self.stripe_subscription_id),
            plan: self.plan,
            status: self.status,
            current_period_end: copy_opt(&self.current_period_end),
        }
    }
}

/// A plan given by hand.
#[derive(Debug)]
pub struct PlanOverride {
    pub plan: BillingPlan,
    pub expires_at: Option<String>,
    pub note: Option<String>,
}

/// The content of a plan given by hand.
#[verifier::ext_equal]
pub struct PlanOverrideView {
    pub plan: BillingPlan,
    pub expires_at: Option<Seq<char>>,
    pub note: Option<Seq<char>>,
}

impl View for PlanOverride {
    type V = PlanOverrideView;

    open spec fn view(&self) -> PlanOverrideView {
        PlanOverrideView {
            plan: self.plan,
            expires_at: self.expires_at.deep_view(),
            note: self.note.deep_view(),
        }
    }
}

impl Clone for PlanOverride {
    fn clone(&self) -> (r: Self)
        ensures
            r == *self,
    {
        PlanOverride {
            plan: self.plan,
            expires_at: copy_opt(&self.expires_at),
            note: copy_opt(&self.note),
        }
    }
}

/// An account without a subscription.
pub open spec fn free_record(account_id: Seq<char>, email: Option<Seq<char>>) -> BillingRecordView {
    BillingRecordView {
        account_id,
        email,
        stripe_customer_id: None,
        stripe_subscription_id: None,
        plan: BillingPlan::Free,
        status: BillingStatus::Inactive,
        current_period_end: None,
    }
}

/// An account without a subscription.
pub fn new_record(account_id: &str, email: &Option<String>) -> (r: BillingRecord)
    ensures
        r@ == free_record(account_id@, email.deep_view()),
{
    BillingRecord {
        account_id: owned(account_id),
        email: copy_opt(email),
        stripe_customer_id: None,
        stripe_subscription_id: None,
        plan: BillingPlan::Free,
        status: BillingStatus::Inactive,
        current_period_end: None,
    }
}

/// The name of a plan.
pub open spec fn plan_text(plan: BillingPlan) -> Seq<char> {
    match plan {
        BillingPlan::Free => "free"@,
        BillingPlan::Growth => "growth"@,
        BillingPlan::Scale => "scale"@,
    }
}

/// The name of a plan.
pub fn plan_str(plan: BillingPlan) -> (r: &'static str)
    ensures
        r@ == plan_text(plan),
{
    match plan {
        BillingPlan::Free => "free",
        BillingPlan::Growth => "growth",
        BillingPlan::Scale => "scale",
    }
}

/// The name of a subscription status.
pub open spec fn status_text(status: BillingStatus) -> Seq<char> {
    match status {
        BillingStatus::Inactive => "none"@,
        BillingStatus::Trialing => "trialing"@,
        BillingStatus::Active => "active"@,
        BillingStatus::PastDue => "past_due"@,
        BillingStatus::Canceled => "canceled"@,
    }
}

/// The name of a subscription status.
pub fn status_str(status: BillingStatus) -> (r: &'static str)
    ensures
        r@ == status_text(status),
{
    match status {
        BillingStatus::Inactive => "none",
        BillingStatus::Trialing => "trialing",
        BillingStatus::Active => "active",
        BillingStatus::PastDue => "past_due",
        BillingStatus::Canceled => "canceled",
    }
}

/// The paid plan with that name.
pub open spec fn paid_plan(text: Option<Seq<char>>) -> Option<BillingPlan> {
    if text == Some("scale"@) {
        Some(BillingPlan::Scale)
    } else if text == Some("growth"@) {
        Some(BillingPlan::Growth)
    } else {
        None
    }
}

/// The paid plan with that name.
pub fn parse_paid_plan(text: &Option<String>) -> (r: Option<BillingPlan>)
    ensures
        r == paid_plan(text.deep_view()),
{
    match text {
        Some(t) => if same(t.as_str(), "scale") {
            Some(BillingPlan::Scale)
        } else if same(t.as_str(), "growth") {
            Some(BillingPlan::Growth)
        } else {
            None
        },
        None => None,
    }
}

/// The status with that name; any other text is no status.
pub open spec fn stored_status(text: Option<Seq<char>>) -> BillingStatus {
    if text == Some("trialing"@) {
        BillingStatus::Trialing
    } else if text == Some("active"@) {
        BillingStatus::Active
    } else if text == Some("past_due"@) {
        BillingStatus::PastDue
    } else if text == Some("canceled"@) {
        BillingStatus::Canceled
    } else {
        BillingStatus::Inactive
    }
}

fn parse_stored_status(text: &Option<String>) -> (r: BillingStatus)
    ensures
        r == stored_status(text.deep_view()),
{
    match text {
        Some(t) => if same(t.as_str(), "trialing") {
            BillingStatus::Trialing
        } else if same(t.as_str(), "active") {
            BillingStatus::Active
        } else if same(t.as_str(), "past_due") {
            BillingStatus::PastDue
        } else if same(t.as_str(), "canceled") {
            BillingStatus::Canceled
        } else {
            BillingStatus::Inactive
        },
        None => BillingStatus::Inactive,
    }
}

/// The partition key of an account.
pub open spec fn account_pk(account_id: Seq<char>) -> Seq<char> {
    "ACCOUNT#"@ + account_id
}

/// The partition key of an account.
pub fn account_key(account_id: &str) -> (r: String)
    ensures
        r@ == account_pk(account_id@),
{
    let mut s = owned("ACCOUNT#");
    s.append(account_id);
    s
}

/// A record as it is stored.
pub open spec fn record_item(record: BillingRecordView) -> ItemView {
    let item = ItemView::empty().insert("pk"@, AttrView::S(account_pk(record.account_id))).insert(
        "sk"@,
        AttrView::S("BILLING"@),
    ).insert("account_id"@, AttrView::S(record.account_id)).insert(
        "plan"@,
        AttrView::S(plan_text(record.plan)),
    ).insert("status"@, AttrView::S(status_text(record.status)));
    let item = set_text(item, "email"@, record.email);
    let item = set_text(item, "stripe_customer_id"@, record.stripe_customer_id);
    let item = set_text(item, "stripe_subscription_id"@, record.stripe_subscription_id);
    set_text(item, "current_period_end"@, record.current_period_end)
}

/// A record as it is stored.
pub fn billing_record_item(record: &BillingRecord) -> (r: Item)
    ensures
        r.wf(),
        viewed(r) == record_item(record@),
{
    let mut item = new_item();
    put_s(&mut item, "pk", account_key(record.account_id.as_str()).as_str());
    put_s(&mut item, "sk", "BILLING");
    put_s(&mut item, "account_id", record.account_id.as_str());
    put_s(&mut item, "plan", plan_str(record.plan));
    put_s(&mut item, "status", status_str(record.status));
    put_opt(&mut item, "email", as_str_opt(&record.email));
    put_opt(&mut item, "stripe_customer_id", as_str_opt(&record.stripe_customer_id));
    put_opt(&mut item, "stripe_subscription_id", as_str_opt(&record.stripe_subscription_id));
    put_opt(&mut item, "current_period_end", as_str_opt(&record.current_period_end));
    item
}

/// A reference to an optional text.
pub fn as_str_opt(s: &Option<String>) -> (r: Option<&str>)
    ensures
        r.deep_view() == s.deep_view(),
{
    match s {
        Some(t) => Some(t.as_str()),
        None => None,
    }
}

/// What a stored record says.
pub open spec fn item_record(item: ItemView) -> BillingRecordView {
    BillingRecordView {
        account_id: match text_attr(item, "account_id"@) {
            Some(id) => id,
            None => Seq::empty(),
        },
        email: text_attr(item, "email"@),
        stripe_customer_id: text_attr(item, "stripe_customer_id"@),
        stripe_subscription_id: text_attr(item, "stripe_subscription_id"@),
        plan: match paid_plan(text_attr(item, "plan"@)) {
            Some(plan) => plan,
            None => BillingPlan::Free,
        },
        status: stored_status(text_attr(item, "status"@)),
        current_period_end: text_attr(item, "current_period_end"@),
    }
}

/// What a stored record says.
pub fn record_from_item(item: &Item) -> (r: BillingRecord)
    requires
        item.wf(),
    ensures
        r@ == item_record(viewed(*item)),
{
    BillingRecord {
        account_id: match get_s(item, "account_id") {
            Some(id) => id,
            None => String::new(),
        },
        email: get_s(item, "email"),
        stripe_customer_id: get_s(item, "stripe_customer_id"),
        stripe_subscription_id: get_s(item, "stripe_subscription_id"),
        plan: match parse_paid_plan(&get_s(item, "plan")) {
            Some(plan) => plan,
            None => BillingPlan::Free,
        },
        status: parse_stored_status(&get_s(item, "status")),
        current_period_end: get_s(item, "current_period_end"),
    }
}

/// What is read back of a stored record is the record.
pub proof fn record_round_trip(record: BillingRecordView)
    ensures
        item_record(record_item(record)) == record,
{
    reveal_strlit("pk");
    reveal_strlit("sk");
    reveal_strlit("account_id");
    reveal_strlit("plan");
    reveal_strlit("status");
    reveal_strlit("email");
    reveal_strlit("stripe_customer_id");
    reveal_strlit("stripe_subscription_id");
    reveal_strlit("current_period_end");
    assert("pk"@.len() == 2);
    assert("sk"@.len() == 2);
    assert("account_id"@.len() == 10);
    assert("plan"@.len() == 4);
    assert("status"@.len() == 6);
    assert("email"@.len() == 5);
    assert("stripe_customer_id"@.len() == 18);
    assert("stripe_subscription_id"@.len() == 22);
    assert("current_period_end"@.len() == 18);
    assert("pk"@[0] != "sk"@[0]);
    assert("stripe_customer_id"@[0] != "current_period_end"@[0]);
    reveal_strlit("free");
    reveal_strlit("growth");
    reveal_strlit("scale");
    assert("free"@.len() == 4);
    assert("growth"@.len() == 6);
    assert("scale"@.len() == 5);
    reveal_strlit("none");
    reveal_strlit("trialing");
    reveal_strlit("active");
    reveal_strlit("past_due");
    reveal_strlit("canceled");
    assert("none"@.len() == 4);
    assert("trialing"@.len() == 8);
    assert("active"@.len() == 6);
    assert("past_due"@.len() == 8);
    assert("canceled"@.len() == 8);
    assert("trialing"@[0] != "past_due"@[0]);
    assert("trialing"@[0] != "canceled"@[0]);
    assert("past_due"@[0] != "canceled"@[0]);
}

/// A plan given by hand as it is stored.
pub open spec fn override_item(
    account_id: Seq<char>,
    plan: BillingPlan,
    expires_at: Option<Seq<char>>,
    note: Option<Seq<char>>,
) -> ItemView {
    let item = ItemView::empty().insert("pk"@, AttrView::S(account_pk(account_id))).insert(
        "sk"@,
        AttrView::S("PLAN_OVERRIDE"@),
    ).insert("account_id"@, AttrView::S(account_id)).insert("plan"@, AttrView::S(plan_text(plan)));
    let item = set_text(item, "admin_expires_at"@, expires_at);
    set_text(item, "admin_note"@, note)
}

/// A plan given by hand as it is stored.
pub fn plan_override_item(
    account_id: &str,
    plan: BillingPlan,
    expires_at: Option<&str>,
    note: Option<&str>,
) -> (r: Item)
    ensures
        r.wf(),
        viewed(r) == override_item(account_id@, plan, expires_at.deep_view(), note.deep_view()),
{
    let mut item = new_item();
    put_s(&mut item, "pk", account_key(account_id).as_str());
    put_s(&mut item, "sk", "PLAN_OVERRIDE");
    put_s(&mut item, "account_id", account_id);
    put_s(&mut item, "plan", plan_str(plan));
    put_opt(&mut item, "admin_expires_at", expires_at);
    put_opt(&mut item, "admin_note", note);
    item
}

/// What a stored plan says; a plan that is not paid for is none.
pub open spec fn item_override(item: ItemView) -> Option<PlanOverrideView> {
    match paid_plan(text_attr(item, "plan"@)) {
        Some(plan) => Some(
            PlanOverrideView {
                plan,
                expires_at: text_attr(item, "admin_expires_at"@),
                note: text_attr(item, "admin_note"@),
            },
        ),
        None => None,
    }
}

/// The content of an optional plan given by hand.
pub open spec fn override_view(entry: Option<PlanOverride>) -> Option<PlanOverrideView> {
    match entry {
        Some(e) => Some(e@),
        None => None,
    }
}

/// What a stored plan says; a plan that is not paid for is none.
pub fn plan_override_from_item(item: &Item) -> (r: Option<PlanOverride>)
    requires
        item.wf(),
    ensures
        override_view(r) == item_override(viewed(*item)),
{
    match parse_paid_plan(&get_s(item, "plan")) {
        Some(plan) => Some(
            PlanOverride {
                plan,
                expires_at: get_s(item, "admin_expires_at"),
                note: get_s(item, "admin_note"),
            },
        ),
        None => None,
    }
}

/// What is read back of a stored paid plan is the plan.
pub proof fn override_round_trip(account_id: Seq<char>, entry: PlanOverrideView)
    requires
        entry.plan != BillingPlan::Free,
    ensures
        item_override(override_item(account_id, entry.plan, entry.expires_at, entry.note)) == Some(
            entry,
        ),
{
    reveal_strlit("pk");
    reveal_strlit("sk");
    reveal_strlit("account_id");
    reveal_strlit("plan");
    reveal_strlit("admin_expires_at");
    reveal_strlit("admin_note");
    assert("pk"@.len() == 2);
    assert("sk"@.len() == 2);
    assert("account_id"@.len() == 10);
    assert("plan"@.len() == 4);
    assert("admin_expires_at"@.len() == 16);
    assert("admin_note"@.len() == 10);
    assert("pk"@[0] != "sk"@[0]);
    assert("account_id"@[1] != "admin_note"@[1]);
    reveal_strlit("growth");
    reveal_strlit("scale");
    assert("growth"@.len() == 6);
    assert("scale"@.len() == 5);
}

/// An email grant as it is stored: a paid plan under the email's own key.
pub open spec fn grant_item(email: Seq<char>, expires_at: Option<Seq<char>>) -> ItemView {
    override_item(email, BillingPlan::Scale, expires_at, Some(email)).insert(
        "pk"@,
        AttrView::S("EMAIL#"@ + email),
    ).insert("sk"@, AttrView::S("GRANT"@))
}

/// An email grant as it is stored: a paid plan under the email's own key.
pub fn email_grant_item(email: &str, expires_at: Option<&str>) -> (r: Item)
    ensures
        r.wf(),
        viewed(r) == grant_item(email@, expires_at.deep_view()),
{
    let mut item = plan_override_item(email, BillingPlan::Scale, expires_at, Some(email));
    put_s(&mut item, "pk", email_key(email).as_str());
    put_s(&mut item, "sk", "GRANT");
    item
}

/// The partition key of an email.
pub fn email_key(email: &str) -> (r: String)
    ensures
        r@ == "EMAIL#"@ + email@,
{
    let mut s = owned("EMAIL#");
    s.append(email);
    s
}

/// A year as keys hold it: at least four digits, and with a sign where more.
pub open spec fn year_text(year: u32) -> Seq<char> {
    if year < 10 {
        "000"@ + dec_nat(year as nat)
    } else if year < 100 {
        "00"@ + dec_nat(year as nat)
    } else if year < 1000 {
        "0"@ + dec_nat(year as nat)
    } else if year < 10_000 {
        dec_nat(year as nat)
    } else {
        "+"@ + dec_nat(year as nat)
    }
}

/// The key of the usage in a month: `USAGE#`, the year, a dash, and the month with
/// two digits.
pub fn usage_sk(year: u32, month: u32) -> (r: String)
    requires
        1 <= month <= 12,
    ensures
        r@ == "USAGE#"@ + year_text(year) + "-"@ + (if month < 10 {
            "0"@ + dec_nat(month as nat)
        } else {
            dec_nat(month as nat)
        }),
{
    let mut key = owned("USAGE#");
    let digits = u64_text(year as u64);
    let mut text = owned(
        if year < 10 {
            "000"
        } else if year < 100 {
            "00"
        } else if year < 1000 {
            "0"
        } else if year < 10_000 {
            ""
        } else {
            "+"
        },
    );
    text.append(digits.as_str());
    proof {
        reveal_strlit("");
        assert(""@ + dec_nat(year as nat) =~= dec_nat(year as nat));
    }
    key.append(text.as_str());
    key.append("-");
    let mut number = owned(
        if month < 10 {
            "0"
        } else {
            ""
        },
    );
    number.append(u64_text(month as u64).as_str());
    assert(""@ + dec_nat(month as nat) =~= dec_nat(month as nat));
    key.append(number.as_str());
    key
}

/// A counter of a stored usage row; unreadable counters are zero.
pub open spec fn counter(item: ItemView, key: Seq<char>) -> u32 {
    match number_attr(item, key) {
        Some(text) => match unsigned_value(text, u32::MAX as nat) {
            Some(n) => n as u32,
            None => 0,
        },
        None => 0,
    }
}

fn read_counter(item: &Item, key: &str) -> (r: u32)
    requires
        item.wf(),
    ensures
        r == counter(viewed(*item), key@),
{
    match get_n(item, key) {
        Some(text) => match parse_u32(text.as_str()) {
            Some(n) => n,
            None => 0,
        },
        None => 0,
    }
}

/// What a stored usage row says.
pub fn usage_from_item(item: &Item) -> (r: PlanUsage)
    requires
        item.wf(),
    ensures
        r == (PlanUsage {
            analyses_count: counter(viewed(*item), "analyses_count"@),
            lines_count: counter(viewed(*item), "lines_count"@),
            purchasing_actions_count: counter(viewed(*item), "purchasing_actions_count"@),
            orders_count: counter(viewed(*item), "orders_count"@),
            active_boms_count: 0,
        }),
{
    PlanUsage {
        analyses_count: read_counter(item, "analyses_count"),
        lines_count: read_counter(item, "lines_count"),
        purchasing_actions_count: read_counter(item, "purchasing_actions_count"),
        orders_count: read_counter(item, "orders_count"),
        active_boms_count: 0,
    }
}

/// An email as grants are kept under: trimmed, in lower case, at least five
/// bytes long, with an `@` and a dot.
pub open spec fn grant_email(email: Seq<char>) -> Option<Seq<char>> {
    plausible_email(lowercase(trimmed(email)))
}

/// A text that can be an email: at least five bytes, with an `@` and a dot.
pub open spec fn plausible_email(e: Seq<char>) -> Option<Seq<char>> {
    if encode_utf8(e).len() < 5 || !e.contains('@') || !e.contains('.') {
        None
    } else {
        Some(e)
    }
}

/// An email as grants are kept under.
pub fn normalize_grant_email(email: &str) -> (r: Result<String, String>)
    ensures
        match grant_email(email@) {
            Some(e) => r is Ok && r->Ok_0@ == e,
            None => r is Err && r->Err_0@ == "invalid email"@,
        },
        is_ascii_chars(trimmed(email@)) ==> match plausible_email(ascii_lower(trimmed(email@))) {
            Some(e) => r is Ok && r->Ok_0@ == e,
            None => r is Err && r->Err_0@ == "invalid email"@,
        },
{
    let e = to_lowercase(trim(email).as_str());
    if e.as_str().as_bytes().len() < 5 || !has_char(e.as_str(), '@') || !has_char(e.as_str(), '.') {
        return Err(owned("invalid email"));
    }
    Ok(e)
}

/// An address of the operating company.
pub open spec fn is_operator(email: Option<Seq<char>>) -> bool {
    match email {
        Some(e) => !is_blank(e) && "@prokuro.ai"@.is_suffix_of(ascii_lower(trimmed(e))),
        None => false,
    }
}

/// Whether the address belongs to the operating company.
pub fn is_operator_email(email: Option<&str>) -> (r: bool)
    ensures
        r == is_operator(email.deep_view()),
{
    match email {
        Some(e) => {
            let t = trim(e);
            !t.as_str().is_empty() && ends_with(to_ascii_lower(t.as_str()).as_str(), "@prokuro.ai")
        },
        None => false,
    }
}

/// A record that was stored is read back as it was: the account, the plan and its state,
/// who pays, and until when.
pub proof fn stored_records_are_read_back(record: &BillingRecord, item: Item, r: BillingRecord)
    requires
        call_ensures(billing_record_item, (record,), item),
        call_ensures(record_from_item, (&item,), r),
    ensures
        r@.account_id == record@.account_id,
        r@.plan == record@.plan,
        r@.status == record@.status,
        r@.email == record@.email,
        r@.stripe_customer_id == record@.stripe_customer_id,
        r@.stripe_subscription_id == record@.stripe_subscription_id,
        r@.current_period_end == record@.current_period_end,
{
    record_round_trip(record@);
}

proof fn item_keys_differ()
    ensures
        "pk"@ != "sk"@,
        "pk"@ != "account_id"@,
        "pk"@ != "plan"@,
        "pk"@ != "status"@,
        "pk"@ != "email"@,
        "pk"@ != "stripe_customer_id"@,
        "pk"@ != "stripe_subscription_id"@,
        "pk"@ != "current_period_end"@,
        "pk"@ != "admin_expires_at"@,
        "pk"@ != "admin_note"@,
        "sk"@ != "account_id"@,
        "sk"@ != "plan"@,
        "sk"@ != "status"@,
        "sk"@ != "email"@,
        "sk"@ != "stripe_customer_id"@,
        "sk"@ != "stripe_subscription_id"@,
        "sk"@ != "current_period_end"@,
        "sk"@ != "admin_expires_at"@,
        "sk"@ != "admin_note"@,
        "account_id"@ != "plan"@,
        "account_id"@ != "status"@,
        "plan"@ != "status"@,
        "status"@ != "email"@,
        "plan"@ != "email"@,
        "plan"@ != "admin_note"@,
        "plan"@ != "admin_expires_at"@,
        "admin_note"@ != "admin_expires_at"@,
        "status"@ != "stripe_customer_id"@,
        "status"@ != "stripe_subscription_id"@,
        "status"@ != "current_period_end"@,
        "plan"@ != "stripe_customer_id"@,
        "plan"@ != "stripe_subscription_id"@,
        "plan"@ != "current_period_end"@,
{
    reveal_strlit("pk");
    reveal_strlit("sk");
    reveal_strlit("account_id");
    reveal_strlit("plan");
    reveal_strlit("status");
    reveal_strlit("email");
    reveal_strlit("stripe_customer_id");
    reveal_strlit("stripe_subscription_id");
    reveal_strlit("current_period_end");
    reveal_strlit("admin_expires_at");
    reveal_strlit("admin_note");
    assert("pk"@.len() == 2 && "pk"@[0] == 'p');
    assert("sk"@.len() == 2 && "sk"@[0] == 's');
    assert("account_id"@.len() == 10);
    assert("plan"@.len() == 4);
    assert("status"@.len() == 6);
    assert("email"@.len() == 5);
    assert("stripe_customer_id"@.len() == 18);
    assert("stripe_subscription_id"@.len() == 22);
    assert("current_period_end"@.len() == 18);
    assert("admin_expires_at"@.len() == 16);
    assert("admin_note"@.len() == 10);
}

/// Where a record, a plan given by hand and an email grant are kept: each under its
/// owner, and each under a name of its own, so that none takes the place of another.
pub proof fn items_have_their_places(
    record: &BillingRecord,
    account_id: &str,
    email: &str,
    plan: BillingPlan,
    expires_at: Option<&str>,
    note: Option<&str>,
    a: Item,
    b: Item,
    c: Item,
)
    requires
        call_ensures(billing_record_item, (record,), a),
        call_ensures(plan_override_item, (account_id, plan, expires_at, note), b),
        call_ensures(email_grant_item, (email, expires_at), c),
    ensures
        text_attr(viewed(a), "pk"@) == Some("ACCOUNT#"@ + record@.account_id),
        text_attr(viewed(a), "sk"@) == Some("BILLING"@),
        text_attr(viewed(b), "pk"@) == Some("ACCOUNT#"@ + account_id@),
        text_attr(viewed(b), "sk"@) == Some("PLAN_OVERRIDE"@),
        text_attr(viewed(c), "pk"@) == Some("EMAIL#"@ + email@),
        text_attr(viewed(c), "sk"@) == Some("GRANT"@),
        record@.plan == BillingPlan::Scale ==> text_attr(viewed(a), "plan"@) == Some("scale"@),
        record@.plan == BillingPlan::Growth ==> text_attr(viewed(a), "plan"@) == Some("growth"@),
        record@.plan == BillingPlan::Free ==> text_attr(viewed(a), "plan"@) == Some("free"@),
        record@.status == BillingStatus::Active ==> text_attr(viewed(a), "status"@) == Some("active"@),
        record@.status == BillingStatus::Trialing ==> text_attr(viewed(a), "status"@) == Some("trialing"@),
        record@.status == BillingStatus::PastDue ==> text_attr(viewed(a), "status"@) == Some("past_due"@),
        record@.status == BillingStatus::Canceled ==> text_attr(viewed(a), "status"@) == Some("canceled"@),
        record@.status == BillingStatus::Inactive ==> text_attr(viewed(a), "status"@) == Some("none"@),
{
    item_keys_differ();
}

/// A plan given by hand that was stored is read back as it was; giving the free plan is
/// giving none.
pub proof fn stored_plans_are_read_back(
    account_id: &str,
    plan: BillingPlan,
    expires_at: Option<&str>,
    note: Option<&str>,
    item: Item,
    r: Option<PlanOverride>,
)
    requires
        call_ensures(plan_override_item, (account_id, plan, expires_at, note), item),
        call_ensures(plan_override_from_item, (&item,), r),
    ensures
        plan != BillingPlan::Free ==> r is Some && r->0@.plan == plan && r->0@.expires_at
            == expires_at.deep_view() && r->0@.note == note.deep_view(),
        plan == BillingPlan::Free ==> r is None,
{
    item_keys_differ();
    if plan != BillingPlan::Free {
        override_round_trip(
            account_id@,
            PlanOverrideView { plan, expires_at: expires_at.deep_view(), note: note.deep_view() },
        );
    } else {
        reveal_strlit("free");
        reveal_strlit("growth");
        reveal_strlit("scale");
        assert("free"@.len() == 4);
        assert("growth"@.len() == 6);
        assert("scale"@.len() == 5);
        assert(text_attr(viewed(item), "plan"@) == Some("free"@));
    }
}

/// An email grant is read back as the large plan until its end.
pub proof fn email_grants_give_the_large_plan(email: &str, expires_at: Option<&str>, item: Item, r: Option<PlanOverride>)
    requires
        call_ensures(email_grant_item, (email, expires_at), item),
        call_ensures(plan_override_from_item, (&item,), r),
    ensures
        r is Some,
        r->0@.plan == BillingPlan::Scale,
        r->0@.expires_at == expires_at.deep_view(),
        r->0@.note == Some(email@),
{
    item_keys_differ();
    override_round_trip(
        email@,
        PlanOverrideView {
            plan: BillingPlan::Scale,
            expires_at: expires_at.deep_view(),
            note: Some(email@),
        },
    );
}

/// The names of the paid plans are read, and no other.
pub proof fn paid_plans_are_read(text: &Option<String>, r: Option<BillingPlan>)
    requires
        call_ensures(parse_paid_plan, (text,), r),
    ensures
        r == Some(BillingPlan::Scale) <==> text.deep_view() == Some("scale"@),
        r == Some(BillingPlan::Growth) <==> text.deep_view() == Some("growth"@),
        r != Some(BillingPlan::Free),
{
    reveal_strlit("growth");
    reveal_strlit("scale");
    assert("growth"@.len() == 6);
    assert("scale"@.len() == 5);
}

/// A new record is on no paid plan and has paid for nothing.
pub proof fn new_records_are_free(account_id: &str, email: &Option<String>, r: BillingRecord)
    requires
        call_ensures(new_record, (account_id, email), r),
    ensures
        r@.account_id == account_id@,
        r@.email == email.deep_view(),
        r@.plan == BillingPlan::Free,
        r@.status == BillingStatus::Inactive,
        r@.stripe_customer_id is None,
        r@.stripe_subscription_id is None,
        r@.current_period_end is None,
{
}

/// Each counter is read from its own attribute, and one that is missing is zero.
pub proof fn counters_are_read(item: &Item, r: PlanUsage, n: u32)
    requires
        item.wf(),
        call_ensures(usage_from_item, (item,), r),
    ensures
        number_attr(viewed(*item), "analyses_count"@) == Some(dec_nat(n as nat)) ==> r.analyses_count == n,
        number_attr(viewed(*item), "lines_count"@) == Some(dec_nat(n as nat)) ==> r.lines_count == n,
        number_attr(viewed(*item), "purchasing_actions_count"@) == Some(dec_nat(n as nat))
            ==> r.purchasing_actions_count == n,
        number_attr(viewed(*item), "orders_count"@) == Some(dec_nat(n as nat)) ==> r.orders_count == n,
        number_attr(viewed(*item), "analyses_count"@) is None ==> r.analyses_count == 0,
        number_attr(viewed(*item), "lines_count"@) is None ==> r.lines_count == 0,
        number_attr(viewed(*item), "purchasing_actions_count"@) is None ==> r.purchasing_actions_count == 0,
        number_attr(viewed(*item), "orders_count"@) is None ==> r.orders_count == 0,
{
    crate::text::number::dec_nat_value(n as nat);
}

/// Every address at the company runs the service, however it is spelled and with blanks
/// around it; an address elsewhere does not.
pub proof fn company_addresses_are_operators(email: &str, r: bool, name: Seq<char>)
    requires
        call_ensures(is_operator_email, (Some(email),), r),
    ensures
        trimmed(email@) == name + "@prokuro.ai"@ ==> r,
        trimmed(email@) == name + "@PROKURO.AI"@ ==> r,
        trimmed(email@).len() < 11 ==> !r,
        trimmed(email@).len() > 0 && trimmed(email@).last() != 'i' && trimmed(email@).last() != 'I' ==> !r,
        r ==> trimmed(email@).contains('@'),
{
    reveal_strlit("@prokuro.ai");
    reveal_strlit("@PROKURO.AI");
    let dom = "@prokuro.ai"@;
    let big = "@PROKURO.AI"@;
    assert(dom.len() == 11 && dom[0] == '@' && dom[10] == 'i');
    assert(big.len() == 11);
    let t = trimmed(email@);
    let low = ascii_lower(t);
    assert(ascii_lower(dom) =~= dom);
    assert(ascii_lower(big) =~= dom);
    if t == name + dom {
        assert(low =~= ascii_lower(name) + dom);
    }
    if t == name + big {
        assert(low =~= ascii_lower(name) + dom);
    }
    if r {
        let k = low.len() - dom.len();
        assert(low.subrange(k, low.len() as int) == dom);
        assert(low[k] == low.subrange(k, low.len() as int)[0]);
        assert(low[low.len() - 1] == low.subrange(k, low.len() as int)[10]);
        assert(t[k] == '@');
    }
}

/// Nobody who gives no address runs the service.
pub proof fn nameless_users_are_no_operators(r: bool)
    requires
        call_ensures(is_operator_email, (None::<&str>,), r),
    ensures
        !r,
{
}

/// Two spellings of one plain address are one address for grants, and what is no address
/// is refused.
pub proof fn grants_ignore_spelling(a: &str, b: &str, x: Result<String, String>, y: Result<String, String>)
    requires
        call_ensures(normalize_grant_email, (a,), x),
        call_ensures(normalize_grant_email, (b,), y),
        is_ascii_chars(trimmed(a@)),
        is_ascii_chars(trimmed(b@)),
        crate::text::case::eq_ascii_case(trimmed(a@), trimmed(b@)),
    ensures
        x is Ok <==> y is Ok,
        x is Ok ==> x->Ok_0@ == y->Ok_0@,
        x is Ok ==> x->Ok_0@ == ascii_lower(trimmed(a@)) && x->Ok_0@.contains('@') && x->Ok_0@.contains('.'),
        x is Err ==> x->Err_0@ == "invalid email"@,
{
}

/// The usage of a month is kept under that month: the year with four digits, the month
/// with two, so that the keys of a year follow its months.
pub proof fn usage_is_kept_by_month(year: u32, month: u32, r: String)
    requires
        1 <= month <= 12,
        1000 <= year <= 9999,
        call_ensures(usage_sk, (year, month), r),
    ensures
        month < 10 ==> r@ == "USAGE#"@ + dec_nat(year as nat) + "-"@ + ("0"@ + dec_nat(month as nat)),
        month >= 10 ==> r@ == "USAGE#"@ + dec_nat(year as nat) + "-"@ + dec_nat(month as nat),
{
}

} // verus!
