//! Signed events of the payment service.

use vstd::prelude::*;
use vstd::string::*;
use vstd::utf8::*;

use super::records::{paid_plan, parse_paid_plan, plan_str, plan_text, BillingRecord, BillingRecordView};
use super::status::{timestamp_of, unix_timestamp_to_rfc3339};
use crate::clock::{utc_now, MAX_SECS};
use crate::json::{
    as_int, as_text, get_view, int_of, is_text, pointer_index, pointer_view, text_of, Json, JsonView,
};
use crate::model::purchasing::{BillingPlan, BillingStatus};
use crate::text::number::{parse_i64, signed_value};
use crate::text::search::{list_has, split, split_at_char, split_once, split_once_at};
use crate::text::{owned, same, trim, trimmed};

verus! {

/// How far a signature's timestamp may lie from the present, in seconds.
pub const WEBHOOK_TOLERANCE_SECS: i64 = 300;

/// The HMAC-SHA256 of a message under a key.
pub uninterp spec fn hmac_sha256(key: Seq<u8>, message: Seq<u8>) -> Seq<u8>;

/// `hmac::Hmac` over `sha2::Sha256`: the code of a message under a key of any
/// length. The code is not stated beyond the name and its 32 bytes.
#[verifier::external_body]
fn hmac_code(key: &[u8], message: &[u8]) -> (r: Vec<u8>)
    ensures
        r@ == hmac_sha256(key@, message@),
        r@.len() == 32,
{
    let mut mac = <hmac::Hmac<sha2::Sha256> as hmac::Mac>::new_from_slice(key).unwrap();
    hmac::Mac::update(&mut mac, message);
    hmac::Mac::finalize(mac).into_bytes().to_vec()
}

/// A hexadecimal digit in lower case.
pub open spec fn hex_digit(n: int) -> char {
    if n < 10 {
        (n + '0' as int) as char
    } else {
        (n - 10 + 'a' as int) as char
    }
}

/// Two hexadecimal digits for each byte.
pub open spec fn hex_text(bytes: Seq<u8>) -> Seq<char> {
    Seq::new(
        bytes.len() * 2,
        |i: int|
            if i % 2 == 0 {
                hex_digit(bytes[i / 2] as int / 16)
            } else {
                hex_digit(bytes[i / 2] as int % 16)
            },
    )
}

/// `hex::encode`: two lower-case hexadecimal digits for each byte, the high
/// half first.
#[verifier::external_body]
fn hex_encode(bytes: &[u8]) -> (r: String)
    ensures
        r@ == hex_text(bytes@),
{
    hex::encode(bytes)
}

/// A part of a signature header: a key and a value around the first `=`.
pub open spec fn key_value(part: Seq<char>) -> (Seq<char>, Seq<char>) {
    match split_once_at(part, '=') {
        Some((key, value)) => (trimmed(key), trimmed(value)),
        None => (trimmed(part), Seq::empty()),
    }
}

/// The value of the last part with that key.
pub open spec fn last_value(parts: Seq<Seq<char>>, key: Seq<char>) -> Option<Seq<char>>
    decreases parts.len(),
{
    if parts.len() == 0 {
        None
    } else if key_value(parts.last()).0 == key {
        Some(key_value(parts.last()).1)
    } else {
        last_value(parts.drop_last(), key)
    }
}

/// Some part has that key and that value.
pub open spec fn has_value(parts: Seq<Seq<char>>, key: Seq<char>, value: Seq<char>) -> bool {
    exists|i: int| 0 <= i < parts.len() && #[trigger] key_value(parts[i]) == (key, value)
}

/// The signature of a body signed at a time.
pub open spec fn expected_signature(
    secret: Seq<char>,
    timestamp: Seq<char>,
    body: Seq<u8>,
) -> Seq<char> {
    hex_text(hmac_sha256(encode_utf8(secret), encode_utf8(timestamp) + encode_utf8("."@) + body))
}

/// Why a signature is refused; nothing where it is accepted. The header needs a
/// readable time within the tolerance of the present, and one `v1` value that
/// is the signature of the time and the body under the secret.
pub open spec fn signature_fault(
    header: Option<Seq<char>>,
    body: Seq<u8>,
    secret: Seq<char>,
    now: i64,
) -> Option<Seq<char>> {
    match header {
        None => Some("missing Stripe-Signature"@),
        Some(text) => {
            let parts = split_at_char(text, ',');
            match last_value(parts, "t"@) {
                None => Some("Stripe-Signature missing t"@),
                Some(timestamp) => match signed_value(timestamp, i64::MIN as int, i64::MAX as int) {
                    None => Some("Stripe-Signature has invalid t"@),
                    Some(signed_at) => if now - signed_at > WEBHOOK_TOLERANCE_SECS || signed_at - now
                        > WEBHOOK_TOLERANCE_SECS {
                        Some("Stripe signature outside tolerance window"@)
                    } else if has_value(parts, "v1"@, expected_signature(secret, timestamp, body)) {
                        None
                    } else {
                        Some("invalid Stripe signature"@)
                    },
                },
            }
        },
    }
}

/// A refusal's text; nothing where there was none.
pub open spec fn fault_view(r: Result<(), String>) -> Option<Seq<char>> {
    match r {
        Ok(_) => None,
        Err(e) => Some(e@),
    }
}

fn concat_bytes(a: &[u8], b: &[u8], c: &[u8]) -> (r: Vec<u8>)
    ensures
        r@ == a@ + b@ + c@,
{
    let mut out: Vec<u8> = Vec::new();
    out.extend_from_slice(a);
    out.extend_from_slice(b);
    out.extend_from_slice(c);
    assert(out@ =~= a@ + b@ + c@);
    out
}

/// Checks a signature header against a body, at that time in Unix seconds.
pub fn verify_stripe_signature_at(
    header: Option<&str>,
    body: &[u8],
    secret: &str,
    now: i64,
) -> (r: Result<(), String>)
    ensures
        fault_view(r) == signature_fault(header.deep_view(), body@, secret@, now),
{
    let header = match header {
        Some(h) => h,
        None => {
            return Err(owned("missing Stripe-Signature"));
        },
    };
    let parts = split(header, ',');
    let ghost all = parts.deep_view();
    proof {
        reveal_strlit("t");
        reveal_strlit("v1");
        assert("t"@.len() == 1);
        assert("v1"@.len() == 2);
    }
    let mut timestamp: Option<String> = None;
    let mut signatures: Vec<String> = Vec::new();
    let mut i: usize = 0;
    while i < parts.len()
        invariant
            i <= parts@.len(),
            all == parts.deep_view(),
            timestamp.deep_view() == last_value(all.take(i as int), "t"@),
            forall|s: Seq<char>|
                has_value(all.take(i as int), "v1"@, s) <==> #[trigger] signatures.deep_view().contains(
                    s,
                ),
            "t"@ != "v1"@,
        decreases parts@.len() - i,
    {
        let part = parts[i].as_str();
        let (key, value) = match split_once(part, '=') {
            Some((key, value)) => (trim(key.as_str()), trim(value.as_str())),
            None => (trim(part), String::new()),
        };
        assert(key_value(all[i as int]) == (key@, value@));
        let ghost before = signatures.deep_view();
        proof {
            assert(all.take(i + 1).drop_last() =~= all.take(i as int));
            assert(all.take(i + 1).last() == all[i as int]);
            has_value_grows(all, i as int, "v1"@);
        }
        if same(key.as_str(), "t") {
            timestamp = Some(value);
        } else if same(key.as_str(), "v1") {
            let ghost v = value@;
            signatures.push(value);
            proof {
                assert(signatures.deep_view() =~= before.push(v));
                assert forall|s: Seq<char>|
                    has_value(all.take(i + 1), "v1"@, s) <==> #[trigger] signatures.deep_view().contains(
                        s,
                    ) by {
                    assert(before.push(v).contains(s) <==> before.contains(s) || s == v) by {
                        if before.contains(s) {
                            let j = choose|j: int| 0 <= j < before.len() && before[j] == s;
                            assert(before.push(v)[j] == s);
                        }
                        assert(before.push(v)[before.len() as int] == v);
                    }
                }
            }
        }
        i += 1;
    }
    assert(all.take(i as int) =~= all);
    let timestamp = match timestamp {
        Some(t) => t,
        None => {
            return Err(owned("Stripe-Signature missing t"));
        },
    };
    let signed_at: i64 = match parse_i64(timestamp.as_str()) {
        Some(n) => n,
        None => {
            return Err(owned("Stripe-Signature has invalid t"));
        },
    };
    let apart: i128 = now as i128 - signed_at as i128;
    if apart > 300 || apart < -300 {
        return Err(owned("Stripe signature outside tolerance window"));
    }
    let message = concat_bytes(timestamp.as_str().as_bytes(), ".".as_bytes(), body);
    let expected = hex_encode(hmac_code(secret.as_bytes(), &message).as_slice());
    let list: &[String] = signatures.as_slice();
    assert(list.deep_view() =~= signatures.deep_view());
    if list_has(list, expected.as_str()) {
        Ok(())
    } else {
        Err(owned("invalid Stripe signature"))
    }
}

proof fn has_value_grows(parts: Seq<Seq<char>>, n: int, key: Seq<char>)
    requires
        0 <= n < parts.len(),
    ensures
        forall|s: Seq<char>| #[trigger]
            has_value(parts.take(n + 1), key, s) <==> has_value(parts.take(n), key, s) || key_value(
                parts[n],
            ) == (key, s),
{
    let a = parts.take(n);
    let b = parts.take(n + 1);
    assert forall|s: Seq<char>| #[trigger]
        has_value(b, key, s) <==> has_value(a, key, s) || key_value(parts[n]) == (key, s) by {
        if has_value(b, key, s) {
            let i = choose|i: int| 0 <= i < b.len() && key_value(b[i]) == (key, s);
            if i < n {
                assert(a[i] == b[i]);
                assert(key_value(a[i]) == (key, s));
            } else {
                assert(b[i] == parts[n]);
            }
        }
        if has_value(a, key, s) {
            let i = choose|i: int| 0 <= i < a.len() && key_value(a[i]) == (key, s);
            assert(b[i] == a[i]);
        }
        assert(b[n] == parts[n]);
    }
}

/// Checks a signature header against a body, now.
pub fn verify_stripe_signature(header: Option<&str>, body: &[u8], secret: &str) -> (r: Result<
    (),
    String,
>)
    ensures
        exists|now: i64|
            0 <= now <= MAX_SECS && fault_view(r) == #[trigger] signature_fault(header.deep_view(), body@, secret@, now),
{
    let now = utc_now();
    verify_stripe_signature_at(header, body, secret, now.secs)
}

/// A signature whose time lies outside the tolerance is never accepted,
/// whatever it signs.
pub proof fn replays_are_refused(header: Seq<char>, body: Seq<u8>, secret: Seq<char>, now: i64)
    ensures
        signature_fault(Some(header), body, secret, now) is None ==> {
            let t = last_value(split_at_char(header, ','), "t"@);
            let at = signed_value(t->0, i64::MIN as int, i64::MAX as int);
            &&& t is Some
            &&& at is Some
            &&& now - WEBHOOK_TOLERANCE_SECS <= at->0 <= now + WEBHOOK_TOLERANCE_SECS
            &&& has_value(
                split_at_char(header, ','),
                "v1"@,
                expected_signature(secret, t->0, body),
            )
        },
{
}

/// An event of the payment service.
#[derive(Debug)]
pub struct StripeEvent {
    pub id: String,
    pub kind: String,
    pub object: Json,
}

/// The content of an event.
#[verifier::ext_equal]
pub struct StripeEventView {
    pub id: Seq<char>,
    pub kind: Seq<char>,
    pub object: JsonView,
}

impl View for StripeEvent {
    type V = StripeEventView;

    open spec fn view(&self) -> StripeEventView {
        StripeEventView { id: self.id@, kind: self.kind@, object: self.object@ }
    }
}

/// The kinds of event that change a subscription.
pub open spec fn is_subscription_event(kind: Seq<char>) -> bool {
    ||| kind == "checkout.session.completed"@
    ||| kind == "customer.subscription.created"@
    ||| kind == "customer.subscription.updated"@
    ||| kind == "customer.subscription.deleted"@
}

/// Whether an event of that kind changes a subscription.
pub fn changes_subscription(kind: &str) -> (r: bool)
    ensures
        r == is_subscription_event(kind@),
{
    same(kind, "checkout.session.completed") || same(kind, "customer.subscription.created") || same(
        kind,
        "customer.subscription.updated",
    ) || same(kind, "customer.subscription.deleted")
}

/// The state of a subscription as the payment service names it. A state that is
/// not known to entitle does not.
pub open spec fn subscription_state(status: Option<Seq<char>>) -> BillingStatus {
    if status == Some("trialing"@) {
        BillingStatus::Trialing
    } else if status == Some("active"@) {
        BillingStatus::Active
    } else if status == Some("past_due"@) {
        BillingStatus::PastDue
    } else if status == Some("canceled"@) || status == Some("unpaid"@) || status == Some(
        "incomplete_expired"@,
    ) {
        BillingStatus::Canceled
    } else {
        BillingStatus::Inactive
    }
}

/// The state of a subscription as the payment service names it.
pub fn subscription_status(status: Option<&str>) -> (r: BillingStatus)
    ensures
        r == subscription_state(status.deep_view()),
{
    match status {
        Some(s) => if same(s, "trialing") {
            BillingStatus::Trialing
        } else if same(s, "active") {
            BillingStatus::Active
        } else if same(s, "past_due") {
            BillingStatus::PastDue
        } else if same(s, "canceled") || same(s, "unpaid") || same(s, "incomplete_expired") {
            BillingStatus::Canceled
        } else {
            BillingStatus::Inactive
        },
        None => BillingStatus::Inactive,
    }
}

/// A checkout session entitles once its payment is settled, not before.
pub open spec fn session_state(session: JsonView) -> BillingStatus {
    let payment = text_of(get_view(session, "payment_status"@));
    if payment == Some("paid"@) || payment == Some("no_payment_required"@) {
        BillingStatus::Active
    } else {
        BillingStatus::Inactive
    }
}

/// A checkout session entitles once its payment is settled, not before.
pub fn checkout_session_status(session: &Json) -> (r: BillingStatus)
    ensures
        r == session_state(session@),
{
    let payment = session.get("payment_status");
    if is_text(payment, "paid") || is_text(payment, "no_payment_required") {
        BillingStatus::Active
    } else {
        BillingStatus::Inactive
    }
}

/// The first of two values that is there at all.
pub open spec fn first_of(a: Option<JsonView>, b: Option<JsonView>) -> Option<JsonView> {
    if a is Some {
        a
    } else {
        b
    }
}

/// The account that an event names.
pub open spec fn event_account(object: JsonView) -> Option<Seq<char>> {
    text_of(
        first_of(
            get_view(object, "client_reference_id"@),
            pointer_view(object, seq!["metadata"@, "account_id"@]),
        ),
    )
}

/// The customer that an event names.
pub open spec fn event_customer(object: JsonView) -> Option<Seq<char>> {
    text_of(get_view(object, "customer"@))
}

/// The event is about a subscription itself.
pub open spec fn about_subscription(object: JsonView) -> bool {
    text_of(get_view(object, "object"@)) == Some("subscription"@)
}

/// The subscription that an event names.
pub open spec fn event_subscription(object: JsonView) -> Option<Seq<char>> {
    if about_subscription(object) {
        text_of(get_view(object, "id"@))
    } else {
        text_of(get_view(object, "subscription"@))
    }
}

/// The price that an event names.
pub open spec fn event_price(object: JsonView) -> Option<Seq<char>> {
    text_of(
        first_of(
            first_of(
                pointer_view(object, seq!["items"@, "data"@, "0"@, "price"@, "id"@]),
                pointer_view(object, seq!["display_items"@, "0"@, "price"@, "id"@]),
            ),
            pointer_view(object, seq!["line_items"@, "data"@, "0"@, "price"@, "id"@]),
        ),
    )
}

/// The plan after an event: by its price, or where it names none, by the plan
/// in its metadata.
pub open spec fn event_plan(
    object: JsonView,
    price_growth: Seq<char>,
    price_scale: Seq<char>,
    before: BillingPlan,
) -> BillingPlan {
    match event_price(object) {
        Some(price) => if price == price_scale {
            BillingPlan::Scale
        } else if price == price_growth {
            BillingPlan::Growth
        } else {
            before
        },
        None => match paid_plan(text_of(pointer_view(object, seq!["metadata"@, "plan"@]))) {
            Some(plan) => plan,
            None => before,
        },
    }
}

/// The state after an event.
pub open spec fn event_status(event: StripeEventView) -> BillingStatus {
    if event.kind == "customer.subscription.deleted"@ {
        BillingStatus::Canceled
    } else if about_subscription(event.object) {
        subscription_state(text_of(get_view(event.object, "status"@)))
    } else {
        session_state(event.object)
    }
}

/// The value where there is one, else the other.
pub open spec fn or_else(a: Option<Seq<char>>, b: Option<Seq<char>>) -> Option<Seq<char>> {
    if a is Some {
        a
    } else {
        b
    }
}

/// The record of an account that is first heard of through an event.
pub open spec fn first_record(account_id: Seq<char>, object: JsonView) -> BillingRecordView {
    BillingRecordView {
        account_id,
        email: None,
        stripe_customer_id: event_customer(object),
        stripe_subscription_id: event_subscription(object),
        plan: BillingPlan::Free,
        status: BillingStatus::Inactive,
        current_period_end: None,
    }
}

/// A record after an event.
pub open spec fn record_after(
    record: BillingRecordView,
    event: StripeEventView,
    price_growth: Seq<char>,
    price_scale: Seq<char>,
) -> BillingRecordView {
    let object = event.object;
    let status = event_status(event);
    BillingRecordView {
        account_id: record.account_id,
        email: record.email,
        stripe_customer_id: or_else(event_customer(object), record.stripe_customer_id),
        stripe_subscription_id: or_else(event_subscription(object), record.stripe_subscription_id),
        plan: if status == BillingStatus::Canceled || status == BillingStatus::Inactive {
            BillingPlan::Free
        } else {
            event_plan(object, price_growth, price_scale, record.plan)
        },
        status,
        current_period_end: match int_of(get_view(object, "current_period_end"@)) {
            Some(secs) => timestamp_of(secs as i64),
            None => record.current_period_end,
        },
    }
}

/// The account that an event names.
pub fn account_of_event(event: &StripeEvent) -> (r: Option<String>)
    ensures
        r.deep_view() == event_account(event@.object),
{
    let path: [&str; 2] = ["metadata", "account_id"];
    assert(path.deep_view() =~= seq!["metadata"@, "account_id"@]);
    match event.object.get("client_reference_id") {
        Some(v) => as_text(Some(v)),
        None => as_text(event.object.pointer(&path)),
    }
}

/// The customer that an event names.
pub fn customer_of_event(event: &StripeEvent) -> (r: Option<String>)
    ensures
        r.deep_view() == event_customer(event@.object),
{
    as_text(event.object.get("customer"))
}

fn subscription_of_event(event: &StripeEvent) -> (r: Option<String>)
    ensures
        r.deep_view() == event_subscription(event@.object),
{
    if is_text(event.object.get("object"), "subscription") {
        as_text(event.object.get("id"))
    } else {
        as_text(event.object.get("subscription"))
    }
}

fn price_of_event(event: &StripeEvent) -> (r: Option<String>)
    ensures
        r.deep_view() == event_price(event@.object),
{
    let items: [&str; 5] = ["items", "data", "0", "price", "id"];
    let display: [&str; 4] = ["display_items", "0", "price", "id"];
    let lines: [&str; 5] = ["line_items", "data", "0", "price", "id"];
    assert(items.deep_view() =~= seq!["items"@, "data"@, "0"@, "price"@, "id"@]);
    assert(display.deep_view() =~= seq!["display_items"@, "0"@, "price"@, "id"@]);
    assert(lines.deep_view() =~= seq!["line_items"@, "data"@, "0"@, "price"@, "id"@]);
    match event.object.pointer(&items) {
        Some(v) => as_text(Some(v)),
        None => match event.object.pointer(&display) {
            Some(v) => as_text(Some(v)),
            None => as_text(event.object.pointer(&lines)),
        },
    }
}

/// The record of an account that is first heard of through an event.
pub fn record_from_event(account_id: &str, event: &StripeEvent) -> (r: BillingRecord)
    ensures
        r@ == first_record(account_id@, event@.object),
{
    BillingRecord {
        account_id: owned(account_id),
        email: None,
        stripe_customer_id: customer_of_event(event),
        stripe_subscription_id: subscription_of_event(event),
        plan: BillingPlan::Free,
        status: BillingStatus::Inactive,
        current_period_end: None,
    }
}

/// A record after an event.
pub fn apply_event(
    record: BillingRecord,
    event: &StripeEvent,
    price_growth: &str,
    price_scale: &str,
) -> (r: BillingRecord)
    ensures
        r@ == record_after(record@, event@, price_growth@, price_scale@),
{
    let mut record = record;
    let object = &event.object;
    let is_subscription = is_text(object.get("object"), "subscription");
    if let Some(customer_id) = customer_of_event(event) {
        record.stripe_customer_id = Some(customer_id);
    }
    if let Some(subscription_id) = subscription_of_event(event) {
        record.stripe_subscription_id = Some(subscription_id);
    }
    record.status = if same(event.kind.as_str(), "customer.subscription.deleted") {
        BillingStatus::Canceled
    } else if is_subscription {
        let status = as_text(object.get("status"));
        subscription_status(super::records::as_str_opt(&status))
    } else {
        checkout_session_status(object)
    };
    if let Some(secs) = as_int(object.get("current_period_end")) {
        record.current_period_end = unix_timestamp_to_rfc3339(secs);
    }
    match price_of_event(event) {
        Some(price) => {
            if same(price.as_str(), price_scale) {
                record.plan = BillingPlan::Scale;
            } else if same(price.as_str(), price_growth) {
                record.plan = BillingPlan::Growth;
            }
        },
        None => {
            let path: [&str; 2] = ["metadata", "plan"];
            assert(path.deep_view() =~= seq!["metadata"@, "plan"@]);
            if let Some(plan) = parse_paid_plan(&as_text(object.pointer(&path))) {
                record.plan = plan;
            }
        },
    }
    if matches!(record.status, BillingStatus::Canceled | BillingStatus::Inactive) {
        record.plan = BillingPlan::Free;
    }
    record
}

/// No event leaves a paid plan on a subscription that is not entitling.
pub proof fn unentitled_events_leave_free(
    record: BillingRecordView,
    event: StripeEventView,
    price_growth: Seq<char>,
    price_scale: Seq<char>,
)
    ensures
        ({
            let after = record_after(record, event, price_growth, price_scale);
            &&& after.plan != BillingPlan::Free ==> super::status::entitling(after.status)
            &&& after.account_id == record.account_id
            &&& after.email == record.email
        }),
{
}

/// Applying the same event again changes nothing more.
pub proof fn event_idempotent(
    record: BillingRecordView,
    event: StripeEventView,
    price_growth: Seq<char>,
    price_scale: Seq<char>,
)
    ensures
        ({
            let once = record_after(record, event, price_growth, price_scale);
            record_after(once, event, price_growth, price_scale) == once
        }),
{
}

/// The fields of an embedded checkout session.
pub open spec fn checkout_fields(
    customer_id: Seq<char>,
    price_id: Seq<char>,
    account_id: Seq<char>,
    plan: BillingPlan,
    return_url: Seq<char>,
) -> Seq<(Seq<char>, Seq<char>)> {
    seq![
        ("mode"@, "subscription"@),
        ("ui_mode"@, "embedded"@),
        ("return_url"@, return_url),
        ("customer"@, customer_id),
        ("line_items[0][price]"@, price_id),
        ("line_items[0][quantity]"@, "1"@),
        ("client_reference_id"@, account_id),
        ("metadata[account_id]"@, account_id),
        ("metadata[plan]"@, plan_text(plan)),
        ("subscription_data[metadata][account_id]"@, account_id),
        ("subscription_data[metadata][plan]"@, plan_text(plan)),
    ]
}

fn pair(a: &str, b: &str) -> (r: (String, String))
    ensures
        r.0@ == a@,
        r.1@ == b@,
{
    (owned(a), owned(b))
}

/// The fields of an embedded checkout session.
pub fn embedded_checkout_form(
    customer_id: &str,
    price_id: &str,
    account_id: &str,
    plan: BillingPlan,
    return_url: &str,
) -> (r: Vec<(String, String)>)
    ensures
        r.deep_view() == checkout_fields(customer_id@, price_id@, account_id@, plan, return_url@),
{
    let plan_name = plan_str(plan);
    let r = vec![
        pair("mode", "subscription"),
        pair("ui_mode", "embedded"),
        pair("return_url", return_url),
        pair("customer", customer_id),
        pair("line_items[0][price]", price_id),
        pair("line_items[0][quantity]", "1"),
        pair("client_reference_id", account_id),
        pair("metadata[account_id]", account_id),
        pair("metadata[plan]", plan_name),
        pair("subscription_data[metadata][account_id]", account_id),
        pair("subscription_data[metadata][plan]", plan_name),
    ];
    assert(r.deep_view() =~= checkout_fields(customer_id@, price_id@, account_id@, plan, return_url@));
    r
}

/// What is done next with a webhook whose books are kept elsewhere.
#[derive(Debug)]
pub enum WebhookStep {
    /// The webhook is answered with the error.
    Refuse(String),
    /// The webhook is answered; nothing else is to be done.
    Done,
    /// The event is to be claimed.
    Claim,
    /// The event is to be applied.
    Apply,
    /// The claim is to be given back, and the webhook is answered with the error.
    Release(String),
}

/// The first step for a webhook: it must have been admitted, and hold an event.
pub fn webhook_received(admitted: Result<(), String>, event: &Result<StripeEvent, String>) -> (r:
    WebhookStep)
    ensures
        match admitted {
            Err(error) => r == WebhookStep::Refuse(error),
            Ok(_) => match *event {
                Err(error) => r is Refuse && r->Refuse_0@ == "invalid webhook json: "@ + error@,
                Ok(event) => if is_subscription_event(event@.kind) {
                    r is Claim
                } else {
                    r is Done
                },
            },
        },
{
    match admitted {
        Err(error) => {
            return WebhookStep::Refuse(error);
        },
        Ok(()) => {},
    }
    match event {
        Err(error) => {
            let mut text = owned("invalid webhook json: ");
            text.append(error.as_str());
            WebhookStep::Refuse(text)
        },
        Ok(event) => if changes_subscription(event.kind.as_str()) {
            WebhookStep::Claim
        } else {
            WebhookStep::Done
        },
    }
}

/// The step after an event was claimed: one that was claimed before is not applied
/// again.
pub fn event_claimed(outcome: Result<bool, String>) -> (r: WebhookStep)
    ensures
        match outcome {
            Err(error) => r == WebhookStep::Refuse(error),
            Ok(fresh) => if fresh {
                r is Apply
            } else {
                r is Done
            },
        },
{
    match outcome {
        Err(error) => WebhookStep::Refuse(error),
        Ok(fresh) => if fresh {
            WebhookStep::Apply
        } else {
            WebhookStep::Done
        },
    }
}

/// The step after an event was applied: where that failed, the claim is given back
/// so that the event can come again.
pub fn event_applied(outcome: Result<(), String>) -> (r: WebhookStep)
    ensures
        match outcome {
            Err(error) => r == WebhookStep::Release(error),
            Ok(_) => r is Done,
        },
{
    match outcome {
        Err(error) => WebhookStep::Release(error),
        Ok(()) => WebhookStep::Done,
    }
}

/// The object names no price.
pub open spec fn names_no_price(object: JsonView) -> bool {
    &&& get_view(object, "items"@) is None
    &&& get_view(object, "display_items"@) is None
    &&& get_view(object, "line_items"@) is None
}

/// The field of a field.
pub open spec fn inner_field(object: JsonView, outer: Seq<char>, inner: Seq<char>) -> Option<JsonView> {
    match get_view(object, outer) {
        Some(v) => get_view(v, inner),
        None => None,
    }
}

/// The price of the first of a list of items.
pub open spec fn first_price(list: Option<JsonView>) -> Option<JsonView> {
    match list {
        Some(JsonView::Array(items)) => if items.len() > 0 {
            inner_field(items[0], "price"@, "id"@)
        } else {
            None
        },
        _ => None,
    }
}

/// The plan in the metadata of an object.
pub open spec fn metadata_plan(object: JsonView) -> Option<JsonView> {
    inner_field(object, "metadata"@, "plan"@)
}

proof fn zero_is_an_index()
    ensures
        pointer_index("0"@) == Some(0nat),
{
    reveal_strlit("0");
    let d = "0"@;
    assert(d.len() == 1 && d[0] == '0');
    assert(crate::text::number::is_digits(d));
    assert(d.drop_last() =~= Seq::<char>::empty());
    reveal_with_fuel(crate::text::number::digits_value, 2);
    assert(crate::text::number::digits_value(d) == 0);
}

proof fn two_steps(object: JsonView, a: Seq<char>, b: Seq<char>)
    ensures
        get_view(object, a) is None && object is Object ==> pointer_view(object, seq![a, b]) is None,
        inner_field(object, a, b) is Some ==> pointer_view(object, seq![a, b]) == inner_field(object, a, b),
        !(object is Object) && !(object is Array) ==> pointer_view(object, seq![a, b]) is None,
{
    reveal_with_fuel(pointer_view, 4);
    let path = seq![a, b];
    assert(path.drop_first() =~= seq![b]);
    assert(path.drop_first().drop_first() =~= Seq::<Seq<char>>::empty());
}

proof fn missing_step(object: JsonView, path: Seq<Seq<char>>)
    requires
        object is Object,
        path.len() > 0,
        get_view(object, path[0]) is None,
    ensures
        pointer_view(object, path) is None,
{
}

proof fn price_steps(object: JsonView)
    requires
        object is Object,
    ensures
        first_price(inner_field(object, "items"@, "data"@)) is Some ==> pointer_view(
            object,
            seq!["items"@, "data"@, "0"@, "price"@, "id"@],
        ) == first_price(inner_field(object, "items"@, "data"@)),
        first_price(get_view(object, "display_items"@)) is Some ==> pointer_view(
            object,
            seq!["display_items"@, "0"@, "price"@, "id"@],
        ) == first_price(get_view(object, "display_items"@)),
        first_price(inner_field(object, "line_items"@, "data"@)) is Some ==> pointer_view(
            object,
            seq!["line_items"@, "data"@, "0"@, "price"@, "id"@],
        ) == first_price(inner_field(object, "line_items"@, "data"@)),
{
    zero_is_an_index();
    reveal_with_fuel(pointer_view, 7);
    let p = seq!["items"@, "data"@, "0"@, "price"@, "id"@];
    let q = seq!["display_items"@, "0"@, "price"@, "id"@];
    let l = seq!["line_items"@, "data"@, "0"@, "price"@, "id"@];
    let tail = seq!["0"@, "price"@, "id"@];
    assert(p.drop_first().drop_first() =~= tail);
    assert(l.drop_first().drop_first() =~= tail);
    assert(q.drop_first() =~= tail);
    assert(tail.drop_first() =~= seq!["price"@, "id"@]);
    assert(tail.drop_first().drop_first() =~= seq!["id"@]);
    assert(tail.drop_first().drop_first().drop_first() =~= Seq::<Seq<char>>::empty());
}

proof fn plan_names_differ()
    ensures
        "growth"@ != "scale"@,
{
    reveal_strlit("growth");
    reveal_strlit("scale");
    assert("growth"@.len() == 6);
    assert("scale"@.len() == 5);
}

/// A customer who paid is on the plan that they paid for: an event without a price,
/// after which the account is entitled, puts it on the plan that its metadata names.
pub proof fn paid_plans_are_entitled(
    record: BillingRecord,
    event: &StripeEvent,
    price_growth: &str,
    price_scale: &str,
    r: BillingRecord,
)
    requires
        call_ensures(apply_event, (record, event, price_growth, price_scale), r),
        event@.object is Object,
        names_no_price(event@.object),
    ensures
        ({
            let entitled = r@.status == BillingStatus::Active || r@.status == BillingStatus::Trialing
                || r@.status == BillingStatus::PastDue;
            let plan = metadata_plan(event@.object);
            &&& entitled && plan == Some(JsonView::Text("growth"@)) ==> r@.plan == BillingPlan::Growth
            &&& entitled && plan == Some(JsonView::Text("scale"@)) ==> r@.plan == BillingPlan::Scale
            &&& entitled && (get_view(event@.object, "metadata"@) is None) ==> r@.plan == record@.plan
            &&& !entitled ==> r@.plan == BillingPlan::Free
        }),
{
    paid_events_set_the_plan(record@, event@, price_growth@, price_scale@);
}

/// The same of the contents of a record.
pub proof fn paid_events_set_the_plan(
    record: BillingRecordView,
    event: StripeEventView,
    price_growth: Seq<char>,
    price_scale: Seq<char>,
)
    requires
        event.object is Object,
        names_no_price(event.object),
    ensures
        ({
            let r = record_after(record, event, price_growth, price_scale);
            let entitled = r.status == BillingStatus::Active || r.status == BillingStatus::Trialing || r.status
                == BillingStatus::PastDue;
            let plan = metadata_plan(event.object);
            &&& entitled && plan == Some(JsonView::Text("growth"@)) ==> r.plan == BillingPlan::Growth
            &&& entitled && plan == Some(JsonView::Text("scale"@)) ==> r.plan == BillingPlan::Scale
            &&& entitled && (get_view(event.object, "metadata"@) is None) ==> r.plan == record.plan
            &&& !entitled ==> r.plan == BillingPlan::Free
        }),
{
    let object = event.object;
    plan_names_differ();
    two_steps(object, "metadata"@, "plan"@);
    missing_step(object, seq!["items"@, "data"@, "0"@, "price"@, "id"@]);
    missing_step(object, seq!["display_items"@, "0"@, "price"@, "id"@]);
    missing_step(object, seq!["line_items"@, "data"@, "0"@, "price"@, "id"@]);
}

/// Where an event names a price, the price decides: that of the large plan or of the
/// small one, and with any other the plan stays, whatever the metadata says. The price is
/// that of the first item, of the first display item, or of the first line item.
pub proof fn prices_decide_plans(
    record: BillingRecord,
    event: &StripeEvent,
    price_growth: &str,
    price_scale: &str,
    r: BillingRecord,
    price: Seq<char>,
)
    requires
        call_ensures(apply_event, (record, event, price_growth, price_scale), r),
        event@.object is Object,
        r@.status == BillingStatus::Active || r@.status == BillingStatus::Trialing || r@.status
            == BillingStatus::PastDue,
        ({
            let object = event@.object;
            ||| first_price(inner_field(object, "items"@, "data"@)) == Some(JsonView::Text(price))
            ||| get_view(object, "items"@) is None && first_price(get_view(object, "display_items"@))
                == Some(JsonView::Text(price))
            ||| get_view(object, "items"@) is None && get_view(object, "display_items"@) is None
                && first_price(inner_field(object, "line_items"@, "data"@)) == Some(
                JsonView::Text(price),
            )
        }),
    ensures
        price == price_scale@ ==> r@.plan == BillingPlan::Scale,
        price == price_growth@ && price != price_scale@ ==> r@.plan == BillingPlan::Growth,
        price != price_growth@ && price != price_scale@ ==> r@.plan == record@.plan,
{
    let object = event@.object;
    price_steps(object);
    if get_view(object, "items"@) is None {
        missing_step(object, seq!["items"@, "data"@, "0"@, "price"@, "id"@]);
    }
    if get_view(object, "display_items"@) is None {
        missing_step(object, seq!["display_items"@, "0"@, "price"@, "id"@]);
    }
}

proof fn states_differ()
    ensures
        "trialing"@ != "active"@,
        "trialing"@ != "past_due"@,
        "trialing"@ != "canceled"@,
        "trialing"@ != "unpaid"@,
        "trialing"@ != "incomplete_expired"@,
        "active"@ != "past_due"@,
        "active"@ != "canceled"@,
        "active"@ != "unpaid"@,
        "active"@ != "incomplete_expired"@,
        "past_due"@ != "canceled"@,
        "past_due"@ != "unpaid"@,
        "past_due"@ != "incomplete_expired"@,
        "incomplete"@ != "trialing"@,
        "incomplete"@ != "active"@,
        "incomplete"@ != "past_due"@,
        "paused"@ != "trialing"@,
        "paused"@ != "active"@,
        "paused"@ != "past_due"@,
{
    reveal_strlit("trialing");
    reveal_strlit("active");
    reveal_strlit("past_due");
    reveal_strlit("canceled");
    reveal_strlit("unpaid");
    reveal_strlit("incomplete_expired");
    reveal_strlit("incomplete");
    reveal_strlit("paused");
    assert("trialing"@.len() == 8 && "trialing"@[0] == 't');
    assert("active"@.len() == 6 && "active"@[0] == 'a');
    assert("past_due"@.len() == 8 && "past_due"@[0] == 'p');
    assert("canceled"@.len() == 8 && "canceled"@[0] == 'c');
    assert("unpaid"@.len() == 6 && "unpaid"@[0] == 'u');
    assert("incomplete_expired"@.len() == 18);
    assert("incomplete"@.len() == 10);
    assert("paused"@.len() == 6 && "paused"@[0] == 'p');
}

/// What a subscription is after an event is what the payment service says of it: it is
/// canceled once it is deleted; a subscription goes by its own status, of which only
/// three entitle; a checkout entitles once it is paid or needs no payment.
pub proof fn subscriptions_follow_the_service(
    record: BillingRecord,
    event: &StripeEvent,
    price_growth: &str,
    price_scale: &str,
    r: BillingRecord,
)
    requires
        call_ensures(apply_event, (record, event, price_growth, price_scale), r),
    ensures
        ({
            let object = event@.object;
            let deleted = event@.kind == "customer.subscription.deleted"@;
            let subscription = get_view(object, "object"@) == Some(JsonView::Text("subscription"@));
            let status = get_view(object, "status"@);
            let payment = get_view(object, "payment_status"@);
            let paid = payment == Some(JsonView::Text("paid"@)) || payment == Some(
                JsonView::Text("no_payment_required"@),
            );
            &&& deleted ==> r@.status == BillingStatus::Canceled && r@.plan == BillingPlan::Free
            &&& !deleted && subscription ==> {
                &&& r@.status == BillingStatus::Active <==> status == Some(JsonView::Text("active"@))
                &&& r@.status == BillingStatus::Trialing <==> status == Some(
                    JsonView::Text("trialing"@),
                )
                &&& r@.status == BillingStatus::PastDue <==> status == Some(JsonView::Text("past_due"@))
                &&& status == Some(JsonView::Text("canceled"@)) || status == Some(
                    JsonView::Text("unpaid"@),
                ) || status == Some(JsonView::Text("incomplete_expired"@)) <==> r@.status
                    == BillingStatus::Canceled
                &&& status is None || status == Some(JsonView::Text("incomplete"@)) || status == Some(
                    JsonView::Text("paused"@),
                ) ==> r@.plan == BillingPlan::Free
            }
            &&& !deleted && !subscription ==> (paid <==> r@.status == BillingStatus::Active) && (!paid
                <==> r@.status == BillingStatus::Inactive)
            &&& r@.plan != BillingPlan::Free ==> r@.status != BillingStatus::Canceled && r@.status
                != BillingStatus::Inactive
        }),
{
    states_differ();
}

/// An event fills in the customer, the subscription and the end of the period that it
/// names, and leaves those that it does not name, the account and its email as they were.
pub proof fn events_fill_in_records(
    record: BillingRecord,
    event: &StripeEvent,
    price_growth: &str,
    price_scale: &str,
    r: BillingRecord,
    customer: Seq<char>,
    subscription: Seq<char>,
)
    requires
        call_ensures(apply_event, (record, event, price_growth, price_scale), r),
    ensures
        r@.account_id == record@.account_id,
        r@.email == record@.email,
        get_view(event@.object, "customer"@) == Some(JsonView::Text(customer)) ==> r@.stripe_customer_id
            == Some(customer),
        get_view(event@.object, "customer"@) is None ==> r@.stripe_customer_id
            == record@.stripe_customer_id,
        get_view(event@.object, "object"@) == Some(JsonView::Text("subscription"@)) && get_view(
            event@.object,
            "id"@,
        ) == Some(JsonView::Text(subscription)) ==> r@.stripe_subscription_id == Some(subscription),
        get_view(event@.object, "object"@) != Some(JsonView::Text("subscription"@)) && get_view(
            event@.object,
            "subscription"@,
        ) == Some(JsonView::Text(subscription)) ==> r@.stripe_subscription_id == Some(subscription),
        get_view(event@.object, "object"@) != Some(JsonView::Text("subscription"@)) && get_view(
            event@.object,
            "subscription"@,
        ) is None ==> r@.stripe_subscription_id == record@.stripe_subscription_id,
        get_view(event@.object, "current_period_end"@) is None ==> r@.current_period_end
            == record@.current_period_end,
{
}

/// The end of a period comes as seconds since 1970 and is kept as the timestamp of that
/// second.
pub proof fn period_ends_are_dated(
    record: BillingRecord,
    event: &StripeEvent,
    price_growth: &str,
    price_scale: &str,
    r: BillingRecord,
    secs: i64,
)
    requires
        call_ensures(apply_event, (record, event, price_growth, price_scale), r),
        get_view(event@.object, "current_period_end"@) == Some(
            JsonView::Number(crate::text::number::dec_int(secs as int)),
        ),
        0 <= secs <= 253_402_300_799,
    ensures
        r@.current_period_end == Some(crate::clock::rfc3339_text(secs, 0)),
{
    crate::text::number::print_parse_i64(secs);
}

/// An event belongs to the account that it refers to, or where it refers to none, to
/// the one in its metadata.
pub proof fn events_name_accounts(event: &StripeEvent, r: Option<String>, id: Seq<char>)
    requires
        call_ensures(account_of_event, (event,), r),
        event@.object is Object,
    ensures
        get_view(event@.object, "client_reference_id"@) == Some(JsonView::Text(id)) ==> r.deep_view()
            == Some(id),
        get_view(event@.object, "client_reference_id"@) is None && inner_field(
            event@.object,
            "metadata"@,
            "account_id"@,
        ) == Some(JsonView::Text(id)) ==> r.deep_view() == Some(id),
        get_view(event@.object, "client_reference_id"@) is None && get_view(event@.object, "metadata"@) is None
            ==> r is None,
{
    two_steps(event@.object, "metadata"@, "account_id"@);
}

/// The record of an account that is first heard of through an event is not entitled to
/// anything yet.
pub proof fn first_records_are_free(account_id: &str, event: &StripeEvent, r: BillingRecord)
    requires
        call_ensures(record_from_event, (account_id, event), r),
    ensures
        r@.account_id == account_id@,
        r@.plan == BillingPlan::Free,
        r@.status == BillingStatus::Inactive,
        r@.email is None,
        r@.current_period_end is None,
{
}

/// The four kinds of event that touch a subscription are acted on, and no other.
pub proof fn other_events_are_left(kind: &str, r: bool)
    requires
        call_ensures(changes_subscription, (kind,), r),
    ensures
        kind@ == "checkout.session.completed"@ ==> r,
        kind@ == "customer.subscription.created"@ ==> r,
        kind@ == "customer.subscription.updated"@ ==> r,
        kind@ == "customer.subscription.deleted"@ ==> r,
        r ==> kind@ == "checkout.session.completed"@ || kind@ == "customer.subscription.created"@ || kind@
            == "customer.subscription.updated"@ || kind@ == "customer.subscription.deleted"@,
{
}

/// A checkout names what its event must name later: the account, both for the session
/// and in the metadata, and the plan; and it asks for one subscription at the price.
pub proof fn checkouts_name_account_and_plan(
    customer_id: &str,
    price_id: &str,
    account_id: &str,
    plan: BillingPlan,
    return_url: &str,
    r: Vec<(String, String)>,
)
    requires
        call_ensures(embedded_checkout_form, (customer_id, price_id, account_id, plan, return_url), r),
    ensures
        ({
            let form = r.deep_view();
            let name = if plan == BillingPlan::Scale {
                "scale"@
            } else if plan == BillingPlan::Growth {
                "growth"@
            } else {
                "free"@
            };
            &&& form.contains(("client_reference_id"@, account_id@))
            &&& form.contains(("metadata[account_id]"@, account_id@))
            &&& form.contains(("metadata[plan]"@, name))
            &&& form.contains(("subscription_data[metadata][account_id]"@, account_id@))
            &&& form.contains(("subscription_data[metadata][plan]"@, name))
            &&& form.contains(("customer"@, customer_id@))
            &&& form.contains(("line_items[0][price]"@, price_id@))
            &&& form.contains(("line_items[0][quantity]"@, "1"@))
            &&& form.contains(("mode"@, "subscription"@))
            &&& form.contains(("ui_mode"@, "embedded"@))
            &&& form.contains(("return_url"@, return_url@))
            &&& form.len() == 11
        }),
{
    let form = r.deep_view();
    assert(form[0] == ("mode"@, "subscription"@));
    assert(form[1] == ("ui_mode"@, "embedded"@));
    assert(form[2] == ("return_url"@, return_url@));
    assert(form[3] == ("customer"@, customer_id@));
    assert(form[4] == ("line_items[0][price]"@, price_id@));
    assert(form[5] == ("line_items[0][quantity]"@, "1"@));
    assert(form[6] == ("client_reference_id"@, account_id@));
    assert(form[7] == ("metadata[account_id]"@, account_id@));
    assert(form[8] == ("metadata[plan]"@, plan_text(plan)));
    assert(form[9] == ("subscription_data[metadata][account_id]"@, account_id@));
    assert(form[10] == ("subscription_data[metadata][plan]"@, plan_text(plan)));
}

/// A webhook goes through its steps in order: refused where it was not admitted or holds
/// no event, left where its event is of no concern, and else claimed first; only a claim
/// that is new is applied; and a claim is given back only where applying failed.
pub proof fn webhooks_go_step_by_step(
    admitted: Result<(), String>,
    event: &Result<StripeEvent, String>,
    first: WebhookStep,
    claim: Result<bool, String>,
    second: WebhookStep,
    applied: Result<(), String>,
    third: WebhookStep,
)
    requires
        call_ensures(webhook_received, (admitted, event), first),
        call_ensures(event_claimed, (claim,), second),
        call_ensures(event_applied, (applied,), third),
    ensures
        first is Claim ==> admitted is Ok && event is Ok,
        admitted is Err ==> first is Refuse && first->Refuse_0@ == admitted->Err_0@,
        admitted is Ok && event is Err ==> first is Refuse,
        admitted is Ok && event is Ok && event->Ok_0@.kind == "checkout.session.completed"@ ==> first is Claim,
        admitted is Ok && event is Ok && event->Ok_0@.kind == "customer.subscription.deleted"@
            ==> first is Claim,
        !(first is Apply) && !(first is Release),
        second is Apply <==> claim == Ok::<bool, String>(true),
        second is Done <==> claim == Ok::<bool, String>(false),
        second is Refuse <==> claim is Err,
        third is Done <==> applied is Ok,
        third is Release <==> applied is Err,
        applied is Err ==> third->Release_0@ == applied->Err_0@,
{
}

/// One part holds nothing of a separator.
pub open spec fn is_plain(s: Seq<char>) -> bool {
    &&& s.len() > 0
    &&& forall|i: int| 0 <= i < s.len() ==> '-' <= #[trigger] s[i] <= 'z' && s[i] != '='
}

proof fn plain_text_is_trimmed(s: Seq<char>)
    requires
        is_plain(s),
    ensures
        trimmed(s) == s,
        !s.contains(','),
        !s.contains('='),
{
    crate::text::trimming_takes_off_blanks(Seq::empty(), s, Seq::empty());
}

proof fn pair_is_split(key: Seq<char>, value: Seq<char>)
    requires
        is_plain(key),
        is_plain(value),
    ensures
        key_value(key + seq!['='] + value) == (key, value),
        !(key + seq!['='] + value).contains(','),
{
    let part = key + seq!['='] + value;
    let k = key.len() as int;
    plain_text_is_trimmed(key);
    plain_text_is_trimmed(value);
    assert(part[k] == '=');
    assert forall|j: int| 0 <= j < k implies part[j] != '=' by {
        assert(part[j] == key[j]);
    }
    crate::text::search::first_index_unique(part, '=', k);
    assert(part.take(k) =~= key);
    assert(part.skip(k + 1) =~= value);
    assert forall|j: int| 0 <= j < part.len() implies part[j] != ',' by {
        if j < k {
            assert(part[j] == key[j]);
        } else if j > k {
            assert(part[j] == value[j - k - 1]);
        }
    }
}

proof fn two_parts_are_split(a: Seq<char>, b: Seq<char>)
    requires
        !a.contains(','),
        !b.contains(','),
    ensures
        split_at_char(a + seq![','] + b, ',') == seq![a, b],
{
    let s = a + seq![','] + b;
    let k = a.len() as int;
    assert(s[k] == ',');
    assert forall|j: int| 0 <= j < k implies s[j] != ',' by {
        assert(s[j] == a[j]);
        assert(a.contains(a[j]));
    }
    crate::text::search::first_index_unique(s, ',', k);
    assert(s.take(k) =~= a);
    assert(s.skip(k + 1) =~= b);
    crate::text::search::first_index_is_first(b, ',');
    reveal_with_fuel(split_at_char, 2);
    assert(split_at_char(b, ',') =~= seq![b]);
    assert(seq![a] + seq![b] =~= seq![a, b]);
}

/// What is signed with the secret is accepted while it is fresh, and nothing else: a
/// header that gives a time and a signature passes where the time lies within five
/// minutes of now and the signature is that of the time, a dot and the body.
pub proof fn signed_bodies_are_accepted(
    header: &str,
    body: &[u8],
    secret: &str,
    now: i64,
    r: Result<(), String>,
    time: Seq<char>,
    signature: Seq<char>,
)
    requires
        call_ensures(verify_stripe_signature_at, (Some(header), body, secret, now), r),
        is_plain(time),
        is_plain(signature),
        header@ == "t"@ + seq!['='] + time + seq![','] + ("v1"@ + seq!['='] + signature),
    ensures
        ({
            let at = signed_value(time, i64::MIN as int, i64::MAX as int);
            let code = hex_text(
                hmac_sha256(encode_utf8(secret@), encode_utf8(time) + encode_utf8("."@) + body@),
            );
            r is Ok <==> at is Some && now - 300 <= at->0 <= now + 300 && signature == code
        }),
{
    reveal_strlit("t");
    reveal_strlit("v1");
    assert("t"@.len() == 1 && "t"@[0] == 't');
    assert("v1"@.len() == 2 && "v1"@[0] == 'v' && "v1"@[1] == '1');
    let a = "t"@ + seq!['='] + time;
    let b = "v1"@ + seq!['='] + signature;
    pair_is_split("t"@, time);
    pair_is_split("v1"@, signature);
    two_parts_are_split(a, b);
    let parts = seq![a, b];
    assert(parts.last() == b);
    assert(parts.drop_last() =~= seq![a]);
    assert(parts.drop_last().last() == a);
    reveal_with_fuel(last_value, 3);
    assert(last_value(parts, "t"@) == Some(time));
    let want = expected_signature(secret@, time, body@);
    assert(key_value(parts[0]) == ("t"@, time));
    assert(key_value(parts[1]) == ("v1"@, signature));
    assert(has_value(parts, "v1"@, want) <==> signature == want) by {
        if has_value(parts, "v1"@, want) {
            let i = choose|i: int| 0 <= i < parts.len() && #[trigger] key_value(parts[i]) == ("v1"@, want);
            assert(i == 0 || i == 1);
        }
    }
}

/// A body without a signature is refused.
pub proof fn unsigned_bodies_are_refused(body: &[u8], secret: &str, now: i64, r: Result<(), String>)
    requires
        call_ensures(verify_stripe_signature_at, (None, body, secret, now), r),
    ensures
        r is Err,
{
}

/// Two digits of a code give back the byte.
pub proof fn hex_digits_are_bytes(bytes: Seq<u8>, i: int)
    requires
        0 <= i < bytes.len(),
    ensures
        hex_text(bytes).len() == 2 * bytes.len(),
        bytes[i] == 0x00 ==> hex_text(bytes)[2 * i] == '0' && hex_text(bytes)[2 * i + 1] == '0',
        bytes[i] == 0x9a ==> hex_text(bytes)[2 * i] == '9' && hex_text(bytes)[2 * i + 1] == 'a',
        bytes[i] == 0xff ==> hex_text(bytes)[2 * i] == 'f' && hex_text(bytes)[2 * i + 1] == 'f',
        forall|other: Seq<u8>|
            other.len() == bytes.len() && #[trigger] hex_text(other) == hex_text(bytes) ==> other[i]
                == bytes[i],
{
    let h = hex_text(bytes);
    assert((2 * i) / 2 == i && (2 * i) % 2 == 0);
    assert((2 * i + 1) / 2 == i && (2 * i + 1) % 2 == 1);
    assert forall|other: Seq<u8>|
        other.len() == bytes.len() && #[trigger] hex_text(other) == hex_text(bytes) implies other[i]
        == bytes[i] by {
        let o = hex_text(other);
        assert(o[2 * i] == h[2 * i]);
        assert(o[2 * i + 1] == h[2 * i + 1]);
        digits_are_distinct(other[i] as int / 16, bytes[i] as int / 16);
        digits_are_distinct(other[i] as int % 16, bytes[i] as int % 16);
    }
}

proof fn digits_are_distinct(a: int, b: int)
    requires
        0 <= a < 16,
        0 <= b < 16,
        hex_digit(a) == hex_digit(b),
    ensures
        a == b,
{
}

/// Each state of a subscription has its name, and any other is none.
pub proof fn states_have_names(status: Option<&str>, r: BillingStatus)
    requires
        call_ensures(subscription_status, (status,), r),
    ensures
        r == BillingStatus::Active <==> status.deep_view() == Some("active"@),
        r == BillingStatus::Trialing <==> status.deep_view() == Some("trialing"@),
        r == BillingStatus::PastDue <==> status.deep_view() == Some("past_due"@),
        r == BillingStatus::Canceled <==> status.deep_view() == Some("canceled"@) || status.deep_view() == Some(
            "unpaid"@,
        ) || status.deep_view() == Some("incomplete_expired"@),
        status is None ==> r == BillingStatus::Inactive,
{
    states_differ();
}

/// A checkout entitles once it is paid, or needs no payment, and not before.
pub proof fn paid_checkouts_entitle(session: &Json, r: BillingStatus)
    requires
        call_ensures(checkout_session_status, (session,), r),
    ensures
        get_view(session@, "payment_status"@) == Some(JsonView::Text("paid"@)) ==> r == BillingStatus::Active,
        get_view(session@, "payment_status"@) == Some(JsonView::Text("no_payment_required"@)) ==> r
            == BillingStatus::Active,
        get_view(session@, "payment_status"@) is None ==> r == BillingStatus::Inactive,
        get_view(session@, "payment_status"@) == Some(JsonView::Text("unpaid"@)) ==> r == BillingStatus::Inactive,
{
    reveal_strlit("paid");
    reveal_strlit("unpaid");
    reveal_strlit("no_payment_required");
    assert("paid"@.len() == 4);
    assert("unpaid"@.len() == 6);
    assert("no_payment_required"@.len() == 19);
}

/// The customer of an event is the one that it names.
pub proof fn events_name_customers(event: &StripeEvent, r: Option<String>, customer: Seq<char>)
    requires
        call_ensures(customer_of_event, (event,), r),
    ensures
        get_view(event@.object, "customer"@) == Some(JsonView::Text(customer)) ==> r.deep_view() == Some(customer),
        get_view(event@.object, "customer"@) is None ==> r is None,
{
}

} // verus!
