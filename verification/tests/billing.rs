use hmac::Mac;
use prokuro::clock::parse_moment;
use prokuro::gateway::auth::{
    bearer_token, clean_name, identity_user, key_id, local_bypass_identity, require_manage_team,
    require_write, signing_key_id, user_from_claims, AuthConfig, AuthError, AuthUser, CognitoClaims,
    TeamRole,
};
use prokuro::gateway::billing::access::AccessRow;
use prokuro::gateway::billing::handlers::{
    admit_clear_plan, admit_grant, admit_operator, admit_payment, admit_revoke, admit_set_plan,
    checkout_price, customer_form, interest_action, parse_admin_plan, required_text, set_plan_reply,
    verify_admin_secret, AdminSetPlanBody, GrantBody, InterestAction,
};
use prokuro::gateway::billing::records::{
    billing_record_item, email_grant_item, email_key, is_operator_email, new_record,
    normalize_grant_email, parse_paid_plan, plan_override_from_item, plan_override_item, plan_str,
    record_from_item, status_str, usage_from_item, BillingRecord, PlanOverride,
};
use prokuro::gateway::billing::service::{
    apply_usage_delta, reserve_refusal, reserve_request, reserve_usage, BillingService, ReserveError,
};
use prokuro::gateway::billing::status::{
    free_status_payload, grant_is_active, grant_is_active_at, not_provisioned_error,
    not_provisioned_response, status_from_record, unix_timestamp_to_rfc3339,
};
use prokuro::gateway::billing::webhook::{
    account_of_event, apply_event, changes_subscription, checkout_session_status, customer_of_event,
    embedded_checkout_form, record_from_event, subscription_status, verify_stripe_signature,
    verify_stripe_signature_at, StripeEvent, WEBHOOK_TOLERANCE_SECS,
};
use prokuro::gateway::entitlements::{empty_usage, limits_for, usage_with_boms};
use prokuro::gateway::error::GatewayError;
use prokuro::gateway::purchasing::{
    admit_purchase, counts_toward_purchasing_usage, pass_books, settle_order, settle_quote, Booking,
    Declined,
};
use prokuro::dynamo::{get_s, new_item, put_n};
use prokuro::json::{as_text, Json};
use prokuro::model::purchasing::{
    BillingPlan, BillingStatus, PlanSource, PurchaseStatus, RefreshCadence,
};

fn object(fields: Vec<(&str, Json)>) -> Json {
    Json::Object(fields.into_iter().map(|(name, value)| (name.to_string(), value)).collect())
}

fn signature_header(secret: &str, body: &[u8], timestamp: i64) -> String {
    let mut mac = hmac::Hmac::<sha2::Sha256>::new_from_slice(secret.as_bytes()).unwrap();
    mac.update(timestamp.to_string().as_bytes());
    mac.update(b".");
    mac.update(body);
    let sig = hex::encode(mac.finalize().into_bytes());
    format!("t={timestamp},v1={sig}")
}

fn user(account: &str, email: Option<&str>, role: TeamRole) -> AuthUser {
    AuthUser {
        user_id: account.to_string(),
        account_id: account.to_string(),
        email: email.map(str::to_string),
        first_name: None,
        last_name: None,
        role,
    }
}

fn growth_record() -> BillingRecord {
    BillingRecord {
        account_id: "acc".into(),
        email: None,
        stripe_customer_id: Some("cus_x".into()),
        stripe_subscription_id: Some("sub_x".into()),
        plan: BillingPlan::Growth,
        status: BillingStatus::Active,
        current_period_end: None,
    }
}

#[test]
fn prokuro_ai_addresses_are_operators() {
    assert!(is_operator_email(Some("mounir@prokuro.ai")));
    assert!(is_operator_email(Some("yusuf@Prokuro.AI")));
    assert!(is_operator_email(Some("sinjab@prokuro.ai")));
    assert!(!is_operator_email(Some("buyer@company.com")));
    assert!(!is_operator_email(Some("admin@notprokuro.ai")));
    assert!(!is_operator_email(Some("prokuro.ai@evil.com")));
    assert!(!is_operator_email(Some("someone@prokuro.ai.attacker.com")));
    assert!(!is_operator_email(None));
}

#[test]
fn stripe_signature_accepts_valid_v1() {
    let secret = "whsec_test";
    let body = br#"{"type":"checkout.session.completed"}"#;
    let header = signature_header(secret, body, chrono::Utc::now().timestamp());
    assert!(verify_stripe_signature(Some(&header), body, secret).is_ok());
}

#[test]
fn stripe_signature_rejects_tampered_body() {
    let secret = "whsec_test";
    let body = br#"{"type":"checkout.session.completed"}"#;
    let header = signature_header(secret, body, chrono::Utc::now().timestamp());
    assert!(verify_stripe_signature(Some(&header), br#"{"type":"other"}"#, secret).is_err());
}

#[test]
fn stripe_signature_rejects_replayed_timestamp() {
    let secret = "whsec_test";
    let body = br#"{"type":"checkout.session.completed"}"#;
    let stale = chrono::Utc::now().timestamp() - WEBHOOK_TOLERANCE_SECS - 1;
    let header = signature_header(secret, body, stale);
    assert!(verify_stripe_signature(Some(&header), body, secret).is_err());
}

#[test]
fn signatures_hold_for_five_minutes() {
    let header = signature_header("s", b"{}", 1000);
    assert!(verify_stripe_signature_at(Some(&header), b"{}", "s", 1300).is_ok());
    assert!(verify_stripe_signature_at(Some(&header), b"{}", "s", 1301).is_err());
    assert!(verify_stripe_signature_at(Some(&header), b"{}", "s", 700).is_ok());
    assert!(verify_stripe_signature_at(Some(&header), b"{}", "other", 1000).is_err());
    assert!(verify_stripe_signature_at(None, b"{}", "s", 1000).is_err());
    assert!(verify_stripe_signature_at(Some("v1=00"), b"{}", "s", 1000).is_err());
}

#[test]
fn webhook_is_rejected_when_secret_is_unconfigured() {
    let mut billing = BillingService::memory();
    billing.secret_key = "sk_test".into();
    let header = signature_header("whsec_test", b"{}", chrono::Utc::now().timestamp());
    let error = billing
        .handle_webhook(Some(&header), b"{}", Err("no event".into()))
        .expect_err("unverifiable webhook must not be accepted");
    assert!(error.contains("webhook secret not configured"), "{error}");
}

#[test]
fn list_access_waiting_then_enabled() {
    let mut billing = BillingService::memory();
    billing.mark_interest_sent("acct-wait", "wait@company.com");
    billing.mark_interest_sent("acct-both", "both@company.com");
    billing.grant_email("both@company.com", None, Some("acct-both")).unwrap();
    billing
        .grant_email("only@company.com", Some("2027-03-01T00:00:00Z".into()), None)
        .unwrap();
    let items = billing.list_access();
    let emails: Vec<_> = items.iter().map(|row| row.email()).collect();
    assert_eq!(emails, vec!["wait@company.com", "both@company.com", "only@company.com"]);
    let shown: Vec<Json> = items.iter().map(|row| row.to_json()).collect();
    assert_eq!(as_text(shown[0].get("status")).as_deref(), Some("waiting"));
    assert_eq!(as_text(shown[1].get("status")).as_deref(), Some("enabled"));
    assert_eq!(as_text(shown[2].get("status")).as_deref(), Some("enabled"));
    assert_eq!(as_text(shown[2].get("expires_at")).as_deref(), Some("2027-03-01T00:00:00Z"));
    assert!(matches!(items[0], AccessRow::Waiting { .. }));
}

#[test]
fn event_is_claimed_once() {
    let mut billing = BillingService::memory();
    assert!(billing.claim_event("evt_1"));
    assert!(!billing.claim_event("evt_1"));
    billing.release_event("evt_1");
    assert!(billing.claim_event("evt_1"));
}

#[test]
fn unpaid_and_pending_subscriptions_are_not_entitled() {
    for status in ["incomplete", "paused", "unpaid", "incomplete_expired"] {
        assert_ne!(
            subscription_status(Some(status)),
            BillingStatus::Active,
            "{status} must not entitle a paid plan"
        );
    }
    assert_eq!(subscription_status(None), BillingStatus::Inactive);
    assert_eq!(subscription_status(Some("active")), BillingStatus::Active);
    assert_eq!(subscription_status(Some("trialing")), BillingStatus::Trialing);
}

#[test]
fn checkout_session_entitles_only_on_settled_payment() {
    let session = |payment: &str| {
        object(vec![
            ("object", Json::text("checkout.session")),
            ("status", Json::text("complete")),
            ("payment_status", Json::text(payment)),
        ])
    };
    assert_eq!(checkout_session_status(&session("unpaid")), BillingStatus::Inactive);
    assert_eq!(checkout_session_status(&session("paid")), BillingStatus::Active);
}

fn subscription_event(id: &str, status: &str, price: &str) -> StripeEvent {
    let items = object(vec![(
        "data",
        Json::Array(vec![object(vec![("price", object(vec![("id", Json::text(price))]))])]),
    )]);
    StripeEvent {
        id: id.into(),
        kind: "customer.subscription.created".into(),
        object: object(vec![
            ("object", Json::text("subscription")),
            ("id", Json::text("sub_1")),
            ("customer", Json::text("cus_1")),
            ("status", Json::text(status)),
            ("items", items),
            (
                "metadata",
                object(vec![("account_id", Json::text("acct-1")), ("plan", Json::text("scale"))]),
            ),
        ]),
    }
}

#[test]
fn incomplete_subscription_event_leaves_account_on_free() {
    let mut billing = BillingService::memory();
    billing.apply_subscription_event(&subscription_event("evt_incomplete", "incomplete", ""));
    let record = billing.get_record("acct-1").unwrap();
    let status = status_from_record(&record, None, empty_usage(), false);
    assert_eq!(status.plan, BillingPlan::Free);
    assert_eq!(status.plan_source, PlanSource::Free);
}

#[test]
fn paid_subscription_event_entitles_by_price() {
    let mut billing =
        BillingService::with_keys("sk".into(), "wh".into(), "price_g".into(), "price_s".into());
    let event = subscription_event("evt_paid", "active", "price_g");
    assert!(changes_subscription(&event.kind));
    assert_eq!(account_of_event(&event).as_deref(), Some("acct-1"));
    assert_eq!(customer_of_event(&event).as_deref(), Some("cus_1"));
    billing.apply_subscription_event(&event);
    let record = billing.find_by_customer("cus_1").expect("record");
    assert_eq!(record.account_id, "acct-1");
    assert_eq!(record.plan, BillingPlan::Growth);
    let again = apply_event(record.clone(), &event, "price_g", "price_s");
    assert_eq!(again.plan, record.plan);
    assert_eq!(again.status, record.status);
    assert_eq!(record_from_event("acct-1", &event).account_id, "acct-1");
    let now = chrono::Utc::now().timestamp();
    let header = signature_header("wh", b"{}", now);
    let event = subscription_event("evt_2", "active", "price_s");
    assert!(billing.handle_webhook(Some(&header), b"{}", Ok(event)).is_ok());
    assert_eq!(billing.get_record("acct-1").unwrap().plan, BillingPlan::Scale);
    let event = subscription_event("evt_2", "active", "price_g");
    assert!(billing.handle_webhook_at(Some(&header), b"{}", Ok(event), now).is_ok());
    assert_eq!(billing.get_record("acct-1").unwrap().plan, BillingPlan::Scale);
}

#[test]
fn status_from_record_allows_free_purchase() {
    let record = growth_record();
    assert!(status_from_record(&record, None, empty_usage(), false).can_purchase);
    let free = BillingRecord {
        plan: BillingPlan::Free,
        status: BillingStatus::Inactive,
        stripe_customer_id: None,
        stripe_subscription_id: None,
        ..record.clone()
    };
    let free_status = status_from_record(&free, None, empty_usage(), false);
    assert!(!free_status.can_purchase);
    assert!(!free_status.provisioned);
    let admin = status_from_record(
        &free,
        Some(PlanOverride {
            plan: BillingPlan::Growth,
            expires_at: None,
            note: Some("pilot".into()),
        }),
        empty_usage(),
        false,
    );
    assert_eq!(admin.plan, BillingPlan::Growth);
    assert_eq!(admin.plan_source, PlanSource::Admin);
    assert_eq!(admin.limits.seats, 2);
    assert!(admin.can_purchase);
}

#[test]
fn active_stripe_subscription_without_price_does_not_default_to_growth() {
    let record = BillingRecord { plan: BillingPlan::Free, ..growth_record() };
    let status = status_from_record(&record, None, empty_usage(), false);
    assert_eq!(status.plan, BillingPlan::Free);
    assert_eq!(status.plan_source, PlanSource::Free);
}

#[test]
fn embedded_checkout_form_uses_ui_mode_not_hosted_urls() {
    let form = embedded_checkout_form(
        "cus_123",
        "price_growth",
        "account-a",
        BillingPlan::Growth,
        "https://app.example/billing?billing=success&session_id={CHECKOUT_SESSION_ID}",
    );
    let map: std::collections::HashMap<_, _> = form.into_iter().collect();
    assert_eq!(map.get("ui_mode").map(String::as_str), Some("embedded"));
    assert_eq!(map.get("mode").map(String::as_str), Some("subscription"));
    assert!(map.contains_key("return_url"));
    assert!(!map.contains_key("success_url"));
    assert!(!map.contains_key("cancel_url"));
    assert_eq!(map.get("metadata[plan]").map(String::as_str), Some("growth"));
    assert_eq!(
        map.get("subscription_data[metadata][account_id]").map(String::as_str),
        Some("account-a")
    );
}

#[test]
fn free_allows_small_purchasing_pool() {
    let free = limits_for(BillingPlan::Free);
    assert_eq!(free.purchasing_actions_per_month, 5);
    assert_eq!(free.orders_per_month, 2);
    assert_eq!(free.active_boms, 1);
    assert!(matches!(free.refresh, RefreshCadence::Weekly));
}

#[test]
fn larger_plans_have_larger_limits() {
    let growth = limits_for(BillingPlan::Growth);
    let scale = limits_for(BillingPlan::Scale);
    assert!(growth.seats < scale.seats);
    assert!(growth.active_boms < scale.active_boms);
    assert_eq!(usage_with_boms(3, empty_usage()).active_boms_count, 3);
    assert_eq!(free_status_payload(2, false).plan, BillingPlan::Free);
}

#[test]
fn unavailable_and_non_billable_statuses_do_not_count() {
    assert!(!counts_toward_purchasing_usage(PurchaseStatus::Unavailable));
    assert!(!counts_toward_purchasing_usage(PurchaseStatus::NotConfigured));
    assert!(!counts_toward_purchasing_usage(PurchaseStatus::RequiresDistributorCredit));
    assert!(!counts_toward_purchasing_usage(PurchaseStatus::RequiresSubscription));
    assert!(!counts_toward_purchasing_usage(PurchaseStatus::CapExceeded));
    assert!(!counts_toward_purchasing_usage(PurchaseStatus::Error));
}

#[test]
fn quoted_partial_and_submitted_count() {
    assert!(counts_toward_purchasing_usage(PurchaseStatus::Quoted));
    assert!(counts_toward_purchasing_usage(PurchaseStatus::Partial));
    assert!(counts_toward_purchasing_usage(PurchaseStatus::Submitted));
}

#[test]
fn purchases_release_what_was_reserved_for_nothing() {
    assert!(!settle_quote(true, Ok(PurchaseStatus::Quoted)).release);
    assert!(settle_quote(true, Ok(PurchaseStatus::Unavailable)).release);
    assert!(!settle_quote(false, Ok(PurchaseStatus::Unavailable)).release);
    let failed = settle_quote(true, Err(GatewayError::PurchasingTimeout));
    assert!(failed.release);
    assert_eq!(failed.reply.map(|reply| reply.status), Some(504));
    let unsure = settle_order(true, Err(GatewayError::PurchasingTimeout));
    assert!(!unsure.release);
    assert_eq!(unsure.reply.map(|reply| reply.status), Some(504));
    assert!(matches!(pass_books(Booking::Reserved, true), Ok(true)));
    assert!(matches!(pass_books(Booking::NoBooks, false), Ok(false)));
    assert!(pass_books(Booking::NoBooks, true).is_err());
    assert!(matches!(
        pass_books(Booking::Capped(not_provisioned_error()), true),
        Err(Declined::Refused(_) | Declined::Answered { .. })
    ));
    assert!(admit_purchase(&user("a", None, TeamRole::ReadOnly), None).is_err());
    assert!(admit_purchase(&user("a", None, TeamRole::Owner), None).is_ok());
    assert!(admit_purchase(&user("a", None, TeamRole::Owner), Some("bad".into())).is_err());
}

#[test]
fn records_read_back_from_rows() {
    let record = BillingRecord {
        email: Some("a@b.c".into()),
        current_period_end: Some("2026-01-01T00:00:00Z".into()),
        ..growth_record()
    };
    let read = record_from_item(&billing_record_item(&record));
    assert_eq!(read.account_id, "acc");
    assert_eq!(read.email.as_deref(), Some("a@b.c"));
    assert_eq!(read.plan, BillingPlan::Growth);
    assert_eq!(read.status, BillingStatus::Active);
    let row = plan_override_item("acc", BillingPlan::Scale, Some("2026-01-01T00:00:00Z"), None);
    let grant = plan_override_from_item(&row).expect("override");
    assert_eq!(grant.plan, BillingPlan::Scale);
    assert_eq!(grant.expires_at.as_deref(), Some("2026-01-01T00:00:00Z"));
    assert!(plan_override_from_item(&new_item()).is_none());
    assert!(email_grant_item("a@b.c", None).entries.len() > 1);
    assert!(email_key("a@b.c").ends_with("a@b.c"));
    assert_eq!(plan_str(BillingPlan::Free), "free");
    assert_eq!(status_str(BillingStatus::Inactive), "none");
    assert_eq!(parse_paid_plan(&Some("growth".into())), Some(BillingPlan::Growth));
    assert_eq!(parse_paid_plan(&Some("free".into())), None);
    let mut usage = new_item();
    put_n(&mut usage, "orders_count", "4");
    assert_eq!(usage_from_item(&usage).orders_count, 4);
    assert_eq!(new_record("acc", &None).plan, BillingPlan::Free);
    assert!(get_s(&row, "account_id").is_some() || get_s(&row, "pk").is_some());
}

#[test]
fn grants_end() {
    let grant = PlanOverride {
        plan: BillingPlan::Growth,
        expires_at: Some("2026-01-01T00:00:00Z".into()),
        note: None,
    };
    let before = parse_moment("2025-12-31T23:59:59Z").unwrap();
    let after = parse_moment("2026-01-01T00:00:01Z").unwrap();
    assert!(grant_is_active_at(&grant, before));
    assert!(!grant_is_active_at(&grant, after));
    assert!(grant_is_active(&PlanOverride { expires_at: None, ..grant }));
}

#[test]
fn moments_beyond_the_calendar_have_no_text() {
    assert!(unix_timestamp_to_rfc3339(8_210_266_876_799).is_some());
    assert!(unix_timestamp_to_rfc3339(8_210_266_876_800).is_none());
    assert!(unix_timestamp_to_rfc3339(-8_334_601_228_800).is_some());
    assert!(unix_timestamp_to_rfc3339(-8_334_601_228_801).is_none());
    assert!(unix_timestamp_to_rfc3339(0).unwrap().starts_with("1970-01-01T00:00:00"));
    assert!(parse_moment("not a time").is_none());
    let nanos = parse_moment("1970-01-01T00:00:01.5+00:00").unwrap();
    assert_eq!((nanos.secs, nanos.nanos), (1, 500_000_000));
}

#[test]
fn reservations_stay_within_the_caps() {
    let used = reserve_usage(empty_usage(), 1, None).unwrap();
    assert_eq!(used.purchasing_actions_count, 1);
    assert_eq!(used.orders_count, 0);
    match reserve_usage(used, 1, None) {
        Err(ReserveError::Cap { used, limit, .. }) => assert_eq!((used, limit), (1, 1)),
        other => panic!("unexpected: {other:?}"),
    }
    assert!(reserve_usage(empty_usage(), 5, Some(0)).is_err());
    assert!(matches!(reserve_refusal(empty_usage(), 0, None), ReserveError::Cap { .. }));
    assert_ne!(reserve_request(true).condition, reserve_request(false).condition);
    let mut count: u32 = 1;
    apply_usage_delta(&mut count, -3);
    assert_eq!(count, 0);
    apply_usage_delta(&mut count, 2);
    assert_eq!(count, 2);
    let mut billing = BillingService::memory();
    assert!(billing.try_reserve_usage_atomic("acc", 1, Some(1)).is_ok());
    assert!(billing.try_reserve_usage_atomic("acc", 1, Some(1)).is_err());
    assert_eq!(billing.get_usage("acc").orders_count, 1);
    billing.adjust_usage("acc", 1, 2, -1, -1);
    assert_eq!(billing.get_usage("acc").purchasing_actions_count, 0);
    assert_eq!(billing.get_usage("acc").lines_count, 2);
}

#[test]
fn admin_plans_are_set_and_cleared() {
    let mut billing = BillingService::memory();
    let owner = user("acc", Some("a@b.com"), TeamRole::Owner);
    assert!(billing.ensure_provisioned(&owner).is_err());
    billing.set_admin_plan("acc", BillingPlan::Growth, None, None);
    assert!(billing.get_plan_override("acc").is_some());
    assert!(billing.ensure_provisioned(&owner).is_ok());
    let status = billing.status_for(&owner, 4).unwrap();
    assert_eq!(status.plan, BillingPlan::Growth);
    assert_eq!(status.usage.active_boms_count, 4);
    assert!(billing.ensure_can_purchase(&owner).is_ok());
    assert!(billing.reserve_purchasing_action(&owner, true).is_ok());
    billing.release_purchasing_action(&owner, true);
    assert!(billing.ensure_bom_create(&owner, 0, 1).is_ok());
    assert!(billing.ensure_bom_update(&owner, 1).is_ok());
    billing.clear_admin_plan("acc");
    assert!(billing.get_plan_override("acc").is_none());
    assert!(billing.ensure_can_purchase(&owner).is_err());
    assert_eq!(not_provisioned_response().status, not_provisioned_error().into_response().status);
}

#[test]
fn grants_by_email_count_for_the_address() {
    let mut billing = BillingService::memory();
    billing.put_email_grant("New@Company.com", None).unwrap();
    assert!(billing.get_email_grant("new@company.com").unwrap().is_some());
    billing.delete_email_grant("new@company.com").unwrap();
    assert!(billing.get_email_grant("new@company.com").unwrap().is_none());
    assert!(billing.put_email_grant("nobody", None).is_err());
    billing.grant_email("x@y.com", None, Some("acc")).unwrap();
    assert!(billing.get_plan_override("acc").is_some());
    billing.revoke_email("x@y.com", Some("acc")).unwrap();
    assert!(billing.get_plan_override("acc").is_none());
    assert_eq!(billing.interest_sent_email("acc"), None);
    assert_eq!(normalize_grant_email(" A@B.com ").unwrap(), "a@b.com");
    assert!(normalize_grant_email("a").is_err());
}

#[test]
fn operators_are_admitted() {
    let operator = user("op", Some("op@prokuro.ai"), TeamRole::Owner);
    let other = user("x", Some("x@company.com"), TeamRole::Owner);
    assert!(admit_operator(&operator, true).is_ok());
    assert_eq!(admit_operator(&other, true).unwrap_err().status, 403);
    assert!(admit_operator(&operator, false).is_err());
    let body = || GrantBody { email: "A@b.com".into(), expires_at: None };
    assert_eq!(admit_grant(&operator, true, Ok(body())).unwrap().0, "a@b.com");
    assert!(admit_grant(&operator, true, Err("bad".into())).is_err());
    assert_eq!(admit_revoke(&operator, true, Some("a@b.com")).unwrap(), "a@b.com");
    assert!(admit_revoke(&operator, true, None).is_err());
    assert!(admit_payment(&other, None, true).is_ok());
    assert!(admit_payment(&other, None, false).is_err());
    assert!(admit_payment(&user("x", None, TeamRole::ReadOnly), None, true).is_err());
}

#[test]
fn admin_word_is_checked() {
    assert!(verify_admin_secret(Some("word"), Some("word")).is_ok());
    assert!(verify_admin_secret(Some("word"), Some("other")).is_err());
    assert!(verify_admin_secret(Some("word"), None).is_err());
    assert!(verify_admin_secret(None, Some("word")).is_err());
    let body = |plan: &str| AdminSetPlanBody {
        account_id: "acc".into(),
        plan: plan.into(),
        expires_at: None,
        note: None,
    };
    let (admitted, plan) =
        admit_set_plan(Some("w"), Some("w"), true, Ok(body("growth"))).expect("admitted");
    assert_eq!(plan, BillingPlan::Growth);
    assert_eq!(as_text(set_plan_reply(&admitted, plan).get("plan")).as_deref(), Some("growth"));
    assert!(admit_set_plan(Some("w"), Some("w"), true, Ok(body("gold"))).is_err());
    assert!(parse_admin_plan("scale").is_ok());
    assert_eq!(admit_clear_plan(Some("w"), Some("w"), true, Some("acc")).unwrap(), "acc");
    assert!(admit_clear_plan(Some("w"), Some("w"), true, None).is_err());
}

#[test]
fn checkouts_need_a_price() {
    assert_eq!(checkout_price("sk", "pg", "ps", BillingPlan::Scale).unwrap(), "ps");
    assert!(checkout_price("sk", "pg", "ps", BillingPlan::Free).is_err());
    assert!(checkout_price("sk", "", "ps", BillingPlan::Growth).is_err());
    let reply = object(vec![("id", Json::text("cus_1"))]);
    assert_eq!(required_text(&reply, "id", "no id").unwrap(), "cus_1");
    assert_eq!(required_text(&reply, "url", "no url").unwrap_err(), "no url");
    assert!(customer_form("acc", Some("a@b.com")).iter().any(|(_, value)| value == "a@b.com"));
    assert_eq!(interest_action(None, None), InterestAction::Nothing);
}

#[test]
fn bearer_tokens_are_read() {
    assert_eq!(bearer_token(Some("Bearer abc")).unwrap(), "abc");
    assert_eq!(bearer_token(None).unwrap_err(), AuthError::MissingHeader);
    assert_eq!(bearer_token(Some("Basic abc")).unwrap_err(), AuthError::InvalidHeader);
    let owner = local_bypass_identity(Some("Bearer test:acc:a@b.com")).expect("identity");
    assert_eq!(owner.account_id, "acc");
    assert_eq!(owner.email.as_deref(), Some("a@b.com"));
    assert_eq!(owner.role, TeamRole::Owner);
    assert!(local_bypass_identity(Some("Bearer other")).is_none());
    assert_eq!(clean_name(Some("  ".into())), None);
    assert_eq!(identity_user("u".into(), None, None, None).account_id, "u");
    let config = AuthConfig::for_pool("us-west-2_x", "client", None);
    assert!(config.jwks_url.starts_with(&config.issuer));
}

#[test]
fn tokens_name_their_key() {
    // {"alg":"RS256","kid":"key-1"} and {"alg":"RS256"}
    assert_eq!(signing_key_id("eyJhbGciOiJSUzI1NiIsImtpZCI6ImtleS0xIn0.e30.AA").unwrap(), "key-1");
    assert!(signing_key_id("eyJhbGciOiJSUzI1NiJ9.e30.AA").is_err());
    assert!(signing_key_id("nonsense").is_err());
    assert_eq!(key_id(Some(Some("k".into()))).unwrap(), "k");
    assert_eq!(key_id(Some(None)).unwrap_err(), AuthError::InvalidToken);
    assert_eq!(key_id(None).unwrap_err(), AuthError::InvalidToken);
}

#[test]
fn claims_make_users() {
    let claims = |token_use: &str| CognitoClaims {
        sub: "user-1".into(),
        email: Some("a@b.com".into()),
        given_name: Some(" Ann ".into()),
        family_name: None,
        token_use: token_use.into(),
    };
    let user = user_from_claims(claims("id")).expect("user");
    assert_eq!(user.user_id, "user-1");
    assert_eq!(user.first_name.as_deref(), Some("Ann"));
    assert!(user_from_claims(claims("other")).is_err());
    assert!(AuthError::InvalidToken.message().len() > 0);
}

#[test]
fn roles_limit_what_users_may_do() {
    assert!(require_write(&user("a", None, TeamRole::Admin)).is_ok());
    assert_eq!(require_write(&user("a", None, TeamRole::ReadOnly)).unwrap_err().status, 403);
    assert_eq!(require_manage_team(&user("a", None, TeamRole::ReadOnly)).unwrap_err().status, 403);
    for role in [TeamRole::Owner, TeamRole::Admin, TeamRole::ReadOnly] {
        assert_eq!(TeamRole::parse(role.as_str()), Some(role));
    }
    assert_eq!(TeamRole::parse("boss"), None);
}
