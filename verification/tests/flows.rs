use prokuro::clock::parse_moment;
use prokuro::enrichment::lines::{missing_parts, parts_to_queue, wanted_parts};
use prokuro::enrichment::nexar::client::{build_graphql_request, MatchInput, SUP_MULTI_MATCH_QUERY};
use prokuro::enrichment::providers::digikey::dto::ProductDetailsResponse;
use prokuro::enrichment::providers::digikey::provider::{read_details_at, read_token, reply_failure};
use prokuro::enrichment::providers::digikey::rate_limit::{RateLimiter, SlotStep, SECOND_NANOS};
use prokuro::enrichment::providers::mouser::{check_status, search_request};
use prokuro::enrichment::store::part_keys;
use prokuro::enrichment::types::{searched_mpn, PartQuery, PartResult, ProviderError};
use prokuro::gateway::agent_brief::upgrade_record;
use prokuro::gateway::analyze::{empty_summary, AnalyzeResult, AnalyzedLine, RiskLevel};
use prokuro::gateway::auth::{admit_identity, identify, identity_user, AuthError, Identity, TeamRole};
use prokuro::gateway::billing::handlers::portal_customer;
use prokuro::gateway::billing::records::{new_record, usage_sk};
use prokuro::gateway::billing::service::{reserve_usage, BillingService};
use prokuro::gateway::billing::status::{free_status_payload, is_waiting, plan_or_free};
use prokuro::gateway::billing::webhook::{
    event_applied, event_claimed, webhook_received, StripeEvent, WebhookStep,
};
use prokuro::gateway::boms::analysis::{apply_line_briefs, lines_to_ask, persist_overlay_if_changed};
use prokuro::gateway::boms::briefs::{line_fingerprint, LineBrief, LineBriefs};
use prokuro::gateway::boms::flagged::{FlaggedLineItem, FlaggedLines};
use prokuro::gateway::boms::handlers::show_flagged_briefs;
use prokuro::gateway::boms::types::{BomRecord, BomSummary, RiskScore};
use prokuro::gateway::clients::parser::{ParseResult, ParsedLine};
use prokuro::gateway::clients::tariff::{TariffDataSources, TariffResult};
use prokuro::gateway::entitlements::empty_usage;
use prokuro::gateway::error::GatewayError;
use prokuro::gateway::team::store::TeamStore;
use prokuro::gateway::upload::{apply_tariff_overlay, assemble, assemble_as};
use prokuro::json::{as_text, Json};
use prokuro::model::enrichment::EnrichInput;
use prokuro::model::purchasing::BillingPlan;
use prokuro::strmap::StrMap;

fn line(row_index: usize, risk_level: RiskLevel) -> AnalyzedLine {
    AnalyzedLine {
        row_index,
        mpn: Some(format!("M{row_index}")),
        manufacturer: None,
        quantity: None,
        refdes: None,
        description: None,
        aml_candidates: Vec::new(),
        availability_status: "InStock".into(),
        lifecycle_status: "Nrnd".into(),
        match_status: "Exact".into(),
        factory_lead_days: None,
        total_avail: 500,
        top_sellers: Vec::new(),
        risk_level,
        category: None,
        hts_code: None,
        country_of_origin: None,
        tariff_confidence: None,
        base_duty_pct: None,
        section_301_pct: None,
        total_duty_pct: None,
        tariff_notes: None,
        rate_basis: None,
        is_stale: None,
        tariff_disclaimer: None,
        entity_list_match: None,
        entity_list_notes: None,
        agent_brief: None,
    }
}

fn record(lines: Vec<AnalyzedLine>) -> BomRecord {
    BomRecord {
        summary: BomSummary {
            id: "bom-1".into(),
            name: "Board".into(),
            filename: "a.csv".into(),
            uploaded_at: "2026-01-01T00:00:00Z".into(),
            version: 4,
            updated_at: "2026-01-01T00:00:00Z".into(),
            line_count: 0,
            overall_risk_score: RiskScore::Stored(0),
            at_risk_count: 0,
            unknown_count: 0,
            risk_band: "Clear".into(),
        },
        analyze: AnalyzeResult {
            upload_id: "bom-1".into(),
            source_filename: "a.csv".into(),
            sheet_name: None,
            mapping_confidence: 1.0f32.to_bits(),
            summary: empty_summary(),
            lines,
            top_risks: Vec::new(),
            warnings: Vec::new(),
            stats: Json::Null,
            analyzed_at: "2026-01-01T00:00:00Z".into(),
        },
    }
}

fn parsed() -> ParseResult {
    ParseResult {
        source_filename: "a.csv".into(),
        sheet_name: None,
        header_row_index: 0,
        column_mapping: Vec::new(),
        mapping_confidence: 1.0f32.to_bits(),
        lines: vec![ParsedLine {
            mpn: Some("A1".into()),
            manufacturer: None,
            quantity: None,
            refdes: None,
            description: None,
            aml_candidates: Vec::new(),
            row_index: 1,
        }],
        warnings: Vec::new(),
        stats: Json::Null,
        flywheel_events: Vec::new(),
    }
}

#[test]
fn failed_enrichment_is_noted() {
    let failed = assemble_as(parsed(), Err(GatewayError::EnrichmentTimeout), "id".into(), "then".into());
    assert_eq!(failed.lines.len(), 1);
    assert_eq!(as_text(failed.warnings[0].get("code")).as_deref(), Some("ENRICHMENT_FAILED"));
    assert_eq!(as_text(failed.warnings[0].get("message")).as_deref(), Some("enrichment timed out"));
    let good = assemble(parsed(), Ok(vec![]));
    assert!(good.warnings.is_empty());
    assert_eq!(good.upload_id.len(), 36);
}

#[test]
fn tariffs_are_optional() {
    let mut result = record(vec![line(0, RiskLevel::Green)]).analyze;
    apply_tariff_overlay(&mut result, None);
    assert!(result.warnings.is_empty());
    apply_tariff_overlay(&mut result, Some(Err(GatewayError::TariffTimeout)));
    assert_eq!(as_text(result.warnings[0].get("code")).as_deref(), Some("TARIFF_UNAVAILABLE"));
    let answer = TariffResult {
        mpn: "M0".into(),
        hts_code: Some("8532".into()),
        classification: None,
        confidence: "low".into(),
        base_duty_pct: None,
        section_301_pct: None,
        total_duty_pct: None,
        rate_basis: "general".into(),
        estimated: true,
        notes: None,
        entity_list_match: false,
        entity_list_matched_name: None,
        entity_list_notes: None,
        data_sources: TariffDataSources {
            hts_revision: "r".into(),
            section_301_retrieved: "d".into(),
            hts_data_age_days: 0,
            section_301_data_age_days: 0,
            is_stale: true,
        },
        disclaimer: "d".into(),
    };
    apply_tariff_overlay(&mut result, Some(Ok(vec![answer])));
    assert_eq!(result.lines[0].hts_code.as_deref(), Some("8532"));
    assert_eq!(result.lines[0].risk_level, RiskLevel::Yellow);
    assert_eq!(result.summary.total, 1);
}

#[test]
fn overlay_is_written_when_stock_changes() {
    let mut shown = record(vec![line(0, RiskLevel::Yellow)]);
    shown.analyze.lines[0].agent_brief = Some("brief".into());
    let before = shown.analyze.lines.clone();
    assert!(persist_overlay_if_changed(&before, &mut shown).is_none());
    shown.analyze.lines[0].total_avail = 42;
    let write = persist_overlay_if_changed(&before, &mut shown).expect("write");
    assert_eq!(write.expected_version, 4);
    assert_eq!(write.analyze.lines[0].total_avail, 42);
    assert!(write.analyze.lines[0].agent_brief.is_none());
    assert_eq!(write.summary.version, 4);
}

#[test]
fn a_round_keeps_current_briefs_and_asks_for_the_others() {
    let lines = vec![line(0, RiskLevel::Yellow), line(1, RiskLevel::Red), line(2, RiskLevel::Green)];
    let mut existing = LineBriefs::new();
    let current = LineBrief {
        fingerprint: line_fingerprint(&lines[0]),
        text: "kept".into(),
        updated_at: "then".into(),
    };
    existing.insert("0", current);
    let asked = lines_to_ask(&lines, &existing);
    assert_eq!(asked.len(), 1);
    assert_eq!(asked[0].row_index, 1);
    let (next, changed) = apply_line_briefs(&lines, &existing, vec![Some("new".into())], "now");
    assert!(changed);
    assert_eq!(next.get("0").map(|b| b.text.as_str()), Some("kept"));
    assert_eq!(next.get("1").map(|b| b.text.as_str()), Some("new"));
    assert!(next.get("2").is_none());
    let (same, changed) = apply_line_briefs(&lines, &existing, vec![None], "now");
    assert!(!changed);
    assert!(same.get("1").is_none());
}

#[test]
fn flagged_lines_show_the_briefs_of_their_bom() {
    let mut flagged = FlaggedLines {
        account_id: "a".into(),
        items: vec![FlaggedLineItem {
            bom_id: "bom-1".into(),
            bom_name: "Board".into(),
            bom_version: 1,
            line: line(3, RiskLevel::Red),
        }],
    };
    let mut own = LineBriefs::new();
    own.insert("3", LineBrief { fingerprint: "f".into(), text: "t".into(), updated_at: "u".into() });
    let mut briefs: StrMap<LineBriefs> = StrMap::new();
    briefs.insert("bom-2", own);
    show_flagged_briefs(&mut flagged, &briefs);
    assert!(flagged.items[0].line.agent_brief.is_none());
    let own = briefs.remove("bom-2").unwrap();
    briefs.insert("bom-1", own);
    show_flagged_briefs(&mut flagged, &briefs);
    assert_eq!(flagged.items[0].line.agent_brief.as_deref(), Some("t"));
}

#[test]
fn upgraded_boms_are_counted_again() {
    let mut upgraded = record(vec![line(0, RiskLevel::Green)]);
    assert!(!upgrade_record(&mut upgraded, vec![]));
    assert_eq!(upgraded.summary.line_count, 0);
    assert!(upgrade_record(&mut upgraded, vec![(0, "Analyst: act".into())]));
    assert_eq!(upgraded.analyze.lines[0].agent_brief.as_deref(), Some("Analyst: act"));
    assert_eq!(upgraded.summary.line_count, 1);
    assert_eq!(upgraded.summary.at_risk_count, 1);
    assert_eq!(upgraded.summary.risk_band, "Watch");
}

#[test]
fn callers_are_identified() {
    match identify(Some("1"), false, Some("Bearer test:acc")) {
        Identity::Known(user) => assert_eq!(user.account_id, "acc"),
        other => panic!("unexpected: {other:?}"),
    }
    match identify(None, false, Some("Bearer test:acc")) {
        Identity::Refused(reply) => {
            assert_eq!(reply.status, 503);
            assert_eq!(as_text(reply.body.get("error")).as_deref(), Some("auth not configured"));
        }
        other => panic!("unexpected: {other:?}"),
    }
    assert!(matches!(identify(Some("0"), true, None), Identity::Verify));
    assert_eq!(admit_identity(Err(AuthError::InvalidToken)).unwrap_err().status, 401);
    assert!(admit_identity(Ok(identity_user("u".into(), None, None, None))).is_ok());
}

#[test]
fn webhooks_go_step_by_step() {
    let event = |kind: &str| {
        Ok(StripeEvent { id: "evt".into(), kind: kind.into(), object: Json::Null })
    };
    assert!(matches!(webhook_received(Err("no".into()), &event("x")), WebhookStep::Refuse(text) if text == "no"));
    assert!(matches!(webhook_received(Ok(()), &event("invoice.paid")), WebhookStep::Done));
    assert!(matches!(
        webhook_received(Ok(()), &event("customer.subscription.updated")),
        WebhookStep::Claim
    ));
    assert!(matches!(
        webhook_received(Ok(()), &Err("eof".into())),
        WebhookStep::Refuse(text) if text == "invalid webhook json: eof"
    ));
    assert!(matches!(event_claimed(Ok(true)), WebhookStep::Apply));
    assert!(matches!(event_claimed(Ok(false)), WebhookStep::Done));
    assert!(matches!(event_claimed(Err("down".into())), WebhookStep::Refuse(_)));
    assert!(matches!(event_applied(Ok(())), WebhookStep::Done));
    assert!(matches!(event_applied(Err("down".into())), WebhookStep::Release(text) if text == "down"));
}

#[test]
fn portals_need_a_customer() {
    assert_eq!(portal_customer("", None).unwrap_err(), "Stripe billing not configured");
    assert_eq!(portal_customer("sk", None).unwrap_err(), "no billing account — start a plan first");
    let mut known = new_record("acc", &None);
    known.stripe_customer_id = Some("cus".into());
    assert_eq!(portal_customer("sk", Some(known)).unwrap(), "cus");
    assert_eq!(
        portal_customer("sk", Some(new_record("acc", &None))).unwrap_err(),
        "no Stripe customer on file"
    );
}

#[test]
fn usage_is_counted() {
    let mut billing = BillingService::memory();
    billing.increment_usage("acc", 1, 20, 0, 0);
    billing.increment_usage("acc", 1, u32::MAX, 0, 0);
    assert_eq!(billing.get_usage("acc").analyses_count, 2);
    assert_eq!(billing.get_usage("acc").lines_count, 19);
    assert!(is_waiting(&free_status_payload(0, false)));
    assert!(!is_waiting(&free_status_payload(0, true)));
    assert_eq!(plan_or_free(None), BillingPlan::Free);
    assert_eq!(plan_or_free(Some(Ok(free_status_payload(0, true)))), BillingPlan::Scale);
    assert!(!billing.stripe_configured());
}

#[test]
fn plans_of_teams_are_kept() {
    let mut team = TeamStore::memory();
    assert_eq!(team.plan_override("acc"), None);
    team.set_plan_override("acc", BillingPlan::Scale);
    assert_eq!(team.plan_override("acc"), Some(BillingPlan::Scale));
}

#[test]
fn invites_expire_after_seven_days() {
    let mut team = TeamStore::memory();
    let created = parse_moment("2026-01-01T00:00:00Z").unwrap();
    let invite = team
        .create_invite_at("owner", "a@example.com", TeamRole::Admin, "owner", created, "t".into())
        .unwrap();
    assert_eq!(
        parse_moment(&invite.expires_at).unwrap(),
        parse_moment("2026-01-08T00:00:00Z").unwrap()
    );
    let mut reader = identity_user("reader".into(), Some("a@example.com".into()), None, None);
    reader.role = TeamRole::Owner;
    let last = parse_moment("2026-01-07T23:59:59Z").unwrap();
    assert_eq!(team.accept_invite_at("t", &reader, last).unwrap().role, TeamRole::Admin);
}

#[test]
fn pauses_come_before_the_minute() {
    let mut limiter = RateLimiter::with_limits(1, 10);
    limiter.pause_for(0, 3);
    assert_eq!(limiter.take_slot(SECOND_NANOS), SlotStep::Wait(2 * SECOND_NANOS));
    assert_eq!(limiter.take_slot(3 * SECOND_NANOS), SlotStep::Taken);
    assert_eq!(limiter.paused_until, None);
    assert!(matches!(limiter.take_slot(4 * SECOND_NANOS), SlotStep::Wait(_)));
}

#[test]
fn replies_of_digikey_are_read() {
    assert_eq!(read_token(true, "200 OK", "", Ok(("t".into(), 9))).unwrap(), ("t".to_string(), 9));
    let refused = read_token(false, "401 Unauthorized", "no", Err("x".into())).unwrap_err();
    assert!(matches!(refused, ProviderError::Auth(text) if text == "token 401 Unauthorized: no"));
    assert!(matches!(read_token(true, "200 OK", "", Err("eof".into())), Err(ProviderError::Auth(_))));
    assert!(matches!(reply_failure("500", "down"), ProviderError::Request(text) if text == "500: down"));
    assert!(read_details_at(None, "then".into()).is_none());
    assert!(read_details_at(Some(ProductDetailsResponse { product: None }), "then".into()).is_none());
}

#[test]
fn replies_of_mouser_are_checked() {
    assert!(check_status(200, "").is_ok());
    assert!(matches!(check_status(429, ""), Err(ProviderError::RateLimited)));
    assert!(matches!(check_status(500, "down"), Err(ProviderError::Request(text)) if text == "down"));
    let request = search_request("A1");
    let inner = request.get("SearchByPartRequest").unwrap();
    assert_eq!(as_text(inner.get("mouserPartNumber")).as_deref(), Some("A1"));
    assert_eq!(as_text(inner.get("partSearchOptions")).as_deref(), Some("Exact"));
}

#[test]
fn nexar_is_asked_about_each_part() {
    let inputs = [MatchInput { mpn: "A1".into(), manufacturer: None }];
    let request = build_graphql_request(&inputs);
    assert_eq!(as_text(request.get("query")).as_deref(), Some(SUP_MULTI_MATCH_QUERY));
    match request.pointer(&["variables", "queries"]) {
        Some(Json::Array(queries)) => {
            assert_eq!(queries.len(), 1);
            assert_eq!(as_text(queries[0].get("mpn")).as_deref(), Some("A1"));
            assert!(matches!(queries[0].get("manufacturer"), Some(Json::Null)));
        }
        other => panic!("unexpected: {other:?}"),
    }
}

#[test]
fn open_parts_are_queued_for_later() {
    let lines = vec![
        EnrichInput { mpn: "a".into(), manufacturer: None },
        EnrichInput { mpn: "".into(), manufacturer: None },
    ];
    let missing = missing_parts(wanted_parts(&lines), &StrMap::new());
    let live: StrMap<PartResult> = StrMap::new();
    assert_eq!(parts_to_queue(&missing, &live), vec!["A#UNKNOWN"]);
    assert_eq!(searched_mpn(&PartQuery { mpn: " a ".into(), manufacturer: None }).as_deref(), Some("A"));
    assert_eq!(searched_mpn(&PartQuery { mpn: " ".into(), manufacturer: None }), None);
}

#[test]
fn stored_keys_come_in_order() {
    let keys = vec!["b".to_string(), "a".to_string(), "b".to_string(), "B".to_string()];
    assert_eq!(part_keys(&keys), vec!["B", "a", "b"]);
}

#[test]
fn usage_is_kept_by_month() {
    assert_eq!(usage_sk(2026, 3), "USAGE#2026-03");
    assert_eq!(usage_sk(987, 12), "USAGE#0987-12");
    assert_eq!(usage_sk(10_000, 10), "USAGE#+10000-10");
}

#[test]
fn no_number_of_tries_passes_a_cap() {
    let mut usage = empty_usage();
    for _ in 0..5 {
        if let Ok(after) = reserve_usage(usage, 3, Some(2)) {
            usage = after;
        }
    }
    assert_eq!((usage.purchasing_actions_count, usage.orders_count), (2, 2));
    for _ in 0..5 {
        if let Ok(after) = reserve_usage(usage, 3, None) {
            usage = after;
        }
    }
    assert_eq!((usage.purchasing_actions_count, usage.orders_count), (3, 2));
}
