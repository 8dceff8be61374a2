use prokuro::clock::parse_moment;
use prokuro::gateway::agent_brief::{
    apply_brief_upgrades, brief_prompt, briefs_wanted, ensure_heuristic_briefs, heuristic_brief,
    is_upgradeable_brief, switched_on, usable_brief, BRIEF_TASK,
};
use prokuro::gateway::analyze::{
    apply_enrichment_results, apply_tariff_results, empty_summary, finalize_analyze, merge, merge_as,
    score_risk, select_top_risks, AnalyzeResult, AnalyzeSummary, AnalyzedLine, RiskLevel,
};
use prokuro::gateway::billing::status::{normalize_period_end, unix_timestamp_to_rfc3339};
use prokuro::gateway::clients::bedrock::{parse_bedrock_model_id, DEFAULT_BEDROCK_MODEL_ID};
use prokuro::gateway::clients::parser::{low_confidence, ParseResult, ParsedLine};
use prokuro::gateway::clients::tariff::{
    enrich_timeout_secs, tariff_timeout_secs, Percent, TariffDataSources, TariffResult,
};
use prokuro::gateway::error::{
    analyze_pipeline_error_response, parser_error_response, AnalyzePipelineError, GatewayError,
};
use prokuro::gateway::upload::{
    accept_parse, enrich_inputs, tariff_inputs, warn_of_failure, UploadField, UploadState,
};
use prokuro::json::Json;
use prokuro::model::enrichment::{
    AvailabilityStatus, EnrichResult, LifecycleStatus, MatchStatus,
};

fn percent(value: f64) -> Option<Percent> {
    Some(Percent {
        bits: value.to_bits(),
        plain: format!("{value}"),
        shown: format!("{value:?}"),
        fixed: format!("{value:.4}"),
    })
}

fn healthy_line(row_index: usize) -> AnalyzedLine {
    AnalyzedLine {
        row_index,
        mpn: Some(format!("MPN-{row_index}")),
        manufacturer: Some("Acme".into()),
        quantity: Some("1".into()),
        refdes: None,
        description: Some("CAP CER".into()),
        aml_candidates: Vec::new(),
        availability_status: "InStock".into(),
        lifecycle_status: "Active".into(),
        match_status: "Exact".into(),
        factory_lead_days: Some(14),
        total_avail: 5000,
        top_sellers: Vec::new(),
        risk_level: RiskLevel::Green,
        category: None,
        hts_code: None,
        country_of_origin: None,
        tariff_confidence: None,
        base_duty_pct: None,
        section_301_pct: None,
        total_duty_pct: None,
        tariff_notes: None,
        rate_basis: None,
        is_stale: None,
        tariff_disclaimer: None,
        entity_list_match: None,
        entity_list_notes: None,
        agent_brief: None,
    }
}

fn no_match(row_index: usize) -> AnalyzedLine {
    let mut line = healthy_line(row_index);
    line.availability_status = "NoMatch".into();
    line
}

fn nrnd(row_index: usize) -> AnalyzedLine {
    let mut line = healthy_line(row_index);
    line.lifecycle_status = "Nrnd".into();
    line
}

fn unmatched(row_index: usize, availability: &str) -> AnalyzedLine {
    let mut line = healthy_line(row_index);
    line.availability_status = availability.into();
    line.match_status = "None".into();
    line
}

fn analysis(lines: Vec<AnalyzedLine>) -> AnalyzeResult {
    AnalyzeResult {
        upload_id: "u".into(),
        source_filename: "bom.csv".into(),
        sheet_name: None,
        mapping_confidence: 1.0f32.to_bits(),
        summary: empty_summary(),
        lines,
        top_risks: Vec::new(),
        warnings: Vec::new(),
        stats: Json::Object(Vec::new()),
        analyzed_at: "2026-07-10T00:00:00Z".into(),
    }
}

#[test]
fn analyzed_at_is_iso8601() {
    let format = |secs: i64| unix_timestamp_to_rfc3339(secs).expect("valid timestamp");
    assert_eq!(parse_moment(&format(0)).unwrap(), parse_moment("1970-01-01T00:00:00Z").unwrap());
    assert_eq!(
        parse_moment(&format(1_735_689_600)).unwrap(),
        parse_moment("2025-01-01T00:00:00Z").unwrap()
    );
    let merged = merge(parsed(vec![]), vec![]);
    assert!(merged.analyzed_at.ends_with('Z'));
    assert_eq!(merged.analyzed_at.len(), "1970-01-01T00:00:00Z".len());
}

#[test]
fn no_match_availability_is_red_regardless_of_other_fields() {
    let mut line = healthy_line(0);
    line.availability_status = "NoMatch".into();
    line.total_duty_pct = percent(0.0);
    assert_eq!(score_risk(&line), RiskLevel::Red);
}

#[test]
fn provider_error_availability_is_yellow_not_red() {
    let mut line = healthy_line(0);
    line.availability_status = "Error".into();
    assert_eq!(score_risk(&line), RiskLevel::Yellow);
}

#[test]
fn high_tariff_exposure_is_red_when_otherwise_healthy() {
    let mut line = healthy_line(1);
    line.total_duty_pct = percent(25.0);
    assert_eq!(score_risk(&line), RiskLevel::Red);
    line.total_duty_pct = percent(24.99);
    assert_ne!(score_risk(&line), RiskLevel::Red);
}

#[test]
fn nrnd_lifecycle_is_yellow() {
    let mut line = healthy_line(2);
    line.lifecycle_status = "Nrnd".into();
    assert_eq!(score_risk(&line), RiskLevel::Yellow);
}

#[test]
fn healthy_line_is_green() {
    assert_eq!(score_risk(&healthy_line(3)), RiskLevel::Green);
}

#[test]
fn provider_error_maps_to_yellow_risk_contract() {
    let mut line = healthy_line(0);
    line.mpn = Some("C0402".into());
    line.manufacturer = Some("Murata".into());
    line.quantity = Some("10".into());
    line.refdes = Some("C1".into());
    line.description = Some("CAP CER 0.1UF X7R".into());
    line.availability_status = "Error".into();
    line.match_status = "None".into();
    line.lifecycle_status = "Unknown".into();
    assert_eq!(score_risk(&line), RiskLevel::Yellow);
    line.availability_status = "NoMatch".into();
    assert_eq!(score_risk(&line), RiskLevel::Red);
}

#[test]
fn summary_counts_match_risk_distribution() {
    let mut result = analysis(vec![no_match(0), nrnd(1), healthy_line(2), healthy_line(3)]);
    finalize_analyze(&mut result);
    assert_eq!(result.summary.red_count, 1);
    assert_eq!(result.summary.yellow_count, 1);
    assert_eq!(result.summary.green_count, 2);
    assert_eq!(result.summary.total, 4);
    assert_eq!(result.summary.no_match, 1);
    assert_eq!(result.summary.error_count, 0);
}

#[test]
fn summary_error_lines_do_not_count_as_no_match() {
    let mut result = analysis((0..10).map(|idx| unmatched(idx, "Error")).collect());
    finalize_analyze(&mut result);
    assert_eq!(result.summary.no_match, 0);
    assert_eq!(result.summary.error_count, 10);
    assert_eq!(result.summary.yellow_count, 10);
    assert_eq!(result.summary.red_count, 0);
}

#[test]
fn summary_splits_no_match_and_error_counts() {
    let mut result = analysis(vec![
        unmatched(0, "NoMatch"),
        unmatched(1, "NoMatch"),
        unmatched(2, "Error"),
        unmatched(3, "Error"),
        unmatched(4, "Error"),
    ]);
    finalize_analyze(&mut result);
    assert_eq!(result.summary.no_match, 2);
    assert_eq!(result.summary.error_count, 3);
}

#[test]
fn top_risks_picks_five_by_priority_then_row_index() {
    let mut slow = healthy_line(1);
    slow.factory_lead_days = Some(200);
    let mut scarce = healthy_line(8);
    scarce.total_avail = 50;
    let mut result = analysis(vec![
        nrnd(10),
        no_match(2),
        no_match(5),
        slow,
        scarce,
        no_match(3),
        healthy_line(99),
        nrnd(7),
    ]);
    finalize_analyze(&mut result);
    assert_eq!(result.top_risks.len(), 5);
    assert_eq!(
        result.top_risks.iter().map(|line| (line.risk_level, line.row_index)).collect::<Vec<_>>(),
        vec![
            (RiskLevel::Red, 2),
            (RiskLevel::Red, 3),
            (RiskLevel::Red, 5),
            (RiskLevel::Yellow, 1),
            (RiskLevel::Yellow, 7),
        ]
    );
    assert!(!result.top_risks.iter().any(|line| line.row_index == 99));
    assert_eq!(select_top_risks(&result.lines, 2).len(), 2);
}

#[test]
fn finalizing_twice_changes_nothing() {
    let mut result = analysis(vec![no_match(0), nrnd(1), healthy_line(2)]);
    finalize_analyze(&mut result);
    let first: AnalyzeSummary = result.summary;
    finalize_analyze(&mut result);
    assert_eq!(result.summary, first);
}

fn parsed(lines: Vec<ParsedLine>) -> ParseResult {
    ParseResult {
        source_filename: "bom.csv".into(),
        sheet_name: None,
        header_row_index: 0,
        column_mapping: Vec::new(),
        mapping_confidence: 0.7f32.to_bits(),
        lines,
        warnings: Vec::new(),
        stats: Json::Null,
        flywheel_events: Vec::new(),
    }
}

fn parsed_line(mpn: Option<&str>) -> ParsedLine {
    ParsedLine {
        mpn: mpn.map(str::to_string),
        manufacturer: Some("Acme".into()),
        quantity: Some("2".into()),
        refdes: None,
        description: None,
        aml_candidates: Vec::new(),
        row_index: 4,
    }
}

fn answer(input_index: usize, avail: i64) -> EnrichResult {
    EnrichResult {
        input_index,
        provider_part_id: None,
        matched_mpn: Some("A1".into()),
        matched_manufacturer: None,
        match_status: MatchStatus::Exact,
        total_avail: avail,
        availability_status: AvailabilityStatus::InStock,
        lifecycle_status: LifecycleStatus::Active,
        factory_lead_days: Some(3),
        top_sellers: Vec::new(),
        hts_code: None,
        country_of_origin: Some("JP".into()),
        category: None,
        fetched_at: None,
        source: None,
    }
}

#[test]
fn answers_are_merged_into_lines() {
    let result = merge_as(parsed(vec![parsed_line(Some("A1"))]), &vec![answer(0, 900)], "id".into(), "then".into());
    assert_eq!(result.upload_id, "id");
    assert_eq!(result.analyzed_at, "then");
    assert_eq!(result.lines[0].row_index, 4);
    assert_eq!(result.lines[0].availability_status, "InStock");
    assert_eq!(result.lines[0].total_avail, 900);
    assert_eq!(result.lines[0].factory_lead_days, Some(3));
    let bare = merge_as(parsed(vec![parsed_line(None)]), &vec![], "id".into(), "then".into());
    assert_eq!(bare.lines[0].match_status, "");
    let fresh = merge(parsed(vec![]), vec![]);
    assert_eq!(fresh.upload_id.len(), 36);
    assert_ne!(fresh.upload_id, merge(parsed(vec![]), vec![]).upload_id);
}

#[test]
fn later_answers_refresh_lines() {
    let mut lines = vec![healthy_line(0), healthy_line(1)];
    apply_enrichment_results(&mut lines, &vec![answer(0, 7)]);
    assert_eq!(lines[0].total_avail, 7);
    assert_eq!(lines[1].total_avail, 5000);
}

fn tariff(total: Option<Percent>) -> TariffResult {
    TariffResult {
        mpn: "C0402".into(),
        hts_code: Some("8532.24.00".into()),
        classification: Some("ceramic capacitor".into()),
        confidence: "high".into(),
        base_duty_pct: percent(0.0),
        section_301_pct: None,
        total_duty_pct: total,
        rate_basis: "general".into(),
        estimated: true,
        notes: None,
        entity_list_match: false,
        entity_list_matched_name: None,
        entity_list_notes: None,
        data_sources: TariffDataSources {
            hts_revision: "2025 HTS Revision 32".into(),
            section_301_retrieved: "2026-07-10".into(),
            hts_data_age_days: 0,
            section_301_data_age_days: 0,
            is_stale: false,
        },
        disclaimer: "Estimated for planning purposes only.".into(),
    }
}

#[test]
fn tariffs_fill_the_fields_of_a_line() {
    let mut result = analysis(vec![healthy_line(0)]);
    result.lines[0].mpn = Some("C0402".into());
    apply_tariff_results(&mut result.lines, vec![tariff(percent(0.0))]);
    finalize_analyze(&mut result);
    let line = &result.lines[0];
    assert_eq!(line.hts_code.as_deref(), Some("8532.24.00"));
    assert_eq!(line.tariff_confidence.as_deref(), Some("high"));
    assert_eq!(line.base_duty_pct.as_ref().map(|p| p.bits), Some(0.0f64.to_bits()));
    assert_eq!(line.total_duty_pct.as_ref().map(|p| p.bits), Some(0.0f64.to_bits()));
    assert_eq!(line.rate_basis.as_deref(), Some("general"));
    assert_eq!(line.is_stale, Some(false));
    assert_eq!(line.tariff_disclaimer.as_deref(), Some("Estimated for planning purposes only."));
    assert_eq!(line.risk_level, RiskLevel::Green);
}

#[test]
fn legacy_and_auto_heuristics_are_upgradeable() {
    assert!(is_upgradeable_brief(None));
    assert!(is_upgradeable_brief(Some(
        "Analyst (auto): Critical on ABC — lifecycle EOL, availability OutOfStock, stock 0."
    )));
    assert!(is_upgradeable_brief(Some(
        "Analyst: Watch on XYZ — lifecycle NRND, availability InStock, stock 12."
    )));
    assert!(!is_upgradeable_brief(Some(
        "Analyst: Critical risk on ABC. Next action: qualify AML alternate DEF immediately."
    )));
}

#[test]
fn risky_lines_get_a_brief_that_can_be_upgraded() {
    let mut risky = no_match(0);
    risky.risk_level = RiskLevel::Red;
    let mut lines = vec![risky, healthy_line(1)];
    ensure_heuristic_briefs(&mut lines);
    let brief = lines[0].agent_brief.clone().expect("brief");
    assert!(brief.starts_with("Analyst (auto):"));
    assert_eq!(brief, heuristic_brief(&lines[0]));
    assert!(is_upgradeable_brief(Some(&brief)));
    assert!(lines[1].agent_brief.is_none());
    assert_eq!(briefs_wanted(&lines), vec![0]);
    assert_eq!(usable_brief("  Analyst: buy now "), Some("Analyst: buy now".to_string()));
    assert_eq!(usable_brief("  "), None);
    assert!(apply_brief_upgrades(&mut lines, vec![(0, "Analyst: buy now".into())]));
    assert_eq!(lines[0].agent_brief.as_deref(), Some("Analyst: buy now"));
    assert!(!apply_brief_upgrades(&mut lines, vec![]));
}

#[test]
fn prompts_quote_the_alternates() {
    let mut line = healthy_line(0);
    line.aml_candidates = vec!["A\"1".into(), "B2".into()];
    let prompt = brief_prompt(&line);
    assert!(prompt.starts_with(BRIEF_TASK));
    assert!(prompt.contains("AML alternates: [\"A\\\"1\", \"B2\"]"), "{prompt}");
    assert!(prompt.contains("MPN-0"));
    assert!(switched_on(Some("1")));
    assert!(switched_on(Some("TRUE")));
    assert!(!switched_on(Some("0")));
    assert!(!switched_on(None));
}

#[test]
fn unset_or_blank_model_id_disables_client() {
    assert_eq!(parse_bedrock_model_id(None), None);
    assert_eq!(parse_bedrock_model_id(Some("")), None);
    assert_eq!(parse_bedrock_model_id(Some("   ")), None);
}

#[test]
fn default_model_id_is_nova_micro() {
    assert_eq!(DEFAULT_BEDROCK_MODEL_ID, "amazon.nova-micro-v1:0");
    assert_eq!(
        parse_bedrock_model_id(Some(DEFAULT_BEDROCK_MODEL_ID)).as_deref(),
        Some("amazon.nova-micro-v1:0")
    );
}

#[test]
fn uploads_need_a_file() {
    let missing = UploadState::new().finish().unwrap_err();
    assert_eq!(missing.status, 422);
    let state = UploadState::new()
        .take_field(UploadField::File { file_name: Some("a.csv".into()), bytes: Ok(vec![1, 2]) })
        .unwrap()
        .take_field(UploadField::Other)
        .unwrap();
    let upload = state.finish().unwrap();
    assert_eq!(upload.filename, "a.csv");
    assert_eq!(upload.bytes, vec![1, 2]);
    assert!(upload.column_mapping.is_none());
    assert_eq!(UploadState::new().take_field(UploadField::Broken("x".into())).unwrap_err().status, 400);
}

#[test]
fn unsure_mappings_are_refused_unless_confirmed() {
    assert!(low_confidence(0.29f32.to_bits()));
    assert!(!low_confidence(1.0f32.to_bits()));
    let unsure = || {
        let mut parse = parsed(vec![]);
        parse.mapping_confidence = 0.1f32.to_bits();
        parse
    };
    assert!(matches!(accept_parse(false, Ok(unsure())), Err(AnalyzePipelineError::LowMappingConfidence)));
    assert!(accept_parse(true, Ok(unsure())).is_ok());
    assert!(matches!(
        accept_parse(true, Err(GatewayError::ParserTimeout)),
        Err(AnalyzePipelineError::Parser(GatewayError::ParserTimeout))
    ));
    assert_eq!(analyze_pipeline_error_response(AnalyzePipelineError::LowMappingConfidence).status, 422);
    assert!(parser_error_response(GatewayError::ParserTimeout).status >= 400);
}

#[test]
fn questions_follow_the_lines() {
    let inputs = enrich_inputs(&vec![parsed_line(Some("A1")), parsed_line(None)]);
    assert_eq!(inputs.len(), 2);
    assert_eq!(inputs[0].mpn, "A1");
    assert_eq!(inputs[1].mpn, "");
    let tariffs = tariff_inputs(&vec![healthy_line(0)]);
    assert_eq!(tariffs[0].mpn, "MPN-0");
    let mut result = analysis(vec![]);
    warn_of_failure(&mut result, "TARIFF_FAILED", &GatewayError::TariffTimeout);
    assert_eq!(result.warnings.len(), 1);
    assert!(tariff_timeout_secs(1000) >= tariff_timeout_secs(1));
    assert!(enrich_timeout_secs(1000, false) >= enrich_timeout_secs(1000, true));
}

#[test]
fn normalize_period_end_converts_unix_seconds() {
    let iso = normalize_period_end(Some("1710000000"));
    assert!(iso.as_ref().expect("iso").starts_with("2024-03-"));
}

#[test]
fn normalize_period_end_passes_through_rfc3339() {
    let raw = "2026-08-30T15:46:38.178491650+00:00";
    assert_eq!(normalize_period_end(Some(raw)).as_deref(), Some(raw));
}
