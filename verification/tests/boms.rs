use prokuro::gateway::analyze::{empty_summary, finalize_analyze, AnalyzeResult, AnalyzeSummary, AnalyzedLine, RiskLevel};
use prokuro::gateway::boms::analysis::{
    line_for_prompt, note_reply, overlay_changed, AnalyzeFlaggedError, LineBriefJobs,
    LINE_BRIEF_SYSTEM,
};
use prokuro::gateway::boms::briefs::{
    analyze_without_briefs, attach_line_briefs, line_fingerprint, line_key, needs_brief_refresh,
    reconcile_line_briefs, scored_fields_changed, LineBrief, LineBriefs,
};
use prokuro::gateway::boms::daily_refresh::{
    apply_summary_from_analyze, line_questions, refresh_record, setting_secs,
};
use prokuro::gateway::boms::flagged::{boms_at_risk, collect_flagged_lines};
use prokuro::gateway::boms::handlers::{
    briefs_due, is_valid_bom_id, line_enrichment, mutation_error_response, show_briefs,
    BomUploadField, BomUploadState,
};
use prokuro::gateway::boms::observability::BOM_WRITE_FAILED_MARKER;
use prokuro::gateway::boms::store::{
    add_line, bom_prefix, chrono_now, create_summary, delete_line, index_after_create,
    index_after_delete, index_key, list_boms, patch_line, replace_lines, CreateBomInput, LinePatch,
    NewLineInput, StoreError,
};
use prokuro::gateway::boms::types::{
    at_risk_count, default_bom_name, extension_for, humanize_filename_stem, overall_risk_score,
    portfolio_risk_band, scorable_line_count, BomRecord, BomSummary, RiskScore,
};
use prokuro::gateway::crm::{
    accounts_from_search, admit_sync, bom_risk_note, bom_url, line_headline, note_payload,
    search_payload, NOTE_RISK_LINES, NOTE_TO_COMPANY_ASSOCIATION,
};
use prokuro::json::{as_int, as_text, Json};
use prokuro::model::enrichment::{AvailabilityStatus, EnrichResult, LifecycleStatus, MatchStatus};

fn line(row_index: usize, mpn: &str, risk_level: RiskLevel) -> AnalyzedLine {
    AnalyzedLine {
        row_index,
        mpn: Some(mpn.to_string()),
        manufacturer: Some("Acme".to_string()),
        quantity: Some("1".to_string()),
        refdes: None,
        description: Some("part".to_string()),
        aml_candidates: Vec::new(),
        availability_status: "OutOfStock".to_string(),
        lifecycle_status: "Active".to_string(),
        match_status: "Exact".to_string(),
        factory_lead_days: Some(14),
        total_avail: 0,
        top_sellers: Vec::new(),
        risk_level,
        category: None,
        hts_code: None,
        country_of_origin: None,
        tariff_confidence: None,
        base_duty_pct: None,
        section_301_pct: None,
        total_duty_pct: None,
        tariff_notes: None,
        rate_basis: None,
        is_stale: None,
        tariff_disclaimer: None,
        entity_list_match: None,
        entity_list_notes: None,
        agent_brief: None,
    }
}

fn sample_line(row_index: usize, mpn: &str) -> AnalyzedLine {
    let mut sample = line(row_index, mpn, RiskLevel::Green);
    sample.manufacturer = Some("Murata".to_string());
    sample.refdes = Some(format!("R{row_index}"));
    sample.description = Some("resistor".to_string());
    sample.availability_status = "InStock".to_string();
    sample.total_avail = 100;
    sample
}

fn summary(red: usize, yellow: usize, unknown: usize, total: usize) -> AnalyzeSummary {
    AnalyzeSummary {
        total,
        in_stock: 0,
        out_of_stock: 0,
        eol_or_nrnd: 0,
        no_match: unknown,
        error_count: 0,
        long_lead: 0,
        red_count: red,
        yellow_count: yellow,
        green_count: total.saturating_sub(red + yellow + unknown),
        unknown_count: unknown,
    }
}

fn bom_summary(id: &str, name: &str, at_risk_count: usize, version: u64) -> BomSummary {
    BomSummary {
        id: id.to_string(),
        name: name.to_string(),
        filename: "test.csv".to_string(),
        uploaded_at: "2026-01-01T00:00:00Z".to_string(),
        version,
        updated_at: "2026-01-01T00:00:00Z".to_string(),
        line_count: 1,
        overall_risk_score: RiskScore::Stored(0.0f64.to_bits()),
        at_risk_count,
        unknown_count: 0,
        risk_band: if at_risk_count > 0 { "Watch".to_string() } else { "Clear".to_string() },
    }
}

fn analysis(id: &str, lines: Vec<AnalyzedLine>) -> AnalyzeResult {
    AnalyzeResult {
        upload_id: id.to_string(),
        source_filename: "test.csv".to_string(),
        sheet_name: None,
        mapping_confidence: 0.9f32.to_bits(),
        summary: empty_summary(),
        lines,
        top_risks: Vec::new(),
        warnings: Vec::new(),
        stats: Json::Object(Vec::new()),
        analyzed_at: "2026-01-01T00:00:00Z".to_string(),
    }
}

fn record(id: &str, name: &str, version: u64, lines: Vec<AnalyzedLine>) -> BomRecord {
    BomRecord { summary: bom_summary(id, name, 0, version), analyze: analysis(id, lines) }
}

fn seeded(id: &str, lines: Vec<AnalyzedLine>) -> BomRecord {
    let mut analyze = analysis(id, lines);
    finalize_analyze(&mut analyze);
    let input = CreateBomInput {
        account_id: "account-a".to_string(),
        email: Some("a@example.com".to_string()),
        name: None,
        filename: "test.csv".to_string(),
        file_bytes: b"mpn,qty\nabc,1".to_vec(),
        content_type: Some("text/csv".to_string()),
        analyze,
    };
    BomRecord { summary: create_summary(&input), analyze: input.analyze }
}

fn brief(fingerprint: &str, text: &str) -> LineBrief {
    LineBrief {
        fingerprint: fingerprint.into(),
        text: text.into(),
        updated_at: "2026-01-01T00:00:00Z".into(),
    }
}

fn patch(mpn: &str, quantity: Option<&str>) -> LinePatch {
    LinePatch {
        mpn: Some(mpn.to_string()),
        manufacturer: None,
        quantity: quantity.map(str::to_string),
        refdes: None,
        description: None,
    }
}

#[test]
fn fingerprint_changes_when_stock_changes() {
    let mut before = line(0, "OOS-1", RiskLevel::Yellow);
    let after = before.clone();
    before.total_avail = 12;
    assert_ne!(line_fingerprint(&before), line_fingerprint(&after));
    assert!(scored_fields_changed(&vec![before], &vec![after]));
}

#[test]
fn fingerprint_match_skips_nova() {
    let flagged = line(1, "OOS-1", RiskLevel::Yellow);
    let fingerprint = line_fingerprint(&flagged);
    let mut existing = LineBriefs::new();
    existing.insert(&line_key(1), brief(&fingerprint, "stock is gone"));
    let lines = vec![flagged];
    let (next, to_analyze) = reconcile_line_briefs(&lines, &existing);
    assert!(to_analyze.is_empty());
    assert!(next.same_as(&existing));
    assert!(!needs_brief_refresh(&vec![line(1, "OOS-1", RiskLevel::Yellow)], &existing));
}

#[test]
fn green_line_is_dropped_from_briefs() {
    let mut existing = LineBriefs::new();
    existing.insert(&line_key(0), brief("old", "was yellow"));
    let lines = vec![line(0, "OK-1", RiskLevel::Green)];
    let (next, to_analyze) = reconcile_line_briefs(&lines, &existing);
    assert!(to_analyze.is_empty());
    assert!(next.lines.entries.is_empty());
}

#[test]
fn missing_brief_needs_refresh() {
    let flagged = line(2, "EOL-1", RiskLevel::Red);
    assert!(needs_brief_refresh(&vec![flagged], &LineBriefs::new()));
}

#[test]
fn attach_skips_empty_text() {
    let mut lines = vec![line(0, "OOS-1", RiskLevel::Yellow)];
    let mut briefs = LineBriefs::new();
    briefs.insert(&line_key(0), brief("x", ""));
    attach_line_briefs(&mut lines, &briefs);
    assert!(lines[0].agent_brief.is_none());
}

#[test]
fn briefs_are_shown_and_not_kept_in_the_analysis() {
    let mut shown = seeded("bom-brief", vec![line(0, "OOS-1", RiskLevel::Yellow)]);
    let mut briefs = LineBriefs::new();
    briefs.insert("0", brief(&line_fingerprint(&shown.analyze.lines[0]), "Distributor stock is zero."));
    assert!(!briefs_due(false, &shown.analyze.lines, &briefs));
    show_briefs(&mut shown, &briefs);
    assert_eq!(shown.analyze.lines[0].agent_brief.as_deref(), Some("Distributor stock is zero."));
    assert!(analyze_without_briefs(&shown.analyze).lines[0].agent_brief.is_none());
}

#[test]
fn line_prompt_is_system_and_json_without_brief() {
    let mut flagged = line(0, "OOS-1", RiskLevel::Yellow);
    flagged.agent_brief = Some("stale".into());
    assert!(!LINE_BRIEF_SYSTEM.is_empty());
    let bare = line_for_prompt(&flagged);
    assert_eq!(bare.mpn.as_deref(), Some("OOS-1"));
    assert!(bare.agent_brief.is_none());
}

#[test]
fn failed_reply_keeps_the_old_brief() {
    let flagged = line(0, "OOS-1", RiskLevel::Yellow);
    let mut existing = LineBriefs::new();
    existing.insert("0", brief("old", "old text"));
    let mut next = LineBriefs::new();
    note_reply(&mut next, &flagged, None, &existing, "now");
    assert_eq!(next.get("0").map(|b| b.text.as_str()), Some("old text"));
    note_reply(&mut next, &flagged, Some("new text".into()), &existing, "now");
    assert_eq!(next.get("0").map(|b| b.text.as_str()), Some("new text"));
    assert_eq!(next.get("0").map(|b| b.updated_at.as_str()), Some("now"));
}

#[test]
fn kick_while_running_queues_latest_lines() {
    let mut jobs = LineBriefJobs::new();
    let (key, _) = jobs
        .try_begin_line_brief_job("account-a", "bom-q", vec![line(9, "FIRST", RiskLevel::Yellow)])
        .expect("first job begins");
    assert_eq!(key, "account-a/bom-q");
    assert!(jobs
        .try_begin_line_brief_job("account-a", "bom-q", vec![line(0, "A", RiskLevel::Yellow)])
        .is_none());
    let queued = jobs.finish_line_brief_job(&key).expect("pending");
    assert_eq!(queued[0].mpn.as_deref(), Some("A"));
    assert!(jobs.finish_line_brief_job(&key).is_none());
}

#[test]
fn overlay_is_unchanged_for_equal_fingerprints() {
    let seeded = seeded("bom-1", vec![line(0, "OOS-1", RiskLevel::Yellow)]);
    let before = seeded.analyze.lines.clone();
    assert!(!overlay_changed(&before, &seeded.analyze.lines));
    let mut after = before.clone();
    after[0].total_avail = 42;
    assert!(overlay_changed(&before, &after));
    assert!(AnalyzeFlaggedError::Serialize("x".into()).message().contains("x"));
}

#[test]
fn daily_refresh_does_not_hook_line_briefs() {
    let mut refreshed = seeded("bom-1", vec![line(0, "OOS-1", RiskLevel::Yellow)]);
    assert_eq!(line_questions(&refreshed.analyze.lines)[0].mpn, "OOS-1");
    refresh_record(&mut refreshed, &vec![part_answer(42)]);
    assert_eq!(refreshed.analyze.lines[0].total_avail, 42);
    assert!(refreshed.analyze.lines.iter().all(|l| l.agent_brief.is_none()));
    assert!(refreshed.analyze.top_risks.iter().all(|l| l.agent_brief.is_none()));
    assert_eq!(refreshed.summary.version, 1);
}

fn part_answer(avail: i64) -> EnrichResult {
    EnrichResult {
        input_index: 0,
        provider_part_id: None,
        matched_mpn: None,
        matched_manufacturer: None,
        match_status: MatchStatus::Exact,
        total_avail: avail,
        availability_status: AvailabilityStatus::InStock,
        lifecycle_status: LifecycleStatus::Active,
        factory_lead_days: None,
        top_sellers: Vec::new(),
        hts_code: None,
        country_of_origin: None,
        category: None,
        fetched_at: None,
        source: None,
    }
}

#[test]
fn settings_in_seconds_are_read() {
    assert_eq!(setting_secs(Some("5")), Some(5));
    assert_eq!(setting_secs(Some("x")), None);
    assert_eq!(setting_secs(None), None);
    let mut retired = line(0, "EOL-1", RiskLevel::Red);
    retired.lifecycle_status = "Eol".into();
    let mut stale = seeded("bom-1", vec![retired]);
    stale.summary.risk_band = "Clear".into();
    apply_summary_from_analyze(&mut stale);
    assert_eq!(stale.summary.risk_band, "Critical");
    assert_eq!(stale.summary.at_risk_count, 1);
}

#[test]
fn marker_file_matches_constant() {
    let from_file = "bom_write_failed";
    assert_eq!(from_file, BOM_WRITE_FAILED_MARKER);
}

#[test]
fn empty_account_returns_no_items() {
    assert!(boms_at_risk(&vec![]).is_empty());
    let result = collect_flagged_lines("account-a", vec![]);
    assert_eq!(result.account_id, "account-a");
    assert!(result.items.is_empty());
}

#[test]
fn mixed_risk_keeps_only_red_and_yellow() {
    let summaries = vec![bom_summary("bom-mix", "Mixed Board", 2, 3)];
    assert_eq!(boms_at_risk(&summaries), vec!["bom-mix"]);
    let result = collect_flagged_lines(
        "account-a",
        vec![record(
            "bom-mix",
            "Mixed Board",
            3,
            vec![
                line(0, "GREEN-1", RiskLevel::Green),
                line(1, "RED-1", RiskLevel::Red),
                line(2, "YELLOW-1", RiskLevel::Yellow),
                line(3, "UNKNOWN-1", RiskLevel::Unknown),
            ],
        )],
    );
    let mpns: Vec<_> = result.items.iter().map(|item| item.line.mpn.as_deref()).collect();
    assert_eq!(mpns, vec![Some("RED-1"), Some("YELLOW-1")]);
    assert!(result.items.iter().all(|item| {
        item.bom_id == "bom-mix" && item.bom_name == "Mixed Board" && item.bom_version == 3
    }));
}

#[test]
fn skips_boms_with_zero_at_risk_count() {
    let summaries = vec![
        bom_summary("bom-clear", "Clear Board", 0, 1),
        bom_summary("bom-watch", "Watch Board", 1, 1),
    ];
    assert_eq!(boms_at_risk(&summaries), vec!["bom-watch"]);
    let result = collect_flagged_lines(
        "account-a",
        vec![record(
            "bom-watch",
            "Watch Board",
            1,
            vec![line(0, "GREEN-2", RiskLevel::Green), line(1, "YELLOW-2", RiskLevel::Yellow)],
        )],
    );
    assert_eq!(result.items.len(), 1);
    assert_eq!(result.items[0].bom_id, "bom-watch");
    assert_eq!(result.items[0].line.mpn.as_deref(), Some("YELLOW-2"));
}

#[test]
fn write_failure_returns_500_with_clear_body() {
    let reply = mutation_error_response(StoreError::Write("simulated s3 failure".into()));
    assert_eq!(reply.status, 500);
    assert_eq!(as_text(reply.body.get("error")).as_deref(), Some("failed to save BOM changes"));
    assert_eq!(as_text(reply.body.get("detail")).as_deref(), Some("simulated s3 failure"));
}

#[test]
fn conflict_returns_409() {
    let reply = mutation_error_response(StoreError::Conflict);
    assert_eq!(reply.status, 409);
    assert!(as_text(reply.body.get("error")).unwrap().contains("updated elsewhere"));
}

#[test]
fn not_found_returns_404() {
    assert_eq!(mutation_error_response(StoreError::NotFound).status, 404);
}

#[test]
fn portfolio_band_prefers_critical_then_watch_then_unknown() {
    assert_eq!(portfolio_risk_band(&summary(1, 0, 3, 4)), "Critical");
    assert_eq!(portfolio_risk_band(&summary(0, 2, 3, 5)), "Watch");
    assert_eq!(portfolio_risk_band(&summary(0, 0, 4, 4)), "Unknown");
    assert_eq!(portfolio_risk_band(&summary(0, 0, 0, 4)), "Clear");
}

#[test]
fn overall_score_ignores_unknown_lines() {
    assert_eq!(scorable_line_count(&summary(1, 1, 8, 10)), 2);
    assert_eq!(
        overall_risk_score(&summary(1, 1, 8, 10)),
        RiskScore::Share { at_risk: 2, scorable: 2 }
    );
    assert_eq!(at_risk_count(&summary(0, 0, 10, 10)), 0);
    assert_eq!(
        overall_risk_score(&summary(0, 0, 10, 10)),
        RiskScore::Share { at_risk: 0, scorable: 0 }
    );
}

#[test]
fn names_come_from_file_names() {
    assert_eq!(humanize_filename_stem("power_board-rev2"), "Power Board REV2");
    assert_eq!(default_bom_name("power_board.csv", None), "Power Board");
    assert_eq!(default_bom_name("power_board.csv", Some(" Mine ")), "Mine");
    assert_eq!(extension_for("a.XLSX"), ".XLSX");
    assert!(is_valid_bom_id("bom-1"));
    assert!(!is_valid_bom_id("../x"));
    assert!(!is_valid_bom_id(""));
    assert_eq!(bom_prefix("acc", "bom"), "acc/bom");
    assert!(index_key("acc").starts_with("acc/"));
}

#[test]
fn put_replace_lines_persists_and_bumps_version() {
    let stored = seeded("bom-put", vec![sample_line(0, "A"), sample_line(1, "B")]);
    let updated = replace_lines(
        stored,
        1,
        vec![sample_line(0, "Z"), sample_line(1, "Y"), sample_line(2, "X")],
    )
    .expect("replace");
    assert_eq!(updated.summary.version, 2);
    assert_eq!(updated.analyze.lines.len(), 3);
    assert_eq!(updated.analyze.lines[0].mpn.as_deref(), Some("Z"));
    assert_eq!(updated.analyze.lines[2].mpn.as_deref(), Some("X"));
    assert_eq!(updated.summary.line_count, 3);
}

#[test]
fn patch_line_updates_only_that_line() {
    let stored = seeded("bom-patch", vec![sample_line(0, "A"), sample_line(1, "B")]);
    let (fetched, edited) = patch_line(stored, 1, 1, &patch("B-NEW", Some("42"))).expect("patch");
    assert_eq!(edited.version, 2);
    assert_eq!(edited.line.mpn.as_deref(), Some("B-NEW"));
    assert_eq!(edited.line.quantity.as_deref(), Some("42"));
    assert_eq!(fetched.analyze.lines[0].mpn.as_deref(), Some("A"));
    assert_eq!(fetched.analyze.lines[1].mpn.as_deref(), Some("B-NEW"));
    assert_eq!(fetched.analyze.lines[1].manufacturer.as_deref(), Some("Murata"));
}

#[test]
fn delete_line_shifts_subsequent_indices() {
    let stored = seeded(
        "bom-del",
        vec![sample_line(10, "A"), sample_line(20, "B"), sample_line(30, "C")],
    );
    let (fetched, deleted) = delete_line(stored, 1, 1).expect("delete line");
    assert_eq!(deleted.version, 2);
    assert_eq!(deleted.line_count, 2);
    assert_eq!(fetched.analyze.lines.len(), 2);
    assert_eq!(fetched.analyze.lines[0].mpn.as_deref(), Some("A"));
    assert_eq!(fetched.analyze.lines[1].mpn.as_deref(), Some("C"));
    assert_eq!(fetched.analyze.lines[1].row_index, 30);
}

#[test]
fn add_line_appends_at_end() {
    let stored = seeded("bom-add", vec![sample_line(0, "A")]);
    let input = NewLineInput {
        mpn: Some("NEW".to_string()),
        manufacturer: Some("TI".to_string()),
        quantity: Some("3".to_string()),
        refdes: Some("U9".to_string()),
        description: Some("MCU".to_string()),
    };
    let (fetched, added) = add_line(stored, 1, &input).expect("add");
    assert_eq!(added.version, 2);
    assert_eq!(added.line_index, 1);
    assert_eq!(added.line.mpn.as_deref(), Some("NEW"));
    assert_eq!(fetched.analyze.lines.len(), 2);
    assert_eq!(fetched.summary.line_count, 2);
    let question = line_enrichment(&added.line).expect("question");
    assert_eq!(question.mpn, "NEW");
}

#[test]
fn stale_version_rejects_put_and_patch() {
    let stored = seeded("bom-conflict", vec![sample_line(0, "A")]);
    let (fetched, _) = patch_line(stored, 0, 1, &patch("A2", None)).expect("first edit");
    assert_eq!(fetched.summary.version, 2);
    assert_eq!(fetched.analyze.lines[0].mpn.as_deref(), Some("A2"));
    let again = BomRecord {
        summary: fetched.summary.clone(),
        analyze: fetched.analyze.clone(),
    };
    let put_err = replace_lines(again, 1, vec![sample_line(0, "Z")]).expect_err("stale put");
    assert!(matches!(put_err, StoreError::Conflict));
    let patch_err = patch_line(fetched, 0, 1, &patch("Z", None)).expect_err("stale patch");
    assert!(matches!(patch_err, StoreError::Conflict));
}

#[test]
fn lines_out_of_range_are_not_found() {
    let stored = seeded("bom-1", vec![sample_line(0, "A")]);
    assert!(matches!(patch_line(stored, 7, 1, &patch("Z", None)), Err(StoreError::LineNotFound)));
    let stored = seeded("bom-1", vec![sample_line(0, "A")]);
    assert!(matches!(delete_line(stored, 1, 1), Err(StoreError::LineNotFound)));
}

#[test]
fn index_follows_creation_and_deletion() {
    let one = bom_summary("bom-1", "One", 0, 1);
    let index = index_after_create(vec![], &one);
    assert_eq!(list_boms(&index).len(), 1);
    let index = index_after_delete(index, "bom-1").expect("delete");
    assert!(list_boms(&index).is_empty());
    assert!(matches!(index_after_delete(index, "bom-1"), Err(StoreError::NotFound)));
}

#[test]
fn uploaded_at_is_iso8601() {
    let value = chrono_now();
    assert!(value.ends_with('Z'));
    assert!(value.contains('T'));
    assert!(value.len() >= 20 && value.chars().nth(4) == Some('-'));
}

#[test]
fn bom_uploads_need_a_file_and_an_analysis() {
    assert!(BomUploadState::new().finish().unwrap_err().status >= 400);
    let state = BomUploadState::new()
        .take_field(BomUploadField::File {
            file_name: Some("a.csv".into()),
            content_type: None,
            bytes: Ok(vec![1]),
        })
        .unwrap()
        .take_field(BomUploadField::Analyze { parsed: Ok(Some(analysis("bom-1", vec![]))) })
        .unwrap()
        .take_field(BomUploadField::Name { text: Some("Mine".into()) })
        .unwrap();
    let upload = state.finish().unwrap();
    assert_eq!(upload.filename, "a.csv");
    assert_eq!(upload.name.as_deref(), Some("Mine"));
    assert_eq!(upload.analyze.upload_id, "bom-1");
    let broken = BomUploadState::new().take_field(BomUploadField::Analyze { parsed: Err("bad".into()) });
    assert!(broken.unwrap_err().status >= 400);
}

fn crm_line(mpn: &str, risk: RiskLevel) -> AnalyzedLine {
    let mut flagged = line(0, mpn, risk);
    flagged.manufacturer = Some("Texas Instruments".into());
    flagged.quantity = Some("10".into());
    flagged.refdes = Some("U1".into());
    flagged.description = None;
    flagged.availability_status = "instock".into();
    flagged.lifecycle_status = "active".into();
    flagged.match_status = "exact".into();
    flagged.factory_lead_days = Some(140);
    flagged.total_avail = 5000;
    flagged
}

fn crm_record(lines: Vec<AnalyzedLine>) -> BomRecord {
    let mut analyze = analysis("upload-1", lines);
    analyze.summary = AnalyzeSummary {
        total: analyze.lines.len(),
        in_stock: 1,
        out_of_stock: 1,
        eol_or_nrnd: 1,
        no_match: 0,
        error_count: 0,
        long_lead: 1,
        red_count: 1,
        yellow_count: 1,
        green_count: 0,
        unknown_count: 0,
    };
    BomRecord {
        summary: BomSummary {
            id: "bom-1".into(),
            name: "Power Board".into(),
            filename: "power-board.xlsx".into(),
            uploaded_at: "2026-08-30T00:00:00Z".into(),
            version: 1,
            updated_at: "2026-08-30T00:00:00Z".into(),
            line_count: analyze.lines.len(),
            overall_risk_score: RiskScore::Stored(6.5f64.to_bits()),
            at_risk_count: 2,
            unknown_count: 0,
            risk_band: "Critical".into(),
        },
        analyze,
    }
}

#[test]
fn note_leads_with_the_risk_band_and_counts() {
    let note = bom_risk_note(&crm_record(vec![crm_line("LM358DR", RiskLevel::Red)]), "6.5", None);
    assert!(note.starts_with("Prokuro BOM risk — Power Board"));
    assert!(note.contains("Risk band: Critical (score 6.5/10)"));
    assert!(note.contains("1 lines · 2 at risk · 1 EOL/NRND · 1 out of stock · 1 long lead"));
}

#[test]
fn note_lists_only_flagged_lines() {
    let note = bom_risk_note(
        &crm_record(vec![
            crm_line("RED-PART", RiskLevel::Red),
            crm_line("GREEN-PART", RiskLevel::Green),
        ]),
        "6.5",
        None,
    );
    assert!(note.contains("RED-PART"));
    assert!(!note.contains("GREEN-PART"));
}

#[test]
fn note_caps_the_risk_list() {
    let lines: Vec<AnalyzedLine> =
        (0..12).map(|index| crm_line(&format!("PART-{index}"), RiskLevel::Red)).collect();
    let note = bom_risk_note(&crm_record(lines), "6.5", None);
    assert_eq!(note.matches('•').count(), NOTE_RISK_LINES);
}

#[test]
fn note_includes_the_bom_link_when_configured() {
    let record = crm_record(vec![crm_line("LM358DR", RiskLevel::Red)]);
    assert!(bom_risk_note(&record, "6.5", Some("https://app.prokuro.ai/bom/bom-1"))
        .contains("Full BOM: https://app.prokuro.ai/bom/bom-1"));
    assert!(!bom_risk_note(&record, "6.5", None).contains("Full BOM"));
    assert_eq!(bom_url("https://app.prokuro.ai", "bom-1"), "https://app.prokuro.ai/bom/bom-1");
}

#[test]
fn line_headline_summarizes_why_the_part_is_flagged() {
    let mut line = crm_line("LM358DR", RiskLevel::Red);
    line.lifecycle_status = "eol".into();
    line.availability_status = "outofstock".into();
    line.total_avail = 0;
    line.factory_lead_days = Some(140);
    let headline = line_headline(&line);
    assert!(headline.contains("LM358DR"));
    assert!(headline.contains("EOL"));
    assert!(headline.contains("out of stock"));
    assert!(headline.contains("20 wk lead"));
}

#[test]
fn note_payload_associates_the_note_with_the_company() {
    let payload = note_payload("company-1", "body", "2026-08-30T00:00:00Z");
    assert_eq!(as_text(payload.pointer(&["properties", "hs_note_body"])).as_deref(), Some("body"));
    assert_eq!(
        as_text(payload.pointer(&["properties", "hs_timestamp"])).as_deref(),
        Some("2026-08-30T00:00:00Z")
    );
    let first = match payload.get("associations") {
        Some(Json::Array(items)) => &items[0],
        other => panic!("unexpected: {other:?}"),
    };
    assert_eq!(as_text(first.pointer(&["to", "id"])).as_deref(), Some("company-1"));
    let kind = match first.get("types") {
        Some(Json::Array(items)) => &items[0],
        other => panic!("unexpected: {other:?}"),
    };
    assert_eq!(as_int(kind.get("associationTypeId")), Some(NOTE_TO_COMPANY_ASSOCIATION as i64));
}

fn object(fields: Vec<(&str, Json)>) -> Json {
    Json::Object(fields.into_iter().map(|(name, value)| (name.to_string(), value)).collect())
}

#[test]
fn accounts_parse_from_a_search_payload() {
    let response = object(vec![(
        "results",
        Json::Array(vec![
            object(vec![
                ("id", Json::text("1")),
                (
                    "properties",
                    object(vec![("name", Json::text("Acme Robotics")), ("domain", Json::text("acme.com"))]),
                ),
            ]),
            object(vec![
                ("id", Json::text("2")),
                ("properties", object(vec![("name", Json::text("")), ("domain", Json::Null)])),
            ]),
            object(vec![("properties", object(vec![("name", Json::text("No id"))]))]),
        ]),
    )]);
    let accounts = accounts_from_search(&response);
    assert_eq!(accounts.len(), 2);
    assert_eq!(accounts[0].name, "Acme Robotics");
    assert_eq!(accounts[0].domain.as_deref(), Some("acme.com"));
    assert_eq!(accounts[1].name, "Unnamed company");
    assert_eq!(accounts[1].domain, None);
}

#[test]
fn accounts_are_empty_when_the_payload_has_no_results() {
    assert!(accounts_from_search(&Json::Object(Vec::new())).is_empty());
    assert_eq!(as_text(search_payload("acme").get("query")).as_deref(), Some("acme"));
    assert!(admit_sync("1", false).is_err());
    assert_eq!(admit_sync(" 1 ", true).unwrap(), "1");
}
