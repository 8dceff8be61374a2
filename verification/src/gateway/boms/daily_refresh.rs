//! Keeping stored boms up to date with the parts cache.

use vstd::prelude::*;
use vstd::string::*;

use super::types::{band, bom_summary_fields, risk_share, BomRecord, BomRecordView, BomSummaryView};
use crate::gateway::analyze::{
    answer_at, apply_enrichment_results, enriched, finalize_analyze, is_finalized, line_views, AnalyzeSummary,
    AnalyzeView, AnalyzedLine, LineView,
};
use crate::model::enrichment::{EnrichInput, EnrichInputView, EnrichResult};
use crate::text::copy_opt;

verus! {

/// How long to wait before the first refresh, in seconds.
pub const DEFAULT_INITIAL_DELAY_SECS: u64 = 900;

/// How long to wait between refreshes, in seconds.
pub const DEFAULT_INTERVAL_SECS: u64 = 86_400;

/// What enrichment is asked about a line.
pub open spec fn line_question(line: LineView) -> EnrichInputView {
    EnrichInputView {
        mpn: match line.mpn {
            Some(mpn) => mpn,
            None => Seq::empty(),
        },
        manufacturer: line.manufacturer,
    }
}

/// The contents of questions.
pub open spec fn question_views(inputs: Seq<EnrichInput>) -> Seq<EnrichInputView> {
    inputs.map_values(|i: EnrichInput| i@)
}

/// What enrichment is asked about lines.
pub fn line_questions(lines: &Vec<AnalyzedLine>) -> (r: Vec<EnrichInput>)
    ensures
        question_views(r@) == line_views(lines@).map_values(|l: LineView| line_question(l)),
{
    let mut out: Vec<EnrichInput> = Vec::new();
    let mut i: usize = 0;
    while i < lines.len()
        invariant
            i <= lines@.len(),
            out@.len() == i,
            forall|j: int| 0 <= j < i ==> (#[trigger] out@[j])@ == line_question(lines@[j]@),
        decreases lines@.len() - i,
    {
        let line = &lines[i];
        out.push(
            EnrichInput {
                mpn: match &line.mpn {
                    Some(mpn) => mpn.clone(),
                    None => String::new(),
                },
                manufacturer: copy_opt(&line.manufacturer),
            },
        );
        i += 1;
    }
    assert(question_views(out@) =~= line_views(lines@).map_values(|l: LineView| line_question(l)));
    out
}

/// A bom with what enrichment says on its lines, before they are scored again.
pub open spec fn overlaid(analyze: AnalyzeView, enrich: Seq<EnrichResult>) -> AnalyzeView {
    AnalyzeView {
        lines: Seq::new(
            analyze.lines.len(),
            |i: int| enriched(analyze.lines[i], answer_at(enrich, i)),
        ),
        ..analyze
    }
}

/// Puts what enrichment says on a bom's lines and scores them again. A bom
/// without lines stays as it is.
pub fn refresh_record(record: &mut BomRecord, enrich: &Vec<EnrichResult>)
    ensures
        final(record)@.summary == old(record)@.summary,
        old(record)@.analyze.lines.len() == 0 ==> final(record)@ == old(record)@,
        old(record)@.analyze.lines.len() > 0 ==> is_finalized(
            overlaid(old(record)@.analyze, enrich@),
            final(record)@.analyze,
        ),
{
    if record.analyze.lines.len() == 0 {
        return;
    }
    let ghost before = record@.analyze;
    apply_enrichment_results(&mut record.analyze.lines, enrich);
    proof {
        assert(record.analyze@.lines =~= overlaid(before, enrich@).lines);
    }
    finalize_analyze(&mut record.analyze);
}

/// A summary that shows the counts of the analyzed bom.
pub open spec fn shows(summary: BomSummaryView, counts: AnalyzeSummary) -> BomSummaryView {
    BomSummaryView {
        line_count: counts.total,
        overall_risk_score: risk_share(counts),
        at_risk_count: (counts.red_count + counts.yellow_count) as usize,
        unknown_count: counts.unknown_count,
        risk_band: band(counts),
        ..summary
    }
}

/// Brings a bom's summary up to date with its counts.
pub fn apply_summary_from_analyze(record: &mut BomRecord)
    requires
        old(record).analyze.summary.red_count + old(record).analyze.summary.yellow_count
            <= usize::MAX,
    ensures
        final(record)@ == (BomRecordView {
            summary: shows(old(record)@.summary, old(record)@.analyze.summary),
            ..old(record)@
        }),
{
    let (score, at_risk, unknown_count, risk_band) = bom_summary_fields(&record.analyze);
    record.summary.at_risk_count = at_risk;
    record.summary.overall_risk_score = score;
    record.summary.line_count = record.analyze.summary.total;
    record.summary.unknown_count = unknown_count;
    record.summary.risk_band = risk_band;
}

/// A number of seconds from a setting.
pub fn setting_secs(value: Option<&str>) -> (r: Option<u64>)
    ensures
        r is Some <==> value is Some && crate::text::number::unsigned_value(
            value->0@,
            u64::MAX as nat,
        ) is Some,
        r is Some ==> crate::text::number::unsigned_value(value->0@, u64::MAX as nat) == Some(
            r->0 as nat,
        ),
{
    match value {
        Some(text) => crate::text::number::parse_u64(text),
        None => None,
    }
}

/// Each stored line is looked up anew, by its part and its maker.
pub proof fn each_stored_line_is_looked_up(lines: &Vec<AnalyzedLine>, r: Vec<EnrichInput>, i: int)
    requires
        call_ensures(line_questions, (lines,), r),
        0 <= i < lines@.len(),
    ensures
        r@.len() == lines@.len(),
        lines@[i]@.mpn is Some ==> r@[i]@.mpn == lines@[i]@.mpn->0,
        lines@[i]@.mpn is None ==> r@[i]@.mpn.len() == 0,
        r@[i]@.manufacturer == lines@[i]@.manufacturer,
{
    let q = question_views(r@);
    assert(q.len() == r@.len());
    assert(q[i] == r@[i]@);
    assert(line_views(lines@)[i] == lines@[i]@);
}

/// A refresh keeps what the user wrote on each line, and scores the lines by what is known
/// now.
pub proof fn refreshes_keep_what_users_wrote(before: AnalyzeView, enrich: Seq<EnrichResult>, after: AnalyzeView, i: int)
    requires
        is_finalized(overlaid(before, enrich), after),
        0 <= i < before.lines.len(),
    ensures
        after.lines.len() == before.lines.len(),
        after.summary.total == before.lines.len(),
        after.upload_id == before.upload_id,
        after.lines[i].mpn == before.lines[i].mpn,
        after.lines[i].quantity == before.lines[i].quantity,
        after.lines[i].refdes == before.lines[i].refdes,
        after.lines[i].description == before.lines[i].description,
        after.lines[i].row_index == before.lines[i].row_index,
        crate::text::case::eq_ascii_case(after.lines[i].lifecycle_status, "Eol"@) ==> after.lines[i].risk_level
            == crate::gateway::analyze::RiskLevel::Red,
{
    crate::gateway::analyze::grave_lines_are_shown(overlaid(before, enrich), after, i);
}

/// A summary shows the counts of its bom and keeps what names it.
pub proof fn summaries_show_the_counts(summary: BomSummaryView, counts: AnalyzeSummary)
    requires
        counts.red_count + counts.yellow_count <= usize::MAX,
    ensures
        ({
            let shown = shows(summary, counts);
            &&& shown.line_count == counts.total
            &&& shown.at_risk_count == counts.red_count + counts.yellow_count
            &&& shown.unknown_count == counts.unknown_count
            &&& counts.red_count > 0 ==> shown.risk_band == "Critical"@
            &&& counts.red_count == 0 && counts.yellow_count > 0 ==> shown.risk_band == "Watch"@
            &&& counts.red_count == 0 && counts.yellow_count == 0 && counts.unknown_count == 0 ==> shown.risk_band
                == "Clear"@
            &&& shown.id == summary.id && shown.name == summary.name && shown.version == summary.version
            &&& shown.uploaded_at == summary.uploaded_at && shown.updated_at == summary.updated_at
            &&& shown.filename == summary.filename
        }),
{
}

/// A setting is a whole number of seconds; anything else is none.
pub proof fn settings_are_whole_seconds(value: &str, n: u64, r: Option<u64>)
    requires
        call_ensures(setting_secs, (Some(value),), r),
    ensures
        value@ == crate::text::number::dec_nat(n as nat) ==> r == Some(n),
        value@.len() == 0 ==> r is None,
{
    crate::text::number::dec_nat_value(n as nat);
}

/// A refresh scores the lines by what enrichment says now and leaves the summary to be
/// brought up to date; a bom without lines stays as it is.
pub proof fn refreshed_boms_are_scored_anew(record: &mut BomRecord, enrich: &Vec<EnrichResult>, i: int)
    requires
        call_ensures(refresh_record, (record, enrich), ()),
    ensures
        final(record)@.summary == old(record)@.summary,
        old(record)@.analyze.lines.len() == 0 ==> final(record)@ == old(record)@,
        final(record)@.analyze.lines.len() == old(record)@.analyze.lines.len(),
        0 <= i < old(record)@.analyze.lines.len() && i < enrich@.len() && enrich@[i]@.lifecycle_status
            == crate::model::enrichment::LifecycleStatus::Eol ==> final(record)@.analyze.lines[i].lifecycle_status
            == "Eol"@ && final(record)@.analyze.lines[i].risk_level == crate::gateway::analyze::RiskLevel::Red,
        0 <= i < old(record)@.analyze.lines.len() && i < enrich@.len() ==> final(record)@.analyze.lines[i].total_avail
            == enrich@[i]@.total_avail && final(record)@.analyze.lines[i].mpn == old(record)@.analyze.lines[i].mpn,
{
    if 0 <= i < old(record)@.analyze.lines.len() {
        let before = overlaid(old(record)@.analyze, enrich@);
        crate::gateway::analyze::grave_lines_are_red(before.lines[i]);
        crate::text::case::eq_ascii_case_laws("Eol"@, "Eol"@, "Eol"@);
    }
}

/// A summary that is brought up to date shows the counts of its own bom.
pub proof fn summaries_are_brought_up_to_date(record: &mut BomRecord)
    requires
        old(record).analyze.summary.red_count + old(record).analyze.summary.yellow_count <= usize::MAX,
        call_ensures(apply_summary_from_analyze, (record,), ()),
    ensures
        final(record)@.analyze == old(record)@.analyze,
        final(record)@.summary.line_count == old(record)@.analyze.summary.total,
        final(record)@.summary.at_risk_count == old(record)@.analyze.summary.red_count
            + old(record)@.analyze.summary.yellow_count,
        final(record)@.summary.unknown_count == old(record)@.analyze.summary.unknown_count,
        old(record)@.analyze.summary.red_count > 0 ==> final(record)@.summary.risk_band == "Critical"@,
        final(record)@.summary.version == old(record)@.summary.version && final(record)@.summary.id
            == old(record)@.summary.id,
{
}

} // verus!
