//! Changes to stored boms.

use vstd::prelude::*;
use vstd::string::*;

use super::daily_refresh::shows;
use super::types::{
    band, bom_name, bom_summary_fields, default_bom_name, risk_share, BomRecord, BomRecordView, BomSummary,
    BomSummaryView,
};
use crate::clock::now_seconds;
use crate::gateway::analyze::{finalize_analyze, grave_lines_are_red, grave_lines_are_shown, is_finalized, line_views, scored, scored_lines, summary_adds_up, AnalyzeResult, AnalyzeSummary, AnalyzeView, AnalyzedLine, LineView, RiskLevel};
use crate::json::JsonView;
use crate::model::enrichment::json_views;
use crate::sorting::{lex_lt, text_key, text_less};
use crate::text::{copy_opt, is_blank, owned, same, trim};

verus! {

/// Why a bom cannot be read or changed.
#[derive(Debug)]
pub enum StoreError {
    Read(String),
    Write(String),
    NotFound,
    Conflict,
    LineNotFound,
}

/// The content of a store error.
#[verifier::ext_equal]
pub enum StoreErrorView {
    Read(Seq<char>),
    Write(Seq<char>),
    NotFound,
    Conflict,
    LineNotFound,
}

impl View for StoreError {
    type V = StoreErrorView;

    open spec fn view(&self) -> StoreErrorView {
        match self {
            StoreError::Read(m) => StoreErrorView::Read(m@),
            StoreError::Write(m) => StoreErrorView::Write(m@),
            StoreError::NotFound => StoreErrorView::NotFound,
            StoreError::Conflict => StoreErrorView::Conflict,
            StoreError::LineNotFound => StoreErrorView::LineNotFound,
        }
    }
}

/// The message of a store error.
pub open spec fn store_error_text(error: StoreErrorView) -> Seq<char> {
    match error {
        StoreErrorView::Read(m) => "storage read failed: "@ + m,
        StoreErrorView::Write(m) => "storage write failed: "@ + m,
        StoreErrorView::NotFound => "bom not found"@,
        StoreErrorView::Conflict => "version conflict"@,
        StoreErrorView::LineNotFound => "line not found"@,
    }
}

impl StoreError {
    /// The message.
    pub fn message(&self) -> (r: String)
        ensures
            r@ == store_error_text(self@),
    {
        match self {
            StoreError::Read(m) => {
                let mut s = owned("storage read failed: ");
                s.append(m.as_str());
                s
            },
            StoreError::Write(m) => {
                let mut s = owned("storage write failed: ");
                s.append(m.as_str());
                s
            },
            StoreError::NotFound => owned("bom not found"),
            StoreError::Conflict => owned("version conflict"),
            StoreError::LineNotFound => owned("line not found"),
        }
    }
}

/// What is to change on a line. Fields that are absent stay as they are.
#[derive(Debug)]
pub struct LinePatch {
    pub mpn: Option<String>,
    pub manufacturer: Option<String>,
    pub quantity: Option<String>,
    pub refdes: Option<String>,
    pub description: Option<String>,
}

/// A line that is added.
#[derive(Debug)]
pub struct NewLineInput {
    pub mpn: Option<String>,
    pub manufacturer: Option<String>,
    pub quantity: Option<String>,
    pub refdes: Option<String>,
    pub description: Option<String>,
}

/// The content of a patch or an added line.
#[verifier::ext_equal]
pub struct LineFields {
    pub mpn: Option<Seq<char>>,
    pub manufacturer: Option<Seq<char>>,
    pub quantity: Option<Seq<char>>,
    pub refdes: Option<Seq<char>>,
    pub description: Option<Seq<char>>,
}

impl View for LinePatch {
    type V = LineFields;

    open spec fn view(&self) -> LineFields {
        LineFields {
            mpn: self.mpn.deep_view(),
            manufacturer: self.manufacturer.deep_view(),
            quantity: self.quantity.deep_view(),
            refdes: self.refdes.deep_view(),
            description: self.description.deep_view(),
        }
    }
}

impl View for NewLineInput {
    type V = LineFields;

    open spec fn view(&self) -> LineFields {
        LineFields {
            mpn: self.mpn.deep_view(),
            manufacturer: self.manufacturer.deep_view(),
            quantity: self.quantity.deep_view(),
            refdes: self.refdes.deep_view(),
            description: self.description.deep_view(),
        }
    }
}

/// A changed or added line.
#[derive(Debug)]
pub struct LineEditResult {
    pub version: u64,
    pub line_index: usize,
    pub line: AnalyzedLine,
}

/// What is left after a line was taken out.
#[derive(Debug, Clone, Copy, PartialEq, Eq, Structural)]
pub struct DeleteLineResult {
    pub version: u64,
    pub line_count: usize,
}

/// A bom that is first stored.
#[derive(Debug)]
pub struct CreateBomInput {
    pub account_id: String,
    pub email: Option<String>,
    pub name: Option<String>,
    pub filename: String,
    pub file_bytes: Vec<u8>,
    pub content_type: Option<String>,
    pub analyze: AnalyzeResult,
}

/// The present as boms record it.
pub fn chrono_now() -> (r: String)
    ensures
        crate::clock::is_clock_text(r@),
{
    now_seconds()
}

/// A summary from before versions were kept counts as the first version.
pub open spec fn normalized(summary: BomSummaryView) -> BomSummaryView {
    BomSummaryView {
        version: if summary.version == 0 {
            1
        } else {
            summary.version
        },
        updated_at: if summary.updated_at.len() == 0 {
            summary.uploaded_at
        } else {
            summary.updated_at
        },
        ..summary
    }
}

/// A summary from before versions were kept counts as the first version.
pub fn normalize_summary(summary: BomSummary) -> (r: BomSummary)
    ensures
        r@ == normalized(summary@),
{
    let mut summary = summary;
    if summary.version == 0 {
        summary.version = 1;
    }
    if summary.updated_at.as_str().is_empty() {
        summary.updated_at = summary.uploaded_at.clone();
    }
    summary
}

/// Refuses a change that was made to another version.
pub fn ensure_version(summary: &BomSummary, expected_version: u64) -> (r: Result<(), StoreError>)
    ensures
        r is Ok <==> summary.version == expected_version,
        r is Err ==> r->Err_0@ == StoreErrorView::Conflict,
{
    if summary.version != expected_version {
        return Err(StoreError::Conflict);
    }
    Ok(())
}

/// The next version.
pub open spec fn next_version(version: u64) -> u64 {
    if version == u64::MAX {
        u64::MAX
    } else {
        (version + 1) as u64
    }
}

/// A summary after a change.
pub open spec fn bumped(
    summary: BomSummaryView,
    counts: AnalyzeSummary,
    at: Seq<char>,
) -> BomSummaryView {
    shows(
        BomSummaryView { version: next_version(summary.version), updated_at: at, ..summary },
        counts,
    )
}

/// Brings a summary up to date after a change at that time.
pub fn bump_summary_after_edit(summary: &mut BomSummary, analyze: &AnalyzeResult, at: String)
    requires
        analyze.summary.red_count + analyze.summary.yellow_count <= usize::MAX,
    ensures
        final(summary)@ == bumped(old(summary)@, analyze@.summary, at@),
{
    summary.version = summary.version.saturating_add(1);
    summary.updated_at = at;
    summary.line_count = analyze.summary.total;
    let (overall_risk_score, at_risk_count, unknown_count, risk_band) = bom_summary_fields(analyze);
    summary.overall_risk_score = overall_risk_score;
    summary.at_risk_count = at_risk_count;
    summary.unknown_count = unknown_count;
    summary.risk_band = risk_band;
}

/// A bom after its lines were changed at that time: the lines are scored, the
/// counts are taken, and the version goes up.
pub open spec fn is_edit(
    before: BomRecordView,
    after: BomRecordView,
    lines: Seq<LineView>,
    at: Seq<char>,
) -> bool {
    &&& is_finalized(AnalyzeView { lines, ..before.analyze }, after.analyze)
    &&& after.summary == bumped(before.summary, after.analyze.summary, at)
}

fn finish_edit(record: BomRecord, lines: Vec<AnalyzedLine>, at: String) -> (r: BomRecord)
    ensures
        is_edit(record@, r@, line_views(lines@), at@),
{
    let mut record = record;
    let ghost given = record@;
    let ghost new_lines = line_views(lines@);
    record.analyze.lines = lines;
    assert(record.analyze@ == (AnalyzeView { lines: new_lines, ..given.analyze }));
    finalize_analyze(&mut record.analyze);
    proof {
        summary_adds_up(record.analyze.summary, record.analyze@.lines);
    }
    bump_summary_after_edit(&mut record.summary, &record.analyze, at);
    record
}

/// Replaces all lines, at that time.
pub fn replace_lines_at(
    record: BomRecord,
    expected_version: u64,
    lines: Vec<AnalyzedLine>,
    at: String,
) -> (r: Result<BomRecord, StoreError>)
    ensures
        record@.summary.version != expected_version ==> r is Err && r->Err_0@
            == StoreErrorView::Conflict,
        record@.summary.version == expected_version ==> r is Ok && is_edit(
            record@,
            r->Ok_0@,
            line_views(lines@),
            at@,
        ),
{
    match ensure_version(&record.summary, expected_version) {
        Ok(()) => {},
        Err(error) => {
            return Err(error);
        },
    }
    Ok(finish_edit(record, lines, at))
}

/// Replaces all lines, now.
pub fn replace_lines(record: BomRecord, expected_version: u64, lines: Vec<AnalyzedLine>) -> (r:
    Result<BomRecord, StoreError>)
    ensures
        record@.summary.version != expected_version ==> r is Err && r->Err_0@
            == StoreErrorView::Conflict,
        record@.summary.version == expected_version ==> r is Ok && is_edit(
            record@,
            r->Ok_0@,
            line_views(lines@),
            r->Ok_0@.summary.updated_at,
        ),
{
    let at = chrono_now();
    replace_lines_at(record, expected_version, lines, at)
}

/// The value where there is one, else the other.
pub open spec fn or_keep(a: Option<Seq<char>>, b: Option<Seq<char>>) -> Option<Seq<char>> {
    if a is Some {
        a
    } else {
        b
    }
}

/// A line with its fields changed. Where the part is another one, what was known
/// of the part is forgotten.
pub open spec fn patched(line: LineView, patch: LineFields) -> LineView {
    let changed = LineView {
        mpn: or_keep(patch.mpn, line.mpn),
        manufacturer: or_keep(patch.manufacturer, line.manufacturer),
        quantity: or_keep(patch.quantity, line.quantity),
        refdes: or_keep(patch.refdes, line.refdes),
        description: or_keep(patch.description, line.description),
        ..line
    };
    if patch.mpn is Some || patch.manufacturer is Some {
        LineView {
            availability_status: "Pending"@,
            match_status: "Pending"@,
            lifecycle_status: "Unknown"@,
            total_avail: 0,
            factory_lead_days: None,
            hts_code: None,
            country_of_origin: None,
            category: None,
            agent_brief: None,
            risk_level: RiskLevel::Unknown,
            ..changed
        }
    } else {
        changed
    }
}

/// Changes the fields of a line.
pub fn apply_line_patch(line: &mut AnalyzedLine, patch: &LinePatch)
    ensures
        final(line)@ == patched(old(line)@, patch@),
{
    if patch.mpn.is_some() {
        line.mpn = copy_opt(&patch.mpn);
    }
    if patch.manufacturer.is_some() {
        line.manufacturer = copy_opt(&patch.manufacturer);
    }
    if patch.quantity.is_some() {
        line.quantity = copy_opt(&patch.quantity);
    }
    if patch.refdes.is_some() {
        line.refdes = copy_opt(&patch.refdes);
    }
    if patch.description.is_some() {
        line.description = copy_opt(&patch.description);
    }
    if patch.mpn.is_some() || patch.manufacturer.is_some() {
        line.availability_status = owned("Pending");
        line.match_status = owned("Pending");
        line.lifecycle_status = owned("Unknown");
        line.total_avail = 0;
        line.factory_lead_days = None;
        line.hts_code = None;
        line.country_of_origin = None;
        line.category = None;
        line.agent_brief = None;
        line.risk_level = RiskLevel::Unknown;
    }
}

/// Why a line cannot be changed.
pub open spec fn line_fault(record: BomRecordView, line_index: usize, expected_version: u64) -> Option<
    StoreErrorView,
> {
    if record.summary.version != expected_version {
        Some(StoreErrorView::Conflict)
    } else if line_index >= record.analyze.lines.len() {
        Some(StoreErrorView::LineNotFound)
    } else {
        None
    }
}

/// Changes a line, at that time.
pub fn patch_line_at(
    record: BomRecord,
    line_index: usize,
    expected_version: u64,
    patch: &LinePatch,
    at: String,
) -> (r: Result<(BomRecord, LineEditResult), StoreError>)
    ensures
        match line_fault(record@, line_index, expected_version) {
            Some(fault) => r is Err && r->Err_0@ == fault,
            None => {
                &&& r is Ok
                &&& is_edit(
                    record@,
                    r->Ok_0.0@,
                    record@.analyze.lines.update(
                        line_index as int,
                        patched(record@.analyze.lines[line_index as int], patch@),
                    ),
                    at@,
                )
                &&& r->Ok_0.1.version == r->Ok_0.0@.summary.version
                &&& r->Ok_0.1.line_index == line_index
                &&& r->Ok_0.1.line@ == r->Ok_0.0@.analyze.lines[line_index as int]
            },
        },
{
    match ensure_version(&record.summary, expected_version) {
        Ok(()) => {},
        Err(error) => {
            return Err(error);
        },
    }
    let mut record = record;
    let ghost given = record@;
    if line_index >= record.analyze.lines.len() {
        return Err(StoreError::LineNotFound);
    }
    let mut lines: Vec<AnalyzedLine> = Vec::new();
    std::mem::swap(&mut lines, &mut record.analyze.lines);
    let ghost before = line_views(lines@);
    let mut line = lines[line_index].clone();
    apply_line_patch(&mut line, patch);
    lines.set(line_index, line);
    assert(line_views(lines@) =~= before.update(
        line_index as int,
        patched(before[line_index as int], patch@),
    ));
    let done = finish_edit(record, lines, at);
    assert(is_edit(
        given,
        done@,
        before.update(line_index as int, patched(before[line_index as int], patch@)),
        at@,
    ));
    let result = LineEditResult {
        version: done.summary.version,
        line_index,
        line: done.analyze.lines[line_index].clone(),
    };
    Ok((done, result))
}

/// Changes a line, now.
pub fn patch_line(record: BomRecord, line_index: usize, expected_version: u64, patch: &LinePatch) -> (r:
    Result<(BomRecord, LineEditResult), StoreError>)
    ensures
        match line_fault(record@, line_index, expected_version) {
            Some(fault) => r is Err && r->Err_0@ == fault,
            None => {
                &&& r is Ok
                &&& is_edit(
                    record@,
                    r->Ok_0.0@,
                    record@.analyze.lines.update(
                        line_index as int,
                        patched(record@.analyze.lines[line_index as int], patch@),
                    ),
                    r->Ok_0.0@.summary.updated_at,
                )
                &&& r->Ok_0.1.version == r->Ok_0.0@.summary.version
                &&& r->Ok_0.1.line_index == line_index
                &&& r->Ok_0.1.line@ == r->Ok_0.0@.analyze.lines[line_index as int]
            },
        },
{
    let at = chrono_now();
    patch_line_at(record, line_index, expected_version, patch, at)
}

/// Takes a line out, at that time. The lines after it move up.
pub fn delete_line_at(
    record: BomRecord,
    line_index: usize,
    expected_version: u64,
    at: String,
) -> (r: Result<(BomRecord, DeleteLineResult), StoreError>)
    ensures
        match line_fault(record@, line_index, expected_version) {
            Some(fault) => r is Err && r->Err_0@ == fault,
            None => {
                &&& r is Ok
                &&& is_edit(
                    record@,
                    r->Ok_0.0@,
                    record@.analyze.lines.remove(line_index as int),
                    at@,
                )
                &&& r->Ok_0.1.version == r->Ok_0.0@.summary.version
                &&& r->Ok_0.1.line_count == record@.analyze.lines.len() - 1
            },
        },
{
    match ensure_version(&record.summary, expected_version) {
        Ok(()) => {},
        Err(error) => {
            return Err(error);
        },
    }
    let mut record = record;
    let ghost given = record@;
    if line_index >= record.analyze.lines.len() {
        return Err(StoreError::LineNotFound);
    }
    let mut lines: Vec<AnalyzedLine> = Vec::new();
    std::mem::swap(&mut lines, &mut record.analyze.lines);
    let ghost before = line_views(lines@);
    let _ = lines.remove(line_index);
    assert(line_views(lines@) =~= before.remove(line_index as int));
    let done = finish_edit(record, lines, at);
    assert(is_edit(given, done@, before.remove(line_index as int), at@));
    let result = DeleteLineResult {
        version: done.summary.version,
        line_count: done.analyze.lines.len(),
    };
    Ok((done, result))
}

/// Takes a line out, now. The lines after it move up.
pub fn delete_line(record: BomRecord, line_index: usize, expected_version: u64) -> (r: Result<
    (BomRecord, DeleteLineResult),
    StoreError,
>)
    ensures
        match line_fault(record@, line_index, expected_version) {
            Some(fault) => r is Err && r->Err_0@ == fault,
            None => {
                &&& r is Ok
                &&& is_edit(
                    record@,
                    r->Ok_0.0@,
                    record@.analyze.lines.remove(line_index as int),
                    r->Ok_0.0@.summary.updated_at,
                )
                &&& r->Ok_0.1.version == r->Ok_0.0@.summary.version
                &&& r->Ok_0.1.line_count == record@.analyze.lines.len() - 1
            },
        },
{
    let at = chrono_now();
    delete_line_at(record, line_index, expected_version, at)
}

/// A line as it is added. Its part is looked up unless it has no number.
pub open spec fn added(row_index: usize, input: LineFields) -> LineView {
    let empty = input.mpn is None || is_blank(input.mpn->0);
    let status = if empty {
        "NoMatch"@
    } else {
        "Pending"@
    };
    LineView {
        row_index,
        mpn: input.mpn,
        manufacturer: input.manufacturer,
        quantity: input.quantity,
        refdes: input.refdes,
        description: input.description,
        aml_candidates: Seq::empty(),
        availability_status: status,
        lifecycle_status: "Unknown"@,
        match_status: status,
        factory_lead_days: None,
        total_avail: 0,
        top_sellers: Seq::empty(),
        risk_level: RiskLevel::Unknown,
        category: None,
        hts_code: None,
        country_of_origin: None,
        tariff_confidence: None,
        base_duty_pct: None,
        section_301_pct: None,
        total_duty_pct: None,
        tariff_notes: None,
        rate_basis: None,
        is_stale: None,
        tariff_disclaimer: None,
        entity_list_match: None,
        entity_list_notes: None,
        agent_brief: None,
    }
}

/// A line as it is added.
pub fn new_analyzed_line(row_index: usize, input: &NewLineInput) -> (r: AnalyzedLine)
    ensures
        r@ == added(row_index, input@),
{
    let empty = match &input.mpn {
        Some(mpn) => trim(mpn.as_str()).as_str().is_empty(),
        None => true,
    };
    let status = if empty {
        "NoMatch"
    } else {
        "Pending"
    };
    let r = AnalyzedLine {
        row_index,
        mpn: copy_opt(&input.mpn),
        manufacturer: copy_opt(&input.manufacturer),
        quantity: copy_opt(&input.quantity),
        refdes: copy_opt(&input.refdes),
        description: copy_opt(&input.description),
        aml_candidates: Vec::new(),
        availability_status: owned(status),
        lifecycle_status: owned("Unknown"),
        match_status: owned(status),
        factory_lead_days: None,
        total_avail: 0,
        top_sellers: Vec::new(),
        risk_level: RiskLevel::Unknown,
        category: None,
        hts_code: None,
        country_of_origin: None,
        tariff_confidence: None,
        base_duty_pct: None,
        section_301_pct: None,
        total_duty_pct: None,
        tariff_notes: None,
        rate_basis: None,
        is_stale: None,
        tariff_disclaimer: None,
        entity_list_match: None,
        entity_list_notes: None,
        agent_brief: None,
    };
    assert(json_views(r.top_sellers@) =~= Seq::<JsonView>::empty());
    assert(r.aml_candidates.deep_view() =~= Seq::<Seq<char>>::empty());
    r
}

/// The row of an added line: one after the largest, or the first.
pub open spec fn next_row(lines: Seq<LineView>) -> int
    decreases lines.len(),
{
    if lines.len() == 0 {
        0
    } else {
        let before = next_row(lines.drop_last());
        if lines.last().row_index >= before {
            lines.last().row_index + 1
        } else {
            before
        }
    }
}

/// Every line stands before the next row.
pub proof fn next_row_is_free(lines: Seq<LineView>)
    ensures
        next_row(lines) >= 0,
        forall|i: int| 0 <= i < lines.len() ==> (#[trigger] lines[i]).row_index < next_row(lines),
        lines.len() > 0 ==> exists|i: int| 0 <= i < lines.len() && next_row(lines) == (#[trigger] lines[i]).row_index + 1,
    decreases lines.len(),
{
    if lines.len() > 0 {
        let rest = lines.drop_last();
        next_row_is_free(rest);
        assert forall|i: int| 0 <= i < lines.len() implies (#[trigger] lines[i]).row_index < next_row(lines) by {
            if i < rest.len() {
                assert(lines[i] == rest[i]);
            }
        }
        if lines.last().row_index >= next_row(rest) {
            assert(next_row(lines) == lines[lines.len() - 1].row_index + 1);
        } else {
            let i = choose|i: int| 0 <= i < rest.len() && next_row(rest) == (#[trigger] rest[i]).row_index + 1;
            assert(lines[i] == rest[i]);
        }
    }
}

fn free_row(lines: &Vec<AnalyzedLine>) -> (r: usize)
    requires
        forall|i: int| 0 <= i < lines@.len() ==> (#[trigger] lines@[i]).row_index < usize::MAX,
    ensures
        r == next_row(line_views(lines@)),
{
    let ghost views = line_views(lines@);
    let mut next: usize = 0;
    let mut i: usize = 0;
    while i < lines.len()
        invariant
            i <= lines@.len(),
            views == line_views(lines@),
            forall|j: int| 0 <= j < lines@.len() ==> (#[trigger] lines@[j]).row_index < usize::MAX,
            next == next_row(views.take(i as int)),
        decreases lines@.len() - i,
    {
        assert(views.take(i + 1).drop_last() =~= views.take(i as int));
        assert(views.take(i + 1).last() == lines@[i as int]@);
        if lines[i].row_index >= next {
            next = lines[i].row_index + 1;
        }
        i += 1;
    }
    assert(views.take(i as int) =~= views);
    next
}

/// Adds a line at the end, at that time.
pub fn add_line_at(record: BomRecord, expected_version: u64, input: &NewLineInput, at: String) -> (r:
    Result<(BomRecord, LineEditResult), StoreError>)
    requires
        forall|i: int|
            0 <= i < record.analyze.lines@.len() ==> (#[trigger] record.analyze.lines@[i]).row_index
                < usize::MAX,
    ensures
        record@.summary.version != expected_version ==> r is Err && r->Err_0@
            == StoreErrorView::Conflict,
        record@.summary.version == expected_version ==> {
            &&& r is Ok
            &&& is_edit(
                record@,
                r->Ok_0.0@,
                record@.analyze.lines.push(added(next_row(record@.analyze.lines) as usize, input@)),
                at@,
            )
            &&& r->Ok_0.1.version == r->Ok_0.0@.summary.version
            &&& r->Ok_0.1.line_index == record@.analyze.lines.len()
            &&& r->Ok_0.1.line@ == r->Ok_0.0@.analyze.lines.last()
        },
{
    match ensure_version(&record.summary, expected_version) {
        Ok(()) => {},
        Err(error) => {
            return Err(error);
        },
    }
    let mut record = record;
    let ghost given = record@;
    let row_index: usize = free_row(&record.analyze.lines);
    let line_index: usize = record.analyze.lines.len();
    let mut lines: Vec<AnalyzedLine> = Vec::new();
    std::mem::swap(&mut lines, &mut record.analyze.lines);
    let ghost before = line_views(lines@);
    let line = new_analyzed_line(row_index, input);
    lines.push(line);
    assert(line_views(lines@) =~= before.push(added(row_index, input@)));
    let done = finish_edit(record, lines, at);
    assert(is_edit(given, done@, before.push(added(row_index, input@)), at@));
    let result = LineEditResult {
        version: done.summary.version,
        line_index,
        line: done.analyze.lines[line_index].clone(),
    };
    Ok((done, result))
}

/// Adds a line at the end, now.
pub fn add_line(record: BomRecord, expected_version: u64, input: &NewLineInput) -> (r: Result<
    (BomRecord, LineEditResult),
    StoreError,
>)
    requires
        forall|i: int|
            0 <= i < record.analyze.lines@.len() ==> (#[trigger] record.analyze.lines@[i]).row_index
                < usize::MAX,
    ensures
        record@.summary.version != expected_version ==> r is Err && r->Err_0@
            == StoreErrorView::Conflict,
        record@.summary.version == expected_version ==> {
            &&& r is Ok
            &&& is_edit(
                record@,
                r->Ok_0.0@,
                record@.analyze.lines.push(added(next_row(record@.analyze.lines) as usize, input@)),
                r->Ok_0.0@.summary.updated_at,
            )
            &&& r->Ok_0.1.version == r->Ok_0.0@.summary.version
            &&& r->Ok_0.1.line_index == record@.analyze.lines.len()
            &&& r->Ok_0.1.line@ == r->Ok_0.0@.analyze.lines.last()
        },
{
    let at = chrono_now();
    add_line_at(record, expected_version, input, at)
}

/// Every change makes a new version, so a change that was made to the version
/// before it is refused.
pub proof fn stale_change_is_refused(
    before: BomRecordView,
    after: BomRecordView,
    lines: Seq<LineView>,
    at: Seq<char>,
    line_index: usize,
)
    requires
        is_edit(before, after, lines, at),
        before.summary.version < u64::MAX,
    ensures
        after.summary.version == before.summary.version + 1,
        line_fault(after, line_index, before.summary.version) == Some(StoreErrorView::Conflict),
        after.summary.id == before.summary.id,
        after.summary.name == before.summary.name,
        after.summary.uploaded_at == before.summary.uploaded_at,
{
}

/// A change of one line leaves the others as they are, but for their scores.
pub proof fn patch_touches_one_line(
    before: BomRecordView,
    after: BomRecordView,
    at: Seq<char>,
    line_index: int,
    patch: LineFields,
    other: int,
)
    requires
        0 <= line_index < before.analyze.lines.len(),
        is_edit(
            before,
            after,
            before.analyze.lines.update(line_index, patched(before.analyze.lines[line_index], patch)),
            at,
        ),
        0 <= other < before.analyze.lines.len(),
        other != line_index,
    ensures
        after.analyze.lines.len() == before.analyze.lines.len(),
        after.analyze.lines[other] == scored(before.analyze.lines[other]),
{
}

/// Taking a line out keeps those before it in place and moves those after it up.
pub proof fn delete_moves_up(
    before: BomRecordView,
    after: BomRecordView,
    at: Seq<char>,
    line_index: int,
    other: int,
)
    requires
        0 <= line_index < before.analyze.lines.len(),
        is_edit(before, after, before.analyze.lines.remove(line_index), at),
        0 <= other < before.analyze.lines.len() - 1,
    ensures
        after.analyze.lines.len() == before.analyze.lines.len() - 1,
        after.analyze.lines[other] == scored(
            before.analyze.lines[if other < line_index {
                other
            } else {
                other + 1
            }],
        ),
        after.summary.line_count == before.analyze.lines.len() - 1,
{
}

/// Adding a line and taking it out again leaves the lines as they were, but for
/// their scores.
pub proof fn delete_undoes_add(
    first: BomRecordView,
    second: BomRecordView,
    third: BomRecordView,
    line: LineView,
    at: Seq<char>,
    later: Seq<char>,
)
    requires
        is_edit(first, second, first.analyze.lines.push(line), at),
        is_edit(
            second,
            third,
            second.analyze.lines.remove(first.analyze.lines.len() as int),
            later,
        ),
    ensures
        third.analyze.lines == scored_lines(first.analyze.lines),
{
    assert(third.analyze.lines =~= scored_lines(first.analyze.lines));
}

/// The summary of a bom that is first stored, at that time.
pub open spec fn first_summary(
    filename: Seq<char>,
    name: Option<Seq<char>>,
    analyze: AnalyzeView,
    at: Seq<char>,
) -> BomSummaryView {
    BomSummaryView {
        id: analyze.upload_id,
        name: bom_name(filename, name),
        filename,
        uploaded_at: at,
        version: 1,
        updated_at: at,
        line_count: analyze.summary.total,
        overall_risk_score: risk_share(analyze.summary),
        at_risk_count: (analyze.summary.red_count + analyze.summary.yellow_count) as usize,
        unknown_count: analyze.summary.unknown_count,
        risk_band: band(analyze.summary),
    }
}

/// The summary of a bom that is first stored, at that time.
pub fn create_summary_at(input: &CreateBomInput, at: String) -> (r: BomSummary)
    requires
        input.analyze.summary.red_count + input.analyze.summary.yellow_count <= usize::MAX,
    ensures
        r@ == first_summary(input.filename@, input.name.deep_view(), input.analyze@, at@),
{
    let name = match &input.name {
        Some(name) => default_bom_name(input.filename.as_str(), Some(name.as_str())),
        None => default_bom_name(input.filename.as_str(), None),
    };
    let (overall_risk_score, at_risk_count, unknown_count, risk_band) = bom_summary_fields(
        &input.analyze,
    );
    BomSummary {
        id: input.analyze.upload_id.clone(),
        name,
        filename: input.filename.clone(),
        uploaded_at: at.clone(),
        version: 1,
        updated_at: at,
        line_count: input.analyze.summary.total,
        overall_risk_score,
        at_risk_count,
        unknown_count,
        risk_band,
    }
}

/// The summary of a bom that is first stored, now.
pub fn create_summary(input: &CreateBomInput) -> (r: BomSummary)
    requires
        input.analyze.summary.red_count + input.analyze.summary.yellow_count <= usize::MAX,
    ensures
        r@ == first_summary(
            input.filename@,
            input.name.deep_view(),
            input.analyze@,
            r@.uploaded_at,
        ),
{
    let at = chrono_now();
    create_summary_at(input, at)
}

/// Having another id.
pub open spec fn not_id(bom_id: Seq<char>) -> spec_fn(BomSummary) -> bool {
    |s: BomSummary| s.id@ != bom_id
}

fn without(index: Vec<BomSummary>, bom_id: &str) -> (r: Vec<BomSummary>)
    ensures
        r@ == index@.filter(not_id(bom_id@)),
{
    let mut rest = index;
    let ghost all = rest@;
    let ghost f = not_id(bom_id@);
    let ghost mut n: int = 0;
    let mut out: Vec<BomSummary> = Vec::new();
    assert(all.skip(0) =~= all);
    assert(all.take(0).filter(f) =~= Seq::<BomSummary>::empty()) by {
        reveal(Seq::filter);
    }
    while rest.len() > 0
        invariant
            0 <= n <= all.len(),
            rest@ == all.skip(n),
            f == not_id(bom_id@),
            out@ == all.take(n).filter(f),
        decreases rest@.len(),
    {
        let entry = rest.remove(0);
        proof {
            assert(entry == all[n]);
            assert(rest@ =~= all.skip(n + 1));
            assert(all.take(n + 1).drop_last() =~= all.take(n));
            assert(all.take(n + 1).last() == entry);
            reveal(Seq::filter);
            n = n + 1;
        }
        if !same(entry.id.as_str(), bom_id) {
            out.push(entry);
        }
    }
    assert(all.take(n) =~= all);
    out
}

/// The index of an account once a bom was first stored: it comes last, in place
/// of any with its id.
pub fn index_after_create(index: Vec<BomSummary>, summary: &BomSummary) -> (r: Vec<BomSummary>)
    ensures
        r@ == index@.filter(not_id(summary.id@)).push(*summary),
{
    let mut out = without(index, summary.id.as_str());
    out.push(summary.clone());
    out
}

/// The index of an account once a bom was deleted; a bom that is not in it
/// cannot be.
pub fn index_after_delete(index: Vec<BomSummary>, bom_id: &str) -> (r: Result<
    Vec<BomSummary>,
    StoreError,
>)
    ensures
        ({
            let left = index@.filter(not_id(bom_id@));
            &&& left.len() == index@.len() ==> r is Err && r->Err_0@ == StoreErrorView::NotFound
            &&& left.len() != index@.len() ==> r is Ok && r->Ok_0@ == left
        }),
{
    let len_before: usize = index.len();
    let left = without(index, bom_id);
    if left.len() == len_before {
        return Err(StoreError::NotFound);
    }
    Ok(left)
}

/// Where an id first stands in an index; its length where it does not.
pub open spec fn first_with(index: Seq<BomSummary>, bom_id: Seq<char>) -> int
    decreases index.len(),
{
    if index.len() == 0 || index[0].id@ == bom_id {
        0
    } else {
        1 + first_with(index.drop_first(), bom_id)
    }
}

fn find_in(index: &Vec<BomSummary>, bom_id: &str) -> (r: usize)
    ensures
        r == first_with(index@, bom_id@),
        r <= index@.len(),
{
    let mut i: usize = 0;
    assert(index@.skip(0) =~= index@);
    while i < index.len() && !same(index[i].id.as_str(), bom_id)
        invariant
            i <= index@.len(),
            first_with(index@, bom_id@) == i + first_with(index@.skip(i as int), bom_id@),
        decreases index@.len() - i,
    {
        assert(index@.skip(i as int).drop_first() =~= index@.skip(i as int + 1));
        i += 1;
    }
    i
}

/// The index of an account once a bom was changed: its entry is replaced, or
/// comes last where there was none.
pub fn index_after_change(index: Vec<BomSummary>, summary: &BomSummary) -> (r: Vec<BomSummary>)
    ensures
        ({
            let i = first_with(index@, summary.id@);
            r@ == if i < index@.len() {
                index@.update(i, *summary)
            } else {
                index@.push(*summary)
            }
        }),
{
    let mut index = index;
    let i: usize = find_in(&index, summary.id.as_str());
    if i < index.len() {
        index.set(i, summary.clone());
    } else {
        index.push(summary.clone());
    }
    index
}

/// The index of an account once a summary was brought up to date: its entry is
/// replaced where there is one.
pub fn index_after_update(index: Vec<BomSummary>, bom_id: &str, summary: &BomSummary) -> (r: Vec<
    BomSummary,
>)
    ensures
        ({
            let i = first_with(index@, bom_id@);
            r@ == if i < index@.len() {
                index@.update(i, *summary)
            } else {
                index@
            }
        }),
{
    let mut index = index;
    let i: usize = find_in(&index, bom_id);
    if i < index.len() {
        index.set(i, summary.clone());
    }
    index
}

/// The boms of an account from the newest to the oldest: none stands after one
/// that was uploaded earlier, and those uploaded at the same time keep their order.
pub open spec fn is_newest_first(out: Seq<BomSummaryView>, index: Seq<BomSummaryView>) -> bool {
    exists|order: Seq<int>| #[trigger] is_newest_order(order, index) && out == Seq::new(
        order.len(),
        |k: int| index[order[k]],
    )
}

/// Entry `a` comes before entry `b`.
pub open spec fn newer(index: Seq<BomSummaryView>, a: int, b: int) -> bool {
    let ka = text_key(index[a].uploaded_at);
    let kb = text_key(index[b].uploaded_at);
    lex_lt(kb, ka) || (ka == kb && a < b)
}

/// All positions, each once, from the newest to the oldest.
pub open spec fn is_newest_order(order: Seq<int>, index: Seq<BomSummaryView>) -> bool {
    &&& order.len() == index.len()
    &&& forall|k: int| 0 <= k < order.len() ==> 0 <= #[trigger] order[k] < index.len()
    &&& forall|i: int| 0 <= i < index.len() ==> #[trigger] order.contains(i)
    &&& forall|a: int, b: int|
        0 <= a < b < order.len() ==> newer(index, #[trigger] order[a], #[trigger] order[b])
}

/// The contents of summaries.
pub open spec fn summary_views(index: Seq<BomSummary>) -> Seq<BomSummaryView> {
    index.map_values(|s: BomSummary| s@)
}

/// Summaries with versions.
pub open spec fn normalized_views(index: Seq<BomSummaryView>) -> Seq<BomSummaryView> {
    index.map_values(|s: BomSummaryView| normalized(s))
}

proof fn newest_grows(order: Seq<int>, index: Seq<BomSummaryView>, n: int, pos: int)
    requires
        0 <= n < index.len(),
        is_newest_order(order, index.take(n)),
        0 <= pos <= order.len(),
        forall|k: int| pos <= k < order.len() ==> newer(index, n, #[trigger] order[k]),
        pos > 0 ==> !newer(index, n, order[pos - 1]),
    ensures
        is_newest_order(order.insert(pos, n), index.take(n + 1)),
{
    let before = index.take(n);
    let after = index.take(n + 1);
    let out = order.insert(pos, n);
    assert forall|k: int| 0 <= k < out.len() implies 0 <= #[trigger] out[k] < after.len() by {
        if k < pos {
            assert(out[k] == order[k]);
        } else if k > pos {
            assert(out[k] == order[k - 1]);
        }
    }
    assert forall|i: int| 0 <= i < after.len() implies #[trigger] out.contains(i) by {
        if i < n {
            assert(order.contains(i));
            let k = choose|k: int| 0 <= k < order.len() && order[k] == i;
            if k < pos {
                assert(out[k] == i);
            } else {
                assert(out[k + 1] == i);
            }
        } else {
            assert(out[pos] == n);
        }
    }
    assert forall|a: int, b: int| 0 <= a < b < out.len() implies newer(
        after,
        #[trigger] out[a],
        #[trigger] out[b],
    ) by {
        let kn = text_key(index[n].uploaded_at);
        if b == pos {
            assert(out[a] == order[a]);
            let p = order[pos - 1];
            let kp = text_key(index[p].uploaded_at);
            crate::sorting::lex_lt_order(kn, kp, kn);
            assert(!newer(index, n, p));
            assert(newer(index, p, n));
            if a < pos - 1 {
                assert(newer(before, order[a], p));
                let ka = text_key(index[order[a]].uploaded_at);
                crate::sorting::lex_lt_order(kn, kp, ka);
            }
        } else if a == pos {
            assert(out[b] == order[b - 1]);
        } else {
            let a2 = if a < pos { a } else { a - 1 };
            let b2 = if b < pos { b } else { b - 1 };
            assert(out[a] == order[a2]);
            assert(out[b] == order[b2]);
            assert(newer(before, order[a2], order[b2]));
        }
    }
}

/// The boms of an account, with versions, from the newest to the oldest.
pub fn list_boms(index: &Vec<BomSummary>) -> (r: Vec<BomSummary>)
    ensures
        is_newest_first(summary_views(r@), normalized_views(summary_views(index@))),
{
    let ghost views = normalized_views(summary_views(index@));
    let mut out: Vec<BomSummary> = Vec::new();
    let ghost mut order: Seq<int> = Seq::empty();
    let mut i: usize = 0;
    while i < index.len()
        invariant
            i <= index@.len(),
            views == normalized_views(summary_views(index@)),
            is_newest_order(order, views.take(i as int)),
            out@.len() == order.len(),
            forall|k: int| 0 <= k < out@.len() ==> (#[trigger] out@[k])@ == views[order[k]],
        decreases index@.len() - i,
    {
        let entry = normalize_summary(index[i].clone());
        assert(entry@ == views[i as int]);
        let ghost ev = entry@;
        let mut pos: usize = out.len();
        while pos > 0 && text_less(out[pos - 1].uploaded_at.as_str(), entry.uploaded_at.as_str())
            invariant
                pos <= out@.len(),
                i < index@.len(),
                views == normalized_views(summary_views(index@)),
                is_newest_order(order, views.take(i as int)),
                entry@ == views[i as int],
                out@.len() == order.len(),
                forall|k: int| 0 <= k < out@.len() ==> (#[trigger] out@[k])@ == views[order[k]],
                forall|k: int| pos <= k < order.len() ==> newer(views, i as int, #[trigger] order[k]),
            decreases pos,
        {
            assert(out@[pos - 1]@ == views[order[pos - 1]]);
            pos -= 1;
        }
        let ghost before = out@;
        proof {
            if pos > 0 {
                assert(out@[pos - 1]@ == views[order[pos - 1]]);
                assert(order[pos - 1] < i);
            }
            newest_grows(order, views, i as int, pos as int);
        }
        out.insert(pos, entry);
        proof {
            let old_order = order;
            order = order.insert(pos as int, i as int);
            assert forall|k: int| 0 <= k < out@.len() implies (#[trigger] out@[k])@ == views[order[k]] by {
                if k < pos {
                    assert(out@[k] == before[k]);
                } else if k > pos {
                    assert(out@[k] == before[k - 1]);
                    assert(order[k] == old_order[k - 1]);
                }
            }
        }
        i += 1;
    }
    assert(views.take(i as int) =~= views);
    assert(summary_views(out@) =~= Seq::new(order.len(), |k: int| views[order[k]]));
    out
}

/// Where a bom is stored.
pub fn bom_prefix(account_id: &str, bom_id: &str) -> (r: String)
    ensures
        r@ == account_id@ + "/"@ + bom_id@,
{
    let mut s = owned(account_id);
    s.append("/");
    s.append(bom_id);
    s
}

/// Where the index of an account is stored.
pub fn index_key(account_id: &str) -> (r: String)
    ensures
        r@ == account_id@ + "/index.json"@,
{
    let mut s = owned(account_id);
    s.append("/index.json");
    s
}

/// A patch is accepted where it was made to the version that is stored and names a line
/// that is there; a stale patch is a conflict even where its line is gone.
pub proof fn patches_are_accepted_in_step(
    record: BomRecord,
    line_index: usize,
    expected_version: u64,
    patch: &LinePatch,
    at: String,
    r: Result<(BomRecord, LineEditResult), StoreError>,
)
    requires
        call_ensures(patch_line_at, (record, line_index, expected_version, patch, at), r),
    ensures
        r is Ok <==> record@.summary.version == expected_version && line_index < record@.analyze.lines.len(),
        record@.summary.version != expected_version ==> r is Err && r->Err_0 is Conflict,
        record@.summary.version == expected_version && line_index >= record@.analyze.lines.len() ==> r is Err
            && r->Err_0 is LineNotFound,
        r is Ok ==> r->Ok_0.1.line_index == line_index,
        r is Ok && expected_version < u64::MAX ==> r->Ok_0.1.version == expected_version + 1,
{
}

/// After a patch the line has every value that the patch names, and every field that the
/// patch does not name is as it was.
pub proof fn patched_fields_are_kept(
    record: BomRecord,
    line_index: usize,
    expected_version: u64,
    patch: &LinePatch,
    at: String,
    after: BomRecord,
    edit: LineEditResult,
)
    requires
        call_ensures(
            patch_line_at,
            (record, line_index, expected_version, patch, at),
            Ok::<(BomRecord, LineEditResult), StoreError>((after, edit)),
        ),
    ensures
        ({
            let line = record@.analyze.lines[line_index as int];
            let now = after@.analyze.lines[line_index as int];
            &&& edit.line@ == now
            &&& patch@.mpn is Some ==> now.mpn == patch@.mpn
            &&& patch@.mpn is None ==> now.mpn == line.mpn
            &&& patch@.manufacturer is Some ==> now.manufacturer == patch@.manufacturer
            &&& patch@.manufacturer is None ==> now.manufacturer == line.manufacturer
            &&& patch@.quantity is Some ==> now.quantity == patch@.quantity
            &&& patch@.quantity is None ==> now.quantity == line.quantity
            &&& patch@.refdes is Some ==> now.refdes == patch@.refdes
            &&& patch@.refdes is None ==> now.refdes == line.refdes
            &&& patch@.description is Some ==> now.description == patch@.description
            &&& patch@.description is None ==> now.description == line.description
            &&& now.row_index == line.row_index
            &&& now.aml_candidates == line.aml_candidates
            &&& now.top_sellers == line.top_sellers
            &&& now.tariff_confidence == line.tariff_confidence
            &&& now.base_duty_pct == line.base_duty_pct
            &&& now.section_301_pct == line.section_301_pct
            &&& now.total_duty_pct == line.total_duty_pct
            &&& now.tariff_notes == line.tariff_notes
            &&& now.rate_basis == line.rate_basis
            &&& now.is_stale == line.is_stale
            &&& now.tariff_disclaimer == line.tariff_disclaimer
            &&& now.entity_list_match == line.entity_list_match
            &&& now.entity_list_notes == line.entity_list_notes
        }),
{
}

/// The same of a line by itself.
pub proof fn patches_set_fields(line: LineView, patch: LineFields)
    ensures
        ({
            let now = patched(line, patch);
            &&& patch.mpn is Some ==> now.mpn == patch.mpn
            &&& patch.mpn is None ==> now.mpn == line.mpn
            &&& patch.manufacturer is Some ==> now.manufacturer == patch.manufacturer
            &&& patch.manufacturer is None ==> now.manufacturer == line.manufacturer
            &&& patch.quantity is Some ==> now.quantity == patch.quantity
            &&& patch.quantity is None ==> now.quantity == line.quantity
            &&& patch.refdes is Some ==> now.refdes == patch.refdes
            &&& patch.refdes is None ==> now.refdes == line.refdes
            &&& patch.description is Some ==> now.description == patch.description
            &&& patch.description is None ==> now.description == line.description
            &&& patch.mpn is Some || patch.manufacturer is Some ==> now.risk_level == RiskLevel::Unknown
            &&& patch.mpn is None && patch.manufacturer is None ==> now.risk_level == line.risk_level
            &&& patched(now, patch) == now
        }),
{
}

/// A line whose part is another one waits to be looked up again: nothing that was known
/// of the old part is left. Any other patch leaves what is known of the part.
pub proof fn other_parts_are_looked_up_again(
    record: BomRecord,
    line_index: usize,
    expected_version: u64,
    patch: &LinePatch,
    at: String,
    after: BomRecord,
    edit: LineEditResult,
)
    requires
        call_ensures(
            patch_line_at,
            (record, line_index, expected_version, patch, at),
            Ok::<(BomRecord, LineEditResult), StoreError>((after, edit)),
        ),
    ensures
        ({
            let line = record@.analyze.lines[line_index as int];
            let now = after@.analyze.lines[line_index as int];
            &&& patch@.mpn is Some || patch@.manufacturer is Some ==> {
                &&& now.availability_status == "Pending"@
                &&& now.match_status == "Pending"@
                &&& now.lifecycle_status == "Unknown"@
                &&& now.total_avail == 0
                &&& now.factory_lead_days is None
                &&& now.hts_code is None
                &&& now.country_of_origin is None
                &&& now.category is None
                &&& now.agent_brief is None
            }
            &&& patch@.mpn is None && patch@.manufacturer is None ==> {
                &&& now.availability_status == line.availability_status
                &&& now.match_status == line.match_status
                &&& now.lifecycle_status == line.lifecycle_status
                &&& now.total_avail == line.total_avail
                &&& now.factory_lead_days == line.factory_lead_days
                &&& now.hts_code == line.hts_code
                &&& now.country_of_origin == line.country_of_origin
                &&& now.category == line.category
                &&& now.agent_brief == line.agent_brief
            }
        }),
{
}

/// A patch leaves the other lines where they are and as they are, but for their risks.
pub proof fn patches_leave_other_lines(
    record: BomRecord,
    line_index: usize,
    expected_version: u64,
    patch: &LinePatch,
    at: String,
    after: BomRecord,
    edit: LineEditResult,
    other: int,
)
    requires
        call_ensures(
            patch_line_at,
            (record, line_index, expected_version, patch, at),
            Ok::<(BomRecord, LineEditResult), StoreError>((after, edit)),
        ),
        0 <= other < record@.analyze.lines.len(),
        other != line_index,
    ensures
        after@.analyze.lines.len() == record@.analyze.lines.len(),
        after@.analyze.lines[other] == (LineView {
            risk_level: after@.analyze.lines[other].risk_level,
            ..record@.analyze.lines[other]
        }),
{
}

/// After any change the bom is up to date: its version goes up by one, the time is that
/// of the change, its counts are those of its lines, each line has its risk, and what
/// names the bom stays.
pub proof fn changes_bring_boms_up_to_date(
    before: BomRecordView,
    after: BomRecordView,
    lines: Seq<LineView>,
    at: Seq<char>,
    i: int,
)
    requires
        is_edit(before, after, lines, at),
    ensures
        before.summary.version < u64::MAX ==> after.summary.version == before.summary.version + 1,
        before.summary.version == u64::MAX ==> after.summary.version == u64::MAX,
        after.summary.updated_at == at,
        after.summary.uploaded_at == before.summary.uploaded_at,
        after.summary.id == before.summary.id,
        after.summary.name == before.summary.name,
        after.summary.filename == before.summary.filename,
        after.analyze.upload_id == before.analyze.upload_id,
        after.analyze.lines.len() == lines.len(),
        after.summary.line_count == lines.len(),
        after.summary.at_risk_count == after.analyze.summary.red_count + after.analyze.summary.yellow_count,
        after.summary.unknown_count == after.analyze.summary.unknown_count,
        0 <= i < lines.len() ==> after.analyze.lines[i] == (LineView {
            risk_level: after.analyze.lines[i].risk_level,
            ..lines[i]
        }),
        0 <= i < lines.len() && (crate::text::case::eq_ascii_case(lines[i].lifecycle_status, "Eol"@) || crate::text::case::eq_ascii_case(
            lines[i].lifecycle_status,
            "Discontinued"@,
        ) || crate::text::case::eq_ascii_case(lines[i].availability_status, "NoMatch"@)) ==> {
            &&& after.analyze.lines[i].risk_level == RiskLevel::Red
            &&& after.summary.risk_band == "Critical"@
            &&& after.summary.at_risk_count > 0
        },
{
    summary_adds_up(after.analyze.summary, after.analyze.lines);
    if 0 <= i < lines.len() {
        grave_lines_are_red(lines[i]);
        grave_lines_are_shown(AnalyzeView { lines, ..before.analyze }, after.analyze, i);
    }
}

/// Replacing the lines keeps nothing of the old ones, and needs the stored version.
pub proof fn replaced_lines_are_kept(
    record: BomRecord,
    expected_version: u64,
    lines: Vec<AnalyzedLine>,
    at: String,
    r: Result<BomRecord, StoreError>,
    i: int,
)
    requires
        call_ensures(replace_lines_at, (record, expected_version, lines, at), r),
    ensures
        r is Ok <==> record@.summary.version == expected_version,
        r is Err ==> r->Err_0 is Conflict,
        r is Ok ==> r->Ok_0@.analyze.lines.len() == lines@.len(),
        r is Ok && 0 <= i < lines@.len() ==> r->Ok_0@.analyze.lines[i] == (LineView {
            risk_level: r->Ok_0@.analyze.lines[i].risk_level,
            ..lines@[i]@
        }),
        r is Ok ==> r->Ok_0@.summary.line_count == lines@.len() && r->Ok_0@.summary.updated_at == at@,
{
    if r is Ok {
        summary_adds_up(r->Ok_0@.analyze.summary, r->Ok_0@.analyze.lines);
    }
}

/// An added line holds what it was given and stands last, in a row of its own after all
/// others. Its part waits to be looked up, or where it has no number, matches nothing.
pub proof fn added_lines_are_kept(
    record: BomRecord,
    expected_version: u64,
    input: &NewLineInput,
    at: String,
    after: BomRecord,
    edit: LineEditResult,
    i: int,
)
    requires
        forall|k: int|
            0 <= k < record.analyze.lines@.len() ==> (#[trigger] record.analyze.lines@[k]).row_index
                < usize::MAX,
        call_ensures(
            add_line_at,
            (record, expected_version, input, at),
            Ok::<(BomRecord, LineEditResult), StoreError>((after, edit)),
        ),
        0 <= i < record@.analyze.lines.len(),
    ensures
        ({
            let line = after@.analyze.lines.last();
            let nameless = input@.mpn is None || is_blank(input@.mpn->0);
            &&& after@.analyze.lines.len() == record@.analyze.lines.len() + 1
            &&& edit.line@ == line
            &&& edit.line_index == record@.analyze.lines.len()
            &&& line.mpn == input@.mpn
            &&& line.manufacturer == input@.manufacturer
            &&& line.quantity == input@.quantity
            &&& line.refdes == input@.refdes
            &&& line.description == input@.description
            &&& line.row_index > record@.analyze.lines[i].row_index
            &&& !nameless ==> line.availability_status == "Pending"@ && line.match_status == "Pending"@
            &&& nameless ==> line.availability_status == "NoMatch"@ && line.match_status == "NoMatch"@
                && line.risk_level == RiskLevel::Red
            &&& line.lifecycle_status == "Unknown"@
            &&& line.total_avail == 0
            &&& line.total_duty_pct is None
            &&& line.agent_brief is None
            &&& after@.analyze.lines[i] == (LineView {
                risk_level: after@.analyze.lines[i].risk_level,
                ..record@.analyze.lines[i]
            })
        }),
{
    let lines = record@.analyze.lines;
    next_row_is_free(lines);
    let k = choose|k: int| 0 <= k < lines.len() && next_row(lines) == (#[trigger] lines[k]).row_index + 1;
    assert(record.analyze.lines@[k].row_index < usize::MAX);
    let row = next_row(lines) as usize;
    grave_lines_are_red(added(row, input@));
    assert(lines.push(added(row, input@))[i] == lines[i]);
    assert(lines.push(added(row, input@)).last() == added(row, input@));
}

/// The first line of a bom without lines stands in the first row.
pub proof fn first_lines_start_the_rows(
    record: BomRecord,
    expected_version: u64,
    input: &NewLineInput,
    at: String,
    r: Result<(BomRecord, LineEditResult), StoreError>,
)
    requires
        record@.analyze.lines.len() == 0,
        call_ensures(add_line_at, (record, expected_version, input, at), r),
    ensures
        r is Ok <==> record@.summary.version == expected_version,
        r is Err ==> r->Err_0 is Conflict,
        r is Ok ==> r->Ok_0.1.line@.row_index == 0 && r->Ok_0.1.line_index == 0,
{
}

/// Deleting takes out the one line that was named; the others keep their order and what
/// they hold, but for their risks.
pub proof fn deleted_lines_are_gone(
    record: BomRecord,
    line_index: usize,
    expected_version: u64,
    at: String,
    r: Result<(BomRecord, DeleteLineResult), StoreError>,
    i: int,
)
    requires
        call_ensures(delete_line_at, (record, line_index, expected_version, at), r),
    ensures
        r is Ok <==> record@.summary.version == expected_version && line_index < record@.analyze.lines.len(),
        record@.summary.version != expected_version ==> r is Err && r->Err_0 is Conflict,
        record@.summary.version == expected_version && line_index >= record@.analyze.lines.len() ==> r is Err
            && r->Err_0 is LineNotFound,
        r is Ok ==> {
            let before = record@.analyze.lines;
            let left = r->Ok_0.0@.analyze.lines;
            &&& left.len() == before.len() - 1
            &&& r->Ok_0.1.line_count == left.len()
            &&& r->Ok_0.1.version == r->Ok_0.0@.summary.version
            &&& 0 <= i < line_index ==> left[i] == (LineView { risk_level: left[i].risk_level, ..before[i] })
            &&& line_index < i < before.len() ==> left[i - 1] == (LineView {
                risk_level: left[i - 1].risk_level,
                ..before[i]
            })
        },
{
}

/// A bom that is first stored is the first version, under the id of its upload, dated the
/// moment that it came, with the name that it was given.
pub proof fn first_versions_are_dated(input: &CreateBomInput, at: String, r: BomSummary)
    requires
        input.analyze.summary.red_count + input.analyze.summary.yellow_count <= usize::MAX,
        call_ensures(create_summary_at, (input, at), r),
    ensures
        r@.version == 1,
        r@.id == input.analyze@.upload_id,
        r@.filename == input.filename@,
        r@.uploaded_at == at@,
        r@.updated_at == at@,
        r@.line_count == input.analyze.summary.total,
        r@.at_risk_count == input.analyze.summary.red_count + input.analyze.summary.yellow_count,
        r@.unknown_count == input.analyze.summary.unknown_count,
        input.name is Some && !is_blank(input.name->0@) ==> r@.name == crate::text::trimmed(input.name->0@),
        input.analyze.summary.red_count > 0 <==> r@.risk_band == "Critical"@,
{
    super::types::band_words_differ();
}

/// A summary that is read has a version and a time; one that had both is unchanged, so
/// that reading twice is reading once.
pub proof fn read_summaries_have_versions(summary: BomSummary, r: BomSummary)
    requires
        call_ensures(normalize_summary, (summary,), r),
    ensures
        r@.version >= 1,
        summary@.version > 0 ==> r@.version == summary@.version,
        summary@.version == 0 ==> r@.version == 1,
        summary@.updated_at.len() > 0 ==> r@.updated_at == summary@.updated_at,
        summary@.updated_at.len() == 0 ==> r@.updated_at == summary@.uploaded_at,
        r@ == (BomSummaryView { version: r@.version, updated_at: r@.updated_at, ..summary@ }),
        normalized(r@) == r@,
{
}

proof fn kept_entries(index: Seq<BomSummary>, bom_id: Seq<char>, s: BomSummary)
    ensures
        index.filter(not_id(bom_id)).contains(s) <==> index.contains(s) && s.id@ != bom_id,
        index.filter(not_id(bom_id)).len() <= index.len(),
        index.filter(not_id(bom_id)).len() == index.len() <==> (forall|i: int|
            0 <= i < index.len() ==> (#[trigger] index[i]).id@ != bom_id),
    decreases index.len(),
{
    reveal(Seq::filter);
    let f = not_id(bom_id);
    if index.len() > 0 {
        let rest = index.drop_last();
        kept_entries(rest, bom_id, s);
        let left = rest.filter(f);
        assert(index =~= rest.push(index.last()));
        assert(index.contains(s) <==> rest.contains(s) || index.last() == s) by {
            if index.contains(s) {
                let k = choose|k: int| 0 <= k < index.len() && index[k] == s;
                if k < rest.len() {
                    assert(rest[k] == s);
                }
            }
            if rest.contains(s) {
                let k = choose|k: int| 0 <= k < rest.len() && rest[k] == s;
                assert(index[k] == s);
            }
            if index.last() == s {
                assert(index[index.len() - 1] == s);
            }
        }
        assert(left.push(index.last()).contains(s) <==> left.contains(s) || index.last() == s) by {
            let p = left.push(index.last());
            assert(p[left.len() as int] == index.last());
            if left.contains(s) {
                let k = choose|k: int| 0 <= k < left.len() && left[k] == s;
                assert(p[k] == s);
            }
            if p.contains(s) {
                let k = choose|k: int| 0 <= k < p.len() && p[k] == s;
                if k < left.len() {
                    assert(left[k] == s);
                }
            }
        }
        if forall|i: int| 0 <= i < rest.len() ==> (#[trigger] rest[i]).id@ != bom_id {
            assert forall|i: int| 0 <= i < rest.len() implies (#[trigger] index[i]).id@ != bom_id by {
                assert(index[i] == rest[i]);
            }
        } else {
            let i = choose|i: int| 0 <= i < rest.len() && (#[trigger] rest[i]).id@ == bom_id;
            assert(index[i].id@ == bom_id);
        }
        assert(index[index.len() - 1] == index.last());
    }
}

/// A bom that is first stored is in the index of its account once, at its end, and no
/// other bom leaves the index.
pub proof fn stored_boms_are_indexed(index: Vec<BomSummary>, summary: &BomSummary, r: Vec<BomSummary>, other: BomSummary)
    requires
        call_ensures(index_after_create, (index, summary), r),
    ensures
        r@.len() > 0,
        r@.last() == *summary,
        forall|i: int| 0 <= i < r@.len() - 1 ==> (#[trigger] r@[i]).id@ != summary.id@,
        other.id@ != summary.id@ ==> (r@.contains(other) <==> index@.contains(other)),
{
    let left = index@.filter(not_id(summary.id@));
    kept_entries(index@, summary.id@, other);
    assert forall|i: int| 0 <= i < r@.len() - 1 implies (#[trigger] r@[i]).id@ != summary.id@ by {
        assert(r@[i] == left[i]);
        kept_entries(index@, summary.id@, left[i]);
        assert(left.contains(left[i]));
    }
    if left.contains(other) {
        let k = choose|k: int| 0 <= k < left.len() && left[k] == other;
        assert(r@[k] == other);
    }
    if r@.contains(other) && other.id@ != summary.id@ {
        let k = choose|k: int| 0 <= k < r@.len() && r@[k] == other;
        assert(left[k] == other);
    }
}

/// A bom that is deleted is no longer in the index, and no other leaves it; what is not
/// in the index cannot be deleted.
pub proof fn deleted_boms_are_not_indexed(
    index: Vec<BomSummary>,
    bom_id: &str,
    r: Result<Vec<BomSummary>, StoreError>,
    other: BomSummary,
)
    requires
        call_ensures(index_after_delete, (index, bom_id), r),
    ensures
        r is Ok <==> exists|i: int| 0 <= i < index@.len() && (#[trigger] index@[i]).id@ == bom_id@,
        r is Err ==> r->Err_0 is NotFound,
        r is Ok ==> (r->Ok_0@.contains(other) <==> index@.contains(other) && other.id@ != bom_id@),
{
    kept_entries(index@, bom_id@, other);
}

proof fn first_place(index: Seq<BomSummary>, bom_id: Seq<char>)
    ensures
        0 <= first_with(index, bom_id) <= index.len(),
        first_with(index, bom_id) < index.len() ==> index[first_with(index, bom_id)].id@ == bom_id,
        forall|i: int| 0 <= i < first_with(index, bom_id) ==> (#[trigger] index[i]).id@ != bom_id,
    decreases index.len(),
{
    if index.len() > 0 && index[0].id@ != bom_id {
        let rest = index.drop_first();
        first_place(rest, bom_id);
        let n = first_with(rest, bom_id);
        if n < rest.len() {
            assert(index[n + 1] == rest[n]);
        }
        assert forall|i: int| 0 <= i < n + 1 implies (#[trigger] index[i]).id@ != bom_id by {
            if i > 0 {
                assert(index[i] == rest[i - 1]);
            }
        }
    }
}

/// A bom that was changed has its new summary in the index, in its old place where it
/// had one, and no entry with another id is touched.
pub proof fn changed_boms_are_indexed(index: Vec<BomSummary>, summary: &BomSummary, r: Vec<BomSummary>)
    requires
        call_ensures(index_after_change, (index, summary), r),
    ensures
        r@.contains(*summary),
        forall|i: int|
            0 <= i < index@.len() && index@[i].id@ != summary.id@ ==> i < r@.len() && #[trigger] r@[i] == index@[i],
        (exists|i: int| 0 <= i < index@.len() && (#[trigger] index@[i]).id@ == summary.id@) <==> r@.len()
            == index@.len(),
        r@.len() <= index@.len() + 1,
{
    first_place(index@, summary.id@);
    let n = first_with(index@, summary.id@);
    if n < index@.len() {
        assert(index@[n].id@ == summary.id@);
        assert(r@[n] == *summary);
    } else {
        assert(r@[index@.len() as int] == *summary);
    }
}

/// A summary that is brought up to date takes its place in the index; a bom that is not
/// in the index does not get into it that way.
pub proof fn refreshed_boms_keep_their_place(
    index: Vec<BomSummary>,
    bom_id: &str,
    summary: &BomSummary,
    r: Vec<BomSummary>,
)
    requires
        call_ensures(index_after_update, (index, bom_id, summary), r),
    ensures
        r@.len() == index@.len(),
        (exists|i: int| 0 <= i < index@.len() && (#[trigger] index@[i]).id@ == bom_id@) ==> r@.contains(*summary),
        forall|i: int| 0 <= i < index@.len() && index@[i].id@ != bom_id@ ==> #[trigger] r@[i] == index@[i],
{
    first_place(index@, bom_id@);
    let n = first_with(index@, bom_id@);
    if n < index@.len() {
        assert(r@[n] == *summary);
    }
}

/// The list of an account shows each of its boms, none uploaded later than one before it.
pub proof fn lists_start_with_the_newest(index: &Vec<BomSummary>, r: Vec<BomSummary>, a: int, b: int)
    requires
        call_ensures(list_boms, (index,), r),
    ensures
        r@.len() == index@.len(),
        0 <= a < b < r@.len() ==> !lex_lt(text_key(r@[a]@.uploaded_at), text_key(r@[b]@.uploaded_at)),
        0 <= a < index@.len() ==> exists|k: int|
            0 <= k < r@.len() && (#[trigger] r@[k])@.id == index@[a]@.id && r@[k]@.name == index@[a]@.name
                && r@[k]@.uploaded_at == index@[a]@.uploaded_at && r@[k]@.line_count == index@[a]@.line_count
                && r@[k]@.version >= 1,
{
    let out = summary_views(r@);
    let views = normalized_views(summary_views(index@));
    let order = choose|order: Seq<int>| #[trigger] is_newest_order(order, views) && out == Seq::new(
        order.len(),
        |k: int| views[order[k]],
    );
    assert(out.len() == r@.len());
    if 0 <= a < b < r@.len() {
        assert(out[a] == r@[a]@ && out[b] == r@[b]@);
        assert(newer(views, order[a], order[b]));
        crate::sorting::lex_lt_order(
            text_key(views[order[a]].uploaded_at),
            text_key(views[order[b]].uploaded_at),
            text_key(views[order[a]].uploaded_at),
        );
    }
    if 0 <= a < index@.len() {
        assert(order.contains(a));
        let k = choose|k: int| 0 <= k < order.len() && order[k] == a;
        assert(out[k] == r@[k]@);
        assert(out[k] == views[a]);
        assert(summary_views(index@)[a] == index@[a]@);
        assert(r@[k]@.id == index@[a]@.id);
    }
}

/// Applying a patch to a line sets each field that the patch names to the patch's value and
/// leaves the others; nothing else of the line changes unless its part does.
pub proof fn applied_patches_are_kept(line: &mut AnalyzedLine, patch: &LinePatch)
    requires
        call_ensures(apply_line_patch, (line, patch), ()),
    ensures
        patch@.mpn is Some ==> final(line)@.mpn == patch@.mpn,
        patch@.mpn is None ==> final(line)@.mpn == old(line)@.mpn,
        patch@.manufacturer is Some ==> final(line)@.manufacturer == patch@.manufacturer,
        patch@.manufacturer is None ==> final(line)@.manufacturer == old(line)@.manufacturer,
        patch@.quantity is Some ==> final(line)@.quantity == patch@.quantity,
        patch@.quantity is None ==> final(line)@.quantity == old(line)@.quantity,
        patch@.refdes is Some ==> final(line)@.refdes == patch@.refdes,
        patch@.refdes is None ==> final(line)@.refdes == old(line)@.refdes,
        patch@.description is Some ==> final(line)@.description == patch@.description,
        patch@.description is None ==> final(line)@.description == old(line)@.description,
        final(line)@.row_index == old(line)@.row_index,
        patch@.mpn is None && patch@.manufacturer is None ==> final(line)@ == (LineView {
            quantity: final(line)@.quantity,
            refdes: final(line)@.refdes,
            description: final(line)@.description,
            ..old(line)@
        }),
        patch@.mpn is Some || patch@.manufacturer is Some ==> final(line)@.availability_status == "Pending"@
            && final(line)@.match_status == "Pending"@ && final(line)@.lifecycle_status == "Unknown"@
            && final(line)@.total_avail == 0 && final(line)@.agent_brief is None && final(line)@.hts_code is None
            && final(line)@.risk_level == RiskLevel::Unknown,
{
}

/// A change is refused where it was made to another version, and only there.
pub proof fn other_versions_are_refused(summary: &BomSummary, expected: u64, r: Result<(), StoreError>)
    requires
        call_ensures(ensure_version, (summary, expected), r),
    ensures
        summary.version == expected ==> r is Ok,
        summary.version != expected ==> r is Err && r->Err_0 is Conflict,
{
}

/// A new line holds what it was given and nothing that is not known yet.
pub proof fn new_lines_hold_what_they_were_given(row: usize, input: &NewLineInput, r: AnalyzedLine)
    requires
        call_ensures(new_analyzed_line, (row, input), r),
    ensures
        r@.row_index == row,
        r@.mpn == input@.mpn && r@.manufacturer == input@.manufacturer && r@.quantity == input@.quantity && r@.refdes
            == input@.refdes && r@.description == input@.description,
        input@.mpn is Some && !is_blank(input@.mpn->0) ==> r@.availability_status == "Pending"@ && r@.match_status
            == "Pending"@,
        input@.mpn is None || is_blank(input@.mpn->0) ==> r@.availability_status == "NoMatch"@ && r@.match_status
            == "NoMatch"@,
        r@.lifecycle_status == "Unknown"@ && r@.total_avail == 0 && r@.factory_lead_days is None,
        r@.total_duty_pct is None && r@.hts_code is None && r@.agent_brief is None && r@.entity_list_match is None,
        r@.aml_candidates.len() == 0 && r@.top_sellers.len() == 0,
        r@.risk_level == RiskLevel::Unknown,
{
}

/// A bom is stored below its account, beside the account's index.
pub proof fn boms_are_stored_below_their_account(account_id: &str, bom_id: &str, r: String, s: String)
    requires
        call_ensures(bom_prefix, (account_id, bom_id), r),
        call_ensures(index_key, (account_id,), s),
    ensures
        r@ == account_id@ + "/"@ + bom_id@,
        s@ == account_id@ + "/index.json"@,
{
}

/// Every refusal of the store is told in words.
pub proof fn store_refusals_are_told(error: &StoreError, r: String)
    requires
        call_ensures(StoreError::message, (error,), r),
    ensures
        error is NotFound ==> r@ == "bom not found"@,
        error is Conflict ==> r@ == "version conflict"@,
        error is LineNotFound ==> r@ == "line not found"@,
        error is Read ==> r@ == "storage read failed: "@ + error->Read_0@,
        error is Write ==> r@ == "storage write failed: "@ + error->Write_0@,
{
}

} // verus!
