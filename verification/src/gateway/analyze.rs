//! Risk scoring of analyzed boms.

use vstd::prelude::*;
use vstd::string::*;

use super::clients::parser::{ParseResult, ParsedLine, ParsedLineView};
use super::clients::tariff::{copy_percent, is_at_least_25, percent_view, Percent, PercentView, TariffResult};
use crate::clock::{is_clock_text, now_seconds};
use crate::ids::{is_uuid_text, new_uuid};
use crate::json::{Json, JsonView};
use crate::model::enrichment::{
    availability_text, copy_json, json_views, lifecycle_text, match_text, AvailabilityStatus, EnrichResult,
    EnrichResultView, LifecycleStatus, MatchStatus,
};
use crate::text::case::{ascii_lower, eq_ascii_case, eq_ignore_ascii_case, to_ascii_lower};
use crate::text::{copy_list, copy_opt, owned, same};

verus! {

/// How a line stands.
#[derive(Debug, Clone, Copy, PartialEq, Eq, Structural)]
pub enum RiskLevel {
    Red,
    Yellow,
    Green,
    Unknown,
}

/// An analyzed bom.
#[derive(Debug)]
pub struct AnalyzeResult {
    pub upload_id: String,
    pub source_filename: String,
    pub sheet_name: Option<String>,
    /// The bit pattern of the confidence, a binary32 number.
    pub mapping_confidence: u32,
    pub summary: AnalyzeSummary,
    pub lines: Vec<AnalyzedLine>,
    pub top_risks: Vec<AnalyzedLine>,
    pub warnings: Vec<Json>,
    pub stats: Json,
    pub analyzed_at: String,
}

/// Counts over the lines of a bom.
#[derive(Debug, Clone, Copy, PartialEq, Eq, Structural)]
pub struct AnalyzeSummary {
    pub total: usize,
    pub in_stock: usize,
    pub out_of_stock: usize,
    pub eol_or_nrnd: usize,
    pub no_match: usize,
    pub error_count: usize,
    pub long_lead: usize,
    pub red_count: usize,
    pub yellow_count: usize,
    pub green_count: usize,
    pub unknown_count: usize,
}

/// A line of an analyzed bom. The quantity is a decimal number in text.
#[derive(Debug)]
pub struct AnalyzedLine {
    pub row_index: usize,
    pub mpn: Option<String>,
    pub manufacturer: Option<String>,
    pub quantity: Option<String>,
    pub refdes: Option<String>,
    pub description: Option<String>,
    pub aml_candidates: Vec<String>,
    pub availability_status: String,
    pub lifecycle_status: String,
    pub match_status: String,
    pub factory_lead_days: Option<i32>,
    pub total_avail: i64,
    pub top_sellers: Vec<Json>,
    pub risk_level: RiskLevel,
    pub category: Option<String>,
    pub hts_code: Option<String>,
    pub country_of_origin: Option<String>,
    pub tariff_confidence: Option<String>,
    pub base_duty_pct: Option<Percent>,
    pub section_301_pct: Option<Percent>,
    pub total_duty_pct: Option<Percent>,
    pub tariff_notes: Option<String>,
    pub rate_basis: Option<String>,
    pub is_stale: Option<bool>,
    pub tariff_disclaimer: Option<String>,
    pub entity_list_match: Option<bool>,
    pub entity_list_notes: Option<String>,
    pub agent_brief: Option<String>,
}

/// The content of a line.
#[verifier::ext_equal]
pub struct LineView {
    pub row_index: usize,
    pub mpn: Option<Seq<char>>,
    pub manufacturer: Option<Seq<char>>,
    pub quantity: Option<Seq<char>>,
    pub refdes: Option<Seq<char>>,
    pub description: Option<Seq<char>>,
    pub aml_candidates: Seq<Seq<char>>,
    pub availability_status: Seq<char>,
    pub lifecycle_status: Seq<char>,
    pub match_status: Seq<char>,
    pub factory_lead_days: Option<i32>,
    pub total_avail: i64,
    pub top_sellers: Seq<JsonView>,
    pub risk_level: RiskLevel,
    pub category: Option<Seq<char>>,
    pub hts_code: Option<Seq<char>>,
    pub country_of_origin: Option<Seq<char>>,
    pub tariff_confidence: Option<Seq<char>>,
    pub base_duty_pct: Option<PercentView>,
    pub section_301_pct: Option<PercentView>,
    pub total_duty_pct: Option<PercentView>,
    pub tariff_notes: Option<Seq<char>>,
    pub rate_basis: Option<Seq<char>>,
    pub is_stale: Option<bool>,
    pub tariff_disclaimer: Option<Seq<char>>,
    pub entity_list_match: Option<bool>,
    pub entity_list_notes: Option<Seq<char>>,
    pub agent_brief: Option<Seq<char>>,
}

impl View for AnalyzedLine {
    type V = LineView;

    open spec fn view(&self) -> LineView {
        LineView {
            row_index: self.row_index,
            mpn: self.mpn.deep_view(),
            manufacturer: self.manufacturer.deep_view(),
            quantity: self.quantity.deep_view(),
            refdes: self.refdes.deep_view(),
            description: self.description.deep_view(),
            aml_candidates: self.aml_candidates.deep_view(),
            availability_status: self.availability_status@,
            lifecycle_status: self.lifecycle_status@,
            match_status: self.match_status@,
            factory_lead_days: self.factory_lead_days,
            total_avail: self.total_avail,
            top_sellers: json_views(self.top_sellers@),
            risk_level: self.risk_level,
            category: self.category.deep_view(),
            hts_code: self.hts_code.deep_view(),
            country_of_origin: self.country_of_origin.deep_view(),
            tariff_confidence: self.tariff_confidence.deep_view(),
            base_duty_pct: percent_view(self.base_duty_pct),
            section_301_pct: percent_view(self.section_301_pct),
            total_duty_pct: percent_view(self.total_duty_pct),
            tariff_notes: self.tariff_notes.deep_view(),
            rate_basis: self.rate_basis.deep_view(),
            is_stale: self.is_stale,
            tariff_disclaimer: self.tariff_disclaimer.deep_view(),
            entity_list_match: self.entity_list_match,
            entity_list_notes: self.entity_list_notes.deep_view(),
            agent_brief: self.agent_brief.deep_view(),
        }
    }
}

impl Clone for AnalyzedLine {
    fn clone(&self) -> (r: Self)
        ensures
            r@ == self@,
    {
        AnalyzedLine {
            row_index: self.row_index,
            mpn: copy_opt(&self.mpn),
            manufacturer: copy_opt(&self.manufacturer),
            quantity: copy_opt(&self.quantity),
            refdes: copy_opt(&self.refdes),
            description: copy_opt(&self.description),
            aml_candidates: copy_list(&self.aml_candidates),
            availability_status: self.availability_status.clone(),
            lifecycle_status: self.lifecycle_status.clone(),
            match_status: self.match_status.clone(),
            factory_lead_days: self.factory_lead_days,
            total_avail: self.total_avail,
            top_sellers: copy_json(&self.top_sellers),
            risk_level: self.risk_level,
            category: copy_opt(&self.category),
            hts_code: copy_opt(&self.hts_code),
            country_of_origin: copy_opt(&self.country_of_origin),
            tariff_confidence: copy_opt(&self.tariff_confidence),
            base_duty_pct: copy_percent(&self.base_duty_pct),
            section_301_pct: copy_percent(&self.section_301_pct),
            total_duty_pct: copy_percent(&self.total_duty_pct),
            tariff_notes: copy_opt(&self.tariff_notes),
            rate_basis: copy_opt(&self.rate_basis),
            is_stale: self.is_stale,
            tariff_disclaimer: copy_opt(&self.tariff_disclaimer),
            entity_list_match: self.entity_list_match,
            entity_list_notes: copy_opt(&self.entity_list_notes),
            agent_brief: copy_opt(&self.agent_brief),
        }
    }
}

/// The contents of lines.
pub open spec fn line_views(lines: Seq<AnalyzedLine>) -> Seq<LineView> {
    lines.map_values(|l: AnalyzedLine| l@)
}

/// The content of an analyzed bom.
#[verifier::ext_equal]
pub struct AnalyzeView {
    pub upload_id: Seq<char>,
    pub source_filename: Seq<char>,
    pub sheet_name: Option<Seq<char>>,
    pub mapping_confidence: u32,
    pub summary: AnalyzeSummary,
    pub lines: Seq<LineView>,
    pub top_risks: Seq<LineView>,
    pub warnings: Seq<JsonView>,
    pub stats: JsonView,
    pub analyzed_at: Seq<char>,
}

impl View for AnalyzeResult {
    type V = AnalyzeView;

    open spec fn view(&self) -> AnalyzeView {
        AnalyzeView {
            upload_id: self.upload_id@,
            source_filename: self.source_filename@,
            sheet_name: self.sheet_name.deep_view(),
            mapping_confidence: self.mapping_confidence,
            summary: self.summary,
            lines: line_views(self.lines@),
            top_risks: line_views(self.top_risks@),
            warnings: json_views(self.warnings@),
            stats: self.stats@,
            analyzed_at: self.analyzed_at@,
        }
    }
}

/// A copy of lines.
pub fn copy_lines(lines: &Vec<AnalyzedLine>) -> (r: Vec<AnalyzedLine>)
    ensures
        line_views(r@) == line_views(lines@),
{
    let mut out: Vec<AnalyzedLine> = Vec::new();
    let mut i: usize = 0;
    while i < lines.len()
        invariant
            i <= lines@.len(),
            out@.len() == i,
            forall|j: int| 0 <= j < i ==> (#[trigger] out@[j])@ == lines@[j]@,
        decreases lines@.len() - i,
    {
        out.push(lines[i].clone());
        i += 1;
    }
    assert(line_views(out@) =~= line_views(lines@));
    out
}

impl Clone for AnalyzeResult {
    fn clone(&self) -> (r: Self)
        ensures
            r@ == self@,
    {
        AnalyzeResult {
            upload_id: self.upload_id.clone(),
            source_filename: self.source_filename.clone(),
            sheet_name: copy_opt(&self.sheet_name),
            mapping_confidence: self.mapping_confidence,
            summary: self.summary,
            lines: copy_lines(&self.lines),
            top_risks: copy_lines(&self.top_risks),
            warnings: copy_json(&self.warnings),
            stats: self.stats.dup(),
            analyzed_at: self.analyzed_at.clone(),
        }
    }
}

/// What makes a line critical: no match, the end of its life, or a duty of at
/// least 25 percent.
pub open spec fn is_red(line: LineView) -> bool {
    ||| ascii_lower(line.availability_status) == "nomatch"@
    ||| ascii_lower(line.lifecycle_status) == "eol"@
    ||| ascii_lower(line.lifecycle_status) == "discontinued"@
    ||| line.total_duty_pct is Some && is_at_least_25(line.total_duty_pct->0.bits)
}

/// A tariff that is not sure.
pub open spec fn is_weak_tariff(confidence: Option<Seq<char>>) -> bool {
    confidence is Some && (ascii_lower(confidence->0) == "low"@ || ascii_lower(confidence->0)
        == "unclassified"@)
}

/// What makes a line worth watching: a failed lookup, a part not for new
/// designs, a lead time over half a year, little stock, or an unsure tariff.
pub open spec fn is_yellow(line: LineView) -> bool {
    ||| ascii_lower(line.availability_status) == "error"@
    ||| ascii_lower(line.lifecycle_status) == "nrnd"@
    ||| line.factory_lead_days is Some && line.factory_lead_days->0 > 182
    ||| 0 < line.total_avail < 100
    ||| is_weak_tariff(line.tariff_confidence)
}

/// The risk of a line.
pub open spec fn risk_of(line: LineView) -> RiskLevel {
    if is_red(line) {
        RiskLevel::Red
    } else if is_yellow(line) {
        RiskLevel::Yellow
    } else {
        RiskLevel::Green
    }
}

/// The risk of a line.
pub fn score_risk(line: &AnalyzedLine) -> (r: RiskLevel)
    ensures
        r == risk_of(line@),
{
    let availability = to_ascii_lower(line.availability_status.as_str());
    let lifecycle = to_ascii_lower(line.lifecycle_status.as_str());
    let high_duty = match &line.total_duty_pct {
        Some(pct) => pct.at_least_25(),
        None => false,
    };
    if same(availability.as_str(), "nomatch") || same(lifecycle.as_str(), "eol") || same(
        lifecycle.as_str(),
        "discontinued",
    ) || high_duty {
        return RiskLevel::Red;
    }
    let weak_tariff = match &line.tariff_confidence {
        Some(confidence) => {
            let confidence = to_ascii_lower(confidence.as_str());
            same(confidence.as_str(), "low") || same(confidence.as_str(), "unclassified")
        },
        None => false,
    };
    let long_lead = match line.factory_lead_days {
        Some(days) => days > 182,
        None => false,
    };
    if same(availability.as_str(), "error") || same(lifecycle.as_str(), "nrnd") || long_lead || (
    line.total_avail > 0 && line.total_avail < 100) || weak_tariff {
        return RiskLevel::Yellow;
    }
    RiskLevel::Green
}

/// The rank of a risk, the worst first.
pub open spec fn priority(level: RiskLevel) -> int {
    match level {
        RiskLevel::Red => 0,
        RiskLevel::Yellow => 1,
        RiskLevel::Green => 2,
        RiskLevel::Unknown => 3,
    }
}

/// The rank of a risk, the worst first.
pub fn risk_priority(level: RiskLevel) -> (r: u8)
    ensures
        r == priority(level),
{
    match level {
        RiskLevel::Red => 0,
        RiskLevel::Yellow => 1,
        RiskLevel::Green => 2,
        RiskLevel::Unknown => 3,
    }
}

/// A line that counts as a risk.
pub open spec fn is_risky(line: LineView) -> bool {
    line.risk_level == RiskLevel::Red || line.risk_level == RiskLevel::Yellow
}

/// Line `a` ranks before line `b`: by risk, then by row, then by position.
pub open spec fn ranks_before(lines: Seq<LineView>, a: int, b: int) -> bool {
    let pa = priority(lines[a].risk_level);
    let pb = priority(lines[b].risk_level);
    ||| pa < pb
    ||| pa == pb && lines[a].row_index < lines[b].row_index
    ||| pa == pb && lines[a].row_index == lines[b].row_index && a < b
}

/// The positions of all risky lines, each once, in the order of their ranks.
pub open spec fn is_ranking(order: Seq<int>, lines: Seq<LineView>) -> bool {
    &&& forall|k: int|
        0 <= k < order.len() ==> 0 <= #[trigger] order[k] < lines.len() && is_risky(lines[order[k]])
    &&& forall|i: int| 0 <= i < lines.len() && is_risky(#[trigger] lines[i]) ==> order.contains(i)
    &&& forall|a: int, b: int|
        0 <= a < b < order.len() ==> ranks_before(lines, #[trigger] order[a], #[trigger] order[b])
}

/// The first `limit` risky lines by rank.
pub open spec fn is_top(top: Seq<LineView>, lines: Seq<LineView>, limit: nat) -> bool {
    exists|order: Seq<int>| #[trigger] is_ranking(order, lines) && top == ranked(order, lines, limit)
}

/// The lines at the first `limit` positions.
pub open spec fn ranked(order: Seq<int>, lines: Seq<LineView>, limit: nat) -> Seq<LineView> {
    Seq::new(
        if order.len() < limit {
            order.len()
        } else {
            limit
        },
        |k: int| lines[order[k]],
    )
}

proof fn ranking_grows(order: Seq<int>, lines: Seq<LineView>, n: int, pos: int)
    requires
        0 <= n < lines.len(),
        is_ranking(order, lines.take(n)),
        is_risky(lines[n]),
        0 <= pos <= order.len(),
        forall|k: int| pos <= k < order.len() ==> ranks_before(lines, n, #[trigger] order[k]),
        pos > 0 ==> !ranks_before(lines, n, order[pos - 1]),
    ensures
        is_ranking(order.insert(pos, n), lines.take(n + 1)),
{
    let before = lines.take(n);
    let after = lines.take(n + 1);
    let out = order.insert(pos, n);
    assert forall|k: int| 0 <= k < out.len() implies 0 <= #[trigger] out[k] < after.len() && is_risky(
        after[out[k]],
    ) by {
        if k < pos {
            assert(out[k] == order[k]);
        } else if k > pos {
            assert(out[k] == order[k - 1]);
        }
    }
    assert forall|i: int| 0 <= i < after.len() && is_risky(#[trigger] after[i]) implies out.contains(
        i,
    ) by {
        if i < n {
            assert(before[i] == after[i]);
            assert(order.contains(i));
            let k = choose|k: int| 0 <= k < order.len() && order[k] == i;
            if k < pos {
                assert(out[k] == i);
            } else {
                assert(out[k + 1] == i);
            }
        } else {
            assert(out[pos] == n);
        }
    }
    assert forall|a: int, b: int| 0 <= a < b < out.len() implies ranks_before(
        after,
        #[trigger] out[a],
        #[trigger] out[b],
    ) by {
        if b == pos {
            assert(out[a] == order[a]);
            assert(!ranks_before(lines, n, order[pos - 1]));
            assert(order[pos - 1] < n);
            if a < pos - 1 {
                assert(ranks_before(before, order[a], order[pos - 1]));
            }
        } else if a == pos {
            assert(out[b] == order[b - 1]);
        } else {
            let a2 = if a < pos { a } else { a - 1 };
            let b2 = if b < pos { b } else { b - 1 };
            assert(out[a] == order[a2]);
            assert(out[b] == order[b2]);
            assert(ranks_before(before, order[a2], order[b2]));
        }
    }
}

fn ranks_first(lines: &Vec<AnalyzedLine>, a: usize, b: usize) -> (r: bool)
    requires
        a < lines@.len(),
        b < lines@.len(),
    ensures
        r == ranks_before(line_views(lines@), a as int, b as int),
{
    let pa: u8 = risk_priority(lines[a].risk_level);
    let pb: u8 = risk_priority(lines[b].risk_level);
    let ra: usize = lines[a].row_index;
    let rb: usize = lines[b].row_index;
    pa < pb || (pa == pb && ra < rb) || (pa == pb && ra == rb && a < b)
}

/// The first `limit` risky lines by rank.
pub fn select_top_risks(lines: &Vec<AnalyzedLine>, limit: usize) -> (r: Vec<AnalyzedLine>)
    ensures
        is_top(line_views(r@), line_views(lines@), limit as nat),
{
    let ghost views = line_views(lines@);
    let mut order: Vec<usize> = Vec::new();
    let ghost mut ranking: Seq<int> = Seq::empty();
    let mut i: usize = 0;
    while i < lines.len()
        invariant
            i <= lines@.len(),
            views == line_views(lines@),
            is_ranking(ranking, views.take(i as int)),
            order@.len() == ranking.len(),
            forall|k: int| 0 <= k < order@.len() ==> #[trigger] order@[k] == ranking[k],
        decreases lines@.len() - i,
    {
        let level = lines[i].risk_level;
        assert(views[i as int].risk_level == level);
        if level == RiskLevel::Red || level == RiskLevel::Yellow {
            let mut pos: usize = order.len();
            while pos > 0 && ranks_first(lines, i, order[pos - 1])
                invariant
                    pos <= order@.len(),
                    i < lines@.len(),
                    views == line_views(lines@),
                    is_ranking(ranking, views.take(i as int)),
                    order@.len() == ranking.len(),
                    forall|k: int| 0 <= k < order@.len() ==> #[trigger] order@[k] == ranking[k],
                    forall|k: int|
                        0 <= k < ranking.len() ==> 0 <= #[trigger] ranking[k] < i,
                    forall|k: int|
                        pos <= k < ranking.len() ==> ranks_before(
                            views,
                            i as int,
                            #[trigger] ranking[k],
                        ),
                decreases pos,
            {
                assert(order@[pos - 1] == ranking[pos - 1]);
                pos -= 1;
            }
            proof {
                if pos > 0 {
                    assert(order@[pos - 1] == ranking[pos - 1]);
                }
                ranking_grows(ranking, views, i as int, pos as int);
                ranking = ranking.insert(pos as int, i as int);
            }
            order.insert(pos, i);
            assert forall|k: int| 0 <= k < order@.len() implies #[trigger] order@[k] == ranking[k] by {
            }
        } else {
            proof {
                let before = views.take(i as int);
                let after = views.take(i + 1);
                assert forall|j: int|
                    0 <= j < after.len() && is_risky(#[trigger] after[j]) implies ranking.contains(
                    j,
                ) by {
                    if j < i {
                        assert(before[j] == after[j]);
                    }
                }
                assert forall|a: int, b: int| 0 <= a < b < ranking.len() implies ranks_before(
                    after,
                    #[trigger] ranking[a],
                    #[trigger] ranking[b],
                ) by {
                    assert(ranks_before(before, ranking[a], ranking[b]));
                }
            }
        }
        i += 1;
    }
    assert(views.take(i as int) =~= views);
    let mut out: Vec<AnalyzedLine> = Vec::new();
    let mut k: usize = 0;
    while k < order.len() && k < limit
        invariant
            k <= order@.len(),
            k <= limit,
            views == line_views(lines@),
            is_ranking(ranking, views),
            order@.len() == ranking.len(),
            forall|j: int| 0 <= j < order@.len() ==> #[trigger] order@[j] == ranking[j],
            out@.len() == k,
            forall|j: int| 0 <= j < k ==> (#[trigger] out@[j])@ == views[ranking[j]],
        decreases order@.len() - k,
    {
        assert(order@[k as int] == ranking[k as int]);
        out.push(lines[order[k]].clone());
        k += 1;
    }
    assert(line_views(out@) =~= ranked(ranking, views, limit as nat));
    out
}

/// How many lines have a property.
pub open spec fn count(lines: Seq<LineView>, f: spec_fn(LineView) -> bool) -> nat
    decreases lines.len(),
{
    if lines.len() == 0 {
        0
    } else {
        count(lines.drop_last(), f) + if f(lines.last()) {
            1nat
        } else {
            0nat
        }
    }
}

/// Having that availability.
pub open spec fn available_as(name: Seq<char>) -> spec_fn(LineView) -> bool {
    |l: LineView| eq_ascii_case(l.availability_status, name)
}

/// At the end of its life, or not for new designs.
pub open spec fn eol_or_nrnd() -> spec_fn(LineView) -> bool {
    |l: LineView| eq_ascii_case(l.lifecycle_status, "eol"@) || eq_ascii_case(l.lifecycle_status, "nrnd"@)
}

/// With a lead time over 26 weeks.
pub open spec fn long_lead() -> spec_fn(LineView) -> bool {
    |l: LineView| l.factory_lead_days is Some && l.factory_lead_days->0 > 182
}

/// At that level.
pub open spec fn at_level(level: RiskLevel) -> spec_fn(LineView) -> bool {
    |l: LineView| l.risk_level == level
}

/// The counts over lines.
pub open spec fn is_summary(s: AnalyzeSummary, lines: Seq<LineView>) -> bool {
    &&& s.total == lines.len()
    &&& s.in_stock == count(lines, available_as("instock"@))
    &&& s.out_of_stock == count(lines, available_as("outofstock"@))
    &&& s.eol_or_nrnd == count(lines, eol_or_nrnd())
    &&& s.no_match == count(lines, available_as("nomatch"@))
    &&& s.error_count == count(lines, available_as("error"@))
    &&& s.long_lead == count(lines, long_lead())
    &&& s.red_count == count(lines, at_level(RiskLevel::Red))
    &&& s.yellow_count == count(lines, at_level(RiskLevel::Yellow))
    &&& s.green_count == count(lines, at_level(RiskLevel::Green))
    &&& s.unknown_count == count(lines, at_level(RiskLevel::Unknown))
}

/// A line with its risk.
pub open spec fn scored(line: LineView) -> LineView {
    LineView { risk_level: risk_of(line), ..line }
}

/// Lines with their risks.
pub open spec fn scored_lines(lines: Seq<LineView>) -> Seq<LineView> {
    lines.map_values(|l: LineView| scored(l))
}

/// A bom once every line has its risk, the summary counts the lines, and the
/// five worst lines are picked. Nothing else changes.
pub open spec fn is_finalized(before: AnalyzeView, after: AnalyzeView) -> bool {
    &&& after == (AnalyzeView {
        lines: scored_lines(before.lines),
        summary: after.summary,
        top_risks: after.top_risks,
        ..before
    })
    &&& is_summary(after.summary, after.lines)
    &&& is_top(after.top_risks, after.lines, 5)
}

fn count_available(lines: &Vec<AnalyzedLine>, name: &str) -> (r: usize)
    ensures
        r == count(line_views(lines@), available_as(name@)),
{
    let ghost views = line_views(lines@);
    let mut n: usize = 0;
    let mut i: usize = 0;
    while i < lines.len()
        invariant
            i <= lines@.len(),
            n <= i,
            views == line_views(lines@),
            n == count(views.take(i as int), available_as(name@)),
        decreases lines@.len() - i,
    {
        assert(views.take(i + 1).drop_last() =~= views.take(i as int));
        assert(views.take(i + 1).last() == lines@[i as int]@);
        let line = &lines[i];
        if eq_ignore_ascii_case(line.availability_status.as_str(), name) {
            n += 1;
        }
        i += 1;
    }
    assert(views.take(i as int) =~= views);
    n
}

fn count_eol_or_nrnd(lines: &Vec<AnalyzedLine>) -> (r: usize)
    ensures
        r == count(line_views(lines@), eol_or_nrnd()),
{
    let ghost views = line_views(lines@);
    let mut n: usize = 0;
    let mut i: usize = 0;
    while i < lines.len()
        invariant
            i <= lines@.len(),
            n <= i,
            views == line_views(lines@),
            n == count(views.take(i as int), eol_or_nrnd()),
        decreases lines@.len() - i,
    {
        assert(views.take(i + 1).drop_last() =~= views.take(i as int));
        assert(views.take(i + 1).last() == lines@[i as int]@);
        let line = &lines[i];
        if eq_ignore_ascii_case(line.lifecycle_status.as_str(), "eol") || eq_ignore_ascii_case(
            line.lifecycle_status.as_str(),
            "nrnd",
        ) {
            n += 1;
        }
        i += 1;
    }
    assert(views.take(i as int) =~= views);
    n
}

fn count_long_lead(lines: &Vec<AnalyzedLine>) -> (r: usize)
    ensures
        r == count(line_views(lines@), long_lead()),
{
    let ghost views = line_views(lines@);
    let mut n: usize = 0;
    let mut i: usize = 0;
    while i < lines.len()
        invariant
            i <= lines@.len(),
            n <= i,
            views == line_views(lines@),
            n == count(views.take(i as int), long_lead()),
        decreases lines@.len() - i,
    {
        assert(views.take(i + 1).drop_last() =~= views.take(i as int));
        assert(views.take(i + 1).last() == lines@[i as int]@);
        let line = &lines[i];
        if line.factory_lead_days.is_some() && line.factory_lead_days.unwrap() > 26 * 7 {
            n += 1;
        }
        i += 1;
    }
    assert(views.take(i as int) =~= views);
    n
}

fn count_level(lines: &Vec<AnalyzedLine>, level: RiskLevel) -> (r: usize)
    ensures
        r == count(line_views(lines@), at_level(level)),
{
    let ghost views = line_views(lines@);
    let mut n: usize = 0;
    let mut i: usize = 0;
    while i < lines.len()
        invariant
            i <= lines@.len(),
            n <= i,
            views == line_views(lines@),
            n == count(views.take(i as int), at_level(level)),
        decreases lines@.len() - i,
    {
        assert(views.take(i + 1).drop_last() =~= views.take(i as int));
        assert(views.take(i + 1).last() == lines@[i as int]@);
        let line = &lines[i];
        if line.risk_level == level {
            n += 1;
        }
        i += 1;
    }
    assert(views.take(i as int) =~= views);
    n
}

fn summarize(lines: &Vec<AnalyzedLine>) -> (r: AnalyzeSummary)
    ensures
        is_summary(r, line_views(lines@)),
{
    AnalyzeSummary {
        total: lines.len(),
        in_stock: count_available(lines, "instock"),
        out_of_stock: count_available(lines, "outofstock"),
        eol_or_nrnd: count_eol_or_nrnd(lines),
        no_match: count_available(lines, "nomatch"),
        error_count: count_available(lines, "error"),
        long_lead: count_long_lead(lines),
        red_count: count_level(lines, RiskLevel::Red),
        yellow_count: count_level(lines, RiskLevel::Yellow),
        green_count: count_level(lines, RiskLevel::Green),
        unknown_count: count_level(lines, RiskLevel::Unknown),
    }
}

/// Scores every line, counts the lines, and picks the five worst.
pub fn finalize_analyze(result: &mut AnalyzeResult)
    ensures
        is_finalized(old(result)@, final(result)@),
{
    let ghost before = line_views(result.lines@);
    let mut lines: Vec<AnalyzedLine> = Vec::new();
    std::mem::swap(&mut lines, &mut result.lines);
    let mut i: usize = 0;
    while i < lines.len()
        invariant
            i <= lines@.len(),
            lines@.len() == before.len(),
            forall|j: int| 0 <= j < i ==> (#[trigger] lines@[j])@ == scored(before[j]),
            forall|j: int| i <= j < lines@.len() ==> (#[trigger] lines@[j])@ == before[j],
        decreases lines@.len() - i,
    {
        let level = score_risk(&lines[i]);
        lines[i].risk_level = level;
        i += 1;
    }
    assert(line_views(lines@) =~= scored_lines(before));
    result.summary = summarize(&lines);
    result.top_risks = select_top_risks(&lines, 5);
    result.lines = lines;
}

proof fn levels_add_up(lines: Seq<LineView>)
    ensures
        count(lines, at_level(RiskLevel::Red)) + count(lines, at_level(RiskLevel::Yellow)) + count(
            lines,
            at_level(RiskLevel::Green),
        ) + count(lines, at_level(RiskLevel::Unknown)) == lines.len(),
    decreases lines.len(),
{
    if lines.len() > 0 {
        levels_add_up(lines.drop_last());
    }
}

/// The counts of the levels add up to the number of lines.
pub proof fn summary_adds_up(s: AnalyzeSummary, lines: Seq<LineView>)
    requires
        is_summary(s, lines),
    ensures
        s.red_count + s.yellow_count + s.green_count + s.unknown_count == s.total,
{
    levels_add_up(lines);
}

/// Scoring does not depend on the score that a line had.
pub proof fn score_ignores_level(line: LineView)
    ensures
        risk_of(scored(line)) == risk_of(line),
        scored(scored(line)) == scored(line),
{
}

/// There is one ranking of a bom's lines.
pub proof fn ranking_unique(a: Seq<int>, b: Seq<int>, lines: Seq<LineView>)
    requires
        is_ranking(a, lines),
        is_ranking(b, lines),
    ensures
        a == b,
{
    ranking_prefix(a, b, lines, a.len() as int);
    ranking_prefix(b, a, lines, b.len() as int);
    assert(a =~= b);
}

proof fn ranking_prefix(a: Seq<int>, b: Seq<int>, lines: Seq<LineView>, n: int)
    requires
        is_ranking(a, lines),
        is_ranking(b, lines),
        0 <= n <= a.len(),
    ensures
        n <= b.len(),
        forall|k: int| 0 <= k < n ==> a[k] == b[k],
    decreases n,
{
    if n > 0 {
        ranking_prefix(a, b, lines, n - 1);
        let x = a[n - 1];
        assert(is_risky(lines[x]));
        assert(b.contains(x));
        let j = choose|j: int| 0 <= j < b.len() && b[j] == x;
        if j < n - 1 {
            assert(a[j] == b[j]);
            assert(ranks_before(lines, a[j], a[n - 1]));
        }
        if j > n - 1 {
            let y = b[n - 1];
            assert(ranks_before(lines, y, x));
            assert(is_risky(lines[y]));
            assert(a.contains(y));
            let i = choose|i: int| 0 <= i < a.len() && a[i] == y;
            if i < n - 1 {
                assert(b[i] == a[i]);
                assert(ranks_before(lines, b[i], b[n - 1]));
            } else if i > n - 1 {
                assert(ranks_before(lines, a[n - 1], a[i]));
            }
        }
    }
}

/// Finalizing twice is finalizing once.
pub proof fn finalize_idempotent(first: AnalyzeView, second: AnalyzeView, third: AnalyzeView)
    requires
        is_finalized(first, second),
        is_finalized(second, third),
    ensures
        third == second,
{
    assert(scored_lines(second.lines) =~= second.lines);
    let a = choose|order: Seq<int>| #[trigger] is_ranking(order, second.lines) && second.top_risks == ranked(
        order,
        second.lines,
        5,
    );
    let b = choose|order: Seq<int>| #[trigger] is_ranking(order, third.lines) && third.top_risks == ranked(
        order,
        third.lines,
        5,
    );
    ranking_unique(a, b, second.lines);
}

/// The worst lines are at most five, every one of them is a risk, and no line
/// that was left out ranks before one that was picked.
pub proof fn top_risks_are_worst(top: Seq<LineView>, lines: Seq<LineView>, k: int)
    requires
        is_top(top, lines, 5),
        0 <= k < top.len(),
    ensures
        top.len() <= 5,
        is_risky(top[k]),
        k > 0 ==> priority(top[k - 1].risk_level) <= priority(top[k].risk_level),
        forall|i: int|
            0 <= i < lines.len() && (#[trigger] lines[i]).risk_level == RiskLevel::Red && top[k].risk_level
                == RiskLevel::Yellow ==> top.contains(lines[i]),
{
    let order = choose|order: Seq<int>| #[trigger] is_ranking(order, lines) && top == ranked(order, lines, 5);
    assert(top[k] == lines[order[k]]);
    assert(is_risky(lines[order[k]]));
    if k > 0 {
        assert(top[k - 1] == lines[order[k - 1]]);
        assert(ranks_before(lines, order[k - 1], order[k]));
    }
    assert forall|i: int|
        0 <= i < lines.len() && (#[trigger] lines[i]).risk_level == RiskLevel::Red && top[k].risk_level
            == RiskLevel::Yellow implies top.contains(lines[i]) by {
        assert(is_risky(lines[i]));
        assert(order.contains(i));
        let j = choose|j: int| 0 <= j < order.len() && order[j] == i;
        if j > k {
            assert(ranks_before(lines, order[k], order[j]));
        }
        assert(top[j] == lines[i]);
    }
}

/// What enrichment says of a line, where it says anything.
pub open spec fn enriched(base: LineView, answer: Option<EnrichResultView>) -> LineView {
    match answer {
        Some(e) => LineView {
            availability_status: availability_text(e.availability_status),
            lifecycle_status: lifecycle_text(e.lifecycle_status),
            match_status: match_text(e.match_status),
            factory_lead_days: e.factory_lead_days,
            total_avail: e.total_avail,
            top_sellers: e.top_sellers,
            ..base
        },
        None => base,
    }
}

/// A parsed line before anything is known of its part.
pub open spec fn bare_line(parsed: ParsedLineView) -> LineView {
    LineView {
        row_index: parsed.row_index,
        mpn: parsed.mpn,
        manufacturer: parsed.manufacturer,
        quantity: parsed.quantity,
        refdes: parsed.refdes,
        description: parsed.description,
        aml_candidates: parsed.aml_candidates,
        availability_status: Seq::empty(),
        lifecycle_status: Seq::empty(),
        match_status: Seq::empty(),
        factory_lead_days: None,
        total_avail: 0,
        top_sellers: Seq::empty(),
        risk_level: RiskLevel::Green,
        category: None,
        hts_code: None,
        country_of_origin: None,
        tariff_confidence: None,
        base_duty_pct: None,
        section_301_pct: None,
        total_duty_pct: None,
        tariff_notes: None,
        rate_basis: None,
        is_stale: None,
        tariff_disclaimer: None,
        entity_list_match: None,
        entity_list_notes: None,
        agent_brief: None,
    }
}

/// The answer for the line at a position.
pub open spec fn answer_at(enrich: Seq<EnrichResult>, i: int) -> Option<EnrichResultView> {
    if 0 <= i < enrich.len() {
        Some(enrich[i]@)
    } else {
        None
    }
}

/// Parsed lines with what enrichment says of them.
pub open spec fn merged_lines(lines: Seq<ParsedLine>, enrich: Seq<EnrichResult>) -> Seq<LineView> {
    Seq::new(lines.len(), |i: int| enriched(bare_line(lines[i]@), answer_at(enrich, i)))
}

fn merge_line(parsed: ParsedLine, answer: Option<&EnrichResult>) -> (r: AnalyzedLine)
    ensures
        r@ == enriched(
            bare_line(parsed@),
            match answer {
                Some(e) => Some(e@),
                None => None,
            },
        ),
{
    let mut line = AnalyzedLine {
        row_index: parsed.row_index,
        mpn: parsed.mpn,
        manufacturer: parsed.manufacturer,
        quantity: parsed.quantity,
        refdes: parsed.refdes,
        description: parsed.description,
        aml_candidates: parsed.aml_candidates,
        availability_status: String::new(),
        lifecycle_status: String::new(),
        match_status: String::new(),
        factory_lead_days: None,
        total_avail: 0,
        top_sellers: Vec::new(),
        risk_level: RiskLevel::Green,
        category: None,
        hts_code: None,
        country_of_origin: None,
        tariff_confidence: None,
        base_duty_pct: None,
        section_301_pct: None,
        total_duty_pct: None,
        tariff_notes: None,
        rate_basis: None,
        is_stale: None,
        tariff_disclaimer: None,
        entity_list_match: None,
        entity_list_notes: None,
        agent_brief: None,
    };
    assert(json_views(line.top_sellers@) =~= Seq::<JsonView>::empty());
    if let Some(e) = answer {
        line.availability_status = owned(e.availability_status.as_str());
        line.lifecycle_status = owned(e.lifecycle_status.as_str());
        line.match_status = owned(e.match_status.as_str());
        line.factory_lead_days = e.factory_lead_days;
        line.total_avail = e.total_avail;
        line.top_sellers = copy_json(&e.top_sellers);
    }
    line
}

/// A bom from a parsed file and what enrichment says of its lines, under that
/// id and at that time, before the lines are scored.
pub open spec fn unscored(
    parse: ParseResult,
    enrich: Seq<EnrichResult>,
    upload_id: Seq<char>,
    analyzed_at: Seq<char>,
) -> AnalyzeView {
    AnalyzeView {
        upload_id,
        source_filename: parse.source_filename@,
        sheet_name: parse.sheet_name.deep_view(),
        mapping_confidence: parse.mapping_confidence,
        summary: no_summary(),
        lines: merged_lines(parse.lines@, enrich),
        top_risks: Seq::empty(),
        warnings: json_views(parse.warnings@),
        stats: parse.stats@,
        analyzed_at,
    }
}

/// All counts zero.
pub open spec fn no_summary() -> AnalyzeSummary {
    AnalyzeSummary {
        total: 0,
        in_stock: 0,
        out_of_stock: 0,
        eol_or_nrnd: 0,
        no_match: 0,
        error_count: 0,
        long_lead: 0,
        red_count: 0,
        yellow_count: 0,
        green_count: 0,
        unknown_count: 0,
    }
}

/// All counts zero.
pub fn empty_summary() -> (r: AnalyzeSummary)
    ensures
        r == no_summary(),
{
    AnalyzeSummary {
        total: 0,
        in_stock: 0,
        out_of_stock: 0,
        eol_or_nrnd: 0,
        no_match: 0,
        error_count: 0,
        long_lead: 0,
        red_count: 0,
        yellow_count: 0,
        green_count: 0,
        unknown_count: 0,
    }
}

/// A bom from a parsed file and what enrichment says of its lines, under that
/// id and at that time.
pub fn merge_as(
    parse: ParseResult,
    enrich: &Vec<EnrichResult>,
    upload_id: String,
    analyzed_at: String,
) -> (r: AnalyzeResult)
    ensures
        is_finalized(unscored(parse, enrich@, upload_id@, analyzed_at@), r@),
{
    let ghost given = parse;
    let mut parsed = parse.lines;
    let ghost all = parsed@;
    let total: usize = parsed.len();
    let mut lines: Vec<AnalyzedLine> = Vec::new();
    let mut i: usize = 0;
    assert(all.skip(0) =~= all);
    while parsed.len() > 0
        invariant
            i <= all.len() == total,
            parsed@ == all.skip(i as int),
            lines@.len() == i,
            forall|j: int|
                0 <= j < i ==> (#[trigger] lines@[j])@ == enriched(
                    bare_line(all[j]@),
                    answer_at(enrich@, j),
                ),
        decreases parsed@.len(),
    {
        let line = parsed.remove(0);
        assert(line == all[i as int]);
        assert(parsed@ =~= all.skip(i + 1));
        let answer = if i < enrich.len() {
            Some(&enrich[i])
        } else {
            None
        };
        lines.push(merge_line(line, answer));
        i += 1;
    }
    assert(line_views(lines@) =~= merged_lines(all, enrich@));
    let mut result = AnalyzeResult {
        upload_id,
        source_filename: parse.source_filename,
        sheet_name: parse.sheet_name,
        mapping_confidence: parse.mapping_confidence,
        summary: empty_summary(),
        lines,
        top_risks: Vec::new(),
        warnings: parse.warnings,
        stats: parse.stats,
        analyzed_at,
    };
    assert(line_views(result.top_risks@) =~= Seq::<LineView>::empty());
    assert(result@ == unscored(given, enrich@, upload_id@, analyzed_at@));
    finalize_analyze(&mut result);
    result
}

/// A bom from a parsed file and what enrichment says of its lines, under a
/// fresh id and now.
pub fn merge(parse: ParseResult, enrich: Vec<EnrichResult>) -> (r: AnalyzeResult)
    ensures
        is_uuid_text(r@.upload_id),
        is_finalized(unscored(parse, enrich@, r@.upload_id, r@.analyzed_at), r@),
        is_clock_text(r@.analyzed_at),
{
    let upload_id = new_uuid();
    let analyzed_at = now_seconds();
    merge_as(parse, &enrich, upload_id, analyzed_at)
}

/// What the tariff service says of a line.
pub open spec fn tariffed(line: LineView, t: TariffResult) -> LineView {
    LineView {
        hts_code: t.hts_code.deep_view(),
        tariff_confidence: Some(t.confidence@),
        base_duty_pct: percent_view(t.base_duty_pct),
        section_301_pct: percent_view(t.section_301_pct),
        total_duty_pct: percent_view(t.total_duty_pct),
        tariff_notes: t.notes.deep_view(),
        rate_basis: Some(t.rate_basis@),
        is_stale: Some(t.data_sources.is_stale),
        tariff_disclaimer: Some(t.disclaimer@),
        ..line
    }
}

/// Puts what the tariff service says on the lines, one by one; lines beyond its
/// answers stay as they are.
pub fn apply_tariff_results(lines: &mut Vec<AnalyzedLine>, tariff_results: Vec<TariffResult>)
    ensures
        final(lines)@.len() == old(lines)@.len(),
        forall|i: int|
            0 <= i < final(lines)@.len() ==> (#[trigger] final(lines)@[i])@ == if i
                < tariff_results@.len() {
                tariffed(old(lines)@[i]@, tariff_results@[i])
            } else {
                old(lines)@[i]@
            },
{
    let ghost before = line_views(lines@);
    let ghost all = tariff_results@;
    let mut rest = tariff_results;
    let mut i: usize = 0;
    assert(all.skip(0) =~= all);
    while rest.len() > 0 && i < lines.len()
        invariant
            i <= lines@.len(),
            i <= all.len(),
            rest@ == all.skip(i as int),
            lines@.len() == before.len(),
            forall|j: int| 0 <= j < i ==> (#[trigger] lines@[j])@ == tariffed(before[j], all[j]),
            forall|j: int| i <= j < lines@.len() ==> (#[trigger] lines@[j])@ == before[j],
        decreases rest@.len(),
    {
        let t = rest.remove(0);
        assert(t == all[i as int]);
        assert(rest@ =~= all.skip(i + 1));
        lines[i].hts_code = t.hts_code;
        lines[i].tariff_confidence = Some(t.confidence);
        lines[i].base_duty_pct = t.base_duty_pct;
        lines[i].section_301_pct = t.section_301_pct;
        lines[i].total_duty_pct = t.total_duty_pct;
        lines[i].tariff_notes = t.notes;
        lines[i].rate_basis = Some(t.rate_basis);
        lines[i].is_stale = Some(t.data_sources.is_stale);
        lines[i].tariff_disclaimer = Some(t.disclaimer);
        i += 1;
    }
}

/// Puts what enrichment says on the lines, one by one; lines beyond its answers
/// stay as they are.
pub fn apply_enrichment_results(lines: &mut Vec<AnalyzedLine>, enrich: &Vec<EnrichResult>)
    ensures
        final(lines)@.len() == old(lines)@.len(),
        forall|i: int|
            0 <= i < final(lines)@.len() ==> (#[trigger] final(lines)@[i])@ == enriched(
                old(lines)@[i]@,
                answer_at(enrich@, i),
            ),
{
    let ghost before = line_views(lines@);
    let mut i: usize = 0;
    while i < enrich.len() && i < lines.len()
        invariant
            i <= lines@.len(),
            i <= enrich@.len(),
            lines@.len() == before.len(),
            forall|j: int|
                0 <= j < i ==> (#[trigger] lines@[j])@ == enriched(before[j], answer_at(enrich@, j)),
            forall|j: int| i <= j < lines@.len() ==> (#[trigger] lines@[j])@ == before[j],
        decreases lines@.len() - i,
    {
        let e = &enrich[i];
        lines[i].availability_status = owned(e.availability_status.as_str());
        lines[i].lifecycle_status = owned(e.lifecycle_status.as_str());
        lines[i].match_status = owned(e.match_status.as_str());
        lines[i].factory_lead_days = e.factory_lead_days;
        lines[i].total_avail = e.total_avail;
        lines[i].top_sellers = copy_json(&e.top_sellers);
        i += 1;
    }
}

proof fn lower_forms()
    ensures
        ascii_lower("InStock"@) == "instock"@,
        ascii_lower("OutOfStock"@) == "outofstock"@,
        ascii_lower("NoMatch"@) == "nomatch"@,
        ascii_lower("Error"@) == "error"@,
        ascii_lower("Pending"@) == "pending"@,
        ascii_lower("Active"@) == "active"@,
        ascii_lower("Nrnd"@) == "nrnd"@,
        ascii_lower("Eol"@) == "eol"@,
        ascii_lower("Discontinued"@) == "discontinued"@,
        ascii_lower("Unknown"@) == "unknown"@,
        ascii_lower("Low"@) == "low"@,
        ascii_lower("Unclassified"@) == "unclassified"@,
        ascii_lower("instock"@) == "instock"@,
        ascii_lower("outofstock"@) == "outofstock"@,
        ascii_lower("nomatch"@) == "nomatch"@,
        ascii_lower("error"@) == "error"@,
        ascii_lower("nrnd"@) == "nrnd"@,
        ascii_lower("eol"@) == "eol"@,
{
    reveal_strlit("InStock");
    reveal_strlit("OutOfStock");
    reveal_strlit("NoMatch");
    reveal_strlit("Error");
    reveal_strlit("Pending");
    reveal_strlit("Active");
    reveal_strlit("Nrnd");
    reveal_strlit("Eol");
    reveal_strlit("Discontinued");
    reveal_strlit("Unknown");
    reveal_strlit("Low");
    reveal_strlit("Unclassified");
    reveal_strlit("instock");
    reveal_strlit("outofstock");
    reveal_strlit("nomatch");
    reveal_strlit("error");
    reveal_strlit("pending");
    reveal_strlit("active");
    reveal_strlit("nrnd");
    reveal_strlit("eol");
    reveal_strlit("discontinued");
    reveal_strlit("unknown");
    reveal_strlit("low");
    reveal_strlit("unclassified");
    assert(ascii_lower("InStock"@) =~= "instock"@);
    assert(ascii_lower("OutOfStock"@) =~= "outofstock"@);
    assert(ascii_lower("NoMatch"@) =~= "nomatch"@);
    assert(ascii_lower("Error"@) =~= "error"@);
    assert(ascii_lower("Pending"@) =~= "pending"@);
    assert(ascii_lower("Active"@) =~= "active"@);
    assert(ascii_lower("Nrnd"@) =~= "nrnd"@);
    assert(ascii_lower("Eol"@) =~= "eol"@);
    assert(ascii_lower("Discontinued"@) =~= "discontinued"@);
    assert(ascii_lower("Unknown"@) =~= "unknown"@);
    assert(ascii_lower("Low"@) =~= "low"@);
    assert(ascii_lower("Unclassified"@) =~= "unclassified"@);
    assert(ascii_lower("instock"@) =~= "instock"@);
    assert(ascii_lower("outofstock"@) =~= "outofstock"@);
    assert(ascii_lower("nomatch"@) =~= "nomatch"@);
    assert(ascii_lower("error"@) =~= "error"@);
    assert(ascii_lower("nrnd"@) =~= "nrnd"@);
    assert(ascii_lower("eol"@) =~= "eol"@);
}

proof fn words_differ()
    ensures
        "instock"@ != "outofstock"@,
        "instock"@ != "nomatch"@,
        "instock"@ != "error"@,
        "instock"@ != "pending"@,
        "outofstock"@ != "nomatch"@,
        "outofstock"@ != "error"@,
        "outofstock"@ != "pending"@,
        "nomatch"@ != "error"@,
        "nomatch"@ != "pending"@,
        "error"@ != "pending"@,
        "active"@ != "nrnd"@,
        "active"@ != "eol"@,
        "active"@ != "discontinued"@,
        "active"@ != "unknown"@,
        "nrnd"@ != "eol"@,
        "nrnd"@ != "discontinued"@,
        "nrnd"@ != "unknown"@,
        "eol"@ != "discontinued"@,
        "eol"@ != "unknown"@,
        "discontinued"@ != "unknown"@,
{
    reveal_strlit("instock");
    reveal_strlit("outofstock");
    reveal_strlit("nomatch");
    reveal_strlit("error");
    reveal_strlit("pending");
    reveal_strlit("active");
    reveal_strlit("nrnd");
    reveal_strlit("eol");
    reveal_strlit("discontinued");
    reveal_strlit("unknown");
    assert("instock"@.len() == 7 && "instock"@[0] == 'i');
    assert("nomatch"@.len() == 7 && "nomatch"@[0] == 'n');
    assert("pending"@.len() == 7 && "pending"@[0] == 'p');
    assert("outofstock"@.len() == 10);
    assert("error"@.len() == 5);
    assert("active"@.len() == 6);
    assert("nrnd"@.len() == 4);
    assert("eol"@.len() == 3);
    assert("discontinued"@.len() == 12);
    assert("unknown"@.len() == 7);
}

/// A line whose part is at the end of its life or discontinued, that no provider
/// matched, or whose duty is 25 percent or more (the bit patterns of the numbers from
/// 25 on) is red, however its statuses are spelled and whatever else it holds.
pub proof fn grave_lines_are_red(line: LineView)
    ensures
        eq_ascii_case(line.lifecycle_status, "Eol"@) ==> risk_of(line) == RiskLevel::Red,
        eq_ascii_case(line.lifecycle_status, "Discontinued"@) ==> risk_of(line) == RiskLevel::Red,
        eq_ascii_case(line.availability_status, "NoMatch"@) ==> risk_of(line) == RiskLevel::Red,
        (line.total_duty_pct matches Some(p) && 0x4039_0000_0000_0000 <= p.bits
            <= 0x7ff0_0000_0000_0000) ==> risk_of(line) == RiskLevel::Red,
{
    lower_forms();
}

/// A line whose lookup failed, whose part is not for new designs, takes more than half
/// a year, or is scarce, or whose tariff is unsure, is never green.
pub proof fn doubtful_lines_are_not_green(line: LineView)
    ensures
        eq_ascii_case(line.availability_status, "Error"@) ==> is_risky(scored(line)),
        eq_ascii_case(line.lifecycle_status, "Nrnd"@) ==> is_risky(scored(line)),
        (line.factory_lead_days matches Some(days) && days >= 183) ==> is_risky(scored(line)),
        1 <= line.total_avail <= 99 ==> is_risky(scored(line)),
        (line.tariff_confidence matches Some(c) && (eq_ascii_case(c, "Low"@) || eq_ascii_case(
            c,
            "Unclassified"@,
        ))) ==> is_risky(scored(line)),
{
    lower_forms();
}

/// No line is flagged without a reason: a red one has a grave sign, and a yellow one
/// has a doubtful sign and no grave one.
pub proof fn flags_have_reasons(line: LineView)
    ensures
        risk_of(line) != RiskLevel::Unknown,
        risk_of(line) == RiskLevel::Red ==> {
            ||| eq_ascii_case(line.lifecycle_status, "Eol"@)
            ||| eq_ascii_case(line.lifecycle_status, "Discontinued"@)
            ||| eq_ascii_case(line.availability_status, "NoMatch"@)
            ||| line.total_duty_pct matches Some(p) && 0x4039_0000_0000_0000 <= p.bits
                <= 0x7ff0_0000_0000_0000
        },
        risk_of(line) == RiskLevel::Yellow ==> {
            ||| eq_ascii_case(line.availability_status, "Error"@)
            ||| eq_ascii_case(line.lifecycle_status, "Nrnd"@)
            ||| line.factory_lead_days matches Some(days) && days >= 183
            ||| 1 <= line.total_avail <= 99
            ||| line.tariff_confidence matches Some(c) && (eq_ascii_case(c, "Low"@)
                || eq_ascii_case(c, "Unclassified"@))
        },
{
    lower_forms();
}

/// What enrichment says of a part decides the risk of its line, as long as nothing is
/// known of its tariff: red without a match or past its life; else yellow after a
/// failed lookup, for parts not for new designs, over 26 weeks, or with 1 to 99 pieces;
/// else green.
pub proof fn answer_decides_risk(parsed: ParsedLineView, e: EnrichResultView)
    ensures
        ({
            let risk = risk_of(enriched(bare_line(parsed), Some(e)));
            let gone = e.lifecycle_status == LifecycleStatus::Eol || e.lifecycle_status
                == LifecycleStatus::Discontinued;
            let slow = e.factory_lead_days is Some && e.factory_lead_days->0 > 26 * 7;
            let scarce = 0 < e.total_avail && e.total_avail < 100;
            &&& risk == RiskLevel::Red <==> gone || e.availability_status
                == AvailabilityStatus::NoMatch
            &&& risk == RiskLevel::Green <==> !gone && e.lifecycle_status != LifecycleStatus::Nrnd
                && e.availability_status != AvailabilityStatus::NoMatch && e.availability_status
                != AvailabilityStatus::Error && !slow && !scarce
            &&& risk != RiskLevel::Unknown
        }),
{
    lower_forms();
    words_differ();
}

/// The risk depends on the statuses, the stock, the lead time and the tariff alone,
/// and not on how statuses are spelled: two lines that agree on these have one risk.
pub proof fn risk_ignores_the_rest(a: LineView, b: LineView)
    requires
        eq_ascii_case(a.availability_status, b.availability_status),
        eq_ascii_case(a.lifecycle_status, b.lifecycle_status),
        a.factory_lead_days == b.factory_lead_days,
        a.total_avail == b.total_avail,
        a.tariff_confidence == b.tariff_confidence,
        a.total_duty_pct == b.total_duty_pct,
    ensures
        risk_of(a) == risk_of(b),
{
}

proof fn member_counts(lines: Seq<LineView>, f: spec_fn(LineView) -> bool, i: int)
    requires
        0 <= i < lines.len(),
        f(lines[i]),
    ensures
        count(lines, f) >= 1,
    decreases lines.len(),
{
    if i < lines.len() - 1 {
        assert(lines.drop_last()[i] == lines[i]);
        member_counts(lines.drop_last(), f, i);
    }
}

/// Finalizing scores every line in place and changes nothing else of it, and a grave
/// line is counted as red and is among the worst, unless five red lines are.
pub proof fn grave_lines_are_shown(before: AnalyzeView, after: AnalyzeView, i: int)
    requires
        is_finalized(before, after),
        0 <= i < before.lines.len(),
    ensures
        after.lines.len() == before.lines.len(),
        (LineView { risk_level: before.lines[i].risk_level, ..after.lines[i] }) == before.lines[i],
        after.summary.total == before.lines.len(),
        after.top_risks.len() <= 5,
        eq_ascii_case(before.lines[i].lifecycle_status, "Eol"@) || eq_ascii_case(
            before.lines[i].lifecycle_status,
            "Discontinued"@,
        ) || eq_ascii_case(before.lines[i].availability_status, "NoMatch"@) ==> {
            &&& after.lines[i].risk_level == RiskLevel::Red
            &&& after.summary.red_count >= 1
            &&& after.top_risks.contains(after.lines[i]) || (after.top_risks.len() == 5 && forall|
                k: int,
            |
                0 <= k < 5 ==> (#[trigger] after.top_risks[k]).risk_level == RiskLevel::Red)
        },
{
    let lines = after.lines;
    grave_lines_are_red(before.lines[i]);
    assert(lines[i] == scored(before.lines[i]));
    let order = choose|order: Seq<int>| #[trigger] is_ranking(order, lines) && after.top_risks == ranked(
        order,
        lines,
        5,
    );
    if lines[i].risk_level == RiskLevel::Red {
        member_counts(lines, at_level(RiskLevel::Red), i);
        assert(is_risky(lines[i]));
        let j = choose|j: int| 0 <= j < order.len() && order[j] == i;
        if j < 5 {
            assert(after.top_risks[j] == lines[i]);
        } else {
            assert forall|k: int| 0 <= k < 5 implies (#[trigger] after.top_risks[k]).risk_level
                == RiskLevel::Red by {
                assert(ranks_before(lines, order[k], order[j]));
            }
        }
    }
}

/// A risky line that is not among the worst comes after every one of them: five are
/// shown, none is less grave, and none as grave stands in a later row.
pub proof fn left_out_lines_come_later(top: Seq<LineView>, lines: Seq<LineView>, i: int, k: int)
    requires
        is_top(top, lines, 5),
        0 <= i < lines.len(),
        lines[i].risk_level == RiskLevel::Red || lines[i].risk_level == RiskLevel::Yellow,
        !top.contains(lines[i]),
        0 <= k < top.len(),
    ensures
        top.len() == 5,
        lines[i].risk_level == RiskLevel::Red ==> top[k].risk_level == RiskLevel::Red,
        top[k].risk_level == lines[i].risk_level ==> top[k].row_index <= lines[i].row_index,
{
    let order = choose|order: Seq<int>| #[trigger] is_ranking(order, lines) && top == ranked(order, lines, 5);
    assert(is_risky(lines[i]));
    let j = choose|j: int| 0 <= j < order.len() && order[j] == i;
    if j < 5 {
        assert(top[j] == lines[i]);
    }
    assert(ranks_before(lines, order[k], order[j]));
}

/// The worst lines are lines of the bom, red ones before yellow ones, and those of one
/// level in the order of their rows.
pub proof fn worst_lines_are_in_order(top: Seq<LineView>, lines: Seq<LineView>, a: int, b: int)
    requires
        is_top(top, lines, 5),
        0 <= a < b < top.len(),
    ensures
        lines.contains(top[a]),
        lines.contains(top[b]),
        top[a].risk_level == RiskLevel::Red || (top[a].risk_level == RiskLevel::Yellow
            && top[b].risk_level == RiskLevel::Yellow),
        top[a].risk_level == top[b].risk_level ==> top[a].row_index <= top[b].row_index,
{
    let order = choose|order: Seq<int>| #[trigger] is_ranking(order, lines) && top == ranked(order, lines, 5);
    assert(ranks_before(lines, order[a], order[b]));
    assert(lines[order[a]] == top[a]);
    assert(lines[order[b]] == top[b]);
}

/// Each line adds one to the counts that it belongs to, and to no other.
pub proof fn lines_add_to_counts(s: AnalyzeSummary, t: AnalyzeSummary, lines: Seq<LineView>, line: LineView)
    requires
        is_summary(s, lines),
        is_summary(t, lines.push(line)),
    ensures
        t.total == s.total + 1,
        t.in_stock - s.in_stock == if eq_ascii_case(line.availability_status, "InStock"@) {
            1int
        } else {
            0
        },
        t.out_of_stock - s.out_of_stock == if eq_ascii_case(line.availability_status, "OutOfStock"@) {
            1int
        } else {
            0
        },
        t.no_match - s.no_match == if eq_ascii_case(line.availability_status, "NoMatch"@) {
            1int
        } else {
            0
        },
        t.error_count - s.error_count == if eq_ascii_case(line.availability_status, "Error"@) {
            1int
        } else {
            0
        },
        t.eol_or_nrnd - s.eol_or_nrnd == if eq_ascii_case(line.lifecycle_status, "Eol"@)
            || eq_ascii_case(line.lifecycle_status, "Nrnd"@) {
            1int
        } else {
            0
        },
        t.long_lead - s.long_lead == if line.factory_lead_days is Some && line.factory_lead_days->0
            >= 183 {
            1int
        } else {
            0
        },
        t.red_count - s.red_count == if line.risk_level == RiskLevel::Red {
            1int
        } else {
            0
        },
        t.yellow_count - s.yellow_count == if line.risk_level == RiskLevel::Yellow {
            1int
        } else {
            0
        },
        t.green_count - s.green_count == if line.risk_level == RiskLevel::Green {
            1int
        } else {
            0
        },
        t.unknown_count - s.unknown_count == if line.risk_level == RiskLevel::Unknown {
            1int
        } else {
            0
        },
{
    lower_forms();
    let more = lines.push(line);
    assert(more.drop_last() =~= lines);
    assert(more.last() == line);
}

/// A bom without lines counts nothing.
pub proof fn no_lines_count_nothing(s: AnalyzeSummary)
    requires
        is_summary(s, Seq::empty()),
    ensures
        s.total == 0 && s.in_stock == 0 && s.out_of_stock == 0 && s.eol_or_nrnd == 0 && s.no_match == 0
            && s.error_count == 0 && s.long_lead == 0 && s.red_count == 0 && s.yellow_count == 0
            && s.green_count == 0 && s.unknown_count == 0,
{
}

/// The line that a parsed line becomes keeps all that was read, and takes the status,
/// stock, lead time and sellers of the answer at its own position.
pub proof fn merged_lines_keep_both(
    parse: ParseResult,
    enrich: Seq<EnrichResult>,
    upload_id: Seq<char>,
    at: Seq<char>,
    after: AnalyzeView,
    i: int,
)
    requires
        is_finalized(unscored(parse, enrich, upload_id, at), after),
        0 <= i < parse.lines@.len(),
    ensures
        after.lines.len() == parse.lines@.len(),
        after.upload_id == upload_id,
        after.analyzed_at == at,
        after.source_filename == parse.source_filename@,
        after.sheet_name == parse.sheet_name.deep_view(),
        after.mapping_confidence == parse.mapping_confidence,
        after.warnings == json_views(parse.warnings@),
        after.stats == parse.stats@,
        ({
            let line = after.lines[i];
            let read = parse.lines@[i]@;
            &&& line.row_index == read.row_index
            &&& line.mpn == read.mpn
            &&& line.manufacturer == read.manufacturer
            &&& line.quantity == read.quantity
            &&& line.refdes == read.refdes
            &&& line.description == read.description
            &&& line.aml_candidates == read.aml_candidates
            &&& line.agent_brief is None
            &&& line.total_duty_pct is None
            &&& i < enrich.len() ==> {
                let e = enrich[i]@;
                &&& line.total_avail == e.total_avail
                &&& line.factory_lead_days == e.factory_lead_days
                &&& line.top_sellers == e.top_sellers
                &&& e.availability_status == AvailabilityStatus::InStock <==> line.availability_status
                    == "InStock"@
                &&& e.availability_status == AvailabilityStatus::Pending <==> line.availability_status
                    == "Pending"@
                &&& e.lifecycle_status == LifecycleStatus::Active <==> line.lifecycle_status
                    == "Active"@
                &&& e.lifecycle_status == LifecycleStatus::Discontinued <==> line.lifecycle_status
                    == "Discontinued"@
                &&& e.match_status == MatchStatus::Exact <==> line.match_status == "Exact"@
                &&& e.match_status == MatchStatus::Fuzzy <==> line.match_status == "Fuzzy"@
                &&& e.match_status == MatchStatus::NoMatch <==> line.match_status == "None"@
            }
            &&& i >= enrich.len() ==> line.availability_status.len() == 0 && line.lifecycle_status.len()
                == 0 && line.match_status.len() == 0 && line.total_avail == 0 && line.factory_lead_days is None
        }),
{
    lower_forms();
    words_differ();
    reveal_strlit("Exact");
    reveal_strlit("Fuzzy");
    reveal_strlit("None");
    reveal_strlit("Pending");
    assert("Exact"@.len() == 5 && "Exact"@[0] == 'E');
    assert("Fuzzy"@.len() == 5 && "Fuzzy"@[0] == 'F');
    assert("None"@.len() == 4);
    assert("Pending"@.len() == 7);
}

/// What the tariff service says of a line lands on the line: rates, code, notes and
/// how sure it is; and what it does not speak of stays.
pub proof fn tariffs_land_on_the_line(line: LineView, t: TariffResult)
    ensures
        ({
            let after = tariffed(line, t);
            &&& after.hts_code == t.hts_code.deep_view()
            &&& after.tariff_confidence == Some(t.confidence@)
            &&& after.base_duty_pct == percent_view(t.base_duty_pct)
            &&& after.section_301_pct == percent_view(t.section_301_pct)
            &&& after.total_duty_pct == percent_view(t.total_duty_pct)
            &&& after.tariff_notes == t.notes.deep_view()
            &&& after.rate_basis == Some(t.rate_basis@)
            &&& after.is_stale == Some(t.data_sources.is_stale)
            &&& after.tariff_disclaimer == Some(t.disclaimer@)
            &&& after.mpn == line.mpn && after.manufacturer == line.manufacturer && after.quantity
                == line.quantity && after.refdes == line.refdes && after.description
                == line.description && after.row_index == line.row_index
            &&& after.availability_status == line.availability_status && after.lifecycle_status
                == line.lifecycle_status && after.total_avail == line.total_avail
                && after.factory_lead_days == line.factory_lead_days && after.country_of_origin
                == line.country_of_origin && after.category == line.category && after.agent_brief
                == line.agent_brief
            &&& (t.total_duty_pct matches Some(p) && 0x4039_0000_0000_0000 <= p.bits
                <= 0x7ff0_0000_0000_0000) ==> risk_of(after) == RiskLevel::Red
            &&& eq_ascii_case(t.confidence@, "Low"@) ==> is_risky(scored(after))
        }),
{
    lower_forms();
}

/// What enrichment says of a line lands on that line and nothing else of it changes; lines
/// beyond its answers stay.
pub proof fn answers_land_in_order(lines: &mut Vec<AnalyzedLine>, answers: &Vec<EnrichResult>, i: int)
    requires
        call_ensures(apply_enrichment_results, (lines, answers), ()),
        0 <= i < old(lines)@.len(),
    ensures
        final(lines)@.len() == old(lines)@.len(),
        i >= answers@.len() ==> final(lines)@[i]@ == old(lines)@[i]@,
        i < answers@.len() ==> ({
            let line = final(lines)@[i]@;
            let a = answers@[i]@;
            &&& line.total_avail == a.total_avail
            &&& line.factory_lead_days == a.factory_lead_days
            &&& line.top_sellers == a.top_sellers
            &&& a.availability_status == AvailabilityStatus::InStock ==> line.availability_status == "InStock"@
            &&& a.availability_status == AvailabilityStatus::OutOfStock ==> line.availability_status == "OutOfStock"@
            &&& a.availability_status == AvailabilityStatus::NoMatch ==> line.availability_status == "NoMatch"@
            &&& a.lifecycle_status == LifecycleStatus::Eol ==> line.lifecycle_status == "Eol"@
            &&& a.lifecycle_status == LifecycleStatus::Discontinued ==> line.lifecycle_status == "Discontinued"@
            &&& a.lifecycle_status == LifecycleStatus::Nrnd ==> line.lifecycle_status == "Nrnd"@
            &&& a.lifecycle_status == LifecycleStatus::Active ==> line.lifecycle_status == "Active"@
            &&& line.mpn == old(lines)@[i]@.mpn && line.quantity == old(lines)@[i]@.quantity && line.refdes
                == old(lines)@[i]@.refdes && line.description == old(lines)@[i]@.description
        }),
{
    assert(final(lines)@[i]@ == enriched(old(lines)@[i]@, answer_at(answers@, i)));
}

} // verus!
