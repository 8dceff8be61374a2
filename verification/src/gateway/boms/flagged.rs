//! The lines at risk over all boms of an account.

use vstd::prelude::*;
use vstd::string::*;

use super::types::{BomRecord, BomRecordView, BomSummary};
use crate::gateway::analyze::{is_risky, line_views, AnalyzedLine, LineView, RiskLevel};
use crate::text::owned;

verus! {

/// The lines at risk of an account.
#[derive(Debug)]
pub struct FlaggedLines {
    pub account_id: String,
    pub items: Vec<FlaggedLineItem>,
}

/// A line at risk and the bom that it is from.
#[derive(Debug)]
pub struct FlaggedLineItem {
    pub bom_id: String,
    pub bom_name: String,
    pub bom_version: u64,
    pub line: AnalyzedLine,
}

/// The content of a line at risk.
#[verifier::ext_equal]
pub struct FlaggedItemView {
    pub bom_id: Seq<char>,
    pub bom_name: Seq<char>,
    pub bom_version: u64,
    pub line: LineView,
}

impl View for FlaggedLineItem {
    type V = FlaggedItemView;

    open spec fn view(&self) -> FlaggedItemView {
        FlaggedItemView {
            bom_id: self.bom_id@,
            bom_name: self.bom_name@,
            bom_version: self.bom_version,
            line: self.line@,
        }
    }
}

/// The contents of lines at risk.
pub open spec fn item_views(items: Seq<FlaggedLineItem>) -> Seq<FlaggedItemView> {
    items.map_values(|i: FlaggedLineItem| i@)
}

/// Whether a line is at risk.
pub fn is_flagged_line(line: &AnalyzedLine) -> (r: bool)
    ensures
        r == is_risky(line@),
{
    matches!(line.risk_level, RiskLevel::Red | RiskLevel::Yellow)
}

/// The lines at risk among the given ones, in order.
pub open spec fn flagged_of(
    bom_id: Seq<char>,
    bom_name: Seq<char>,
    bom_version: u64,
    lines: Seq<LineView>,
) -> Seq<FlaggedItemView>
    decreases lines.len(),
{
    if lines.len() == 0 {
        Seq::empty()
    } else {
        let before = flagged_of(bom_id, bom_name, bom_version, lines.drop_last());
        if is_risky(lines.last()) {
            before.push(FlaggedItemView { bom_id, bom_name, bom_version, line: lines.last() })
        } else {
            before
        }
    }
}

/// The lines at risk of a bom, in order.
pub open spec fn record_items(record: BomRecordView) -> Seq<FlaggedItemView> {
    flagged_of(
        record.summary.id,
        record.summary.name,
        record.summary.version,
        record.analyze.lines,
    )
}

/// The lines at risk of a bom, in order.
pub fn flagged_items_from_record(record: BomRecord) -> (r: Vec<FlaggedLineItem>)
    ensures
        item_views(r@) == record_items(record@),
{
    let bom_id = record.summary.id;
    let bom_name = record.summary.name;
    let bom_version: u64 = record.summary.version;
    let mut rest = record.analyze.lines;
    let ghost all = rest@;
    let ghost views = line_views(all);
    let ghost mut n: int = 0;
    let mut out: Vec<FlaggedLineItem> = Vec::new();
    assert(all.skip(0) =~= all);
    assert(item_views(out@) =~= flagged_of(bom_id@, bom_name@, bom_version, views.take(0)));
    while rest.len() > 0
        invariant
            0 <= n <= all.len(),
            rest@ == all.skip(n),
            views == line_views(all),
            item_views(out@) == flagged_of(bom_id@, bom_name@, bom_version, views.take(n)),
        decreases rest@.len(),
    {
        let line = rest.remove(0);
        let ghost before = out@;
        proof {
            assert(line == all[n]);
            assert(rest@ =~= all.skip(n + 1));
            assert(views.take(n + 1).drop_last() =~= views.take(n));
            assert(views.take(n + 1).last() == line@);
            n = n + 1;
        }
        if is_flagged_line(&line) {
            let item = FlaggedLineItem {
                bom_id: bom_id.clone(),
                bom_name: bom_name.clone(),
                bom_version,
                line,
            };
            let ghost iv = item@;
            out.push(item);
            assert(item_views(out@) =~= item_views(before).push(iv));
        }
    }
    assert(views.take(n) =~= views);
    out
}

/// The ids of the boms that have lines at risk, in order: the only ones that are
/// loaded.
pub open spec fn ids_at_risk(summaries: Seq<BomSummary>) -> Seq<Seq<char>>
    decreases summaries.len(),
{
    if summaries.len() == 0 {
        Seq::empty()
    } else {
        let before = ids_at_risk(summaries.drop_last());
        if summaries.last().at_risk_count == 0 {
            before
        } else {
            before.push(summaries.last().id@)
        }
    }
}

/// The ids of the boms that have lines at risk.
pub fn boms_at_risk(summaries: &Vec<BomSummary>) -> (r: Vec<String>)
    ensures
        r.deep_view() == ids_at_risk(summaries@),
{
    let mut out: Vec<String> = Vec::new();
    let mut i: usize = 0;
    assert(out.deep_view() =~= ids_at_risk(summaries@.take(0)));
    while i < summaries.len()
        invariant
            i <= summaries@.len(),
            out.deep_view() == ids_at_risk(summaries@.take(i as int)),
        decreases summaries@.len() - i,
    {
        let ghost before = out.deep_view();
        proof {
            assert(summaries@.take(i + 1).drop_last() =~= summaries@.take(i as int));
            assert(summaries@.take(i + 1).last() == summaries@[i as int]);
        }
        if summaries[i].at_risk_count != 0 {
            out.push(summaries[i].id.clone());
            assert(out.deep_view() =~= before.push(summaries@[i as int].id@));
        }
        i += 1;
    }
    assert(summaries@.take(i as int) =~= summaries@);
    out
}

/// The lines at risk of the boms, one bom after the other.
pub open spec fn all_items(records: Seq<BomRecord>) -> Seq<FlaggedItemView>
    decreases records.len(),
{
    if records.len() == 0 {
        Seq::empty()
    } else {
        all_items(records.drop_last()) + record_items(records.last()@)
    }
}

/// The lines at risk of the loaded boms of an account.
pub fn collect_flagged_lines(account_id: &str, records: Vec<BomRecord>) -> (r: FlaggedLines)
    ensures
        r.account_id@ == account_id@,
        item_views(r.items@) == all_items(records@),
{
    let mut rest = records;
    let ghost all = rest@;
    let ghost mut n: int = 0;
    let mut items: Vec<FlaggedLineItem> = Vec::new();
    assert(all.skip(0) =~= all);
    assert(item_views(items@) =~= all_items(all.take(0)));
    while rest.len() > 0
        invariant
            0 <= n <= all.len(),
            rest@ == all.skip(n),
            item_views(items@) == all_items(all.take(n)),
        decreases rest@.len(),
    {
        let record = rest.remove(0);
        let ghost before = items@;
        proof {
            assert(record == all[n]);
            assert(rest@ =~= all.skip(n + 1));
            assert(all.take(n + 1).drop_last() =~= all.take(n));
            assert(all.take(n + 1).last() == record);
            n = n + 1;
        }
        let ghost rv = record@;
        let mut found = flagged_items_from_record(record);
        let ghost fv = found@;
        items.append(&mut found);
        assert(item_views(items@) =~= item_views(before) + item_views(fv));
    }
    assert(all.take(n) =~= all);
    FlaggedLines { account_id: owned(account_id), items }
}

/// Every listed line is at risk.
pub proof fn listed_lines_are_risky(
    bom_id: Seq<char>,
    bom_name: Seq<char>,
    bom_version: u64,
    lines: Seq<LineView>,
    i: int,
)
    requires
        0 <= i < flagged_of(bom_id, bom_name, bom_version, lines).len(),
    ensures
        is_risky(flagged_of(bom_id, bom_name, bom_version, lines)[i].line),
        lines.contains(flagged_of(bom_id, bom_name, bom_version, lines)[i].line),
    decreases lines.len(),
{
    let rest = lines.drop_last();
    let before = flagged_of(bom_id, bom_name, bom_version, rest);
    if i < before.len() {
        listed_lines_are_risky(bom_id, bom_name, bom_version, rest, i);
        let line = before[i].line;
        let j = choose|j: int| 0 <= j < rest.len() && rest[j] == line;
        assert(lines[j] == line);
    } else {
        assert(lines[lines.len() - 1] == lines.last());
    }
}

proof fn risky_lines_are_flagged(bom_id: Seq<char>, bom_name: Seq<char>, bom_version: u64, lines: Seq<LineView>, i: int)
    requires
        0 <= i < lines.len(),
        lines[i].risk_level == RiskLevel::Red || lines[i].risk_level == RiskLevel::Yellow,
    ensures
        flagged_of(bom_id, bom_name, bom_version, lines).contains(
            FlaggedItemView { bom_id, bom_name, bom_version, line: lines[i] },
        ),
    decreases lines.len(),
{
    let d = lines.drop_last();
    let w = flagged_of(bom_id, bom_name, bom_version, d);
    let all = flagged_of(bom_id, bom_name, bom_version, lines);
    let item = FlaggedItemView { bom_id, bom_name, bom_version, line: lines[i] };
    if i == lines.len() - 1 {
        assert(all[w.len() as int] == item);
    } else {
        risky_lines_are_flagged(bom_id, bom_name, bom_version, d, i);
        assert(d[i] == lines[i]);
        let k = choose|k: int| 0 <= k < w.len() && w[k] == item;
        assert(all[k] == item);
    }
}

proof fn flagged_lines_name_the_bom(
    bom_id: Seq<char>,
    bom_name: Seq<char>,
    bom_version: u64,
    lines: Seq<LineView>,
    i: int,
)
    requires
        0 <= i < flagged_of(bom_id, bom_name, bom_version, lines).len(),
    ensures
        ({
            let item = flagged_of(bom_id, bom_name, bom_version, lines)[i];
            item.bom_id == bom_id && item.bom_name == bom_name && item.bom_version == bom_version
        }),
    decreases lines.len(),
{
    let d = lines.drop_last();
    if i < flagged_of(bom_id, bom_name, bom_version, d).len() {
        flagged_lines_name_the_bom(bom_id, bom_name, bom_version, d, i);
    }
}

/// Every red or yellow line of a bom is flagged, as a line of that bom; a line that is
/// neither is not.
pub proof fn risky_lines_of_a_bom_are_flagged(record: BomRecord, r: Vec<FlaggedLineItem>, i: int, k: int)
    requires
        call_ensures(flagged_items_from_record, (record,), r),
    ensures
        0 <= i < record@.analyze.lines.len() && (record@.analyze.lines[i].risk_level == RiskLevel::Red
            || record@.analyze.lines[i].risk_level == RiskLevel::Yellow) ==> exists|j: int|
            0 <= j < r@.len() && (#[trigger] r@[j])@.line == record@.analyze.lines[i],
        0 <= k < r@.len() ==> {
            &&& r@[k]@.bom_id == record@.summary.id
            &&& r@[k]@.bom_name == record@.summary.name
            &&& r@[k]@.bom_version == record@.summary.version
            &&& r@[k]@.line.risk_level == RiskLevel::Red || r@[k]@.line.risk_level == RiskLevel::Yellow
            &&& record@.analyze.lines.contains(r@[k]@.line)
        },
{
    let lines = record@.analyze.lines;
    let id = record@.summary.id;
    let name = record@.summary.name;
    let version = record@.summary.version;
    let items = item_views(r@);
    if 0 <= i < lines.len() && (lines[i].risk_level == RiskLevel::Red || lines[i].risk_level == RiskLevel::Yellow) {
        risky_lines_are_flagged(id, name, version, lines, i);
        let item = FlaggedItemView { bom_id: id, bom_name: name, bom_version: version, line: lines[i] };
        let j = choose|j: int| 0 <= j < items.len() && items[j] == item;
        assert(r@[j]@ == item);
    }
    if 0 <= k < r@.len() {
        assert(items[k] == r@[k]@);
        flagged_lines_name_the_bom(id, name, version, lines, k);
        listed_lines_are_risky(id, name, version, lines, k);
    }
}

/// The boms that are loaded are those with lines at risk, in their order.
pub proof fn boms_without_risk_are_passed_over(summaries: Seq<BomSummary>, summary: BomSummary)
    ensures
        ids_at_risk(Seq::empty()).len() == 0,
        summary.at_risk_count > 0 ==> ids_at_risk(summaries.push(summary)) == ids_at_risk(summaries).push(summary.id@),
        summary.at_risk_count == 0 ==> ids_at_risk(summaries.push(summary)) == ids_at_risk(summaries),
{
    assert(summaries.push(summary).drop_last() =~= summaries);
    assert(summaries.push(summary).last() == summary);
}

/// The lines at risk of an account are those of its boms, one bom after the other.
pub proof fn boms_come_one_after_the_other(records: Seq<BomRecord>, record: BomRecord)
    ensures
        all_items(Seq::empty()).len() == 0,
        all_items(records.push(record)) == all_items(records) + flagged_of(
            record@.summary.id,
            record@.summary.name,
            record@.summary.version,
            record@.analyze.lines,
        ),
{
    assert(records.push(record).drop_last() =~= records);
    assert(records.push(record).last() == record);
}

/// Red and yellow lines are flagged, green and unknown ones are not.
pub proof fn red_and_yellow_lines_are_flagged(line: &AnalyzedLine, r: bool)
    requires
        call_ensures(is_flagged_line, (line,), r),
    ensures
        line.risk_level == RiskLevel::Red || line.risk_level == RiskLevel::Yellow ==> r,
        line.risk_level == RiskLevel::Green || line.risk_level == RiskLevel::Unknown ==> !r,
{
}

} // verus!
