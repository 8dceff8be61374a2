//! Briefs kept beside a bom's lines.

use vstd::prelude::*;
use vstd::string::*;

use super::flagged::is_flagged_line;
use crate::dynamo::{viewed, viewed_insert};
use crate::gateway::agent_brief::{shown_level, text_or_none};
use crate::gateway::analyze::{is_risky, line_views, AnalyzeResult, AnalyzeView, AnalyzedLine, LineView, RiskLevel};
use crate::gateway::billing::service::lookup;
use crate::strmap::{entry_in_map, key_has_entry, StrMap};
use crate::text::number::{dec_int, dec_nat, i64_text, usize_text};
use crate::text::search::joined;
use crate::text::{owned, same};

verus! {

/// A brief, and the state of the line that it was written for.
#[derive(Debug)]
pub struct LineBrief {
    pub fingerprint: String,
    pub text: String,
    pub updated_at: String,
}

/// The content of a brief.
#[verifier::ext_equal]
pub struct LineBriefView {
    pub fingerprint: Seq<char>,
    pub text: Seq<char>,
    pub updated_at: Seq<char>,
}

impl View for LineBrief {
    type V = LineBriefView;

    open spec fn view(&self) -> LineBriefView {
        LineBriefView {
            fingerprint: self.fingerprint@,
            text: self.text@,
            updated_at: self.updated_at@,
        }
    }
}

impl Clone for LineBrief {
    fn clone(&self) -> (r: Self)
        ensures
            r == *self,
    {
        LineBrief {
            fingerprint: self.fingerprint.clone(),
            text: self.text.clone(),
            updated_at: self.updated_at.clone(),
        }
    }
}

/// The briefs of a bom by line.
pub struct LineBriefs {
    pub lines: StrMap<LineBrief>,
}

/// Briefs by the key of their line.
pub type BriefMap = Map<Seq<char>, LineBriefView>;

impl View for LineBriefs {
    type V = BriefMap;

    open spec fn view(&self) -> BriefMap {
        viewed(self.lines)
    }
}

impl LineBriefs {
    /// Each line has one brief at most.
    pub open spec fn wf(self) -> bool {
        self.lines.wf()
    }

    /// No briefs.
    pub fn new() -> (r: Self)
        ensures
            r.wf(),
            r@ == BriefMap::empty(),
    {
        let r = LineBriefs { lines: StrMap::new() };
        assert(viewed(r.lines) =~= BriefMap::empty());
        r
    }

    /// The brief under a key.
    pub fn get(&self, key: &str) -> (r: Option<&LineBrief>)
        requires
            self.wf(),
        ensures
            match lookup(self@, key@) {
                Some(brief) => r is Some && r->0@ == brief,
                None => r is None,
            },
    {
        self.lines.get(key)
    }

    /// Keeps a brief under a key.
    pub fn insert(&mut self, key: &str, brief: LineBrief)
        requires
            old(self).wf(),
        ensures
            final(self).wf(),
            final(self)@ == old(self)@.insert(key@, brief@),
    {
        let ghost before = self.lines;
        self.lines.insert(key, brief);
        proof {
            viewed_insert(before, self.lines, key@, brief);
        }
    }

    /// Whether two collections hold the same briefs.
    pub fn same_as(&self, other: &LineBriefs) -> (r: bool)
        requires
            self.wf(),
            other.wf(),
        ensures
            r == (self@ == other@),
    {
        let a = self.within(other);
        let b = other.within(self);
        proof {
            if a && b {
                assert(self@ =~= other@);
            }
        }
        a && b
    }

    fn within(&self, other: &LineBriefs) -> (r: bool)
        requires
            self.wf(),
            other.wf(),
        ensures
            r == forall|k: Seq<char>| #[trigger] self@.dom().contains(k) ==> other@.dom().contains(k) && other@[k] == self@[k],
    {
        let mut i: usize = 0;
        while i < self.lines.entries.len()
            invariant
                i <= self.lines.entries@.len(),
                self.wf(),
                other.wf(),
                forall|j: int|
                    0 <= j < i ==> {
                        let e = #[trigger] self.lines.entries@[j];
                        other@.dom().contains(e.0@) && other@[e.0@] == e.1@
                    },
            decreases self.lines.entries@.len() - i,
        {
            let entry = &self.lines.entries[i];
            proof {
                entry_in_map(self.lines, i as int);
            }
            let there = match other.get(entry.0.as_str()) {
                Some(b) => same(b.fingerprint.as_str(), entry.1.fingerprint.as_str()) && same(
                    b.text.as_str(),
                    entry.1.text.as_str(),
                ) && same(b.updated_at.as_str(), entry.1.updated_at.as_str()),
                None => false,
            };
            if !there {
                proof {
                    let k = entry.0@;
                    assert(self@.dom().contains(k));
                    assert(self@[k] == entry.1@);
                    if other@.dom().contains(k) {
                        assert(other@[k] != self@[k]);
                    }
                }
                return false;
            }
            i += 1;
        }
        proof {
            assert forall|k: Seq<char>| #[trigger] self@.dom().contains(k) implies other@.dom().contains(
                k,
            ) && other@[k] == self@[k] by {
                key_has_entry(self.lines, k);
            }
        }
        true
    }
}

/// The key of a line: its row.
pub fn line_key(row_index: usize) -> (r: String)
    ensures
        r@ == dec_nat(row_index as nat),
{
    usize_text(row_index)
}

/// The key of a line: its row.
pub open spec fn key_of(line: LineView) -> Seq<char> {
    dec_nat(line.row_index as nat)
}

/// Lines with different rows have different keys.
pub proof fn keys_differ(a: LineView, b: LineView)
    requires
        key_of(a) == key_of(b),
    ensures
        a.row_index == b.row_index,
{
    crate::text::number::dec_nat_value(a.row_index as nat);
    crate::text::number::dec_nat_value(b.row_index as nat);
}

/// A truth value in words.
pub open spec fn bool_text(b: bool) -> Seq<char> {
    if b {
        "true"@
    } else {
        "false"@
    }
}

/// What a brief depends on: the part, and everything that its risk comes from.
pub open spec fn fingerprint(line: LineView) -> Seq<char> {
    text_or_none(line.mpn) + "|"@ + text_or_none(line.manufacturer) + "|"@ + shown_level(
        line.risk_level,
    ) + "|"@ + line.availability_status + "|"@ + line.lifecycle_status + "|"@ + line.match_status
        + "|"@ + match line.factory_lead_days {
        Some(days) => dec_int(days as int),
        None => Seq::empty(),
    } + "|"@ + dec_int(line.total_avail as int) + "|"@ + match line.total_duty_pct {
        Some(pct) => pct.fixed,
        None => Seq::empty(),
    } + "|"@ + match line.entity_list_match {
        Some(matched) => bool_text(matched),
        None => Seq::empty(),
    }
}

fn append_opt(out: &mut String, text: &Option<String>)
    ensures
        final(out)@ == old(out)@ + text_or_none(text.deep_view()),
{
    match text {
        Some(t) => out.append(t.as_str()),
        None => {
            assert(out@ =~= out@ + Seq::<char>::empty());
        },
    }
}

/// What a brief depends on.
pub fn line_fingerprint(line: &AnalyzedLine) -> (r: String)
    ensures
        r@ == fingerprint(line@),
{
    let mut out = String::new();
    append_opt(&mut out, &line.mpn);
    assert(out@ =~= text_or_none(line@.mpn));
    out.append("|");
    append_opt(&mut out, &line.manufacturer);
    out.append("|");
    out.append(
        match line.risk_level {
            RiskLevel::Red => "Red",
            RiskLevel::Yellow => "Yellow",
            RiskLevel::Green => "Green",
            RiskLevel::Unknown => "Unknown",
        },
    );
    out.append("|");
    out.append(line.availability_status.as_str());
    out.append("|");
    out.append(line.lifecycle_status.as_str());
    out.append("|");
    out.append(line.match_status.as_str());
    out.append("|");
    let days = match line.factory_lead_days {
        Some(days) => i64_text(days as i64),
        None => String::new(),
    };
    out.append(days.as_str());
    out.append("|");
    out.append(i64_text(line.total_avail).as_str());
    out.append("|");
    let duty = match &line.total_duty_pct {
        Some(pct) => pct.fixed.clone(),
        None => String::new(),
    };
    out.append(duty.as_str());
    out.append("|");
    let entity = match line.entity_list_match {
        Some(true) => owned("true"),
        Some(false) => owned("false"),
        None => String::new(),
    };
    out.append(entity.as_str());
    out
}

/// Something that briefs depend on is different.
pub open spec fn scores_differ(before: Seq<LineView>, after: Seq<LineView>) -> bool {
    before.len() != after.len() || exists|i: int|
        0 <= i < before.len() && #[trigger] fingerprint(before[i]) != fingerprint(after[i])
}

/// Whether something that briefs depend on is different.
pub fn scored_fields_changed(before: &Vec<AnalyzedLine>, after: &Vec<AnalyzedLine>) -> (r: bool)
    ensures
        r == scores_differ(line_views(before@), line_views(after@)),
{
    if before.len() != after.len() {
        return true;
    }
    let ghost b = line_views(before@);
    let ghost a = line_views(after@);
    let mut i: usize = 0;
    while i < before.len()
        invariant
            i <= before@.len(),
            before@.len() == after@.len(),
            b == line_views(before@),
            a == line_views(after@),
            forall|j: int| 0 <= j < i ==> #[trigger] fingerprint(b[j]) == fingerprint(a[j]),
        decreases before@.len() - i,
    {
        let x = line_fingerprint(&before[i]);
        let y = line_fingerprint(&after[i]);
        if !same(x.as_str(), y.as_str()) {
            assert(fingerprint(b[i as int]) != fingerprint(a[i as int]));
            return true;
        }
        i += 1;
    }
    false
}

/// The brief of the line is up to date and says something.
pub open spec fn is_current(line: LineView, briefs: BriefMap) -> bool {
    match lookup(briefs, key_of(line)) {
        Some(brief) => brief.fingerprint == fingerprint(line) && brief.text.len() > 0,
        None => false,
    }
}

fn current(line: &AnalyzedLine, briefs: &LineBriefs) -> (r: bool)
    requires
        briefs.wf(),
    ensures
        r == is_current(line@, briefs@),
{
    let key = line_key(line.row_index);
    match briefs.get(key.as_str()) {
        Some(brief) => same(brief.fingerprint.as_str(), line_fingerprint(line).as_str())
            && !brief.text.as_str().is_empty(),
        None => false,
    }
}

/// A flagged line whose brief is missing or out of date.
pub open spec fn is_due(line: LineView, briefs: BriefMap) -> bool {
    is_risky(line) && !is_current(line, briefs)
}

/// Whether some flagged line's brief is missing or out of date.
pub fn needs_brief_refresh(lines: &Vec<AnalyzedLine>, briefs: &LineBriefs) -> (r: bool)
    requires
        briefs.wf(),
    ensures
        r == exists|i: int| 0 <= i < lines@.len() && is_due((#[trigger] lines@[i])@, briefs@),
{
    let mut i: usize = 0;
    while i < lines.len()
        invariant
            i <= lines@.len(),
            briefs.wf(),
            forall|j: int| 0 <= j < i ==> !is_due((#[trigger] lines@[j])@, briefs@),
        decreases lines@.len() - i,
    {
        if is_flagged_line(&lines[i]) && !current(&lines[i], briefs) {
            assert(is_due(lines@[i as int]@, briefs@));
            return true;
        }
        i += 1;
    }
    false
}

/// The briefs of flagged lines that are up to date.
pub open spec fn kept_briefs(lines: Seq<LineView>, existing: BriefMap) -> BriefMap
    decreases lines.len(),
{
    if lines.len() == 0 {
        Map::empty()
    } else {
        let line = lines.last();
        let before = kept_briefs(lines.drop_last(), existing);
        if is_risky(line) && is_current(line, existing) {
            before.insert(key_of(line), existing[key_of(line)])
        } else {
            before
        }
    }
}

/// The positions of flagged lines whose briefs are missing or out of date.
pub open spec fn due_lines(lines: Seq<LineView>, existing: BriefMap) -> Seq<int>
    decreases lines.len(),
{
    if lines.len() == 0 {
        Seq::empty()
    } else {
        let before = due_lines(lines.drop_last(), existing);
        if is_due(lines.last(), existing) {
            before.push(lines.len() - 1)
        } else {
            before
        }
    }
}

/// Keeps the briefs of flagged lines that are up to date; the positions of the
/// flagged lines that need a new one.
pub fn reconcile_line_briefs(lines: &Vec<AnalyzedLine>, existing: &LineBriefs) -> (r: (
    LineBriefs,
    Vec<usize>,
))
    requires
        existing.wf(),
    ensures
        r.0.wf(),
        r.0@ == kept_briefs(line_views(lines@), existing@),
        crate::gateway::agent_brief::positions(r.1@) == due_lines(line_views(lines@), existing@),
        forall|k: int| 0 <= k < r.1@.len() ==> #[trigger] r.1@[k] < lines@.len(),
{
    let ghost views = line_views(lines@);
    let mut next = LineBriefs::new();
    let mut to_analyze: Vec<usize> = Vec::new();
    let mut i: usize = 0;
    assert(crate::gateway::agent_brief::positions(to_analyze@) =~= due_lines(views.take(0), existing@));
    while i < lines.len()
        invariant
            i <= lines@.len(),
            existing.wf(),
            next.wf(),
            views == line_views(lines@),
            next@ == kept_briefs(views.take(i as int), existing@),
            crate::gateway::agent_brief::positions(to_analyze@) == due_lines(
                views.take(i as int),
                existing@,
            ),
            forall|k: int| 0 <= k < to_analyze@.len() ==> #[trigger] to_analyze@[k] < lines@.len(),
        decreases lines@.len() - i,
    {
        let line = &lines[i];
        let ghost due = to_analyze@;
        proof {
            assert(views.take(i + 1).drop_last() =~= views.take(i as int));
            assert(views.take(i + 1).last() == line@);
        }
        if is_flagged_line(line) {
            if current(line, existing) {
                let key = line_key(line.row_index);
                if let Some(brief) = existing.get(key.as_str()) {
                    next.insert(key.as_str(), brief.clone());
                }
            } else {
                to_analyze.push(i);
                assert(crate::gateway::agent_brief::positions(to_analyze@)
                    =~= crate::gateway::agent_brief::positions(due).push(i as int));
            }
        }
        i += 1;
    }
    assert(views.take(i as int) =~= views);
    (next, to_analyze)
}

/// Kept briefs are existing briefs, each of a flagged line of the bom.
pub proof fn kept_briefs_are_current(lines: Seq<LineView>, existing: BriefMap, key: Seq<char>)
    requires
        kept_briefs(lines, existing).dom().contains(key),
    ensures
        existing.dom().contains(key),
        kept_briefs(lines, existing)[key] == existing[key],
        exists|i: int|
            0 <= i < lines.len() && is_risky(#[trigger] lines[i]) && key_of(lines[i]) == key
                && is_current(lines[i], existing),
    decreases lines.len(),
{
    let line = lines.last();
    let rest = lines.drop_last();
    if is_risky(line) && is_current(line, existing) && key_of(line) == key {
        assert(lines[lines.len() - 1] == line);
    } else {
        kept_briefs_are_current(rest, existing, key);
        let i = choose|i: int|
            0 <= i < rest.len() && is_risky(#[trigger] rest[i]) && key_of(rest[i]) == key
                && is_current(rest[i], existing);
        assert(lines[i] == rest[i]);
    }
}

/// A line with its brief, where there is one that says something.
pub open spec fn attached(line: LineView, briefs: BriefMap) -> LineView {
    match lookup(briefs, key_of(line)) {
        Some(brief) => if brief.text.len() > 0 {
            LineView { agent_brief: Some(brief.text), ..line }
        } else {
            line
        },
        None => line,
    }
}

/// Puts each line's brief on it.
pub fn attach_line_briefs(lines: &mut Vec<AnalyzedLine>, briefs: &LineBriefs)
    requires
        briefs.wf(),
    ensures
        line_views(final(lines)@) == line_views(old(lines)@).map_values(
            |l: LineView| attached(l, briefs@),
        ),
{
    let ghost before = line_views(lines@);
    let mut i: usize = 0;
    while i < lines.len()
        invariant
            i <= lines@.len(),
            briefs.wf(),
            lines@.len() == before.len(),
            forall|j: int| 0 <= j < i ==> (#[trigger] lines@[j])@ == attached(before[j], briefs@),
            forall|j: int| i <= j < lines@.len() ==> (#[trigger] lines@[j])@ == before[j],
        decreases lines@.len() - i,
    {
        let key = line_key(lines[i].row_index);
        if let Some(brief) = briefs.get(key.as_str()) {
            if !brief.text.as_str().is_empty() {
                let text = brief.text.clone();
                lines[i].agent_brief = Some(text);
            }
        }
        i += 1;
    }
    assert(line_views(lines@) =~= before.map_values(|l: LineView| attached(l, briefs@)));
}

/// A line without its brief.
pub open spec fn unbriefed(line: LineView) -> LineView {
    LineView { agent_brief: None, ..line }
}

fn strip_lines(lines: &mut Vec<AnalyzedLine>)
    ensures
        line_views(final(lines)@) == line_views(old(lines)@).map_values(|l: LineView| unbriefed(l)),
{
    let ghost before = line_views(lines@);
    let mut i: usize = 0;
    while i < lines.len()
        invariant
            i <= lines@.len(),
            lines@.len() == before.len(),
            forall|j: int| 0 <= j < i ==> (#[trigger] lines@[j])@ == unbriefed(before[j]),
            forall|j: int| i <= j < lines@.len() ==> (#[trigger] lines@[j])@ == before[j],
        decreases lines@.len() - i,
    {
        lines[i].agent_brief = None;
        i += 1;
    }
    assert(line_views(lines@) =~= before.map_values(|l: LineView| unbriefed(l)));
}

/// A bom without briefs.
pub open spec fn without_briefs(analyze: AnalyzeView) -> AnalyzeView {
    AnalyzeView {
        lines: analyze.lines.map_values(|l: LineView| unbriefed(l)),
        top_risks: analyze.top_risks.map_values(|l: LineView| unbriefed(l)),
        ..analyze
    }
}

/// Takes the briefs off all lines.
pub fn strip_agent_briefs(analyze: &mut AnalyzeResult)
    ensures
        final(analyze)@ == without_briefs(old(analyze)@),
{
    strip_lines(&mut analyze.lines);
    strip_lines(&mut analyze.top_risks);
}

/// A copy of a bom without briefs.
pub fn analyze_without_briefs(analyze: &AnalyzeResult) -> (r: AnalyzeResult)
    ensures
        r@ == without_briefs(analyze@),
{
    let mut copy = analyze.clone();
    strip_agent_briefs(&mut copy);
    copy
}

/// A brief is no part of what briefs depend on.
pub proof fn fingerprint_ignores_brief(line: LineView, brief: Option<Seq<char>>)
    ensures
        fingerprint(LineView { agent_brief: brief, ..line }) == fingerprint(line),
{
}

/// What a brief depends on, field by field.
#[verifier::opaque]
pub open spec fn fingerprint_fields(line: LineView) -> Seq<Seq<char>> {
    Seq::empty().push(text_or_none(line.mpn)).push(text_or_none(line.manufacturer)).push(
        shown_level(line.risk_level),
    ).push(line.availability_status).push(line.lifecycle_status).push(line.match_status).push(
        match line.factory_lead_days {
            Some(days) => dec_int(days as int),
            None => Seq::empty(),
        },
    ).push(dec_int(line.total_avail as int)).push(
        match line.total_duty_pct {
            Some(pct) => pct.fixed,
            None => Seq::empty(),
        },
    ).push(
        match line.entity_list_match {
            Some(matched) => bool_text(matched),
            None => Seq::empty(),
        },
    )
}

proof fn joining_one_more(parts: Seq<Seq<char>>, part: Seq<char>)
    ensures
        parts.len() == 0 ==> joined(parts.push(part), "|"@) == part,
        parts.len() > 0 ==> joined(parts.push(part), "|"@) == joined(parts, "|"@) + "|"@ + part,
{
    assert(parts.push(part).drop_last() =~= parts);
    assert(parts.push(part).last() == part);
}

proof fn fingerprint_is_joined(line: LineView)
    ensures
        fingerprint(line) == joined(fingerprint_fields(line), "|"@),
{
    reveal(fingerprint_fields);
    let lead = match line.factory_lead_days {
        Some(days) => dec_int(days as int),
        None => Seq::empty(),
    };
    let duty = match line.total_duty_pct {
        Some(pct) => pct.fixed,
        None => Seq::empty(),
    };
    let listed = match line.entity_list_match {
        Some(matched) => bool_text(matched),
        None => Seq::empty(),
    };
    let p0 = Seq::<Seq<char>>::empty();
    let p1 = p0.push(text_or_none(line.mpn));
    let p2 = p1.push(text_or_none(line.manufacturer));
    let p3 = p2.push(shown_level(line.risk_level));
    let p4 = p3.push(line.availability_status);
    let p5 = p4.push(line.lifecycle_status);
    let p6 = p5.push(line.match_status);
    let p7 = p6.push(lead);
    let p8 = p7.push(dec_int(line.total_avail as int));
    let p9 = p8.push(duty);
    joining_one_more(p0, text_or_none(line.mpn));
    joining_one_more(p1, text_or_none(line.manufacturer));
    joining_one_more(p2, shown_level(line.risk_level));
    joining_one_more(p3, line.availability_status);
    joining_one_more(p4, line.lifecycle_status);
    joining_one_more(p5, line.match_status);
    joining_one_more(p6, lead);
    joining_one_more(p7, dec_int(line.total_avail as int));
    joining_one_more(p8, duty);
    joining_one_more(p9, listed);
}

proof fn ends_cancel(a: Seq<char>, b: Seq<char>, t: Seq<char>)
    requires
        a + t == b + t,
    ensures
        a == b,
{
    assert((a + t).len() == (b + t).len());
    assert(a =~= (a + t).take(a.len() as int));
    assert(b =~= (b + t).take(b.len() as int));
}

proof fn starts_cancel(a: Seq<char>, b: Seq<char>, s: Seq<char>)
    requires
        s + a == s + b,
    ensures
        a == b,
{
    assert(a =~= (s + a).skip(s.len() as int));
    assert(b =~= (s + b).skip(s.len() as int));
}

proof fn one_part_shows(p: Seq<Seq<char>>, q: Seq<Seq<char>>, k: int)
    requires
        p.len() == q.len(),
        0 <= k < p.len(),
        forall|j: int| 0 <= j < p.len() && j != k ==> p[j] == q[j],
        joined(p, "|"@) == joined(q, "|"@),
    ensures
        p[k] == q[k],
    decreases p.len(),
{
    if p.len() > 1 {
        let a = joined(p.drop_last(), "|"@) + "|"@;
        let b = joined(q.drop_last(), "|"@) + "|"@;
        if k == p.len() - 1 {
            assert(p.drop_last() =~= q.drop_last());
            starts_cancel(p.last(), q.last(), a);
        } else {
            assert(p.last() == q.last());
            ends_cancel(a, b, p.last());
            ends_cancel(joined(p.drop_last(), "|"@), joined(q.drop_last(), "|"@), "|"@);
            one_part_shows(p.drop_last(), q.drop_last(), k);
        }
    }
}

/// A line whose availability, life or match became another needs a new brief.
pub proof fn every_change_of_status_shows(a: LineView, b: LineView)
    requires
        fingerprint(a) == fingerprint(b),
    ensures
        b == (LineView { availability_status: b.availability_status, ..a }) ==> a.availability_status == b.availability_status,
        b == (LineView { lifecycle_status: b.lifecycle_status, ..a }) ==> a.lifecycle_status == b.lifecycle_status,
        b == (LineView { match_status: b.match_status, ..a }) ==> a.match_status == b.match_status,
{
    fields_in_order(a);
    fields_in_order(b);
    if b == (LineView { availability_status: b.availability_status, ..a }) {
        one_field_shows(a, b, 3);
    }
    if b == (LineView { lifecycle_status: b.lifecycle_status, ..a }) {
        one_field_shows(a, b, 4);
    }
    if b == (LineView { match_status: b.match_status, ..a }) {
        one_field_shows(a, b, 5);
    }
}

/// And so does one at another risk, or with another stock.
pub proof fn every_change_of_risk_shows(a: LineView, b: LineView)
    requires
        fingerprint(a) == fingerprint(b),
    ensures
        b == (LineView { risk_level: b.risk_level, ..a }) ==> a.risk_level == b.risk_level,
        b == (LineView { total_avail: b.total_avail, ..a }) ==> a.total_avail == b.total_avail,
{
    fields_in_order(a);
    fields_in_order(b);
    if b == (LineView { risk_level: b.risk_level, ..a }) {
        one_field_shows(a, b, 2);
        levels_are_told_apart(a.risk_level, b.risk_level);
    }
    if b == (LineView { total_avail: b.total_avail, ..a }) {
        one_field_shows(a, b, 7);
        crate::text::number::print_parse_i64(a.total_avail as i64);
        crate::text::number::print_parse_i64(b.total_avail as i64);
    }
}

/// And so does one of another part or maker.
pub proof fn every_change_of_part_shows(a: LineView, b: LineView)
    requires
        fingerprint(a) == fingerprint(b),
    ensures
        b == (LineView { mpn: b.mpn, ..a }) && a.mpn is Some && b.mpn is Some ==> a.mpn == b.mpn,
        b == (LineView { manufacturer: b.manufacturer, ..a }) && a.manufacturer is Some && b.manufacturer is Some ==> a.manufacturer == b.manufacturer,
{
    fields_in_order(a);
    fields_in_order(b);
    if b == (LineView { mpn: b.mpn, ..a }) {
        one_field_shows(a, b, 0);
    }
    if b == (LineView { manufacturer: b.manufacturer, ..a }) {
        one_field_shows(a, b, 1);
    }
}

/// And so does one with another lead time or duty, or another answer on whether its maker is
/// listed.
pub proof fn every_change_of_supply_shows(a: LineView, b: LineView)
    requires
        fingerprint(a) == fingerprint(b),
    ensures
        b == (LineView { factory_lead_days: b.factory_lead_days, ..a }) ==> a.factory_lead_days == b.factory_lead_days,
        b == (LineView { total_duty_pct: b.total_duty_pct, ..a }) && a.total_duty_pct is Some && b.total_duty_pct is Some
            ==> a.total_duty_pct->0.fixed == b.total_duty_pct->0.fixed,
        b == (LineView { entity_list_match: b.entity_list_match, ..a }) ==> a.entity_list_match == b.entity_list_match,
{
    fields_in_order(a);
    fields_in_order(b);
    if b == (LineView { factory_lead_days: b.factory_lead_days, ..a }) {
        one_field_shows(a, b, 6);
        if a.factory_lead_days is Some {
            crate::text::number::print_parse_i64(a.factory_lead_days->0 as i64);
            crate::text::number::printed_numbers_are_not_empty(a.factory_lead_days->0 as int);
        }
        if b.factory_lead_days is Some {
            crate::text::number::print_parse_i64(b.factory_lead_days->0 as i64);
            crate::text::number::printed_numbers_are_not_empty(b.factory_lead_days->0 as int);
        }
    }
    if b == (LineView { total_duty_pct: b.total_duty_pct, ..a }) {
        one_field_shows(a, b, 8);
    }
    if b == (LineView { entity_list_match: b.entity_list_match, ..a }) {
        one_field_shows(a, b, 9);
        reveal_strlit("true");
        reveal_strlit("false");
        assert("true"@.len() == 4);
        assert("false"@.len() == 5);
    }
}

proof fn fields_in_order(line: LineView)
    ensures
        fingerprint_fields(line).len() == 10,
        fingerprint_fields(line)[0] == text_or_none(line.mpn),
        fingerprint_fields(line)[1] == text_or_none(line.manufacturer),
        fingerprint_fields(line)[2] == shown_level(line.risk_level),
        fingerprint_fields(line)[3] == line.availability_status,
        fingerprint_fields(line)[4] == line.lifecycle_status,
        fingerprint_fields(line)[5] == line.match_status,
        fingerprint_fields(line)[6] == match line.factory_lead_days {
            Some(days) => dec_int(days as int),
            None => Seq::empty(),
        },
        fingerprint_fields(line)[7] == dec_int(line.total_avail as int),
        fingerprint_fields(line)[8] == match line.total_duty_pct {
            Some(pct) => pct.fixed,
            None => Seq::empty(),
        },
        fingerprint_fields(line)[9] == match line.entity_list_match {
            Some(matched) => bool_text(matched),
            None => Seq::empty(),
        },
{
    reveal(fingerprint_fields);
}

proof fn one_field_shows(a: LineView, b: LineView, k: int)
    requires
        fingerprint(a) == fingerprint(b),
        0 <= k < 10,
        fingerprint_fields(a).len() == 10,
        fingerprint_fields(b).len() == 10,
        forall|j: int| 0 <= j < 10 && j != k ==> fingerprint_fields(a)[j] == fingerprint_fields(b)[j],
    ensures
        fingerprint_fields(a)[k] == fingerprint_fields(b)[k],
{
    fingerprint_is_joined(a);
    fingerprint_is_joined(b);
    one_part_shows(fingerprint_fields(a), fingerprint_fields(b), k);
}

proof fn levels_are_told_apart(a: RiskLevel, b: RiskLevel)
    requires
        shown_level(a) == shown_level(b),
    ensures
        a == b,
{
    reveal_strlit("Red");
    reveal_strlit("Yellow");
    reveal_strlit("Green");
    reveal_strlit("Unknown");
    assert("Red"@.len() == 3);
    assert("Yellow"@.len() == 6);
    assert("Green"@.len() == 5);
    assert("Unknown"@.len() == 7);
}

/// What a line is for, how many there are of it and where it stands does not make its
/// brief out of date.
pub proof fn other_changes_do_not_show(a: LineView, b: LineView)
    requires
        b == (LineView {
            quantity: b.quantity,
            refdes: b.refdes,
            description: b.description,
            agent_brief: b.agent_brief,
            row_index: b.row_index,
            top_sellers: b.top_sellers,
            aml_candidates: b.aml_candidates,
            tariff_notes: b.tariff_notes,
            ..a
        }),
    ensures
        fingerprint(a) == fingerprint(b),
{
}

/// A brief is up to date while it says something and the line is as it was; a red or
/// yellow line without such a brief is due, and no other line is.
pub proof fn briefs_are_due(line: LineView, briefs: BriefMap, key: Seq<char>)
    requires
        key == dec_nat(line.row_index as nat),
    ensures
        line.risk_level != RiskLevel::Red && line.risk_level != RiskLevel::Yellow ==> !is_due(line, briefs),
        (line.risk_level == RiskLevel::Red || line.risk_level == RiskLevel::Yellow) ==> {
            &&& !briefs.dom().contains(key) ==> is_due(line, briefs)
            &&& briefs.dom().contains(key) && briefs[key].text.len() == 0 ==> is_due(line, briefs)
            &&& briefs.dom().contains(key) && briefs[key].fingerprint != fingerprint(line) ==> is_due(line, briefs)
            &&& briefs.dom().contains(key) && briefs[key].fingerprint == fingerprint(line) && briefs[key].text.len() > 0
                ==> !is_due(line, briefs)
        },
{
}

/// A line shows the brief that is kept for its row, and without one what it had; nothing
/// else of it changes.
pub proof fn briefs_are_shown_on_their_line(line: LineView, briefs: BriefMap)
    ensures
        ({
            let key = dec_nat(line.row_index as nat);
            let shown = attached(line, briefs);
            &&& briefs.dom().contains(key) && briefs[key].text.len() > 0 ==> shown.agent_brief == Some(briefs[key].text)
            &&& !briefs.dom().contains(key) ==> shown == line
            &&& shown == (LineView { agent_brief: shown.agent_brief, ..line })
            &&& unbriefed(line).agent_brief is None
            &&& line == (LineView { agent_brief: line.agent_brief, ..unbriefed(line) })
        }),
{
}

/// A copy without briefs has all the lines, as they are but for their briefs.
pub proof fn only_briefs_are_left_out(analyze: &AnalyzeResult, r: AnalyzeResult, i: int)
    requires
        call_ensures(analyze_without_briefs, (analyze,), r),
    ensures
        r@.lines.len() == analyze@.lines.len(),
        r@.summary == analyze@.summary,
        r@.upload_id == analyze@.upload_id,
        r@.warnings == analyze@.warnings,
        0 <= i < r@.lines.len() ==> r@.lines[i].agent_brief is None && r@.lines[i] == (LineView {
            agent_brief: None,
            ..analyze@.lines[i]
        }),
        0 <= i < r@.top_risks.len() ==> r@.top_risks[i].agent_brief is None,
{
}

} // verus!
