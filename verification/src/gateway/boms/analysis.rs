//! Writing briefs for flagged lines.

use vstd::prelude::*;
use vstd::string::*;

use super::briefs::{
    analyze_without_briefs, due_lines, fingerprint, is_current, kept_briefs, key_of, line_fingerprint, line_key,
    reconcile_line_briefs, scored_fields_changed, scores_differ, unbriefed, without_briefs, BriefMap, LineBrief,
    LineBriefView, LineBriefs,
};
use super::daily_refresh::{apply_summary_from_analyze, shows};
use super::store::{store_error_text, StoreError};
use super::types::{BomRecord, BomRecordView, BomSummary};
use crate::gateway::agent_brief::positions;
use crate::gateway::analyze::{is_risky, line_views, AnalyzeResult, AnalyzedLine, LineView, RiskLevel};
use crate::gateway::billing::service::lookup;
use crate::gateway::error::{gateway_error_text, GatewayError};
use crate::strmap::StrMap;
use crate::text::number::dec_nat;
use crate::text::{is_blank, owned, trim};

verus! {

/// What the model is told it is.
pub const LINE_BRIEF_SYSTEM: &'static str =
    "You are a procurement analyst. Write a brief from the supplied flagged BOM line only. Do not invent parts, prices, or facts that are not in the JSON.";

/// Why briefs could not be written.
#[derive(Debug)]
pub enum AnalyzeFlaggedError {
    Store(StoreError),
    Bedrock(GatewayError),
    Serialize(String),
}

/// The message of a failure to write briefs.
pub open spec fn flagged_error_text(error: AnalyzeFlaggedError) -> Seq<char> {
    match error {
        AnalyzeFlaggedError::Store(e) => "storage: "@ + store_error_text(e@),
        AnalyzeFlaggedError::Bedrock(e) => gateway_error_text(e@),
        AnalyzeFlaggedError::Serialize(m) => "serialize: "@ + m@,
    }
}

impl AnalyzeFlaggedError {
    /// The message.
    pub fn message(&self) -> (r: String)
        ensures
            r@ == flagged_error_text(*self),
    {
        match self {
            AnalyzeFlaggedError::Store(e) => {
                let mut s = owned("storage: ");
                s.append(e.message().as_str());
                s
            },
            AnalyzeFlaggedError::Bedrock(e) => e.message(),
            AnalyzeFlaggedError::Serialize(m) => {
                let mut s = owned("serialize: ");
                s.append(m.as_str());
                s
            },
        }
    }
}

/// The line that the model is shown: without the brief it has.
pub fn line_for_prompt(line: &AnalyzedLine) -> (r: AnalyzedLine)
    ensures
        r@ == unbriefed(line@),
{
    let mut copy = line.clone();
    copy.agent_brief = None;
    copy
}

/// Whether a bom that was refreshed is to be stored: only where something that
/// briefs depend on is different.
pub fn overlay_changed(before: &Vec<AnalyzedLine>, after: &Vec<AnalyzedLine>) -> (r: bool)
    ensures
        r == scores_differ(line_views(before@), line_views(after@)),
{
    scored_fields_changed(before, after)
}

/// The briefs after the model was asked about a line. A text that says something
/// is kept; where the model failed, what there was before is; an empty text
/// leaves nothing.
pub open spec fn after_reply(
    next: BriefMap,
    line: LineView,
    reply: Option<Seq<char>>,
    existing: BriefMap,
    now: Seq<char>,
) -> BriefMap {
    match reply {
        None => match lookup(existing, key_of(line)) {
            Some(previous) => next.insert(key_of(line), previous),
            None => next,
        },
        Some(text) => if is_blank(text) {
            next
        } else {
            next.insert(
                key_of(line),
                LineBriefView { fingerprint: fingerprint(line), text, updated_at: now },
            )
        },
    }
}

/// Takes in what the model said of a line, or that it failed.
pub fn note_reply(
    next: &mut LineBriefs,
    line: &AnalyzedLine,
    reply: Option<String>,
    existing: &LineBriefs,
    now: &str,
)
    requires
        old(next).wf(),
        existing.wf(),
    ensures
        final(next).wf(),
        final(next)@ == after_reply(old(next)@, line@, reply.deep_view(), existing@, now@),
{
    let key = line_key(line.row_index);
    match reply {
        None => {
            if let Some(previous) = existing.get(key.as_str()) {
                next.insert(key.as_str(), previous.clone());
            }
        },
        Some(text) => {
            if !trim(text.as_str()).as_str().is_empty() {
                next.insert(
                    key.as_str(),
                    LineBrief {
                        fingerprint: line_fingerprint(line),
                        text,
                        updated_at: owned(now),
                    },
                );
            }
        },
    }
}

/// A failed model never takes a brief away.
pub proof fn failure_keeps_briefs(
    next: BriefMap,
    line: LineView,
    existing: BriefMap,
    now: Seq<char>,
    key: Seq<char>,
)
    requires
        next.dom().contains(key),
    ensures
        after_reply(next, line, None, existing, now).dom().contains(key),
        key != key_of(line) ==> after_reply(next, line, None, existing, now)[key] == next[key],
{
}

/// The boms whose briefs are being written, and the lines that wait for the next
/// round of one that is.
pub struct LineBriefJobs {
    pub running: StrMap<()>,
    pub pending: StrMap<Vec<AnalyzedLine>>,
}

/// The key of a bom's job.
pub open spec fn job_key(account_id: Seq<char>, bom_id: Seq<char>) -> Seq<char> {
    account_id + "/"@ + bom_id
}

impl LineBriefJobs {
    /// Keys occur once, and lines wait only for jobs that run.
    pub open spec fn wf(self) -> bool {
        &&& self.running.wf()
        &&& self.pending.wf()
        &&& self.pending@.dom().subset_of(self.running@.dom())
    }

    /// No jobs.
    pub fn new() -> (r: Self)
        ensures
            r.wf(),
            r.running@ == Map::<Seq<char>, ()>::empty(),
            r.pending@ == Map::<Seq<char>, Vec<AnalyzedLine>>::empty(),
    {
        LineBriefJobs { running: StrMap::new(), pending: StrMap::new() }
    }

    /// Begins a job with the lines, unless the bom's job runs already: then the
    /// lines wait, in place of any that waited before.
    pub fn try_begin_line_brief_job(
        &mut self,
        account_id: &str,
        bom_id: &str,
        lines: Vec<AnalyzedLine>,
    ) -> (r: Option<(String, Vec<AnalyzedLine>)>)
        requires
            old(self).wf(),
        ensures
            final(self).wf(),
            ({
                let key = job_key(account_id@, bom_id@);
                if old(self).running@.dom().contains(key) {
                    &&& r is None
                    &&& final(self).running@ == old(self).running@
                    &&& final(self).pending@ == old(self).pending@.insert(key, lines)
                } else {
                    &&& r is Some
                    &&& (r->0).0@ == key
                    &&& (r->0).1 == lines
                    &&& final(self).running@ == old(self).running@.insert(key, ())
                    &&& final(self).pending@ == old(self).pending@
                }
            }),
    {
        let mut key = owned(account_id);
        key.append("/");
        key.append(bom_id);
        if self.running.contains_key(key.as_str()) {
            self.pending.insert(key.as_str(), lines);
            return None;
        }
        self.running.insert(key.as_str(), ());
        Some((key, lines))
    }

    /// Ends a round of a job: the lines that waited, for another round; or none,
    /// and the job is over.
    pub fn finish_line_brief_job(&mut self, key: &str) -> (r: Option<Vec<AnalyzedLine>>)
        requires
            old(self).wf(),
        ensures
            final(self).wf(),
            if old(self).pending@.dom().contains(key@) {
                &&& r == Some(old(self).pending@[key@])
                &&& final(self).pending@ == old(self).pending@.remove(key@)
                &&& final(self).running@ == old(self).running@
            } else {
                &&& r is None
                &&& final(self).pending@ == old(self).pending@
                &&& final(self).running@ == old(self).running@.remove(key@)
            },
    {
        if let Some(lines) = self.pending.remove(key) {
            return Some(lines);
        }
        proof {
            assert(self.pending@ =~= old(self).pending@);
        }
        let _ = self.running.remove(key);
        None
    }
}

/// What is to be written of a bom that was refreshed, and the version that must
/// still be stored.
#[derive(Debug)]
pub struct OverlayWrite {
    pub expected_version: u64,
    pub analyze: AnalyzeResult,
    pub summary: BomSummary,
}

/// Brings the summary of a bom that was refreshed up to date. What is to be
/// written: nothing unless something that briefs depend on is different from the
/// lines before, and never a brief.
pub fn persist_overlay_if_changed(before: &Vec<AnalyzedLine>, record: &mut BomRecord) -> (r: Option<
    OverlayWrite,
>)
    requires
        old(record).analyze.summary.red_count + old(record).analyze.summary.yellow_count
            <= usize::MAX,
    ensures
        final(record)@ == (BomRecordView {
            summary: shows(old(record)@.summary, old(record)@.analyze.summary),
            ..old(record)@
        }),
        r is Some <==> scores_differ(line_views(before@), old(record)@.analyze.lines),
        r is Some ==> r->0.expected_version == old(record)@.summary.version
            && r->0.analyze@ == without_briefs(old(record)@.analyze)
            && r->0.summary@ == final(record)@.summary,
{
    apply_summary_from_analyze(record);
    if !overlay_changed(before, &record.analyze.lines) {
        return None;
    }
    Some(
        OverlayWrite {
            expected_version: record.summary.version,
            analyze: analyze_without_briefs(&record.analyze),
            summary: record.summary.clone(),
        },
    )
}

/// The briefs after the model was asked about lines, one after the other.
pub open spec fn after_replies(
    next: BriefMap,
    asked: Seq<LineView>,
    replies: Seq<Option<Seq<char>>>,
    existing: BriefMap,
    now: Seq<char>,
) -> BriefMap
    decreases replies.len(),
{
    if replies.len() == 0 || asked.len() != replies.len() {
        next
    } else {
        after_reply(
            after_replies(next, asked.drop_last(), replies.drop_last(), existing, now),
            asked.last(),
            replies.last(),
            existing,
            now,
        )
    }
}

/// The lines that the model is asked about: the flagged ones whose briefs are
/// missing or out of date.
pub open spec fn asked_lines(lines: Seq<LineView>, existing: BriefMap) -> Seq<LineView> {
    due_lines(lines, existing).map_values(|i: int| lines[i])
}

/// The briefs of a bom after a round: those of flagged lines that are up to date,
/// and what the model said of the others.
pub open spec fn next_briefs(
    lines: Seq<LineView>,
    existing: BriefMap,
    replies: Seq<Option<Seq<char>>>,
    now: Seq<char>,
) -> BriefMap {
    after_replies(
        kept_briefs(lines, existing),
        asked_lines(lines, existing),
        replies,
        existing,
        now,
    )
}

/// The lines that the model is asked about, as it is shown them.
pub fn lines_to_ask(lines: &Vec<AnalyzedLine>, existing: &LineBriefs) -> (r: Vec<AnalyzedLine>)
    requires
        existing.wf(),
    ensures
        line_views(r@) == asked_lines(line_views(lines@), existing@).map_values(
            |l: LineView| unbriefed(l),
        ),
{
    let (_, due) = reconcile_line_briefs(lines, existing);
    let ghost views = line_views(lines@);
    let ghost at = due_lines(views, existing@);
    let mut out: Vec<AnalyzedLine> = Vec::new();
    let mut i: usize = 0;
    while i < due.len()
        invariant
            i <= due@.len(),
            views == line_views(lines@),
            positions(due@) == at,
            forall|k: int| 0 <= k < due@.len() ==> #[trigger] due@[k] < lines@.len(),
            out@.len() == i,
            forall|k: int| 0 <= k < i ==> (#[trigger] out@[k])@ == unbriefed(views[at[k]]),
        decreases due@.len() - i,
    {
        assert(positions(due@)[i as int] == due@[i as int] as int);
        out.push(line_for_prompt(&lines[due[i]]));
        i += 1;
    }
    assert(positions(due@).len() == due@.len());
    assert(line_views(out@) =~= asked_lines(views, existing@).map_values(|l: LineView| unbriefed(l)));
    out
}

/// The briefs of a bom after a round, and whether they are different from those
/// before. A reply is needed for each line that was asked about, in order; none
/// where the model failed.
pub fn apply_line_briefs(
    lines: &Vec<AnalyzedLine>,
    existing: &LineBriefs,
    replies: Vec<Option<String>>,
    now: &str,
) -> (r: (LineBriefs, bool))
    requires
        existing.wf(),
        replies@.len() == asked_lines(line_views(lines@), existing@).len(),
    ensures
        r.0.wf(),
        r.0@ == next_briefs(line_views(lines@), existing@, replies.deep_view(), now@),
        r.1 == (r.0@ != existing@),
{
    let (kept, due) = reconcile_line_briefs(lines, existing);
    let ghost views = line_views(lines@);
    let ghost at = due_lines(views, existing@);
    let ghost asked = asked_lines(views, existing@);
    let ghost said = replies.deep_view();
    let ghost start = kept@;
    let mut next = kept;
    let mut rest = replies;
    let ghost all = rest@;
    let mut i: usize = 0;
    proof {
        assert(positions(due@).len() == due@.len());
        assert(all.skip(0) =~= all);
        assert(said.len() == all.len());
    }
    while rest.len() > 0
        invariant
            i <= due@.len() == all.len(),
            rest@ == all.skip(i as int),
            existing.wf(),
            next.wf(),
            views == line_views(lines@),
            positions(due@) == at,
            at == due_lines(views, existing@),
            asked == asked_lines(views, existing@),
            said.len() == all.len(),
            asked.len() == all.len(),
            forall|k: int| 0 <= k < all.len() ==> #[trigger] said[k] == all[k].deep_view(),
            forall|k: int| 0 <= k < due@.len() ==> #[trigger] due@[k] < lines@.len(),
            next@ == after_replies(
                start,
                asked.take(i as int),
                said.take(i as int),
                existing@,
                now@,
            ),
        decreases rest@.len(),
    {
        let reply = rest.remove(0);
        proof {
            assert(all.skip(i as int)[0] == all[i as int]);
            assert(all.skip(i as int).remove(0) =~= all.skip(i + 1));
            assert(positions(due@)[i as int] == due@[i as int] as int);
            assert(asked[i as int] == views[due@[i as int] as int]);
            assert(asked.take(i + 1).drop_last() =~= asked.take(i as int));
            assert(said.take(i + 1).drop_last() =~= said.take(i as int));
            assert(asked.take(i + 1).last() == asked[i as int]);
            assert(said.take(i + 1).last() == said[i as int]);
        }
        assert(i < due.len());
        note_reply(&mut next, &lines[due[i]], reply, existing, now);
        i += 1;
    }
    proof {
        assert(asked.take(i as int) =~= asked);
        assert(said.take(i as int) =~= said);
    }
    let changed = !next.same_as(existing);
    (next, changed)
}

proof fn asked_keep_kept(
    next: BriefMap,
    asked: Seq<LineView>,
    replies: Seq<Option<Seq<char>>>,
    existing: BriefMap,
    now: Seq<char>,
    key: Seq<char>,
)
    requires
        next.dom().contains(key),
    ensures
        after_replies(next, asked, replies, existing, now).dom().contains(key),
    decreases replies.len(),
{
    if replies.len() > 0 && asked.len() == replies.len() {
        asked_keep_kept(next, asked.drop_last(), replies.drop_last(), existing, now, key);
    }
}

/// A round never takes away the brief of a flagged line that was up to date.
pub proof fn current_briefs_stay(
    lines: Seq<LineView>,
    existing: BriefMap,
    replies: Seq<Option<Seq<char>>>,
    now: Seq<char>,
    i: int,
)
    requires
        0 <= i < lines.len(),
        is_risky(lines[i]),
        is_current(lines[i], existing),
    ensures
        next_briefs(lines, existing, replies, now).dom().contains(key_of(lines[i])),
{
    kept_holds(lines, existing, i);
    asked_keep_kept(
        kept_briefs(lines, existing),
        asked_lines(lines, existing),
        replies,
        existing,
        now,
        key_of(lines[i]),
    );
}

proof fn kept_holds(lines: Seq<LineView>, existing: BriefMap, i: int)
    requires
        0 <= i < lines.len(),
        is_risky(lines[i]),
        is_current(lines[i], existing),
    ensures
        kept_briefs(lines, existing).dom().contains(key_of(lines[i])),
    decreases lines.len(),
{
    if i < lines.len() - 1 {
        kept_holds(lines.drop_last(), existing, i);
    }
}

/// What the model says of a line becomes its brief, for the line as it is and dated now;
/// where it says nothing there is no new brief, and where it fails the old one is kept.
pub proof fn replies_become_briefs(
    next: BriefMap,
    line: LineView,
    text: Seq<char>,
    existing: BriefMap,
    now: Seq<char>,
    other: Seq<char>,
)
    ensures
        ({
            let key = dec_nat(line.row_index as nat);
            let said = after_reply(next, line, Some(text), existing, now);
            let failed = after_reply(next, line, None, existing, now);
            &&& !is_blank(text) ==> said.dom().contains(key) && said[key].text == text && said[key].fingerprint
                == fingerprint(line) && said[key].updated_at == now
            &&& is_blank(text) ==> said == next
            &&& existing.dom().contains(key) ==> failed.dom().contains(key) && failed[key] == existing[key]
            &&& !existing.dom().contains(key) ==> failed == next
            &&& other != key && next.dom().contains(other) ==> said.dom().contains(other) && said[other] == next[other]
                && failed.dom().contains(other) && failed[other] == next[other]
        }),
{
}

proof fn due_lines_hold(lines: Seq<LineView>, existing: BriefMap, i: int)
    ensures
        due_lines(lines, existing).contains(i) <==> 0 <= i < lines.len() && super::briefs::is_due(lines[i], existing),
        forall|a: int, b: int|
            0 <= a < b < due_lines(lines, existing).len() ==> due_lines(lines, existing)[a] < due_lines(
                lines,
                existing,
            )[b],
        forall|a: int|
            0 <= a < due_lines(lines, existing).len() ==> 0 <= #[trigger] due_lines(lines, existing)[a] < lines.len(),
    decreases lines.len(),
{
    if lines.len() > 0 {
        let d = lines.drop_last();
        due_lines_hold(d, existing, i);
        let w = due_lines(d, existing);
        let n = lines.len() - 1;
        let p = w.push(n);
        assert(p[w.len() as int] == n);
        if w.contains(i) {
            let k = choose|k: int| 0 <= k < w.len() && w[k] == i;
            assert(p[k] == i);
        }
        if p.contains(i) && i != n {
            let k = choose|k: int| 0 <= k < p.len() && p[k] == i;
            assert(w[k] == i);
        }
    }
}

proof fn other_keys_stay(
    next: BriefMap,
    asked: Seq<LineView>,
    replies: Seq<Option<Seq<char>>>,
    existing: BriefMap,
    now: Seq<char>,
    key: Seq<char>,
)
    requires
        forall|j: int| 0 <= j < asked.len() ==> key_of(#[trigger] asked[j]) != key,
    ensures
        lookup(after_replies(next, asked, replies, existing, now), key) == lookup(next, key),
    decreases replies.len(),
{
    if replies.len() > 0 && asked.len() == replies.len() {
        let a = asked.drop_last();
        assert forall|j: int| 0 <= j < a.len() implies key_of(#[trigger] a[j]) != key by {
            assert(a[j] == asked[j]);
        }
        other_keys_stay(next, a, replies.drop_last(), existing, now, key);
        assert(asked.last() == asked[asked.len() - 1]);
    }
}

proof fn reply_lands(
    next: BriefMap,
    asked: Seq<LineView>,
    replies: Seq<Option<Seq<char>>>,
    existing: BriefMap,
    now: Seq<char>,
    j: int,
)
    requires
        asked.len() == replies.len(),
        0 <= j < asked.len(),
        replies[j] is Some,
        !is_blank(replies[j]->0),
        forall|a: int, b: int| 0 <= a < b < asked.len() ==> key_of(asked[a]) != key_of(asked[b]),
    ensures
        ({
            let after = after_replies(next, asked, replies, existing, now);
            let key = key_of(asked[j]);
            after.dom().contains(key) && after[key] == (LineBriefView {
                fingerprint: fingerprint(asked[j]),
                text: replies[j]->0,
                updated_at: now,
            })
        }),
    decreases replies.len(),
{
    if j < asked.len() - 1 {
        let a = asked.drop_last();
        let q = replies.drop_last();
        assert(a[j] == asked[j] && q[j] == replies[j]);
        assert forall|x: int, y: int| 0 <= x < y < a.len() implies key_of(a[x]) != key_of(a[y]) by {
            assert(a[x] == asked[x] && a[y] == asked[y]);
        }
        reply_lands(next, a, q, existing, now, j);
        assert(key_of(asked[j]) != key_of(asked[asked.len() - 1]));
    }
}

/// After a round in which the model said something of each line that it was asked about,
/// no line of the bom is due: every red and yellow line has a brief for the line as it is.
pub proof fn rounds_leave_nothing_due(
    lines: Seq<LineView>,
    existing: BriefMap,
    replies: Seq<Option<Seq<char>>>,
    now: Seq<char>,
    i: int,
)
    requires
        0 <= i < lines.len(),
        forall|a: int, b: int| 0 <= a < b < lines.len() ==> lines[a].row_index != lines[b].row_index,
        replies.len() == asked_lines(lines, existing).len(),
        forall|j: int| 0 <= j < replies.len() ==> (#[trigger] replies[j]) is Some && !is_blank(replies[j]->0),
        forall|j: int| 0 <= j < replies.len() ==> (#[trigger] replies[j])->0.len() > 0,
    ensures
        !super::briefs::is_due(lines[i], next_briefs(lines, existing, replies, now)),
{
    let due = due_lines(lines, existing);
    let asked = asked_lines(lines, existing);
    let kept = kept_briefs(lines, existing);
    due_lines_hold(lines, existing, i);
    assert forall|a: int, b: int| 0 <= a < b < asked.len() implies key_of(asked[a]) != key_of(asked[b]) by {
        assert(due[a] < due[b]);
        assert(asked[a] == lines[due[a]] && asked[b] == lines[due[b]]);
        if key_of(asked[a]) == key_of(asked[b]) {
            super::briefs::keys_differ(asked[a], asked[b]);
        }
    }
    if is_risky(lines[i]) {
        if is_current(lines[i], existing) {
            kept_holds(lines, existing, i);
            super::briefs::kept_briefs_are_current(lines, existing, key_of(lines[i]));
            assert forall|j: int| 0 <= j < asked.len() implies key_of(#[trigger] asked[j]) != key_of(lines[i]) by {
                assert(asked[j] == lines[due[j]]);
                if key_of(asked[j]) == key_of(lines[i]) {
                    super::briefs::keys_differ(asked[j], lines[i]);
                    assert(due[j] == i) by {
                        if due[j] < i {
                            assert(lines[due[j]].row_index != lines[i].row_index);
                        } else if due[j] > i {
                            assert(lines[i].row_index != lines[due[j]].row_index);
                        }
                    }
                    assert(due.contains(due[j]));
                }
            }
            other_keys_stay(kept, asked, replies, existing, now, key_of(lines[i]));
        } else {
            assert(due.contains(i));
            let j = choose|j: int| 0 <= j < due.len() && due[j] == i;
            assert(asked[j] == lines[i]);
            reply_lands(kept, asked, replies, existing, now, j);
        }
    }
}

/// The model is asked about every red or yellow line without a brief that is up to date,
/// and about no other, and is not shown the brief that a line has.
pub proof fn due_lines_are_asked_about(lines: &Vec<AnalyzedLine>, existing: &LineBriefs, r: Vec<AnalyzedLine>, i: int)
    requires
        existing.wf(),
        call_ensures(lines_to_ask, (lines, existing), r),
    ensures
        0 <= i < lines@.len() && super::briefs::is_due(lines@[i]@, existing@) ==> exists|k: int|
            0 <= k < r@.len() && (#[trigger] r@[k])@ == (LineView { agent_brief: None, ..lines@[i]@ }),
        0 <= i < r@.len() ==> r@[i]@.agent_brief is None && (r@[i]@.risk_level == RiskLevel::Red || r@[i]@.risk_level
            == RiskLevel::Yellow),
{
    let views = line_views(lines@);
    let due = due_lines(views, existing@);
    let asked = asked_lines(views, existing@);
    let shown = line_views(r@);
    assert(shown.len() == asked.len());
    if 0 <= i < lines@.len() && super::briefs::is_due(lines@[i]@, existing@) {
        due_lines_hold(views, existing@, i);
        let k = choose|k: int| 0 <= k < due.len() && due[k] == i;
        assert(asked[k] == views[i]);
        assert(shown[k] == r@[k]@);
        assert(r@[k]@ == unbriefed(views[i]));
    }
    if 0 <= i < r@.len() {
        assert(shown[i] == r@[i]@);
        due_lines_hold(views, existing@, due[i]);
        assert(due.contains(due[i]));
        assert(asked[i] == views[due[i]]);
    }
}

/// The line that the model is shown is the line but for its brief.
pub proof fn prompts_leave_out_the_brief(line: &AnalyzedLine, r: AnalyzedLine)
    requires
        call_ensures(line_for_prompt, (line,), r),
    ensures
        r@ == (LineView { agent_brief: None, ..line@ }),
{
}

/// A bom that was refreshed counts as changed where a line came or went, and where a
/// line's risk, availability, life or stock is another; the same lines are no change.
pub proof fn changes_of_risk_are_noticed(before: &Vec<AnalyzedLine>, after: &Vec<AnalyzedLine>, r: bool, i: int)
    requires
        call_ensures(overlay_changed, (before, after), r),
    ensures
        before@.len() != after@.len() ==> r,
        line_views(before@) == line_views(after@) ==> !r,
        0 <= i < before@.len() && before@.len() == after@.len() && after@[i]@ == (LineView {
            risk_level: after@[i]@.risk_level,
            ..before@[i]@
        }) && after@[i]@.risk_level != before@[i]@.risk_level ==> r,
        0 <= i < before@.len() && before@.len() == after@.len() && after@[i]@ == (LineView {
            availability_status: after@[i]@.availability_status,
            ..before@[i]@
        }) && after@[i]@.availability_status != before@[i]@.availability_status ==> r,
        0 <= i < before@.len() && before@.len() == after@.len() && after@[i]@ == (LineView {
            lifecycle_status: after@[i]@.lifecycle_status,
            ..before@[i]@
        }) && after@[i]@.lifecycle_status != before@[i]@.lifecycle_status ==> r,
        0 <= i < before@.len() && before@.len() == after@.len() && after@[i]@ == (LineView {
            total_avail: after@[i]@.total_avail,
            ..before@[i]@
        }) && after@[i]@.total_avail != before@[i]@.total_avail ==> r,
{
    let a = line_views(before@);
    let b = line_views(after@);
    if 0 <= i < before@.len() && before@.len() == after@.len() {
        assert(a[i] == before@[i]@ && b[i] == after@[i]@);
        if fingerprint(a[i]) == fingerprint(b[i]) {
            super::briefs::every_change_of_risk_shows(a[i], b[i]);
            super::briefs::every_change_of_status_shows(a[i], b[i]);
        }
    }
}

/// Why briefs could not be written is told by where it went wrong.
pub proof fn failures_to_brief_are_told(error: &AnalyzeFlaggedError, r: String)
    requires
        call_ensures(AnalyzeFlaggedError::message, (error,), r),
    ensures
        error is Serialize ==> r@ == "serialize: "@ + error->Serialize_0@,
        error is Store && error->Store_0 is NotFound ==> r@ == "storage: "@ + "bom not found"@,
        error is Store && error->Store_0 is Conflict ==> r@ == "storage: "@ + "version conflict"@,
        error is Store && error->Store_0 is LineNotFound ==> r@ == "storage: "@ + "line not found"@,
        error is Bedrock && error->Bedrock_0 is BedrockError ==> r@ == "bedrock error: "@
            + error->Bedrock_0->BedrockError_0@,
{
}

/// A bom's job runs once at a time: a second one waits with the latest lines, and is not
/// begun.
pub proof fn jobs_run_once_at_a_time(
    jobs: &mut LineBriefJobs,
    account_id: &str,
    bom_id: &str,
    lines: Vec<AnalyzedLine>,
    r: Option<(String, Vec<AnalyzedLine>)>,
    other: Seq<char>,
)
    requires
        old(jobs).wf(),
        call_ensures(LineBriefJobs::try_begin_line_brief_job, (jobs, account_id, bom_id, lines), r),
    ensures
        ({
            let key = account_id@ + "/"@ + bom_id@;
            &&& final(jobs).running@.dom().contains(key)
            &&& r is Some <==> !old(jobs).running@.dom().contains(key)
            &&& r is None ==> final(jobs).pending@.dom().contains(key) && final(jobs).pending@[key] == lines
            &&& r is Some ==> !final(jobs).pending@.dom().contains(key) || old(jobs).pending@.dom().contains(key)
            &&& r matches Some((k, begun)) ==> k@ == key && begun == lines
            &&& other != key ==> (final(jobs).running@.dom().contains(other) <==> old(
                jobs
            ).running@.dom().contains(other))
        }),
{
}

/// A round that ends goes on with the lines that waited, and ends the job where none did.
pub proof fn rounds_go_on_with_waiting_lines(
    jobs: &mut LineBriefJobs,
    key: &str,
    r: Option<Vec<AnalyzedLine>>,
)
    requires
        old(jobs).wf(),
        call_ensures(LineBriefJobs::finish_line_brief_job, (jobs, key), r),
    ensures
        old(jobs).pending@.dom().contains(key@) ==> r == Some(old(jobs).pending@[key@])
            && final(jobs).running@ == old(jobs).running@ && !final(jobs).pending@.dom().contains(key@),
        !old(jobs).pending@.dom().contains(key@) ==> r is None && !final(jobs).running@.dom().contains(key@),
{
}

/// A bom that was refreshed is written without briefs, for the version that is stored, and
/// only where a line came, went or is at another risk.
pub proof fn changed_overlays_are_written(
    before: &Vec<AnalyzedLine>,
    record: &mut BomRecord,
    r: Option<OverlayWrite>,
    i: int,
)
    requires
        old(record).analyze.summary.red_count + old(record).analyze.summary.yellow_count <= usize::MAX,
        call_ensures(persist_overlay_if_changed, (before, record), r),
    ensures
        before@.len() != old(record)@.analyze.lines.len() ==> r is Some,
        line_views(before@) == old(record)@.analyze.lines ==> r is None,
        r is Some ==> r->0.expected_version == old(record)@.summary.version,
        r is Some && 0 <= i < r->0.analyze@.lines.len() ==> r->0.analyze@.lines[i] == (LineView {
            agent_brief: None,
            ..old(record)@.analyze.lines[i]
        }),
        r is Some ==> r->0.summary@.line_count == old(record)@.analyze.summary.total,
        r is Some ==> r->0.summary@.id == old(record)@.summary.id && r->0.summary@.version
            == old(record)@.summary.version,
        final(record)@.analyze == old(record)@.analyze,
{
}

} // verus!
