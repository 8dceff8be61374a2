//! Short briefs on risky lines.

use vstd::prelude::*;
use vstd::string::*;

use super::analyze::{
    finalize_analyze, is_finalized, is_risky, line_views, summary_adds_up, AnalyzeView, AnalyzedLine, LineView,
    RiskLevel,
};
use super::boms::daily_refresh::{apply_summary_from_analyze, shows};
use super::boms::types::BomRecord;
use crate::text::case::{ascii_lower, eq_ascii_case, eq_ignore_ascii_case};
use crate::text::number::{dec_int, i64_text};
use crate::text::search::{contains, has_part, parts_are_found, starts_with, strip_prefix};
use crate::text::{is_blank, owned, trim, trimmed};

verus! {

/// What briefs made without a model begin with.
pub const HEURISTIC_PREFIX: &'static str = "Analyst (auto):";

/// A brief in the form that had no marker of its own yet.
pub open spec fn is_legacy_brief(text: Seq<char>) -> bool {
    let rest = text.skip("Analyst: "@.len() as int);
    &&& "Analyst: "@.is_prefix_of(text)
    &&& ("Critical on "@.is_prefix_of(rest) || "Watch on "@.is_prefix_of(rest)
        || "Clear on "@.is_prefix_of(rest) || "Unknown on "@.is_prefix_of(rest))
    &&& has_part(rest, " — lifecycle "@)
    &&& has_part(rest, ", availability "@)
    &&& has_part(rest, ", stock "@)
}

/// A brief that a better one may replace: none at all, or one made without a model.
pub open spec fn is_upgradeable(brief: Option<Seq<char>>) -> bool {
    match brief {
        None => true,
        Some(text) => is_blank(text) || HEURISTIC_PREFIX@.is_prefix_of(trimmed(text))
            || is_legacy_brief(trimmed(text)),
    }
}

/// Whether a brief has the form that had no marker of its own yet.
pub fn is_legacy_heuristic_brief(text: &str) -> (r: bool)
    ensures
        r == is_legacy_brief(text@),
{
    let rest = match strip_prefix(text, "Analyst: ") {
        Some(rest) => rest,
        None => {
            return false;
        },
    };
    let rest = rest.as_str();
    (starts_with(rest, "Critical on ") || starts_with(rest, "Watch on ") || starts_with(
        rest,
        "Clear on ",
    ) || starts_with(rest, "Unknown on ")) && contains(rest, " — lifecycle ") && contains(
        rest,
        ", availability ",
    ) && contains(rest, ", stock ")
}

/// Whether a better brief may replace this one.
pub fn is_upgradeable_brief(brief: Option<&str>) -> (r: bool)
    ensures
        r == is_upgradeable(brief.deep_view()),
{
    match brief {
        None => true,
        Some(text) => {
            let t = trim(text);
            t.as_str().is_empty() || starts_with(t.as_str(), HEURISTIC_PREFIX)
                || is_legacy_heuristic_brief(t.as_str())
        },
    }
}

/// The part of the line is still being looked up.
pub open spec fn is_pending(line: LineView) -> bool {
    eq_ascii_case(line.availability_status, "pending"@) || eq_ascii_case(
        line.match_status,
        "pending"@,
    )
}

/// A risky line whose part is known and whose brief may be replaced.
pub open spec fn wants_brief(line: LineView) -> bool {
    !is_pending(line) && is_risky(line) && is_upgradeable(line.agent_brief)
}

/// Whether a brief is to be written for the line.
pub fn needs_brief(line: &AnalyzedLine) -> (r: bool)
    ensures
        r == wants_brief(line@),
{
    if eq_ignore_ascii_case(line.availability_status.as_str(), "pending") || eq_ignore_ascii_case(
        line.match_status.as_str(),
        "pending",
    ) {
        return false;
    }
    if !matches!(line.risk_level, RiskLevel::Red | RiskLevel::Yellow) {
        return false;
    }
    match &line.agent_brief {
        Some(brief) => is_upgradeable_brief(Some(brief.as_str())),
        None => is_upgradeable_brief(None),
    }
}

/// A risk in words.
pub open spec fn risk_word(level: RiskLevel) -> Seq<char> {
    match level {
        RiskLevel::Red => "Critical"@,
        RiskLevel::Yellow => "Watch"@,
        RiskLevel::Green => "Clear"@,
        RiskLevel::Unknown => "Unknown"@,
    }
}

/// The brief that the fields of a line give.
pub open spec fn auto_brief(line: LineView) -> Seq<char> {
    HEURISTIC_PREFIX@ + " "@ + risk_word(line.risk_level) + " on "@ + match line.mpn {
        Some(mpn) => mpn,
        None => "unknown MPN"@,
    } + " — lifecycle "@ + line.lifecycle_status + ", availability "@ + line.availability_status
        + ", stock "@ + dec_int(line.total_avail as int) + "."@ + if line.aml_candidates.len() > 0 {
        " Prefer AML alternate "@ + line.aml_candidates[0] + "."@
    } else {
        Seq::empty()
    }
}

/// The brief that the fields of a line give.
pub fn heuristic_brief(line: &AnalyzedLine) -> (r: String)
    ensures
        r@ == auto_brief(line@),
{
    let mut out = owned(HEURISTIC_PREFIX);
    out.append(" ");
    out.append(
        match line.risk_level {
            RiskLevel::Red => "Critical",
            RiskLevel::Yellow => "Watch",
            RiskLevel::Green => "Clear",
            RiskLevel::Unknown => "Unknown",
        },
    );
    out.append(" on ");
    match &line.mpn {
        Some(mpn) => out.append(mpn.as_str()),
        None => out.append("unknown MPN"),
    }
    out.append(" — lifecycle ");
    out.append(line.lifecycle_status.as_str());
    out.append(", availability ");
    out.append(line.availability_status.as_str());
    out.append(", stock ");
    out.append(i64_text(line.total_avail).as_str());
    out.append(".");
    let mut alt = String::new();
    if line.aml_candidates.len() > 0 {
        alt.append(" Prefer AML alternate ");
        alt.append(line.aml_candidates[0].as_str());
        alt.append(".");
        assert(alt@ =~= " Prefer AML alternate "@ + line@.aml_candidates[0] + "."@);
    } else {
        assert(alt@ =~= Seq::<char>::empty());
    }
    out.append(alt.as_str());
    out
}

/// A line with its automatic brief, where it wants one.
pub open spec fn briefed(line: LineView) -> LineView {
    if wants_brief(line) {
        LineView { agent_brief: Some(auto_brief(line)), ..line }
    } else {
        line
    }
}

/// Writes the automatic brief on every line that wants one.
pub fn ensure_heuristic_briefs(lines: &mut Vec<AnalyzedLine>)
    ensures
        line_views(final(lines)@) == line_views(old(lines)@).map_values(|l: LineView| briefed(l)),
{
    let ghost before = line_views(lines@);
    let mut i: usize = 0;
    while i < lines.len()
        invariant
            i <= lines@.len(),
            lines@.len() == before.len(),
            forall|j: int| 0 <= j < i ==> (#[trigger] lines@[j])@ == briefed(before[j]),
            forall|j: int| i <= j < lines@.len() ==> (#[trigger] lines@[j])@ == before[j],
        decreases lines@.len() - i,
    {
        if needs_brief(&lines[i]) {
            let brief = heuristic_brief(&lines[i]);
            lines[i].agent_brief = Some(brief);
        }
        i += 1;
    }
    assert(line_views(lines@) =~= before.map_values(|l: LineView| briefed(l)));
}

/// An automatic brief may be replaced by a better one, and writing automatic
/// briefs again changes nothing.
pub proof fn auto_brief_is_upgradeable(line: LineView)
    ensures
        is_upgradeable(Some(auto_brief(line))),
        briefed(briefed(line)) == briefed(line),
{
    let brief = auto_brief(line);
    reveal_strlit("Analyst (auto):");
    reveal_strlit(".");
    let prefix = HEURISTIC_PREFIX@;
    assert(prefix.len() == 15);
    assert(prefix[0] == 'A');
    assert(brief.take(15) =~= prefix);
    assert(brief[0] == 'A');
    // It begins with a letter and ends with a dot, so trimming leaves it alone.
    assert("."@.len() == 1 && "."@[0] == '.');
    assert(brief.last() == '.') by {
        if line.aml_candidates.len() > 0 {
            let alt = " Prefer AML alternate "@ + line.aml_candidates[0] + "."@;
            assert(alt.last() == '.');
            assert(brief.last() == alt.last());
        } else {
            let whole = HEURISTIC_PREFIX@ + " "@ + risk_word(line.risk_level) + " on "@ + match line.mpn {
                Some(mpn) => mpn,
                None => "unknown MPN"@,
            } + " — lifecycle "@ + line.lifecycle_status + ", availability "@
                + line.availability_status + ", stock "@ + dec_int(line.total_avail as int) + "."@;
            assert(brief =~= whole);
            assert(whole.last() == "."@.last());
        }
    }
    assert(trimmed(brief) == brief);
    assert(prefix.is_prefix_of(brief));
}

/// The positions of the lines that want a brief, in order.
pub open spec fn wanting(lines: Seq<LineView>) -> Seq<int>
    decreases lines.len(),
{
    if lines.len() == 0 {
        Seq::empty()
    } else {
        let before = wanting(lines.drop_last());
        if wants_brief(lines.last()) {
            before.push(lines.len() - 1)
        } else {
            before
        }
    }
}

/// Positions as integers.
pub open spec fn positions(s: Seq<usize>) -> Seq<int> {
    s.map_values(|i: usize| i as int)
}

/// The positions of the lines that want a brief, in order.
pub fn briefs_wanted(lines: &Vec<AnalyzedLine>) -> (r: Vec<usize>)
    ensures
        positions(r@) == wanting(line_views(lines@)),
        forall|k: int| 0 <= k < r@.len() ==> #[trigger] r@[k] < lines@.len(),
{
    let ghost views = line_views(lines@);
    let mut out: Vec<usize> = Vec::new();
    let mut i: usize = 0;
    assert(positions(out@) =~= wanting(views.take(0)));
    while i < lines.len()
        invariant
            i <= lines@.len(),
            views == line_views(lines@),
            positions(out@) == wanting(views.take(i as int)),
            forall|k: int| 0 <= k < out@.len() ==> #[trigger] out@[k] < lines@.len(),
        decreases lines@.len() - i,
    {
        let ghost before = out@;
        proof {
            assert(views.take(i + 1).drop_last() =~= views.take(i as int));
            assert(views.take(i + 1).last() == lines@[i as int]@);
        }
        if needs_brief(&lines[i]) {
            out.push(i);
            assert(positions(out@) =~= positions(before).push(i as int));
        }
        i += 1;
    }
    assert(views.take(i as int) =~= views);
    out
}

/// A brief that a model wrote, where it wrote anything.
pub fn usable_brief(text: &str) -> (r: Option<String>)
    ensures
        r.deep_view() == crate::text::non_blank(Some(text@)),
{
    crate::text::trim_opt(Some(text))
}

/// The last brief written for a position.
pub open spec fn latest(upgrades: Seq<(usize, String)>, i: int) -> Option<Seq<char>>
    decreases upgrades.len(),
{
    if upgrades.len() == 0 {
        None
    } else if upgrades.last().0 == i {
        Some(upgrades.last().1@)
    } else {
        latest(upgrades.drop_last(), i)
    }
}

/// A line with the last brief written for it.
pub open spec fn upgraded(line: LineView, brief: Option<Seq<char>>) -> LineView {
    match brief {
        Some(text) => LineView { agent_brief: Some(text), ..line },
        None => line,
    }
}

/// Puts briefs that a model wrote on their lines; whether there were any.
pub fn apply_brief_upgrades(lines: &mut Vec<AnalyzedLine>, upgrades: Vec<(usize, String)>) -> (r:
    bool)
    requires
        forall|k: int| 0 <= k < upgrades@.len() ==> (#[trigger] upgrades@[k]).0 < old(lines)@.len(),
    ensures
        r == (upgrades@.len() > 0),
        final(lines)@.len() == old(lines)@.len(),
        forall|i: int|
            0 <= i < final(lines)@.len() ==> (#[trigger] final(lines)@[i])@ == upgraded(
                old(lines)@[i]@,
                latest(upgrades@, i),
            ),
{
    let ghost before = line_views(lines@);
    let ghost all = upgrades@;
    let changed = upgrades.len() > 0;
    let mut k: usize = 0;
    while k < upgrades.len()
        invariant
            k <= upgrades@.len(),
            upgrades@ == all,
            lines@.len() == before.len(),
            forall|j: int| 0 <= j < all.len() ==> (#[trigger] all[j]).0 < lines@.len(),
            forall|i: int|
                0 <= i < lines@.len() ==> (#[trigger] lines@[i])@ == upgraded(
                    before[i],
                    latest(all.take(k as int), i),
                ),
        decreases upgrades@.len() - k,
    {
        let at: usize = upgrades[k].0;
        proof {
            assert(all[k as int].0 < lines@.len());
            assert(all.take(k + 1).drop_last() =~= all.take(k as int));
            assert(all.take(k + 1).last() == all[k as int]);
        }
        let text = upgrades[k].1.clone();
        let ghost now = lines@;
        lines[at].agent_brief = Some(text);
        assert forall|i: int| 0 <= i < lines@.len() implies (#[trigger] lines@[i])@ == upgraded(
            before[i],
            latest(all.take(k + 1), i),
        ) by {
            assert(now[i]@ == upgraded(before[i], latest(all.take(k as int), i)));
        }
        k += 1;
    }
    assert(all.take(k as int) =~= all);
    changed
}

/// What programs show of a list of texts: `{:?}`.
pub uninterp spec fn shown_list(list: Seq<Seq<char>>) -> Seq<char>;

/// The `Debug` form of a list of texts. How texts are quoted is not stated
/// beyond the name.
#[verifier::external_body]
fn show_list(list: &Vec<String>) -> (r: String)
    ensures
        r@ == shown_list(list.deep_view()),
{
    format!("{:?}", list)
}

/// An optional number as programs show it.
pub open spec fn shown_days(days: Option<i32>) -> Seq<char> {
    match days {
        Some(n) => "Some("@ + dec_int(n as int) + ")"@,
        None => "None"@,
    }
}

/// An optional percentage as programs show it.
pub open spec fn shown_duty(line: LineView) -> Seq<char> {
    match line.total_duty_pct {
        Some(p) => "Some("@ + p.shown + ")"@,
        None => "None"@,
    }
}

/// A level as programs show it.
pub open spec fn shown_level(level: RiskLevel) -> Seq<char> {
    match level {
        RiskLevel::Red => "Red"@,
        RiskLevel::Yellow => "Yellow"@,
        RiskLevel::Green => "Green"@,
        RiskLevel::Unknown => "Unknown"@,
    }
}

/// What the model is told it is.
pub const BRIEF_SYSTEM: &'static str =
    "You are Prokuro's BOM risk analyst. Be concrete and concise.";

/// What the model is asked to do.
pub const BRIEF_TASK: &'static str =
    "Write one short procurement analyst brief (max 45 words) for this BOM line. No markdown. Start with 'Analyst:'. Include risk and next action.\nMPN: ";

/// The text, or none.
pub open spec fn text_or_none(s: Option<Seq<char>>) -> Seq<char> {
    match s {
        Some(t) => t,
        None => Seq::empty(),
    }
}

/// What the model is asked about a line.
pub open spec fn brief_prompt_text(line: LineView) -> Seq<char> {
    BRIEF_TASK@ + text_or_none(line.mpn) + "\nManufacturer: "@ + text_or_none(line.manufacturer)
        + "\nLifecycle: "@ + line.lifecycle_status + "\nAvailability: "@ + line.availability_status
        + "\nStock: "@ + dec_int(line.total_avail as int) + "\nLead days: "@ + shown_days(
        line.factory_lead_days,
    ) + "\nDuty %: "@ + shown_duty(line) + "\nAML alternates: "@ + shown_list(line.aml_candidates)
        + "\nRisk: "@ + shown_level(line.risk_level)
}

/// What the model is asked about a line.
pub fn brief_prompt(line: &AnalyzedLine) -> (r: String)
    ensures
        r@ == brief_prompt_text(line@),
{
    let mut out = owned(BRIEF_TASK);
    match &line.mpn {
        Some(t) => out.append(t.as_str()),
        None => out.append(String::new().as_str()),
    }
    out.append("\nManufacturer: ");
    match &line.manufacturer {
        Some(t) => out.append(t.as_str()),
        None => out.append(String::new().as_str()),
    }
    out.append("\nLifecycle: ");
    out.append(line.lifecycle_status.as_str());
    out.append("\nAvailability: ");
    out.append(line.availability_status.as_str());
    out.append("\nStock: ");
    out.append(i64_text(line.total_avail).as_str());
    out.append("\nLead days: ");
    let days = match line.factory_lead_days {
        Some(n) => {
            let mut s = owned("Some(");
            s.append(i64_text(n as i64).as_str());
            s.append(")");
            s
        },
        None => owned("None"),
    };
    out.append(days.as_str());
    out.append("\nDuty %: ");
    let duty = match &line.total_duty_pct {
        Some(p) => {
            let mut s = owned("Some(");
            s.append(p.shown.as_str());
            s.append(")");
            s
        },
        None => owned("None"),
    };
    out.append(duty.as_str());
    out.append("\nAML alternates: ");
    out.append(show_list(&line.aml_candidates).as_str());
    out.append("\nRisk: ");
    out.append(
        match line.risk_level {
            RiskLevel::Red => "Red",
            RiskLevel::Yellow => "Yellow",
            RiskLevel::Green => "Green",
            RiskLevel::Unknown => "Unknown",
        },
    );
    out
}

/// A switch that is on when it reads `1` or `true`.
pub open spec fn is_on(value: Option<Seq<char>>) -> bool {
    match value {
        Some(v) => v == "1"@ || eq_ascii_case(v, "true"@),
        None => false,
    }
}

/// Whether a switch is on.
pub fn switched_on(value: Option<&str>) -> (r: bool)
    ensures
        r == is_on(value.deep_view()),
{
    match value {
        Some(v) => crate::text::same(v, "1") || eq_ignore_ascii_case(v, "true"),
        None => false,
    }
}

/// A bom with briefs that a model wrote on its lines, before they are scored
/// again.
pub open spec fn with_upgrades(analyze: AnalyzeView, upgrades: Seq<(usize, String)>) -> AnalyzeView {
    AnalyzeView {
        lines: Seq::new(
            analyze.lines.len(),
            |i: int| upgraded(analyze.lines[i], latest(upgrades, i)),
        ),
        ..analyze
    }
}

/// Puts briefs that a model wrote on a bom and brings its counts up to date;
/// whether there were any. Without any the bom stays as it is.
pub fn upgrade_record(record: &mut BomRecord, upgrades: Vec<(usize, String)>) -> (r: bool)
    requires
        forall|k: int|
            0 <= k < upgrades@.len() ==> (#[trigger] upgrades@[k]).0 < old(record).analyze.lines@.len(),
    ensures
        r == (upgrades@.len() > 0),
        !r ==> final(record)@ == old(record)@,
        r ==> is_finalized(with_upgrades(old(record)@.analyze, upgrades@), final(record)@.analyze)
            && final(record)@.summary == shows(
            old(record)@.summary,
            final(record)@.analyze.summary,
        ),
{
    if upgrades.len() == 0 {
        return false;
    }
    let ghost before = record@.analyze;
    let ghost given = upgrades@;
    apply_brief_upgrades(&mut record.analyze.lines, upgrades);
    assert(record.analyze@.lines =~= with_upgrades(before, given).lines);
    finalize_analyze(&mut record.analyze);
    proof {
        summary_adds_up(record.analyze.summary, record.analyze@.lines);
    }
    apply_summary_from_analyze(record);
    true
}

/// A red or yellow line whose part was looked up and that has no brief, a blank one or an
/// automatic one, is to be briefed.
pub proof fn risky_lines_are_briefed(line: &AnalyzedLine, r: bool, rest: Seq<char>)
    requires
        call_ensures(needs_brief, (line,), r),
    ensures
        line@.risk_level == RiskLevel::Green || line@.risk_level == RiskLevel::Unknown ==> !r,
        eq_ascii_case(line@.availability_status, "Pending"@) || eq_ascii_case(line@.match_status, "Pending"@) ==> !r,
        (line@.risk_level == RiskLevel::Red || line@.risk_level == RiskLevel::Yellow) && !eq_ascii_case(
            line@.availability_status,
            "Pending"@,
        ) && !eq_ascii_case(line@.match_status, "Pending"@) ==> {
            &&& line@.agent_brief is None ==> r
            &&& line@.agent_brief is Some && is_blank(line@.agent_brief->0) ==> r
            &&& line@.agent_brief is Some && trimmed(line@.agent_brief->0) == "Analyst (auto):"@ + rest ==> r
        },
        line@.agent_brief is Some && !is_blank(line@.agent_brief->0) && trimmed(line@.agent_brief->0)[0] != 'A' ==> !r,
{
    reveal_strlit("pending");
    reveal_strlit("Pending");
    assert(ascii_lower("Pending"@) =~= ascii_lower("pending"@));
    reveal_strlit("Analyst (auto):");
    reveal_strlit("Analyst: ");
    let auto = "Analyst (auto):"@;
    let plain = "Analyst: "@;
    assert(auto.len() == 15 && auto[0] == 'A');
    assert(plain.len() == 9 && plain[0] == 'A');
    assert(auto.is_prefix_of(auto + rest));
    if line@.agent_brief is Some {
        let t = trimmed(line@.agent_brief->0);
        if auto.is_prefix_of(t) {
            assert(t.subrange(0, 15)[0] == t[0]);
        }
        if plain.is_prefix_of(t) {
            assert(t.subrange(0, 9)[0] == t[0]);
        }
    }
}

/// A brief that a model wrote stays, unless it reads like those once made without one.
pub proof fn written_briefs_stay(text: &str, r: bool)
    requires
        call_ensures(is_upgradeable_brief, (Some(text),), r),
        !is_blank(text@),
        !"Analyst (auto):"@.is_prefix_of(trimmed(text@)),
        !has_part(trimmed(text@).skip(9), " — lifecycle "@),
    ensures
        !r,
{
    reveal_strlit("Analyst: ");
    assert("Analyst: "@.len() == 9);
}

/// A line without a brief may be given one.
pub proof fn missing_briefs_are_written(r: bool)
    requires
        call_ensures(is_upgradeable_brief, (None::<&str>,), r),
    ensures
        r,
{
}

/// An automatic brief is marked as such and names the risk, the part, its life, its
/// availability and its stock, and the first alternate where there is one.
pub proof fn automatic_briefs_say_why(line: &AnalyzedLine, r: String)
    requires
        call_ensures(heuristic_brief, (line,), r),
    ensures
        "Analyst (auto):"@.is_prefix_of(r@),
        line@.risk_level == RiskLevel::Red ==> has_part(r@, "Critical"@),
        line@.risk_level == RiskLevel::Yellow ==> has_part(r@, "Watch"@),
        line@.mpn is Some ==> has_part(r@, line@.mpn->0),
        has_part(r@, line@.lifecycle_status),
        has_part(r@, line@.availability_status),
        has_part(r@, dec_int(line@.total_avail as int)),
        line@.aml_candidates.len() > 0 ==> has_part(r@, line@.aml_candidates[0]),
{
    let l = line@;
    let mpn = match l.mpn {
        Some(mpn) => mpn,
        None => "unknown MPN"@,
    };
    let stock = dec_int(l.total_avail as int);
    let a0 = HEURISTIC_PREFIX@;
    let a1 = a0 + " "@;
    let a2 = a1 + risk_word(l.risk_level);
    let a3 = a2 + " on "@;
    let a4 = a3 + mpn;
    let a5 = a4 + " — lifecycle "@;
    let a6 = a5 + l.lifecycle_status;
    let a7 = a6 + ", availability "@;
    let a8 = a7 + l.availability_status;
    let a9 = a8 + ", stock "@;
    let a10 = a9 + stock;
    let a11 = a10 + "."@;
    let tail = if l.aml_candidates.len() > 0 {
        " Prefer AML alternate "@ + l.aml_candidates[0] + "."@
    } else {
        Seq::empty()
    };
    assert(r@ == a11 + tail);
    longer_texts_keep_parts(a0, " "@);
    longer_texts_keep_parts(a1, risk_word(l.risk_level));
    longer_texts_keep_parts(a2, " on "@);
    longer_texts_keep_parts(a3, mpn);
    longer_texts_keep_parts(a4, " — lifecycle "@);
    longer_texts_keep_parts(a5, l.lifecycle_status);
    longer_texts_keep_parts(a6, ", availability "@);
    longer_texts_keep_parts(a7, l.availability_status);
    longer_texts_keep_parts(a8, ", stock "@);
    longer_texts_keep_parts(a9, stock);
    longer_texts_keep_parts(a10, "."@);
    longer_texts_keep_parts(a11, tail);
    assert(a0.is_prefix_of(a0));
    if l.aml_candidates.len() > 0 {
        alternates_are_named(a11, l.aml_candidates[0]);
    }
}

proof fn alternates_are_named(s: Seq<char>, name: Seq<char>)
    ensures
        has_part(s + (" Prefer AML alternate "@ + name + "."@), name),
{
    let a = " Prefer AML alternate "@;
    parts_are_found(s + a, name, "."@);
    assert(s + a + name + "."@ =~= s + (a + name + "."@));
}

/// A text that goes on keeps what it held and how it began, and holds what was added.
proof fn longer_texts_keep_parts(s: Seq<char>, t: Seq<char>)
    ensures
        forall|p: Seq<char>| #[trigger] has_part(s, p) ==> has_part(s + t, p),
        forall|p: Seq<char>| #[trigger] p.is_prefix_of(s) ==> p.is_prefix_of(s + t),
        has_part(s + t, t),
{
    assert forall|p: Seq<char>| #[trigger] has_part(s, p) implies has_part(s + t, p) by {
        let i = choose|i: int| crate::text::search::occurs_at(s, p, i);
        assert((s + t).subrange(i, i + p.len()) =~= s.subrange(i, i + p.len()));
        assert(crate::text::search::occurs_at(s + t, p, i));
    }
    assert forall|p: Seq<char>| #[trigger] p.is_prefix_of(s) implies p.is_prefix_of(s + t) by {
        assert((s + t).subrange(0, p.len() as int) =~= s.subrange(0, p.len() as int));
    }
    parts_are_found(s, t, Seq::empty());
    assert(s + t + Seq::<char>::empty() =~= s + t);
}

/// A text that goes on with a label and a value holds the two together.
proof fn labels_stay_with_values(s: Seq<char>, label: Seq<char>, value: Seq<char>)
    ensures
        forall|p: Seq<char>| #[trigger] has_part(s, p) ==> has_part(s + label + value, p),
        has_part(s + label + value, label + value),
{
    let whole = s + label + value;
    assert(s + (label + value) =~= whole);
    assert forall|p: Seq<char>| #[trigger] has_part(s, p) implies has_part(whole, p) by {
        longer_texts_keep_parts(s, label + value);
    }
    parts_are_found(s, label + value, Seq::empty());
    assert(s + (label + value) + Seq::<char>::empty() =~= whole);
}

proof fn wanting_holds(lines: Seq<LineView>, i: int)
    ensures
        wanting(lines).contains(i) <==> 0 <= i < lines.len() && wants_brief(lines[i]),
    decreases lines.len(),
{
    if lines.len() > 0 {
        let d = lines.drop_last();
        wanting_holds(d, i);
        let w = wanting(d);
        let n = lines.len() - 1;
        let p = w.push(n);
        assert(p[w.len() as int] == n);
        if w.contains(i) {
            let k = choose|k: int| 0 <= k < w.len() && w[k] == i;
            assert(p[k] == i);
        }
        if p.contains(i) && i != n {
            let k = choose|k: int| 0 <= k < p.len() && p[k] == i;
            assert(w[k] == i);
        }
    }
}

/// The lines that are to be briefed are exactly those that want a brief.
pub proof fn no_wanting_line_is_missed(lines: &Vec<AnalyzedLine>, r: Vec<usize>, i: usize)
    requires
        call_ensures(briefs_wanted, (lines,), r),
        i < lines@.len(),
    ensures
        r@.contains(i) <==> (lines@[i as int]@.risk_level == RiskLevel::Red || lines@[i as int]@.risk_level
            == RiskLevel::Yellow) && !eq_ascii_case(lines@[i as int]@.availability_status, "Pending"@)
            && !eq_ascii_case(lines@[i as int]@.match_status, "Pending"@) && is_upgradeable(
            lines@[i as int]@.agent_brief,
        ),
{
    reveal_strlit("pending");
    reveal_strlit("Pending");
    assert(ascii_lower("Pending"@) =~= ascii_lower("pending"@));
    wanting_holds(line_views(lines@), i as int);
    let p = positions(r@);
    if r@.contains(i) {
        let k = choose|k: int| 0 <= k < r@.len() && r@[k] == i;
        assert(p[k] == i as int);
    }
    if p.contains(i as int) {
        let k = choose|k: int| 0 <= k < p.len() && p[k] == i as int;
        assert(r@[k] == i);
    }
}

/// A line that is briefed keeps everything else, and one that needs no brief keeps the one
/// that it has.
pub proof fn briefing_changes_nothing_else(line: LineView)
    ensures
        briefed(line) == (LineView { agent_brief: briefed(line).agent_brief, ..line }),
        line.risk_level == RiskLevel::Green || line.risk_level == RiskLevel::Unknown ==> briefed(line) == line,
        (line.risk_level == RiskLevel::Red || line.risk_level == RiskLevel::Yellow) && line.agent_brief is None
            && !is_pending(line) ==> briefed(line).agent_brief is Some,
{
}

/// The brief that was written last for a line is on it, a line that nothing was written
/// for keeps its own, and nothing else of a line changes.
pub proof fn last_brief_counts(upgrades: Seq<(usize, String)>, i: usize, text: String, line: LineView, j: int)
    ensures
        latest(upgrades.push((i, text)), i as int) == Some(text@),
        j != i ==> latest(upgrades.push((i, text)), j) == latest(upgrades, j),
        latest(Seq::empty(), j) is None,
        upgraded(line, Some(text@)).agent_brief == Some(text@),
        upgraded(line, None) == line,
        upgraded(line, Some(text@)) == (LineView { agent_brief: Some(text@), ..line }),
{
    assert(upgrades.push((i, text)).drop_last() =~= upgrades);
    assert(upgrades.push((i, text)).last() == (i, text));
}

/// The model is asked about the line as it is: its part, its maker, its life, its
/// availability, its stock, its lead time and its risk.
pub proof fn prompts_describe_the_line(line: &AnalyzedLine, r: String)
    requires
        call_ensures(brief_prompt, (line,), r),
    ensures
        line@.mpn is Some ==> has_part(r@, "\nMPN: "@ + line@.mpn->0),
        line@.manufacturer is Some ==> has_part(r@, "\nManufacturer: "@ + line@.manufacturer->0),
        has_part(r@, "\nLifecycle: "@ + line@.lifecycle_status),
        has_part(r@, "\nAvailability: "@ + line@.availability_status),
        has_part(r@, "\nStock: "@ + dec_int(line@.total_avail as int)),
        line@.factory_lead_days is None ==> has_part(r@, "\nLead days: "@ + "None"@),
        line@.factory_lead_days is Some ==> has_part(
            r@,
            "\nLead days: "@ + ("Some("@ + dec_int(line@.factory_lead_days->0 as int) + ")"@),
        ),
        line@.risk_level == RiskLevel::Red ==> has_part(r@, "\nRisk: "@ + "Red"@),
        line@.risk_level == RiskLevel::Yellow ==> has_part(r@, "\nRisk: "@ + "Yellow"@),
{
    let l = line@;
    let mpn = text_or_none(l.mpn);
    let a0 = BRIEF_TASK@ + mpn;
    let a1 = a0 + "\nManufacturer: "@ + text_or_none(l.manufacturer);
    let a2 = a1 + "\nLifecycle: "@ + l.lifecycle_status;
    let a3 = a2 + "\nAvailability: "@ + l.availability_status;
    let a4 = a3 + "\nStock: "@ + dec_int(l.total_avail as int);
    let a5 = a4 + "\nLead days: "@ + shown_days(l.factory_lead_days);
    let a6 = a5 + "\nDuty %: "@ + shown_duty(l);
    let a7 = a6 + "\nAML alternates: "@ + shown_list(l.aml_candidates);
    let a8 = a7 + "\nRisk: "@ + shown_level(l.risk_level);
    assert(r@ == a8);
    tasks_end_with_the_part(mpn);
    labels_stay_with_values(a0, "\nManufacturer: "@, text_or_none(l.manufacturer));
    labels_stay_with_values(a1, "\nLifecycle: "@, l.lifecycle_status);
    labels_stay_with_values(a2, "\nAvailability: "@, l.availability_status);
    labels_stay_with_values(a3, "\nStock: "@, dec_int(l.total_avail as int));
    labels_stay_with_values(a4, "\nLead days: "@, shown_days(l.factory_lead_days));
    labels_stay_with_values(a5, "\nDuty %: "@, shown_duty(l));
    labels_stay_with_values(a6, "\nAML alternates: "@, shown_list(l.aml_candidates));
    labels_stay_with_values(a7, "\nRisk: "@, shown_level(l.risk_level));
}

proof fn tasks_end_with_the_part(mpn: Seq<char>)
    ensures
        has_part(BRIEF_TASK@ + mpn, "\nMPN: "@ + mpn),
{
    reveal_strlit(
        "Write one short procurement analyst brief (max 45 words) for this BOM line. No markdown. Start with 'Analyst:'. Include risk and next action.\nMPN: ",
    );
    reveal_strlit("\nMPN: ");
    let n = BRIEF_TASK@.len() - 6;
    let head = BRIEF_TASK@.take(n);
    assert(BRIEF_TASK@ =~= head + "\nMPN: "@);
    labels_stay_with_values(head, "\nMPN: "@, mpn);
}

/// A switch is on at `1` and at `true` in any case, and off at anything else.
pub proof fn switches_are_read(value: Option<&str>, r: bool)
    requires
        call_ensures(switched_on, (value,), r),
    ensures
        value is None ==> !r,
        value is Some && value->0@ == "1"@ ==> r,
        value is Some && eq_ascii_case(value->0@, "TRUE"@) ==> r,
        value is Some && value->0@ == "0"@ ==> !r,
        value is Some && value->0@ == "false"@ ==> !r,
        r ==> value->0@ == "1"@ || eq_ascii_case(value->0@, "TRUE"@),
{
    reveal_strlit("1");
    reveal_strlit("0");
    reveal_strlit("true");
    reveal_strlit("TRUE");
    reveal_strlit("false");
    assert(ascii_lower("TRUE"@) =~= ascii_lower("true"@));
    assert("1"@.len() == 1 && "1"@[0] == '1');
    assert("0"@.len() == 1 && "0"@[0] == '0');
    assert(ascii_lower("true"@).len() == 4);
    assert(ascii_lower("0"@).len() == 1);
    assert(ascii_lower("false"@).len() == 5);
    assert("false"@.len() == 5);
}

/// A brief that a model wrote is used without the blanks around it, and none where it
/// wrote nothing.
pub proof fn written_briefs_are_used(text: &str, r: Option<String>)
    requires
        call_ensures(usable_brief, (text,), r),
    ensures
        is_blank(text@) ==> r is None,
        !is_blank(text@) ==> r is Some && r->0@ == trimmed(text@),
{
}

/// Briefs that a model wrote land on their lines and change nothing else of the bom but its
/// risks and counts; without any the bom stays as it is.
pub proof fn written_briefs_land_on_their_lines(
    record: &mut BomRecord,
    upgrades: Vec<(usize, String)>,
    r: bool,
    i: int,
)
    requires
        forall|k: int|
            0 <= k < upgrades@.len() ==> (#[trigger] upgrades@[k]).0 < old(record).analyze.lines@.len(),
        call_ensures(upgrade_record, (record, upgrades), r),
    ensures
        r <==> upgrades@.len() > 0,
        !r ==> final(record)@ == old(record)@,
        r && 0 <= i < old(record)@.analyze.lines.len() ==> ({
            let line = final(record)@.analyze.lines[i];
            &&& upgrades@.last().0 == i ==> line.agent_brief == Some(upgrades@.last().1@)
            &&& latest(upgrades@, i) is None ==> line.agent_brief == old(record)@.analyze.lines[i].agent_brief
            &&& line.mpn == old(record)@.analyze.lines[i].mpn
            &&& line.lifecycle_status == old(record)@.analyze.lines[i].lifecycle_status
        }),
        final(record)@.summary.id == old(record)@.summary.id,
{
}

/// Briefs that were once made without a model are known by how they begin and by what they
/// list.
pub proof fn old_briefs_are_known(text: &str, r: bool)
    requires
        call_ensures(is_legacy_heuristic_brief, (text,), r),
    ensures
        r ==> "Analyst: "@.is_prefix_of(text@) && has_part(text@.skip(9), " — lifecycle "@) && has_part(
            text@.skip(9),
            ", availability "@,
        ) && has_part(text@.skip(9), ", stock "@),
        "Analyst: "@.is_prefix_of(text@) && "Critical on "@.is_prefix_of(text@.skip(9)) && has_part(
            text@.skip(9),
            " — lifecycle "@,
        ) && has_part(text@.skip(9), ", availability "@) && has_part(text@.skip(9), ", stock "@) ==> r,
        "Analyst: "@.is_prefix_of(text@) && "Watch on "@.is_prefix_of(text@.skip(9)) && has_part(
            text@.skip(9),
            " — lifecycle "@,
        ) && has_part(text@.skip(9), ", availability "@) && has_part(text@.skip(9), ", stock "@) ==> r,
{
    reveal_strlit("Analyst: ");
    assert("Analyst: "@.len() == 9);
}

/// The model is told the duty and the alternates of the line too.
pub proof fn prompts_tell_duty_and_alternates(line: &AnalyzedLine, r: String)
    requires
        call_ensures(brief_prompt, (line,), r),
    ensures
        line@.total_duty_pct is None ==> has_part(r@, "\nDuty %: "@ + "None"@),
        line@.total_duty_pct is Some ==> has_part(
            r@,
            "\nDuty %: "@ + ("Some("@ + line@.total_duty_pct->0.shown + ")"@),
        ),
        has_part(r@, "\nAML alternates: "@ + shown_list(line@.aml_candidates)),
        line@.risk_level == RiskLevel::Green ==> has_part(r@, "\nRisk: "@ + "Green"@),
{
    let l = line@;
    let a5 = BRIEF_TASK@ + text_or_none(l.mpn) + "\nManufacturer: "@ + text_or_none(l.manufacturer) + "\nLifecycle: "@
        + l.lifecycle_status + "\nAvailability: "@ + l.availability_status + "\nStock: "@ + dec_int(
        l.total_avail as int,
    ) + "\nLead days: "@ + shown_days(l.factory_lead_days);
    let a6 = a5 + "\nDuty %: "@ + shown_duty(l);
    let a7 = a6 + "\nAML alternates: "@ + shown_list(l.aml_candidates);
    let a8 = a7 + "\nRisk: "@ + shown_level(l.risk_level);
    assert(r@ == a8);
    labels_stay_with_values(a5, "\nDuty %: "@, shown_duty(l));
    labels_stay_with_values(a6, "\nAML alternates: "@, shown_list(l.aml_candidates));
    labels_stay_with_values(a7, "\nRisk: "@, shown_level(l.risk_level));
}

} // verus!
