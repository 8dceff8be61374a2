//! Boms and their summaries.

use vstd::prelude::*;
use vstd::string::*;

use crate::gateway::analyze::{AnalyzeResult, AnalyzeSummary, AnalyzeView};
use crate::text::case::{ascii_lower, ascii_upper, to_ascii_lower, to_ascii_upper, to_uppercase, uppercase};
use crate::text::number::{digit, is_digit};
use crate::text::search::{join, joined, rsplit_once, rsplit_once_at, split, split_at_char};
use crate::text::{from_chars, is_blank, owned, same, slice_text, to_chars, trim, trimmed};

verus! {

/// How risky a bom is: a number that was stored, as the bit pattern of a
/// binary64 number, or the share of lines at risk among those that can be scored.
#[derive(Debug, Clone, Copy, PartialEq, Eq, Structural)]
pub enum RiskScore {
    Stored(u64),
    Share { at_risk: usize, scorable: usize },
}

/// A bom in a list.
#[derive(Debug)]
pub struct BomSummary {
    pub id: String,
    pub name: String,
    pub filename: String,
    pub uploaded_at: String,
    pub version: u64,
    pub updated_at: String,
    pub line_count: usize,
    pub overall_risk_score: RiskScore,
    pub at_risk_count: usize,
    pub unknown_count: usize,
    pub risk_band: String,
}

/// The content of a bom in a list.
#[verifier::ext_equal]
pub struct BomSummaryView {
    pub id: Seq<char>,
    pub name: Seq<char>,
    pub filename: Seq<char>,
    pub uploaded_at: Seq<char>,
    pub version: u64,
    pub updated_at: Seq<char>,
    pub line_count: usize,
    pub overall_risk_score: RiskScore,
    pub at_risk_count: usize,
    pub unknown_count: usize,
    pub risk_band: Seq<char>,
}

impl View for BomSummary {
    type V = BomSummaryView;

    open spec fn view(&self) -> BomSummaryView {
        BomSummaryView {
            id: self.id@,
            name: self.name@,
            filename: self.filename@,
            uploaded_at: self.uploaded_at@,
            version: self.version,
            updated_at: self.updated_at@,
            line_count: self.line_count,
            overall_risk_score: self.overall_risk_score,
            at_risk_count: self.at_risk_count,
            unknown_count: self.unknown_count,
            risk_band: self.risk_band@,
        }
    }
}

impl Clone for BomSummary {
    fn clone(&self) -> (r: Self)
        ensures
            r == *self,
    {
        BomSummary {
            id: self.id.clone(),
            name: self.name.clone(),
            filename: self.filename.clone(),
            uploaded_at: self.uploaded_at.clone(),
            version: self.version,
            updated_at: self.updated_at.clone(),
            line_count: self.line_count,
            overall_risk_score: self.overall_risk_score,
            at_risk_count: self.at_risk_count,
            unknown_count: self.unknown_count,
            risk_band: self.risk_band.clone(),
        }
    }
}

/// A bom with its lines.
#[derive(Debug)]
pub struct BomRecord {
    pub summary: BomSummary,
    pub analyze: AnalyzeResult,
}

/// The content of a bom.
#[verifier::ext_equal]
pub struct BomRecordView {
    pub summary: BomSummaryView,
    pub analyze: AnalyzeView,
}

impl View for BomRecord {
    type V = BomRecordView;

    open spec fn view(&self) -> BomRecordView {
        BomRecordView { summary: self.summary@, analyze: self.analyze@ }
    }
}

/// The lines that scored red or yellow.
pub fn at_risk_count(summary: &AnalyzeSummary) -> (r: usize)
    requires
        summary.red_count + summary.yellow_count <= usize::MAX,
    ensures
        r == summary.red_count + summary.yellow_count,
{
    summary.red_count + summary.yellow_count
}

/// The lines that could be scored.
pub open spec fn scorable_lines(summary: AnalyzeSummary) -> usize {
    if summary.total < summary.unknown_count {
        0
    } else {
        (summary.total - summary.unknown_count) as usize
    }
}

/// The lines that could be scored.
pub fn scorable_line_count(summary: &AnalyzeSummary) -> (r: usize)
    ensures
        r == scorable_lines(*summary),
{
    summary.total.saturating_sub(summary.unknown_count)
}

/// The share of lines at risk among those that could be scored.
pub open spec fn risk_share(summary: AnalyzeSummary) -> RiskScore {
    RiskScore::Share {
        at_risk: (summary.red_count + summary.yellow_count) as usize,
        scorable: scorable_lines(summary),
    }
}

/// The share of lines at risk among those that could be scored.
pub fn overall_risk_score(summary: &AnalyzeSummary) -> (r: RiskScore)
    requires
        summary.red_count + summary.yellow_count <= usize::MAX,
    ensures
        r == risk_share(*summary),
{
    RiskScore::Share { at_risk: at_risk_count(summary), scorable: scorable_line_count(summary) }
}

/// The worst that a bom holds, in a word.
pub open spec fn band(summary: AnalyzeSummary) -> Seq<char> {
    if summary.red_count > 0 {
        "Critical"@
    } else if summary.yellow_count > 0 {
        "Watch"@
    } else if summary.unknown_count > 0 {
        "Unknown"@
    } else {
        "Clear"@
    }
}

/// The worst that a bom holds, in a word.
pub fn portfolio_risk_band(summary: &AnalyzeSummary) -> (r: &'static str)
    ensures
        r@ == band(*summary),
{
    if summary.red_count > 0 {
        "Critical"
    } else if summary.yellow_count > 0 {
        "Watch"
    } else if summary.unknown_count > 0 {
        "Unknown"
    } else {
        "Clear"
    }
}

/// What a list shows of an analyzed bom: the score, the lines at risk, those
/// that could not be scored, and the band.
pub fn bom_summary_fields(analyze: &AnalyzeResult) -> (r: (RiskScore, usize, usize, String))
    requires
        analyze.summary.red_count + analyze.summary.yellow_count <= usize::MAX,
    ensures
        r.0 == risk_share(analyze.summary),
        r.1 == analyze.summary.red_count + analyze.summary.yellow_count,
        r.2 == analyze.summary.unknown_count,
        r.3@ == band(analyze.summary),
{
    let summary = &analyze.summary;
    (
        overall_risk_score(summary),
        at_risk_count(summary),
        summary.unknown_count,
        owned(portfolio_risk_band(summary)),
    )
}

/// A word of a name: known short forms and anything with a digit in upper case,
/// others with a capital.
pub open spec fn name_word(token: Seq<char>) -> Seq<char> {
    let lower = ascii_lower(token);
    if lower == "bom"@ || lower == "mpn"@ || lower == "eda"@ || lower == "pcb"@ {
        ascii_upper(lower)
    } else if exists|i: int| 0 <= i < token.len() && is_digit(#[trigger] token[i]) {
        ascii_upper(token)
    } else if token.len() == 0 {
        Seq::empty()
    } else {
        uppercase(token.take(1)) + ascii_lower(token.skip(1))
    }
}

/// A word of a name.
pub fn format_name_token(token: &str) -> (r: String)
    ensures
        r@ == name_word(token@),
{
    let lower = to_ascii_lower(token);
    if same(lower.as_str(), "bom") || same(lower.as_str(), "mpn") || same(lower.as_str(), "eda")
        || same(lower.as_str(), "pcb") {
        return to_ascii_upper(lower.as_str());
    }
    let chars = to_chars(token);
    let mut i: usize = 0;
    while i < chars.len()
        invariant
            i <= chars@.len(),
            chars@ == token@,
            forall|j: int| 0 <= j < i ==> !is_digit(#[trigger] token@[j]),
            !(ascii_lower(token@) == "bom"@ || ascii_lower(token@) == "mpn"@ || ascii_lower(token@)
                == "eda"@ || ascii_lower(token@) == "pcb"@),
        decreases chars@.len() - i,
    {
        if digit(chars[i]) {
            assert(is_digit(token@[i as int]));
            return to_ascii_upper(token);
        }
        i += 1;
    }
    if chars.len() == 0 {
        return String::new();
    }
    let first = slice_text(&chars, 0, 1);
    let rest = slice_text(&chars, 1, chars.len());
    assert(first@ =~= token@.take(1));
    assert(rest@ =~= token@.skip(1));
    let mut out = to_uppercase(first.as_str());
    out.append(to_ascii_lower(rest.as_str()).as_str());
    out
}

/// A text with dashes and dots turned into underscores.
pub open spec fn unified(stem: Seq<char>) -> Seq<char> {
    stem.map_values(
        |c: char|
            if c == '-' || c == '.' {
                '_'
            } else {
                c
            },
    )
}

/// The words between underscores, dashes and dots, without blank ones.
pub open spec fn words_of(parts: Seq<Seq<char>>) -> Seq<Seq<char>>
    decreases parts.len(),
{
    if parts.len() == 0 {
        Seq::empty()
    } else if is_blank(parts.last()) {
        words_of(parts.drop_last())
    } else {
        words_of(parts.drop_last()).push(name_word(trimmed(parts.last())))
    }
}

/// A readable name from the stem of a filename.
pub open spec fn readable(stem: Seq<char>) -> Seq<char> {
    let words = words_of(split_at_char(unified(stem), '_'));
    if words.len() == 0 {
        stem
    } else {
        joined(words, " "@)
    }
}

fn unify(stem: &str) -> (r: String)
    ensures
        r@ == unified(stem@),
{
    let chars = to_chars(stem);
    let mut out: Vec<char> = Vec::new();
    let mut i: usize = 0;
    while i < chars.len()
        invariant
            i <= chars@.len(),
            out@ == unified(chars@.take(i as int)),
        decreases chars@.len() - i,
    {
        let c: char = chars[i];
        out.push(
            if c == '-' || c == '.' {
                '_'
            } else {
                c
            },
        );
        i += 1;
        assert(out@ =~= unified(chars@.take(i as int)));
    }
    assert(chars@.take(i as int) =~= chars@);
    from_chars(&out)
}

/// A readable name from the stem of a filename.
pub fn humanize_filename_stem(stem: &str) -> (r: String)
    ensures
        r@ == readable(stem@),
{
    let parts = split(unify(stem).as_str(), '_');
    let ghost all = parts.deep_view();
    let mut words: Vec<String> = Vec::new();
    let mut i: usize = 0;
    assert(words.deep_view() =~= words_of(all.take(0)));
    while i < parts.len()
        invariant
            i <= parts@.len(),
            all == parts.deep_view(),
            words.deep_view() == words_of(all.take(i as int)),
        decreases parts@.len() - i,
    {
        let ghost before = words.deep_view();
        proof {
            assert(all.take(i + 1).drop_last() =~= all.take(i as int));
            assert(all.take(i + 1).last() == parts@[i as int]@);
        }
        let part = trim(parts[i].as_str());
        if !part.as_str().is_empty() {
            let word = format_name_token(part.as_str());
            let ghost w = word@;
            words.push(word);
            assert(words.deep_view() =~= before.push(w));
        }
        i += 1;
    }
    assert(all.take(i as int) =~= all);
    if words.len() == 0 {
        owned(stem)
    } else {
        let list: &[String] = words.as_slice();
        assert(list.deep_view() =~= words.deep_view());
        join(list, " ")
    }
}

/// The name of a bom: the given one, unless it is blank; else a readable form of
/// the filename without its extension.
pub open spec fn bom_name(filename: Seq<char>, provided: Option<Seq<char>>) -> Seq<char> {
    if provided is Some && !is_blank(provided->0) {
        trimmed(provided->0)
    } else {
        match rsplit_once_at(filename, '.') {
            Some((stem, _)) => readable(stem),
            None => readable(filename),
        }
    }
}

/// The name of a bom.
pub fn default_bom_name(filename: &str, provided: Option<&str>) -> (r: String)
    ensures
        r@ == bom_name(filename@, provided.deep_view()),
{
    if let Some(name) = provided {
        let name = trim(name);
        if !name.as_str().is_empty() {
            return name;
        }
    }
    match rsplit_once(filename, '.') {
        Some((stem, _)) => humanize_filename_stem(stem.as_str()),
        None => humanize_filename_stem(filename),
    }
}

/// The extension of a filename with its dot; the whole name where it has none.
pub open spec fn extension(filename: Seq<char>) -> Seq<char> {
    match rsplit_once_at(filename, '.') {
        Some((_, ext)) => "."@ + ext,
        None => "."@ + filename,
    }
}

/// The extension of a filename with its dot.
pub fn extension_for(filename: &str) -> (r: String)
    ensures
        r@ == extension(filename@),
{
    let mut out = owned(".");
    match rsplit_once(filename, '.') {
        Some((_, ext)) => out.append(ext.as_str()),
        None => out.append(filename),
    }
    out
}

/// The four bands are four words.
pub proof fn band_words_differ()
    ensures
        "Critical"@ != "Watch"@,
        "Critical"@ != "Unknown"@,
        "Critical"@ != "Clear"@,
        "Watch"@ != "Unknown"@,
        "Watch"@ != "Clear"@,
        "Unknown"@ != "Clear"@,
{
    reveal_strlit("Critical");
    reveal_strlit("Watch");
    reveal_strlit("Unknown");
    reveal_strlit("Clear");
    assert("Critical"@.len() == 8);
    assert("Watch"@.len() == 5 && "Watch"@[0] == 'W');
    assert("Unknown"@.len() == 7);
    assert("Clear"@.len() == 5 && "Clear"@[0] == 'C');
}

/// A bom is as bad as its worst line: critical with a red one, to be watched with a
/// yellow one, unknown with one that was not scored, and clear with none of these.
pub proof fn bands_follow_the_worst_line(summary: &AnalyzeSummary, r: &'static str)
    requires
        call_ensures(portfolio_risk_band, (summary,), r),
    ensures
        r@ == "Critical"@ <==> summary.red_count > 0,
        r@ == "Watch"@ <==> summary.red_count == 0 && summary.yellow_count > 0,
        r@ == "Unknown"@ <==> summary.red_count == 0 && summary.yellow_count == 0 && summary.unknown_count > 0,
        r@ == "Clear"@ <==> summary.red_count == 0 && summary.yellow_count == 0 && summary.unknown_count == 0,
{
    band_words_differ();
}

/// The score is the share of red and yellow lines among those that were scored.
pub proof fn scores_leave_out_unknown_lines(summary: &AnalyzeSummary, r: RiskScore)
    requires
        summary.red_count + summary.yellow_count <= usize::MAX,
        call_ensures(overall_risk_score, (summary,), r),
    ensures
        r is Share,
        r->at_risk == summary.red_count + summary.yellow_count,
        summary.unknown_count <= summary.total ==> r->scorable + summary.unknown_count == summary.total,
        summary.unknown_count > summary.total ==> r->scorable == 0,
{
}

/// A given name is kept without the blanks around it.
pub proof fn given_names_are_kept(filename: &str, name: &str, r: String)
    requires
        call_ensures(default_bom_name, (filename, Some(name)), r),
        !is_blank(name@),
    ensures
        r@ == trimmed(name@),
{
}

/// A blank name is no name, and the extension of the file does not show in the name.
pub proof fn blank_names_come_from_the_file(
    filename: &str,
    other: &str,
    name: &str,
    blank: String,
    none: String,
    without: String,
    stem: Seq<char>,
    ext: Seq<char>,
)
    requires
        is_blank(name@),
        call_ensures(default_bom_name, (filename, Some(name)), blank),
        call_ensures(default_bom_name, (filename, None::<&str>), none),
        call_ensures(default_bom_name, (other, None::<&str>), without),
        filename@ == stem + seq!['.'] + ext,
        !ext.contains('.'),
        other@ == stem,
        !stem.contains('.'),
    ensures
        blank@ == none@,
        none@ == without@,
{
    crate::text::search::last_separator_parts(stem, ext, '.');
    crate::text::search::last_index_is_last(stem, '.');
}

/// The extension of a file is what follows its last dot, with the dot.
pub proof fn extensions_follow_the_last_dot(filename: &str, r: String, stem: Seq<char>, ext: Seq<char>)
    requires
        call_ensures(extension_for, (filename,), r),
        filename@ == stem + seq!['.'] + ext,
        !ext.contains('.'),
    ensures
        r@ == "."@ + ext,
{
    crate::text::search::last_separator_parts(stem, ext, '.');
}

/// The short forms are written in capitals however they were spelled, and so is any word
/// with a digit.
pub proof fn short_forms_are_capitals(token: &str, r: String)
    requires
        call_ensures(format_name_token, (token,), r),
    ensures
        ascii_lower(token@) == "bom"@ || ascii_lower(token@) == "mpn"@ || ascii_lower(token@) == "eda"@
            || ascii_lower(token@) == "pcb"@ ==> r@ == ascii_upper(token@),
        (exists|i: int| 0 <= i < token@.len() && '0' <= #[trigger] token@[i] <= '9') ==> r@ == ascii_upper(token@),
        token@.len() == 0 ==> r@.len() == 0,
{
    let lower = ascii_lower(token@);
    assert(ascii_upper(lower) =~= ascii_upper(token@));
    reveal_strlit("bom");
    reveal_strlit("mpn");
    reveal_strlit("eda");
    reveal_strlit("pcb");
    assert("bom"@.len() == 3 && "mpn"@.len() == 3 && "eda"@.len() == 3 && "pcb"@.len() == 3);
}

/// Dashes, dots and underscores part the words of a name alike.
pub proof fn separators_are_alike(a: &str, b: &str, x: String, y: String)
    requires
        call_ensures(humanize_filename_stem, (a,), x),
        call_ensures(humanize_filename_stem, (b,), y),
        a@.len() == b@.len(),
        forall|i: int|
            0 <= i < a@.len() ==> a@[i] == #[trigger] b@[i] || (a@[i] == '-' || a@[i] == '.' || a@[i] == '_')
                && (b@[i] == '-' || b@[i] == '.' || b@[i] == '_'),
    ensures
        x@ == y@ || x@ == a@ && y@ == b@,
{
    assert(unified(a@) =~= unified(b@));
}

proof fn words_add_up(a: Seq<Seq<char>>, b: Seq<Seq<char>>)
    ensures
        words_of(a + b) == words_of(a) + words_of(b),
    decreases b.len(),
{
    if b.len() == 0 {
        assert(a + b =~= a);
        assert(words_of(a) + words_of(b) =~= words_of(a));
    } else {
        words_add_up(a, b.drop_last());
        assert((a + b).drop_last() =~= a + b.drop_last());
        assert((a + b).last() == b.last());
        assert(words_of(a + b) =~= words_of(a) + words_of(b));
    }
}

/// The words of a name stand apart by one blank: a stem of two parts reads as its first
/// part, a blank, and its second part.
pub proof fn stems_read_word_by_word(a: &str, b: &str, both: &str, x: String, y: String, r: String, sep: char)
    requires
        call_ensures(humanize_filename_stem, (a,), x),
        call_ensures(humanize_filename_stem, (b,), y),
        call_ensures(humanize_filename_stem, (both,), r),
        sep == '_' || sep == '-' || sep == '.',
        both@ == a@ + seq![sep] + b@,
        words_of(split_at_char(unified(a@), '_')).len() > 0,
        words_of(split_at_char(unified(b@), '_')).len() > 0,
    ensures
        r@ == x@ + " "@ + y@,
{
    let ua = unified(a@);
    let ub = unified(b@);
    assert(unified(both@) =~= ua + seq!['_'] + ub);
    crate::text::search::splitting_adds_up(ua, ub, '_');
    let pa = split_at_char(ua, '_');
    let pb = split_at_char(ub, '_');
    words_add_up(pa, pb);
    crate::text::search::joining_adds_up(words_of(pa), words_of(pb), " "@);
}

/// A stem that is one word reads as that word.
pub proof fn single_words_read_as_words(stem: &str, r: String, word: String)
    requires
        call_ensures(humanize_filename_stem, (stem,), r),
        call_ensures(format_name_token, (stem,), word),
        stem@.len() > 0,
        forall|i: int|
            0 <= i < stem@.len() ==> '!' <= #[trigger] stem@[i] <= '~' && stem@[i] != '-' && stem@[i] != '.'
                && stem@[i] != '_',
    ensures
        r@ == word@,
        words_of(split_at_char(unified(stem@), '_')).len() > 0,
{
    let s = stem@;
    assert(unified(s) =~= s);
    crate::text::search::splitting_adds_up(s, Seq::empty(), '_');
    assert(!s.contains('_'));
    crate::text::trimming_takes_off_blanks(Seq::empty(), s, Seq::empty());
    let parts = seq![s];
    assert(split_at_char(unified(s), '_') == parts);
    assert(parts.last() == s);
    assert(parts.drop_last() =~= Seq::<Seq<char>>::empty());
    reveal_with_fuel(words_of, 2);
    assert(words_of(parts) =~= seq![name_word(s)]);
}

/// A word without digits that is no short form begins with a capital and goes on in
/// small letters.
pub proof fn other_words_begin_with_a_capital(token: &str, r: String)
    requires
        call_ensures(format_name_token, (token,), r),
        token@.len() > 0,
        forall|i: int| 0 <= i < token@.len() ==> !('0' <= #[trigger] token@[i] <= '9'),
        token@.len() != 3,
    ensures
        r@ == uppercase(token@.take(1)) + ascii_lower(token@.skip(1)),
{
    reveal_strlit("bom");
    reveal_strlit("mpn");
    reveal_strlit("eda");
    reveal_strlit("pcb");
    assert("bom"@.len() == 3 && "mpn"@.len() == 3 && "eda"@.len() == 3 && "pcb"@.len() == 3);
}

/// A list shows the share, the lines at risk, those that were not scored and the band.
pub proof fn lists_show_the_risk(analyze: &AnalyzeResult, r: (RiskScore, usize, usize, String))
    requires
        analyze.summary.red_count + analyze.summary.yellow_count <= usize::MAX,
        analyze.summary.unknown_count <= analyze.summary.total,
        call_ensures(bom_summary_fields, (analyze,), r),
    ensures
        r.0 is Share && r.0->at_risk == analyze.summary.red_count + analyze.summary.yellow_count,
        r.0->scorable == analyze.summary.total - analyze.summary.unknown_count,
        r.1 == analyze.summary.red_count + analyze.summary.yellow_count,
        r.2 == analyze.summary.unknown_count,
        analyze.summary.red_count > 0 ==> r.3@ == "Critical"@,
        analyze.summary.red_count == 0 && analyze.summary.yellow_count > 0 ==> r.3@ == "Watch"@,
{
}

} // verus!
