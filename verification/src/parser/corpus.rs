//! Reports on a batch of files.

use vstd::prelude::*;
use vstd::string::*;
use vstd::utf8::*;

use super::pipeline::{ParseResult, ParseResultView};
use crate::dynamo::viewed;
use crate::tally::{index, is_index, is_ranking, ranking, tally_views, Tally};
use crate::text::case::{lowercase, to_lowercase};
use crate::text::number::{dec_nat, usize_text};
use crate::text::search::{split_once, split_once_at};
use crate::text::{owned, same, same_opt, trim, trimmed};

verus! {

/// How a file fared.
#[derive(Debug)]
pub struct FileResult {
    pub filename: String,
    pub ext: String,
    /// How sure the mapping is, in hundredths.
    pub confidence: u32,
    pub warn_count: usize,
    pub match_label: String,
    pub error: Option<String>,
    pub headers: Vec<String>,
}

/// The content of how a file fared.
#[verifier::ext_equal]
pub struct FileResultView {
    pub filename: Seq<char>,
    pub ext: Seq<char>,
    pub confidence: u32,
    pub warn_count: usize,
    pub match_label: Seq<char>,
    pub error: Option<Seq<char>>,
    pub headers: Seq<Seq<char>>,
}

impl View for FileResult {
    type V = FileResultView;

    open spec fn view(&self) -> FileResultView {
        FileResultView {
            filename: self.filename@,
            ext: self.ext@,
            confidence: self.confidence,
            warn_count: self.warn_count,
            match_label: self.match_label@,
            error: self.error.deep_view(),
            headers: self.headers.deep_view(),
        }
    }
}

/// The contents of how files fared.
pub open spec fn file_views(results: Seq<FileResult>) -> Seq<FileResultView> {
    results.map_values(|r: FileResult| r@)
}

/// How sure a mapping must be to count as a success, in hundredths.
pub const SUCCESS: u32 = 50;

/// How sure a mapping must be not to count as a failure, in hundredths.
pub const FAILURE: u32 = 30;

/// What a file is called by how sure its mapping is.
pub open spec fn sureness_label(confidence: u32) -> Seq<char> {
    if confidence >= SUCCESS {
        "ok"@
    } else if confidence >= FAILURE {
        "low_confidence"@
    } else {
        "very_low_confidence"@
    }
}

/// What a file is called by how sure its mapping is.
pub fn confidence_label(confidence: u32) -> (r: &'static str)
    ensures
        r@ == sureness_label(confidence),
{
    if confidence >= SUCCESS {
        "ok"
    } else if confidence >= FAILURE {
        "low_confidence"
    } else {
        "very_low_confidence"
    }
}

/// How many bytes of an error are kept.
pub const ERROR_BYTES: usize = 80;

/// The first sentence of an error, trimmed.
pub open spec fn first_sentence(error: Seq<char>) -> Seq<char> {
    match split_once_at(error, '.') {
        Some((first, _)) => trimmed(first),
        None => trimmed(error),
    }
}

/// The first sentence of an error can be cut without splitting a character.
pub open spec fn can_be_cut(error: Seq<char>) -> bool {
    let bytes = encode_utf8(first_sentence(error));
    bytes.len() > ERROR_BYTES ==> is_char_boundary(bytes, ERROR_BYTES as int)
}

/// The first sentence of an error, cut to a number of bytes.
pub open spec fn short_error(error: Seq<char>) -> Seq<char> {
    let bytes = encode_utf8(first_sentence(error));
    if bytes.len() > ERROR_BYTES {
        decode_utf8(bytes.take(ERROR_BYTES as int))
    } else {
        first_sentence(error)
    }
}

fn sentence(error: &str) -> (r: String)
    ensures
        r@ == first_sentence(error@),
{
    match split_once(error, '.') {
        Some((first, _)) => trim(first.as_str()),
        None => trim(error),
    }
}

/// Whether the first sentence of an error can be cut without splitting a
/// character.
pub fn error_can_be_cut(error: &str) -> (r: bool)
    ensures
        r == can_be_cut(error@),
{
    let text = sentence(error);
    let s = text.as_str();
    s.as_bytes().len() <= ERROR_BYTES || s.is_char_boundary(ERROR_BYTES)
}

/// The first sentence of an error, cut to a number of bytes.
pub fn truncate_error(error: &str) -> (r: String)
    requires
        can_be_cut(error@),
    ensures
        r@ == short_error(error@),
{
    let text = sentence(error);
    let s = text.as_str();
    if s.as_bytes().len() > ERROR_BYTES {
        let (first, _) = s.split_at(ERROR_BYTES);
        proof {
            encode_utf8_decode_utf8(first@);
            assert(first.spec_bytes() =~= encode_utf8(s@).take(ERROR_BYTES as int));
        }
        owned(first)
    } else {
        text
    }
}

/// A number of hundredths with a dot before the last two digits.
pub open spec fn hundredths_text(n: nat) -> Seq<char> {
    dec_nat(n / 100) + "."@ + dec_nat(n / 10 % 10) + dec_nat(n % 10)
}

fn hundredths(n: u32) -> (r: String)
    ensures
        r@ == hundredths_text(n as nat),
{
    let mut s = usize_text((n / 100) as usize);
    s.append(".");
    s.append(usize_text((n / 10 % 10) as usize).as_str());
    s.append(usize_text((n % 10) as usize).as_str());
    s
}

/// A row of the table of files.
pub open spec fn table_row(r: FileResultView) -> Seq<char> {
    "| "@ + r.filename + " | "@ + hundredths_text(r.confidence as nat) + " | "@ + dec_nat(
        r.warn_count as nat,
    ) + " | "@ + r.match_label + " |\n"@
}

/// The table of files.
pub open spec fn table_text(results: Seq<FileResultView>) -> Seq<char>
    decreases results.len(),
{
    if results.len() == 0 {
        "| filename | confidence | warnings | result |\n"@ + "|---|---|---|---|\n"@
    } else {
        table_text(results.drop_last()) + table_row(results.last())
    }
}

/// The table of files.
pub fn render_table(results: &[FileResult]) -> (r: String)
    ensures
        r@ == table_text(file_views(results@)),
{
    let ghost all = file_views(results@);
    let mut out = owned("| filename | confidence | warnings | result |\n");
    out.append("|---|---|---|---|\n");
    let mut i: usize = 0;
    assert(all.take(0) =~= Seq::<FileResultView>::empty());
    while i < results.len()
        invariant
            i <= results@.len(),
            all == file_views(results@),
            out@ == table_text(all.take(i as int)),
        decreases results@.len() - i,
    {
        let result = &results[i];
        let ghost before = out@;
        assert(all.take(i + 1).drop_last() =~= all.take(i as int));
        assert(all.take(i + 1).last() == result@);
        out.append("| ");
        out.append(result.filename.as_str());
        out.append(" | ");
        out.append(hundredths(result.confidence).as_str());
        out.append(" | ");
        out.append(usize_text(result.warn_count).as_str());
        out.append(" | ");
        out.append(result.match_label.as_str());
        out.append(" |\n");
        assert(out@ =~= before + table_row(result@));
        i += 1;
    }
    assert(all.take(i as int) =~= all);
    out
}

/// The mapping is sure enough for a success.
pub open spec fn succeeded(r: FileResultView) -> bool {
    r.confidence > SUCCESS
}

/// The mapping is neither sure enough for a success nor a failure.
pub open spec fn is_unsure(r: FileResultView) -> bool {
    FAILURE <= r.confidence <= SUCCESS
}

/// The file could not be read, or its mapping is a failure.
pub open spec fn failed(r: FileResultView) -> bool {
    r.error is Some || r.confidence < FAILURE
}

/// How many files a statement is true of.
pub open spec fn count_files(results: Seq<FileResultView>, of: spec_fn(FileResultView) -> bool) -> nat
    decreases results.len(),
{
    if results.len() == 0 {
        0
    } else {
        count_files(results.drop_last(), of) + if of(results.last()) {
            1nat
        } else {
            0nat
        }
    }
}

/// How many files succeeded, were unsure, and failed.
pub open spec fn counts_of(results: Seq<FileResultView>) -> (nat, nat, nat) {
    (
        count_files(results, |r: FileResultView| succeeded(r)),
        count_files(results, |r: FileResultView| is_unsure(r)),
        count_files(results, |r: FileResultView| failed(r)),
    )
}

fn count_outcomes(results: &[FileResult]) -> (r: (usize, usize, usize))
    ensures
        (r.0 as nat, r.1 as nat, r.2 as nat) == counts_of(file_views(results@)),
{
    let ghost all = file_views(results@);
    let mut success: usize = 0;
    let mut unsure: usize = 0;
    let mut failures: usize = 0;
    let mut i: usize = 0;
    assert(all.take(0) =~= Seq::<FileResultView>::empty());
    while i < results.len()
        invariant
            i <= results@.len(),
            all == file_views(results@),
            success <= i,
            unsure <= i,
            failures <= i,
            (success as nat, unsure as nat, failures as nat) == counts_of(all.take(i as int)),
        decreases results@.len() - i,
    {
        let result = &results[i];
        assert(all.take(i + 1).drop_last() =~= all.take(i as int));
        assert(all.take(i + 1).last() == result@);
        if result.confidence > SUCCESS {
            success += 1;
        }
        if result.confidence >= FAILURE && result.confidence <= SUCCESS {
            unsure += 1;
        }
        if result.error.is_some() || result.confidence < FAILURE {
            failures += 1;
        }
        i += 1;
    }
    assert(all.take(i as int) =~= all);
    (success, unsure, failures)
}

/// The extensions of files.
pub open spec fn extensions(results: Seq<FileResultView>) -> Seq<Seq<char>> {
    results.map_values(|r: FileResultView| r.ext)
}

/// Why a file failed.
pub open spec fn failure_reason(r: FileResultView) -> Option<Seq<char>> {
    match r.error {
        Some(error) => Some(short_error(error)),
        None => if r.confidence < FAILURE {
            Some("very low mapping confidence"@)
        } else {
            None
        },
    }
}

/// Why files failed.
pub open spec fn failure_reasons(results: Seq<FileResultView>) -> Seq<Seq<char>>
    decreases results.len(),
{
    if results.len() == 0 {
        Seq::empty()
    } else {
        match failure_reason(results.last()) {
            Some(reason) => failure_reasons(results.drop_last()).push(reason),
            None => failure_reasons(results.drop_last()),
        }
    }
}

/// The headers of all files.
pub open spec fn all_headers(results: Seq<FileResultView>) -> Seq<Seq<char>>
    decreases results.len(),
{
    if results.len() == 0 {
        Seq::empty()
    } else {
        all_headers(results.drop_last()) + results.last().headers
    }
}

/// The errors of all files can be cut without splitting a character.
pub open spec fn errors_can_be_cut(results: Seq<FileResultView>) -> bool {
    forall|i: int| 0 <= i < results.len() ==> ((#[trigger] results[i]).error is Some ==> can_be_cut(
        results[i].error->0,
    ))
}

fn collect_extensions(results: &[FileResult]) -> (r: Vec<String>)
    ensures
        r.deep_view() == extensions(file_views(results@)),
{
    let mut out: Vec<String> = Vec::new();
    let mut i: usize = 0;
    while i < results.len()
        invariant
            i <= results@.len(),
            out@.len() == i,
            forall|j: int| 0 <= j < i ==> (#[trigger] out@[j])@ == results@[j].ext@,
        decreases results@.len() - i,
    {
        out.push(results[i].ext.clone());
        i += 1;
    }
    assert(out.deep_view() =~= extensions(file_views(results@)));
    out
}

fn collect_reasons(results: &[FileResult]) -> (r: Vec<String>)
    requires
        errors_can_be_cut(file_views(results@)),
    ensures
        r.deep_view() == failure_reasons(file_views(results@)),
{
    let ghost all = file_views(results@);
    let mut out: Vec<String> = Vec::new();
    let mut i: usize = 0;
    assert(all.take(0) =~= Seq::<FileResultView>::empty());
    assert(out.deep_view() =~= Seq::<Seq<char>>::empty());
    while i < results.len()
        invariant
            i <= results@.len(),
            all == file_views(results@),
            errors_can_be_cut(all),
            out.deep_view() == failure_reasons(all.take(i as int)),
        decreases results@.len() - i,
    {
        let result = &results[i];
        let ghost before = out.deep_view();
        assert(all.take(i + 1).drop_last() =~= all.take(i as int));
        assert(all.take(i + 1).last() == result@);
        assert(all[i as int] == result@);
        match &result.error {
            Some(error) => {
                let reason = truncate_error(error.as_str());
                let ghost v = reason@;
                out.push(reason);
                assert(out.deep_view() =~= before.push(v));
            },
            None => {
                if result.confidence < FAILURE {
                    let reason = owned("very low mapping confidence");
                    let ghost v = reason@;
                    out.push(reason);
                    assert(out.deep_view() =~= before.push(v));
                }
            },
        }
        i += 1;
    }
    assert(all.take(i as int) =~= all);
    out
}

fn collect_headers(results: &[FileResult]) -> (r: Vec<String>)
    ensures
        r.deep_view() == all_headers(file_views(results@)),
{
    let ghost all = file_views(results@);
    let mut out: Vec<String> = Vec::new();
    let mut i: usize = 0;
    assert(all.take(0) =~= Seq::<FileResultView>::empty());
    assert(out.deep_view() =~= Seq::<Seq<char>>::empty());
    while i < results.len()
        invariant
            i <= results@.len(),
            all == file_views(results@),
            out.deep_view() == all_headers(all.take(i as int)),
        decreases results@.len() - i,
    {
        let result = &results[i];
        let ghost before = out.deep_view();
        let ghost headers = result.headers.deep_view();
        assert(all.take(i + 1).drop_last() =~= all.take(i as int));
        assert(all.take(i + 1).last() == result@);
        let mut k: usize = 0;
        assert(before + headers.take(0) =~= before);
        while k < result.headers.len()
            invariant
                k <= result.headers@.len(),
                headers == result.headers.deep_view(),
                out.deep_view() == before + headers.take(k as int),
            decreases result.headers@.len() - k,
        {
            let ghost so_far = out.deep_view();
            out.push(result.headers[k].clone());
            assert(out.deep_view() =~= so_far.push(headers[k as int]));
            assert(headers.take(k + 1) =~= headers.take(k as int).push(headers[k as int]));
            k += 1;
            assert(out.deep_view() =~= before + headers.take(k as int));
        }
        assert(headers.take(k as int) =~= headers);
        i += 1;
    }
    assert(all.take(i as int) =~= all);
    out
}

/// A row of a table of tallies.
pub open spec fn tally_row(before: Seq<char>, t: (Seq<char>, nat), after: Seq<char>) -> Seq<char> {
    before + t.0 + after + dec_nat(t.1) + " |\n"@
}

/// The rows of a table of tallies.
pub open spec fn tally_rows(before: Seq<char>, t: Seq<(Seq<char>, nat)>, after: Seq<char>) -> Seq<char>
    decreases t.len(),
{
    if t.len() == 0 {
        Seq::empty()
    } else {
        tally_rows(before, t.drop_last(), after) + tally_row(before, t.last(), after)
    }
}

fn push_tallies(out: &mut String, before: &str, tallies: &Vec<Tally>, n: usize, after: &str)
    requires
        n <= tallies@.len(),
    ensures
        final(out)@ == old(out)@ + tally_rows(before@, tally_views(tallies@).take(n as int), after@),
{
    let ghost all = tally_views(tallies@).take(n as int);
    let ghost start = out@;
    let mut i: usize = 0;
    assert(all.take(0) =~= Seq::<(Seq<char>, nat)>::empty());
    assert(start + Seq::<char>::empty() =~= start);
    while i < n
        invariant
            i <= n <= tallies@.len(),
            all == tally_views(tallies@).take(n as int),
            out@ == start + tally_rows(before@, all.take(i as int), after@),
        decreases n - i,
    {
        let ghost so_far = out@;
        assert(all.take(i + 1).drop_last() =~= all.take(i as int));
        assert(all.take(i + 1).last() == tallies@[i as int]@);
        out.append(before);
        out.append(tallies[i].name.as_str());
        out.append(after);
        out.append(usize_text(tallies[i].count).as_str());
        out.append(" |\n");
        assert(out@ =~= so_far + tally_row(before@, tallies@[i as int]@, after@));
        i += 1;
        assert(out@ =~= start + tally_rows(before@, all.take(i as int), after@));
    }
    assert(all.take(i as int) =~= all);
}

/// How many headers a report shows.
pub const TOP_HEADERS: usize = 10;

/// How many failures a report shows.
pub const SAMPLES: usize = 5;

/// The files that could not be read, with their errors.
pub open spec fn hard_failures(results: Seq<FileResultView>) -> Seq<(Seq<char>, Seq<char>)>
    decreases results.len(),
{
    if results.len() == 0 {
        Seq::empty()
    } else {
        match results.last().error {
            Some(error) => hard_failures(results.drop_last()).push((results.last().filename, error)),
            None => hard_failures(results.drop_last()),
        }
    }
}

/// The lines on files that could not be read.
pub open spec fn sample_lines(samples: Seq<(Seq<char>, Seq<char>)>) -> Seq<char>
    decreases samples.len(),
{
    if samples.len() == 0 {
        Seq::empty()
    } else {
        sample_lines(samples.drop_last()) + ("- **"@ + samples.last().0 + "**: "@ + samples.last().1
            + "\n"@)
    }
}

/// As many from the front as a number says, or all.
pub open spec fn at_most<A>(s: Seq<A>, n: int) -> Seq<A> {
    if s.len() > n {
        s.take(n)
    } else {
        s
    }
}

/// A table's rows, or a row that says that there are none.
pub open spec fn rows_or_none(rows: Seq<char>, empty: bool) -> Seq<char> {
    if empty {
        "| *(none)* | — |\n"@
    } else {
        rows
    }
}

/// The part of a batch report on the numbers of files.
pub open spec fn batch_head(total: nat, counts: (nat, nat, nat)) -> Seq<char> {
    "# Batch Parse Results\n\n"@ + "**Total files attempted:** "@ + dec_nat(total) + "\n\n"@
        + "**Parsed successfully** (confidence > 0.5): "@ + dec_nat(counts.0) + "\n\n"@
        + "**Low confidence** (0.3–0.5): "@ + dec_nat(counts.1) + "\n\n"@
        + "**Failed** (error or confidence < 0.3): "@ + dec_nat(counts.2) + "\n\n"@
}

/// The part of a batch report on extensions.
pub open spec fn batch_extensions(exts: Seq<(Seq<char>, nat)>) -> Seq<char> {
    "## File Type Distribution\n\n"@ + "| Extension | Count |\n|---|---|\n"@ + tally_rows(
        "| ."@,
        exts,
        " | "@,
    )
}

/// The part of a batch report on why files failed.
pub open spec fn batch_reasons(reasons: Seq<(Seq<char>, nat)>) -> Seq<char> {
    "\n## Most Common Failure Reasons\n\n"@ + "| Reason | Count |\n|---|---|\n"@ + rows_or_none(
        tally_rows("| "@, reasons, " | "@),
        reasons.len() == 0,
    )
}

/// The part of a batch report on headers.
pub open spec fn batch_headers(headers: Seq<(Seq<char>, nat)>) -> Seq<char> {
    "\n## Top 10 Column Header Patterns\n\n"@ + "| Header | Files |\n|---|---|\n"@ + rows_or_none(
        tally_rows("| `"@, at_most(headers, TOP_HEADERS as int), "` | "@),
        headers.len() == 0,
    )
}

/// The part of a batch report on files that could not be read.
pub open spec fn batch_samples(results: Seq<FileResultView>) -> Seq<char> {
    "\n## Failed File Samples\n\n"@ + if hard_failures(results).len() == 0 {
        "*(no hard failures)*\n"@
    } else {
        sample_lines(at_most(hard_failures(results), SAMPLES as int))
    }
}

/// A report on a batch of files.
pub open spec fn batch_text(
    results: Seq<FileResultView>,
    exts: Seq<(Seq<char>, nat)>,
    reasons: Seq<(Seq<char>, nat)>,
    headers: Seq<(Seq<char>, nat)>,
) -> Seq<char> {
    batch_head(results.len(), counts_of(results)) + batch_extensions(exts) + batch_reasons(reasons)
        + batch_headers(headers) + batch_samples(results)
}

fn head_text(total: usize, counts: (usize, usize, usize)) -> (r: String)
    ensures
        r@ == batch_head(total as nat, (counts.0 as nat, counts.1 as nat, counts.2 as nat)),
{
    let mut md = owned("# Batch Parse Results\n\n");
    md.append("**Total files attempted:** ");
    md.append(usize_text(total).as_str());
    md.append("\n\n");
    md.append("**Parsed successfully** (confidence > 0.5): ");
    md.append(usize_text(counts.0).as_str());
    md.append("\n\n");
    md.append("**Low confidence** (0.3–0.5): ");
    md.append(usize_text(counts.1).as_str());
    md.append("\n\n");
    md.append("**Failed** (error or confidence < 0.3): ");
    md.append(usize_text(counts.2).as_str());
    md.append("\n\n");
    md
}

fn extensions_text(exts: &Vec<Tally>) -> (r: String)
    ensures
        r@ == batch_extensions(tally_views(exts@)),
{
    let mut md = owned("## File Type Distribution\n\n");
    md.append("| Extension | Count |\n|---|---|\n");
    push_tallies(&mut md, "| .", exts, exts.len(), " | ");
    assert(tally_views(exts@).take(exts@.len() as int) =~= tally_views(exts@));
    md
}

fn reasons_text(reasons: &Vec<Tally>) -> (r: String)
    ensures
        r@ == batch_reasons(tally_views(reasons@)),
{
    let mut md = owned("\n## Most Common Failure Reasons\n\n");
    md.append("| Reason | Count |\n|---|---|\n");
    if reasons.len() == 0 {
        md.append("| *(none)* | — |\n");
    } else {
        push_tallies(&mut md, "| ", reasons, reasons.len(), " | ");
        assert(tally_views(reasons@).take(reasons@.len() as int) =~= tally_views(reasons@));
    }
    md
}

fn headers_text(headers: &Vec<Tally>) -> (r: String)
    ensures
        r@ == batch_headers(tally_views(headers@)),
{
    let mut md = owned("\n## Top 10 Column Header Patterns\n\n");
    md.append("| Header | Files |\n|---|---|\n");
    if headers.len() == 0 {
        md.append("| *(none)* | — |\n");
    } else {
        let n: usize = if headers.len() > TOP_HEADERS {
            TOP_HEADERS
        } else {
            headers.len()
        };
        push_tallies(&mut md, "| `", headers, n, "` | ");
        assert(tally_views(headers@).take(n as int) =~= at_most(
            tally_views(headers@),
            TOP_HEADERS as int,
        ));
    }
    md
}

fn samples_text(results: &[FileResult]) -> (r: String)
    ensures
        r@ == batch_samples(file_views(results@)),
{
    let ghost all = file_views(results@);
    let mut md = owned("\n## Failed File Samples\n\n");
    let ghost start = md@;
    let mut shown: usize = 0;
    let mut i: usize = 0;
    proof {
        assert(all.take(0) =~= Seq::<FileResultView>::empty());
        assert(at_most(hard_failures(all.take(0)), SAMPLES as int) =~= Seq::<(Seq<char>, Seq<char>)>::empty());
        assert(start + Seq::<char>::empty() =~= start);
    }
    while i < results.len() && shown < SAMPLES
        invariant
            i <= results@.len(),
            shown <= SAMPLES,
            all == file_views(results@),
            shown == hard_failures(all.take(i as int)).len(),
            md@ == start + sample_lines(hard_failures(all.take(i as int))),
        decreases results@.len() - i,
    {
        let result = &results[i];
        let ghost before = md@;
        let ghost samples = hard_failures(all.take(i as int));
        assert(all.take(i + 1).drop_last() =~= all.take(i as int));
        assert(all.take(i + 1).last() == result@);
        if let Some(error) = &result.error {
            md.append("- **");
            md.append(result.filename.as_str());
            md.append("**: ");
            md.append(error.as_str());
            md.append("\n");
            proof {
                let more = samples.push((result.filename@, error@));
                assert(more.drop_last() =~= samples);
                assert(md@ =~= start + sample_lines(more));
            }
            shown += 1;
        }
        i += 1;
    }
    proof {
        more_failures(all, i as int, all.len() as int);
        assert(all.take(all.len() as int) =~= all);
        assert(hard_failures(all.take(i as int)) =~= at_most(hard_failures(all), SAMPLES as int));
    }
    if shown == 0 {
        assert(start + Seq::<char>::empty() =~= start);
        md.append("*(no hard failures)*\n");
    }
    md
}

proof fn more_failures(results: Seq<FileResultView>, i: int, n: int)
    requires
        0 <= i <= n <= results.len(),
    ensures
        hard_failures(results.take(i)).is_prefix_of(hard_failures(results.take(n))),
    decreases n - i,
{
    if i < n {
        more_failures(results, i, n - 1);
        assert(results.take(n).drop_last() =~= results.take(n - 1));
    }
}

/// The report on a batch of files: how many fared how, by extension, by reason of
/// failure and by header.
pub fn batch_report(results: &[FileResult]) -> (r: String)
    requires
        errors_can_be_cut(file_views(results@)),
    ensures
        exists|exts: Seq<(Seq<char>, nat)>, reasons: Seq<(Seq<char>, nat)>, headers: Seq<(Seq<char>, nat)>|
            #![trigger batch_text(file_views(results@), exts, reasons, headers)]
            {
                &&& is_index(exts, extensions(file_views(results@)))
                &&& is_ranking(reasons, failure_reasons(file_views(results@)))
                &&& is_ranking(headers, all_headers(file_views(results@)))
                &&& r@ == batch_text(file_views(results@), exts, reasons, headers)
            },
{
    let ghost all = file_views(results@);
    let exts = index(&collect_extensions(results));
    let reasons = ranking(&collect_reasons(results));
    let headers = ranking(&collect_headers(results));
    let mut md = head_text(results.len(), count_outcomes(results));
    md.append(extensions_text(&exts).as_str());
    md.append(reasons_text(&reasons).as_str());
    md.append(headers_text(&headers).as_str());
    md.append(samples_text(results).as_str());
    assert(md@ == batch_text(all, tally_views(exts@), tally_views(reasons@), tally_views(headers@)));
    md
}

/// In how many files a header must occur to be worth a name.
pub const GAP_FILES: usize = 3;

/// A name in lower case stands in some group.
pub open spec fn is_known_name(groups: Seq<Seq<Seq<char>>>, name: Seq<char>) -> bool {
    exists|g: int, k: int|
        0 <= g < groups.len() && 0 <= k < groups[g].len() && lowercase(#[trigger] groups[g][k]) == name
}

/// Occurs often and is not known.
pub open spec fn is_gap(groups: Seq<Seq<Seq<char>>>) -> spec_fn((Seq<char>, nat)) -> bool {
    |t: (Seq<char>, nat)| t.1 >= GAP_FILES && !is_known_name(groups, t.0)
}

/// A report on headers that occur often and are not known.
pub open spec fn gaps_text(gaps: Seq<(Seq<char>, nat)>) -> Seq<char> {
    "# Synonym Gaps\n\n"@
        + "Column names that appeared in 3+ files but are **not** in `synonyms.toml`.\n"@
        + "These are candidates to add as aliases.\n\n"@
        + "| Column Header | Files Seen In |\n|---|---|\n"@ + if gaps.len() == 0 {
        "| *(no gaps found)* | — |\n"@
    } else {
        tally_rows("| `"@, gaps, "` | "@)
    }
}

fn known_name(synonyms: &[Vec<String>], name: &str) -> (r: bool)
    ensures
        r == is_known_name(synonyms.deep_view(), name@),
{
    let ghost groups = synonyms.deep_view();
    let mut g: usize = 0;
    while g < synonyms.len()
        invariant
            g <= synonyms@.len(),
            groups == synonyms.deep_view(),
            forall|a: int, b: int|
                0 <= a < g && 0 <= b < groups[a].len() ==> lowercase(#[trigger] groups[a][b]) != name@,
        decreases synonyms@.len() - g,
    {
        let group = &synonyms[g];
        assert(groups[g as int] == group.deep_view());
        let mut k: usize = 0;
        while k < group.len()
            invariant
                k <= group@.len(),
                g < synonyms@.len(),
                groups == synonyms.deep_view(),
                groups[g as int] == group.deep_view(),
                forall|b: int| 0 <= b < k ==> lowercase(#[trigger] groups[g as int][b]) != name@,
            decreases group@.len() - k,
        {
            assert(groups[g as int][k as int] == group@[k as int]@);
            if same(to_lowercase(group[k].as_str()).as_str(), name) {
                return true;
            }
            k += 1;
        }
        g += 1;
    }
    false
}

/// The report on headers that occur often and are not known.
pub fn synonym_report(results: &[FileResult], synonyms: &[Vec<String>]) -> (r: String)
    ensures
        exists|headers: Seq<(Seq<char>, nat)>|
            {
                &&& #[trigger] is_ranking(headers, all_headers(file_views(results@)))
                &&& r@ == gaps_text(headers.filter(is_gap(synonyms.deep_view())))
            },
{
    let mut headers = ranking(&collect_headers(results));
    let ghost all = tally_views(headers@);
    let ghost given = headers@;
    let ghost f = is_gap(synonyms.deep_view());
    let mut gaps: Vec<Tally> = Vec::new();
    let ghost mut n: int = 0;
    proof {
        assert(given.skip(0) =~= given);
        assert(all.take(0).filter(f) =~= Seq::<(Seq<char>, nat)>::empty()) by {
            reveal(Seq::filter);
        }
    }
    while headers.len() > 0
        invariant
            0 <= n <= given.len(),
            headers@ == given.skip(n),
            all == tally_views(given),
            f == is_gap(synonyms.deep_view()),
            tally_views(gaps@) == all.take(n).filter(f),
        decreases headers@.len(),
    {
        let tally = headers.remove(0);
        let ghost before = tally_views(gaps@);
        proof {
            assert(given.skip(n)[0] == given[n]);
            assert(given.skip(n).remove(0) =~= given.skip(n + 1));
            assert(all.take(n + 1).drop_last() =~= all.take(n));
            assert(all.take(n + 1).last() == tally@);
            reveal(Seq::filter);
        }
        if tally.count >= GAP_FILES && !known_name(synonyms, tally.name.as_str()) {
            let ghost v = tally@;
            gaps.push(tally);
            assert(tally_views(gaps@) =~= before.push(v));
        }
        proof {
            n = n + 1;
        }
    }
    assert(all.take(n) =~= all);
    let mut md = owned("# Synonym Gaps\n\n");
    md.append("Column names that appeared in 3+ files but are **not** in `synonyms.toml`.\n");
    md.append("These are candidates to add as aliases.\n\n");
    md.append("| Column Header | Files Seen In |\n|---|---|\n");
    if gaps.len() == 0 {
        md.append("| *(no gaps found)* | — |\n");
    } else {
        push_tallies(&mut md, "| `", &gaps, gaps.len(), "` | ");
        assert(tally_views(gaps@).take(gaps@.len() as int) =~= tally_views(gaps@));
    }
    md
}

/// What a file is expected to give.
#[derive(Debug)]
pub struct Expected {
    pub header_row_index: usize,
    pub sheet_name: Option<String>,
    /// The headers and what they mean.
    pub column_mapping: Vec<(String, String)>,
}

/// Whether a file gave what was expected.
#[derive(Debug)]
pub enum MatchResult {
    Pass,
    Fail(Vec<String>),
}

/// What a header may be expected to mean.
pub open spec fn is_comparable(meaning: Seq<char>) -> bool {
    ||| meaning == "mpn"@
    ||| meaning == "qty"@
    ||| meaning == "reference"@
    ||| meaning == "refdes"@
    ||| meaning == "manufacturer"@
    ||| meaning == "description"@
    ||| meaning == "value"@
    ||| meaning == "footprint"@
    ||| meaning == "alternate_mpn"@
}

fn comparable(meaning: &str) -> (r: bool)
    ensures
        r == is_comparable(meaning@),
{
    same(meaning, "mpn") || same(meaning, "qty") || same(meaning, "reference") || same(
        meaning,
        "refdes",
    ) || same(meaning, "manufacturer") || same(meaning, "description") || same(meaning, "value")
        || same(meaning, "footprint") || same(meaning, "alternate_mpn")
}

/// The `Debug` form of a text.
pub uninterp spec fn quoted_text(s: Seq<char>) -> Seq<char>;

/// The `Debug` form of a text. How texts are quoted is not stated beyond the
/// name.
#[verifier::external_body]
fn quote_text(s: &str) -> (r: String)
    ensures
        r@ == quoted_text(s@),
{
    format!("{:?}", s)
}

/// The `Debug` form of an optional text.
pub open spec fn quoted_opt(s: Option<Seq<char>>) -> Seq<char> {
    match s {
        Some(text) => "Some("@ + quoted_text(text) + ")"@,
        None => "None"@,
    }
}

fn quote_opt(s: &Option<String>) -> (r: String)
    ensures
        r@ == quoted_opt(s.deep_view()),
{
    match s {
        Some(text) => {
            let mut out = owned("Some(");
            out.append(quote_text(text.as_str()).as_str());
            out.append(")");
            out
        },
        None => owned("None"),
    }
}

/// What is wrong with the header row.
pub open spec fn header_failures(got: nat, want: nat) -> Seq<Seq<char>> {
    if got == want {
        Seq::empty()
    } else {
        seq!["headerRowIndex: got "@ + dec_nat(got) + " want "@ + dec_nat(want)]
    }
}

/// What is wrong with the sheet.
pub open spec fn sheet_failures(got: Option<Seq<char>>, want: Option<Seq<char>>) -> Seq<Seq<char>> {
    if want is None || got == want {
        Seq::empty()
    } else {
        seq!["sheetName: got "@ + quoted_opt(got) + " want "@ + quoted_text(want->0)]
    }
}

/// The expected headers that mean nothing.
pub open spec fn mapping_failures(
    got: Map<Seq<char>, Seq<char>>,
    want: Seq<(Seq<char>, Seq<char>)>,
) -> Seq<Seq<char>>
    decreases want.len(),
{
    if want.len() == 0 {
        Seq::empty()
    } else {
        let before = mapping_failures(got, want.drop_last());
        if is_comparable(want.last().1) && !got.dom().contains(want.last().0) {
            before.push("missing mapping key '"@ + want.last().0 + "' → '"@ + want.last().1 + "'"@)
        } else {
            before
        }
    }
}

/// All that differs from what was expected.
pub open spec fn failures_of(
    got: ParseResultView,
    header_row_index: nat,
    sheet_name: Option<Seq<char>>,
    column_mapping: Seq<(Seq<char>, Seq<char>)>,
) -> Seq<Seq<char>> {
    header_failures(got.header_row_index, header_row_index) + sheet_failures(
        got.sheet_name,
        sheet_name,
    ) + mapping_failures(got.column_mapping, column_mapping)
}

/// Compares what a file gave with what was expected.
pub fn compare_result(result: &ParseResult, expected: &Expected) -> (r: MatchResult)
    requires
        result.column_mapping.wf(),
    ensures
        ({
            let failures = failures_of(
                result@,
                expected.header_row_index as nat,
                expected.sheet_name.deep_view(),
                expected.column_mapping.deep_view(),
            );
            match r {
                MatchResult::Pass => failures.len() == 0,
                MatchResult::Fail(messages) => failures.len() > 0 && messages.deep_view() == failures,
            }
        }),
{
    let mut failures: Vec<String> = Vec::new();
    assert(failures.deep_view() =~= Seq::<Seq<char>>::empty());
    if result.header_row_index != expected.header_row_index {
        let mut s = owned("headerRowIndex: got ");
        s.append(usize_text(result.header_row_index).as_str());
        s.append(" want ");
        s.append(usize_text(expected.header_row_index).as_str());
        failures.push(s);
    }
    let ghost heads = header_failures(
        result.header_row_index as nat,
        expected.header_row_index as nat,
    );
    assert(failures.deep_view() =~= heads);
    if let Some(want) = &expected.sheet_name {
        if !same_opt(&result.sheet_name, &expected.sheet_name) {
            let mut s = owned("sheetName: got ");
            s.append(quote_opt(&result.sheet_name).as_str());
            s.append(" want ");
            s.append(quote_text(want.as_str()).as_str());
            failures.push(s);
        }
    }
    let ghost sheets = sheet_failures(
        result.sheet_name.deep_view(),
        expected.sheet_name.deep_view(),
    );
    assert(failures.deep_view() =~= heads + sheets);
    let ghost want = expected.column_mapping.deep_view();
    let ghost got = viewed(result.column_mapping);
    let mut i: usize = 0;
    assert(want.take(0) =~= Seq::<(Seq<char>, Seq<char>)>::empty());
    assert(heads + sheets + Seq::<Seq<char>>::empty() =~= heads + sheets);
    while i < expected.column_mapping.len()
        invariant
            i <= expected.column_mapping@.len(),
            result.column_mapping.wf(),
            want == expected.column_mapping.deep_view(),
            got == viewed(result.column_mapping),
            failures.deep_view() == heads + sheets + mapping_failures(got, want.take(i as int)),
        decreases expected.column_mapping@.len() - i,
    {
        let header = expected.column_mapping[i].0.as_str();
        let meaning = expected.column_mapping[i].1.as_str();
        let ghost before = failures.deep_view();
        assert(want[i as int] == (header@, meaning@));
        assert(want.take(i + 1).drop_last() =~= want.take(i as int));
        assert(want.take(i + 1).last() == want[i as int]);
        if comparable(meaning) && !result.column_mapping.contains_key(header) {
            let mut s = owned("missing mapping key '");
            s.append(header);
            s.append("' → '");
            s.append(meaning);
            s.append("'");
            let ghost v = s@;
            failures.push(s);
            assert(failures.deep_view() =~= before.push(v));
        }
        i += 1;
        assert(failures.deep_view() =~= heads + sheets + mapping_failures(got, want.take(i as int)));
    }
    assert(want.take(i as int) =~= want);
    assert(failures@.len() == failures.deep_view().len());
    if failures.len() == 0 {
        MatchResult::Pass
    } else {
        MatchResult::Fail(failures)
    }
}

/// Every file counts as a success, as unsure or as a failure, and as one of them
/// only, where files that could not be read have no confidence.
pub proof fn outcomes_add_up(results: Seq<FileResultView>)
    requires
        forall|i: int| 0 <= i < results.len() && (#[trigger] results[i]).error is Some ==> results[i].confidence == 0,
    ensures
        ({
            let (success, unsure, failures) = counts_of(results);
            success + unsure + failures == results.len()
        }),
    decreases results.len(),
{
    if results.len() > 0 {
        let last = results.last();
        assert(results[results.len() - 1] == last);
        outcomes_add_up(results.drop_last());
    }
}

/// What a parsed file is called, and whether it passes: by how sure its mapping is
/// where nothing is compared, else by the comparison, where something is expected.
pub open spec fn verdict_on(raw_only: bool, outcome: Option<MatchResult>, confidence: u32) -> (Seq<char>, bool) {
    if raw_only {
        (sureness_label(confidence), true)
    } else {
        match outcome {
            None => ("no_expected"@, true),
            Some(MatchResult::Pass) => ("pass"@, true),
            Some(MatchResult::Fail(_)) => ("FAIL"@, false),
        }
    }
}

/// What a parsed file is called, and whether it passes.
pub fn file_verdict(raw_only: bool, outcome: &Option<MatchResult>, confidence: u32) -> (r: (String, bool))
    ensures
        (r.0@, r.1) == verdict_on(raw_only, *outcome, confidence),
{
    if raw_only {
        return (owned(confidence_label(confidence)), true);
    }
    match outcome {
        None => (owned("no_expected"), true),
        Some(MatchResult::Pass) => (owned("pass"), true),
        Some(MatchResult::Fail(_)) => (owned("FAIL"), false),
    }
}

/// What a file is called that could not be parsed, and whether it passes: where
/// nothing is compared.
pub fn unparsed_verdict(raw_only: bool, error: &str) -> (r: (String, bool))
    ensures
        r.0@ == "error: "@ + error@,
        r.1 == raw_only,
{
    let mut label = owned("error: ");
    label.append(error);
    (label, raw_only)
}

/// Half and more is fine, three tenths and more is unsure, and less is very unsure.
pub proof fn labels_follow_confidence(confidence: u32, r: &'static str)
    requires
        call_ensures(confidence_label, (confidence,), r),
    ensures
        confidence >= 50 ==> r@ == "ok"@,
        30 <= confidence < 50 ==> r@ == "low_confidence"@,
        confidence < 30 ==> r@ == "very_low_confidence"@,
{
}

/// Each file counts by its confidence: a success above half, unsure from three tenths to
/// half, and a failure below or where it could not be read.
pub proof fn files_count_by_confidence(results: Seq<FileResultView>, r: FileResultView)
    ensures
        ({
            let (a, b, c) = counts_of(results);
            let (x, y, z) = counts_of(results.push(r));
            &&& x == a + if r.confidence > 50 { 1nat } else { 0nat }
            &&& y == b + if 30 <= r.confidence <= 50 { 1nat } else { 0nat }
            &&& z == c + if r.error is Some || r.confidence < 30 { 1nat } else { 0nat }
        }),
        counts_of(Seq::empty()) == (0nat, 0nat, 0nat),
{
    assert(results.push(r).drop_last() =~= results);
    assert(results.push(r).last() == r);
}

/// A failure is told by the first sentence of its error, or as a mapping that is not sure;
/// what did not fail has no reason.
pub proof fn failures_have_reasons(r: FileResultView, first: Seq<char>, rest: Seq<char>)
    ensures
        r.error is None && r.confidence < 30 ==> failure_reason(r) == Some("very low mapping confidence"@),
        r.error is None && r.confidence >= 30 ==> failure_reason(r) is None,
        r.error is Some && r.error->0 == first + seq!['.'] + rest && !first.contains('.') && encode_utf8(
            trimmed(first),
        ).len() <= 80 ==> failure_reason(r) == Some(trimmed(first)),
        r.error is Some ==> failure_reason(r) is Some,
{
    if r.error is Some && r.error->0 == first + seq!['.'] + rest && !first.contains('.') {
        crate::text::search::first_separator_parts(first, rest, '.');
    }
}

/// A number of hundredths is written with two decimals.
pub proof fn hundredths_have_two_decimals(n: nat, d: nat, e: nat)
    requires
        d < 10,
        e < 10,
    ensures
        hundredths_text(100 * n + 10 * d + e) == dec_nat(n) + "."@ + dec_nat(d) + dec_nat(e),
{
    let m = (100 * n + 10 * d + e) as int;
    assert(m / 100 == n);
    assert(m / 10 % 10 == d);
    assert(m % 10 == e);
}

/// A table has a row for each file, in order, with its name, its confidence, its warnings
/// and how it fared.
pub proof fn tables_have_a_row_for_each_file(results: Seq<FileResultView>, r: FileResultView)
    ensures
        table_text(results.push(r)) == table_text(results) + ("| "@ + r.filename + " | "@ + hundredths_text(
            r.confidence as nat,
        ) + " | "@ + dec_nat(r.warn_count as nat) + " | "@ + r.match_label + " |\n"@),
        table_text(Seq::empty()) == "| filename | confidence | warnings | result |\n"@ + "|---|---|---|---|\n"@,
{
    assert(results.push(r).drop_last() =~= results);
    assert(results.push(r).last() == r);
}

/// A header that three files or more have and no group knows is a gap; one that is known,
/// or that fewer have, is none.
pub proof fn gaps_are_frequent_and_unknown(groups: Seq<Seq<Seq<char>>>, name: Seq<char>, n: nat, g: int, k: int)
    ensures
        n < 3 ==> !is_gap(groups)((name, n)),
        0 <= g < groups.len() && 0 <= k < groups[g].len() && lowercase(groups[g][k]) == name ==> !is_gap(groups)(
            (name, n),
        ),
        n >= 3 && (forall|x: int, y: int|
            0 <= x < groups.len() && 0 <= y < groups[x].len() ==> lowercase(#[trigger] groups[x][y]) != name) ==> is_gap(
            groups,
        )((name, n)),
{
}

/// A file passes where its header stands in the row that was expected, its sheet is the
/// expected one where one was, and every expected header means something.
pub proof fn expected_files_pass(result: &ParseResult, expected: &Expected, r: MatchResult, k: int)
    requires
        result.column_mapping.wf(),
        call_ensures(compare_result, (result, expected), r),
    ensures
        r is Pass ==> result.header_row_index == expected.header_row_index,
        r is Pass && expected.sheet_name is Some ==> result.sheet_name.deep_view() == expected.sheet_name.deep_view(),
        r is Pass && 0 <= k < expected.column_mapping@.len() && is_comparable(expected.column_mapping@[k].1@)
            ==> viewed(result.column_mapping).dom().contains(expected.column_mapping@[k].0@),
        result.header_row_index == expected.header_row_index && (expected.sheet_name is None
            || result.sheet_name.deep_view() == expected.sheet_name.deep_view()) && (forall|j: int|
            0 <= j < expected.column_mapping@.len() ==> viewed(result.column_mapping).dom().contains(
                (#[trigger] expected.column_mapping@[j]).0@,
            )) ==> r is Pass,
{
    let got = viewed(result.column_mapping);
    let want = expected.column_mapping.deep_view();
    assert(want.len() == expected.column_mapping@.len());
    if 0 <= k < expected.column_mapping@.len() {
        assert(want[k] == (expected.column_mapping@[k].0@, expected.column_mapping@[k].1@));
        missing_headers_fail(got, want, k);
    }
    if forall|j: int|
        0 <= j < expected.column_mapping@.len() ==> got.dom().contains((#[trigger] expected.column_mapping@[j]).0@) {
        assert forall|j: int| 0 <= j < want.len() implies got.dom().contains((#[trigger] want[j]).0) by {
            assert(want[j].0 == expected.column_mapping@[j].0@);
        }
        known_headers_do_not_fail(got, want);
    }
}

proof fn missing_headers_fail(got: Map<Seq<char>, Seq<char>>, want: Seq<(Seq<char>, Seq<char>)>, k: int)
    requires
        0 <= k < want.len(),
    ensures
        is_comparable(want[k].1) && !got.dom().contains(want[k].0) ==> mapping_failures(got, want).len() > 0,
    decreases want.len(),
{
    if k < want.len() - 1 {
        assert(want.drop_last()[k] == want[k]);
        missing_headers_fail(got, want.drop_last(), k);
    }
}

proof fn known_headers_do_not_fail(got: Map<Seq<char>, Seq<char>>, want: Seq<(Seq<char>, Seq<char>)>)
    requires
        forall|j: int| 0 <= j < want.len() ==> got.dom().contains((#[trigger] want[j]).0),
    ensures
        mapping_failures(got, want).len() == 0,
    decreases want.len(),
{
    if want.len() > 0 {
        let d = want.drop_last();
        assert forall|j: int| 0 <= j < d.len() implies got.dom().contains((#[trigger] d[j]).0) by {
            assert(d[j] == want[j]);
        }
        known_headers_do_not_fail(got, d);
        assert(want.last() == want[want.len() - 1]);
    }
}

/// A file that is compared fails where the comparison does, and passes where nothing was
/// expected; one that is not compared passes and is called by its confidence.
pub proof fn verdicts_follow_the_comparison(raw_only: bool, outcome: &Option<MatchResult>, confidence: u32, r: (String, bool))
    requires
        call_ensures(file_verdict, (raw_only, outcome, confidence), r),
    ensures
        raw_only ==> r.1,
        raw_only && confidence >= 50 ==> r.0@ == "ok"@,
        raw_only && confidence < 30 ==> r.0@ == "very_low_confidence"@,
        !raw_only && *outcome is None ==> r.1 && r.0@ == "no_expected"@,
        !raw_only && *outcome is Some && outcome->0 is Pass ==> r.1 && r.0@ == "pass"@,
        !raw_only && *outcome is Some && outcome->0 is Fail ==> !r.1 && r.0@ == "FAIL"@,
{
}

/// A file that could not be parsed fails where files are compared, and its error is shown.
pub proof fn unparsed_files_fail(raw_only: bool, error: &str, r: (String, bool))
    requires
        call_ensures(unparsed_verdict, (raw_only, error), r),
    ensures
        r.1 <==> raw_only,
        r.0@ == "error: "@ + error@,
{
}

/// The head of a report names all files, then those that succeeded, those that are unsure
/// and those that failed.
pub proof fn reports_begin_with_the_counts(total: nat, success: nat, unsure: nat, failures: nat)
    ensures
        batch_head(total, (success, unsure, failures)) == "# Batch Parse Results\n\n"@ + "**Total files attempted:** "@
            + dec_nat(total) + "\n\n"@ + "**Parsed successfully** (confidence > 0.5): "@ + dec_nat(success) + "\n\n"@
            + "**Low confidence** (0.3–0.5): "@ + dec_nat(unsure) + "\n\n"@
            + "**Failed** (error or confidence < 0.3): "@ + dec_nat(failures) + "\n\n"@,
{
}

/// Each file adds its extension, its headers and, where it failed, its reason and its
/// error to what a report counts.
pub proof fn reports_count_every_file(results: Seq<FileResultView>, r: FileResultView)
    ensures
        extensions(results.push(r)) == extensions(results).push(r.ext),
        all_headers(results.push(r)) == all_headers(results) + r.headers,
        r.error is Some ==> hard_failures(results.push(r)) == hard_failures(results).push((r.filename, r.error->0)),
        r.error is None ==> hard_failures(results.push(r)) == hard_failures(results),
        r.error is None && r.confidence < 30 ==> failure_reasons(results.push(r)) == failure_reasons(results).push(
            "very low mapping confidence"@,
        ),
        r.error is None && r.confidence >= 30 ==> failure_reasons(results.push(r)) == failure_reasons(results),
        r.error is Some ==> failure_reasons(results.push(r)).len() == failure_reasons(results).len() + 1,
{
    assert(results.push(r).drop_last() =~= results);
    assert(results.push(r).last() == r);
    assert(extensions(results.push(r)) =~= extensions(results).push(r.ext));
}

/// A report shows ten headers and five failures at most.
pub proof fn reports_are_short(headers: Seq<(Seq<char>, nat)>, failures: Seq<(Seq<char>, Seq<char>)>)
    ensures
        at_most(headers, 10).len() <= 10,
        headers.len() <= 10 ==> at_most(headers, 10) == headers,
        at_most(failures, 5).len() <= 5,
        failures.len() <= 5 ==> at_most(failures, 5) == failures,
        headers.len() > 0 ==> batch_headers(headers) == "\n## Top 10 Column Header Patterns\n\n"@
            + "| Header | Files |\n|---|---|\n"@ + tally_rows("| `"@, at_most(headers, 10), "` | "@),
        headers.len() == 0 ==> batch_headers(headers) == "\n## Top 10 Column Header Patterns\n\n"@
            + "| Header | Files |\n|---|---|\n"@ + "| *(none)* | — |\n"@,
{
}

/// A row of a table of tallies shows the text and how often it occurs, in order.
pub proof fn tallies_are_shown_in_order(before: Seq<char>, t: Seq<(Seq<char>, nat)>, name: Seq<char>, n: nat, after: Seq<char>)
    ensures
        tally_rows(before, t.push((name, n)), after) == tally_rows(before, t, after) + (before + name + after + dec_nat(
            n,
        ) + " |\n"@),
        tally_rows(before, Seq::empty(), after).len() == 0,
{
    assert(t.push((name, n)).drop_last() =~= t);
    assert(t.push((name, n)).last() == (name, n));
}

/// A header that is often seen and not known is in the report on gaps, with how often.
pub proof fn gaps_are_reported(gaps: Seq<(Seq<char>, nat)>)
    ensures
        gaps.len() == 0 ==> gaps_text(gaps) == "# Synonym Gaps\n\n"@
            + "Column names that appeared in 3+ files but are **not** in `synonyms.toml`.\n"@
            + "These are candidates to add as aliases.\n\n"@ + "| Column Header | Files Seen In |\n|---|---|\n"@
            + "| *(no gaps found)* | — |\n"@,
        gaps.len() > 0 ==> gaps_text(gaps) == "# Synonym Gaps\n\n"@
            + "Column names that appeared in 3+ files but are **not** in `synonyms.toml`.\n"@
            + "These are candidates to add as aliases.\n\n"@ + "| Column Header | Files Seen In |\n|---|---|\n"@
            + tally_rows("| `"@, gaps, "` | "@),
{
}

/// An error is cut to its first sentence, and that to eighty bytes.
pub proof fn errors_are_cut_to_a_sentence(error: &str, r: String, first: Seq<char>, rest: Seq<char>)
    requires
        can_be_cut(error@),
        call_ensures(truncate_error, (error,), r),
        error@ == first + seq!['.'] + rest,
        !first.contains('.'),
    ensures
        encode_utf8(trimmed(first)).len() <= 80 ==> r@ == trimmed(first),
        encode_utf8(trimmed(first)).len() > 80 ==> r@ == decode_utf8(encode_utf8(trimmed(first)).take(80)),
{
    crate::text::search::first_separator_parts(first, rest, '.');
}

/// What differs from what was expected is told with both.
pub proof fn differences_are_told(got: nat, want: nat, a: Option<Seq<char>>, b: Seq<char>)
    ensures
        got == want ==> header_failures(got, want).len() == 0,
        got != want ==> header_failures(got, want) == seq![
            "headerRowIndex: got "@ + dec_nat(got) + " want "@ + dec_nat(want),
        ],
        sheet_failures(a, None).len() == 0,
        sheet_failures(Some(b), Some(b)).len() == 0,
        a is Some && a->0 != b ==> sheet_failures(a, Some(b)) == seq![
            "sheetName: got "@ + ("Some("@ + quoted_text(a->0) + ")"@) + " want "@ + quoted_text(b),
        ],
        a is None ==> sheet_failures(a, Some(b)) == seq!["sheetName: got "@ + "None"@ + " want "@ + quoted_text(b)],
{
}

/// An expected header that means nothing is told with what it should mean, where that is
/// one of the meanings.
pub proof fn missing_headers_are_told(
    got: Map<Seq<char>, Seq<char>>,
    want: Seq<(Seq<char>, Seq<char>)>,
    header: Seq<char>,
    meaning: Seq<char>,
)
    ensures
        !got.dom().contains(header) && (meaning == "mpn"@ || meaning == "qty"@ || meaning == "reference"@ || meaning
            == "refdes"@ || meaning == "manufacturer"@ || meaning == "description"@ || meaning == "value"@ || meaning
            == "footprint"@ || meaning == "alternate_mpn"@) ==> mapping_failures(got, want.push((header, meaning)))
            == mapping_failures(got, want).push("missing mapping key '"@ + header + "' → '"@ + meaning + "'"@),
        got.dom().contains(header) ==> mapping_failures(got, want.push((header, meaning))) == mapping_failures(got, want),
{
    assert(want.push((header, meaning)).drop_last() =~= want);
    assert(want.push((header, meaning)).last() == (header, meaning));
}

} // verus!
