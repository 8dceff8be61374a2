//! Uploads: reading them, and the way from a file to an analyzed bom.

use vstd::prelude::*;
use vstd::string::*;

use super::analyze::{
    apply_tariff_results, finalize_analyze, is_finalized, merge_as, tariffed, unscored, AnalyzeResult, AnalyzeView,
    AnalyzedLine, LineView,
};
use super::clients::parser::{is_low_confidence, low_confidence, ParseResult, ParsedLine, ParsedLineView};
use super::clients::tariff::{TariffInput, TariffInputView, TariffResult};
use super::error::{gateway_error_text, AnalyzePipelineError, GatewayError};
use crate::clock::{is_clock_text, now_seconds};
use crate::http::{error_reply, refusal, Reply};
use crate::ids::{is_uuid_text, new_uuid};
use crate::json::{field, Json, JsonView};
use crate::model::enrichment::{EnrichInput, EnrichInputView, EnrichResult};
use crate::text::{copy_opt, is_blank, owned, trim};

verus! {

/// What was read of an upload so far.
#[derive(Debug)]
pub struct UploadState {
    pub file_bytes: Option<Vec<u8>>,
    pub filename: String,
    pub column_mapping: Option<Vec<(String, String)>>,
}

/// A part of an upload, or why it could not be read.
#[derive(Debug)]
pub enum UploadField {
    File { file_name: Option<String>, bytes: Result<Vec<u8>, String> },
    /// The text of a column mapping, and the mapping that it holds.
    Mapping { text: Result<String, String>, parsed: Result<Vec<(String, String)>, String> },
    Other,
    Broken(String),
}

/// A complete upload.
#[derive(Debug)]
pub struct Upload {
    pub filename: String,
    pub bytes: Vec<u8>,
    pub column_mapping: Option<Vec<(String, String)>>,
}

impl UploadState {
    /// Nothing was read yet.
    pub fn new() -> (r: Self)
        ensures
            r.filename@ == "upload.csv"@,
            r.file_bytes is None,
            r.column_mapping is None,
    {
        UploadState { file_bytes: None, filename: owned("upload.csv"), column_mapping: None }
    }

    /// Takes in a part of the upload. A blank column mapping is none.
    pub fn take_field(self, part: UploadField) -> (r: Result<Self, Reply>)
        ensures
            match part {
                UploadField::File { file_name, bytes } => match bytes {
                    Ok(bytes) => r == Ok::<Self, Reply>(
                        UploadState {
                            file_bytes: Some(bytes),
                            filename: match file_name {
                                Some(name) => name,
                                None => self.filename,
                            },
                            column_mapping: self.column_mapping,
                        },
                    ),
                    Err(error) => r is Err && r->Err_0@ == refusal(422, error@),
                },
                UploadField::Mapping { text, parsed } => match text {
                    Err(error) => r is Err && r->Err_0@ == refusal(400, error@),
                    Ok(text) => if is_blank(text@) {
                        r == Ok::<Self, Reply>(self)
                    } else {
                        match parsed {
                            Ok(mapping) => r == Ok::<Self, Reply>(
                                UploadState { column_mapping: Some(mapping), ..self },
                            ),
                            Err(error) => r is Err && r->Err_0@ == refusal(
                                400,
                                "invalid column_mapping JSON: "@ + error@,
                            ),
                        }
                    },
                },
                UploadField::Other => r == Ok::<Self, Reply>(self),
                UploadField::Broken(error) => r is Err && r->Err_0@ == refusal(400, error@),
            },
    {
        let mut state = self;
        match part {
            UploadField::File { file_name, bytes } => {
                if let Some(name) = file_name {
                    state.filename = name;
                }
                match bytes {
                    Ok(bytes) => {
                        state.file_bytes = Some(bytes);
                        Ok(state)
                    },
                    Err(error) => Err(error_reply(422, error.as_str())),
                }
            },
            UploadField::Mapping { text, parsed } => match text {
                Err(error) => Err(error_reply(400, error.as_str())),
                Ok(text) => {
                    if trim(text.as_str()).as_str().is_empty() {
                        return Ok(state);
                    }
                    match parsed {
                        Ok(mapping) => {
                            state.column_mapping = Some(mapping);
                            Ok(state)
                        },
                        Err(error) => {
                            let mut message = owned("invalid column_mapping JSON: ");
                            message.append(error.as_str());
                            Err(error_reply(400, message.as_str()))
                        },
                    }
                },
            },
            UploadField::Other => Ok(state),
            UploadField::Broken(error) => Err(error_reply(400, error.as_str())),
        }
    }

    /// The complete upload; one without a file is none.
    pub fn finish(self) -> (r: Result<Upload, Reply>)
        ensures
            match self.file_bytes {
                Some(bytes) => r == Ok::<Upload, Reply>(
                    Upload { filename: self.filename, bytes, column_mapping: self.column_mapping },
                ),
                None => r is Err && r->Err_0@ == refusal(422, "missing 'file' field"@),
            },
    {
        match self.file_bytes {
            Some(bytes) => Ok(
                Upload { filename: self.filename, bytes, column_mapping: self.column_mapping },
            ),
            None => Err(error_reply(422, "missing 'file' field")),
        }
    }
}

/// Lets a parsed file through to enrichment: the parser answered, and either the
/// user confirmed the columns or the parser is sure enough of them.
pub fn accept_parse(user_confirmed: bool, parse: Result<ParseResult, GatewayError>) -> (r: Result<
    ParseResult,
    AnalyzePipelineError,
>)
    ensures
        match parse {
            Err(error) => r == Err::<ParseResult, AnalyzePipelineError>(
                AnalyzePipelineError::Parser(error),
            ),
            Ok(parse) => if !user_confirmed && is_low_confidence(parse.mapping_confidence) {
                r == Err::<ParseResult, AnalyzePipelineError>(
                    AnalyzePipelineError::LowMappingConfidence,
                )
            } else {
                r == Ok::<ParseResult, AnalyzePipelineError>(parse)
            },
        },
{
    match parse {
        Err(error) => Err(AnalyzePipelineError::Parser(error)),
        Ok(parse) => {
            if !user_confirmed && low_confidence(parse.mapping_confidence) {
                return Err(AnalyzePipelineError::LowMappingConfidence);
            }
            Ok(parse)
        },
    }
}

/// What enrichment is asked about a parsed line.
pub open spec fn parsed_question(line: ParsedLineView) -> EnrichInputView {
    EnrichInputView {
        mpn: match line.mpn {
            Some(mpn) => mpn,
            None => Seq::empty(),
        },
        manufacturer: line.manufacturer,
    }
}

/// What enrichment is asked about parsed lines.
pub fn enrich_inputs(lines: &Vec<ParsedLine>) -> (r: Vec<EnrichInput>)
    ensures
        r@.len() == lines@.len(),
        forall|i: int| 0 <= i < r@.len() ==> (#[trigger] r@[i])@ == parsed_question(lines@[i]@),
{
    let mut out: Vec<EnrichInput> = Vec::new();
    let mut i: usize = 0;
    while i < lines.len()
        invariant
            i <= lines@.len(),
            out@.len() == i,
            forall|j: int| 0 <= j < i ==> (#[trigger] out@[j])@ == parsed_question(lines@[j]@),
        decreases lines@.len() - i,
    {
        let line = &lines[i];
        out.push(
            EnrichInput {
                mpn: match &line.mpn {
                    Some(mpn) => mpn.clone(),
                    None => String::new(),
                },
                manufacturer: copy_opt(&line.manufacturer),
            },
        );
        i += 1;
    }
    out
}

/// What the tariff service is asked about a line.
pub open spec fn tariff_question(line: LineView) -> TariffInputView {
    TariffInputView {
        mpn: match line.mpn {
            Some(mpn) => mpn,
            None => Seq::empty(),
        },
        description: line.description,
        category: line.category,
        country_of_origin: line.country_of_origin,
        manufacturer: line.manufacturer,
    }
}

/// What the tariff service is asked about lines.
pub fn tariff_inputs(lines: &Vec<AnalyzedLine>) -> (r: Vec<TariffInput>)
    ensures
        r@.len() == lines@.len(),
        forall|i: int| 0 <= i < r@.len() ==> (#[trigger] r@[i])@ == tariff_question(lines@[i]@),
{
    let mut out: Vec<TariffInput> = Vec::new();
    let mut i: usize = 0;
    while i < lines.len()
        invariant
            i <= lines@.len(),
            out@.len() == i,
            forall|j: int| 0 <= j < i ==> (#[trigger] out@[j])@ == tariff_question(lines@[j]@),
        decreases lines@.len() - i,
    {
        let line = &lines[i];
        out.push(
            TariffInput {
                mpn: match &line.mpn {
                    Some(mpn) => mpn.clone(),
                    None => String::new(),
                },
                description: copy_opt(&line.description),
                category: copy_opt(&line.category),
                country_of_origin: copy_opt(&line.country_of_origin),
                manufacturer: copy_opt(&line.manufacturer),
            },
        );
        i += 1;
    }
    out
}

/// A warning that a service failed.
pub open spec fn service_warning(code: Seq<char>, message: Seq<char>) -> JsonView {
    JsonView::Object(seq![("code"@, JsonView::Text(code)), ("message"@, JsonView::Text(message))])
}

/// Notes on a bom that a service failed; nothing else changes.
pub fn warn_of_failure(result: &mut AnalyzeResult, code: &str, error: &GatewayError)
    ensures
        final(result)@ == warned(old(result)@, code@, gateway_error_text(error@)),
{
    let ghost before = result@.warnings;
    let warning = Json::Object(
        vec![
            field("code", Json::text(code)),
            field("message", Json::text(error.message().as_str())),
        ],
    );
    assert(warning@->Object_0 =~= service_warning(code@, gateway_error_text(error@))->Object_0);
    let ghost w = warning@;
    result.warnings.push(warning);
    assert(result@.warnings =~= before.push(w));
}

/// A bom with a note that a service failed.
pub open spec fn warned(analyze: AnalyzeView, code: Seq<char>, message: Seq<char>) -> AnalyzeView {
    AnalyzeView { warnings: analyze.warnings.push(service_warning(code, message)), ..analyze }
}

/// What enrichment says, or nothing where it failed.
pub open spec fn answers_of(enrich: Result<Vec<EnrichResult>, GatewayError>) -> Seq<EnrichResult> {
    match enrich {
        Ok(answers) => answers@,
        Err(_) => Seq::empty(),
    }
}

/// A bom made from a parsed file and what enrichment says, with a note where
/// enrichment failed.
pub open spec fn is_assembled(
    after: AnalyzeView,
    parse: ParseResult,
    enrich: Result<Vec<EnrichResult>, GatewayError>,
    upload_id: Seq<char>,
    analyzed_at: Seq<char>,
) -> bool {
    exists|merged: AnalyzeView|
        {
            &&& #[trigger] is_finalized(
                unscored(parse, answers_of(enrich), upload_id, analyzed_at),
                merged,
            )
            &&& after == match enrich {
                Ok(_) => merged,
                Err(error) => warned(
                    merged,
                    "ENRICHMENT_FAILED"@,
                    gateway_error_text(error@),
                ),
            }
        }
}

/// A bom from a parsed file and what enrichment says, under that id and at that
/// time. Where enrichment failed the lines stay as they were parsed.
pub fn assemble_as(
    parse: ParseResult,
    enrich: Result<Vec<EnrichResult>, GatewayError>,
    upload_id: String,
    analyzed_at: String,
) -> (r: AnalyzeResult)
    ensures
        is_assembled(r@, parse, enrich, upload_id@, analyzed_at@),
{
    match enrich {
        Ok(answers) => merge_as(parse, &answers, upload_id, analyzed_at),
        Err(error) => {
            let none: Vec<EnrichResult> = Vec::new();
            let mut merged = merge_as(parse, &none, upload_id, analyzed_at);
            assert(none@ =~= Seq::<EnrichResult>::empty());
            warn_of_failure(&mut merged, "ENRICHMENT_FAILED", &error);
            merged
        },
    }
}

/// A bom from a parsed file and what enrichment says, under a new id.
pub fn assemble(parse: ParseResult, enrich: Result<Vec<EnrichResult>, GatewayError>) -> (r:
    AnalyzeResult)
    ensures
        is_uuid_text(r@.upload_id),
        is_assembled(r@, parse, enrich, r@.upload_id, r@.analyzed_at),
        is_clock_text(r@.analyzed_at),
{
    let upload_id = new_uuid();
    let analyzed_at = now_seconds();
    assemble_as(parse, enrich, upload_id, analyzed_at)
}

/// A bom with what the tariff service says on its lines, before they are scored
/// again.
pub open spec fn with_tariffs(analyze: AnalyzeView, results: Seq<TariffResult>) -> AnalyzeView {
    AnalyzeView {
        lines: Seq::new(
            analyze.lines.len(),
            |i: int|
                if i < results.len() {
                    tariffed(analyze.lines[i], results[i])
                } else {
                    analyze.lines[i]
                },
        ),
        ..analyze
    }
}

/// Puts what the tariff service says on a bom: nothing where there is no such
/// service, and a note where it failed.
pub fn apply_tariff_overlay(
    result: &mut AnalyzeResult,
    outcome: Option<Result<Vec<TariffResult>, GatewayError>>,
)
    ensures
        match outcome {
            None => final(result)@ == old(result)@,
            Some(Ok(results)) => is_finalized(
                with_tariffs(old(result)@, results@),
                final(result)@,
            ),
            Some(Err(error)) => final(result)@ == warned(
                old(result)@,
                "TARIFF_UNAVAILABLE"@,
                gateway_error_text(error@),
            ),
        },
{
    match outcome {
        None => {},
        Some(Ok(results)) => {
            let ghost before = result@;
            let ghost said = results@;
            apply_tariff_results(&mut result.lines, results);
            assert(result@.lines =~= with_tariffs(before, said).lines);
            finalize_analyze(result);
        },
        Some(Err(error)) => warn_of_failure(result, "TARIFF_UNAVAILABLE", &error),
    }
}

/// The file of an upload is kept with its name; an upload without a name is a CSV file,
/// and one without a file is refused.
pub proof fn uploads_hold_their_file(
    start: UploadState,
    name: Option<String>,
    bytes: Vec<u8>,
    taken: Result<UploadState, Reply>,
    done: Result<Upload, Reply>,
    empty: Result<Upload, Reply>,
)
    requires
        call_ensures(UploadState::new, (), start),
        call_ensures(
            UploadState::take_field,
            (start, UploadField::File { file_name: name, bytes: Ok::<Vec<u8>, String>(bytes) }),
            taken,
        ),
        taken is Ok ==> call_ensures(UploadState::finish, (taken->Ok_0,), done),
        call_ensures(UploadState::finish, (start,), empty),
    ensures
        taken is Ok,
        done is Ok,
        done->Ok_0.bytes == bytes,
        name is Some ==> done->Ok_0.filename@ == name->0@,
        name is None ==> done->Ok_0.filename@ == "upload.csv"@,
        done->Ok_0.column_mapping is None,
        empty is Err && empty->Err_0@.status == 422,
{
}

/// Taking in a column mapping or another part leaves the file as it is; a mapping is kept,
/// a blank one is none, and one that cannot be read is refused.
pub proof fn uploads_hold_their_mapping(
    state: UploadState,
    text: String,
    parsed: Result<Vec<(String, String)>, String>,
    r: Result<UploadState, Reply>,
    other: Result<UploadState, Reply>,
)
    requires
        call_ensures(
            UploadState::take_field,
            (state, UploadField::Mapping { text: Ok::<String, String>(text), parsed }),
            r,
        ),
        call_ensures(UploadState::take_field, (state, UploadField::Other), other),
    ensures
        r is Ok ==> r->Ok_0.file_bytes == state.file_bytes && r->Ok_0.filename == state.filename,
        is_blank(text@) ==> r is Ok && r->Ok_0.column_mapping == state.column_mapping,
        !is_blank(text@) && parsed is Ok ==> r is Ok && r->Ok_0.column_mapping == Some(parsed->Ok_0),
        !is_blank(text@) && parsed is Err ==> r is Err && r->Err_0@.status == 400,
        other == Ok::<UploadState, Reply>(state),
{
}

/// A part that cannot be read is refused: a file as a bad file, anything else as a bad
/// request.
pub proof fn broken_parts_are_refused(
    state: UploadState,
    name: Option<String>,
    error: String,
    a: Result<UploadState, Reply>,
    b: Result<UploadState, Reply>,
)
    requires
        call_ensures(
            UploadState::take_field,
            (state, UploadField::File { file_name: name, bytes: Err::<Vec<u8>, String>(error) }),
            a,
        ),
        call_ensures(UploadState::take_field, (state, UploadField::Broken(error)), b),
    ensures
        a is Err && a->Err_0@.status == 422,
        b is Err && b->Err_0@.status == 400,
{
}

/// A parsed file goes on where the columns are sure (three tenths or more, by the bit
/// patterns of such numbers) or were confirmed, and then as it is.
pub proof fn sure_files_go_on(
    confirmed: bool,
    parse: Result<ParseResult, GatewayError>,
    r: Result<ParseResult, AnalyzePipelineError>,
)
    requires
        call_ensures(accept_parse, (confirmed, parse), r),
    ensures
        parse is Err ==> r is Err && r->Err_0 is Parser && r->Err_0->Parser_0 == parse->Err_0,
        parse is Ok && confirmed ==> r is Ok,
        parse is Ok && 0x3e99_999a <= parse->Ok_0.mapping_confidence <= 0x7f80_0000 ==> r is Ok,
        parse is Ok && !confirmed && parse->Ok_0.mapping_confidence < 0x3e99_999a ==> r is Err
            && r->Err_0 is LowMappingConfidence,
        r is Ok ==> r->Ok_0 == parse->Ok_0,
{
}

/// Enrichment is asked about each line in turn: its part and its manufacturer.
pub proof fn each_line_is_looked_up(lines: &Vec<ParsedLine>, r: Vec<EnrichInput>, i: int)
    requires
        call_ensures(enrich_inputs, (lines,), r),
        0 <= i < lines@.len(),
    ensures
        r@.len() == lines@.len(),
        lines@[i]@.mpn is Some ==> r@[i]@.mpn == lines@[i]@.mpn->0,
        lines@[i]@.mpn is None ==> r@[i]@.mpn.len() == 0,
        r@[i]@.manufacturer == lines@[i]@.manufacturer,
{
    assert(r@[i]@ == parsed_question(lines@[i]@));
}

/// The tariff service is asked about each line in turn, with all that it classifies by.
pub proof fn each_line_is_classified(lines: &Vec<AnalyzedLine>, r: Vec<TariffInput>, i: int)
    requires
        call_ensures(tariff_inputs, (lines,), r),
        0 <= i < lines@.len(),
    ensures
        r@.len() == lines@.len(),
        lines@[i]@.mpn is Some ==> r@[i]@.mpn == lines@[i]@.mpn->0,
        lines@[i]@.mpn is None ==> r@[i]@.mpn.len() == 0,
        r@[i]@.description == lines@[i]@.description,
        r@[i]@.category == lines@[i]@.category,
        r@[i]@.country_of_origin == lines@[i]@.country_of_origin,
        r@[i]@.manufacturer == lines@[i]@.manufacturer,
{
    assert(r@[i]@ == tariff_question(lines@[i]@));
}

/// A bom holds every line of the file, under its id and time, whether or not enrichment
/// answered; where it did not, a warning is added that says so, and none otherwise.
pub proof fn files_become_boms(
    parse: ParseResult,
    enrich: Result<Vec<EnrichResult>, GatewayError>,
    upload_id: String,
    at: String,
    r: AnalyzeResult,
    i: int,
)
    requires
        call_ensures(assemble_as, (parse, enrich, upload_id, at), r),
    ensures
        r@.upload_id == upload_id@,
        r@.analyzed_at == at@,
        r@.source_filename == parse.source_filename@,
        r@.lines.len() == parse.lines@.len(),
        r@.summary.total == parse.lines@.len(),
        enrich is Ok ==> r@.warnings.len() == parse.warnings@.len(),
        enrich is Err ==> r@.warnings.len() == parse.warnings@.len() + 1 && r@.warnings.last() == JsonView::Object(
            seq![
                ("code"@, JsonView::Text("ENRICHMENT_FAILED"@)),
                ("message"@, JsonView::Text(gateway_error_text(enrich->Err_0@))),
            ],
        ),
        0 <= i < parse.lines@.len() ==> r@.lines[i].mpn == parse.lines@[i]@.mpn && r@.lines[i].quantity
            == parse.lines@[i]@.quantity && r@.lines[i].refdes == parse.lines@[i]@.refdes && r@.lines[i].description
            == parse.lines@[i]@.description,
{
    let before = unscored(parse, answers_of(enrich), upload_id@, at@);
    let merged = choose|merged: AnalyzeView|
        {
            &&& #[trigger] is_finalized(before, merged)
            &&& r@ == match enrich {
                Ok(_) => merged,
                Err(error) => warned(merged, "ENRICHMENT_FAILED"@, gateway_error_text(error@)),
            }
        };
    assert(is_finalized(before, merged));
    if 0 <= i < parse.lines@.len() {
        crate::gateway::analyze::merged_lines_keep_both(parse, answers_of(enrich), upload_id@, at@, merged, i);
    }
    assert(merged.lines.len() == before.lines.len());
}

/// Each answer of the tariff service lands on its line; lines beyond its answers, and
/// what else is known of a line, stay.
pub proof fn tariffs_land_in_order(analyze: AnalyzeView, results: Seq<TariffResult>, after: AnalyzeView, i: int)
    requires
        is_finalized(with_tariffs(analyze, results), after),
        0 <= i < analyze.lines.len(),
    ensures
        after.lines.len() == analyze.lines.len(),
        after.upload_id == analyze.upload_id,
        after.warnings == analyze.warnings,
        after.lines[i].mpn == analyze.lines[i].mpn,
        after.lines[i].availability_status == analyze.lines[i].availability_status,
        i < results.len() ==> after.lines[i].tariff_confidence == Some(results[i].confidence@)
            && after.lines[i].hts_code == results[i].hts_code.deep_view(),
        i >= results.len() ==> after.lines[i] == (LineView {
            risk_level: after.lines[i].risk_level,
            ..analyze.lines[i]
        }),
{
}

/// A warning is added at the end and nothing else changes.
pub proof fn warnings_are_added(analyze: AnalyzeView, code: Seq<char>, message: Seq<char>)
    ensures
        ({
            let after = warned(analyze, code, message);
            &&& after.lines == analyze.lines
            &&& after.summary == analyze.summary
            &&& after.top_risks == analyze.top_risks
            &&& after.upload_id == analyze.upload_id
            &&& after.warnings.len() == analyze.warnings.len() + 1
            &&& after.warnings.drop_last() == analyze.warnings
            &&& crate::json::get_view(after.warnings.last(), "code"@) == Some(JsonView::Text(code))
            &&& crate::json::get_view(after.warnings.last(), "message"@) == Some(JsonView::Text(message))
        }),
{
    let after = warned(analyze, code, message);
    assert(after.warnings.drop_last() =~= analyze.warnings);
    let f = after.warnings.last()->Object_0;
    reveal_strlit("code");
    reveal_strlit("message");
    assert("code"@.len() == 4);
    assert("message"@.len() == 7);
    crate::json::first_field_is_found(f, "code"@, 0);
    crate::json::first_field_is_found(f, "message"@, 1);
}

/// Where there is no tariff service nothing changes; where it failed only a warning is
/// added; and what it says lands on the lines.
pub proof fn tariffs_are_overlaid(
    result: &mut AnalyzeResult,
    outcome: Option<Result<Vec<TariffResult>, GatewayError>>,
    i: int,
)
    requires
        call_ensures(apply_tariff_overlay, (result, outcome), ()),
    ensures
        outcome is None ==> final(result)@ == old(result)@,
        outcome is Some && outcome->0 is Err ==> final(result)@.lines == old(result)@.lines && final(result)@.warnings.len()
            == old(result)@.warnings.len() + 1 && final(result)@.warnings.last() == JsonView::Object(
            seq![
                ("code"@, JsonView::Text("TARIFF_UNAVAILABLE"@)),
                ("message"@, JsonView::Text(gateway_error_text(outcome->0->Err_0@))),
            ],
        ),
        outcome is Some && outcome->0 is Ok && 0 <= i < old(result)@.lines.len() ==> ({
            let answers = outcome->0->Ok_0@;
            let line = final(result)@.lines[i];
            &&& final(result)@.lines.len() == old(result)@.lines.len()
            &&& line.mpn == old(result)@.lines[i].mpn
            &&& i < answers.len() ==> line.tariff_confidence == Some(answers[i].confidence@) && line.rate_basis == Some(
                answers[i].rate_basis@,
            )
            &&& i >= answers.len() ==> line.tariff_confidence == old(result)@.lines[i].tariff_confidence
        }),
{
    if outcome is Some && outcome->0 is Ok && 0 <= i < old(result)@.lines.len() {
        tariffs_land_in_order(old(result)@, outcome->0->Ok_0@, final(result)@, i);
    }
}

} // verus!
