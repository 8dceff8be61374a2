//! What requests about boms may do and are answered.

use vstd::prelude::*;
use vstd::string::*;
use vstd::utf8::*;

use super::briefs::{attach_line_briefs, attached, is_due, line_key, needs_brief_refresh, BriefMap, LineBriefs};
use super::daily_refresh::line_question;
use super::flagged::{item_views, FlaggedItemView, FlaggedLines};
use super::store::{store_error_text, StoreError, StoreErrorView};
use super::types::{BomRecord, BomRecordView};
use crate::dynamo::viewed;
use crate::gateway::agent_brief::is_pending;
use crate::gateway::analyze::{finalize_analyze, is_finalized, AnalyzeResult, AnalyzeView, AnalyzedLine, LineView};
use crate::http::{error_reply, refusal, Reply, ReplyView};
use crate::json::{field, Json, JsonView};
use crate::model::enrichment::{EnrichInput, EnrichInputView};
use crate::strmap::StrMap;
use crate::text::case::eq_ignore_ascii_case;
use crate::text::{copy_opt, is_blank, owned, to_chars, trim};

verus! {

/// Which boms a list shows.
#[derive(Debug)]
pub struct ListBomsQuery {
    pub limit: Option<u32>,
    pub next_token: Option<String>,
}

/// All lines of a bom anew.
#[derive(Debug)]
pub struct PutBomBody {
    pub version: u64,
    pub lines: Vec<AnalyzedLine>,
}

/// The version that a change was made to.
#[derive(Debug, Clone, Copy, PartialEq, Eq, Structural)]
pub struct VersionQuery {
    pub version: u64,
}

/// An ASCII letter or digit, a dash or an underscore.
pub open spec fn is_id_char(c: char) -> bool {
    ('a' <= c <= 'z') || ('A' <= c <= 'Z') || ('0' <= c <= '9') || c == '-' || c == '_'
}

/// A bom's id is a part of storage keys: at most 64 letters, digits, dashes and
/// underscores, and at least one.
pub open spec fn is_bom_id(value: Seq<char>) -> bool {
    &&& value.len() > 0
    &&& encode_utf8(value).len() <= 64
    &&& forall|i: int| 0 <= i < value.len() ==> is_id_char(#[trigger] value[i])
}

/// Whether a text can be a bom's id.
pub fn is_valid_bom_id(value: &str) -> (r: bool)
    ensures
        r == is_bom_id(value@),
{
    if value.is_empty() || value.as_bytes().len() > 64 {
        return false;
    }
    let chars = to_chars(value);
    let mut i: usize = 0;
    while i < chars.len()
        invariant
            i <= chars@.len(),
            chars@ == value@,
            value@.len() > 0,
            encode_utf8(value@).len() <= 64,
            forall|j: int| 0 <= j < i ==> is_id_char(#[trigger] value@[j]),
        decreases chars@.len() - i,
    {
        let c: char = chars[i];
        if !((c >= 'a' && c <= 'z') || (c >= 'A' && c <= 'Z') || (c >= '0' && c <= '9') || c == '-'
            || c == '_') {
            assert(!is_id_char(value@[i as int]));
            return false;
        }
        i += 1;
    }
    true
}

/// A valid id has no path separators and leads nowhere else.
pub proof fn bom_id_is_one_segment(value: Seq<char>)
    requires
        is_bom_id(value),
    ensures
        !value.contains('/'),
        !value.contains('\\'),
        !value.contains('.'),
{
    if value.contains('/') {
        let i = choose|i: int| 0 <= i < value.len() && value[i] == '/';
        assert(is_id_char(value[i]));
    }
    if value.contains('\\') {
        let i = choose|i: int| 0 <= i < value.len() && value[i] == '\\';
        assert(is_id_char(value[i]));
    }
    if value.contains('.') {
        let i = choose|i: int| 0 <= i < value.len() && value[i] == '.';
        assert(is_id_char(value[i]));
    }
}

/// What was read of an upload so far.
#[derive(Debug)]
pub struct BomUploadState {
    pub filename: String,
    pub file_bytes: Option<Vec<u8>>,
    pub content_type: Option<String>,
    pub analyze: Option<AnalyzeResult>,
    pub name: Option<String>,
}

/// A part of an upload, or why it could not be read.
#[derive(Debug)]
pub enum BomUploadField {
    File { file_name: Option<String>, content_type: Option<String>, bytes: Result<Vec<u8>, String> },
    /// The text, and the bom that it holds if it holds one.
    Analyze { parsed: Result<Option<AnalyzeResult>, String> },
    Name { text: Option<String> },
    Other,
    Broken(String),
}

/// A complete upload.
#[derive(Debug)]
pub struct BomUpload {
    pub filename: String,
    pub file_bytes: Vec<u8>,
    pub content_type: Option<String>,
    pub analyze: AnalyzeResult,
    pub name: Option<String>,
}

impl BomUploadState {
    /// Nothing was read yet.
    pub fn new() -> (r: Self)
        ensures
            r.filename@ == "upload.csv"@,
            r.file_bytes is None,
            r.content_type is None,
            r.analyze is None,
            r.name is None,
    {
        BomUploadState {
            filename: owned("upload.csv"),
            file_bytes: None,
            content_type: None,
            analyze: None,
            name: None,
        }
    }

    /// Takes in a part of the upload.
    pub fn take_field(self, part: BomUploadField) -> (r: Result<Self, Reply>)
        ensures
            match part {
                BomUploadField::File { file_name, content_type, bytes } => match bytes {
                    Ok(bytes) => {
                        &&& r is Ok
                        &&& r->Ok_0.filename == match file_name {
                            Some(name) => name,
                            None => self.filename,
                        }
                        &&& r->Ok_0.content_type == content_type
                        &&& r->Ok_0.file_bytes == Some(bytes)
                        &&& r->Ok_0.analyze == self.analyze
                        &&& r->Ok_0.name == self.name
                    },
                    Err(error) => r is Err && r->Err_0@ == refusal(422, error@),
                },
                BomUploadField::Analyze { parsed } => match parsed {
                    Ok(analyze) => r == Ok::<Self, Reply>(BomUploadState { analyze, ..self }),
                    Err(error) => r is Err && r->Err_0@ == refusal(422, error@),
                },
                BomUploadField::Name { text } => r == Ok::<Self, Reply>(
                    BomUploadState { name: text, ..self },
                ),
                BomUploadField::Other => r == Ok::<Self, Reply>(self),
                BomUploadField::Broken(error) => r is Err && r->Err_0@ == refusal(400, error@),
            },
    {
        let mut state = self;
        match part {
            BomUploadField::File { file_name, content_type, bytes } => {
                if let Some(name) = file_name {
                    state.filename = name;
                }
                state.content_type = content_type;
                match bytes {
                    Ok(bytes) => {
                        state.file_bytes = Some(bytes);
                        Ok(state)
                    },
                    Err(error) => Err(error_reply(422, error.as_str())),
                }
            },
            BomUploadField::Analyze { parsed } => match parsed {
                Ok(analyze) => {
                    state.analyze = analyze;
                    Ok(state)
                },
                Err(error) => Err(error_reply(422, error.as_str())),
            },
            BomUploadField::Name { text } => {
                state.name = text;
                Ok(state)
            },
            BomUploadField::Other => Ok(state),
            BomUploadField::Broken(error) => Err(error_reply(400, error.as_str())),
        }
    }

    /// Why what was read is no complete upload.
    pub open spec fn fault(self) -> Option<ReplyView> {
        if self.file_bytes is None {
            Some(refusal(422, "missing 'file' field"@))
        } else if self.analyze is None || !is_bom_id(self.analyze->0@.upload_id) {
            Some(refusal(422, "missing or invalid 'analyze' field"@))
        } else {
            None
        }
    }

    /// The complete upload. The scores and the counts are taken from its lines,
    /// not from what was sent.
    pub fn finish(self) -> (r: Result<BomUpload, Reply>)
        ensures
            match self.fault() {
                Some(reply) => r is Err && r->Err_0@ == reply,
                None => {
                    &&& r is Ok
                    &&& r->Ok_0.filename == self.filename
                    &&& r->Ok_0.file_bytes == self.file_bytes->0
                    &&& r->Ok_0.content_type == self.content_type
                    &&& r->Ok_0.name == self.name
                    &&& is_finalized(self.analyze->0@, r->Ok_0.analyze@)
                },
            },
    {
        let file_bytes = match self.file_bytes {
            Some(bytes) => bytes,
            None => {
                return Err(error_reply(422, "missing 'file' field"));
            },
        };
        let mut analyze = match self.analyze {
            Some(analyze) => analyze,
            None => {
                return Err(error_reply(422, "missing or invalid 'analyze' field"));
            },
        };
        if !is_valid_bom_id(analyze.upload_id.as_str()) {
            return Err(error_reply(422, "missing or invalid 'analyze' field"));
        }
        finalize_analyze(&mut analyze);
        Ok(
            BomUpload {
                filename: self.filename,
                file_bytes,
                content_type: self.content_type,
                analyze,
                name: self.name,
            },
        )
    }
}

/// A refusal with what went wrong in storage.
pub open spec fn detailed_refusal(status: u16, error: Seq<char>, detail: Seq<char>) -> ReplyView {
    ReplyView {
        status,
        body: JsonView::Object(
            seq![("error"@, JsonView::Text(error)), ("detail"@, JsonView::Text(detail))],
        ),
    }
}

fn detailed_reply(status: u16, error: &str, detail: &str) -> (r: Reply)
    ensures
        r@ == detailed_refusal(status, error@, detail@),
{
    let r = Reply {
        status,
        body: Json::Object(
            vec![field("error", Json::text(error)), field("detail", Json::text(detail))],
        ),
    };
    assert(r.body@->Object_0 =~= detailed_refusal(status, error@, detail@).body->Object_0);
    r
}

/// What is answered when a bom could not be changed.
pub open spec fn mutation_reply(error: StoreErrorView) -> ReplyView {
    match error {
        StoreErrorView::NotFound => refusal(404, "BOM not found"@),
        StoreErrorView::Conflict => refusal(
            409,
            "this BOM was updated elsewhere, refresh to see the latest"@,
        ),
        StoreErrorView::LineNotFound => refusal(404, "line not found"@),
        StoreErrorView::Write(detail) => detailed_refusal(
            500,
            "failed to save BOM changes"@,
            detail,
        ),
        StoreErrorView::Read(detail) => detailed_refusal(
            500,
            "failed to read BOM before save"@,
            detail,
        ),
    }
}

/// What is answered when a bom could not be changed.
pub fn mutation_error_response(error: StoreError) -> (r: Reply)
    ensures
        r@ == mutation_reply(error@),
{
    match error {
        StoreError::NotFound => error_reply(404, "BOM not found"),
        StoreError::Conflict => error_reply(
            409,
            "this BOM was updated elsewhere, refresh to see the latest",
        ),
        StoreError::LineNotFound => error_reply(404, "line not found"),
        StoreError::Write(detail) => detailed_reply(
            500,
            "failed to save BOM changes",
            detail.as_str(),
        ),
        StoreError::Read(detail) => detailed_reply(
            500,
            "failed to read BOM before save",
            detail.as_str(),
        ),
    }
}

/// Whether a failure to change a bom is to be found in the log: storage failed.
pub fn is_write_failure(error: &StoreError) -> (r: bool)
    ensures
        r == (error@ is Write || error@ is Read),
{
    matches!(error, StoreError::Write(_) | StoreError::Read(_))
}

/// What is answered when a bom could not be read or deleted.
pub open spec fn access_reply(error: StoreErrorView) -> ReplyView {
    match error {
        StoreErrorView::NotFound => refusal(404, "BOM not found"@),
        _ => refusal(500, store_error_text(error)),
    }
}

/// What is answered when a bom could not be read or deleted.
pub fn access_error_response(error: StoreError) -> (r: Reply)
    ensures
        r@ == access_reply(error@),
{
    match error {
        StoreError::NotFound => error_reply(404, "BOM not found"),
        other => store_error_response(other),
    }
}

/// What is answered when storage failed.
pub fn store_error_response(error: StoreError) -> (r: Reply)
    ensures
        r@ == refusal(500, store_error_text(error@)),
{
    error_reply(500, error.message().as_str())
}

/// What enrichment is asked after a line was changed: nothing, unless its part
/// has a number and is still to be looked up.
pub open spec fn follow_up(line: LineView) -> Option<EnrichInputView> {
    if line.mpn is Some && !is_blank(line.mpn->0) && is_pending(line) {
        Some(line_question(line))
    } else {
        None
    }
}

/// What enrichment is asked after a line was changed.
pub fn line_enrichment(line: &AnalyzedLine) -> (r: Option<EnrichInput>)
    ensures
        match follow_up(line@) {
            Some(q) => r is Some && r->0@ == q,
            None => r is None,
        },
{
    let mpn = match &line.mpn {
        Some(mpn) => mpn.clone(),
        None => {
            return None;
        },
    };
    if trim(mpn.as_str()).as_str().is_empty() {
        return None;
    }
    if !eq_ignore_ascii_case(line.availability_status.as_str(), "pending") && !eq_ignore_ascii_case(
        line.match_status.as_str(),
        "pending",
    ) {
        return None;
    }
    Some(EnrichInput { mpn, manufacturer: copy_opt(&line.manufacturer) })
}

/// Whether briefs are to be written for a bom that is shown: its overlay changed,
/// or some flagged line's brief is missing or out of date.
pub fn briefs_due(overlay_changed: bool, lines: &Vec<AnalyzedLine>, briefs: &LineBriefs) -> (r: bool)
    requires
        briefs.wf(),
    ensures
        r == (overlay_changed || exists|i: int|
            0 <= i < lines@.len() && is_due((#[trigger] lines@[i])@, briefs@)),
{
    overlay_changed || needs_brief_refresh(lines, briefs)
}

/// A bom as it is shown: with the briefs on its lines.
pub open spec fn shown_record(record: BomRecordView, briefs: BriefMap) -> BomRecordView {
    BomRecordView {
        analyze: AnalyzeView {
            lines: record.analyze.lines.map_values(|l: LineView| attached(l, briefs)),
            top_risks: record.analyze.top_risks.map_values(|l: LineView| attached(l, briefs)),
            ..record.analyze
        },
        ..record
    }
}

/// Puts the briefs on a bom that is shown.
pub fn show_briefs(record: &mut BomRecord, briefs: &LineBriefs)
    requires
        briefs.wf(),
    ensures
        final(record)@ == shown_record(old(record)@, briefs@),
{
    attach_line_briefs(&mut record.analyze.lines, briefs);
    attach_line_briefs(&mut record.analyze.top_risks, briefs);
}

/// The briefs of a bom; none where there are none.
pub open spec fn briefs_of(briefs: Map<Seq<char>, BriefMap>, bom_id: Seq<char>) -> BriefMap {
    if briefs.dom().contains(bom_id) {
        briefs[bom_id]
    } else {
        Map::empty()
    }
}

/// A line at risk with the brief that its bom has for it.
pub open spec fn shown_item(item: FlaggedItemView, briefs: Map<Seq<char>, BriefMap>) -> FlaggedItemView {
    FlaggedItemView { line: attached(item.line, briefs_of(briefs, item.bom_id)), ..item }
}

/// Puts the briefs of each bom on its lines at risk.
pub fn show_flagged_briefs(flagged: &mut FlaggedLines, briefs: &StrMap<LineBriefs>)
    requires
        briefs.wf(),
        forall|k: Seq<char>| #[trigger] briefs@.dom().contains(k) ==> briefs@[k].wf(),
    ensures
        final(flagged).account_id == old(flagged).account_id,
        item_views(final(flagged).items@) == item_views(old(flagged).items@).map_values(
            |i: FlaggedItemView| shown_item(i, viewed(*briefs)),
        ),
{
    let ghost before = item_views(flagged.items@);
    let mut i: usize = 0;
    while i < flagged.items.len()
        invariant
            i <= flagged.items@.len(),
            briefs.wf(),
            forall|k: Seq<char>| #[trigger] briefs@.dom().contains(k) ==> briefs@[k].wf(),
            flagged.account_id == old(flagged).account_id,
            flagged.items@.len() == before.len(),
            forall|j: int|
                0 <= j < i ==> (#[trigger] flagged.items@[j])@ == shown_item(
                    before[j],
                    viewed(*briefs),
                ),
            forall|j: int| i <= j < flagged.items@.len() ==> (#[trigger] flagged.items@[j])@ == before[j],
        decreases flagged.items@.len() - i,
    {
        if let Some(own) = briefs.get(flagged.items[i].bom_id.as_str()) {
            let key = line_key(flagged.items[i].line.row_index);
            if let Some(brief) = own.get(key.as_str()) {
                if !brief.text.as_str().is_empty() {
                    let text = brief.text.clone();
                    flagged.items[i].line.agent_brief = Some(text);
                }
            }
        }
        i += 1;
    }
    assert(item_views(flagged.items@) =~= before.map_values(
        |i: FlaggedItemView| shown_item(i, viewed(*briefs)),
    ));
}

/// An id is letters, digits, dashes and underscores, at least one of them; nothing with a
/// blank, a slash, a dot or another sign is an id.
pub proof fn ids_are_plain(value: &str, r: bool, i: int)
    requires
        call_ensures(is_valid_bom_id, (value,), r),
    ensures
        value@.len() == 0 ==> !r,
        r && 0 <= i < value@.len() ==> {
            ||| 'a' <= value@[i] <= 'z'
            ||| 'A' <= value@[i] <= 'Z'
            ||| '0' <= value@[i] <= '9'
            ||| value@[i] == '-'
            ||| value@[i] == '_'
        },
        value@.len() > 64 ==> !r,
        0 < value@.len() <= 64 && (forall|k: int|
            0 <= k < value@.len() ==> ('a' <= #[trigger] value@[k] <= 'z') || ('A' <= value@[k] <= 'Z') || ('0'
                <= value@[k] <= '9') || value@[k] == '-' || value@[k] == '_') ==> r,
{
    if forall|k: int| 0 <= k < value@.len() ==> is_id_char(#[trigger] value@[k]) {
        assert(is_ascii_chars(value@));
        is_ascii_chars_encode_utf8(value@);
    }
}

/// An upload holds its file with its name and type, the analyzed bom and the name that it
/// was given, whatever order they come in.
pub proof fn bom_uploads_hold_their_parts(
    state: BomUploadState,
    name: Option<String>,
    kind: Option<String>,
    bytes: Vec<u8>,
    text: Option<String>,
    analyze: Option<AnalyzeResult>,
    a: Result<BomUploadState, Reply>,
    b: Result<BomUploadState, Reply>,
    c: Result<BomUploadState, Reply>,
    d: Result<BomUploadState, Reply>,
)
    requires
        call_ensures(
            BomUploadState::take_field,
            (state, BomUploadField::File { file_name: name, content_type: kind, bytes: Ok::<Vec<u8>, String>(bytes) }),
            a,
        ),
        call_ensures(BomUploadState::take_field, (state, BomUploadField::Name { text }), b),
        call_ensures(
            BomUploadState::take_field,
            (state, BomUploadField::Analyze { parsed: Ok::<Option<AnalyzeResult>, String>(analyze) }),
            c,
        ),
        call_ensures(BomUploadState::take_field, (state, BomUploadField::Other), d),
    ensures
        a is Ok && a->Ok_0.file_bytes == Some(bytes) && a->Ok_0.content_type == kind && a->Ok_0.name == state.name
            && a->Ok_0.analyze == state.analyze,
        name is Some ==> a->Ok_0.filename == name->0,
        name is None ==> a->Ok_0.filename == state.filename,
        b is Ok && b->Ok_0.name == text && b->Ok_0.file_bytes == state.file_bytes && b->Ok_0.filename == state.filename
            && b->Ok_0.analyze == state.analyze && b->Ok_0.content_type == state.content_type,
        c is Ok && c->Ok_0.analyze == analyze && c->Ok_0.file_bytes == state.file_bytes && c->Ok_0.filename
            == state.filename && c->Ok_0.name == state.name && c->Ok_0.content_type == state.content_type,
        d == Ok::<BomUploadState, Reply>(state),
{
}

/// An upload needs its file and an analyzed bom with a proper id. Its risks and counts are
/// taken from its lines anew: a grave line is red, whatever was sent.
pub proof fn bom_uploads_are_scored_anew(state: BomUploadState, r: Result<BomUpload, Reply>, i: int)
    requires
        call_ensures(BomUploadState::finish, (state,), r),
    ensures
        r is Ok <==> state.file_bytes is Some && state.analyze is Some && is_bom_id(state.analyze->0@.upload_id),
        r is Err ==> r->Err_0@.status == 422,
        r is Ok ==> {
            let lines = state.analyze->0@.lines;
            let stored = r->Ok_0.analyze@;
            &&& r->Ok_0.file_bytes == state.file_bytes->0
            &&& r->Ok_0.filename == state.filename
            &&& r->Ok_0.name == state.name
            &&& r->Ok_0.content_type == state.content_type
            &&& stored.upload_id == state.analyze->0@.upload_id
            &&& stored.lines.len() == lines.len()
            &&& stored.summary.total == lines.len()
            &&& 0 <= i < lines.len() ==> stored.lines[i] == (LineView {
                risk_level: stored.lines[i].risk_level,
                ..lines[i]
            })
            &&& 0 <= i < lines.len() && crate::text::case::eq_ascii_case(lines[i].lifecycle_status, "Eol"@)
                ==> stored.lines[i].risk_level == crate::gateway::analyze::RiskLevel::Red
        },
{
    if r is Ok {
        let lines = state.analyze->0@.lines;
        if 0 <= i < lines.len() {
            crate::gateway::analyze::grave_lines_are_shown(state.analyze->0@, r->Ok_0.analyze@, i);
        }
    }
}

/// A change that was made to another version is a conflict, a bom or a line that is not
/// there is not found, and storage that failed is a fault of the service.
pub proof fn failed_changes_have_statuses(error: StoreError, r: Reply)
    requires
        call_ensures(mutation_error_response, (error,), r),
    ensures
        error is Conflict ==> r@.status == 409,
        error is NotFound || error is LineNotFound ==> r@.status == 404,
        error is Write || error is Read ==> r@.status == 500,
        error is Write ==> r@.body->Object_0.contains(("detail"@, JsonView::Text(error->Write_0@))),
        error is Read ==> r@.body->Object_0.contains(("detail"@, JsonView::Text(error->Read_0@))),
{
    if error is Write || error is Read {
        let f = r@.body->Object_0;
        assert(f.contains(f[1]));
    }
}

/// A bom that is not there is not found; anything else that stops a read or a deletion is
/// a fault of the service.
pub proof fn failed_reads_have_statuses(error: StoreError, r: Reply, logged: bool)
    requires
        call_ensures(access_error_response, (error,), r),
        call_ensures(is_write_failure, (&error,), logged),
    ensures
        error is NotFound <==> r@.status == 404,
        !(error is NotFound) <==> r@.status == 500,
        logged <==> error is Write || error is Read,
{
}

/// A line whose part was changed is looked up, by its number and its maker; a line without
/// a number, or one that is known already, is not.
pub proof fn changed_parts_are_looked_up(line: &AnalyzedLine, r: Option<EnrichInput>)
    requires
        call_ensures(line_enrichment, (line,), r),
    ensures
        line@.mpn is None || is_blank(line@.mpn->0) ==> r is None,
        line@.mpn is Some && !is_blank(line@.mpn->0) && crate::text::case::eq_ascii_case(
            line@.availability_status,
            "Pending"@,
        ) ==> r is Some,
        r is Some ==> Some(r->0@.mpn) == line@.mpn && r->0@.manufacturer == line@.manufacturer,
        !crate::text::case::eq_ascii_case(line@.availability_status, "Pending"@) && !crate::text::case::eq_ascii_case(
            line@.match_status,
            "Pending"@,
        ) ==> r is None,
{
    reveal_strlit("pending");
    reveal_strlit("Pending");
    assert(crate::text::case::ascii_lower("Pending"@) =~= crate::text::case::ascii_lower("pending"@));
}

/// A bom is shown with its briefs and else as it is stored.
pub proof fn shown_boms_have_their_briefs(record: BomRecordView, briefs: BriefMap, i: int)
    ensures
        ({
            let shown = shown_record(record, briefs);
            &&& shown.summary == record.summary
            &&& shown.analyze.lines.len() == record.analyze.lines.len()
            &&& shown.analyze.summary == record.analyze.summary
            &&& 0 <= i < record.analyze.lines.len() ==> {
                let line = record.analyze.lines[i];
                let key = crate::text::number::dec_nat(line.row_index as nat);
                &&& shown.analyze.lines[i] == (LineView { agent_brief: shown.analyze.lines[i].agent_brief, ..line })
                &&& briefs.dom().contains(key) && briefs[key].text.len() > 0 ==> shown.analyze.lines[i].agent_brief
                    == Some(briefs[key].text)
                &&& !briefs.dom().contains(key) ==> shown.analyze.lines[i] == line
            }
        }),
{
}

/// A line at risk shows the brief of its own bom, and where that has none, what it had.
pub proof fn flagged_lines_show_their_boms_brief(item: FlaggedItemView, briefs: Map<Seq<char>, BriefMap>)
    ensures
        ({
            let shown = shown_item(item, briefs);
            let key = crate::text::number::dec_nat(item.line.row_index as nat);
            &&& shown.bom_id == item.bom_id && shown.bom_name == item.bom_name && shown.bom_version == item.bom_version
            &&& !briefs.dom().contains(item.bom_id) ==> shown == item
            &&& briefs.dom().contains(item.bom_id) && briefs[item.bom_id].dom().contains(key)
                && briefs[item.bom_id][key].text.len() > 0 ==> shown.line.agent_brief == Some(
                briefs[item.bom_id][key].text,
            )
            &&& shown.line == (LineView { agent_brief: shown.line.agent_brief, ..item.line })
        }),
{
}

} // verus!
