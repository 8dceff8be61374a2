//! From a file to the lines of a bom.

use vstd::prelude::*;
use vstd::string::*;

use super::columns::{
    column_meanings, header_warnings, map_columns, mapping_sureness, ColumnMapping,
};
use super::compound::{can_be_opened, workbook_can_be_opened};
use super::csv::{file_records, is_countable, read_csv, UNSUPPORTED_ENCODING_MESSAGE};
use super::header::{find_header_row, has_no_header, header_is_unique, is_header, HEADER_ROWS};
use super::package::{is_plain_package, package_is_plain};
use super::row::{normalize_row, row_line, row_warnings, BomLine, BomLineView};
use super::sheet::{choose_sheet, is_chosen};
use super::synonyms::{default_synonyms, known_names, Grid};
use super::warning::{plain_warning, push_warning, warning_views, ParseWarning, WarningCode, WarningView};
use super::xlsx::{file_sheets, read_xlsx, workbook_can_be_laid_out, workbook_fits};
use crate::dynamo::viewed;
use crate::text::case::{ascii_lower, to_ascii_lower};
use crate::text::search::{rsplit_once, rsplit_once_at};
use crate::text::{copy_list, copy_opt, owned, same};

verus! {

/// How many rows below the header are read.
pub const ROW_LIMIT: usize = 2000;

/// How many rows were read, kept and skipped.
#[derive(Debug, Clone, Copy, PartialEq, Eq, Structural)]
pub struct ParseStats {
    pub total_rows: usize,
    pub parsed_rows: usize,
    pub skipped_rows: usize,
}

/// What is told of a line.
#[derive(Debug)]
pub struct ParsedLineEvent {
    pub mpn: Option<String>,
    pub manufacturer: Option<String>,
    /// The quantity as a decimal number in text.
    pub quantity: Option<String>,
    pub refdes: Option<String>,
    pub aml_candidates: Vec<String>,
}

/// The content of what is told of a line.
#[verifier::ext_equal]
pub struct EventView {
    pub mpn: Option<Seq<char>>,
    pub manufacturer: Option<Seq<char>>,
    pub quantity: Option<Seq<char>>,
    pub refdes: Option<Seq<char>>,
    pub aml_candidates: Seq<Seq<char>>,
}

impl View for ParsedLineEvent {
    type V = EventView;

    open spec fn view(&self) -> EventView {
        EventView {
            mpn: self.mpn.deep_view(),
            manufacturer: self.manufacturer.deep_view(),
            quantity: self.quantity.deep_view(),
            refdes: self.refdes.deep_view(),
            aml_candidates: self.aml_candidates.deep_view(),
        }
    }
}

/// What is told of a line.
pub open spec fn event_of(line: BomLineView) -> EventView {
    EventView {
        mpn: line.mpn,
        manufacturer: line.manufacturer,
        quantity: line.quantity,
        refdes: line.refdes,
        aml_candidates: line.aml_candidates,
    }
}

/// A file that was read.
#[derive(Debug)]
pub struct ParseResult {
    pub source_filename: String,
    pub sheet_name: Option<String>,
    pub header_row_index: usize,
    pub column_mapping: ColumnMapping,
    /// How sure the mapping is, in hundredths.
    pub mapping_confidence: u32,
    pub lines: Vec<BomLine>,
    pub warnings: Vec<ParseWarning>,
    pub stats: ParseStats,
    pub flywheel_events: Vec<ParsedLineEvent>,
    /// The cells of the header row.
    pub raw_headers: Vec<String>,
}

/// The content of a file that was read.
#[verifier::ext_equal]
pub struct ParseResultView {
    pub source_filename: Seq<char>,
    pub sheet_name: Option<Seq<char>>,
    pub header_row_index: nat,
    pub column_mapping: Map<Seq<char>, Seq<char>>,
    pub mapping_confidence: nat,
    pub lines: Seq<BomLineView>,
    pub warnings: Seq<WarningView>,
    pub total_rows: nat,
    pub parsed_rows: nat,
    pub skipped_rows: nat,
    pub flywheel_events: Seq<EventView>,
    pub raw_headers: Seq<Seq<char>>,
}

/// The contents of lines.
pub open spec fn line_views(lines: Seq<BomLine>) -> Seq<BomLineView> {
    lines.map_values(|l: BomLine| l@)
}

/// The contents of what is told of lines.
pub open spec fn event_views(events: Seq<ParsedLineEvent>) -> Seq<EventView> {
    events.map_values(|e: ParsedLineEvent| e@)
}

impl View for ParseResult {
    type V = ParseResultView;

    open spec fn view(&self) -> ParseResultView {
        ParseResultView {
            source_filename: self.source_filename@,
            sheet_name: self.sheet_name.deep_view(),
            header_row_index: self.header_row_index as nat,
            column_mapping: viewed(self.column_mapping),
            mapping_confidence: self.mapping_confidence as nat,
            lines: line_views(self.lines@),
            warnings: warning_views(self.warnings@),
            total_rows: self.stats.total_rows as nat,
            parsed_rows: self.stats.parsed_rows as nat,
            skipped_rows: self.stats.skipped_rows as nat,
            flywheel_events: event_views(self.flywheel_events@),
            raw_headers: self.raw_headers.deep_view(),
        }
    }
}

/// Why a file gives no lines.
#[derive(Debug)]
pub enum ParseError {
    UnsupportedFormat,
    EmptyFile,
    InternalError(String),
}

/// The message of an error.
pub open spec fn parse_error_text(error: ParseError) -> Seq<char> {
    match error {
        ParseError::UnsupportedFormat => "unsupported file format: only .csv and .xlsx are accepted"@,
        ParseError::EmptyFile => "file appears to be empty or has no parseable header"@,
        ParseError::InternalError(m) => "internal error: "@ + m@,
    }
}

impl ParseError {
    /// The message.
    pub fn message(&self) -> (r: String)
        ensures
            r@ == parse_error_text(*self),
    {
        match self {
            ParseError::UnsupportedFormat => owned(
                "unsupported file format: only .csv and .xlsx are accepted",
            ),
            ParseError::EmptyFile => owned("file appears to be empty or has no parseable header"),
            ParseError::InternalError(m) => {
                let mut s = owned("internal error: ");
                s.append(m.as_str());
                s
            },
        }
    }
}

/// The rows below the header that are read.
pub open spec fn data_rows(grid: Grid, h: int) -> Grid {
    let below = grid.skip(h + 1);
    if below.len() > ROW_LIMIT {
        below.take(ROW_LIMIT as int)
    } else {
        below
    }
}

/// The lines of rows. The first row of all has the number `first`.
pub open spec fn lines_of(
    rows: Grid,
    mapping: Map<Seq<char>, Seq<char>>,
    header: Seq<Seq<char>>,
    first: int,
) -> Seq<BomLineView>
    decreases rows.len(),
{
    if rows.len() == 0 {
        Seq::empty()
    } else {
        let before = lines_of(rows.drop_last(), mapping, header, first);
        match row_line(rows.last(), mapping, header, (first + rows.len() - 1) as usize) {
            Some(line) => before.push(line),
            None => before,
        }
    }
}

/// The warnings about rows. The first row of all has the number `first`.
pub open spec fn rows_warnings(
    rows: Grid,
    mapping: Map<Seq<char>, Seq<char>>,
    header: Seq<Seq<char>>,
    first: int,
) -> Seq<WarningView>
    decreases rows.len(),
{
    if rows.len() == 0 {
        Seq::empty()
    } else {
        rows_warnings(rows.drop_last(), mapping, header, first) + row_warnings(
            rows.last(),
            mapping,
            header,
            (first + rows.len() - 1) as usize,
        )
    }
}

/// What is read from a grid whose header is the row `h`.
pub open spec fn grid_result(
    grid: Grid,
    groups: Seq<Seq<Seq<char>>>,
    sheet_name: Option<Seq<char>>,
    filename: Seq<char>,
    h: int,
) -> ParseResultView {
    let header = grid[h];
    let mapping = column_meanings(header, groups);
    let rows = data_rows(grid, h);
    let lines = lines_of(rows, mapping, header, h + 1);
    let told = header_warnings(header, groups) + rows_warnings(rows, mapping, header, h + 1);
    ParseResultView {
        source_filename: filename,
        sheet_name,
        header_row_index: h as nat,
        column_mapping: mapping,
        mapping_confidence: mapping_sureness(mapping),
        lines,
        warnings: if grid.len() - (h + 1) > ROW_LIMIT {
            told.push(plain_warning(WarningCode::RowLimitExceeded, ROW_LIMIT, None))
        } else {
            told
        },
        total_rows: rows.len(),
        parsed_rows: lines.len(),
        skipped_rows: (rows.len() - lines.len()) as nat,
        flywheel_events: lines.map_values(|l: BomLineView| event_of(l)),
        raw_headers: header,
    }
}

/// What reading a grid gives: nothing where it has no header.
pub open spec fn is_grid_outcome(
    r: Result<ParseResult, ParseError>,
    grid: Grid,
    groups: Seq<Seq<Seq<char>>>,
    sheet_name: Option<Seq<char>>,
    filename: Seq<char>,
) -> bool {
    match r {
        Ok(result) => {
            let h = result.header_row_index as int;
            &&& is_header(grid, groups, h)
            &&& result@ == grid_result(grid, groups, sheet_name, filename, h)
            &&& result.column_mapping.wf()
            &&& forall|i: int| 0 <= i < result.lines@.len() ==> (#[trigger] result.lines@[i]).extras.wf()
        },
        Err(error) => error is EmptyFile && has_no_header(grid, groups),
    }
}

fn append_warnings(warnings: &mut Vec<ParseWarning>, more: Vec<ParseWarning>)
    ensures
        warning_views(final(warnings)@) == warning_views(old(warnings)@) + warning_views(more@),
{
    let ghost before = warnings@;
    let ghost added = more@;
    let mut more = more;
    warnings.append(&mut more);
    assert(warning_views(warnings@) =~= warning_views(before) + warning_views(added));
}

/// What is told of a line.
pub fn line_event(line: &BomLine) -> (r: ParsedLineEvent)
    ensures
        r@ == event_of(line@),
{
    ParsedLineEvent {
        mpn: copy_opt(&line.mpn),
        manufacturer: copy_opt(&line.manufacturer),
        quantity: copy_opt(&line.quantity),
        refdes: copy_opt(&line.refdes),
        aml_candidates: copy_list(&line.aml_candidates),
    }
}

fn all_events(lines: &Vec<BomLine>) -> (r: Vec<ParsedLineEvent>)
    ensures
        event_views(r@) == line_views(lines@).map_values(|l: BomLineView| event_of(l)),
{
    let mut events: Vec<ParsedLineEvent> = Vec::new();
    let mut i: usize = 0;
    while i < lines.len()
        invariant
            i <= lines@.len(),
            events@.len() == i,
            forall|j: int| 0 <= j < i ==> (#[trigger] events@[j])@ == event_of(lines@[j]@),
        decreases lines@.len() - i,
    {
        events.push(line_event(&lines[i]));
        i += 1;
    }
    assert(event_views(events@) =~= line_views(lines@).map_values(|l: BomLineView| event_of(l)));
    events
}

/// Reads a grid: finds the header, what its columns mean, and the line of each row
/// below, up to a limit.
pub fn parse_grid(
    grid: &Vec<Vec<String>>,
    synonyms: &[Vec<String>],
    sheet_name: Option<String>,
    filename: &str,
) -> (r: Result<ParseResult, ParseError>)
    ensures
        is_grid_outcome(
            r,
            grid.deep_view(),
            synonyms.deep_view(),
            sheet_name.deep_view(),
            filename@,
        ),
{
    let ghost gv = grid.deep_view();
    let ghost groups = synonyms.deep_view();
    let all: &[Vec<String>] = grid.as_slice();
    assert(all.deep_view() =~= gv);
    let header_row_index: usize = match find_header_row(all, synonyms) {
        Some(i) => i,
        None => {
            return Err(ParseError::EmptyFile);
        },
    };
    let header: &[String] = grid[header_row_index].as_slice();
    let ghost hv = gv[header_row_index as int];
    assert(header.deep_view() =~= hv);
    let mapped = map_columns(header, synonyms);
    let column_mapping = mapped.mapping;
    let mapping_confidence: u32 = mapped.confidence;
    let mut warnings = mapped.warnings;
    let ghost mv = viewed(column_mapping);
    let ghost told = warning_views(warnings@);
    let first: usize = header_row_index + 1;
    let below: usize = grid.len() - first;
    let hit_limit = below > ROW_LIMIT;
    let total_rows: usize = if hit_limit {
        ROW_LIMIT
    } else {
        below
    };
    let ghost rows = data_rows(gv, header_row_index as int);
    assert(rows.len() == total_rows);
    let mut lines: Vec<BomLine> = Vec::new();
    let mut skipped_rows: usize = 0;
    let mut offset: usize = 0;
    assert(rows.take(0) =~= Seq::<Seq<Seq<char>>>::empty());
    assert(line_views(lines@) =~= Seq::<BomLineView>::empty());
    assert(told + Seq::<WarningView>::empty() =~= told);
    while offset < total_rows
        invariant
            offset <= total_rows,
            total_rows <= ROW_LIMIT,
            first == header_row_index + 1,
            header_row_index < HEADER_ROWS,
            first + total_rows <= grid@.len(),
            gv == grid.deep_view(),
            hv == gv[header_row_index as int],
            header.deep_view() == hv,
            rows == data_rows(gv, header_row_index as int),
            rows.len() == total_rows,
            column_mapping.wf(),
            mv == viewed(column_mapping),
            lines@.len() + skipped_rows == offset,
            line_views(lines@) == lines_of(rows.take(offset as int), mv, hv, first as int),
            forall|i: int| 0 <= i < lines@.len() ==> (#[trigger] lines@[i]).extras.wf(),
            warning_views(warnings@) == told + rows_warnings(
                rows.take(offset as int),
                mv,
                hv,
                first as int,
            ),
        decreases total_rows - offset,
    {
        let row_index: usize = first + offset;
        let raw: &[String] = grid[row_index].as_slice();
        proof {
            assert(raw.deep_view() =~= gv[row_index as int]);
            assert(rows[offset as int] == gv[row_index as int]);
            assert(rows.take(offset + 1).drop_last() =~= rows.take(offset as int));
            assert(rows.take(offset + 1).last() == gv[row_index as int]);
        }
        let (line, row_told) = normalize_row(raw, &column_mapping, header, row_index);
        let ghost more = warning_views(row_told@);
        let ghost so_far = rows_warnings(rows.take(offset as int), mv, hv, first as int);
        append_warnings(&mut warnings, row_told);
        assert((told + so_far) + more =~= told + (so_far + more));
        match line {
            Some(line) => {
                let ghost before = lines@;
                let ghost lv = line@;
                lines.push(line);
                assert(line_views(lines@) =~= line_views(before).push(lv));
            },
            None => {
                skipped_rows += 1;
            },
        }
        offset += 1;
    }
    assert(rows.take(offset as int) =~= rows);
    if hit_limit {
        push_warning(&mut warnings, WarningCode::RowLimitExceeded, ROW_LIMIT, None);
    }
    let flywheel_events = all_events(&lines);
    let parsed_rows: usize = lines.len();
    let raw_headers = copy_list(&grid[header_row_index]);
    let result = ParseResult {
        source_filename: owned(filename),
        sheet_name,
        header_row_index,
        column_mapping,
        mapping_confidence,
        lines,
        warnings,
        stats: ParseStats { total_rows, parsed_rows, skipped_rows },
        flywheel_events,
        raw_headers,
    };
    assert(result@ =~= grid_result(
        gv,
        groups,
        sheet_name.deep_view(),
        filename@,
        header_row_index as int,
    ));
    Ok(result)
}

/// What stands behind the last dot of a name, or the whole name, in lower case.
pub open spec fn extension_of(filename: Seq<char>) -> Seq<char> {
    match rsplit_once_at(filename, '.') {
        Some((_, ext)) => ascii_lower(ext),
        None => ascii_lower(filename),
    }
}

/// What stands behind the last dot of a name, or the whole name, in lower case.
pub fn file_extension(filename: &str) -> (r: String)
    ensures
        r@ == extension_of(filename@),
{
    match rsplit_once(filename, '.') {
        Some((_, ext)) => to_ascii_lower(ext.as_str()),
        None => to_ascii_lower(filename),
    }
}

/// The first sheet with that name.
pub open spec fn is_first_named(sheets: Seq<(Seq<char>, Grid)>, name: Seq<char>, i: int) -> bool {
    &&& 0 <= i < sheets.len()
    &&& sheets[i].0 == name
    &&& forall|j: int| 0 <= j < i ==> (#[trigger] sheets[j]).0 != name
}

/// The sheet that is read: the first that has the name of the chosen one.
pub open spec fn is_read_sheet(
    sheets: Seq<(Seq<char>, Grid)>,
    groups: Seq<Seq<Seq<char>>>,
    i: int,
) -> bool {
    exists|c: int| #[trigger] is_chosen(sheets, groups, c) && is_first_named(sheets, sheets[c].0, i)
}

/// What reading the sheets of a workbook gives.
pub open spec fn is_sheets_outcome(
    r: Result<ParseResult, ParseError>,
    sheets: Seq<(Seq<char>, Grid)>,
    groups: Seq<Seq<Seq<char>>>,
    filename: Seq<char>,
) -> bool {
    if sheets.len() == 0 {
        r is Err && r->Err_0 is EmptyFile
    } else {
        exists|i: int| #[trigger]
            is_read_sheet(sheets, groups, i) && is_grid_outcome(
                r,
                sheets[i].1,
                groups,
                Some(sheets[i].0),
                filename,
            )
    }
}

/// Reads the sheet of a workbook that holds the bom.
pub fn parse_sheets(
    sheets: &Vec<(String, Vec<Vec<String>>)>,
    synonyms: &[Vec<String>],
    filename: &str,
) -> (r: Result<ParseResult, ParseError>)
    ensures
        is_sheets_outcome(r, sheets.deep_view(), synonyms.deep_view(), filename@),
{
    let ghost sv = sheets.deep_view();
    let ghost groups = synonyms.deep_view();
    if sheets.len() == 0 {
        return Err(ParseError::EmptyFile);
    }
    let all: &[(String, Vec<Vec<String>>)] = sheets.as_slice();
    assert(all.deep_view() =~= sv);
    match choose_sheet(all, synonyms) {
        None => Err(ParseError::EmptyFile),
        Some(chosen) => {
            let name = sheets[chosen].0.as_str();
            assert(sv[chosen as int].0 == name@);
            let mut i: usize = 0;
            while !same(sheets[i].0.as_str(), name)
                invariant
                    i <= chosen < sheets@.len(),
                    sv == sheets.deep_view(),
                    name@ == sheets@[chosen as int].0@,
                    forall|j: int| 0 <= j < i ==> (#[trigger] sv[j]).0 != name@,
                decreases chosen - i,
            {
                assert(sv[i as int].0 == sheets@[i as int].0@);
                i += 1;
            }
            assert(sv[i as int].0 == sheets@[i as int].0@);
            assert(sv[i as int].1 == sheets@[i as int].1.deep_view());
            assert(is_first_named(sv, sv[chosen as int].0, i as int));
            assert(is_read_sheet(sv, groups, i as int));
            parse_grid(&sheets[i].1, synonyms, Some(sheets[i].0.clone()), filename)
        },
    }
}

/// What reading a file of separated values gives.
pub open spec fn is_csv_outcome(r: Result<ParseResult, ParseError>, bytes: Seq<u8>, filename: Seq<char>) -> bool {
    match file_records(bytes) {
        Some(grid) => is_grid_outcome(r, grid, known_names(), None, filename),
        None => r is Err && r->Err_0 is InternalError && r->Err_0->InternalError_0@
            == UNSUPPORTED_ENCODING_MESSAGE@,
    }
}

/// What reading a workbook gives.
pub open spec fn is_xlsx_outcome(r: Result<ParseResult, ParseError>, bytes: Seq<u8>, filename: Seq<char>) -> bool {
    match file_sheets(bytes) {
        Ok(sheets) => is_sheets_outcome(r, sheets, known_names(), filename),
        Err(reason) => r is Err && r->Err_0 is InternalError && r->Err_0->InternalError_0@ == (
        match reason {
            None => "Workbook is password protected"@,
            Some(text) => "xlsx parse error: "@ + text,
        }),
    }
}

/// A file that can be read: not too large, and as a workbook neither unsound nor
/// with numbers out of range nor with cells too far apart.
pub open spec fn can_be_parsed(bytes: Seq<u8>, filename: Seq<char>) -> bool {
    bytes.len() > 0 ==> {
        &&& extension_of(filename) == "csv"@ ==> is_countable(bytes)
        &&& extension_of(filename) == "xlsx"@ ==> can_be_opened(bytes) && is_plain_package(bytes)
            && workbook_fits(bytes)
    }
}

/// What reading a file gives, by the extension of its name.
pub open spec fn is_file_outcome(r: Result<ParseResult, ParseError>, bytes: Seq<u8>, filename: Seq<char>) -> bool {
    if bytes.len() == 0 {
        r is Err && r->Err_0 is EmptyFile
    } else if extension_of(filename) == "csv"@ {
        is_csv_outcome(r, bytes, filename)
    } else if extension_of(filename) == "xlsx"@ {
        is_xlsx_outcome(r, bytes, filename)
    } else {
        r is Err && r->Err_0 is UnsupportedFormat
    }
}

/// Reads a file of separated values or a workbook, by the extension of its name.
pub fn parse_file(bytes: &[u8], filename: &str) -> (r: Result<ParseResult, ParseError>)
    requires
        can_be_parsed(bytes@, filename@),
    ensures
        is_file_outcome(r, bytes@, filename@),
{
    if bytes.len() == 0 {
        return Err(ParseError::EmptyFile);
    }
    let ext = file_extension(filename);
    let known = default_synonyms();
    let synonyms: &[Vec<String>] = known.as_slice();
    assert(synonyms.deep_view() =~= known.deep_view());
    if same(ext.as_str(), "csv") {
        match read_csv(bytes) {
            Ok(grid) => parse_grid(&grid, synonyms, None, filename),
            Err(error) => Err(ParseError::InternalError(error.message())),
        }
    } else if same(ext.as_str(), "xlsx") {
        match read_xlsx(bytes) {
            Ok(sheets) => parse_sheets(&sheets, synonyms, filename),
            Err(error) => Err(ParseError::InternalError(error.message())),
        }
    } else {
        Err(ParseError::UnsupportedFormat)
    }
}

/// Reads a file where it can be read.
pub fn try_parse_file(bytes: &[u8], filename: &str) -> (r: Option<Result<ParseResult, ParseError>>)
    ensures
        r is Some <==> can_be_parsed(bytes@, filename@),
        r is Some ==> is_file_outcome(r->0, bytes@, filename@),
{
    if bytes.len() > 0 {
        let ext = file_extension(filename);
        if same(ext.as_str(), "csv") && bytes.len() > usize::MAX / 16 {
            return None;
        }
        if same(ext.as_str(), "xlsx") && !(workbook_can_be_opened(bytes) && package_is_plain(bytes)
            && workbook_can_be_laid_out(bytes)) {
            return None;
        }
    }
    Some(parse_file(bytes, filename))
}

/// Every row that was read was either kept or skipped, and no more rows are read
/// than the limit.
pub proof fn rows_add_up(
    grid: Grid,
    groups: Seq<Seq<Seq<char>>>,
    sheet_name: Option<Seq<char>>,
    filename: Seq<char>,
    h: int,
)
    requires
        is_header(grid, groups, h),
    ensures
        ({
            let r = grid_result(grid, groups, sheet_name, filename, h);
            &&& r.parsed_rows + r.skipped_rows == r.total_rows
            &&& r.total_rows <= ROW_LIMIT
            &&& r.flywheel_events.len() == r.lines.len() == r.parsed_rows
        }),
{
    lines_are_sound(
        data_rows(grid, h),
        column_meanings(grid[h], groups),
        grid[h],
        h + 1,
    );
}

/// Every line has a part or a description, and names the row it was read from:
/// rows below the header, each later than the one before.
pub proof fn lines_come_in_order(
    grid: Grid,
    groups: Seq<Seq<Seq<char>>>,
    sheet_name: Option<Seq<char>>,
    filename: Seq<char>,
    h: int,
    i: int,
)
    requires
        is_header(grid, groups, h),
        0 <= i < grid_result(grid, groups, sheet_name, filename, h).lines.len(),
    ensures
        ({
            let lines = grid_result(grid, groups, sheet_name, filename, h).lines;
            &&& lines[i].mpn is Some || lines[i].description is Some
            &&& h < lines[i].row_index < grid.len()
            &&& forall|j: int| 0 <= j < i ==> (#[trigger] lines[j]).row_index < lines[i].row_index
        }),
{
    lines_are_sound(
        data_rows(grid, h),
        column_meanings(grid[h], groups),
        grid[h],
        h + 1,
    );
}

proof fn lines_are_sound(
    rows: Grid,
    mapping: Map<Seq<char>, Seq<char>>,
    header: Seq<Seq<char>>,
    first: int,
)
    requires
        0 <= first <= HEADER_ROWS,
        rows.len() <= ROW_LIMIT,
    ensures
        ({
            let lines = lines_of(rows, mapping, header, first);
            &&& lines.len() <= rows.len()
            &&& forall|i: int|
                0 <= i < lines.len() ==> first <= (#[trigger] lines[i]).row_index < first + rows.len()
                    && (lines[i].mpn is Some || lines[i].description is Some)
            &&& forall|i: int, j: int|
                0 <= j < i < lines.len() ==> (#[trigger] lines[j]).row_index < (#[trigger] lines[i]).row_index
        }),
    decreases rows.len(),
{
    if rows.len() > 0 {
        lines_are_sound(rows.drop_last(), mapping, header, first);
    }
}

/// There is one outcome of reading a grid.
pub proof fn grid_outcome_is_unique(
    a: ParseResult,
    b: ParseResult,
    grid: Grid,
    groups: Seq<Seq<Seq<char>>>,
    sheet_name: Option<Seq<char>>,
    filename: Seq<char>,
)
    requires
        is_grid_outcome(Ok(a), grid, groups, sheet_name, filename),
        is_grid_outcome(Ok(b), grid, groups, sheet_name, filename),
    ensures
        a@ == b@,
{
    header_is_unique(grid, groups, a.header_row_index as int, b.header_row_index as int);
}

/// A file is read by what stands behind the last dot of its name, in any case; nothing is
/// read of an empty file or of one of another kind.
pub proof fn extensions_choose_the_reader(
    bytes: &[u8],
    filename: &str,
    r: Option<Result<ParseResult, ParseError>>,
    stem: Seq<char>,
    ext: Seq<char>,
)
    requires
        call_ensures(try_parse_file, (bytes, filename), r),
        filename@ == stem + seq!['.'] + ext,
        !ext.contains('.'),
    ensures
        bytes@.len() == 0 ==> r is Some && r->0 is Err && r->0->Err_0 is EmptyFile,
        bytes@.len() > 0 && ascii_lower(ext) != "csv"@ && ascii_lower(ext) != "xlsx"@ ==> r is Some && r->0 is Err
            && r->0->Err_0 is UnsupportedFormat,
        bytes@.len() > 0 && ascii_lower(ext) == "csv"@ && is_countable(bytes@) ==> r is Some && is_csv_outcome(
            r->0,
            bytes@,
            filename@,
        ),
        bytes@.len() > 0 && ascii_lower(ext) == "xlsx"@ && r is Some ==> is_xlsx_outcome(r->0, bytes@, filename@),
{
    crate::text::search::last_separator_parts(stem, ext, '.');
    reveal_strlit("csv");
    reveal_strlit("xlsx");
    assert("csv"@.len() == 3);
    assert("xlsx"@.len() == 4);
}

/// The extension is what follows the last dot, in small letters.
pub proof fn extensions_are_small_letters(filename: &str, r: String, stem: Seq<char>, ext: Seq<char>)
    requires
        call_ensures(file_extension, (filename,), r),
        filename@ == stem + seq!['.'] + ext,
        !ext.contains('.'),
    ensures
        r@ == ascii_lower(ext),
{
    crate::text::search::last_separator_parts(stem, ext, '.');
}

/// A grid that was read gives the cells of its header, where the header stands, and the
/// rows below it, of which two thousand are read at most; more are warned of.
pub proof fn grids_are_read_below_the_header(
    grid: &Vec<Vec<String>>,
    synonyms: &[Vec<String>],
    sheet_name: Option<String>,
    filename: &str,
    r: Result<ParseResult, ParseError>,
)
    requires
        call_ensures(parse_grid, (grid, synonyms, sheet_name, filename), r),
        r is Ok,
    ensures
        ({
            let result = r->Ok_0;
            let h = result.header_row_index as int;
            let below = grid@.len() - (h + 1);
            &&& 0 <= h < 15 && h < grid@.len()
            &&& result.raw_headers.deep_view() == grid.deep_view()[h]
            &&& result.source_filename@ == filename@
            &&& result.sheet_name.deep_view() == sheet_name.deep_view()
            &&& below <= 2000 ==> result.stats.total_rows == below
            &&& below > 2000 ==> result.stats.total_rows == 2000 && result.warnings@.len() > 0
                && result.warnings@.last()@.code == WarningCode::RowLimitExceeded
            &&& result.stats.parsed_rows == result.lines@.len()
            &&& result.stats.parsed_rows + result.stats.skipped_rows == result.stats.total_rows
            &&& result.flywheel_events@.len() == result.lines@.len()
        }),
{
    let result = r->Ok_0;
    let g = grid.deep_view();
    let h = result.header_row_index as int;
    rows_add_up(g, synonyms.deep_view(), sheet_name.deep_view(), filename@, h);
    assert(g.len() == grid@.len());
    assert(line_views(result.lines@).len() == result.lines@.len());
    assert(event_views(result.flywheel_events@).len() == result.flywheel_events@.len());
    let views = warning_views(result.warnings@);
    assert(views.len() == result.warnings@.len());
    if grid@.len() - (h + 1) > 2000 {
        assert(views.last() == result.warnings@.last()@);
    }
}

/// What is told of a line is what the line says.
pub proof fn events_repeat_the_line(line: &BomLine, r: ParsedLineEvent)
    requires
        call_ensures(line_event, (line,), r),
    ensures
        r@.mpn == line@.mpn,
        r@.manufacturer == line@.manufacturer,
        r@.quantity == line@.quantity,
        r@.refdes == line@.refdes,
        r@.aml_candidates == line@.aml_candidates,
{
}

proof fn kept_rows_have_lines(
    rows: Grid,
    mapping: Map<Seq<char>, Seq<char>>,
    header: Seq<Seq<char>>,
    first: int,
    i: int,
)
    requires
        0 <= i < rows.len(),
        row_line(rows[i], mapping, header, (first + i) as usize) is Some,
    ensures
        lines_of(rows, mapping, header, first).contains(row_line(rows[i], mapping, header, (first + i) as usize)->0),
    decreases rows.len(),
{
    let d = rows.drop_last();
    let before = lines_of(d, mapping, header, first);
    let all = lines_of(rows, mapping, header, first);
    let line = row_line(rows[i], mapping, header, (first + i) as usize)->0;
    if i == rows.len() - 1 {
        assert(all[before.len() as int] == line);
    } else {
        assert(d[i] == rows[i]);
        kept_rows_have_lines(d, mapping, header, first, i);
        let k = choose|k: int| 0 <= k < before.len() && before[k] == line;
        assert(all[k] == line);
    }
}

/// No row that is read is lost: each of the first two thousand below the header that makes
/// a line has that line among the lines.
pub proof fn no_row_is_lost(
    grid: &Vec<Vec<String>>,
    synonyms: &[Vec<String>],
    sheet_name: Option<String>,
    filename: &str,
    r: Result<ParseResult, ParseError>,
    row: int,
)
    requires
        call_ensures(parse_grid, (grid, synonyms, sheet_name, filename), r),
        r is Ok,
        r->Ok_0.header_row_index < row < grid@.len(),
        row <= r->Ok_0.header_row_index + 2000,
        row_line(
            grid.deep_view()[row],
            viewed(r->Ok_0.column_mapping),
            grid.deep_view()[r->Ok_0.header_row_index as int],
            row as usize,
        ) is Some,
    ensures
        exists|k: int| 0 <= k < r->Ok_0.lines@.len() && (#[trigger] r->Ok_0.lines@[k])@ == row_line(
            grid.deep_view()[row],
            viewed(r->Ok_0.column_mapping),
            grid.deep_view()[r->Ok_0.header_row_index as int],
            row as usize,
        )->0,
{
    let result = r->Ok_0;
    let g = grid.deep_view();
    let h = result.header_row_index as int;
    let rows = data_rows(g, h);
    let mapping = viewed(result.column_mapping);
    assert(g.len() == grid@.len());
    let i = row - (h + 1);
    assert(rows[i] == g[row]);
    kept_rows_have_lines(rows, mapping, g[h], h + 1, i);
    let views = line_views(result.lines@);
    let line = row_line(g[row], mapping, g[h], row as usize)->0;
    let k = choose|k: int| 0 <= k < views.len() && views[k] == line;
    assert(result.lines@[k]@ == line);
}

/// Every failure to read a file is told in its own words.
pub proof fn failures_to_read_are_told(error: &ParseError, r: String)
    requires
        call_ensures(ParseError::message, (error,), r),
    ensures
        error is UnsupportedFormat ==> r@ == "unsupported file format: only .csv and .xlsx are accepted"@,
        error is EmptyFile ==> r@ == "file appears to be empty or has no parseable header"@,
        error is InternalError ==> r@ == "internal error: "@ + error->InternalError_0@,
{
}

/// A file in no known encoding, and a workbook that cannot be read, are told with the
/// reason.
pub proof fn unreadable_files_are_told(bytes: &[u8], filename: &str, r: Result<ParseResult, ParseError>)
    requires
        can_be_parsed(bytes@, filename@),
        call_ensures(parse_file, (bytes, filename), r),
        bytes@.len() > 0,
    ensures
        extension_of(filename@) == "csv"@ && file_records(bytes@) is None ==> r is Err && r->Err_0 is InternalError
            && r->Err_0->InternalError_0@
            == "File encoding not supported. Please save your BOM as UTF-8 or Excel format."@,
        extension_of(filename@) == "xlsx"@ && file_sheets(bytes@) == Err::<Seq<(Seq<char>, Grid)>, Option<Seq<char>>>(None)
            ==> r is Err && r->Err_0 is InternalError && r->Err_0->InternalError_0@ == "Workbook is password protected"@,
{
    reveal_strlit("csv");
    reveal_strlit("xlsx");
    assert("csv"@.len() == 3);
    assert("xlsx"@.len() == 4);
}

} // verus!
