//! Reading workbooks.

use vstd::prelude::*;
use vstd::string::*;

use super::compound::can_be_opened;
use super::ingest::ParseError;
use super::package::is_plain_package;
use super::synonyms::Grid;
use crate::text::owned;

verus! {

/// A cursor over bytes.
#[verifier::external_type_specification]
#[verifier::external_body]
#[verifier::reject_recursive_types(T)]
pub struct ExCursor<T>(std::io::Cursor<T>);

/// A workbook of the `calamine` reader.
#[verifier::external_type_specification]
#[verifier::external_body]
#[verifier::reject_recursive_types(RS)]
pub struct ExXlsx<RS>(calamine::Xlsx<RS>);

/// Why a workbook or a sheet could not be read.
#[derive(Debug)]
pub enum WorkbookError {
    Password,
    Other(String),
}

/// The bytes that a workbook was opened from.
pub uninterp spec fn workbook_source(workbook: calamine::Xlsx<std::io::Cursor<Vec<u8>>>) -> Seq<u8>;

/// Whether `calamine::open_workbook_from_rs` opens a workbook, or else why it does
/// not: the message, or none where a password is the reason.
pub uninterp spec fn workbook_opens(source: Seq<u8>) -> Result<(), Option<Seq<char>>>;

/// The names that `calamine::Reader::sheet_names` gives.
pub uninterp spec fn workbook_names(source: Seq<u8>) -> Seq<Seq<char>>;

/// The rows and columns of all cells that `calamine::XlsxCellReader::next_cell`
/// comes upon in a sheet; nothing where it cannot read them all.
pub uninterp spec fn workbook_places(source: Seq<u8>, name: Seq<char>) -> Option<Seq<(u32, u32)>>;

/// The cells that `calamine::Reader::worksheet_range` gives, as texts, or else why
/// it gives none: the message, or none where a password is the reason.
pub uninterp spec fn workbook_sheet(source: Seq<u8>, name: Seq<char>) -> Result<Grid, Option<Seq<char>>>;

/// The message of an error, or none where a password is the reason.
pub open spec fn reason_of(error: WorkbookError) -> Option<Seq<char>> {
    match error {
        WorkbookError::Password => None,
        WorkbookError::Other(text) => Some(text@),
    }
}

/// So many rows and columns apart that the cells between can be counted and
/// addressed, each taking up to 64 bytes.
pub open spec fn is_addressable(rows: int, columns: int) -> bool {
    &&& rows < u32::MAX
    &&& columns < u32::MAX
    &&& (rows + 1) * (columns + 1) <= usize::MAX / 128
}

/// The rectangle around all cells can be addressed.
pub open spec fn are_near(places: Seq<(u32, u32)>) -> bool {
    forall|i: int, j: int, k: int, l: int|
        #![trigger places[i].0, places[j].0, places[k].1, places[l].1]
        0 <= i < places.len() && 0 <= j < places.len() && 0 <= k < places.len() && 0 <= l < places.len()
            && places[i].0 <= places[j].0 && places[k].1 <= places[l].1 ==> is_addressable(
            places[j].0 - places[i].0,
            places[l].1 - places[k].1,
        )
}

/// A sheet whose cells can be laid out in memory, as far as they can be read.
pub open spec fn sheet_fits(places: Option<Seq<(u32, u32)>>) -> bool {
    places is Some ==> are_near(places->0)
}

/// A file of which every sheet can be laid out in memory.
pub open spec fn workbook_fits(source: Seq<u8>) -> bool {
    workbook_opens(source) is Ok ==> forall|i: int|
        0 <= i < workbook_names(source).len() ==> sheet_fits(
            workbook_places(source, #[trigger] workbook_names(source)[i]),
        )
}

/// `calamine::open_workbook_from_rs` on bytes in memory. It looks for a password
/// in compound files first, and an unsound one would keep it from returning; and
/// it counts the brackets of number formats, which must not be too many. Which
/// bytes are a workbook is not stated beyond the name, nor how much memory a file
/// takes that names large sizes.
#[verifier::external_body]
fn open_workbook(bytes: &[u8]) -> (r: Result<calamine::Xlsx<std::io::Cursor<Vec<u8>>>, WorkbookError>)
    requires
        can_be_opened(bytes@),
        is_plain_package(bytes@),
    ensures
        match workbook_opens(bytes@) {
            Ok(_) => r is Ok && workbook_source(r->Ok_0) == bytes@,
            Err(reason) => r is Err && reason_of(r->Err_0) == reason,
        },
{
    calamine::open_workbook_from_rs(std::io::Cursor::new(bytes.to_vec())).map_err(|error| match error {
        calamine::XlsxError::Password => WorkbookError::Password,
        other => WorkbookError::Other(other.to_string()),
    })
}

/// `calamine::Reader::sheet_names`: the names of the sheets in order. The names
/// are not stated beyond their name.
#[verifier::external_body]
fn sheet_names(workbook: &calamine::Xlsx<std::io::Cursor<Vec<u8>>>) -> (r: Vec<String>)
    ensures
        r.deep_view() == workbook_names(workbook_source(*workbook)),
{
    calamine::Reader::sheet_names(workbook)
}

/// `calamine::Xlsx::worksheet_cells_reader` with its `next_cell` up to the last: the
/// places of the cells of a sheet. Reading them does not change the workbook. The
/// places are not stated beyond the name. The numbers in the names of cells and the
/// range of the sheet must be in its range.
#[verifier::external_body]
fn cell_places(workbook: &mut calamine::Xlsx<std::io::Cursor<Vec<u8>>>, name: &str) -> (r: Option<
    Vec<(u32, u32)>,
>)
    requires
        is_plain_package(workbook_source(*old(workbook))),
    ensures
        workbook_source(*final(workbook)) == workbook_source(*old(workbook)),
        match workbook_places(workbook_source(*old(workbook)), name@) {
            Some(places) => r is Some && r->0@ == places,
            None => r is None,
        },
{
    let mut reader = workbook.worksheet_cells_reader(name).ok()?;
    std::iter::from_fn(|| reader.next_cell().transpose())
        .map(|cell| cell.ok().map(|cell| cell.get_position()))
        .collect()
}

/// `calamine::Reader::worksheet_range`: the cells of a sheet, each as the text it
/// is shown as. It lays out the rectangle around the cells that the sheet holds,
/// which must not be too large to be addressed. Reading a sheet does not change
/// the workbook. The cells are not stated beyond the name, nor how much memory
/// they take. The numbers in the names of cells and the range of the sheet must be
/// in its range.
#[verifier::external_body]
fn sheet_cells(workbook: &mut calamine::Xlsx<std::io::Cursor<Vec<u8>>>, name: &str) -> (r: Result<
    Vec<Vec<String>>,
    WorkbookError,
>)
    requires
        is_plain_package(workbook_source(*old(workbook))),
        sheet_fits(workbook_places(workbook_source(*old(workbook)), name@)),
    ensures
        workbook_source(*final(workbook)) == workbook_source(*old(workbook)),
        match workbook_sheet(workbook_source(*old(workbook)), name@) {
            Ok(grid) => r is Ok && r->Ok_0.deep_view() == grid,
            Err(reason) => r is Err && reason_of(r->Err_0) == reason,
        },
{
    calamine::Reader::worksheet_range(workbook, name)
        .map(|range| range.rows().map(|row| row.iter().map(|cell| cell.to_string()).collect()).collect())
        .map_err(|error| match error {
            calamine::XlsxError::Password => WorkbookError::Password,
            other => WorkbookError::Other(other.to_string()),
        })
}

/// The error for a workbook that cannot be read.
pub fn map_xlsx_error(error: WorkbookError) -> (r: ParseError)
    ensures
        match error {
            WorkbookError::Password => r is PasswordProtected && r->PasswordProtected_0@
                == "Workbook is password protected"@,
            WorkbookError::Other(text) => r == ParseError::Xlsx(text),
        },
{
    match error {
        WorkbookError::Password => ParseError::PasswordProtected(
            owned("Workbook is password protected"),
        ),
        WorkbookError::Other(text) => ParseError::Xlsx(text),
    }
}

/// The first `n` sheets of a workbook with their names, up to one that cannot be
/// read.
pub open spec fn first_sheets(source: Seq<u8>, n: int) -> Result<Seq<(Seq<char>, Grid)>, Option<Seq<char>>>
    decreases n,
{
    if n <= 0 {
        Ok(Seq::empty())
    } else {
        match first_sheets(source, n - 1) {
            Err(reason) => Err(reason),
            Ok(before) => match workbook_sheet(source, workbook_names(source)[n - 1]) {
                Ok(grid) => Ok(before.push((workbook_names(source)[n - 1], grid))),
                Err(reason) => Err(reason),
            },
        }
    }
}

proof fn failure_stays(source: Seq<u8>, n: int, m: int)
    requires
        0 <= n <= m,
        first_sheets(source, n) is Err,
    ensures
        first_sheets(source, m) == first_sheets(source, n),
    decreases m - n,
{
    if n < m {
        failure_stays(source, n, m - 1);
    }
}

/// All sheets of a file with their names; or else why there are none.
pub open spec fn file_sheets(bytes: Seq<u8>) -> Result<Seq<(Seq<char>, Grid)>, Option<Seq<char>>> {
    match workbook_opens(bytes) {
        Ok(_) => first_sheets(bytes, workbook_names(bytes).len() as int),
        Err(reason) => Err(reason),
    }
}

/// An error of reading a workbook: for a password, or for any other reason.
pub open spec fn is_workbook_error(error: ParseError, reason: Option<Seq<char>>) -> bool {
    match reason {
        None => error is PasswordProtected && error->PasswordProtected_0@
            == "Workbook is password protected"@,
        Some(text) => error is Xlsx && error->Xlsx_0@ == text,
    }
}

/// No cell lies above the first, below the second, left of the third or right of
/// the fourth.
spec fn are_outmost(p: Seq<(u32, u32)>, top: int, bottom: int, left: int, right: int) -> bool {
    forall|j: int|
        0 <= j < p.len() ==> p[top].0 <= (#[trigger] p[j]).0 <= p[bottom].0 && p[left].1 <= p[j].1
            <= p[right].1
}

proof fn outmost_decide(p: Seq<(u32, u32)>, top: int, bottom: int, left: int, right: int)
    requires
        0 <= top < p.len(),
        0 <= bottom < p.len(),
        0 <= left < p.len(),
        0 <= right < p.len(),
        are_outmost(p, top, bottom, left, right),
    ensures
        are_near(p) == is_addressable(p[bottom].0 - p[top].0, p[right].1 - p[left].1),
{
    let c = p[bottom].0 - p[top].0;
    let d = p[right].1 - p[left].1;
    assert(p[top].0 <= p[bottom].0 && p[left].1 <= p[right].1);
    if is_addressable(c, d) {
        assert forall|i: int, j: int, k: int, l: int|
            #![trigger p[i].0, p[j].0, p[k].1, p[l].1]
            0 <= i < p.len() && 0 <= j < p.len() && 0 <= k < p.len() && 0 <= l < p.len() && p[i].0
                <= p[j].0 && p[k].1 <= p[l].1 implies is_addressable(
            p[j].0 - p[i].0,
            p[l].1 - p[k].1,
        ) by {
            let a = p[j].0 - p[i].0;
            let b = p[l].1 - p[k].1;
            assert((a + 1) * (b + 1) <= (c + 1) * (d + 1)) by (nonlinear_arith)
                requires
                    0 <= a <= c,
                    0 <= b <= d,
            ;
        }
    }
}

fn find_outmost(places: &Vec<(u32, u32)>) -> (r: (usize, usize, usize, usize))
    requires
        places@.len() > 0,
    ensures
        r.0 < places@.len(),
        r.1 < places@.len(),
        r.2 < places@.len(),
        r.3 < places@.len(),
        are_outmost(places@, r.0 as int, r.1 as int, r.2 as int, r.3 as int),
{
    let mut top: usize = 0;
    let mut bottom: usize = 0;
    let mut left: usize = 0;
    let mut right: usize = 0;
    let mut i: usize = 0;
    while i < places.len()
        invariant
            i <= places@.len(),
            top < places@.len(),
            bottom < places@.len(),
            left < places@.len(),
            right < places@.len(),
            forall|j: int|
                0 <= j < i ==> places@[top as int].0 <= (#[trigger] places@[j]).0
                    <= places@[bottom as int].0 && places@[left as int].1 <= places@[j].1
                    <= places@[right as int].1,
        decreases places@.len() - i,
    {
        if places[i].0 < places[top].0 {
            top = i;
        }
        if places[i].0 > places[bottom].0 {
            bottom = i;
        }
        if places[i].1 < places[left].1 {
            left = i;
        }
        if places[i].1 > places[right].1 {
            right = i;
        }
        i += 1;
    }
    (top, bottom, left, right)
}

fn places_are_near(places: &Vec<(u32, u32)>) -> (r: bool)
    ensures
        r == are_near(places@),
{
    if places.len() == 0 {
        return true;
    }
    let (top, bottom, left, right) = find_outmost(places);
    proof {
        outmost_decide(places@, top as int, bottom as int, left as int, right as int);
        assert(places@[top as int].0 <= places@[bottom as int].0);
        assert(places@[left as int].1 <= places@[right as int].1);
    }
    let rows: u32 = places[bottom].0 - places[top].0;
    let columns: u32 = places[right].1 - places[left].1;
    assert((rows + 1) * (columns + 1) <= 0x1_0000_0000 * 0x1_0000_0000) by (nonlinear_arith)
        requires
            0 <= rows <= 0xffff_ffff,
            0 <= columns <= 0xffff_ffff,
    ;
    let cells: u128 = (rows as u128 + 1) * (columns as u128 + 1);
    rows < u32::MAX && columns < u32::MAX && cells <= (usize::MAX / 128) as u128
}

/// Whether every sheet of a file can be laid out in memory.
pub fn workbook_can_be_laid_out(bytes: &[u8]) -> (r: bool)
    requires
        can_be_opened(bytes@),
        is_plain_package(bytes@),
    ensures
        r == workbook_fits(bytes@),
{
    let mut workbook = match open_workbook(bytes) {
        Ok(workbook) => workbook,
        Err(_) => {
            return true;
        },
    };
    let names = sheet_names(&workbook);
    let ghost all = workbook_names(bytes@);
    assert(names.deep_view() == all);
    assert(names@.len() == all.len());
    let mut i: usize = 0;
    while i < names.len()
        invariant
            i <= names@.len() == all.len(),
            all == workbook_names(bytes@),
            names.deep_view() == all,
            is_plain_package(bytes@),
            workbook_opens(bytes@) is Ok,
            workbook_source(workbook) == bytes@,
            forall|j: int| 0 <= j < i ==> sheet_fits(workbook_places(bytes@, #[trigger] all[j])),
        decreases names@.len() - i,
    {
        assert(all[i as int] == names@[i as int]@);
        if let Some(places) = cell_places(&mut workbook, names[i].as_str()) {
            if !places_are_near(&places) {
                assert(!sheet_fits(workbook_places(bytes@, workbook_names(bytes@)[i as int])));
                return false;
            }
        }
        i += 1;
    }
    true
}

/// Reads all sheets of a workbook.
pub fn read_xlsx(bytes: &[u8]) -> (r: Result<Vec<(String, Vec<Vec<String>>)>, ParseError>)
    requires
        can_be_opened(bytes@),
        is_plain_package(bytes@),
        workbook_fits(bytes@),
    ensures
        match file_sheets(bytes@) {
            Ok(sheets) => r is Ok && r->Ok_0.deep_view() == sheets,
            Err(reason) => r is Err && is_workbook_error(r->Err_0, reason),
        },
{
    let mut workbook = match open_workbook(bytes) {
        Ok(workbook) => workbook,
        Err(error) => {
            return Err(map_xlsx_error(error));
        },
    };
    let names = sheet_names(&workbook);
    let ghost all = workbook_names(bytes@);
    assert(names.deep_view() == all);
    let mut sheets: Vec<(String, Vec<Vec<String>>)> = Vec::new();
    let mut i: usize = 0;
    assert(sheets.deep_view() =~= Seq::<(Seq<char>, Grid)>::empty());
    while i < names.len()
        invariant
            i <= names@.len(),
            all == workbook_names(bytes@),
            names.deep_view() == all,
            workbook_fits(bytes@),
            is_plain_package(bytes@),
            workbook_opens(bytes@) is Ok,
            workbook_source(workbook) == bytes@,
            first_sheets(bytes@, i as int) == Ok::<Seq<(Seq<char>, Grid)>, Option<Seq<char>>>(
                sheets.deep_view(),
            ),
        decreases names@.len() - i,
    {
        assert(names.deep_view()[i as int] == names@[i as int]@);
        let grid = match sheet_cells(&mut workbook, names[i].as_str()) {
            Ok(grid) => grid,
            Err(error) => {
                proof {
                    failure_stays(bytes@, i + 1, names@.len() as int);
                    assert(names@.len() == all.len());
                }
                return Err(map_xlsx_error(error));
            },
        };
        let ghost before = sheets.deep_view();
        let ghost gv = grid.deep_view();
        sheets.push((names[i].clone(), grid));
        assert(sheets.deep_view() =~= before.push((names@[i as int]@, gv)));
        i += 1;
    }
    assert(names@.len() == all.len());
    Ok(sheets)
}

/// A workbook behind a password is told apart from one that cannot be read.
pub proof fn passwords_are_told_apart(error: WorkbookError, r: ParseError)
    requires
        call_ensures(map_xlsx_error, (error,), r),
    ensures
        error is Password ==> r is PasswordProtected && r->PasswordProtected_0@ == "Workbook is password protected"@,
        error is Other ==> r is Xlsx && r->Xlsx_0@ == error->Other_0@,
{
}

/// All sheets of a workbook are read, in its order, each under its name; one that cannot be
/// read ends the reading.
pub proof fn all_sheets_are_read(source: Seq<u8>, n: int, i: int)
    requires
        0 <= n,
        first_sheets(source, n) is Ok,
        0 <= i < n,
    ensures
        first_sheets(source, n)->Ok_0.len() == n,
        first_sheets(source, n)->Ok_0[i].0 == workbook_names(source)[i],
        workbook_sheet(source, workbook_names(source)[i]) is Ok,
        first_sheets(source, n)->Ok_0[i].1 == workbook_sheet(source, workbook_names(source)[i])->Ok_0,
    decreases n,
{
    sheets_are_counted(source, n - 1);
    if i < n - 1 {
        all_sheets_are_read(source, n - 1, i);
    }
}

proof fn sheets_are_counted(source: Seq<u8>, n: int)
    requires
        0 <= n,
    ensures
        first_sheets(source, n) is Ok ==> first_sheets(source, n)->Ok_0.len() == n,
    decreases n,
{
    if n > 0 {
        sheets_are_counted(source, n - 1);
    }
}

} // verus!
