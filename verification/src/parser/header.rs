//! Finding the row that names the columns.

use vstd::prelude::*;
use vstd::string::*;

use super::synonyms::{matches_any, names_column, Grid};
use crate::text::{is_blank, trim};

verus! {

/// How many rows are looked at.
pub const HEADER_ROWS: usize = 15;

/// How many cells are not blank.
pub open spec fn filled_cells(row: Seq<Seq<char>>) -> nat
    decreases row.len(),
{
    if row.len() == 0 {
        0
    } else {
        filled_cells(row.drop_last()) + if is_blank(row.last()) {
            0nat
        } else {
            1nat
        }
    }
}

/// How many cells name a column.
pub open spec fn naming_cells(row: Seq<Seq<char>>, groups: Seq<Seq<Seq<char>>>) -> nat
    decreases row.len(),
{
    if row.len() == 0 {
        0
    } else {
        naming_cells(row.drop_last(), groups) + if names_column(row.last(), groups) {
            1nat
        } else {
            0nat
        }
    }
}

fn count_filled(row: &Vec<String>) -> (r: usize)
    ensures
        r == filled_cells(row.deep_view()),
{
    let ghost all = row.deep_view();
    let mut n: usize = 0;
    let mut i: usize = 0;
    while i < row.len()
        invariant
            i <= row@.len(),
            n <= i,
            all == row.deep_view(),
            n == filled_cells(all.take(i as int)),
        decreases row@.len() - i,
    {
        assert(all.take(i + 1).drop_last() =~= all.take(i as int));
        assert(all.take(i + 1).last() == row@[i as int]@);
        if !trim(row[i].as_str()).as_str().is_empty() {
            n += 1;
        }
        i += 1;
    }
    assert(all.take(i as int) =~= all);
    n
}

/// How many cells name a column.
pub fn synonym_hits(row: &Vec<String>, synonyms: &[Vec<String>]) -> (r: usize)
    ensures
        r == naming_cells(row.deep_view(), synonyms.deep_view()),
        r <= row@.len(),
{
    let ghost all = row.deep_view();
    let mut n: usize = 0;
    let mut i: usize = 0;
    while i < row.len()
        invariant
            i <= row@.len(),
            n <= i,
            all == row.deep_view(),
            n == naming_cells(all.take(i as int), synonyms.deep_view()),
        decreases row@.len() - i,
    {
        assert(all.take(i + 1).drop_last() =~= all.take(i as int));
        assert(all.take(i + 1).last() == row@[i as int]@);
        if matches_any(row[i].as_str(), synonyms) {
            n += 1;
        }
        i += 1;
    }
    assert(all.take(i as int) =~= all);
    n
}

/// How well a row names columns: not at all where it has one filled cell or none.
pub open spec fn row_score(row: Seq<Seq<char>>, groups: Seq<Seq<Seq<char>>>) -> nat {
    if filled_cells(row) <= 1 {
        0
    } else {
        naming_cells(row, groups)
    }
}

/// The row is the first of the best that name any column, among the first fifteen.
pub open spec fn is_header(grid: Grid, groups: Seq<Seq<Seq<char>>>, i: int) -> bool {
    &&& 0 <= i < grid.len()
    &&& i < HEADER_ROWS
    &&& row_score(grid[i], groups) > 0
    &&& forall|j: int| 0 <= j < i ==> row_score(#[trigger] grid[j], groups) < row_score(grid[i], groups)
    &&& forall|j: int|
        i <= j < grid.len() && j < HEADER_ROWS ==> row_score(#[trigger] grid[j], groups) <= row_score(
            grid[i],
            groups,
        )
}

/// None of the first fifteen rows names a column.
pub open spec fn has_no_header(grid: Grid, groups: Seq<Seq<Seq<char>>>) -> bool {
    forall|j: int| 0 <= j < grid.len() && j < HEADER_ROWS ==> row_score(#[trigger] grid[j], groups) == 0
}

/// The row that names the columns.
pub fn find_header_row(grid: &[Vec<String>], synonyms: &[Vec<String>]) -> (r: Option<usize>)
    ensures
        match r {
            Some(i) => is_header(grid.deep_view(), synonyms.deep_view(), i as int),
            None => has_no_header(grid.deep_view(), synonyms.deep_view()),
        },
{
    let ghost all = grid.deep_view();
    let ghost groups = synonyms.deep_view();
    let mut best_idx: Option<usize> = None;
    let mut best_score: usize = 0;
    let mut i: usize = 0;
    while i < grid.len() && i < HEADER_ROWS
        invariant
            i <= grid@.len(),
            i <= HEADER_ROWS,
            all == grid.deep_view(),
            groups == synonyms.deep_view(),
            best_idx is None ==> best_score == 0,
            best_idx is Some ==> best_score > 0 && best_idx->0 < i && best_score == row_score(
                all[best_idx->0 as int],
                groups,
            ) && forall|j: int| 0 <= j < best_idx->0 ==> row_score(#[trigger] all[j], groups) < best_score,
            forall|j: int| 0 <= j < i ==> row_score(#[trigger] all[j], groups) <= best_score,
        decreases grid@.len() - i,
    {
        let row = &grid[i];
        assert(all[i as int] == row.deep_view());
        let non_empty: usize = count_filled(row);
        if non_empty > 1 {
            let score: usize = synonym_hits(row, synonyms);
            if score > best_score {
                best_score = score;
                best_idx = Some(i);
            }
        }
        i += 1;
    }
    best_idx
}

/// There is one such row at most.
pub proof fn header_is_unique(grid: Grid, groups: Seq<Seq<Seq<char>>>, a: int, b: int)
    requires
        is_header(grid, groups, a),
        is_header(grid, groups, b),
    ensures
        a == b,
{
    if a < b {
        assert(row_score(grid[a], groups) < row_score(grid[b], groups));
    } else if b < a {
        assert(row_score(grid[b], groups) < row_score(grid[a], groups));
    }
}

proof fn filled_cells_count(row: Seq<Seq<char>>, i: int, j: int)
    requires
        0 <= i < j < row.len(),
        !is_blank(row[i]),
        !is_blank(row[j]),
    ensures
        filled_cells(row) >= 2,
    decreases row.len(),
{
    let d = row.drop_last();
    if j < d.len() {
        assert(d[i] == row[i] && d[j] == row[j]);
        filled_cells_count(d, i, j);
    } else {
        assert(d[i] == row[i]);
        one_filled_cell_counts(d, i);
    }
}

proof fn one_filled_cell_counts(row: Seq<Seq<char>>, i: int)
    requires
        0 <= i < row.len(),
        !is_blank(row[i]),
    ensures
        filled_cells(row) >= 1,
    decreases row.len(),
{
    let d = row.drop_last();
    if i < d.len() {
        assert(d[i] == row[i]);
        one_filled_cell_counts(d, i);
    }
}

proof fn naming_cells_count(row: Seq<Seq<char>>, groups: Seq<Seq<Seq<char>>>, i: int)
    ensures
        0 <= i < row.len() && names_column(row[i], groups) ==> naming_cells(row, groups) >= 1,
        naming_cells(row, groups) >= 1 ==> exists|k: int|
            0 <= k < row.len() && names_column(#[trigger] row[k], groups),
        naming_cells(row, groups) <= row.len(),
    decreases row.len(),
{
    if row.len() > 0 {
        let d = row.drop_last();
        naming_cells_count(d, groups, i);
        if 0 <= i < d.len() {
            assert(d[i] == row[i]);
        }
        if naming_cells(d, groups) >= 1 {
            let k = choose|k: int| 0 <= k < d.len() && names_column(#[trigger] d[k], groups);
            assert(row[k] == d[k]);
        }
        assert(row.last() == row[row.len() - 1]);
    }
}

/// The header is among the first fifteen rows and names a column; and where a row among
/// them has two filled cells and names a column, a header is found.
pub proof fn headers_are_near_the_top(grid: &[Vec<String>], synonyms: &[Vec<String>], r: Option<usize>, row: int, a: int, b: int, c: int)
    requires
        call_ensures(find_header_row, (grid, synonyms), r),
    ensures
        r is Some ==> r->0 < 15 && r->0 < grid@.len() && exists|k: int|
            0 <= k < grid.deep_view()[r->0 as int].len() && names_column(
                #[trigger] grid.deep_view()[r->0 as int][k],
                synonyms.deep_view(),
            ),
        0 <= row < grid.deep_view().len() && row < 15 && 0 <= a < b < grid.deep_view()[row].len() && !is_blank(
            grid.deep_view()[row][a],
        ) && !is_blank(grid.deep_view()[row][b]) && 0 <= c < grid.deep_view()[row].len() && names_column(
            grid.deep_view()[row][c],
            synonyms.deep_view(),
        ) ==> r is Some,
{
    let g = grid.deep_view();
    let s = synonyms.deep_view();
    if r is Some {
        naming_cells_count(g[r->0 as int], s, 0);
    }
    if 0 <= row < g.len() && row < 15 && 0 <= a < b < g[row].len() && !is_blank(g[row][a]) && !is_blank(g[row][b]) && 0
        <= c < g[row].len() && names_column(g[row][c], s) {
        filled_cells_count(g[row], a, b);
        naming_cells_count(g[row], s, c);
        assert(row_score(g[row], s) >= 1);
    }
}

/// Each cell that names a column counts one.
pub proof fn each_naming_cell_counts(row: Seq<Seq<char>>, cell: Seq<char>, groups: Seq<Seq<Seq<char>>>)
    ensures
        naming_cells(Seq::empty(), groups) == 0,
        names_column(cell, groups) ==> naming_cells(row.push(cell), groups) == naming_cells(row, groups) + 1,
        !names_column(cell, groups) ==> naming_cells(row.push(cell), groups) == naming_cells(row, groups),
        is_blank(cell) ==> filled_cells(row.push(cell)) == filled_cells(row),
        !is_blank(cell) ==> filled_cells(row.push(cell)) == filled_cells(row) + 1,
{
    assert(row.push(cell).drop_last() =~= row);
    assert(row.push(cell).last() == cell);
}

} // verus!
