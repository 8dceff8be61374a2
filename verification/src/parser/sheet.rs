//! Choosing the sheet that holds the bom.

use vstd::prelude::*;
use vstd::string::*;

use super::synonyms::{normal_name, normalize_name, Grid};
use crate::text::number::{decimal, is_decimal};
use crate::text::{is_blank, same, trim, trimmed};

verus! {

/// How many rows of a sheet are looked at.
pub const SHEET_ROWS: usize = 5;

/// The name means a quantity.
pub open spec fn is_quantity_name(name: Seq<char>) -> bool {
    ||| name == "qty"@
    ||| name == "quantity"@
    ||| name == "count"@
    ||| name == "amount"@
    ||| name == "q"@
    ||| name == "number"@
    ||| name == "total"@
}

fn quantity_name(name: &str) -> (r: bool)
    ensures
        r == is_quantity_name(name@),
{
    same(name, "qty") || same(name, "quantity") || same(name, "count") || same(name, "amount")
        || same(name, "q") || same(name, "number") || same(name, "total")
}

/// How many cells of the first `n` rows name a column.
pub open spec fn naming_in(grid: Grid, groups: Seq<Seq<Seq<char>>>, n: int) -> nat
    decreases n,
{
    if n <= 0 {
        0
    } else {
        naming_in(grid, groups, n - 1) + super::header::naming_cells(grid[n - 1], groups)
    }
}

/// How well a sheet names columns in its first five rows.
pub open spec fn sheet_score(grid: Grid, groups: Seq<Seq<Seq<char>>>) -> nat {
    naming_in(
        grid,
        groups,
        if grid.len() < SHEET_ROWS {
            grid.len() as int
        } else {
            SHEET_ROWS as int
        },
    )
}

/// How well a sheet names columns.
pub fn score_grid(grid: &Vec<Vec<String>>, synonyms: &[Vec<String>]) -> (r: u128)
    ensures
        r == sheet_score(grid.deep_view(), synonyms.deep_view()),
{
    let ghost all = grid.deep_view();
    let mut n: u128 = 0;
    let mut i: usize = 0;
    while i < grid.len() && i < SHEET_ROWS
        invariant
            i <= grid@.len(),
            i <= SHEET_ROWS,
            n <= i * usize::MAX,
            all == grid.deep_view(),
            n == naming_in(all, synonyms.deep_view(), i as int),
        decreases grid@.len() - i,
    {
        let hits: usize = super::header::synonym_hits(&grid[i], synonyms);
        assert(all[i as int] == grid@[i as int].deep_view());
        assert((i + 1) * usize::MAX == i * usize::MAX + usize::MAX) by (nonlinear_arith);
        assert(i * usize::MAX <= 5 * usize::MAX) by (nonlinear_arith)
            requires
                i <= 5,
        ;
        n = n + hits as u128;
        i += 1;
    }
    n
}

/// The cell of a row, where it has one.
pub open spec fn cell_at(grid: Grid, row: int, col: int) -> Option<Seq<char>> {
    if 0 <= row < grid.len() && 0 <= col < grid[row].len() {
        Some(grid[row][col])
    } else {
        None
    }
}

/// The cell is there and not blank.
pub open spec fn is_filled(grid: Grid, row: int, col: int) -> bool {
    cell_at(grid, row, col) is Some && !is_blank(cell_at(grid, row, col)->0)
}

/// The cell is there and holds a number.
pub open spec fn is_numeric(grid: Grid, row: int, col: int) -> bool {
    is_filled(grid, row, col) && is_decimal(trimmed(cell_at(grid, row, col)->0))
}

/// How many of the `n` cells below a cell are filled.
pub open spec fn filled_below(grid: Grid, row: int, col: int, n: int) -> nat
    decreases n,
{
    if n <= 0 {
        0
    } else {
        filled_below(grid, row, col, n - 1) + if is_filled(grid, row + n, col) {
            1nat
        } else {
            0nat
        }
    }
}

/// How many of the `n` cells below a cell hold numbers.
pub open spec fn numbers_below(grid: Grid, row: int, col: int, n: int) -> nat
    decreases n,
{
    if n <= 0 {
        0
    } else {
        numbers_below(grid, row, col, n - 1) + if is_numeric(grid, row + n, col) {
            1nat
        } else {
            0nat
        }
    }
}

/// The cell is the head of a column of quantities: it says so, and of the filled
/// cells among the five below it at least half hold numbers.
pub open spec fn heads_quantities(grid: Grid, row: int, col: int) -> bool {
    &&& cell_at(grid, row, col) is Some
    &&& is_quantity_name(normal_name(cell_at(grid, row, col)->0))
    &&& filled_below(grid, row, col, 5) > 0
    &&& numbers_below(grid, row, col, 5) * 2 >= filled_below(grid, row, col, 5)
}

/// A column of quantities begins in the first five rows.
pub open spec fn has_quantities(grid: Grid) -> bool {
    exists|row: int, col: int| 0 <= row < SHEET_ROWS && #[trigger] heads_quantities(grid, row, col)
}

fn quantities_below(grid: &Vec<Vec<String>>, row: usize, col: usize) -> (r: bool)
    requires
        row < SHEET_ROWS,
    ensures
        r == (filled_below(grid.deep_view(), row as int, col as int, 5) > 0 && numbers_below(
            grid.deep_view(),
            row as int,
            col as int,
            5,
        ) * 2 >= filled_below(grid.deep_view(), row as int, col as int, 5)),
{
    let ghost all = grid.deep_view();
    let mut filled: usize = 0;
    let mut numbers: usize = 0;
    let mut n: usize = 0;
    while n < 5
        invariant
            n <= 5,
            row < SHEET_ROWS,
            filled <= n,
            numbers <= n,
            all == grid.deep_view(),
            filled == filled_below(all, row as int, col as int, n as int),
            numbers == numbers_below(all, row as int, col as int, n as int),
        decreases 5 - n,
    {
        let at: usize = row + n + 1;
        if at < grid.len() && col < grid[at].len() {
            assert(cell_at(all, at as int, col as int) == Some(grid@[at as int]@[col as int]@));
            let text = trim(grid[at][col].as_str());
            if !text.as_str().is_empty() {
                filled += 1;
                if decimal(text.as_str()) {
                    numbers += 1;
                }
            }
        } else {
            assert(cell_at(all, at as int, col as int) is None);
        }
        n += 1;
    }
    filled > 0 && numbers * 2 >= filled
}

/// Whether a column of quantities begins in the first five rows.
pub fn has_numeric_qty_column(grid: &Vec<Vec<String>>) -> (r: bool)
    ensures
        r == has_quantities(grid.deep_view()),
{
    let ghost all = grid.deep_view();
    let mut row: usize = 0;
    while row < grid.len() && row < SHEET_ROWS
        invariant
            row <= grid@.len(),
            row <= SHEET_ROWS,
            all == grid.deep_view(),
            forall|x: int, y: int| 0 <= x < row ==> !#[trigger] heads_quantities(all, x, y),
        decreases grid@.len() - row,
    {
        let mut col: usize = 0;
        while col < grid[row].len()
            invariant
                row < grid@.len(),
                row < SHEET_ROWS,
                col <= grid@[row as int]@.len(),
                all == grid.deep_view(),
                forall|y: int| 0 <= y < col ==> !#[trigger] heads_quantities(all, row as int, y),
            decreases grid@[row as int]@.len() - col,
        {
            let name = normalize_name(grid[row][col].as_str());
            assert(cell_at(all, row as int, col as int) == Some(grid@[row as int]@[col as int]@));
            if quantity_name(name.as_str()) && quantities_below(grid, row, col) {
                assert(heads_quantities(all, row as int, col as int));
                return true;
            }
            col += 1;
        }
        assert forall|x: int, y: int| 0 <= x < row + 1 implies !#[trigger] heads_quantities(all, x, y) by {
            if x == row {
                if 0 <= y < col {
                } else {
                    assert(cell_at(all, x, y) is None);
                }
            }
        }
        row += 1;
    }
    assert forall|x: int, y: int| 0 <= x < SHEET_ROWS implies !#[trigger] heads_quantities(all, x, y) by {
        if x >= row {
            assert(cell_at(all, x, y) is None);
        }
    }
    false
}

/// Sheets by name.
pub type Sheets = Seq<(Seq<char>, Grid)>;

/// No sheet names columns better.
pub open spec fn is_best(sheets: Sheets, groups: Seq<Seq<Seq<char>>>, i: int) -> bool {
    forall|j: int|
        0 <= j < sheets.len() ==> sheet_score((#[trigger] sheets[j]).1, groups) <= sheet_score(
            sheets[i].1,
            groups,
        )
}

/// The sheet that holds the bom: of those that name columns best, the first with
/// a column of quantities, or where none has one, the first.
pub open spec fn is_chosen(sheets: Sheets, groups: Seq<Seq<Seq<char>>>, i: int) -> bool {
    &&& 0 <= i < sheets.len()
    &&& is_best(sheets, groups, i)
    &&& if has_quantities(sheets[i].1) {
        forall|j: int| 0 <= j < i && is_best(sheets, groups, j) ==> !has_quantities((#[trigger] sheets[j]).1)
    } else {
        &&& forall|j: int| 0 <= j < sheets.len() && is_best(sheets, groups, j) ==> !has_quantities((#[trigger] sheets[j]).1)
        &&& forall|j: int| 0 <= j < i ==> !#[trigger] is_best(sheets, groups, j)
    }
}

/// The position of the sheet that holds the bom; none where there are no sheets.
pub fn choose_sheet(sheets: &[(String, Vec<Vec<String>>)], synonyms: &[Vec<String>]) -> (r: Option<usize>)
    ensures
        match r {
            Some(i) => is_chosen(sheets.deep_view(), synonyms.deep_view(), i as int),
            None => sheets@.len() == 0,
        },
{
    if sheets.len() == 0 {
        return None;
    }
    let ghost all = sheets.deep_view();
    let ghost groups = synonyms.deep_view();
    let mut first: usize = 0;
    let mut best: u128 = score_grid(&sheets[0].1, synonyms);
    let mut i: usize = 1;
    while i < sheets.len()
        invariant
            1 <= i <= sheets@.len(),
            all == sheets.deep_view(),
            groups == synonyms.deep_view(),
            first < i,
            best == sheet_score(all[first as int].1, groups),
            forall|j: int| 0 <= j < i ==> sheet_score((#[trigger] all[j]).1, groups) <= best,
            forall|j: int| 0 <= j < first ==> sheet_score((#[trigger] all[j]).1, groups) < best,
        decreases sheets@.len() - i,
    {
        let score: u128 = score_grid(&sheets[i].1, synonyms);
        assert(all[i as int].1 == sheets@[i as int].1.deep_view());
        if score > best {
            best = score;
            first = i;
        }
        i += 1;
    }
    assert(is_best(all, groups, first as int));
    assert forall|j: int| 0 <= j < all.len() implies (is_best(all, groups, j) <==> sheet_score((#[trigger] all[j]).1, groups) == best) by {
        if is_best(all, groups, j) {
            assert(sheet_score(all[first as int].1, groups) <= sheet_score(all[j].1, groups));
        }
    }
    let mut k: usize = first;
    while k < sheets.len()
        invariant
            first <= k <= sheets@.len(),
            first < sheets@.len(),
            all == sheets.deep_view(),
            groups == synonyms.deep_view(),
            is_best(all, groups, first as int),
            best == sheet_score(all[first as int].1, groups),
            forall|j: int| 0 <= j < first ==> sheet_score((#[trigger] all[j]).1, groups) < best,
            forall|j: int| 0 <= j < all.len() ==> (is_best(all, groups, j) <==> sheet_score((#[trigger] all[j]).1, groups) == best),
            forall|j: int| first <= j < k && is_best(all, groups, j) ==> !has_quantities((#[trigger] all[j]).1),
        decreases sheets@.len() - k,
    {
        assert(all[k as int].1 == sheets@[k as int].1.deep_view());
        if score_grid(&sheets[k].1, synonyms) == best && has_numeric_qty_column(&sheets[k].1) {
            assert(is_best(all, groups, k as int));
            assert forall|j: int| 0 <= j < k && is_best(all, groups, j) implies !has_quantities((#[trigger] all[j]).1) by {
                if j < first {
                    assert(sheet_score(all[j].1, groups) < best);
                }
            }
            return Some(k);
        }
        k += 1;
    }
    assert forall|j: int| 0 <= j < all.len() && is_best(all, groups, j) implies !has_quantities((#[trigger] all[j]).1) by {
        if j < first {
            assert(sheet_score(all[j].1, groups) < best);
        }
    }
    assert forall|j: int| 0 <= j < first implies !#[trigger] is_best(all, groups, j) by {
        assert(sheet_score(all[j].1, groups) < best);
    }
    Some(first)
}

/// The name of the sheet that holds the bom; none where there are no sheets.
pub fn select_sheet(sheets: &[(String, Vec<Vec<String>>)], synonyms: &[Vec<String>]) -> (r: Option<
    String,
>)
    ensures
        r is None <==> sheets@.len() == 0,
        r is Some ==> exists|i: int| #[trigger]
            is_chosen(sheets.deep_view(), synonyms.deep_view(), i) && r->0@ == sheets@[i].0@,
{
    match choose_sheet(sheets, synonyms) {
        Some(i) => Some(sheets[i].0.clone()),
        None => None,
    }
}

/// There is one such sheet at most.
pub proof fn chosen_is_unique(sheets: Sheets, groups: Seq<Seq<Seq<char>>>, a: int, b: int)
    requires
        is_chosen(sheets, groups, a),
        is_chosen(sheets, groups, b),
    ensures
        a == b,
{
    if a < b {
        assert(is_best(sheets, groups, a));
        assert(has_quantities(sheets[b].1) ==> !has_quantities(sheets[a].1));
    } else if b < a {
        assert(is_best(sheets, groups, b));
        assert(has_quantities(sheets[a].1) ==> !has_quantities(sheets[b].1));
    }
}

/// A column of quantities is headed by one of these names, and of what stands in the five
/// cells below at least half are numbers. A sheet with one of them in its first five rows
/// has quantities.
pub proof fn quantity_columns_are_found(grid: &Vec<Vec<String>>, r: bool, row: int, col: int)
    requires
        call_ensures(has_numeric_qty_column, (grid,), r),
        0 <= row < grid.deep_view().len(),
        0 <= col < grid.deep_view()[row].len(),
        ({
            let n = normal_name(grid.deep_view()[row][col]);
            n == "qty"@ || n == "quantity"@ || n == "count"@ || n == "amount"@ || n == "q"@ || n == "number"@ || n
                == "total"@
        }),
        is_filled(grid.deep_view(), row + 1, col),
        forall|k: int| 1 <= k <= 5 && is_filled(grid.deep_view(), row + k, col) ==> is_decimal(
            trimmed(#[trigger] grid.deep_view()[row + k][col]),
        ),
        row < 5,
    ensures
        r,
{
    let g = grid.deep_view();
    reveal_with_fuel(filled_below, 6);
    reveal_with_fuel(numbers_below, 6);
    assert forall|k: int| 1 <= k <= 5 implies (#[trigger] is_numeric(g, row + k, col) <==> is_filled(g, row + k, col)) by {
        if is_filled(g, row + k, col) {
            assert(cell_at(g, row + k, col) == Some(g[row + k][col]));
        }
    }
    assert(is_numeric(g, row + 1, col) <==> is_filled(g, row + 1, col));
    assert(is_numeric(g, row + 2, col) <==> is_filled(g, row + 2, col));
    assert(is_numeric(g, row + 3, col) <==> is_filled(g, row + 3, col));
    assert(is_numeric(g, row + 4, col) <==> is_filled(g, row + 4, col));
    assert(is_numeric(g, row + 5, col) <==> is_filled(g, row + 5, col));
    assert(heads_quantities(g, row, col));
}

/// A sheet whose first five rows name no quantity has no quantities.
pub proof fn sheets_without_quantities(grid: &Vec<Vec<String>>, r: bool)
    requires
        call_ensures(has_numeric_qty_column, (grid,), r),
        forall|row: int, col: int|
            0 <= row < 5 && 0 <= row < grid.deep_view().len() && 0 <= col < grid.deep_view()[row].len()
                ==> !is_quantity_name(normal_name(#[trigger] grid.deep_view()[row][col])),
    ensures
        !r,
{
    let g = grid.deep_view();
    if r {
        let (row, col) = choose|row: int, col: int| 0 <= row < SHEET_ROWS && #[trigger] heads_quantities(g, row, col);
        assert(cell_at(g, row, col) == Some(g[row][col]));
    }
}

/// A sheet is scored by the cells of its first five rows that name columns: rows further
/// down do not count.
pub proof fn sheets_are_scored_by_five_rows(grid: Grid, more: Grid, groups: Seq<Seq<Seq<char>>>)
    requires
        grid.len() == 5,
    ensures
        sheet_score(grid + more, groups) == sheet_score(grid, groups),
        sheet_score(grid, groups) == super::header::naming_cells(grid[0], groups) + super::header::naming_cells(
            grid[1],
            groups,
        ) + super::header::naming_cells(grid[2], groups) + super::header::naming_cells(grid[3], groups)
            + super::header::naming_cells(grid[4], groups),
{
    reveal_with_fuel(naming_in, 6);
    let all = grid + more;
    assert(all[0] == grid[0] && all[1] == grid[1] && all[2] == grid[2] && all[3] == grid[3] && all[4] == grid[4]);
}

/// The sheet that is read names columns at least as well as any other; and among the best
/// one with quantities is taken before one without.
pub proof fn best_sheets_are_read(sheets: &[(String, Vec<Vec<String>>)], synonyms: &[Vec<String>], r: Option<usize>, j: int)
    requires
        call_ensures(choose_sheet, (sheets, synonyms), r),
        0 <= j < sheets@.len(),
    ensures
        r is Some,
        r->0 < sheets@.len(),
        ({
            let all = sheets.deep_view();
            let s = synonyms.deep_view();
            let i = r->0 as int;
            &&& sheet_score(all[j].1, s) <= sheet_score(all[i].1, s)
            &&& sheet_score(all[j].1, s) == sheet_score(all[i].1, s) && has_quantities(all[j].1) ==> has_quantities(
                all[i].1,
            ) && i <= j
            &&& sheet_score(all[j].1, s) == sheet_score(all[i].1, s) && !has_quantities(all[i].1) ==> i <= j
        }),
{
    let all = sheets.deep_view();
    let s = synonyms.deep_view();
    let i = r->0 as int;
    assert(all.len() == sheets@.len());
    assert(is_chosen(all, s, i));
    if sheet_score(all[j].1, s) == sheet_score(all[i].1, s) {
        assert(is_best(all, s, j));
    }
}

} // verus!
