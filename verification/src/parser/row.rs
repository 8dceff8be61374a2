//! Turning a row into a line.

use vstd::prelude::*;
use vstd::string::*;

use super::columns::ColumnMapping;
use super::warning::{plain_warning, push_warning, warning_views, ParseWarning, WarningCode, WarningView};
use crate::dynamo::{viewed, viewed_insert};
use crate::strmap::{entry_in_map, key_has_entry, StrMap};
use crate::text::case::{to_uppercase, uppercase};
use crate::text::number::{
    all_digits, count_leading_digits, decimal, is_decimal, is_digit, leading_digits, leading_digits_are_counted,
};
use crate::text::search::{has_char, starts_with};
use crate::text::{blank, is_blank, owned, same, slice_text, to_chars, trim, trimmed};

verus! {

/// A line of a bom.
#[derive(Debug)]
pub struct BomLine {
    pub mpn: Option<String>,
    pub manufacturer: Option<String>,
    /// The quantity as a decimal number in text.
    pub quantity: Option<String>,
    pub refdes: Option<String>,
    pub description: Option<String>,
    pub footprint: Option<String>,
    pub aml_candidates: Vec<String>,
    pub extras: StrMap<String>,
    pub row_index: usize,
}

/// The content of a line.
#[verifier::ext_equal]
pub struct BomLineView {
    pub mpn: Option<Seq<char>>,
    pub manufacturer: Option<Seq<char>>,
    pub quantity: Option<Seq<char>>,
    pub refdes: Option<Seq<char>>,
    pub description: Option<Seq<char>>,
    pub footprint: Option<Seq<char>>,
    pub aml_candidates: Seq<Seq<char>>,
    pub extras: Map<Seq<char>, Seq<char>>,
    pub row_index: usize,
}

impl View for BomLine {
    type V = BomLineView;

    open spec fn view(&self) -> BomLineView {
        BomLineView {
            mpn: self.mpn.deep_view(),
            manufacturer: self.manufacturer.deep_view(),
            quantity: self.quantity.deep_view(),
            refdes: self.refdes.deep_view(),
            description: self.description.deep_view(),
            footprint: self.footprint.deep_view(),
            aml_candidates: self.aml_candidates.deep_view(),
            extras: viewed(self.extras),
            row_index: self.row_index,
        }
    }
}

/// A cell of a row, trimmed; empty where the row is too short.
pub open spec fn cell_of(raw: Seq<Seq<char>>, i: int) -> Seq<char> {
    if 0 <= i < raw.len() {
        trimmed(raw[i])
    } else {
        Seq::empty()
    }
}

/// The cells by what their columns mean, of the first `n` columns; of two columns
/// that mean the same the later counts.
pub open spec fn cells_by_meaning(
    raw: Seq<Seq<char>>,
    mapping: Map<Seq<char>, Seq<char>>,
    header: Seq<Seq<char>>,
    n: int,
) -> Map<Seq<char>, Seq<char>>
    decreases n,
{
    if n <= 0 {
        Map::empty()
    } else {
        let before = cells_by_meaning(raw, mapping, header, n - 1);
        if mapping.dom().contains(header[n - 1]) {
            before.insert(mapping[header[n - 1]], cell_of(raw, n - 1))
        } else {
            before
        }
    }
}

/// The cells that are not empty by their headers, of those of the first `n`
/// columns that mean nothing.
pub open spec fn other_cells(
    raw: Seq<Seq<char>>,
    mapping: Map<Seq<char>, Seq<char>>,
    header: Seq<Seq<char>>,
    n: int,
) -> Map<Seq<char>, Seq<char>>
    decreases n,
{
    if n <= 0 {
        Map::empty()
    } else {
        let before = other_cells(raw, mapping, header, n - 1);
        if !mapping.dom().contains(header[n - 1]) && !is_blank(header[n - 1]) && cell_of(
            raw,
            n - 1,
        ).len() > 0 {
            before.insert(header[n - 1], cell_of(raw, n - 1))
        } else {
            before
        }
    }
}

/// The meaning has a field of its own in a line.
pub open spec fn has_field(meaning: Seq<char>) -> bool {
    ||| meaning == "mpn"@
    ||| meaning == "description"@
    ||| meaning == "manufacturer"@
    ||| meaning == "qty"@
    ||| meaning == "refdes"@
    ||| meaning == "footprint"@
}

fn field_of_line(meaning: &str) -> (r: bool)
    ensures
        r == has_field(meaning@),
{
    same(meaning, "mpn") || same(meaning, "description") || same(meaning, "manufacturer") || same(
        meaning,
        "qty",
    ) || same(meaning, "refdes") || same(meaning, "footprint")
}

/// The cell with that meaning is not empty and has no field of its own.
pub open spec fn is_leftover(cells: Map<Seq<char>, Seq<char>>, meaning: Seq<char>) -> bool {
    cells.dom().contains(meaning) && !has_field(meaning) && cells[meaning].len() > 0
}

/// All that a line holds beside its fields: the other cells, and the cells by
/// meaning that have no field, which count first.
pub open spec fn line_extras(
    others: Map<Seq<char>, Seq<char>>,
    cells: Map<Seq<char>, Seq<char>>,
) -> Map<Seq<char>, Seq<char>> {
    Map::new(
        |k: Seq<char>| others.dom().contains(k) || is_leftover(cells, k),
        |k: Seq<char>|
            if is_leftover(cells, k) {
                cells[k]
            } else {
                others[k]
            },
    )
}

/// The cell with that meaning, if it is not empty.
pub open spec fn filled_cell(cells: Map<Seq<char>, Seq<char>>, meaning: Seq<char>) -> Option<Seq<char>> {
    if cells.dom().contains(meaning) && cells[meaning].len() > 0 {
        Some(cells[meaning])
    } else {
        None
    }
}

/// Separates the numbers of parts that may stand for each other.
pub open spec fn is_separator(c: char) -> bool {
    c == ',' || c == '|'
}

/// Where the next separator stands; the length where there is none.
pub open spec fn separator_from(s: Seq<char>, from: int) -> int
    decreases s.len() - from,
{
    if from >= s.len() {
        s.len() as int
    } else if is_separator(s[from]) {
        from
    } else {
        separator_from(s, from + 1)
    }
}

/// A piece between separators, trimmed, unless nothing is left of it.
pub open spec fn kept_piece(s: Seq<char>, from: int, to: int) -> Seq<Seq<char>> {
    if is_blank(s.subrange(from, to)) {
        Seq::empty()
    } else {
        seq![trimmed(s.subrange(from, to))]
    }
}

/// The pieces of a text from a position on, split at separators and trimmed,
/// without those of which nothing is left.
pub open spec fn pieces_from(s: Seq<char>, from: int) -> Seq<Seq<char>>
    decreases s.len() - from,
{
    let end = separator_from(s, from);
    if from < 0 || from > s.len() || end < from {
        Seq::empty()
    } else if end >= s.len() {
        kept_piece(s, from, s.len() as int)
    } else {
        kept_piece(s, from, end) + pieces_from(s, end + 1)
    }
}

/// The text holds a separator.
pub open spec fn has_separator(s: Seq<char>) -> bool {
    s.contains(',') || s.contains('|')
}

/// The numbers of parts that a cell lists; none where it holds no separator.
pub open spec fn listed_parts(s: Seq<char>) -> Seq<Seq<char>> {
    if has_separator(s) {
        pieces_from(s, 0)
    } else {
        Seq::empty()
    }
}

/// The first of the parts that a cell lists, or the whole cell.
pub open spec fn primary_part(s: Seq<char>) -> Seq<char> {
    let parts = listed_parts(s);
    if parts.len() == 0 {
        s
    } else {
        parts[0]
    }
}

/// The other parts that a cell lists.
pub open spec fn other_parts(s: Seq<char>) -> Seq<Seq<char>> {
    let parts = listed_parts(s);
    if parts.len() == 0 {
        parts
    } else {
        parts.skip(1)
    }
}

/// Three digits or more, and then a dash.
pub open spec fn is_sku_shape(s: Seq<char>) -> bool {
    let n = leading_digits(s);
    n >= 3 && n < s.len() && s[n] == '-'
}

/// Begins as the numbers of some distributors do.
pub open spec fn has_sku_prefix(s: Seq<char>) -> bool {
    ||| "490-"@.is_prefix_of(s)
    ||| "311-"@.is_prefix_of(s)
    ||| "296-"@.is_prefix_of(s)
    ||| "445-"@.is_prefix_of(s)
    ||| "499-"@.is_prefix_of(s)
    ||| "652-"@.is_prefix_of(s)
    ||| "595-"@.is_prefix_of(s)
}

/// Looks like a distributor's own number.
pub open spec fn is_dist_sku(s: Seq<char>) -> bool {
    has_sku_prefix(s) || is_sku_shape(s)
}

/// The line that the cells of a row make; none without a part and a description.
pub open spec fn line_of(
    cells: Map<Seq<char>, Seq<char>>,
    others: Map<Seq<char>, Seq<char>>,
    row_index: usize,
) -> Option<BomLineView> {
    let mpn = filled_cell(cells, "mpn"@);
    let description = filled_cell(cells, "description"@);
    if mpn is None && description is None {
        None
    } else {
        Some(
            BomLineView {
                mpn: match mpn {
                    Some(cell) => Some(primary_part(uppercase(cell))),
                    None => None,
                },
                manufacturer: filled_cell(cells, "manufacturer"@),
                quantity: if cells.dom().contains("qty"@) && is_decimal(cells["qty"@]) {
                    Some(cells["qty"@])
                } else {
                    None
                },
                refdes: filled_cell(cells, "refdes"@),
                description,
                footprint: filled_cell(cells, "footprint"@),
                aml_candidates: match mpn {
                    Some(cell) => other_parts(uppercase(cell)),
                    None => Seq::empty(),
                },
                extras: line_extras(others, cells),
                row_index,
            },
        )
    }
}

/// The warnings about a row: that it has a description and no part, or that its
/// part looks like a distributor's own number.
pub open spec fn warnings_of(cells: Map<Seq<char>, Seq<char>>, row_index: usize) -> Seq<WarningView> {
    match filled_cell(cells, "mpn"@) {
        Some(cell) => if is_dist_sku(primary_part(uppercase(cell))) {
            seq![plain_warning(WarningCode::DistSkuSuspect, row_index, Some("mpn"@))]
        } else {
            Seq::empty()
        },
        None => if filled_cell(cells, "description"@) is Some {
            seq![plain_warning(WarningCode::MissingMpn, row_index, None)]
        } else {
            Seq::empty()
        },
    }
}

/// The line of a row under its header.
pub open spec fn row_line(
    raw: Seq<Seq<char>>,
    mapping: Map<Seq<char>, Seq<char>>,
    header: Seq<Seq<char>>,
    row_index: usize,
) -> Option<BomLineView> {
    line_of(
        cells_by_meaning(raw, mapping, header, header.len() as int),
        other_cells(raw, mapping, header, header.len() as int),
        row_index,
    )
}

/// The warnings about a row under its header.
pub open spec fn row_warnings(
    raw: Seq<Seq<char>>,
    mapping: Map<Seq<char>, Seq<char>>,
    header: Seq<Seq<char>>,
    row_index: usize,
) -> Seq<WarningView> {
    warnings_of(cells_by_meaning(raw, mapping, header, header.len() as int), row_index)
}

/// Whether a text has the shape of a distributor's own number: three digits or
/// more, and then a dash.
pub fn looks_like_dist_sku(s: &str) -> (r: bool)
    ensures
        r == is_sku_shape(s@),
{
    let chars = to_chars(s);
    let n: usize = count_leading_digits(&chars);
    n >= 3 && n < chars.len() && chars[n] == '-'
}

fn dist_sku(s: &str) -> (r: bool)
    ensures
        r == is_dist_sku(s@),
{
    starts_with(s, "490-") || starts_with(s, "311-") || starts_with(s, "296-") || starts_with(
        s,
        "445-",
    ) || starts_with(s, "499-") || starts_with(s, "652-") || starts_with(s, "595-")
        || looks_like_dist_sku(s)
}

/// The numbers of parts that a cell lists; none where it holds no separator.
pub fn split_parts(s: &str) -> (r: Vec<String>)
    ensures
        r.deep_view() == listed_parts(s@),
{
    let mut parts: Vec<String> = Vec::new();
    assert(parts.deep_view() =~= Seq::<Seq<char>>::empty());
    if !has_char(s, ',') && !has_char(s, '|') {
        return parts;
    }
    let chars = to_chars(s);
    let mut from: usize = 0;
    let mut done = false;
    while !done
        invariant
            chars@ == s@,
            from <= chars@.len(),
            !done ==> parts.deep_view() + pieces_from(s@, from as int) == pieces_from(s@, 0),
            done ==> parts.deep_view() == pieces_from(s@, 0),
        decreases chars@.len() - from, (if done { 0int } else { 1int }),
    {
        let mut end: usize = from;
        while end < chars.len() && chars[end] != ',' && chars[end] != '|'
            invariant
                chars@ == s@,
                from <= end <= chars@.len(),
                separator_from(s@, from as int) == separator_from(s@, end as int),
            decreases chars@.len() - end,
        {
            end += 1;
        }
        let piece = slice_text(&chars, from, end);
        let ghost before = parts.deep_view();
        assert(piece@ == s@.subrange(from as int, end as int));
        if !blank(piece.as_str()) {
            let kept = trim(piece.as_str());
            let ghost k = kept@;
            parts.push(kept);
            assert(parts.deep_view() =~= before.push(k));
        }
        assert(parts.deep_view() =~= before + kept_piece(s@, from as int, end as int));
        if end >= chars.len() {
            done = true;
        } else {
            assert(before + (kept_piece(s@, from as int, end as int) + pieces_from(s@, end + 1)) =~= (
            before + kept_piece(s@, from as int, end as int)) + pieces_from(s@, end + 1));
            from = end + 1;
        }
    }
    parts
}

fn take_filled(cells: &StrMap<String>, meaning: &str) -> (r: Option<String>)
    requires
        cells.wf(),
    ensures
        r.deep_view() == filled_cell(viewed(*cells), meaning@),
{
    match cells.get(meaning) {
        Some(cell) => if cell.as_str().is_empty() {
            None
        } else {
            Some(cell.clone())
        },
        None => None,
    }
}

fn collect_extras(others: StrMap<String>, cells: &StrMap<String>) -> (r: StrMap<String>)
    requires
        others.wf(),
        cells.wf(),
    ensures
        r.wf(),
        viewed(r) == line_extras(viewed(others), viewed(*cells)),
{
    let ghost ov = viewed(others);
    let ghost cv = viewed(*cells);
    let mut extras = others;
    let mut i: usize = 0;
    while i < cells.entries.len()
        invariant
            i <= cells.entries@.len(),
            cells.wf(),
            extras.wf(),
            cv == viewed(*cells),
            forall|k: Seq<char>| #[trigger]
                viewed(extras).dom().contains(k) <==> ov.dom().contains(k) || (is_leftover(cv, k)
                    && cells.at(k) < i),
            forall|k: Seq<char>| #[trigger]
                viewed(extras).dom().contains(k) ==> viewed(extras)[k] == if is_leftover(cv, k)
                    && cells.at(k) < i {
                    cv[k]
                } else {
                    ov[k]
                },
        decreases cells.entries@.len() - i,
    {
        let key = cells.entries[i].0.as_str();
        let value = &cells.entries[i].1;
        proof {
            entry_in_map(*cells, i as int);
            assert forall|k: Seq<char>| #[trigger] cv.dom().contains(k) && cells.at(k) == i implies k
                == key@ by {
                key_has_entry(*cells, k);
            }
        }
        if !field_of_line(key) && !value.as_str().is_empty() {
            let ghost before = extras;
            let copy = value.clone();
            let ghost v = copy;
            extras.insert(key, copy);
            proof {
                viewed_insert(before, extras, key@, v);
                assert(is_leftover(cv, key@));
            }
        } else {
            assert(!is_leftover(cv, key@));
        }
        i += 1;
    }
    proof {
        assert forall|k: Seq<char>| is_leftover(cv, k) implies cells.at(k) < cells.entries@.len() by {
            key_has_entry(*cells, k);
        }
        assert(viewed(extras) =~= line_extras(ov, cv));
    }
    extras
}

/// Turns the cells of a row into a line.
pub fn make_line(cells: &StrMap<String>, others: StrMap<String>, row_index: usize) -> (r: (
    Option<BomLine>,
    Vec<ParseWarning>,
))
    requires
        cells.wf(),
        others.wf(),
    ensures
        r.0 is Some <==> line_of(viewed(*cells), viewed(others), row_index) is Some,
        r.0 is Some ==> Some(r.0->0@) == line_of(viewed(*cells), viewed(others), row_index)
            && r.0->0.extras.wf(),
        warning_views(r.1@) == warnings_of(viewed(*cells), row_index),
{
    let mut warnings: Vec<ParseWarning> = Vec::new();
    assert(warning_views(warnings@) =~= Seq::<WarningView>::empty());
    let mpn_raw = take_filled(cells, "mpn");
    let description = take_filled(cells, "description");
    if mpn_raw.is_none() && description.is_none() {
        return (None, warnings);
    }
    let (mpn, aml_candidates) = match mpn_raw {
        None => {
            push_warning(&mut warnings, WarningCode::MissingMpn, row_index, None);
            assert(warning_views(warnings@) =~= warnings_of(viewed(*cells), row_index));
            let none: Vec<String> = Vec::new();
            assert(none.deep_view() =~= Seq::<Seq<char>>::empty());
            (None, none)
        },
        Some(raw) => {
            let upper = to_uppercase(raw.as_str());
            let mut parts = split_parts(upper.as_str());
            let ghost listed = parts.deep_view();
            let primary = if parts.len() > 0 {
                let first = parts.remove(0);
                assert(first@ == listed[0]);
                assert(parts.deep_view() =~= listed.skip(1));
                first
            } else {
                upper
            };
            if dist_sku(primary.as_str()) {
                push_warning(
                    &mut warnings,
                    WarningCode::DistSkuSuspect,
                    row_index,
                    Some(owned("mpn")),
                );
            }
            assert(warning_views(warnings@) =~= warnings_of(viewed(*cells), row_index));
            (Some(primary), parts)
        },
    };
    let quantity = match cells.get("qty") {
        Some(cell) => if decimal(cell.as_str()) {
            Some(cell.clone())
        } else {
            None
        },
        None => None,
    };
    let line = BomLine {
        mpn,
        manufacturer: take_filled(cells, "manufacturer"),
        quantity,
        refdes: take_filled(cells, "refdes"),
        description,
        footprint: take_filled(cells, "footprint"),
        aml_candidates,
        extras: collect_extras(others, cells),
        row_index,
    };
    (Some(line), warnings)
}

/// Turns a row into a line: each cell by what its column means, and the others as
/// they are.
pub fn normalize_row(
    raw: &[String],
    mapping: &ColumnMapping,
    header: &[String],
    row_index: usize,
) -> (r: (Option<BomLine>, Vec<ParseWarning>))
    requires
        mapping.wf(),
    ensures
        r.0 is Some <==> row_line(
            raw.deep_view(),
            viewed(*mapping),
            header.deep_view(),
            row_index,
        ) is Some,
        r.0 is Some ==> Some(r.0->0@) == row_line(
            raw.deep_view(),
            viewed(*mapping),
            header.deep_view(),
            row_index,
        ) && r.0->0.extras.wf(),
        warning_views(r.1@) == row_warnings(
            raw.deep_view(),
            viewed(*mapping),
            header.deep_view(),
            row_index,
        ),
{
    let mut cells: StrMap<String> = StrMap::new();
    let mut others: StrMap<String> = StrMap::new();
    let ghost rv = raw.deep_view();
    let ghost hv = header.deep_view();
    let ghost mv = viewed(*mapping);
    assert(viewed(cells) =~= Map::<Seq<char>, Seq<char>>::empty());
    assert(viewed(others) =~= Map::<Seq<char>, Seq<char>>::empty());
    let mut i: usize = 0;
    while i < header.len()
        invariant
            i <= header@.len(),
            mapping.wf(),
            cells.wf(),
            others.wf(),
            rv == raw.deep_view(),
            hv == header.deep_view(),
            mv == viewed(*mapping),
            viewed(cells) == cells_by_meaning(rv, mv, hv, i as int),
            viewed(others) == other_cells(rv, mv, hv, i as int),
        decreases header@.len() - i,
    {
        let name = header[i].as_str();
        assert(hv[i as int] == name@);
        let cell = if i < raw.len() {
            assert(rv[i as int] == raw@[i as int]@);
            trim(raw[i].as_str())
        } else {
            let none = owned("");
            proof {
                reveal_strlit("");
                assert(none@ =~= Seq::<char>::empty());
            }
            none
        };
        let ghost cell_view = cell;
        assert(cell@ == cell_of(rv, i as int));
        match mapping.get(name) {
            Some(meaning) => {
                let ghost before = cells;
                cells.insert(meaning.as_str(), cell);
                proof {
                    viewed_insert(before, cells, meaning@, cell_view);
                }
            },
            None => {
                if !blank(name) && !cell.as_str().is_empty() {
                    let ghost before = others;
                    others.insert(name, cell);
                    proof {
                        viewed_insert(before, others, name@, cell_view);
                    }
                }
            },
        }
        i += 1;
    }
    make_line(&cells, others, row_index)
}

/// A cell under a header that means something stands for that meaning, unless a
/// later column means the same.
pub proof fn last_column_counts(
    raw: Seq<Seq<char>>,
    mapping: Map<Seq<char>, Seq<char>>,
    header: Seq<Seq<char>>,
    n: int,
    i: int,
)
    requires
        0 <= i < n <= header.len(),
        mapping.dom().contains(header[i]),
        forall|j: int|
            i < j < n && mapping.dom().contains(#[trigger] header[j]) ==> mapping[header[j]]
                != mapping[header[i]],
    ensures
        cells_by_meaning(raw, mapping, header, n).dom().contains(mapping[header[i]]),
        cells_by_meaning(raw, mapping, header, n)[mapping[header[i]]] == cell_of(raw, i),
    decreases n,
{
    if i < n - 1 {
        last_column_counts(raw, mapping, header, n - 1, i);
    }
}

/// No cell of a line is lost: one that is not empty, under a header that means
/// nothing, is among the extras of the line under that header, unless a later
/// column or a meaning without a field has the same name.
pub proof fn unmapped_cells_are_kept(
    raw: Seq<Seq<char>>,
    mapping: Map<Seq<char>, Seq<char>>,
    header: Seq<Seq<char>>,
    row_index: usize,
    i: int,
)
    requires
        0 <= i < header.len(),
        !mapping.dom().contains(header[i]),
        !is_blank(header[i]),
        cell_of(raw, i).len() > 0,
        forall|j: int| i < j < header.len() ==> #[trigger] header[j] != header[i],
        !is_leftover(cells_by_meaning(raw, mapping, header, header.len() as int), header[i]),
        row_line(raw, mapping, header, row_index) is Some,
    ensures
        ({
            let extras = row_line(raw, mapping, header, row_index)->0.extras;
            extras.dom().contains(header[i]) && extras[header[i]] == cell_of(raw, i)
        }),
{
    other_cell_stays(raw, mapping, header, header.len() as int, i);
}

proof fn other_cell_stays(
    raw: Seq<Seq<char>>,
    mapping: Map<Seq<char>, Seq<char>>,
    header: Seq<Seq<char>>,
    n: int,
    i: int,
)
    requires
        0 <= i < n <= header.len(),
        !mapping.dom().contains(header[i]),
        !is_blank(header[i]),
        cell_of(raw, i).len() > 0,
        forall|j: int| i < j < header.len() ==> #[trigger] header[j] != header[i],
    ensures
        other_cells(raw, mapping, header, n).dom().contains(header[i]),
        other_cells(raw, mapping, header, n)[header[i]] == cell_of(raw, i),
    decreases n,
{
    if i < n - 1 {
        other_cell_stays(raw, mapping, header, n - 1, i);
    }
}

proof fn other_cells_are_filled(
    raw: Seq<Seq<char>>,
    mapping: Map<Seq<char>, Seq<char>>,
    header: Seq<Seq<char>>,
    n: int,
    k: Seq<char>,
)
    requires
        other_cells(raw, mapping, header, n).dom().contains(k),
    ensures
        other_cells(raw, mapping, header, n)[k].len() > 0,
    decreases n,
{
    if n > 0 {
        let before = other_cells(raw, mapping, header, n - 1);
        if before.dom().contains(k) {
            other_cells_are_filled(raw, mapping, header, n - 1, k);
        }
    }
}

/// No extra of a line is empty.
pub proof fn extras_are_filled(
    raw: Seq<Seq<char>>,
    mapping: Map<Seq<char>, Seq<char>>,
    header: Seq<Seq<char>>,
    row_index: usize,
    k: Seq<char>,
)
    requires
        row_line(raw, mapping, header, row_index) is Some,
        row_line(raw, mapping, header, row_index)->0.extras.dom().contains(k),
    ensures
        row_line(raw, mapping, header, row_index)->0.extras[k].len() > 0,
{
    let others = other_cells(raw, mapping, header, header.len() as int);
    if others.dom().contains(k) {
        other_cells_are_filled(raw, mapping, header, header.len() as int, k);
    }
}

/// The column at a place is the last that means what it does.
pub open spec fn is_last_column(mapping: Map<Seq<char>, Seq<char>>, header: Seq<Seq<char>>, i: int) -> bool {
    &&& 0 <= i < header.len()
    &&& mapping.dom().contains(header[i])
    &&& forall|j: int|
        i < j < header.len() && mapping.dom().contains(#[trigger] header[j]) ==> mapping[header[j]]
            != mapping[header[i]]
}

/// Some column means that.
pub open spec fn some_column_means(
    mapping: Map<Seq<char>, Seq<char>>,
    header: Seq<Seq<char>>,
    meaning: Seq<char>,
) -> bool {
    exists|j: int|
        0 <= j < header.len() && mapping.dom().contains(#[trigger] header[j]) && mapping[header[j]]
            == meaning
}

proof fn meanings_come_from_columns(
    raw: Seq<Seq<char>>,
    mapping: Map<Seq<char>, Seq<char>>,
    header: Seq<Seq<char>>,
    n: int,
    meaning: Seq<char>,
)
    requires
        0 <= n <= header.len(),
    ensures
        cells_by_meaning(raw, mapping, header, n).dom().contains(meaning) ==> some_column_means(
            mapping,
            header,
            meaning,
        ),
    decreases n,
{
    if n > 0 {
        meanings_come_from_columns(raw, mapping, header, n - 1, meaning);
        if mapping.dom().contains(header[n - 1]) && mapping[header[n - 1]] == meaning {
            assert(some_column_means(mapping, header, meaning));
        }
    }
}

proof fn meanings_differ()
    ensures
        "mpn"@ != "description"@,
        "mpn"@ != "manufacturer"@,
        "mpn"@ != "qty"@,
        "mpn"@ != "refdes"@,
        "mpn"@ != "footprint"@,
        "description"@ != "manufacturer"@,
        "description"@ != "qty"@,
        "description"@ != "refdes"@,
        "description"@ != "footprint"@,
        "manufacturer"@ != "qty"@,
        "manufacturer"@ != "refdes"@,
        "manufacturer"@ != "footprint"@,
        "qty"@ != "refdes"@,
        "qty"@ != "footprint"@,
        "refdes"@ != "footprint"@,
{
    reveal_strlit("mpn");
    reveal_strlit("description");
    reveal_strlit("manufacturer");
    reveal_strlit("qty");
    reveal_strlit("refdes");
    reveal_strlit("footprint");
    assert("mpn"@.len() == 3 && "mpn"@[0] == 'm');
    assert("description"@.len() == 11);
    assert("manufacturer"@.len() == 12);
    assert("qty"@.len() == 3 && "qty"@[0] == 'q');
    assert("refdes"@.len() == 6);
    assert("footprint"@.len() == 9);
}

/// What a line says under each field is the trimmed cell of the last column that means
/// it, where that cell is not empty: the maker, the designators, the description, the
/// footprint as they stand, a quantity that is a number, and the part in upper case.
pub proof fn fields_hold_their_cells(
    raw: &[String],
    mapping: &ColumnMapping,
    header: &[String],
    row_index: usize,
    r: (Option<BomLine>, Vec<ParseWarning>),
    i: int,
)
    requires
        mapping.wf(),
        call_ensures(normalize_row, (raw, mapping, header, row_index), r),
        is_last_column(viewed(*mapping), header.deep_view(), i),
        i < raw@.len(),
        trimmed(raw@[i]@).len() > 0,
    ensures
        ({
            let meaning = viewed(*mapping)[header.deep_view()[i]];
            let cell = trimmed(raw@[i]@);
            &&& meaning == "mpn"@ || meaning == "description"@ ==> r.0 is Some
            &&& r.0 is Some ==> {
                let line = r.0->0@;
                &&& line.row_index == row_index
                &&& meaning == "manufacturer"@ ==> line.manufacturer == Some(cell)
                &&& meaning == "refdes"@ ==> line.refdes == Some(cell)
                &&& meaning == "description"@ ==> line.description == Some(cell)
                &&& meaning == "footprint"@ ==> line.footprint == Some(cell)
                &&& meaning == "qty"@ && is_decimal(cell) ==> line.quantity == Some(cell)
                &&& meaning == "qty"@ && !is_decimal(cell) ==> line.quantity is None
                &&& meaning == "mpn"@ ==> line.mpn is Some
                &&& meaning == "mpn"@ && !has_separator(uppercase(cell)) ==> line.mpn == Some(
                    uppercase(cell),
                ) && line.aml_candidates.len() == 0
                &&& meaning != "mpn"@ && meaning != "description"@ && meaning != "manufacturer"@ && meaning
                    != "qty"@ && meaning != "refdes"@ && meaning != "footprint"@
                    ==> line.extras.dom().contains(meaning) && line.extras[meaning] == cell
            }
        }),
{
    meanings_differ();
    let rv = raw.deep_view();
    let hv = header.deep_view();
    let mv = viewed(*mapping);
    assert(rv[i] == raw@[i]@);
    last_column_counts(rv, mv, hv, hv.len() as int, i);
}

/// A field that no column means is empty, and a row with neither a part nor a
/// description is no line.
pub proof fn fields_without_columns_are_empty(
    raw: &[String],
    mapping: &ColumnMapping,
    header: &[String],
    row_index: usize,
    r: (Option<BomLine>, Vec<ParseWarning>),
)
    requires
        mapping.wf(),
        call_ensures(normalize_row, (raw, mapping, header, row_index), r),
    ensures
        ({
            let m = viewed(*mapping);
            let h = header.deep_view();
            &&& !some_column_means(m, h, "mpn"@) && !some_column_means(m, h, "description"@) ==> r.0 is None
            &&& r.0 is Some ==> {
                let line = r.0->0@;
                &&& line.mpn is Some || line.description is Some
                &&& !some_column_means(m, h, "mpn"@) ==> line.mpn is None && line.aml_candidates.len() == 0
                &&& !some_column_means(m, h, "manufacturer"@) ==> line.manufacturer is None
                &&& !some_column_means(m, h, "qty"@) ==> line.quantity is None
                &&& !some_column_means(m, h, "refdes"@) ==> line.refdes is None
                &&& !some_column_means(m, h, "description"@) ==> line.description is None
                &&& !some_column_means(m, h, "footprint"@) ==> line.footprint is None
            }
        }),
{
    let rv = raw.deep_view();
    let hv = header.deep_view();
    let mv = viewed(*mapping);
    let n = hv.len() as int;
    meanings_come_from_columns(rv, mv, hv, n, "mpn"@);
    meanings_come_from_columns(rv, mv, hv, n, "description"@);
    meanings_come_from_columns(rv, mv, hv, n, "manufacturer"@);
    meanings_come_from_columns(rv, mv, hv, n, "qty"@);
    meanings_come_from_columns(rv, mv, hv, n, "refdes"@);
    meanings_come_from_columns(rv, mv, hv, n, "footprint"@);
}

/// A line without a part is warned about, and so is one whose part begins with three
/// digits or more and a dash, as distributors number theirs; no other is.
pub proof fn warnings_have_reasons(
    raw: &[String],
    mapping: &ColumnMapping,
    header: &[String],
    row_index: usize,
    r: (Option<BomLine>, Vec<ParseWarning>),
    d: Seq<char>,
    rest: Seq<char>,
)
    requires
        mapping.wf(),
        call_ensures(normalize_row, (raw, mapping, header, row_index), r),
        all_digits(d),
    ensures
        ({
            let warnings = warning_views(r.1@);
            &&& r.0 is None ==> warnings.len() == 0
            &&& r.0 is Some && r.0->0@.mpn is None ==> warnings.len() == 1 && warnings[0].code
                == WarningCode::MissingMpn && warnings[0].row_index == row_index
            &&& r.0 is Some && r.0->0@.mpn is Some && warnings.len() > 0 ==> warnings.len() == 1
                && warnings[0].code == WarningCode::DistSkuSuspect && warnings[0].row_index == row_index
            &&& r.0 is Some && r.0->0@.mpn == Some(d + seq!['-'] + rest) ==> (warnings.len() == 1 <==> d.len()
                >= 3)
        }),
{
    let s = d + seq!['-'] + rest;
    let tail = seq!['-'] + rest;
    assert(s =~= d + tail);
    assert(tail[0] == '-');
    leading_digits_are_counted(d, tail);
    assert(s[d.len() as int] == '-');
    prefix_is_shape(s, "490-"@);
    prefix_is_shape(s, "311-"@);
    prefix_is_shape(s, "296-"@);
    prefix_is_shape(s, "445-"@);
    prefix_is_shape(s, "499-"@);
    prefix_is_shape(s, "652-"@);
    prefix_is_shape(s, "595-"@);
    reveal_strlit("490-");
    reveal_strlit("311-");
    reveal_strlit("296-");
    reveal_strlit("445-");
    reveal_strlit("499-");
    reveal_strlit("652-");
    reveal_strlit("595-");
}

proof fn prefix_is_shape(s: Seq<char>, p: Seq<char>)
    ensures
        p.is_prefix_of(s) && p.len() == 4 && is_digit(p[0]) && is_digit(p[1]) && is_digit(p[2]) && p[3]
            == '-' ==> leading_digits(s) == 3,
{
    if p.is_prefix_of(s) && p.len() == 4 && is_digit(p[0]) && is_digit(p[1]) && is_digit(p[2]) && p[3]
        == '-' {
        let d = p.take(3);
        let rest = s.skip(3);
        assert(s.take(4) =~= p);
        assert(s[3] == p[3]) by {
            assert(s.take(4)[3] == p[3]);
        }
        assert(d + rest =~= s) by {
            assert forall|k: int| 0 <= k < 3 implies d[k] == s[k] by {
                assert(s.take(4)[k] == p[k]);
            }
        }
        assert forall|k: int| 0 <= k < d.len() implies is_digit(#[trigger] d[k]) by {
            assert(d[k] == p[k]);
        }
        leading_digits_are_counted(d, rest);
    }
}

proof fn no_separator_to(s: Seq<char>, from: int, to: int)
    requires
        0 <= from <= to <= s.len(),
        forall|j: int| from <= j < to ==> !is_separator(#[trigger] s[j]),
        to < s.len() ==> is_separator(s[to]),
    ensures
        separator_from(s, from) == to,
    decreases to - from,
{
    if from < to {
        no_separator_to(s, from + 1, to);
    }
}

/// Numbers of parts with a comma or a bar between them are the part and its
/// alternatives, each trimmed; a blank piece counts for nothing.
pub proof fn listed_parts_are_split(s: &str, r: Vec<String>, a: Seq<char>, c: char, b: Seq<char>)
    requires
        call_ensures(split_parts, (s,), r),
        c == ',' || c == '|',
        forall|j: int| 0 <= j < a.len() ==> #[trigger] a[j] != ',' && a[j] != '|',
        forall|j: int| 0 <= j < b.len() ==> #[trigger] b[j] != ',' && b[j] != '|',
    ensures
        s@ == a ==> r@.len() == 0,
        s@ == a + seq![c] + b && !is_blank(a) && !is_blank(b) ==> r.deep_view() == seq![
            trimmed(a),
            trimmed(b),
        ],
        s@ == a + seq![c] + b && !is_blank(a) && is_blank(b) ==> r.deep_view() == seq![trimmed(a)],
        s@ == a + seq![c] + b && is_blank(a) && !is_blank(b) ==> r.deep_view() == seq![trimmed(b)],
{
    if s@ == a {
        assert(!s@.contains(',') && !s@.contains('|'));
    }
    let t = a + seq![c] + b;
    if s@ == t {
        let k = a.len() as int;
        assert(t[k] == c);
        assert(t.contains(c));
        assert forall|j: int| 0 <= j < k implies !is_separator(#[trigger] t[j]) by {
            assert(t[j] == a[j]);
        }
        assert forall|j: int| k + 1 <= j < t.len() implies !is_separator(#[trigger] t[j]) by {
            assert(t[j] == b[j - k - 1]);
        }
        no_separator_to(t, 0, k);
        no_separator_to(t, k + 1, t.len() as int);
        assert(t.subrange(0, k) =~= a);
        assert(t.subrange(k + 1, t.len() as int) =~= b);
        assert(pieces_from(t, k + 1) == kept_piece(t, k + 1, t.len() as int));
        assert(pieces_from(t, 0) == kept_piece(t, 0, k) + pieces_from(t, k + 1));
        assert(seq![trimmed(a)] + seq![trimmed(b)] =~= seq![trimmed(a), trimmed(b)]);
        assert(seq![trimmed(a)] + Seq::<Seq<char>>::empty() =~= seq![trimmed(a)]);
        assert(Seq::<Seq<char>>::empty() + seq![trimmed(b)] =~= seq![trimmed(b)]);
    }
}

/// The first of the numbers in a part's cell is the line's part, and the others are its
/// alternatives, in their order.
pub proof fn first_part_leads(
    raw: &[String],
    mapping: &ColumnMapping,
    header: &[String],
    row_index: usize,
    r: (Option<BomLine>, Vec<ParseWarning>),
    i: int,
    upper: &str,
    parts: Vec<String>,
)
    requires
        mapping.wf(),
        call_ensures(normalize_row, (raw, mapping, header, row_index), r),
        is_last_column(viewed(*mapping), header.deep_view(), i),
        i < raw@.len(),
        viewed(*mapping)[header.deep_view()[i]] == "mpn"@,
        trimmed(raw@[i]@).len() > 0,
        upper@ == uppercase(trimmed(raw@[i]@)),
        call_ensures(split_parts, (upper,), parts),
    ensures
        r.0 is Some,
        parts@.len() > 0 ==> r.0->0@.mpn == Some(parts@[0]@) && r.0->0@.aml_candidates.len()
            == parts@.len() - 1 && forall|k: int|
            0 <= k < parts@.len() - 1 ==> #[trigger] r.0->0@.aml_candidates[k] == parts@[k + 1]@,
        parts@.len() == 0 ==> r.0->0@.mpn == Some(upper@) && r.0->0@.aml_candidates.len() == 0,
{
    let rv = raw.deep_view();
    let hv = header.deep_view();
    let mv = viewed(*mapping);
    assert(rv[i] == raw@[i]@);
    last_column_counts(rv, mv, hv, hv.len() as int, i);
    if parts@.len() > 0 {
        assert(parts.deep_view()[0] == parts@[0]@);
        assert forall|k: int| 0 <= k < parts@.len() - 1 implies #[trigger] r.0->0@.aml_candidates[k]
            == parts@[k + 1]@ by {
            assert(parts.deep_view()[k + 1] == parts@[k + 1]@);
        }
    }
}

/// Three digits or more and a dash look like a distributor's number; fewer, or none, do
/// not.
pub proof fn distributor_numbers_have_a_shape(s: &str, r: bool, d: Seq<char>, rest: Seq<char>)
    requires
        call_ensures(looks_like_dist_sku, (s,), r),
        all_digits(d),
    ensures
        s@ == d + seq!['-'] + rest ==> (r <==> d.len() >= 3),
        s@.len() < 4 ==> !r,
{
    if s@ == d + seq!['-'] + rest {
        let tail = seq!['-'] + rest;
        assert(s@ =~= d + tail);
        assert(tail[0] == '-');
        leading_digits_are_counted(d, tail);
        assert(s@[d.len() as int] == '-');
    }
}

} // verus!
