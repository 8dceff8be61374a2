//! Which column means what.

use vstd::prelude::*;
use vstd::string::*;

use super::synonyms::{normal_name, normalize_name};
use super::warning::{plain_warning, push_warning, warning_views, ParseWarning, WarningCode, WarningView};
use crate::dynamo::{viewed, viewed_insert};
use crate::strmap::{entry_in_map, key_has_entry, StrMap};
use crate::text::search::list_has;
use crate::text::{blank, is_blank, owned, same};

verus! {

/// What each column means, by its header.
pub type ColumnMapping = StrMap<String>;

/// The kinds of column, in the order of their groups of names.
pub open spec fn field_name(i: int) -> Seq<char> {
    if i == 0 {
        "mpn"@
    } else if i == 1 {
        "qty"@
    } else if i == 2 {
        "refdes"@
    } else if i == 3 {
        "manufacturer"@
    } else if i == 4 {
        "description"@
    } else {
        "footprint"@
    }
}

/// How many kinds of column there are.
pub const FIELDS: usize = 6;

/// How much a kind of column adds to the confidence, in hundredths.
pub open spec fn field_weight(i: int) -> nat {
    if i == 0 {
        40
    } else if i == 1 {
        15
    } else if i == 2 {
        5
    } else if i == 3 {
        30
    } else if i == 4 {
        5
    } else {
        5
    }
}

/// How sure a mapping must be, in hundredths.
pub const SURE: u32 = 60;

fn name_of_field(i: usize) -> (r: &'static str)
    requires
        i < FIELDS,
    ensures
        r@ == field_name(i as int),
{
    if i == 0 {
        "mpn"
    } else if i == 1 {
        "qty"
    } else if i == 2 {
        "refdes"
    } else if i == 3 {
        "manufacturer"
    } else if i == 4 {
        "description"
    } else {
        "footprint"
    }
}

fn weight_of_field(i: usize) -> (r: u32)
    requires
        i < FIELDS,
    ensures
        r == field_weight(i as int),
        r <= 40,
{
    if i == 0 {
        40
    } else if i == 1 {
        15
    } else if i == 2 {
        5
    } else if i == 3 {
        30
    } else if i == 4 {
        5
    } else {
        5
    }
}

/// The name of a distributor's own number.
pub open spec fn is_distributor(name: Seq<char>) -> bool {
    ||| name == "digikey"@
    ||| name == "mouser"@
    ||| name == "newark"@
    ||| name == "arrow"@
    ||| name == "dist pn"@
    ||| name == "distributor"@
    ||| name == "digi-key"@
    ||| name == "digi-key pn"@
}

fn distributor_name(name: &str) -> (r: bool)
    ensures
        r == is_distributor(name@),
{
    same(name, "digikey") || same(name, "mouser") || same(name, "newark") || same(name, "arrow") || same(name, "dist pn") || same(name, "distributor") || same(name, "digi-key") || same(name, "digi-key pn")
}

/// The name of an alternate part.
pub open spec fn is_alternate(name: Seq<char>) -> bool {
    ||| name == "alt mpn"@
    ||| name == "alternate part"@
    ||| name == "second source"@
    ||| name == "alt part"@
}

fn alternate_name(name: &str) -> (r: bool)
    ensures
        r == is_alternate(name@),
{
    same(name, "alt mpn") || same(name, "alternate part") || same(name, "second source") || same(name, "alt part")
}

/// A weak name for a reference, which often counts rows.
pub open spec fn is_weak_refdes(name: Seq<char>) -> bool {
    ||| name == "id"@
    ||| name == "item"@
    ||| name == "item no"@
    ||| name == "item number"@
    ||| name == "line"@
    ||| name == "line no"@
}

fn weak_refdes_name(name: &str) -> (r: bool)
    ensures
        r == is_weak_refdes(name@),
{
    same(name, "id") || same(name, "item") || same(name, "item no") || same(name, "item number") || same(name, "line") || same(name, "line no")
}

/// A weak name for a quantity, which often means money or units.
pub open spec fn is_weak_qty(name: Seq<char>) -> bool {
    ||| name == "number"@
    ||| name == "number of"@
    ||| name == "total"@
    ||| name == "units"@
    ||| name == "unit"@
    ||| name == "nos"@
    ||| name == "no."@
    ||| name == "no"@
}

fn weak_qty_name(name: &str) -> (r: bool)
    ensures
        r == is_weak_qty(name@),
{
    same(name, "number") || same(name, "number of") || same(name, "total") || same(name, "units") || same(name, "unit") || same(name, "nos") || same(name, "no.") || same(name, "no")
}

/// A strong name for a reference.
pub open spec fn is_strong_refdes(name: Seq<char>) -> bool {
    ||| name == "refdes"@
    ||| name == "designator"@
    ||| name == "reference"@
    ||| name == "references"@
    ||| name == "ref designator"@
    ||| name == "reference designator"@
    ||| name == "ref des"@
    ||| name == "reference_designator"@
    ||| name == "component reference"@
    ||| name == "comp ref"@
}

fn strong_refdes_name(name: &str) -> (r: bool)
    ensures
        r == is_strong_refdes(name@),
{
    same(name, "refdes") || same(name, "designator") || same(name, "reference") || same(name, "references") || same(name, "ref designator") || same(name, "reference designator") || same(name, "ref des") || same(name, "reference_designator") || same(name, "component reference") || same(name, "comp ref")
}

/// A strong name for a quantity.
pub open spec fn is_strong_qty(name: Seq<char>) -> bool {
    ||| name == "qty"@
    ||| name == "quantity"@
    ||| name == "qty."@
    ||| name == "quantity per board"@
    ||| name == "qty per board"@
}

fn strong_qty_name(name: &str) -> (r: bool)
    ensures
        r == is_strong_qty(name@),
{
    same(name, "qty") || same(name, "quantity") || same(name, "qty.") || same(name, "quantity per board") || same(name, "qty per board")
}

/// The similarity of two texts that `strsim::jaro_winkler` gives, a number from 0
/// to 1, as its bit pattern.
pub uninterp spec fn similarity(a: Seq<char>, b: Seq<char>) -> u64;

/// `strsim::jaro_winkler`: how similar two texts are, as the bit pattern of the
/// number. The patterns of numbers from 0 on are ordered as the numbers. The
/// similarity is not stated beyond the name.
#[verifier::external_body]
fn jaro_winkler(a: &str, b: &str) -> (r: u64)
    ensures
        r == similarity(a@, b@),
{
    strsim::jaro_winkler(a, b).to_bits()
}

/// The bit pattern of 0.85, from which on two names are alike.
pub const ALIKE: u64 = 0x3feb_3333_3333_3333;

/// The name is too weak to be compared with for that kind of column.
pub open spec fn is_weak_alias(field: int, alias: Seq<char>) -> bool {
    (field == 2 && is_weak_refdes(alias)) || (field == 1 && is_weak_qty(alias))
}

/// The best likeness so far and the kind of column it means.
pub open spec fn better(best: (u64, Option<int>), bits: u64, field: int) -> (u64, Option<int>) {
    if bits >= ALIKE && bits > best.0 {
        (bits, Some(field))
    } else {
        best
    }
}

/// The best likeness after a group's names were compared.
pub open spec fn best_in_group(
    aliases: Seq<Seq<char>>,
    field: int,
    name: Seq<char>,
    best: (u64, Option<int>),
) -> (u64, Option<int>)
    decreases aliases.len(),
{
    if aliases.len() == 0 {
        best
    } else {
        let before = best_in_group(aliases.drop_last(), field, name, best);
        if is_weak_alias(field, aliases.last()) {
            before
        } else {
            better(before, similarity(name, aliases.last()), field)
        }
    }
}

/// The best likeness over all groups that stand for a kind of column.
pub open spec fn best_likeness(groups: Seq<Seq<Seq<char>>>, name: Seq<char>) -> (u64, Option<int>)
    decreases groups.len(),
{
    if groups.len() == 0 {
        (0, None)
    } else {
        let before = best_likeness(groups.drop_last(), name);
        if groups.len() <= FIELDS {
            best_in_group(groups.last(), groups.len() - 1, name, before)
        } else {
            before
        }
    }
}

/// The first group that holds the name, of those that stand for a kind of column.
pub open spec fn exact_field(groups: Seq<Seq<Seq<char>>>, name: Seq<char>, from: int) -> Option<int>
    decreases groups.len() - from,
{
    if from >= groups.len() || from >= FIELDS {
        None
    } else if groups[from].contains(name) {
        Some(from)
    } else {
        exact_field(groups, name, from + 1)
    }
}

/// What a header means: nothing where it is blank, names a distributor, or is too
/// weak beside a stronger one; else the kind of column that it names exactly, or
/// that it is most like.
pub open spec fn meaning(
    header: Seq<char>,
    groups: Seq<Seq<Seq<char>>>,
    strong_refdes: bool,
    strong_qty: bool,
) -> Option<Seq<char>> {
    let name = normal_name(header);
    if name.len() == 0 || is_distributor(name) {
        None
    } else if is_alternate(name) {
        Some("alternate_mpn"@)
    } else if strong_refdes && is_weak_refdes(name) {
        None
    } else if strong_qty && is_weak_qty(name) {
        None
    } else {
        match exact_field(groups, name, 0) {
            Some(i) => Some(field_name(i)),
            None => match best_likeness(groups, name).1 {
                Some(i) => Some(field_name(i)),
                None => None,
            },
        }
    }
}

/// Some header is a strong name for a reference.
pub open spec fn any_strong_refdes(headers: Seq<Seq<char>>) -> bool {
    exists|i: int| 0 <= i < headers.len() && is_strong_refdes(normal_name(#[trigger] headers[i]))
}

/// Some header is a strong name for a quantity.
pub open spec fn any_strong_qty(headers: Seq<Seq<char>>) -> bool {
    exists|i: int| 0 <= i < headers.len() && is_strong_qty(normal_name(#[trigger] headers[i]))
}

/// What the first `n` headers mean.
pub open spec fn mapped(headers: Seq<Seq<char>>, groups: Seq<Seq<Seq<char>>>, n: int) -> Map<
    Seq<char>,
    Seq<char>,
>
    decreases n,
{
    if n <= 0 {
        Map::empty()
    } else {
        let before = mapped(headers, groups, n - 1);
        match meaning(
            headers[n - 1],
            groups,
            any_strong_refdes(headers),
            any_strong_qty(headers),
        ) {
            Some(field) => before.insert(headers[n - 1], field),
            None => before,
        }
    }
}

/// The warnings for headers among the first `n` that name distributors.
pub open spec fn distributor_warnings(headers: Seq<Seq<char>>, n: int) -> Seq<WarningView>
    decreases n,
{
    if n <= 0 {
        Seq::empty()
    } else {
        let before = distributor_warnings(headers, n - 1);
        let name = normal_name(headers[n - 1]);
        if name.len() > 0 && is_distributor(name) {
            before.push(plain_warning(WarningCode::DistSkuSuspect, 0, Some(headers[n - 1])))
        } else {
            before
        }
    }
}

/// Some header means that.
pub open spec fn means_some(mapping: Map<Seq<char>, Seq<char>>, field: Seq<char>) -> bool {
    exists|h: Seq<char>| #[trigger] mapping.dom().contains(h) && mapping[h] == field
}

/// How sure a mapping is, in hundredths: the weights of the first `n` kinds of
/// column that some header means.
pub open spec fn sureness(mapping: Map<Seq<char>, Seq<char>>, n: int) -> nat
    decreases n,
{
    if n <= 0 {
        0
    } else {
        sureness(mapping, n - 1) + if means_some(mapping, field_name(n - 1)) {
            field_weight(n - 1)
        } else {
            0
        }
    }
}

/// Where the first header from a position on that is not blank stands; the number
/// of headers where all are.
pub open spec fn filled_from(headers: Seq<Seq<char>>, from: int) -> int
    decreases headers.len() - from,
{
    if from >= headers.len() {
        headers.len() as int
    } else if !is_blank(headers[from]) {
        from
    } else {
        filled_from(headers, from + 1)
    }
}

/// Where the first header that is not blank stands; 0 where all are.
pub open spec fn offset_of(headers: Seq<Seq<char>>) -> int {
    let first = filled_from(headers, 0);
    if first < headers.len() {
        first
    } else {
        0
    }
}

/// Where the first header that is not blank stands; 0 where all are.
pub fn detect_column_offset(header_row: &[String]) -> (r: usize)
    ensures
        r == offset_of(header_row.deep_view()),
        r <= header_row@.len(),
{
    let ghost all = header_row.deep_view();
    let mut i: usize = 0;
    while i < header_row.len()
        invariant
            i <= header_row@.len(),
            all == header_row.deep_view(),
            filled_from(all, 0) == filled_from(all, i as int),
        decreases header_row@.len() - i,
    {
        assert(all[i as int] == header_row@[i as int]@);
        if !blank(header_row[i].as_str()) {
            return i;
        }
        i += 1;
    }
    0
}

/// Every header before the offset is blank.
pub proof fn only_blanks_before_offset(headers: Seq<Seq<char>>, i: int)
    requires
        0 <= i < offset_of(headers),
    ensures
        is_blank(headers[i]),
{
    blanks_before(headers, 0, i);
}

proof fn blanks_before(headers: Seq<Seq<char>>, from: int, i: int)
    requires
        0 <= from <= i < filled_from(headers, from),
        i < headers.len(),
    ensures
        is_blank(headers[i]),
    decreases headers.len() - from,
{
    if from < i {
        blanks_before(headers, from + 1, i);
    }
}

/// What each column means, from the first header that is not blank on.
pub open spec fn column_meanings(header_row: Seq<Seq<char>>, groups: Seq<Seq<Seq<char>>>) -> Map<
    Seq<char>,
    Seq<char>,
> {
    let headers = header_row.skip(offset_of(header_row));
    mapped(headers, groups, headers.len() as int)
}

/// How sure a mapping is, in hundredths.
pub open spec fn mapping_sureness(mapping: Map<Seq<char>, Seq<char>>) -> nat {
    sureness(mapping, FIELDS as int)
}

/// The warnings about a header row: one for each header that names a distributor,
/// and one where the mapping is not sure enough.
pub open spec fn header_warnings(header_row: Seq<Seq<char>>, groups: Seq<Seq<Seq<char>>>) -> Seq<
    WarningView,
> {
    let headers = header_row.skip(offset_of(header_row));
    let told = distributor_warnings(headers, headers.len() as int);
    if mapping_sureness(column_meanings(header_row, groups)) < SURE {
        told.push(plain_warning(WarningCode::LowMappingConfidence, 0, None))
    } else {
        told
    }
}

/// What each column means, and what is odd about the headers.
pub struct Mapped {
    pub mapping: ColumnMapping,
    /// How sure the mapping is, in hundredths.
    pub confidence: u32,
    pub warnings: Vec<ParseWarning>,
    pub column_offset: usize,
}

fn strong_refdes_among(headers: &[String], from: usize) -> (r: bool)
    requires
        from <= headers@.len(),
    ensures
        r == any_strong_refdes(headers.deep_view().skip(from as int)),
{
    let ghost all = headers.deep_view().skip(from as int);
    let mut i: usize = from;
    while i < headers.len()
        invariant
            from <= i <= headers@.len(),
            all == headers.deep_view().skip(from as int),
            forall|j: int| 0 <= j < i - from ==> !is_strong_refdes(normal_name(#[trigger] all[j])),
        decreases headers@.len() - i,
    {
        let name = normalize_name(headers[i].as_str());
        assert(all[i - from] == headers@[i as int]@);
        if strong_refdes_name(name.as_str()) {
            return true;
        }
        i += 1;
    }
    false
}

fn strong_qty_among(headers: &[String], from: usize) -> (r: bool)
    requires
        from <= headers@.len(),
    ensures
        r == any_strong_qty(headers.deep_view().skip(from as int)),
{
    let ghost all = headers.deep_view().skip(from as int);
    let mut i: usize = from;
    while i < headers.len()
        invariant
            from <= i <= headers@.len(),
            all == headers.deep_view().skip(from as int),
            forall|j: int| 0 <= j < i - from ==> !is_strong_qty(normal_name(#[trigger] all[j])),
        decreases headers@.len() - i,
    {
        let name = normalize_name(headers[i].as_str());
        assert(all[i - from] == headers@[i as int]@);
        if strong_qty_name(name.as_str()) {
            return true;
        }
        i += 1;
    }
    false
}

/// A kind of column as a position.
pub open spec fn opt_int(i: Option<usize>) -> Option<int> {
    match i {
        Some(i) => Some(i as int),
        None => None,
    }
}

fn find_exact(synonyms: &[Vec<String>], name: &str) -> (r: Option<usize>)
    ensures
        opt_int(r) == exact_field(synonyms.deep_view(), name@, 0),
        r is Some ==> r->0 < FIELDS,
{
    let ghost groups = synonyms.deep_view();
    let mut i: usize = 0;
    while i < synonyms.len() && i < FIELDS
        invariant
            i <= synonyms@.len(),
            i <= FIELDS,
            groups == synonyms.deep_view(),
            exact_field(groups, name@, 0) == exact_field(groups, name@, i as int),
        decreases synonyms@.len() - i,
    {
        let list: &[String] = synonyms[i].as_slice();
        assert(list.deep_view() =~= groups[i as int]);
        if list_has(list, name) {
            return Some(i);
        }
        i += 1;
    }
    None
}

fn find_alike(synonyms: &[Vec<String>], name: &str) -> (r: Option<usize>)
    ensures
        opt_int(r) == best_likeness(synonyms.deep_view(), name@).1,
        r is Some ==> r->0 < FIELDS,
{
    let ghost groups = synonyms.deep_view();
    let mut best_bits: u64 = 0;
    let mut best_field: Option<usize> = None;
    let mut g: usize = 0;
    assert(groups.take(0) =~= Seq::<Seq<Seq<char>>>::empty());
    while g < synonyms.len()
        invariant
            g <= synonyms@.len(),
            groups == synonyms.deep_view(),
            best_field is Some ==> best_field->0 < FIELDS,
            (best_bits, opt_int(best_field)) == best_likeness(groups.take(g as int), name@),
        decreases synonyms@.len() - g,
    {
        proof {
            assert(groups.take(g + 1).drop_last() =~= groups.take(g as int));
            assert(groups.take(g + 1).last() == groups[g as int]);
            assert(groups[g as int] == synonyms@[g as int].deep_view());
        }
        if g < FIELDS {
            let group = &synonyms[g];
            let ghost aliases = group.deep_view();
            let ghost start = (best_bits, opt_int(best_field));
            let mut k: usize = 0;
            assert(aliases.take(0) =~= Seq::<Seq<char>>::empty());
            while k < group.len()
                invariant
                    k <= group@.len(),
                    g < FIELDS,
                    aliases == group.deep_view(),
                    best_field is Some ==> best_field->0 < FIELDS,
                    (best_bits, opt_int(best_field)) == best_in_group(
                        aliases.take(k as int),
                        g as int,
                        name@,
                        start,
                    ),
                decreases group@.len() - k,
            {
                proof {
                    assert(aliases.take(k + 1).drop_last() =~= aliases.take(k as int));
                    assert(aliases.take(k + 1).last() == group@[k as int]@);
                }
                let alias = group[k].as_str();
                let weak = (g == 2 && weak_refdes_name(alias)) || (g == 1 && weak_qty_name(alias));
                if !weak {
                    let bits: u64 = jaro_winkler(name, alias);
                    if bits >= ALIKE && bits > best_bits {
                        best_bits = bits;
                        best_field = Some(g);
                    }
                }
                k += 1;
            }
            assert(aliases.take(k as int) =~= aliases);
        }
        g += 1;
    }
    assert(groups.take(g as int) =~= groups);
    best_field
}

fn find_meaning(header: &str, synonyms: &[Vec<String>], strong_refdes: bool, strong_qty: bool) -> (r:
    Option<&'static str>)
    ensures
        r.deep_view() == meaning(header@, synonyms.deep_view(), strong_refdes, strong_qty),
{
    let name = normalize_name(header);
    if name.as_str().is_empty() || distributor_name(name.as_str()) {
        return None;
    }
    if alternate_name(name.as_str()) {
        return Some("alternate_mpn");
    }
    if strong_refdes && weak_refdes_name(name.as_str()) {
        return None;
    }
    if strong_qty && weak_qty_name(name.as_str()) {
        return None;
    }
    match find_exact(synonyms, name.as_str()) {
        Some(i) => Some(name_of_field(i)),
        None => match find_alike(synonyms, name.as_str()) {
            Some(i) => Some(name_of_field(i)),
            None => None,
        },
    }
}

fn any_means(mapping: &ColumnMapping, field: &str) -> (r: bool)
    requires
        mapping.wf(),
    ensures
        r == means_some(viewed(*mapping), field@),
{
    let mut i: usize = 0;
    while i < mapping.entries.len()
        invariant
            i <= mapping.entries@.len(),
            mapping.wf(),
            forall|j: int| 0 <= j < i ==> (#[trigger] mapping.entries@[j]).1@ != field@,
        decreases mapping.entries@.len() - i,
    {
        if same(mapping.entries[i].1.as_str(), field) {
            proof {
                entry_in_map(*mapping, i as int);
                assert(viewed(*mapping).dom().contains(mapping.entries@[i as int].0@));
            }
            return true;
        }
        i += 1;
    }
    proof {
        if means_some(viewed(*mapping), field@) {
            let h = choose|h: Seq<char>| #[trigger]
                viewed(*mapping).dom().contains(h) && viewed(*mapping)[h] == field@;
            key_has_entry(*mapping, h);
        }
    }
    false
}

/// How sure a mapping is, in hundredths.
pub fn confidence_of(mapping: &ColumnMapping) -> (r: u32)
    requires
        mapping.wf(),
    ensures
        r == sureness(viewed(*mapping), FIELDS as int),
        r <= 100,
{
    let mut sum: u32 = 0;
    let mut i: usize = 0;
    while i < FIELDS
        invariant
            i <= FIELDS,
            mapping.wf(),
            sum == sureness(viewed(*mapping), i as int),
            sum <= 40 + 15 + 5 + 30 + 5 + 5,
            i == 0 ==> sum == 0,
            i == 1 ==> sum <= 40,
            i == 2 ==> sum <= 55,
            i == 3 ==> sum <= 60,
            i == 4 ==> sum <= 90,
            i == 5 ==> sum <= 95,
        decreases FIELDS - i,
    {
        if any_means(mapping, name_of_field(i)) {
            sum = sum + weight_of_field(i);
        }
        i += 1;
    }
    sum
}

/// Finds out what each column means, from the first header that is not blank on.
pub fn map_columns(header_row: &[String], synonyms: &[Vec<String>]) -> (r: Mapped)
    ensures
        r.column_offset == offset_of(header_row.deep_view()),
        r.column_offset <= header_row@.len(),
        r.mapping.wf(),
        viewed(r.mapping) == column_meanings(header_row.deep_view(), synonyms.deep_view()),
        r.confidence == mapping_sureness(viewed(r.mapping)),
        r.confidence <= 100,
        warning_views(r.warnings@) == header_warnings(
            header_row.deep_view(),
            synonyms.deep_view(),
        ),
{
    let mut mapping: ColumnMapping = StrMap::new();
    let mut warnings: Vec<ParseWarning> = Vec::new();
    let column_offset: usize = detect_column_offset(header_row);
    let ghost headers = header_row.deep_view().skip(column_offset as int);
    let ghost groups = synonyms.deep_view();
    let strong_refdes = strong_refdes_among(header_row, column_offset);
    let strong_qty = strong_qty_among(header_row, column_offset);
    let mut i: usize = column_offset;
    assert(viewed(mapping) =~= Map::<Seq<char>, Seq<char>>::empty());
    assert(warning_views(warnings@) =~= Seq::<WarningView>::empty());
    while i < header_row.len()
        invariant
            column_offset <= i <= header_row@.len(),
            headers == header_row.deep_view().skip(column_offset as int),
            groups == synonyms.deep_view(),
            strong_refdes == any_strong_refdes(headers),
            strong_qty == any_strong_qty(headers),
            mapping.wf(),
            viewed(mapping) == mapped(headers, groups, i - column_offset),
            warning_views(warnings@) == distributor_warnings(headers, i - column_offset),
        decreases header_row@.len() - i,
    {
        let header = header_row[i].as_str();
        assert(headers[i - column_offset] == header@);
        let name = normalize_name(header);
        if !name.as_str().is_empty() && distributor_name(name.as_str()) {
            push_warning(&mut warnings, WarningCode::DistSkuSuspect, 0, Some(owned(header)));
        }
        if let Some(field) = find_meaning(header, synonyms, strong_refdes, strong_qty) {
            let ghost before = mapping;
            let value = owned(field);
            let ghost v = value;
            mapping.insert(header, value);
            proof {
                viewed_insert(before, mapping, header@, v);
            }
        }
        i += 1;
    }
    let confidence: u32 = confidence_of(&mapping);
    if confidence < SURE {
        push_warning(&mut warnings, WarningCode::LowMappingConfidence, 0, None);
    }
    Mapped { mapping, confidence, warnings, column_offset }
}

/// A header that names a distributor is never mapped.
pub proof fn distributors_are_not_mapped(
    header: Seq<char>,
    groups: Seq<Seq<Seq<char>>>,
    strong_refdes: bool,
    strong_qty: bool,
)
    requires
        is_distributor(normal_name(header)),
    ensures
        meaning(header, groups, strong_refdes, strong_qty) is None,
{
}

proof fn exact_names_are_found(groups: Seq<Seq<Seq<char>>>, name: Seq<char>, from: int, i: int)
    requires
        0 <= from <= i < groups.len(),
        i < 6,
        groups[i].contains(name),
        forall|j: int| from <= j < i ==> !(#[trigger] groups[j]).contains(name),
    ensures
        exact_field(groups, name, from) == Some(i),
    decreases i - from,
{
    if from < i {
        exact_names_are_found(groups, name, from + 1, i);
    }
}

/// A header that is one of the names of a kind of column means that kind, the first where
/// several have the name; weak names count where no strong one stands beside them.
pub proof fn named_columns_are_mapped(
    header: Seq<char>,
    groups: Seq<Seq<Seq<char>>>,
    strong_refdes: bool,
    strong_qty: bool,
    i: int,
)
    requires
        0 <= i < groups.len(),
        i < 6,
        normal_name(header).len() > 0,
        groups[i].contains(normal_name(header)),
        forall|j: int| 0 <= j < i ==> !(#[trigger] groups[j]).contains(normal_name(header)),
        !is_distributor(normal_name(header)),
        !is_alternate(normal_name(header)),
        strong_refdes ==> !is_weak_refdes(normal_name(header)),
        strong_qty ==> !is_weak_qty(normal_name(header)),
    ensures
        ({
            let m = meaning(header, groups, strong_refdes, strong_qty);
            &&& i == 0 ==> m == Some("mpn"@)
            &&& i == 1 ==> m == Some("qty"@)
            &&& i == 2 ==> m == Some("refdes"@)
            &&& i == 3 ==> m == Some("manufacturer"@)
            &&& i == 4 ==> m == Some("description"@)
            &&& i == 5 ==> m == Some("footprint"@)
        }),
{
    exact_names_are_found(groups, normal_name(header), 0, i);
}

proof fn special_names_differ()
    ensures
        !is_distributor("alt mpn"@) && !is_distributor("alternate part"@) && !is_distributor("second source"@)
            && !is_distributor("alt part"@),
        !is_alternate("id"@) && !is_alternate("item"@) && !is_alternate("item no"@) && !is_alternate("item number"@)
            && !is_alternate("line"@) && !is_alternate("line no"@),
        !is_alternate("number"@) && !is_alternate("number of"@) && !is_alternate("total"@) && !is_alternate("units"@)
            && !is_alternate("unit"@) && !is_alternate("nos"@) && !is_alternate("no."@) && !is_alternate("no"@),
        "alt mpn"@.len() > 0 && "alternate part"@.len() > 0 && "second source"@.len() > 0 && "alt part"@.len() > 0,
{
    reveal_strlit("digikey");
    reveal_strlit("mouser");
    reveal_strlit("newark");
    reveal_strlit("arrow");
    reveal_strlit("dist pn");
    reveal_strlit("distributor");
    reveal_strlit("digi-key");
    reveal_strlit("digi-key pn");
    reveal_strlit("alt mpn");
    reveal_strlit("alternate part");
    reveal_strlit("second source");
    reveal_strlit("alt part");
    reveal_strlit("id");
    reveal_strlit("item");
    reveal_strlit("item no");
    reveal_strlit("item number");
    reveal_strlit("line");
    reveal_strlit("line no");
    reveal_strlit("number");
    reveal_strlit("number of");
    reveal_strlit("total");
    reveal_strlit("units");
    reveal_strlit("unit");
    reveal_strlit("nos");
    reveal_strlit("no.");
    reveal_strlit("no");
    assert("digikey"@.len() == 7 && "digikey"@[0] == 'd');
    assert("mouser"@.len() == 6);
    assert("newark"@.len() == 6);
    assert("arrow"@.len() == 5);
    assert("dist pn"@.len() == 7 && "dist pn"@[0] == 'd');
    assert("distributor"@.len() == 11);
    assert("digi-key"@.len() == 8 && "digi-key"@[0] == 'd');
    assert("digi-key pn"@.len() == 11);
    assert("alt mpn"@.len() == 7 && "alt mpn"@[0] == 'a');
    assert("alternate part"@.len() == 14);
    assert("second source"@.len() == 13);
    assert("alt part"@.len() == 8 && "alt part"@[0] == 'a');
    assert("id"@.len() == 2);
    assert("item"@.len() == 4);
    assert("item no"@.len() == 7 && "item no"@[0] == 'i');
    assert("item number"@.len() == 11);
    assert("line"@.len() == 4);
    assert("line no"@.len() == 7 && "line no"@[0] == 'l');
    assert("number"@.len() == 6);
    assert("number of"@.len() == 9);
    assert("total"@.len() == 5);
    assert("units"@.len() == 5);
    assert("unit"@.len() == 4);
    assert("nos"@.len() == 3);
    assert("no."@.len() == 3);
    assert("no"@.len() == 2);
}

/// Distributors' own numbers are no part numbers; alternates are kept apart; and beside a
/// strong name for references or quantities the weak ones mean nothing.
pub proof fn special_names_are_told_apart(
    header: Seq<char>,
    groups: Seq<Seq<Seq<char>>>,
    strong_refdes: bool,
    strong_qty: bool,
)
    ensures
        ({
            let n = normal_name(header);
            let m = meaning(header, groups, strong_refdes, strong_qty);
            &&& n == "digikey"@ || n == "digi-key"@ || n == "digi-key pn"@ || n == "mouser"@ || n == "newark"@ || n
                == "arrow"@ || n == "dist pn"@ || n == "distributor"@ ==> m is None
            &&& n == "alt mpn"@ || n == "alternate part"@ || n == "second source"@ || n == "alt part"@ ==> m == Some(
                "alternate_mpn"@,
            )
            &&& strong_refdes && (n == "id"@ || n == "item"@ || n == "item no"@ || n == "item number"@ || n == "line"@
                || n == "line no"@) ==> m is None
            &&& strong_qty && (n == "number"@ || n == "number of"@ || n == "total"@ || n == "units"@ || n == "unit"@
                || n == "nos"@ || n == "no."@ || n == "no"@) ==> m is None
            &&& n.len() == 0 ==> m is None
        }),
{
    special_names_differ();
}

/// A reference column is strong by these names, and a quantity column by those.
pub proof fn strong_names_are_known(headers: Seq<Seq<char>>, i: int)
    requires
        0 <= i < headers.len(),
    ensures
        ({
            let n = normal_name(headers[i]);
            &&& n == "refdes"@ || n == "designator"@ || n == "reference"@ || n == "references"@ || n
                == "ref designator"@ || n == "reference designator"@ || n == "ref des"@ || n == "reference_designator"@
                || n == "component reference"@ || n == "comp ref"@ ==> any_strong_refdes(headers)
            &&& n == "qty"@ || n == "quantity"@ || n == "qty."@ || n == "quantity per board"@ || n == "qty per board"@
                ==> any_strong_qty(headers)
        }),
{
}

/// No likeness that was found first is lost to a lesser one.
proof fn group_keeps_the_best(
    aliases: Seq<Seq<char>>,
    field: int,
    name: Seq<char>,
    best: (u64, Option<int>),
)
    ensures
        ({
            let after = best_in_group(aliases, field, name, best);
            &&& after.0 >= best.0
            &&& after == best || after.1 == Some(field) && after.0 >= 0x3feb_3333_3333_3333 && after.0 > best.0
                && exists|k: int|
                0 <= k < aliases.len() && !is_weak_alias(field, aliases[k]) && similarity(name, #[trigger] aliases[k])
                    == after.0
            &&& forall|k: int|
                0 <= k < aliases.len() && !is_weak_alias(field, #[trigger] aliases[k]) && similarity(name, aliases[k])
                    >= 0x3feb_3333_3333_3333 ==> similarity(name, aliases[k]) <= after.0
        }),
    decreases aliases.len(),
{
    if aliases.len() > 0 {
        let rest = aliases.drop_last();
        group_keeps_the_best(rest, field, name, best);
        let before = best_in_group(rest, field, name, best);
        let after = best_in_group(aliases, field, name, best);
        assert(aliases.last() == aliases[aliases.len() - 1]);
        assert forall|k: int|
            0 <= k < aliases.len() && !is_weak_alias(field, #[trigger] aliases[k]) && similarity(name, aliases[k])
                >= 0x3feb_3333_3333_3333 implies similarity(name, aliases[k]) <= after.0 by {
            if k < rest.len() {
                assert(rest[k] == aliases[k]);
            }
        }
        if after == before && before != best {
            let k = choose|k: int|
                0 <= k < rest.len() && !is_weak_alias(field, rest[k]) && similarity(name, #[trigger] rest[k]) == before.0;
            assert(aliases[k] == rest[k]);
        }
    }
}

/// A header that is no known name means the kind of the name that it is most like, and
/// only where it is alike enough (the bit pattern of 0.85).
pub proof fn unknown_names_mean_what_they_are_like(groups: Seq<Seq<Seq<char>>>, name: Seq<char>, g: int, k: int)
    requires
        groups.len() <= 6,
    ensures
        ({
            let best = best_likeness(groups, name);
            &&& best.1 is Some <==> best.0 > 0
            &&& best.1 is Some ==> {
                &&& best.0 >= 0x3feb_3333_3333_3333
                &&& 0 <= best.1->0 < groups.len()
                &&& exists|a: int|
                    0 <= a < groups[best.1->0].len() && similarity(name, #[trigger] groups[best.1->0][a]) == best.0
            }
            &&& 0 <= g < groups.len() && 0 <= k < groups[g].len() && !is_weak_alias(g, groups[g][k]) && similarity(
                name,
                groups[g][k],
            ) >= 0x3feb_3333_3333_3333 ==> similarity(name, groups[g][k]) <= best.0
        }),
    decreases groups.len(),
{
    if groups.len() > 0 {
        let rest = groups.drop_last();
        let n = groups.len() - 1;
        unknown_names_mean_what_they_are_like(rest, name, g, k);
        let before = best_likeness(rest, name);
        group_keeps_the_best(groups.last(), n, name, before);
        let best = best_likeness(groups, name);
        assert(groups.last() == groups[n]);
        if best == before && before.1 is Some {
            assert(rest[before.1->0] == groups[before.1->0]);
            let a = choose|a: int|
                0 <= a < rest[before.1->0].len() && similarity(name, #[trigger] rest[before.1->0][a]) == before.0;
            assert(similarity(name, groups[best.1->0][a]) == best.0);
        } else if best != before {
            let a = choose|a: int|
                0 <= a < groups.last().len() && !is_weak_alias(n, groups.last()[a]) && similarity(
                    name,
                    #[trigger] groups.last()[a],
                ) == best.0;
            assert(similarity(name, groups[best.1->0][a]) == best.0);
        }
        if 0 <= g < rest.len() {
            assert(rest[g] == groups[g]);
        }
    }
}

proof fn mapped_headers(headers: Seq<Seq<char>>, groups: Seq<Seq<Seq<char>>>, n: int, h: Seq<char>)
    requires
        0 <= n <= headers.len(),
    ensures
        ({
            let m = mapped(headers, groups, n);
            let means = meaning(h, groups, any_strong_refdes(headers), any_strong_qty(headers));
            &&& m.dom().contains(h) <==> means is Some && exists|i: int| 0 <= i < n && #[trigger] headers[i] == h
            &&& m.dom().contains(h) ==> m[h] == means->0
        }),
    decreases n,
{
    if n > 0 {
        mapped_headers(headers, groups, n - 1, h);
        let before = mapped(headers, groups, n - 1);
        let means = meaning(h, groups, any_strong_refdes(headers), any_strong_qty(headers));
        if headers[n - 1] == h {
            assert(mapped(headers, groups, n).dom().contains(h) <==> means is Some) by {
                if means is None && before.dom().contains(h) {
                    assert(means is Some);
                }
            }
        } else {
            if exists|i: int| 0 <= i < n && #[trigger] headers[i] == h {
                let i = choose|i: int| 0 <= i < n && #[trigger] headers[i] == h;
                assert(0 <= i < n - 1);
            }
        }
    }
}

/// Every header from the first that is not blank on is mapped to what it means, beside the
/// others; and what is mapped is a header.
pub proof fn headers_are_mapped_to_their_meaning(header_row: &[String], synonyms: &[Vec<String>], r: Mapped, i: int)
    requires
        call_ensures(map_columns, (header_row, synonyms), r),
        r.column_offset <= i < header_row@.len(),
    ensures
        ({
            let headers = header_row.deep_view().skip(r.column_offset as int);
            let h = header_row@[i]@;
            let means = meaning(h, synonyms.deep_view(), any_strong_refdes(headers), any_strong_qty(headers));
            &&& means is Some ==> viewed(r.mapping).dom().contains(h) && viewed(r.mapping)[h] == means->0
            &&& means is None ==> !viewed(r.mapping).dom().contains(h)
        }),
        forall|k: int| 0 <= k < r.column_offset ==> is_blank((#[trigger] header_row@[k])@),
{
    let all = header_row.deep_view();
    let headers = all.skip(r.column_offset as int);
    let h = header_row@[i]@;
    assert(headers[i - r.column_offset] == h);
    mapped_headers(headers, synonyms.deep_view(), headers.len() as int, h);
    assert forall|k: int| 0 <= k < r.column_offset implies is_blank((#[trigger] header_row@[k])@) by {
        only_blanks_before_offset(all, k);
        assert(all[k] == header_row@[k]@);
    }
}

/// A part number counts forty of a hundred, a manufacturer thirty, a quantity fifteen, and
/// a reference, a description and a footprint five each.
pub proof fn columns_add_to_confidence(mapping: &ColumnMapping, r: u32)
    requires
        mapping.wf(),
        call_ensures(confidence_of, (mapping,), r),
    ensures
        ({
            let m = viewed(*mapping);
            r == (if means_some(m, "mpn"@) { 40int } else { 0 }) + (if means_some(m, "manufacturer"@) {
                30int
            } else {
                0
            }) + (if means_some(m, "qty"@) { 15int } else { 0 }) + (if means_some(m, "refdes"@) { 5int } else { 0 }) + (
            if means_some(m, "description"@) { 5int } else { 0 }) + (if means_some(m, "footprint"@) { 5int } else { 0 })
        }),
{
    reveal_with_fuel(sureness, 8);
}

proof fn told_of_distributors(headers: Seq<Seq<char>>, n: int, k: int)
    requires
        0 <= n <= headers.len(),
    ensures
        0 <= k < distributor_warnings(headers, n).len() ==> distributor_warnings(headers, n)[k].code
            == WarningCode::DistSkuSuspect,
        0 <= k < n && normal_name(headers[k]).len() > 0 && is_distributor(normal_name(headers[k]))
            ==> distributor_warnings(headers, n).contains(
            WarningView { code: WarningCode::DistSkuSuspect, row_index: 0, column: Some(headers[k]), message: None },
        ),
    decreases n,
{
    if n > 0 {
        told_of_distributors(headers, n - 1, k);
        let before = distributor_warnings(headers, n - 1);
        let after = distributor_warnings(headers, n);
        if 0 <= k < n && normal_name(headers[k]).len() > 0 && is_distributor(normal_name(headers[k])) {
            let w = WarningView {
                code: WarningCode::DistSkuSuspect,
                row_index: 0,
                column: Some(headers[k]),
                message: None,
            };
            if k == n - 1 {
                assert(after[before.len() as int] == w);
            } else {
                let j = choose|j: int| 0 <= j < before.len() && before[j] == w;
                assert(after[j] == w);
            }
        }
    }
}

/// A mapping under sixty of a hundred is warned of, and each header that names a
/// distributor is; nothing else is.
pub proof fn unsure_mappings_are_warned_of(header_row: &[String], synonyms: &[Vec<String>], r: Mapped, i: int, k: int)
    requires
        call_ensures(map_columns, (header_row, synonyms), r),
    ensures
        r.confidence < 60 ==> r.warnings@.len() > 0 && r.warnings@.last()@.code == WarningCode::LowMappingConfidence,
        r.confidence >= 60 && 0 <= k < r.warnings@.len() ==> r.warnings@[k]@.code == WarningCode::DistSkuSuspect,
        r.column_offset <= i < header_row@.len() && normal_name(header_row@[i]@).len() > 0 && is_distributor(
            normal_name(header_row@[i]@),
        ) ==> exists|j: int|
            0 <= j < r.warnings@.len() && (#[trigger] r.warnings@[j])@.code == WarningCode::DistSkuSuspect
                && r.warnings@[j]@.column == Some(header_row@[i]@),
{
    let all = header_row.deep_view();
    let headers = all.skip(r.column_offset as int);
    let n = headers.len() as int;
    let told = distributor_warnings(headers, n);
    let views = warning_views(r.warnings@);
    assert(views.len() == r.warnings@.len());
    if r.confidence < 60 {
        assert(views.last() == r.warnings@.last()@);
    } else if 0 <= k < r.warnings@.len() {
        told_of_distributors(headers, n, k);
        assert(views[k] == r.warnings@[k]@);
    }
    if r.column_offset <= i < header_row@.len() && normal_name(header_row@[i]@).len() > 0 && is_distributor(
        normal_name(header_row@[i]@),
    ) {
        let p = i - r.column_offset;
        assert(headers[p] == header_row@[i]@);
        told_of_distributors(headers, n, p);
        let w = WarningView {
            code: WarningCode::DistSkuSuspect,
            row_index: 0,
            column: Some(headers[p]),
            message: None,
        };
        let j = choose|j: int| 0 <= j < told.len() && told[j] == w;
        assert(views[j] == w);
        assert(r.warnings@[j]@ == w);
    }
}

} // verus!
