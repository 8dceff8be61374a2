//! The names under which columns are known.

use vstd::prelude::*;
use vstd::string::*;

use crate::text::case::{lowercase, to_lowercase};
use crate::text::search::list_has;
use crate::text::{owned, trim, trimmed};

verus! {

/// Rows of cells.
pub type Grid = Seq<Seq<Seq<char>>>;

fn group(names: &[&str]) -> (r: Vec<String>)
    ensures
        r.deep_view() == names.deep_view(),
{
    let mut out: Vec<String> = Vec::new();
    let mut i: usize = 0;
    while i < names.len()
        invariant
            i <= names@.len(),
            out@.len() == i,
            forall|j: int| 0 <= j < i ==> (#[trigger] out@[j])@ == names@[j]@,
        decreases names@.len() - i,
    {
        out.push(owned(names[i]));
        i += 1;
    }
    assert(out.deep_view() =~= names.deep_view());
    out
}

/// The names of each kind of column: part number, quantity, reference,
/// manufacturer, description, footprint.
pub open spec fn known_names() -> Seq<Seq<Seq<char>>> {
    seq![
        seq![
            "mpn"@, "mfr part #"@, "mfg part #"@, "mfr. part #"@, "manf. part #"@,
            "manufacturer part number"@, "manufacturer part"@, "manufacturer pn"@,
            "part number"@, "part no"@, "part #"@, "pn"@, "manufacturer sku"@,
        ],
        seq!["qty"@, "quantity"@, "count"@, "amount"@, "q"@, "number"@, "number of"@, "total"@],
        seq![
            "reference"@, "ref"@, "refdes"@, "designator"@, "refs"@, "references"@,
            "ref designator"@, "component reference"@,
        ],
        seq!["manufacturer"@, "mfr"@, "mfg"@, "brand"@, "make"@, "mfgr"@],
        seq![
            "description"@, "desc"@, "value"@, "designation"@, "device"@,
            "component"@, "part description"@, "specification"@,
        ],
        seq!["footprint"@, "package"@, "case"@, "pcb footprint"@, "pcb package"@, "pattern"@],
    ]
}

/// The names of each kind of column.
pub fn default_synonyms() -> (r: Vec<Vec<String>>)
    ensures
        r.deep_view() == known_names(),
{
    let mpn: [&str; 13] = [
        "mpn", "mfr part #", "mfg part #", "mfr. part #", "manf. part #",
        "manufacturer part number", "manufacturer part", "manufacturer pn",
        "part number", "part no", "part #", "pn", "manufacturer sku",
    ];
    let qty: [&str; 8] = ["qty", "quantity", "count", "amount", "q", "number", "number of", "total"];
    let refdes: [&str; 8] = [
        "reference", "ref", "refdes", "designator", "refs", "references",
        "ref designator", "component reference",
    ];
    let manufacturer: [&str; 6] = ["manufacturer", "mfr", "mfg", "brand", "make", "mfgr"];
    let description: [&str; 8] = [
        "description", "desc", "value", "designation", "device",
        "component", "part description", "specification",
    ];
    let footprint: [&str; 6] = ["footprint", "package", "case", "pcb footprint", "pcb package", "pattern"];
    proof {
        assert(mpn.deep_view() =~= known_names()[0]);
        assert(qty.deep_view() =~= known_names()[1]);
        assert(refdes.deep_view() =~= known_names()[2]);
        assert(manufacturer.deep_view() =~= known_names()[3]);
        assert(description.deep_view() =~= known_names()[4]);
        assert(footprint.deep_view() =~= known_names()[5]);
    }
    let r = vec![
        group(&mpn),
        group(&qty),
        group(&refdes),
        group(&manufacturer),
        group(&description),
        group(&footprint),
    ];
    assert(r.deep_view() =~= known_names());
    r
}

/// A column's name as it is compared: trimmed and in lower case.
pub open spec fn normal_name(cell: Seq<char>) -> Seq<char> {
    lowercase(trimmed(cell))
}

/// A column's name as it is compared.
pub fn normalize_name(cell: &str) -> (r: String)
    ensures
        r@ == normal_name(cell@),
{
    to_lowercase(trim(cell).as_str())
}

/// Some group holds the name.
pub open spec fn in_some_group(groups: Seq<Seq<Seq<char>>>, name: Seq<char>) -> bool {
    exists|g: int| 0 <= g < groups.len() && (#[trigger] groups[g]).contains(name)
}

/// The cell names a column.
pub open spec fn names_column(cell: Seq<char>, groups: Seq<Seq<Seq<char>>>) -> bool {
    normal_name(cell).len() > 0 && in_some_group(groups, normal_name(cell))
}

/// Whether the cell names a column.
pub fn matches_any(cell: &str, synonyms: &[Vec<String>]) -> (r: bool)
    ensures
        r == names_column(cell@, synonyms.deep_view()),
{
    let name = normalize_name(cell);
    if name.as_str().is_empty() {
        return false;
    }
    let ghost groups = synonyms.deep_view();
    let mut i: usize = 0;
    while i < synonyms.len()
        invariant
            i <= synonyms@.len(),
            groups == synonyms.deep_view(),
            name@ == normal_name(cell@),
            name@.len() > 0,
            forall|g: int| 0 <= g < i ==> !(#[trigger] groups[g]).contains(name@),
        decreases synonyms@.len() - i,
    {
        let list: &[String] = synonyms[i].as_slice();
        assert(list.deep_view() =~= groups[i as int]);
        if list_has(list, name.as_str()) {
            return true;
        }
        i += 1;
    }
    false
}

/// The names of part numbers are known as such, those of quantities as such, and so on for
/// references, manufacturers, descriptions and footprints.
pub proof fn common_names_are_known(r: Vec<Vec<String>>)
    requires
        call_ensures(default_synonyms, (), r),
    ensures
        r.deep_view().len() == 6,
        ({
            let parts = r.deep_view()[0];
            &&& parts.contains("mpn"@) && parts.contains("mfr part #"@) && parts.contains("mfg part #"@)
            &&& parts.contains("mfr. part #"@) && parts.contains("manf. part #"@)
            &&& parts.contains("manufacturer part number"@) && parts.contains("manufacturer part"@)
            &&& parts.contains("manufacturer pn"@) && parts.contains("part number"@) && parts.contains("part no"@)
            &&& parts.contains("part #"@) && parts.contains("pn"@) && parts.contains("manufacturer sku"@)
            &&& parts.len() == 13
        }),
        ({
            let quantities = r.deep_view()[1];
            &&& quantities.contains("qty"@) && quantities.contains("quantity"@) && quantities.contains("count"@)
            &&& quantities.contains("amount"@) && quantities.contains("q"@) && quantities.contains("number"@)
            &&& quantities.contains("number of"@) && quantities.contains("total"@)
            &&& quantities.len() == 8
        }),
        ({
            let references = r.deep_view()[2];
            &&& references.contains("reference"@) && references.contains("ref"@) && references.contains("refdes"@)
            &&& references.contains("designator"@) && references.contains("refs"@) && references.contains("references"@)
            &&& references.contains("ref designator"@) && references.contains("component reference"@)
            &&& references.len() == 8
        }),
        ({
            let makers = r.deep_view()[3];
            &&& makers.contains("manufacturer"@) && makers.contains("mfr"@) && makers.contains("mfg"@)
            &&& makers.contains("brand"@) && makers.contains("make"@) && makers.contains("mfgr"@)
            &&& makers.len() == 6
        }),
        ({
            let descriptions = r.deep_view()[4];
            &&& descriptions.contains("description"@) && descriptions.contains("desc"@) && descriptions.contains("value"@)
            &&& descriptions.contains("designation"@) && descriptions.contains("device"@)
            &&& descriptions.contains("component"@) && descriptions.contains("part description"@)
            &&& descriptions.contains("specification"@)
            &&& descriptions.len() == 8
        }),
        ({
            let footprints = r.deep_view()[5];
            &&& footprints.contains("footprint"@) && footprints.contains("package"@) && footprints.contains("case"@)
            &&& footprints.contains("pcb footprint"@) && footprints.contains("pcb package"@)
            &&& footprints.contains("pattern"@)
            &&& footprints.len() == 6
        }),
{
    let all = r.deep_view();
    assert(all == known_names());
    let a = all[0];
    assert(a[0] == "mpn"@ && a[1] == "mfr part #"@ && a[2] == "mfg part #"@ && a[3] == "mfr. part #"@ && a[4]
        == "manf. part #"@ && a[5] == "manufacturer part number"@ && a[6] == "manufacturer part"@ && a[7]
        == "manufacturer pn"@ && a[8] == "part number"@ && a[9] == "part no"@ && a[10] == "part #"@ && a[11] == "pn"@
        && a[12] == "manufacturer sku"@);
    let b = all[1];
    assert(b[0] == "qty"@ && b[1] == "quantity"@ && b[2] == "count"@ && b[3] == "amount"@ && b[4] == "q"@ && b[5]
        == "number"@ && b[6] == "number of"@ && b[7] == "total"@);
    let c = all[2];
    assert(c[0] == "reference"@ && c[1] == "ref"@ && c[2] == "refdes"@ && c[3] == "designator"@ && c[4] == "refs"@
        && c[5] == "references"@ && c[6] == "ref designator"@ && c[7] == "component reference"@);
    let d = all[3];
    assert(d[0] == "manufacturer"@ && d[1] == "mfr"@ && d[2] == "mfg"@ && d[3] == "brand"@ && d[4] == "make"@ && d[5]
        == "mfgr"@);
    let e = all[4];
    assert(e[0] == "description"@ && e[1] == "desc"@ && e[2] == "value"@ && e[3] == "designation"@ && e[4] == "device"@
        && e[5] == "component"@ && e[6] == "part description"@ && e[7] == "specification"@);
    let f = all[5];
    assert(f[0] == "footprint"@ && f[1] == "package"@ && f[2] == "case"@ && f[3] == "pcb footprint"@ && f[4]
        == "pcb package"@ && f[5] == "pattern"@);
}

/// A cell names a column exactly if some group holds its name; blanks around it do not
/// matter.
pub proof fn cells_name_columns(cell: &str, other: &str, synonyms: &[Vec<String>], r: bool, s: bool, g: int)
    requires
        call_ensures(matches_any, (cell, synonyms), r),
        call_ensures(matches_any, (other, synonyms), s),
    ensures
        0 <= g < synonyms.deep_view().len() && lowercase(trimmed(cell@)).len() > 0 && synonyms.deep_view()[g].contains(
            lowercase(trimmed(cell@)),
        ) ==> r,
        (forall|k: int| 0 <= k < synonyms.deep_view().len() ==> !(#[trigger] synonyms.deep_view()[k]).contains(
            lowercase(trimmed(cell@)),
        )) ==> !r,
        trimmed(cell@) == trimmed(other@) ==> r == s,
{
}

} // verus!
