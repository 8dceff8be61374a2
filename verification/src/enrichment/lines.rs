//! Enriching the lines of a bom.

use vstd::prelude::*;
use vstd::string::*;

use super::types::{key_of_part, normal_mpn, normalize_mpn, part_key, PartQuery, PartQueryView, PartResult, PartResultView};
use super::worker::{says_nothing, unknown_part};
use crate::dynamo::viewed;
use crate::gateway::billing::service::lookup;
use crate::json::JsonView;
use crate::model::enrichment::{
    json_views, AvailabilityStatus, EnrichInput, EnrichInputView, EnrichResult, EnrichResultView, EnrichSource,
    LifecycleStatus, MatchStatus,
};
use crate::strmap::StrMap;
use crate::text::{copy_opt, same};

verus! {

/// The answer for a line of which nothing can be known, or is not known yet.
pub open spec fn bare_answer(
    input_index: usize,
    match_status: MatchStatus,
    availability_status: AvailabilityStatus,
) -> EnrichResultView {
    EnrichResultView {
        input_index,
        provider_part_id: None,
        matched_mpn: None,
        matched_manufacturer: None,
        match_status,
        total_avail: 0,
        availability_status,
        lifecycle_status: LifecycleStatus::Unknown,
        factory_lead_days: None,
        top_sellers: Seq::empty(),
        hts_code: None,
        country_of_origin: None,
        category: None,
        fetched_at: None,
        source: None,
    }
}

/// The answer for a line without a part number.
pub open spec fn no_mpn(input_index: usize) -> EnrichResultView {
    bare_answer(input_index, MatchStatus::NoMatch, AvailabilityStatus::NoMatch)
}

/// The answer for a line whose part is still to be looked up.
pub open spec fn pending(input_index: usize) -> EnrichResultView {
    bare_answer(input_index, MatchStatus::Pending, AvailabilityStatus::Pending)
}

/// The answer for a line whose part is known.
pub open spec fn known(input_index: usize, part: PartResultView, source: EnrichSource) -> EnrichResultView {
    EnrichResultView {
        input_index,
        provider_part_id: part.provider_part_id,
        matched_mpn: part.matched_mpn,
        matched_manufacturer: part.matched_manufacturer,
        match_status: part.match_status,
        total_avail: part.total_avail,
        availability_status: part.availability_status,
        lifecycle_status: part.lifecycle_status,
        factory_lead_days: part.factory_lead_days,
        top_sellers: Seq::empty(),
        hts_code: part.hts_code,
        country_of_origin: part.country_of_origin,
        category: part.category,
        fetched_at: Some(part.fetched_at),
        source: Some(source),
    }
}

/// The answer for a line without a part number.
pub fn no_mpn_result(input_index: usize) -> (r: EnrichResult)
    ensures
        r@ == no_mpn(input_index),
{
    let r = EnrichResult {
        input_index,
        provider_part_id: None,
        matched_mpn: None,
        matched_manufacturer: None,
        match_status: MatchStatus::NoMatch,
        total_avail: 0,
        availability_status: AvailabilityStatus::NoMatch,
        lifecycle_status: LifecycleStatus::Unknown,
        factory_lead_days: None,
        top_sellers: Vec::new(),
        hts_code: None,
        country_of_origin: None,
        category: None,
        fetched_at: None,
        source: None,
    };
    assert(json_views(r.top_sellers@) =~= Seq::<JsonView>::empty());
    r
}

/// The answer for a line whose part is still to be looked up.
pub fn pending_result(input_index: usize) -> (r: EnrichResult)
    ensures
        r@ == pending(input_index),
{
    let r = EnrichResult {
        input_index,
        provider_part_id: None,
        matched_mpn: None,
        matched_manufacturer: None,
        match_status: MatchStatus::Pending,
        total_avail: 0,
        availability_status: AvailabilityStatus::Pending,
        lifecycle_status: LifecycleStatus::Unknown,
        factory_lead_days: None,
        top_sellers: Vec::new(),
        hts_code: None,
        country_of_origin: None,
        category: None,
        fetched_at: None,
        source: None,
    };
    assert(json_views(r.top_sellers@) =~= Seq::<JsonView>::empty());
    r
}

/// The answer for a line whose part is known.
pub fn part_to_enrich(input_index: usize, part: &PartResult, source: EnrichSource) -> (r: EnrichResult)
    ensures
        r@ == known(input_index, part@, source),
{
    let r = EnrichResult {
        input_index,
        provider_part_id: copy_opt(&part.provider_part_id),
        matched_mpn: copy_opt(&part.matched_mpn),
        matched_manufacturer: copy_opt(&part.matched_manufacturer),
        match_status: part.match_status,
        total_avail: part.total_avail,
        availability_status: part.availability_status,
        lifecycle_status: part.lifecycle_status,
        factory_lead_days: part.factory_lead_days,
        top_sellers: Vec::new(),
        hts_code: copy_opt(&part.hts_code),
        country_of_origin: copy_opt(&part.country_of_origin),
        category: copy_opt(&part.category),
        fetched_at: Some(part.fetched_at.clone()),
        source: Some(source),
    };
    assert(json_views(r.top_sellers@) =~= Seq::<JsonView>::empty());
    r
}

/// The key of a line's part.
pub open spec fn line_part(line: EnrichInputView) -> Seq<char> {
    key_of_part(line.mpn, line.manufacturer)
}

/// The line has a part number.
pub open spec fn has_mpn(line: EnrichInputView) -> bool {
    normal_mpn(line.mpn).len() > 0
}

fn key_of_line(line: &EnrichInput) -> (r: String)
    ensures
        r@ == line_part(line@),
{
    match &line.manufacturer {
        Some(m) => part_key(line.mpn.as_str(), Some(m.as_str())),
        None => part_key(line.mpn.as_str(), None),
    }
}

/// A part that lines ask for: its key, and the question of the first such line.
#[derive(Debug)]
pub struct WantedPart {
    pub pk: String,
    pub query: PartQuery,
}

/// The content of a wanted part.
#[verifier::ext_equal]
pub struct WantedView {
    pub pk: Seq<char>,
    pub query: PartQueryView,
}

impl View for WantedPart {
    type V = WantedView;

    open spec fn view(&self) -> WantedView {
        WantedView { pk: self.pk@, query: self.query@ }
    }
}

/// The contents of wanted parts.
pub open spec fn wanted_views(parts: Seq<WantedPart>) -> Seq<WantedView> {
    parts.map_values(|p: WantedPart| p@)
}

/// Some wanted part has the key.
pub open spec fn wants(parts: Seq<WantedView>, pk: Seq<char>) -> bool {
    exists|i: int| 0 <= i < parts.len() && (#[trigger] parts[i]).pk == pk
}

/// The parts that lines ask for, each once, in the order in which they first
/// occur. Lines without a part number ask for none.
pub open spec fn wanted(lines: Seq<EnrichInput>) -> Seq<WantedView>
    decreases lines.len(),
{
    if lines.len() == 0 {
        Seq::empty()
    } else {
        let before = wanted(lines.drop_last());
        let line = lines.last()@;
        if !has_mpn(line) || wants(before, line_part(line)) {
            before
        } else {
            before.push(
                WantedView {
                    pk: line_part(line),
                    query: PartQueryView { mpn: line.mpn, manufacturer: line.manufacturer },
                },
            )
        }
    }
}

/// The parts that lines ask for.
pub fn wanted_parts(lines: &Vec<EnrichInput>) -> (r: Vec<WantedPart>)
    ensures
        wanted_views(r@) == wanted(lines@),
{
    let mut out: Vec<WantedPart> = Vec::new();
    let mut i: usize = 0;
    assert(wanted_views(out@) =~= wanted(lines@.take(0)));
    while i < lines.len()
        invariant
            i <= lines@.len(),
            wanted_views(out@) == wanted(lines@.take(i as int)),
        decreases lines@.len() - i,
    {
        let line = &lines[i];
        let ghost before = out@;
        proof {
            assert(lines@.take(i + 1).drop_last() =~= lines@.take(i as int));
            assert(lines@.take(i + 1).last() == *line);
        }
        if !normalize_mpn(line.mpn.as_str()).as_str().is_empty() {
            let pk = key_of_line(line);
            if !has_key(&out, pk.as_str()) {
                let part = WantedPart {
                    pk,
                    query: PartQuery {
                        mpn: line.mpn.clone(),
                        manufacturer: copy_opt(&line.manufacturer),
                    },
                };
                let ghost pv = part@;
                out.push(part);
                assert(wanted_views(out@) =~= wanted_views(before).push(pv));
            }
        }
        i += 1;
    }
    assert(lines@.take(i as int) =~= lines@);
    out
}

fn has_key(parts: &Vec<WantedPart>, pk: &str) -> (r: bool)
    ensures
        r == wants(wanted_views(parts@), pk@),
{
    let ghost views = wanted_views(parts@);
    let mut i: usize = 0;
    while i < parts.len()
        invariant
            i <= parts@.len(),
            views == wanted_views(parts@),
            forall|j: int| 0 <= j < i ==> (#[trigger] views[j]).pk != pk@,
        decreases parts@.len() - i,
    {
        if same(parts[i].pk.as_str(), pk) {
            assert(views[i as int].pk == pk@);
            return true;
        }
        i += 1;
    }
    false
}

/// No part is wanted twice, and every line with a part number has its part among
/// the wanted ones.
pub proof fn wanted_covers(lines: Seq<EnrichInput>)
    ensures
        forall|a: int, b: int|
            0 <= a < b < wanted(lines).len() ==> (#[trigger] wanted(lines)[a]).pk != (#[trigger] wanted(lines)[b]).pk,
        forall|i: int|
            0 <= i < lines.len() && has_mpn((#[trigger] lines[i])@) ==> wants(wanted(lines), line_part(lines[i]@)),
    decreases lines.len(),
{
    if lines.len() > 0 {
        let rest = lines.drop_last();
        let before = wanted(rest);
        let all = wanted(lines);
        wanted_covers(rest);
        assert forall|i: int| 0 <= i < lines.len() && has_mpn((#[trigger] lines[i])@) implies wants(
            all,
            line_part(lines[i]@),
        ) by {
            let pk = line_part(lines[i]@);
            if i < rest.len() {
                assert(rest[i] == lines[i]);
                assert(wants(before, pk));
                let k = choose|k: int| 0 <= k < before.len() && (#[trigger] before[k]).pk == pk;
                assert(all[k] == before[k]);
            } else if wants(before, pk) {
                let k = choose|k: int| 0 <= k < before.len() && (#[trigger] before[k]).pk == pk;
                assert(all[k] == before[k]);
            } else {
                assert(all[before.len() as int].pk == pk);
            }
        }
        assert forall|a: int, b: int| 0 <= a < b < all.len() implies (#[trigger] all[a]).pk != (
        #[trigger] all[b]).pk by {
            assert(all[a] == before[a]);
            if b < before.len() {
                assert(all[b] == before[b]);
            }
        }
    }
}

/// The keys of wanted parts, in order.
pub fn wanted_keys(parts: &Vec<WantedPart>) -> (r: Vec<String>)
    ensures
        r.deep_view() == wanted_views(parts@).map_values(|p: WantedView| p.pk),
{
    let mut out: Vec<String> = Vec::new();
    let mut i: usize = 0;
    while i < parts.len()
        invariant
            i <= parts@.len(),
            out@.len() == i,
            forall|j: int| 0 <= j < i ==> (#[trigger] out@[j])@ == parts@[j].pk@,
        decreases parts@.len() - i,
    {
        out.push(parts[i].pk.clone());
        i += 1;
    }
    assert(out.deep_view() =~= wanted_views(parts@).map_values(|p: WantedView| p.pk));
    out
}

/// The wanted parts that are not known, in order.
pub open spec fn unknown_of(parts: Seq<WantedView>, cached: Map<Seq<char>, PartResultView>) -> Seq<WantedView>
    decreases parts.len(),
{
    if parts.len() == 0 {
        Seq::empty()
    } else {
        let before = unknown_of(parts.drop_last(), cached);
        if cached.dom().contains(parts.last().pk) {
            before
        } else {
            before.push(parts.last())
        }
    }
}

/// The wanted parts that are not known.
pub fn missing_parts(parts: Vec<WantedPart>, cached: &StrMap<PartResult>) -> (r: Vec<WantedPart>)
    requires
        cached.wf(),
    ensures
        wanted_views(r@) == unknown_of(wanted_views(parts@), viewed(*cached)),
{
    let mut rest = parts;
    let ghost all = rest@;
    let ghost views = wanted_views(all);
    let ghost mut n: int = 0;
    let mut out: Vec<WantedPart> = Vec::new();
    assert(all.skip(0) =~= all);
    assert(wanted_views(out@) =~= unknown_of(views.take(0), viewed(*cached)));
    while rest.len() > 0
        invariant
            0 <= n <= all.len(),
            cached.wf(),
            rest@ == all.skip(n),
            views == wanted_views(all),
            wanted_views(out@) == unknown_of(views.take(n), viewed(*cached)),
        decreases rest@.len(),
    {
        let part = rest.remove(0);
        let ghost before = out@;
        proof {
            assert(part == all[n]);
            assert(rest@ =~= all.skip(n + 1));
            assert(views.take(n + 1).drop_last() =~= views.take(n));
            assert(views.take(n + 1).last() == part@);
            n = n + 1;
        }
        if !cached.contains_key(part.pk.as_str()) {
            let ghost pv = part@;
            out.push(part);
            assert(wanted_views(out@) =~= wanted_views(before).push(pv));
        }
    }
    assert(views.take(n) =~= views);
    out
}

/// The answer for a line: from the cache where its part is there, else from what
/// was looked up just now, else that it is still to be looked up. A part that no
/// provider knows is still to be looked up.
pub open spec fn answer(
    line: EnrichInputView,
    i: usize,
    cached: Map<Seq<char>, PartResultView>,
    live: Map<Seq<char>, PartResultView>,
) -> EnrichResultView {
    if !has_mpn(line) {
        no_mpn(i)
    } else {
        match lookup(cached, line_part(line)) {
            Some(part) => known(i, part, EnrichSource::Cache),
            None => match lookup(live, line_part(line)) {
                Some(part) => if part == unknown_part(part.fetched_at) {
                    pending(i)
                } else {
                    known(i, part, EnrichSource::LiveMiss)
                },
                None => pending(i),
            },
        }
    }
}

/// The answers for all lines, in order. What was looked up just now is none where
/// only the cache is asked.
pub fn enrich_lines(
    lines: &Vec<EnrichInput>,
    cached: &StrMap<PartResult>,
    live: &StrMap<PartResult>,
) -> (r: Vec<EnrichResult>)
    requires
        cached.wf(),
        live.wf(),
    ensures
        r@.len() == lines@.len(),
        forall|i: int|
            0 <= i < r@.len() ==> (#[trigger] r@[i])@ == answer(
                lines@[i]@,
                i as usize,
                viewed(*cached),
                viewed(*live),
            ),
{
    let mut out: Vec<EnrichResult> = Vec::new();
    let mut i: usize = 0;
    while i < lines.len()
        invariant
            i <= lines@.len(),
            cached.wf(),
            live.wf(),
            out@.len() == i,
            forall|j: int|
                0 <= j < i ==> (#[trigger] out@[j])@ == answer(
                    lines@[j]@,
                    j as usize,
                    viewed(*cached),
                    viewed(*live),
                ),
        decreases lines@.len() - i,
    {
        let line = &lines[i];
        let row = if normalize_mpn(line.mpn.as_str()).as_str().is_empty() {
            no_mpn_result(i)
        } else {
            let pk = key_of_line(line);
            match cached.get(pk.as_str()) {
                Some(part) => part_to_enrich(i, part, EnrichSource::Cache),
                None => match live.get(pk.as_str()) {
                    Some(part) => if says_nothing(part) {
                        pending_result(i)
                    } else {
                        part_to_enrich(i, part, EnrichSource::LiveMiss)
                    },
                    None => pending_result(i),
                },
            }
        };
        out.push(row);
        i += 1;
    }
    out
}

/// A part that was looked up and that no provider knows is pending for the customer.
pub proof fn unknown_part_is_pending(
    line: EnrichInputView,
    i: usize,
    cached: Map<Seq<char>, PartResultView>,
    live: Map<Seq<char>, PartResultView>,
    fetched_at: Seq<char>,
)
    requires
        has_mpn(line),
        !cached.dom().contains(line_part(line)),
        live.dom().contains(line_part(line)),
        live[line_part(line)] == unknown_part(fetched_at),
    ensures
        answer(line, i, cached, live) == pending(i),
{
}

/// Lines that ask for the same part get the same answer, but for their position.
pub proof fn same_part_same_answer(
    a: EnrichInputView,
    b: EnrichInputView,
    i: usize,
    j: usize,
    cached: Map<Seq<char>, PartResultView>,
    live: Map<Seq<char>, PartResultView>,
)
    requires
        line_part(a) == line_part(b),
        has_mpn(a) == has_mpn(b),
    ensures
        (EnrichResultView { input_index: 0, ..answer(a, i, cached, live) }) == (EnrichResultView {
            input_index: 0,
            ..answer(b, j, cached, live)
        }),
        answer(a, i, cached, live).input_index == i,
{
}

/// The keys of wanted parts.
pub open spec fn keys_of(parts: Seq<WantedView>) -> Seq<Seq<char>> {
    parts.map_values(|p: WantedView| p.pk)
}

/// The keys of the missing parts that are to be looked up later: those of which
/// nothing was found out just now.
pub fn parts_to_queue(missing: &Vec<WantedPart>, live: &StrMap<PartResult>) -> (r: Vec<String>)
    requires
        live.wf(),
    ensures
        r.deep_view() == keys_of(unknown_of(wanted_views(missing@), viewed(*live))),
{
    let ghost views = wanted_views(missing@);
    let mut out: Vec<String> = Vec::new();
    let mut i: usize = 0;
    assert(views.take(0) =~= Seq::<WantedView>::empty());
    assert(out.deep_view() =~= keys_of(unknown_of(views.take(0), viewed(*live))));
    while i < missing.len()
        invariant
            i <= missing@.len(),
            live.wf(),
            views == wanted_views(missing@),
            out.deep_view() == keys_of(unknown_of(views.take(i as int), viewed(*live))),
        decreases missing@.len() - i,
    {
        let ghost before = out.deep_view();
        let ghost so_far = unknown_of(views.take(i as int), viewed(*live));
        proof {
            assert(views.take(i + 1).drop_last() =~= views.take(i as int));
            assert(views.take(i + 1).last() == missing@[i as int]@);
        }
        if !live.contains_key(missing[i].pk.as_str()) {
            out.push(missing[i].pk.clone());
            assert(out.deep_view() =~= before.push(missing@[i as int].pk@));
            assert(keys_of(so_far.push(missing@[i as int]@)) =~= keys_of(so_far).push(
                missing@[i as int].pk@,
            ));
        }
        i += 1;
    }
    assert(views.take(i as int) =~= views);
    out
}

proof fn unknown_stay(parts: Seq<WantedView>, known: Map<Seq<char>, PartResultView>, i: int)
    requires
        0 <= i < parts.len(),
        !known.dom().contains(parts[i].pk),
    ensures
        wants(unknown_of(parts, known), parts[i].pk),
    decreases parts.len(),
{
    let before = unknown_of(parts.drop_last(), known);
    let all = unknown_of(parts, known);
    if i < parts.len() - 1 {
        unknown_stay(parts.drop_last(), known, i);
        let k = choose|k: int| 0 <= k < before.len() && (#[trigger] before[k]).pk == parts[i].pk;
        assert(all[k] == before[k]);
    } else {
        assert(all.last() == parts[i]);
        assert(all[all.len() - 1].pk == parts[i].pk);
    }
}

/// No part is forgotten: one that a line asks for, that is neither cached nor was
/// found out just now, is queued to be looked up later.
pub proof fn open_parts_are_queued(
    lines: Seq<EnrichInput>,
    cached: Map<Seq<char>, PartResultView>,
    live: Map<Seq<char>, PartResultView>,
    i: int,
)
    requires
        0 <= i < lines.len(),
        has_mpn(lines[i]@),
        !cached.dom().contains(line_part(lines[i]@)),
        !live.dom().contains(line_part(lines[i]@)),
    ensures
        keys_of(unknown_of(unknown_of(wanted(lines), cached), live)).contains(
            line_part(lines[i]@),
        ),
{
    let pk = line_part(lines[i]@);
    line_is_wanted(lines, i);
    let all = wanted(lines);
    let a = choose|k: int| 0 <= k < all.len() && (#[trigger] all[k]).pk == pk;
    unknown_stay(all, cached, a);
    let missing = unknown_of(all, cached);
    let b = choose|k: int| 0 <= k < missing.len() && (#[trigger] missing[k]).pk == pk;
    unknown_stay(missing, live, b);
    let queue = unknown_of(missing, live);
    let c = choose|k: int| 0 <= k < queue.len() && (#[trigger] queue[k]).pk == pk;
    assert(keys_of(queue)[c] == pk);
}

proof fn line_is_wanted(lines: Seq<EnrichInput>, i: int)
    requires
        0 <= i < lines.len(),
        has_mpn(lines[i]@),
    ensures
        wants(wanted(lines), line_part(lines[i]@)),
    decreases lines.len(),
{
    let before = wanted(lines.drop_last());
    let all = wanted(lines);
    if i < lines.len() - 1 {
        line_is_wanted(lines.drop_last(), i);
        let k = choose|k: int| 0 <= k < before.len() && (#[trigger] before[k]).pk == line_part(lines[i]@);
        assert(all[k] == before[k]);
    } else if !wants(before, line_part(lines[i]@)) {
        assert(all[all.len() - 1].pk == line_part(lines[i]@));
    }
}

/// Each line is answered in its place: without a part number there is no match; a part in
/// the cache is answered from it with all that is kept; one that was just found is too; and
/// any other is still to be looked up.
pub proof fn lines_are_answered_by_their_part(
    lines: &Vec<EnrichInput>,
    cached: &StrMap<PartResult>,
    live: &StrMap<PartResult>,
    r: Vec<EnrichResult>,
    i: usize,
)
    requires
        cached.wf(),
        live.wf(),
        call_ensures(enrich_lines, (lines, cached, live), r),
        0 <= i < lines@.len(),
    ensures
        r@.len() == lines@.len(),
        r@[i as int]@.input_index == i,
        normal_mpn(lines@[i as int]@.mpn).len() == 0 ==> r@[i as int]@.match_status == MatchStatus::NoMatch
            && r@[i as int]@.availability_status == AvailabilityStatus::NoMatch && r@[i as int]@.source is None,
        normal_mpn(lines@[i as int]@.mpn).len() > 0 ==> ({
            let key = key_of_part(lines@[i as int]@.mpn, lines@[i as int]@.manufacturer);
            let a = r@[i as int]@;
            let c = viewed(*cached);
            let l = viewed(*live);
            &&& c.dom().contains(key) ==> {
                &&& a.source == Some(EnrichSource::Cache)
                &&& a.lifecycle_status == c[key].lifecycle_status
                &&& a.availability_status == c[key].availability_status
                &&& a.match_status == c[key].match_status
                &&& a.total_avail == c[key].total_avail
                &&& a.factory_lead_days == c[key].factory_lead_days
                &&& a.provider_part_id == c[key].provider_part_id
                &&& a.matched_mpn == c[key].matched_mpn
                &&& a.matched_manufacturer == c[key].matched_manufacturer
                &&& a.hts_code == c[key].hts_code
                &&& a.country_of_origin == c[key].country_of_origin
                &&& a.category == c[key].category
                &&& a.fetched_at == Some(c[key].fetched_at)
            }
            &&& !c.dom().contains(key) && l.dom().contains(key) && l[key].match_status != MatchStatus::NoMatch ==> {
                &&& a.source == Some(EnrichSource::LiveMiss)
                &&& a.lifecycle_status == l[key].lifecycle_status
                &&& a.availability_status == l[key].availability_status
                &&& a.match_status == l[key].match_status
                &&& a.total_avail == l[key].total_avail
                &&& a.factory_lead_days == l[key].factory_lead_days
                &&& a.hts_code == l[key].hts_code
                &&& a.country_of_origin == l[key].country_of_origin
                &&& a.category == l[key].category
                &&& a.fetched_at == Some(l[key].fetched_at)
            }
            &&& !c.dom().contains(key) && !l.dom().contains(key) ==> {
                &&& a.match_status == MatchStatus::Pending
                &&& a.availability_status == AvailabilityStatus::Pending
                &&& a.lifecycle_status == LifecycleStatus::Unknown
                &&& a.total_avail == 0
                &&& a.source is None
            }
        }),
{
    assert(r@[i as int]@ == answer(lines@[i as int]@, i, viewed(*cached), viewed(*live)));
}

/// Each part is wanted once, under its key and as the first line that asks for it does.
pub proof fn each_part_is_wanted_once(lines: Seq<EnrichInput>, line: EnrichInput)
    ensures
        wanted(Seq::empty()).len() == 0,
        normal_mpn(line@.mpn).len() == 0 ==> wanted(lines.push(line)) == wanted(lines),
        normal_mpn(line@.mpn).len() > 0 && wants(wanted(lines), key_of_part(line@.mpn, line@.manufacturer)) ==> wanted(
            lines.push(line),
        ) == wanted(lines),
        normal_mpn(line@.mpn).len() > 0 && !wants(wanted(lines), key_of_part(line@.mpn, line@.manufacturer)) ==> {
            let more = wanted(lines.push(line));
            &&& more.len() == wanted(lines).len() + 1
            &&& more.last().pk == key_of_part(line@.mpn, line@.manufacturer)
            &&& more.last().query.mpn == line@.mpn
            &&& more.last().query.manufacturer == line@.manufacturer
        },
{
    assert(lines.push(line).drop_last() =~= lines);
    assert(lines.push(line).last() == line);
}

/// The parts that are missing are those that are not in the cache, in their order.
pub proof fn missing_parts_are_not_cached(
    parts: Seq<WantedView>,
    part: WantedView,
    cached: Map<Seq<char>, PartResultView>,
)
    ensures
        unknown_of(Seq::empty(), cached).len() == 0,
        cached.dom().contains(part.pk) ==> unknown_of(parts.push(part), cached) == unknown_of(parts, cached),
        !cached.dom().contains(part.pk) ==> unknown_of(parts.push(part), cached) == unknown_of(parts, cached).push(part),
{
    assert(parts.push(part).drop_last() =~= parts);
    assert(parts.push(part).last() == part);
}

/// Nothing is known of a part that is pending, nor of a line without one.
pub proof fn bare_answers_know_nothing(i: usize, a: EnrichResult, b: EnrichResult)
    requires
        call_ensures(no_mpn_result, (i,), a),
        call_ensures(pending_result, (i,), b),
    ensures
        a@.input_index == i && b@.input_index == i,
        a@.availability_status == AvailabilityStatus::NoMatch && a@.match_status == MatchStatus::NoMatch,
        b@.availability_status == AvailabilityStatus::Pending && b@.match_status == MatchStatus::Pending,
        a@.lifecycle_status == LifecycleStatus::Unknown && b@.lifecycle_status == LifecycleStatus::Unknown,
        a@.total_avail == 0 && b@.total_avail == 0,
        a@.factory_lead_days is None && b@.factory_lead_days is None,
        a@.fetched_at is None && b@.fetched_at is None,
{
}

} // verus!
