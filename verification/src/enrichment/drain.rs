//! Working through the queue of parts that are still to be looked up.

use vstd::prelude::*;
use vstd::string::*;

use super::store::{queue_views, UnresolvedItem, UnresolvedView};
use super::types::{query_from_key, query_of_key, PartQuery, PartResult, PartResultView};
use crate::dynamo::viewed;
use crate::strmap::StrMap;
use crate::text::owned;

verus! {

/// How long to wait when there is nothing to do, in seconds.
pub const IDLE_SLEEP_SECS: u64 = 2;

/// Claimed parts, told apart.
#[derive(Debug)]
pub struct Split {
    /// Known by now: they leave the queue.
    pub resolved: Vec<UnresolvedItem>,
    /// Still to be looked up.
    pub to_lookup: Vec<UnresolvedItem>,
}

/// The claimed parts that are known, or that are not, in order.
pub open spec fn with_known(
    items: Seq<UnresolvedView>,
    cached: Map<Seq<char>, PartResultView>,
    is_known: bool,
) -> Seq<UnresolvedView>
    decreases items.len(),
{
    if items.len() == 0 {
        Seq::empty()
    } else {
        let before = with_known(items.drop_last(), cached, is_known);
        if cached.dom().contains(items.last().pk) == is_known {
            before.push(items.last())
        } else {
            before
        }
    }
}

/// Tells claimed parts that are known by now from those still to be looked up.
pub fn split_claimed(claimed: Vec<UnresolvedItem>, cached: &StrMap<PartResult>) -> (r: Split)
    requires
        cached.wf(),
    ensures
        queue_views(r.resolved@) == with_known(queue_views(claimed@), viewed(*cached), true),
        queue_views(r.to_lookup@) == with_known(queue_views(claimed@), viewed(*cached), false),
{
    let mut rest = claimed;
    let ghost all = rest@;
    let ghost views = queue_views(all);
    let ghost mut n: int = 0;
    let mut resolved: Vec<UnresolvedItem> = Vec::new();
    let mut to_lookup: Vec<UnresolvedItem> = Vec::new();
    assert(all.skip(0) =~= all);
    assert(queue_views(resolved@) =~= with_known(views.take(0), viewed(*cached), true));
    assert(queue_views(to_lookup@) =~= with_known(views.take(0), viewed(*cached), false));
    while rest.len() > 0
        invariant
            0 <= n <= all.len(),
            cached.wf(),
            rest@ == all.skip(n),
            views == queue_views(all),
            queue_views(resolved@) == with_known(views.take(n), viewed(*cached), true),
            queue_views(to_lookup@) == with_known(views.take(n), viewed(*cached), false),
        decreases rest@.len(),
    {
        let item = rest.remove(0);
        let ghost a = resolved@;
        let ghost b = to_lookup@;
        let ghost iv = item@;
        proof {
            assert(item == all[n]);
            assert(rest@ =~= all.skip(n + 1));
            assert(views.take(n + 1).drop_last() =~= views.take(n));
            assert(views.take(n + 1).last() == iv);
            n = n + 1;
        }
        if cached.contains_key(item.pk.as_str()) {
            resolved.push(item);
            assert(queue_views(resolved@) =~= queue_views(a).push(iv));
        } else {
            to_lookup.push(item);
            assert(queue_views(to_lookup@) =~= queue_views(b).push(iv));
        }
    }
    assert(views.take(n) =~= views);
    Split { resolved, to_lookup }
}

/// Each claimed part is on one side.
pub proof fn split_loses_nothing(items: Seq<UnresolvedView>, cached: Map<Seq<char>, PartResultView>)
    ensures
        with_known(items, cached, true).len() + with_known(items, cached, false).len() == items.len(),
    decreases items.len(),
{
    if items.len() > 0 {
        split_loses_nothing(items.drop_last(), cached);
    }
}

/// The question for a queued part; a malformed key leaves the queue.
pub fn resolve_query(item: &UnresolvedItem) -> (r: Result<PartQuery, String>)
    ensures
        match query_of_key(item@.pk) {
            Some(q) => r is Ok && r->Ok_0@ == q,
            None => r is Err && r->Err_0@ == "malformed part key"@,
        },
{
    match query_from_key(item.pk.as_str()) {
        Some(query) => Ok(query),
        None => Err(owned("malformed part key")),
    }
}

/// A claimed part that is known by now leaves the queue; one that is not is looked up.
pub proof fn known_parts_leave_the_queue(
    items: Seq<UnresolvedView>,
    item: UnresolvedView,
    cached: Map<Seq<char>, PartResultView>,
)
    ensures
        cached.dom().contains(item.pk) ==> with_known(items.push(item), cached, true) == with_known(
            items,
            cached,
            true,
        ).push(item) && with_known(items.push(item), cached, false) == with_known(items, cached, false),
        !cached.dom().contains(item.pk) ==> with_known(items.push(item), cached, false) == with_known(
            items,
            cached,
            false,
        ).push(item) && with_known(items.push(item), cached, true) == with_known(items, cached, true),
        with_known(Seq::empty(), cached, true).len() == 0 && with_known(Seq::empty(), cached, false).len() == 0,
{
    assert(items.push(item).drop_last() =~= items);
    assert(items.push(item).last() == item);
}

/// A queued part is looked up by the part and the maker in its key.
pub proof fn queued_parts_are_looked_up(item: &UnresolvedItem, r: Result<PartQuery, String>, mpn: Seq<char>, maker: Seq<char>)
    requires
        call_ensures(resolve_query, (item,), r),
    ensures
        item@.pk == mpn + seq!['#'] + maker && mpn.len() > 0 && !mpn.contains('#') && maker != "UNKNOWN"@ ==> r is Ok
            && r->Ok_0@.mpn == mpn && r->Ok_0@.manufacturer == Some(maker),
        item@.pk == mpn + seq!['#'] + "UNKNOWN"@ && mpn.len() > 0 && !mpn.contains('#') ==> r is Ok && r->Ok_0@.mpn == mpn
            && r->Ok_0@.manufacturer is None,
        !item@.pk.contains('#') ==> r is Err,
{
    if mpn.len() > 0 && !mpn.contains('#') {
        crate::text::search::first_separator_parts(mpn, maker, '#');
        crate::text::search::first_separator_parts(mpn, "UNKNOWN"@, '#');
    }
    crate::text::search::first_index_is_first(item@.pk, '#');
}

} // verus!
