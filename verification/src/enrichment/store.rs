//! The queue of parts that are still to be looked up, and batches of keys.

use vstd::prelude::*;
use vstd::string::*;

use super::store_item::{item_part, item_to_result};
use super::types::{PartResult, PartResultView};
use crate::clock::{moment_of, parse_moment, Moment};
use crate::dynamo::{get_n, get_s, new_item, number_attr, put_n, put_s, text_attr, viewed, viewed_insert, AttrView, Item, ItemView};
use crate::sorting::{is_stable_sort, lex_lt, lex_lt_order, stable_sort, text_key, text_less, SortKey};
use crate::strmap::StrMap;
use crate::tally::{has_name, index, occurrences, occurring_is_there, tally_views};
use crate::text::number::{dec_nat, parse_u32, u64_text, unsigned_value};
use crate::text::search::list_has;
use crate::text::{owned, same};

verus! {

/// The table of parts.
pub const PARTS_TABLE: &'static str = "prokuro-parts";

/// The table of parts that are still to be looked up.
pub const UNRESOLVED_TABLE: &'static str = "prokuro-unresolved";

/// The sort key of a part's one row.
pub const CURRENT_SK: &'static str = "CURRENT";

/// How many parts are read at once.
pub const BATCH_GET_CHUNK: usize = 100;

/// How many rows are deleted at once.
pub const BATCH_WRITE_CHUNK: usize = 25;

/// How often a part is looked up before it is given up.
pub const DEFAULT_MAX_ATTEMPTS: u32 = 10;

/// How long a part rests between lookups, in seconds.
pub const DEFAULT_BACKOFF_SECS: u64 = 30;

/// Why a table could not be read or written.
#[derive(Debug)]
pub enum StoreError {
    Dynamo(String),
    Serde(String),
}

/// The message of an error.
pub open spec fn store_error_text(error: StoreError) -> Seq<char> {
    match error {
        StoreError::Dynamo(m) => "dynamodb: "@ + m@,
        StoreError::Serde(m) => "serde: "@ + m@,
    }
}

impl StoreError {
    /// The message.
    pub fn message(&self) -> (r: String)
        ensures
            r@ == store_error_text(*self),
    {
        match self {
            StoreError::Dynamo(m) => {
                let mut s = owned("dynamodb: ");
                s.append(m.as_str());
                s
            },
            StoreError::Serde(m) => {
                let mut s = owned("serde: ");
                s.append(m.as_str());
                s
            },
        }
    }
}

/// A part that is still to be looked up.
#[derive(Debug)]
pub struct UnresolvedItem {
    pub pk: String,
    pub first_seen: String,
    pub attempt_count: u32,
    pub last_attempted_at: Option<String>,
}

/// The content of a queued part.
#[verifier::ext_equal]
pub struct UnresolvedView {
    pub pk: Seq<char>,
    pub first_seen: Seq<char>,
    pub attempt_count: u32,
    pub last_attempted_at: Option<Seq<char>>,
}

impl View for UnresolvedItem {
    type V = UnresolvedView;

    open spec fn view(&self) -> UnresolvedView {
        UnresolvedView {
            pk: self.pk@,
            first_seen: self.first_seen@,
            attempt_count: self.attempt_count,
            last_attempted_at: self.last_attempted_at.deep_view(),
        }
    }
}

impl SortKey for UnresolvedItem {
    open spec fn sort_key(&self) -> Seq<int> {
        text_key(self.first_seen@)
    }

    fn less(&self, other: &Self) -> (r: bool) {
        text_less(self.first_seen.as_str(), other.first_seen.as_str())
    }
}

/// The contents of queued parts.
pub open spec fn queue_views(items: Seq<UnresolvedItem>) -> Seq<UnresolvedView> {
    items.map_values(|i: UnresolvedItem| i@)
}

/// What a queued row says; nothing where it has no key or no date.
pub open spec fn queued(item: ItemView) -> Option<UnresolvedView> {
    match (text_attr(item, "pk"@), text_attr(item, "first_seen"@)) {
        (Some(pk), Some(first_seen)) => Some(
            UnresolvedView {
                pk,
                first_seen,
                attempt_count: match number_attr(item, "attempt_count"@) {
                    Some(text) => match unsigned_value(text, u32::MAX as nat) {
                        Some(n) => n as u32,
                        None => 0,
                    },
                    None => 0,
                },
                last_attempted_at: text_attr(item, "last_attempted_at"@),
            },
        ),
        _ => None,
    }
}

/// What a queued row says.
pub fn parse_unresolved_item(item: &Item) -> (r: Option<UnresolvedItem>)
    requires
        item.wf(),
    ensures
        match queued(viewed(*item)) {
            Some(u) => r is Some && r->0@ == u,
            None => r is None,
        },
{
    match (get_s(item, "pk"), get_s(item, "first_seen")) {
        (Some(pk), Some(first_seen)) => {
            let attempt_count: u32 = match get_n(item, "attempt_count") {
                Some(text) => match parse_u32(text.as_str()) {
                    Some(n) => n,
                    None => 0,
                },
                None => 0,
            };
            Some(
                UnresolvedItem {
                    pk,
                    first_seen,
                    attempt_count,
                    last_attempted_at: get_s(item, "last_attempted_at"),
                },
            )
        },
        _ => None,
    }
}

/// A part as it enters the queue.
pub open spec fn fresh_row(pk: Seq<char>, now: Seq<char>) -> ItemView {
    ItemView::empty().insert("pk"@, AttrView::S(pk)).insert("first_seen"@, AttrView::S(now)).insert(
        "last_attempted_at"@,
        AttrView::S(now),
    ).insert("attempt_count"@, AttrView::N("0"@))
}

/// A part as it enters the queue.
pub fn unresolved_row(pk: &str, now: &str) -> (r: Item)
    ensures
        r.wf(),
        viewed(r) == fresh_row(pk@, now@),
{
    let mut item = new_item();
    put_s(&mut item, "pk", pk);
    put_s(&mut item, "first_seen", now);
    put_s(&mut item, "last_attempted_at", now);
    put_n(&mut item, "attempt_count", "0");
    item
}

/// A part that entered the queue was not looked up yet.
pub proof fn fresh_row_reads_back(pk: Seq<char>, now: Seq<char>)
    ensures
        queued(fresh_row(pk, now)) == Some(
            UnresolvedView {
                pk,
                first_seen: now,
                attempt_count: 0,
                last_attempted_at: Some(now),
            },
        ),
{
    reveal_strlit("pk");
    reveal_strlit("first_seen");
    reveal_strlit("last_attempted_at");
    reveal_strlit("attempt_count");
    reveal_strlit("0");
    assert("pk"@.len() == 2);
    assert("first_seen"@.len() == 10);
    assert("last_attempted_at"@.len() == 17);
    assert("attempt_count"@.len() == 13);
    assert("0"@.len() == 1);
    assert("0"@.skip(0) =~= "0"@);
    let d = "0"@;
    assert(crate::text::number::is_digits(d));
    assert(d.drop_last() =~= Seq::<char>::empty());
    assert(crate::text::number::digits_value(d.drop_last()) == 0);
    assert(crate::text::number::digits_value(d) == 0);
}

/// The time from one point to another in nanoseconds. A leap second on the way
/// counts once the second after it has begun.
pub open spec fn elapsed_nanos(from: Moment, to: Moment) -> int {
    let leap = if to.secs % 86_400 > from.secs % 86_400 && from.nanos >= 1_000_000_000 {
        1int
    } else {
        0int
    };
    (to.secs - from.secs + leap) * 1_000_000_000 + (to.nanos - from.nanos)
}

/// The part rests: it was looked up, and not long enough ago.
pub open spec fn is_resting(item: UnresolvedView, now: Moment, backoff_secs: u64) -> bool {
    item.attempt_count > 0 && match item.last_attempted_at {
        None => false,
        Some(text) => match moment_of(text) {
            None => false,
            Some(last) => {
                let elapsed = elapsed_nanos(last, now);
                (if elapsed < 0 {
                    0
                } else {
                    elapsed
                }) < backoff_secs * 1_000_000_000
            },
        },
    }
}

fn second_of_day(secs: i64) -> (r: i64)
    ensures
        r == secs as int % 86_400,
{
    let shifted: i128 = secs as i128 + 86_400 * 0x1_0000_0000_0000;
    let r: i128 = shifted % 86_400;
    assert(r == secs as int % 86_400) by (nonlinear_arith)
        requires
            shifted == secs as int + 86_400 * 0x1_0000_0000_0000,
            r == shifted % 86_400,
    ;
    r as i64
}

/// Whether the part rests.
pub fn resting(item: &UnresolvedItem, now: Moment, backoff_secs: u64) -> (r: bool)
    ensures
        r == is_resting(item@, now, backoff_secs),
{
    if item.attempt_count == 0 {
        return false;
    }
    match &item.last_attempted_at {
        None => false,
        Some(text) => match parse_moment(text.as_str()) {
            None => false,
            Some(last) => {
                let leap: i128 = if second_of_day(now.secs) > second_of_day(last.secs) && last.nanos
                    >= 1_000_000_000 {
                    1
                } else {
                    0
                };
                let elapsed: i128 = (now.secs as i128 - last.secs as i128 + leap) * 1_000_000_000 + (
                now.nanos as i128 - last.nanos as i128);
                let waited: i128 = if elapsed < 0 {
                    0
                } else {
                    elapsed
                };
                waited < backoff_secs as i128 * 1_000_000_000
            },
        },
    }
}

/// What was read of the queue: of each key the row that has waited longest.
#[derive(Debug)]
pub struct Claim {
    pub rows: Vec<UnresolvedItem>,
}

impl View for Claim {
    type V = Seq<UnresolvedView>;

    open spec fn view(&self) -> Seq<UnresolvedView> {
        queue_views(self.rows@)
    }
}

/// What a claim asks for.
#[derive(Debug, Clone, Copy, PartialEq, Eq, Structural)]
pub struct ClaimRules {
    pub limit: usize,
    pub max_attempts: u32,
    pub backoff_secs: u64,
}

/// The one row has waited longer than the other.
pub open spec fn is_older(a: UnresolvedView, b: UnresolvedView) -> bool {
    lex_lt(text_key(a.first_seen), text_key(b.first_seen))
}

/// The first row with a key; past the end where there is none.
pub open spec fn place_of(rows: Seq<UnresolvedView>, pk: Seq<char>) -> int
    decreases rows.len(),
{
    if rows.len() == 0 || rows[0].pk == pk {
        0
    } else {
        1 + place_of(rows.drop_first(), pk)
    }
}

proof fn place_is(rows: Seq<UnresolvedView>, pk: Seq<char>, i: int)
    requires
        0 <= i <= rows.len(),
        forall|j: int| 0 <= j < i ==> (#[trigger] rows[j]).pk != pk,
        i < rows.len() ==> rows[i].pk == pk,
    ensures
        place_of(rows, pk) == i,
    decreases rows.len(),
{
    if i > 0 {
        let rest = rows.drop_first();
        assert(rows[0].pk != pk);
        assert forall|j: int| 0 <= j < i - 1 implies (#[trigger] rest[j]).pk != pk by {
            assert(rest[j] == rows[j + 1]);
        }
        place_is(rest, pk, i - 1);
    }
}

proof fn place_is_first(rows: Seq<UnresolvedView>, pk: Seq<char>)
    ensures
        0 <= place_of(rows, pk) <= rows.len(),
        place_of(rows, pk) < rows.len() ==> rows[place_of(rows, pk)].pk == pk,
        forall|j: int| 0 <= j < place_of(rows, pk) ==> (#[trigger] rows[j]).pk != pk,
    decreases rows.len(),
{
    if rows.len() > 0 && rows[0].pk != pk {
        let rest = rows.drop_first();
        place_is_first(rest, pk);
        assert forall|j: int| 0 <= j < place_of(rows, pk) implies (#[trigger] rows[j]).pk != pk by {
            if j > 0 {
                assert(rest[j - 1] == rows[j]);
            }
        }
    }
}

/// What is known of the queue after one more row. Rows without a key are passed
/// over; of two rows with one key the older stays.
pub open spec fn after_row(rows: Seq<UnresolvedView>, item: ItemView) -> Seq<UnresolvedView> {
    match queued(item) {
        None => rows,
        Some(u) => {
            let i = place_of(rows, u.pk);
            if i >= rows.len() {
                rows.push(u)
            } else if is_older(u, rows[i]) {
                rows.update(i, u)
            } else {
                rows
            }
        },
    }
}

/// What is known of the queue after more rows.
pub open spec fn after_rows(rows: Seq<UnresolvedView>, items: Seq<Item>) -> Seq<UnresolvedView>
    decreases items.len(),
{
    if items.len() == 0 {
        rows
    } else {
        after_row(after_rows(rows, items.drop_last()), viewed(items.last()))
    }
}

/// A part may be looked up: not too often yet, and it does not rest.
pub open spec fn is_ready(u: UnresolvedView, now: Moment, rules: ClaimRules) -> bool {
    u.attempt_count < rules.max_attempts && !is_resting(u, now, rules.backoff_secs)
}

/// The rows that are ready, in order.
pub open spec fn ready_rows(rows: Seq<UnresolvedItem>, now: Moment, rules: ClaimRules) -> Seq<UnresolvedItem> {
    rows.filter(|i: UnresolvedItem| is_ready(i@, now, rules))
}

/// How many rows are ready.
pub open spec fn ready_count(rows: Seq<UnresolvedView>, now: Moment, rules: ClaimRules) -> nat {
    rows.filter(|u: UnresolvedView| is_ready(u, now, rules)).len()
}

/// The keys of the rows that were looked up too often.
pub open spec fn given_up(rows: Seq<UnresolvedView>, max_attempts: u32) -> Seq<Seq<char>>
    decreases rows.len(),
{
    if rows.len() == 0 {
        Seq::empty()
    } else {
        let before = given_up(rows.drop_last(), max_attempts);
        if rows.last().attempt_count >= max_attempts {
            before.push(rows.last().pk)
        } else {
            before
        }
    }
}

/// The oldest of the rows that are ready, the longest waiting first: as many as
/// are asked for, or all. No ready row that is left out is older than one of them.
pub open spec fn are_oldest(
    claimed: Seq<UnresolvedView>,
    rows: Seq<UnresolvedView>,
    now: Moment,
    rules: ClaimRules,
) -> bool {
    &&& claimed.len() == if ready_count(rows, now, rules) <= rules.limit {
        ready_count(rows, now, rules) as int
    } else {
        rules.limit as int
    }
    &&& forall|i: int|
        0 <= i < claimed.len() ==> is_ready(#[trigger] claimed[i], now, rules) && rows.contains(claimed[i])
    &&& forall|i: int, j: int|
        0 <= i < j < claimed.len() ==> !is_older(#[trigger] claimed[j], #[trigger] claimed[i])
    &&& forall|k: int, i: int|
        0 <= k < rows.len() && is_ready(rows[k], now, rules) && !claimed.contains(rows[k]) && 0 <= i
            < claimed.len() ==> !is_older(#[trigger] rows[k], #[trigger] claimed[i])
}

proof fn ready_views(rows: Seq<UnresolvedItem>, now: Moment, rules: ClaimRules)
    ensures
        ready_rows(rows, now, rules).len() == ready_count(queue_views(rows), now, rules),
    decreases rows.len(),
{
    reveal(Seq::filter);
    let views = queue_views(rows);
    if rows.len() > 0 {
        ready_views(rows.drop_last(), now, rules);
        assert(queue_views(rows.drop_last()) =~= views.drop_last());
        assert(views.last() == rows.last()@);
    }
}

proof fn sorted_holds<T: SortKey>(sorted: Seq<T>, given: Seq<T>, x: T)
    requires
        is_stable_sort(sorted, given),
    ensures
        sorted.contains(x) <==> given.contains(x),
{
    broadcast use vstd::seq_lib::group_to_multiset_ensures;
    assert(sorted.contains(x) <==> sorted.to_multiset().count(x) > 0);
    assert(given.contains(x) <==> given.to_multiset().count(x) > 0);
}

proof fn first_are_oldest(
    sorted: Seq<UnresolvedItem>,
    rows: Seq<UnresolvedItem>,
    now: Moment,
    rules: ClaimRules,
    n: int,
)
    requires
        is_stable_sort(sorted, ready_rows(rows, now, rules)),
        n == if sorted.len() <= rules.limit {
            sorted.len() as int
        } else {
            rules.limit as int
        },
    ensures
        are_oldest(queue_views(sorted.take(n)), queue_views(rows), now, rules),
{
    broadcast use vstd::seq_lib::group_to_multiset_ensures;
    broadcast use vstd::seq_lib::group_filter_ensures;
    let f = |i: UnresolvedItem| is_ready(i@, now, rules);
    let ready = ready_rows(rows, now, rules);
    assert(ready == rows.filter(f));
    let views = queue_views(rows);
    let claimed = queue_views(sorted.take(n));
    ready_views(rows, now, rules);
    assert(sorted.to_multiset().len() == sorted.len());
    assert(ready.to_multiset().len() == ready.len());
    assert forall|i: int| 0 <= i < claimed.len() implies is_ready(#[trigger] claimed[i], now, rules)
        && views.contains(claimed[i]) by {
        let x = sorted[i];
        assert(sorted.contains(x));
        sorted_holds(sorted, ready, x);
        let m = choose|m: int| 0 <= m < ready.len() && ready[m] == x;
        assert(rows.filter(f)[m] == x);
        assert(f(x));
        rows.lemma_filter_contains_rev(f, x);
        let k = choose|k: int| 0 <= k < rows.len() && rows[k] == x;
        assert(views[k] == claimed[i]);
    }
    assert forall|i: int, j: int| 0 <= i < j < claimed.len() implies !is_older(
        #[trigger] claimed[j],
        #[trigger] claimed[i],
    ) by {
        assert(!lex_lt(sorted[j].sort_key(), sorted[i].sort_key()));
    }
    assert forall|k: int, i: int|
        0 <= k < views.len() && is_ready(views[k], now, rules) && !claimed.contains(views[k]) && 0 <= i
            < claimed.len() implies !is_older(#[trigger] views[k], #[trigger] claimed[i]) by {
        let x = rows[k];
        assert(f(x));
        assert(ready.contains(x));
        sorted_holds(sorted, ready, x);
        let m = choose|m: int| 0 <= m < sorted.len() && sorted[m] == x;
        if m < n {
            assert(claimed[m] == views[k]);
        }
        assert(!lex_lt(sorted[m].sort_key(), sorted[i].sort_key()));
    }
}

impl Claim {
    /// Nothing was read yet.
    pub fn new() -> (r: Self)
        ensures
            r@ == Seq::<UnresolvedView>::empty(),
    {
        let r = Claim { rows: Vec::new() };
        assert(queue_views(r.rows@) =~= Seq::<UnresolvedView>::empty());
        r
    }

    fn take_row(&mut self, item: &Item)
        requires
            item.wf(),
        ensures
            final(self)@ == after_row(old(self)@, viewed(*item)),
    {
        let entry = match parse_unresolved_item(item) {
            Some(entry) => entry,
            None => {
                return;
            },
        };
        let ghost before = self.rows@;
        let ghost views = queue_views(before);
        let ghost u = entry@;
        let mut i: usize = 0;
        while i < self.rows.len() && !same(self.rows[i].pk.as_str(), entry.pk.as_str())
            invariant
                i <= self.rows@.len(),
                self.rows@ == before,
                views == queue_views(before),
                u == entry@,
                forall|j: int| 0 <= j < i ==> (#[trigger] views[j]).pk != u.pk,
            decreases self.rows@.len() - i,
        {
            assert(views[i as int].pk == before[i as int].pk@);
            i += 1;
        }
        proof {
            if i < before.len() {
                assert(views[i as int].pk == before[i as int].pk@);
            }
            place_is(views, u.pk, i as int);
        }
        if i >= self.rows.len() {
            self.rows.push(entry);
            assert(queue_views(self.rows@) =~= views.push(u));
        } else if text_less(entry.first_seen.as_str(), self.rows[i].first_seen.as_str()) {
            self.rows.set(i, entry);
            assert(queue_views(self.rows@) =~= views.update(i as int, u));
        }
    }

    /// Takes in a page of the queue.
    pub fn take_page(&mut self, items: &Vec<Item>)
        requires
            forall|i: int| 0 <= i < items@.len() ==> (#[trigger] items@[i]).wf(),
        ensures
            final(self)@ == after_rows(old(self)@, items@),
    {
        let mut i: usize = 0;
        let ghost before = self@;
        while i < items.len()
            invariant
                i <= items@.len(),
                forall|j: int| 0 <= j < items@.len() ==> (#[trigger] items@[j]).wf(),
                self@ == after_rows(before, items@.take(i as int)),
            decreases items@.len() - i,
        {
            assert(items@.take(i + 1).drop_last() =~= items@.take(i as int));
            assert(items@.take(i + 1).last() == items@[i as int]);
            self.take_row(&items[i]);
            i += 1;
        }
        assert(items@.take(i as int) =~= items@);
    }

    /// The oldest parts that are ready, the longest waiting first, and the keys of
    /// the parts that are given up.
    pub fn finish(self, now: Moment, rules: ClaimRules) -> (r: (Vec<UnresolvedItem>, Vec<String>))
        ensures
            exists|sorted: Seq<UnresolvedItem>| #[trigger]
                is_stable_sort(sorted, ready_rows(self.rows@, now, rules)) && r.0@ == if sorted.len()
                    <= rules.limit {
                    sorted
                } else {
                    sorted.take(rules.limit as int)
                },
            are_oldest(queue_views(r.0@), self@, now, rules),
            r.1.deep_view() == given_up(self@, rules.max_attempts),
    {
        let ghost all = self.rows@;
        let ghost views = self@;
        let mut rows = self.rows;
        let mut ready: Vec<UnresolvedItem> = Vec::new();
        let mut worn: Vec<String> = Vec::new();
        let ghost mut n: int = 0;
        proof {
            reveal(Seq::filter);
            assert(all.skip(0) =~= all);
            assert(ready@ =~= ready_rows(all.take(0), now, rules));
            assert(worn.deep_view() =~= given_up(views.take(0), rules.max_attempts));
        }
        while rows.len() > 0
            invariant
                0 <= n <= all.len(),
                views == queue_views(all),
                rows@ == all.skip(n),
                ready@ == ready_rows(all.take(n), now, rules),
                worn.deep_view() == given_up(views.take(n), rules.max_attempts),
            decreases rows@.len(),
        {
            let row = rows.remove(0);
            let ghost ready_before = ready@;
            let ghost worn_before = worn.deep_view();
            proof {
                reveal(Seq::filter);
                assert(row == all[n]);
                assert(rows@ =~= all.skip(n + 1));
                assert(all.take(n + 1).drop_last() =~= all.take(n));
                assert(views.take(n + 1).drop_last() =~= views.take(n));
                assert(views.take(n + 1).last() == row@);
            }
            if row.attempt_count >= rules.max_attempts {
                worn.push(row.pk.clone());
                assert(worn.deep_view() =~= worn_before.push(row.pk@));
            } else if !resting(&row, now, rules.backoff_secs) {
                ready.push(row);
            }
            proof {
                n = n + 1;
            }
        }
        assert(all.take(n) =~= all);
        assert(views.take(n) =~= views);
        let mut sorted = stable_sort(ready);
        let ghost whole = sorted@;
        proof {
            let n = if whole.len() <= rules.limit {
                whole.len() as int
            } else {
                rules.limit as int
            };
            first_are_oldest(whole, all, now, rules, n);
            assert(whole.take(whole.len() as int) =~= whole);
        }
        if sorted.len() > rules.limit {
            sorted.truncate(rules.limit);
            assert(sorted@ =~= whole.take(rules.limit as int));
        }
        (sorted, worn)
    }
}

/// No key stands twice.
pub open spec fn keys_are_distinct(rows: Seq<UnresolvedView>) -> bool {
    forall|i: int, j: int| 0 <= i < j < rows.len() ==> (#[trigger] rows[i]).pk != (#[trigger] rows[j]).pk
}

/// A row that stands among these.
pub open spec fn is_row(items: Seq<Item>, u: UnresolvedView) -> bool {
    exists|j: int| 0 <= j < items.len() && queued(viewed(#[trigger] items[j])) == Some(u)
}

/// Of each key in the queue its oldest row is known, once, and nothing else.
pub open spec fn knows_oldest(rows: Seq<UnresolvedView>, items: Seq<Item>) -> bool {
    &&& keys_are_distinct(rows)
    &&& forall|i: int| 0 <= i < rows.len() ==> is_row(items, #[trigger] rows[i])
    &&& forall|u: UnresolvedView| #[trigger]
        is_row(items, u) ==> {
            let i = place_of(rows, u.pk);
            i < rows.len() && rows[i].pk == u.pk && !is_older(u, rows[i])
        }
}

/// However the rows of the queue come in, of each key the oldest is known.
pub proof fn oldest_rows_are_known(items: Seq<Item>)
    ensures
        knows_oldest(after_rows(Seq::empty(), items), items),
    decreases items.len(),
{
    if items.len() > 0 {
        let head = items.drop_last();
        let before = after_rows(Seq::empty(), head);
        let rows = after_rows(Seq::empty(), items);
        oldest_rows_are_known(head);
        assert(items[items.len() - 1] == items.last());
        assert forall|u: UnresolvedView| #[trigger] is_row(head, u) implies is_row(items, u) by {
            let j = choose|j: int| 0 <= j < head.len() && queued(viewed(#[trigger] head[j])) == Some(u);
            assert(items[j] == head[j]);
        }
        assert forall|u: UnresolvedView| #[trigger] is_row(items, u) implies is_row(head, u) || queued(
            viewed(items.last()),
        ) == Some(u) by {
            let j = choose|j: int| 0 <= j < items.len() && queued(viewed(#[trigger] items[j])) == Some(u);
            if j < head.len() {
                assert(head[j] == items[j]);
            }
        }
        if let Some(u) = queued(viewed(items.last())) {
            let p = place_of(before, u.pk);
            place_is_first(before, u.pk);
            assert(is_row(items, u));
            assert forall|i: int| 0 <= i < rows.len() implies is_row(items, #[trigger] rows[i]) by {
                if rows[i] != u {
                    assert(rows[i] == before[i]);
                }
            }
            assert forall|i: int, j: int| 0 <= i < j < rows.len() implies (#[trigger] rows[i]).pk != (
            #[trigger] rows[j]).pk by {
                assert(i < before.len() ==> rows[i].pk == before[i].pk);
                assert(j < before.len() ==> rows[j].pk == before[j].pk);
            }
            assert forall|w: UnresolvedView| #[trigger] is_row(items, w) implies ({
                let i = place_of(rows, w.pk);
                i < rows.len() && rows[i].pk == w.pk && !is_older(w, rows[i])
            }) by {
                lex_lt_order(text_key(u.first_seen), text_key(u.first_seen), text_key(u.first_seen));
                if w.pk == u.pk {
                    assert forall|j: int| 0 <= j < p implies (#[trigger] rows[j]).pk != w.pk by {
                        assert(rows[j] == before[j]);
                    }
                    place_is(rows, w.pk, p);
                    if is_row(head, w) {
                        lex_lt_order(
                            text_key(w.first_seen),
                            text_key(u.first_seen),
                            text_key(before[p].first_seen),
                        );
                    }
                } else {
                    assert(is_row(head, w));
                    let q = place_of(before, w.pk);
                    place_is_first(before, w.pk);
                    assert(rows[q] == before[q]);
                    assert forall|j: int| 0 <= j < q implies (#[trigger] rows[j]).pk != w.pk by {
                        assert(rows[j].pk == before[j].pk);
                    }
                    place_is(rows, w.pk, q);
                }
            }
        } else {
            assert(rows == before);
        }
    }
}

/// It makes no difference how the rows are cut into pages.
pub proof fn pages_add_up(rows: Seq<UnresolvedView>, first: Seq<Item>, second: Seq<Item>)
    ensures
        after_rows(after_rows(rows, first), second) == after_rows(rows, first + second),
    decreases second.len(),
{
    if second.len() == 0 {
        assert(first + second =~= first);
    } else {
        pages_add_up(rows, first, second.drop_last());
        assert((first + second).drop_last() =~= first + second.drop_last());
        assert((first + second).last() == second.last());
    }
}

/// Nothing that rests or was looked up too often is claimed, no more than was
/// asked for, and of each key the oldest row.
pub proof fn claims_are_sound(
    items: Seq<Item>,
    claimed: Seq<UnresolvedView>,
    now: Moment,
    rules: ClaimRules,
)
    requires
        are_oldest(claimed, after_rows(Seq::empty(), items), now, rules),
    ensures
        claimed.len() <= rules.limit,
        forall|i: int|
            0 <= i < claimed.len() ==> is_ready(#[trigger] claimed[i], now, rules) && is_row(items, claimed[i]),
        forall|i: int, u: UnresolvedView|
            0 <= i < claimed.len() && #[trigger] is_row(items, u) && u.pk == (#[trigger] claimed[i]).pk
                ==> !is_older(u, claimed[i]),
{
    let rows = after_rows(Seq::empty(), items);
    oldest_rows_are_known(items);
    assert forall|i: int| 0 <= i < claimed.len() implies is_ready(#[trigger] claimed[i], now, rules)
        && is_row(items, claimed[i]) by {
        let k = choose|k: int| 0 <= k < rows.len() && rows[k] == claimed[i];
        assert(is_row(items, rows[k]));
    }
    assert forall|i: int, u: UnresolvedView|
        0 <= i < claimed.len() && #[trigger] is_row(items, u) && u.pk == (#[trigger] claimed[i]).pk
            implies !is_older(u, claimed[i]) by {
        let k = choose|k: int| 0 <= k < rows.len() && rows[k] == claimed[i];
        place_is_first(rows, u.pk);
        let q = place_of(rows, u.pk);
        if q < k {
            assert(rows[q].pk != rows[k].pk);
        } else if k < q {
            assert(rows[k].pk != u.pk);
        }
    }
}

/// How often a part was looked up, after once more.
pub fn next_attempt(item: &UnresolvedItem) -> (r: String)
    ensures
        r@ == dec_nat(
            if item.attempt_count == u32::MAX {
                u32::MAX as nat
            } else {
                (item.attempt_count + 1) as nat
            },
        ),
{
    u64_text(item.attempt_count.saturating_add(1) as u64)
}

/// Each key once, in the order in which they first occur.
pub open spec fn distinct_texts(keys: Seq<Seq<char>>) -> Seq<Seq<char>>
    decreases keys.len(),
{
    if keys.len() == 0 {
        Seq::empty()
    } else {
        let before = distinct_texts(keys.drop_last());
        if before.contains(keys.last()) {
            before
        } else {
            before.push(keys.last())
        }
    }
}

/// Each key once, in the order in which they first occur.
pub fn distinct_keys(keys: &Vec<String>) -> (r: Vec<String>)
    ensures
        r.deep_view() == distinct_texts(keys.deep_view()),
{
    let ghost all = keys.deep_view();
    let mut out: Vec<String> = Vec::new();
    let mut i: usize = 0;
    assert(out.deep_view() =~= distinct_texts(all.take(0)));
    while i < keys.len()
        invariant
            i <= keys@.len(),
            all == keys.deep_view(),
            out.deep_view() == distinct_texts(all.take(i as int)),
        decreases keys@.len() - i,
    {
        let ghost before = out.deep_view();
        proof {
            assert(all.take(i + 1).drop_last() =~= all.take(i as int));
            assert(all.take(i + 1).last() == keys@[i as int]@);
        }
        let list: &[String] = out.as_slice();
        assert(list.deep_view() =~= out.deep_view());
        if !list_has(list, keys[i].as_str()) {
            out.push(keys[i].clone());
            assert(out.deep_view() =~= before.push(keys@[i as int]@));
        }
        i += 1;
    }
    assert(all.take(i as int) =~= all);
    out
}

/// Where the chunk that begins at `start` ends.
pub fn chunk_end(total: usize, start: usize, chunk: usize) -> (r: usize)
    requires
        start <= total,
        chunk > 0,
    ensures
        r == if total - start < chunk {
            total as int
        } else {
            start + chunk
        },
        start < total ==> start < r,
        r <= total,
{
    if total - start < chunk {
        total
    } else {
        start + chunk
    }
}

/// The parts after a page of stored ones was read: each under its key, the later
/// in place of the earlier. Rows without a key, or that say nothing, are passed over.
pub open spec fn with_parts(parts: Map<Seq<char>, PartResultView>, items: Seq<Item>) -> Map<
    Seq<char>,
    PartResultView,
>
    decreases items.len(),
{
    if items.len() == 0 {
        parts
    } else {
        let before = with_parts(parts, items.drop_last());
        let item = viewed(items.last());
        match (text_attr(item, "pk"@), item_part(item)) {
            (Some(pk), Some(part)) => before.insert(pk, part),
            _ => before,
        }
    }
}

/// Takes in a page of stored parts.
pub fn take_parts(parts: &mut StrMap<PartResult>, items: &Vec<Item>)
    requires
        old(parts).wf(),
        forall|i: int| 0 <= i < items@.len() ==> (#[trigger] items@[i]).wf(),
    ensures
        final(parts).wf(),
        viewed(*final(parts)) == with_parts(viewed(*old(parts)), items@),
{
    let ghost start = viewed(*parts);
    let mut i: usize = 0;
    while i < items.len()
        invariant
            i <= items@.len(),
            parts.wf(),
            forall|j: int| 0 <= j < items@.len() ==> (#[trigger] items@[j]).wf(),
            viewed(*parts) == with_parts(start, items@.take(i as int)),
        decreases items@.len() - i,
    {
        let item = &items[i];
        proof {
            assert(items@.take(i + 1).drop_last() =~= items@.take(i as int));
            assert(items@.take(i + 1).last() == *item);
        }
        if let Some(pk) = get_s(item, "pk") {
            if let Some(part) = item_to_result(item) {
                let ghost before = *parts;
                let ghost p = part;
                parts.insert(pk.as_str(), part);
                proof {
                    viewed_insert(before, *parts, pk@, p);
                }
            }
        }
        i += 1;
    }
    assert(items@.take(i as int) =~= items@);
}

/// Keys in order, each once.
pub open spec fn is_key_list(r: Seq<Seq<char>>, keys: Seq<Seq<char>>) -> bool {
    &&& forall|i: int, j: int|
        0 <= i < j < r.len() ==> lex_lt(text_key(#[trigger] r[i]), text_key(#[trigger] r[j]))
    &&& forall|k: Seq<char>| r.contains(k) <==> #[trigger] keys.contains(k)
}

/// The keys of stored parts in order, each once.
pub fn part_keys(keys: &Vec<String>) -> (r: Vec<String>)
    ensures
        is_key_list(r.deep_view(), keys.deep_view()),
{
    let ghost given = keys.deep_view();
    let tallies = index(keys);
    let ghost t = tally_views(tallies@);
    let mut out: Vec<String> = Vec::new();
    let mut i: usize = 0;
    while i < tallies.len()
        invariant
            i <= tallies@.len(),
            t == tally_views(tallies@),
            out@.len() == i,
            forall|j: int| 0 <= j < i ==> (#[trigger] out@[j])@ == t[j].0,
        decreases tallies@.len() - i,
    {
        assert(t[i as int].0 == tallies@[i as int].name@);
        out.push(tallies[i].name.clone());
        i += 1;
    }
    let ghost r = out.deep_view();
    proof {
        assert forall|a: int, b: int| 0 <= a < b < r.len() implies lex_lt(
            text_key(#[trigger] r[a]),
            text_key(#[trigger] r[b]),
        ) by {
            assert(r[a] == t[a].0 && r[b] == t[b].0);
        }
        assert forall|k: Seq<char>| r.contains(k) <==> #[trigger] given.contains(k) by {
            if r.contains(k) {
                let a = choose|a: int| 0 <= a < r.len() && r[a] == k;
                assert(t[a].0 == k);
                assert(occurrences(given, k) > 0);
                occurring_is_there(given, k);
            }
            if given.contains(k) {
                let m = choose|m: int| 0 <= m < given.len() && given[m] == k;
                assert(has_name(t, given[m]));
                let a = choose|a: int| 0 <= a < t.len() && (#[trigger] t[a]).0 == k;
                assert(r[a] == k);
            }
        }
    }
    out
}

/// A part that was never looked up does not rest; one that was rests for the time that was
/// set, and not beyond.
pub proof fn parts_rest_between_lookups(item: &UnresolvedItem, now: Moment, backoff: u64, r: bool)
    requires
        call_ensures(resting, (item, now, backoff), r),
    ensures
        item.attempt_count == 0 ==> !r,
        item.last_attempted_at is None ==> !r,
        item.attempt_count > 0 && item.last_attempted_at is Some && moment_of(item.last_attempted_at->0@) is Some
            && now.nanos == 0 && moment_of(item.last_attempted_at->0@)->0.nanos == 0 ==> {
            let last = moment_of(item.last_attempted_at->0@)->0;
            &&& now.secs - last.secs >= backoff && now.secs >= last.secs ==> !r
            &&& 0 <= now.secs - last.secs < backoff ==> r
            &&& now.secs < last.secs && backoff > 0 ==> r
        },
{
    if item.last_attempted_at is Some && moment_of(item.last_attempted_at->0@) is Some {
        let last = moment_of(item.last_attempted_at->0@)->0;
        if now.nanos == 0 && last.nanos == 0 {
            let d = now.secs - last.secs;
            assert(elapsed_nanos(last, now) == d * 1_000_000_000);
        }
    }
}

/// A part may be looked up while it was looked up fewer times than allowed and does not
/// rest; one that was looked up as often is given up.
pub proof fn tired_parts_are_given_up(rows: Seq<UnresolvedView>, u: UnresolvedView, now: Moment, rules: ClaimRules)
    ensures
        u.attempt_count >= rules.max_attempts ==> !is_ready(u, now, rules) && given_up(
            rows.push(u),
            rules.max_attempts,
        ) == given_up(rows, rules.max_attempts).push(u.pk),
        u.attempt_count < rules.max_attempts ==> given_up(rows.push(u), rules.max_attempts) == given_up(
            rows,
            rules.max_attempts,
        ),
        u.attempt_count == 0 && rules.max_attempts > 0 ==> is_ready(u, now, rules),
        given_up(Seq::empty(), rules.max_attempts).len() == 0,
{
    assert(rows.push(u).drop_last() =~= rows);
    assert(rows.push(u).last() == u);
}

/// Each lookup is counted.
pub proof fn lookups_are_counted(item: &UnresolvedItem, r: String)
    requires
        call_ensures(next_attempt, (item,), r),
    ensures
        item.attempt_count < u32::MAX ==> r@ == dec_nat((item.attempt_count + 1) as nat),
{
}

/// A queued row is read as it was written: since when the part waits, how often it was
/// looked up and when last. A row without a key or a date is none.
pub proof fn queued_rows_are_read(item: &Item, r: Option<UnresolvedItem>, n: u32)
    requires
        item.wf(),
        call_ensures(parse_unresolved_item, (item,), r),
    ensures
        text_attr(viewed(*item), "pk"@) is None || text_attr(viewed(*item), "first_seen"@) is None ==> r is None,
        text_attr(viewed(*item), "pk"@) is Some && text_attr(viewed(*item), "first_seen"@) is Some ==> {
            &&& r is Some
            &&& Some(r->0@.pk) == text_attr(viewed(*item), "pk"@)
            &&& Some(r->0@.first_seen) == text_attr(viewed(*item), "first_seen"@)
            &&& r->0@.last_attempted_at == text_attr(viewed(*item), "last_attempted_at"@)
            &&& number_attr(viewed(*item), "attempt_count"@) == Some(dec_nat(n as nat)) ==> r->0.attempt_count == n
            &&& number_attr(viewed(*item), "attempt_count"@) is None ==> r->0.attempt_count == 0
        },
{
    crate::text::number::dec_nat_value(n as nat);
}

/// Each key comes once, and none is lost.
pub proof fn keys_come_once(keys: Seq<Seq<char>>, key: Seq<char>)
    ensures
        distinct_texts(keys).contains(key) <==> keys.contains(key),
        forall|i: int, j: int|
            0 <= i < j < distinct_texts(keys).len() ==> distinct_texts(keys)[i] != distinct_texts(keys)[j],
    decreases keys.len(),
{
    if keys.len() > 0 {
        let d = keys.drop_last();
        let before = distinct_texts(d);
        let after = distinct_texts(keys);
        keys_come_once(d, key);
        assert(keys =~= d.push(keys.last()));
        assert(keys[keys.len() - 1] == keys.last());
        if d.contains(key) {
            let k = choose|k: int| 0 <= k < d.len() && d[k] == key;
            assert(keys[k] == key);
        }
        if keys.contains(key) && key != keys.last() {
            let k = choose|k: int| 0 <= k < keys.len() && keys[k] == key;
            assert(d[k] == key);
        }
        if !before.contains(keys.last()) {
            assert(after[before.len() as int] == keys.last());
            if before.contains(key) {
                let k = choose|k: int| 0 <= k < before.len() && before[k] == key;
                assert(after[k] == key);
            }
            if after.contains(key) && key != keys.last() {
                let k = choose|k: int| 0 <= k < after.len() && after[k] == key;
                assert(before[k] == key);
            }
            assert forall|i: int, j: int| 0 <= i < j < after.len() implies after[i] != after[j] by {
                if j == before.len() {
                    assert(before.contains(before[i]));
                }
            }
        } else {
            keys_come_once(d, keys.last());
        }
    }
}

/// Chunks follow one another to the end, each as large as allowed but the last.
pub proof fn chunks_cover_everything(total: usize, start: usize, chunk: usize, r: usize)
    requires
        start <= total,
        chunk > 0,
        call_ensures(chunk_end, (total, start, chunk), r),
    ensures
        start + chunk <= total ==> r == start + chunk,
        start + chunk > total ==> r == total,
{
}

/// A stored part that is read comes in under its key, in place of an earlier one; a row
/// that says nothing changes nothing.
pub proof fn stored_parts_come_in(parts: Map<Seq<char>, PartResultView>, items: Seq<Item>, item: Item, pk: Seq<char>, other: Seq<char>)
    ensures
        ({
            let before = with_parts(parts, items);
            let after = with_parts(parts, items.push(item));
            &&& text_attr(viewed(item), "pk"@) == Some(pk) && item_part(viewed(item)) is Some ==> after.dom().contains(pk)
                && after[pk] == item_part(viewed(item))->0
            &&& text_attr(viewed(item), "pk"@) is None || item_part(viewed(item)) is None ==> after == before
            &&& text_attr(viewed(item), "pk"@) == Some(pk) && other != pk ==> (after.dom().contains(other)
                <==> before.dom().contains(other)) && (before.dom().contains(other) ==> after[other] == before[other])
        }),
{
    assert(items.push(item).drop_last() =~= items);
    assert(items.push(item).last() == item);
}

/// Every failure of a table is told by its kind.
pub proof fn failures_of_tables_are_told(error: &StoreError, r: String)
    requires
        call_ensures(StoreError::message, (error,), r),
    ensures
        error is Dynamo ==> r@ == "dynamodb: "@ + error->Dynamo_0@,
        error is Serde ==> r@ == "serde: "@ + error->Serde_0@,
{
}

/// The keys of stored parts come in order, each once and none missing.
pub proof fn part_keys_come_in_order(keys: &Vec<String>, r: Vec<String>, i: int, j: int, key: Seq<char>)
    requires
        call_ensures(part_keys, (keys,), r),
    ensures
        0 <= i < j < r@.len() ==> lex_lt(text_key(r@[i]@), text_key(r@[j]@)),
        r.deep_view().contains(key) ==> keys.deep_view().contains(key),
{
    let d = r.deep_view();
    if 0 <= i < j < r@.len() {
        assert(d[i] == r@[i]@ && d[j] == r@[j]@);
    }
}

} // verus!
