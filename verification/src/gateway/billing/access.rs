//! Who is enabled and who is waiting.

use vstd::prelude::*;
use vstd::string::*;

use super::records::PlanOverride;
use crate::dynamo::{get_s, text_attr, viewed, Item, ItemView};
use crate::json::{field, get_view, or_null, Json, JsonView};
use crate::sorting::{is_stable_sort, lex_lt, stable_sort, text_key, text_less, SortKey};
use crate::strmap::StrMap;
use crate::text::search::strip_prefix;
use crate::text::{copy_opt, same};

verus! {

/// An email that has access, or waits for it.
#[derive(Debug)]
pub enum AccessRow {
    Enabled { email: String, expires_at: Option<String> },
    Waiting { email: String, account_id: Option<String> },
}

/// The content of a row.
#[verifier::ext_equal]
pub enum AccessRowView {
    Enabled { email: Seq<char>, expires_at: Option<Seq<char>> },
    Waiting { email: Seq<char>, account_id: Option<Seq<char>> },
}

impl View for AccessRow {
    type V = AccessRowView;

    open spec fn view(&self) -> AccessRowView {
        match self {
            AccessRow::Enabled { email, expires_at } => AccessRowView::Enabled {
                email: email@,
                expires_at: expires_at.deep_view(),
            },
            AccessRow::Waiting { email, account_id } => AccessRowView::Waiting {
                email: email@,
                account_id: account_id.deep_view(),
            },
        }
    }
}

impl AccessRowView {
    /// The email of a row.
    pub open spec fn email(self) -> Seq<char> {
        match self {
            AccessRowView::Enabled { email, .. } => email,
            AccessRowView::Waiting { email, .. } => email,
        }
    }
}

impl AccessRow {
    /// The email of the row.
    pub fn email(&self) -> (r: &str)
        ensures
            r@ == self@.email(),
    {
        match self {
            AccessRow::Enabled { email, .. } => email.as_str(),
            AccessRow::Waiting { email, .. } => email.as_str(),
        }
    }

    /// The row as JSON.
    pub fn to_json(&self) -> (r: Json)
        ensures
            r@ == row_json(self@),
    {
        let fields = match self {
            AccessRow::Enabled { email, expires_at } => vec![
                field("email", Json::text(email.as_str())),
                field("status", Json::text("enabled")),
                field("expires_at", Json::text_or_null(expires_at)),
            ],
            AccessRow::Waiting { email, account_id } => vec![
                field("email", Json::text(email.as_str())),
                field("status", Json::text("waiting")),
                field("account_id", Json::text_or_null(account_id)),
            ],
        };
        let r = Json::Object(fields);
        assert(r@->Object_0 =~= row_json(self@)->Object_0);
        r
    }
}

/// A row as JSON.
pub open spec fn row_json(row: AccessRowView) -> JsonView {
    match row {
        AccessRowView::Enabled { email, expires_at } => JsonView::Object(
            seq![
                ("email"@, JsonView::Text(email)),
                ("status"@, JsonView::Text("enabled"@)),
                ("expires_at"@, or_null(expires_at)),
            ],
        ),
        AccessRowView::Waiting { email, account_id } => JsonView::Object(
            seq![
                ("email"@, JsonView::Text(email)),
                ("status"@, JsonView::Text("waiting"@)),
                ("account_id"@, or_null(account_id)),
            ],
        ),
    }
}

impl SortKey for AccessRow {
    open spec fn sort_key(&self) -> Seq<int> {
        text_key(self@.email())
    }

    fn less(&self, other: &Self) -> (r: bool) {
        text_less(self.email(), other.email())
    }
}

/// The contents of rows.
pub open spec fn row_views(rows: Seq<AccessRow>) -> Seq<AccessRowView> {
    rows.map_values(|r: AccessRow| r@)
}

/// Some row has that email.
pub open spec fn lists_email(rows: Seq<AccessRow>, email: Seq<char>) -> bool {
    exists|i: int| 0 <= i < rows.len() && (#[trigger] rows[i])@.email() == email
}

/// Having an email that none of the rows has.
pub open spec fn unlisted(rows: Seq<AccessRow>) -> spec_fn(AccessRow) -> bool {
    |r: AccessRow| !lists_email(rows, r@.email())
}

/// Those who wait and are not enabled, by email, and then the enabled, by email.
pub open spec fn is_access_list(
    out: Seq<AccessRow>,
    enabled: Seq<AccessRow>,
    waiting: Seq<AccessRow>,
) -> bool {
    let left = waiting.filter(unlisted(enabled));
    &&& out.len() == left.len() + enabled.len()
    &&& is_stable_sort(out.take(left.len() as int), left)
    &&& is_stable_sort(out.skip(left.len() as int), enabled)
}

fn listed(rows: &Vec<AccessRow>, email: &str) -> (r: bool)
    ensures
        r == lists_email(rows@, email@),
{
    let mut i: usize = 0;
    while i < rows.len()
        invariant
            i <= rows@.len(),
            forall|j: int| 0 <= j < i ==> (#[trigger] rows@[j])@.email() != email@,
        decreases rows@.len() - i,
    {
        if same(rows[i].email(), email) {
            return true;
        }
        i += 1;
    }
    false
}

/// Those who wait and are not enabled, by email, and then the enabled, by email.
pub fn arrange_access(enabled: Vec<AccessRow>, waiting: Vec<AccessRow>) -> (out: Vec<AccessRow>)
    ensures
        is_access_list(out@, enabled@, waiting@),
{
    let ghost all = waiting@;
    let ghost f = unlisted(enabled@);
    let mut rest = waiting;
    let mut left: Vec<AccessRow> = Vec::new();
    let ghost mut n: int = 0;
    assert(all.take(0).filter(f) =~= Seq::<AccessRow>::empty()) by {
        reveal(Seq::filter);
    }
    assert(all.skip(0) =~= all);
    while rest.len() > 0
        invariant
            0 <= n <= all.len(),
            rest@ == all.skip(n),
            f == unlisted(enabled@),
            left@ == all.take(n).filter(f),
        decreases rest@.len(),
    {
        let row = rest.remove(0);
        proof {
            assert(row == all[n]);
            assert(rest@ =~= all.skip(n + 1));
            assert(all.take(n + 1).drop_last() =~= all.take(n));
            assert(all.take(n + 1).last() == row);
            reveal(Seq::filter);
            n = n + 1;
        }
        if !listed(&enabled, row.email()) {
            left.push(row);
        }
    }
    assert(all.take(n) =~= all);
    let ghost kept = left@;
    let ghost given = enabled@;
    let mut out = stable_sort(left);
    let ghost first = out@;
    let mut enabled = stable_sort(enabled);
    let ghost second = enabled@;
    proof {
        assert(first.len() == kept.len()) by {
            broadcast use vstd::seq_lib::group_to_multiset_ensures;
            assert(first.to_multiset().len() == kept.to_multiset().len());
        }
        assert(second.len() == given.len()) by {
            broadcast use vstd::seq_lib::group_to_multiset_ensures;
            assert(second.to_multiset().len() == given.to_multiset().len());
        }
    }
    out.append(&mut enabled);
    assert(out@.take(first.len() as int) =~= first);
    assert(out@.skip(first.len() as int) =~= second);
    out
}

/// What a stored grant says: an email that is enabled.
pub open spec fn grant_row(item: ItemView) -> Option<AccessRowView> {
    if text_attr(item, "sk"@) == Some("GRANT"@) {
        let email = match text_attr(item, "admin_note"@) {
            Some(note) => note,
            None => match text_attr(item, "pk"@) {
                Some(pk) => if "EMAIL#"@.is_prefix_of(pk) {
                    pk.skip("EMAIL#"@.len() as int)
                } else {
                    Seq::empty()
                },
                None => Seq::empty(),
            },
        };
        if email.len() == 0 {
            None
        } else {
            Some(
                AccessRowView::Enabled { email, expires_at: text_attr(item, "admin_expires_at"@) },
            )
        }
    } else {
        None
    }
}

/// What a stored registration says: an email that waits.
pub open spec fn interest_row(item: ItemView) -> Option<AccessRowView> {
    if text_attr(item, "sk"@) == Some("INTEREST_SENT"@) {
        match text_attr(item, "email"@) {
            Some(email) => Some(
                AccessRowView::Waiting {
                    email,
                    account_id: match text_attr(item, "account_id"@) {
                        Some(id) => Some(id),
                        None => match text_attr(item, "pk"@) {
                            Some(pk) => if "ACCOUNT#"@.is_prefix_of(pk) {
                                Some(pk.skip("ACCOUNT#"@.len() as int))
                            } else {
                                None
                            },
                            None => None,
                        },
                    },
                },
            ),
            None => None,
        }
    } else {
        None
    }
}

/// The rows that a function finds in the items, in order.
pub open spec fn rows_of(items: Seq<Item>, f: spec_fn(ItemView) -> Option<AccessRowView>) -> Seq<
    AccessRowView,
>
    decreases items.len(),
{
    if items.len() == 0 {
        Seq::empty()
    } else {
        let before = rows_of(items.drop_last(), f);
        match f(viewed(items.last())) {
            Some(row) => before.push(row),
            None => before,
        }
    }
}

/// Enabled emails in stored items.
pub open spec fn grant_rows(items: Seq<Item>) -> Seq<AccessRowView> {
    rows_of(items, |item: ItemView| grant_row(item))
}

/// Waiting emails in stored items.
pub open spec fn interest_rows(items: Seq<Item>) -> Seq<AccessRowView> {
    rows_of(items, |item: ItemView| interest_row(item))
}

/// The content of an optional row.
pub open spec fn opt_row(row: Option<AccessRow>) -> Option<AccessRowView> {
    match row {
        Some(r) => Some(r@),
        None => None,
    }
}

fn read_grant(item: &Item) -> (r: Option<AccessRow>)
    requires
        item.wf(),
    ensures
        opt_row(r) == grant_row(viewed(*item)),
{
    let is_grant = match get_s(item, "sk") {
        Some(sk) => same(sk.as_str(), "GRANT"),
        None => false,
    };
    if !is_grant {
        return None;
    }
    let email = match get_s(item, "admin_note") {
        Some(note) => note,
        None => match get_s(item, "pk") {
            Some(pk) => match strip_prefix(pk.as_str(), "EMAIL#") {
                Some(email) => email,
                None => String::new(),
            },
            None => String::new(),
        },
    };
    if email.as_str().is_empty() {
        return None;
    }
    Some(AccessRow::Enabled { email, expires_at: get_s(item, "admin_expires_at") })
}

fn read_interest(item: &Item) -> (r: Option<AccessRow>)
    requires
        item.wf(),
    ensures
        opt_row(r) == interest_row(viewed(*item)),
{
    let is_interest = match get_s(item, "sk") {
        Some(sk) => same(sk.as_str(), "INTEREST_SENT"),
        None => false,
    };
    if !is_interest {
        return None;
    }
    let email = match get_s(item, "email") {
        Some(email) => email,
        None => {
            return None;
        },
    };
    let account_id = match get_s(item, "account_id") {
        Some(id) => Some(id),
        None => match get_s(item, "pk") {
            Some(pk) => strip_prefix(pk.as_str(), "ACCOUNT#"),
            None => None,
        },
    };
    Some(AccessRow::Waiting { email, account_id })
}

/// Everybody with access or waiting for it, as stored items tell.
pub fn access_from_items(items: &Vec<Item>) -> (out: Vec<AccessRow>)
    requires
        forall|i: int| 0 <= i < items@.len() ==> (#[trigger] items@[i]).wf(),
    ensures
        exists|enabled: Seq<AccessRow>, waiting: Seq<AccessRow>|
            {
                &&& row_views(enabled) == grant_rows(items@)
                &&& row_views(waiting) == interest_rows(items@)
                &&& #[trigger] is_access_list(out@, enabled, waiting)
            },
{
    let mut enabled: Vec<AccessRow> = Vec::new();
    let mut waiting: Vec<AccessRow> = Vec::new();
    let mut i: usize = 0;
    assert(row_views(enabled@) =~= grant_rows(items@.take(0)));
    assert(row_views(waiting@) =~= interest_rows(items@.take(0)));
    while i < items.len()
        invariant
            i <= items@.len(),
            forall|j: int| 0 <= j < items@.len() ==> (#[trigger] items@[j]).wf(),
            row_views(enabled@) == grant_rows(items@.take(i as int)),
            row_views(waiting@) == interest_rows(items@.take(i as int)),
        decreases items@.len() - i,
    {
        let ghost e = enabled@;
        let ghost w = waiting@;
        proof {
            assert(items@.take(i + 1).drop_last() =~= items@.take(i as int));
            assert(items@.take(i + 1).last() == items@[i as int]);
        }
        if let Some(row) = read_grant(&items[i]) {
            enabled.push(row);
            assert(row_views(enabled@) =~= row_views(e).push(row@));
        }
        if let Some(row) = read_interest(&items[i]) {
            waiting.push(row);
            assert(row_views(waiting@) =~= row_views(w).push(row@));
        }
        i += 1;
    }
    assert(items@.take(i as int) =~= items@);
    arrange_access(enabled, waiting)
}

/// The enabled emails of a map of grants.
pub open spec fn granted_rows(grants: StrMap<PlanOverride>) -> Seq<AccessRowView> {
    Seq::new(
        grants.entries@.len(),
        |i: int|
            AccessRowView::Enabled {
                email: grants.entries@[i].0@,
                expires_at: grants.entries@[i].1.expires_at.deep_view(),
            },
    )
}

/// The waiting emails of a map from accounts to emails.
pub open spec fn registered_rows(interest: StrMap<String>) -> Seq<AccessRowView> {
    Seq::new(
        interest.entries@.len(),
        |i: int|
            AccessRowView::Waiting {
                email: interest.entries@[i].1@,
                account_id: Some(interest.entries@[i].0@),
            },
    )
}

/// Everybody with access or waiting for it.
pub fn access_from_maps(grants: &StrMap<PlanOverride>, interest: &StrMap<String>) -> (out: Vec<
    AccessRow,
>)
    ensures
        exists|enabled: Seq<AccessRow>, waiting: Seq<AccessRow>|
            {
                &&& row_views(enabled) == granted_rows(*grants)
                &&& row_views(waiting) == registered_rows(*interest)
                &&& #[trigger] is_access_list(out@, enabled, waiting)
            },
{
    let mut enabled: Vec<AccessRow> = Vec::new();
    let mut i: usize = 0;
    while i < grants.entries.len()
        invariant
            i <= grants.entries@.len(),
            row_views(enabled@) == granted_rows(*grants).take(i as int),
        decreases grants.entries@.len() - i,
    {
        let ghost e = enabled@;
        let entry = &grants.entries[i];
        let row = AccessRow::Enabled {
            email: entry.0.clone(),
            expires_at: copy_opt(&entry.1.expires_at),
        };
        let ghost rv = row@;
        assert(rv == granted_rows(*grants)[i as int]);
        enabled.push(row);
        i += 1;
        assert(row_views(enabled@) =~= row_views(e).push(rv));
        assert(row_views(enabled@) =~= granted_rows(*grants).take(i as int));
    }
    assert(row_views(enabled@) =~= granted_rows(*grants));
    let mut waiting: Vec<AccessRow> = Vec::new();
    let mut k: usize = 0;
    while k < interest.entries.len()
        invariant
            k <= interest.entries@.len(),
            row_views(waiting@) == registered_rows(*interest).take(k as int),
        decreases interest.entries@.len() - k,
    {
        let entry = &interest.entries[k];
        let row = AccessRow::Waiting {
            email: entry.1.clone(),
            account_id: Some(entry.0.clone()),
        };
        let ghost rv = row@;
        let ghost w = waiting@;
        assert(rv == registered_rows(*interest)[k as int]);
        waiting.push(row);
        k += 1;
        assert(row_views(waiting@) =~= row_views(w).push(rv));
        assert(row_views(waiting@) =~= registered_rows(*interest).take(k as int));
    }
    assert(row_views(waiting@) =~= registered_rows(*interest));
    arrange_access(enabled, waiting)
}

/// Nobody is listed as waiting who is listed as enabled.
pub proof fn waiting_are_not_enabled(
    out: Seq<AccessRow>,
    enabled: Seq<AccessRow>,
    waiting: Seq<AccessRow>,
    i: int,
)
    requires
        is_access_list(out, enabled, waiting),
        0 <= i < waiting.filter(unlisted(enabled)).len(),
    ensures
        !lists_email(enabled, out[i]@.email()),
{
    let left = waiting.filter(unlisted(enabled));
    let first = out.take(left.len() as int);
    broadcast use vstd::seq_lib::group_to_multiset_ensures;
    assert(first[i] == out[i]);
    assert(first.contains(out[i]));
    assert(first.to_multiset().count(out[i]) > 0);
    assert(left.to_multiset().count(out[i]) > 0);
    assert(left.contains(out[i]));
    filter_satisfies(waiting, unlisted(enabled));
    let j = choose|j: int| 0 <= j < left.len() && left[j] == out[i];
    assert(unlisted(enabled)(left[j]));
}

proof fn filter_satisfies<T>(s: Seq<T>, f: spec_fn(T) -> bool)
    ensures
        forall|i: int| 0 <= i < s.filter(f).len() ==> f(#[trigger] s.filter(f)[i]),
    decreases s.len(),
{
    reveal(Seq::filter);
    if s.len() > 0 {
        filter_satisfies(s.drop_last(), f);
    }
}

proof fn sorted_holds_the_same(out: Seq<AccessRow>, input: Seq<AccessRow>, row: AccessRow)
    requires
        is_stable_sort(out, input),
    ensures
        out.contains(row) <==> input.contains(row),
{
    out.to_multiset_ensures();
    input.to_multiset_ensures();
    assert(out.contains(row) <==> out.to_multiset().count(row) > 0);
    assert(input.contains(row) <==> input.to_multiset().count(row) > 0);
}

proof fn filter_keeps(s: Seq<AccessRow>, f: spec_fn(AccessRow) -> bool, row: AccessRow)
    ensures
        s.filter(f).contains(row) <==> s.contains(row) && f(row),
    decreases s.len(),
{
    reveal(Seq::filter);
    if s.len() > 0 {
        let d = s.drop_last();
        let e = d.filter(f);
        filter_keeps(d, f, row);
        assert(s =~= d.push(s.last()));
        assert(s[s.len() - 1] == s.last());
        if d.contains(row) {
            let k = choose|k: int| 0 <= k < d.len() && d[k] == row;
            assert(s[k] == row);
        }
        if s.contains(row) && s.last() != row {
            let k = choose|k: int| 0 <= k < s.len() && s[k] == row;
            assert(d[k] == row);
        }
        let p = e.push(s.last());
        assert(p[e.len() as int] == s.last());
        if e.contains(row) {
            let k = choose|k: int| 0 <= k < e.len() && e[k] == row;
            assert(p[k] == row);
        }
        if p.contains(row) && s.last() != row {
            let k = choose|k: int| 0 <= k < p.len() && p[k] == row;
            assert(e[k] == row);
        }
    }
}

/// The list holds everybody with access, and of those who wait everybody who has none; and
/// it holds nobody else.
pub proof fn everybody_is_listed(enabled: Vec<AccessRow>, waiting: Vec<AccessRow>, out: Vec<AccessRow>, row: AccessRow)
    requires
        call_ensures(arrange_access, (enabled, waiting), out),
    ensures
        enabled@.contains(row) ==> out@.contains(row),
        waiting@.contains(row) && (forall|i: int| 0 <= i < enabled@.len() ==> (#[trigger] enabled@[i])@.email()
            != row@.email()) ==> out@.contains(row),
        out@.contains(row) ==> enabled@.contains(row) || waiting@.contains(row) && (forall|i: int|
            0 <= i < enabled@.len() ==> (#[trigger] enabled@[i])@.email() != row@.email()),
{
    let left = waiting@.filter(unlisted(enabled@));
    let n = left.len() as int;
    let a = out@.take(n);
    let b = out@.skip(n);
    sorted_holds_the_same(a, left, row);
    sorted_holds_the_same(b, enabled@, row);
    filter_keeps(waiting@, unlisted(enabled@), row);
    assert(out@ =~= a + b);
    if a.contains(row) {
        let k = choose|k: int| 0 <= k < a.len() && a[k] == row;
        assert(out@[k] == row);
    }
    if b.contains(row) {
        let k = choose|k: int| 0 <= k < b.len() && b[k] == row;
        assert(out@[n + k] == row);
    }
    if out@.contains(row) {
        let k = choose|k: int| 0 <= k < out@.len() && out@[k] == row;
        if k < n {
            assert(a[k] == row);
        } else {
            assert(b[k - n] == row);
        }
    }
}

/// Those who wait come first, and both groups go by email.
pub proof fn waiting_rows_come_first(enabled: Vec<AccessRow>, waiting: Vec<AccessRow>, out: Vec<AccessRow>, i: int, j: int)
    requires
        call_ensures(arrange_access, (enabled, waiting), out),
        forall|k: int| 0 <= k < enabled@.len() ==> (#[trigger] enabled@[k]) is Enabled,
        forall|k: int| 0 <= k < waiting@.len() ==> (#[trigger] waiting@[k]) is Waiting,
        0 <= i < j < out@.len(),
    ensures
        out@[i] is Enabled ==> out@[j] is Enabled,
        (out@[i] is Enabled <==> out@[j] is Enabled) ==> !lex_lt(
            text_key(out@[j]@.email()),
            text_key(out@[i]@.email()),
        ),
{
    let left = waiting@.filter(unlisted(enabled@));
    let n = left.len() as int;
    let a = out@.take(n);
    let b = out@.skip(n);
    assert forall|k: int| 0 <= k < n implies (#[trigger] out@[k]) is Waiting by {
        assert(a[k] == out@[k]);
        sorted_holds_the_same(a, left, a[k]);
        filter_keeps(waiting@, unlisted(enabled@), a[k]);
        assert(a.contains(a[k]));
    }
    assert forall|k: int| n <= k < out@.len() implies (#[trigger] out@[k]) is Enabled by {
        assert(b[k - n] == out@[k]);
        sorted_holds_the_same(b, enabled@, b[k - n]);
        assert(b.contains(b[k - n]));
    }
    if j < n {
        assert(a[i] == out@[i] && a[j] == out@[j]);
        assert(!lex_lt(a[j].sort_key(), a[i].sort_key()));
    } else if i >= n {
        assert(b[i - n] == out@[i] && b[j - n] == out@[j]);
        assert(!lex_lt(b[j - n].sort_key(), b[i - n].sort_key()));
    }
}

/// Each row says who it is about and whether they have access; the one who has, until
/// when, and the one who waits, with which account.
pub proof fn rows_say_who_has_access(row: AccessRow, r: Json)
    requires
        call_ensures(AccessRow::to_json, (&row,), r),
    ensures
        get_view(r@, "email"@) == Some(JsonView::Text(row@.email())),
        row is Enabled ==> get_view(r@, "status"@) == Some(JsonView::Text("enabled"@)),
        row is Waiting ==> get_view(r@, "status"@) == Some(JsonView::Text("waiting"@)),
        row is Enabled ==> get_view(r@, "expires_at"@) == Some(or_null(row@->expires_at)),
        row is Waiting ==> get_view(r@, "account_id"@) == Some(or_null(row@->account_id)),
{
    reveal_strlit("email");
    reveal_strlit("status");
    reveal_strlit("expires_at");
    reveal_strlit("account_id");
    assert("email"@.len() == 5);
    assert("status"@.len() == 6);
    assert("expires_at"@.len() == 10);
    assert("account_id"@.len() == 10);
    let fields = r@->Object_0;
    crate::json::first_field_is_found(fields, "email"@, 0);
    crate::json::first_field_is_found(fields, "status"@, 1);
    crate::json::first_field_is_found(fields, "expires_at"@, 2);
    crate::json::first_field_is_found(fields, "account_id"@, 2);
}

/// A stored email grant is listed as access for that email until its end, and is no
/// registration; an item of another kind is no access.
pub proof fn stored_grants_are_access(email: &str, expires_at: Option<&str>, item: Item)
    requires
        call_ensures(super::records::email_grant_item, (email, expires_at), item),
    ensures
        email@.len() > 0 ==> grant_row(viewed(item)) == Some(
            AccessRowView::Enabled { email: email@, expires_at: expires_at.deep_view() },
        ),
        interest_row(viewed(item)) is None,
{
    reveal_strlit("GRANT");
    reveal_strlit("INTEREST_SENT");
    assert("GRANT"@.len() == 5);
    assert("INTEREST_SENT"@.len() == 13);
    reveal_strlit("pk");
    reveal_strlit("sk");
    reveal_strlit("account_id");
    reveal_strlit("plan");
    reveal_strlit("admin_expires_at");
    reveal_strlit("admin_note");
    assert("pk"@.len() == 2 && "pk"@[0] == 'p');
    assert("sk"@.len() == 2 && "sk"@[0] == 's');
    assert("account_id"@.len() == 10);
    assert("plan"@.len() == 4);
    assert("admin_expires_at"@.len() == 16);
    assert("admin_note"@.len() == 10);
}

/// A registration is listed with its email; its account is the one that it names, or the
/// one that it is kept under.
pub proof fn registrations_wait(item: ItemView, email: Seq<char>, id: Seq<char>)
    requires
        text_attr(item, "sk"@) == Some("INTEREST_SENT"@),
    ensures
        text_attr(item, "email"@) == Some(email) && text_attr(item, "account_id"@) == Some(id) ==> interest_row(item)
            == Some(AccessRowView::Waiting { email, account_id: Some(id) }),
        text_attr(item, "email"@) == Some(email) && text_attr(item, "account_id"@) is None && text_attr(item, "pk"@)
            == Some("ACCOUNT#"@ + id) ==> interest_row(item) == Some(
            AccessRowView::Waiting { email, account_id: Some(id) },
        ),
        text_attr(item, "email"@) is None ==> interest_row(item) is None,
        grant_row(item) is None,
{
    reveal_strlit("GRANT");
    reveal_strlit("INTEREST_SENT");
    assert("GRANT"@.len() == 5);
    assert("INTEREST_SENT"@.len() == 13);
    let pk = "ACCOUNT#"@ + id;
    assert("ACCOUNT#"@.is_prefix_of(pk));
    assert(pk.skip("ACCOUNT#"@.len() as int) =~= id);
}

/// Everybody with a grant is listed as enabled, and nobody is listed as enabled without
/// one.
pub proof fn granted_emails_are_listed(
    grants: &StrMap<PlanOverride>,
    interest: &StrMap<String>,
    out: Vec<AccessRow>,
    i: int,
)
    requires
        call_ensures(access_from_maps, (grants, interest), out),
        0 <= i < grants.entries@.len(),
    ensures
        exists|k: int| 0 <= k < out@.len() && (#[trigger] out@[k])@ == (AccessRowView::Enabled {
            email: grants.entries@[i].0@,
            expires_at: grants.entries@[i].1.expires_at.deep_view(),
        }),
{
    let (enabled, waiting) = choose|enabled: Seq<AccessRow>, waiting: Seq<AccessRow>|
        {
            &&& row_views(enabled) == granted_rows(*grants)
            &&& row_views(waiting) == registered_rows(*interest)
            &&& #[trigger] is_access_list(out@, enabled, waiting)
        };
    let n = waiting.filter(unlisted(enabled)).len() as int;
    let rows = granted_rows(*grants);
    assert(row_views(enabled).len() == enabled.len());
    assert(row_views(enabled)[i] == rows[i]);
    assert(enabled[i]@ == rows[i]);
    let b = out@.skip(n);
    sorted_holds_the_same(b, enabled, enabled[i]);
    assert(enabled.contains(enabled[i]));
    let k = choose|k: int| 0 <= k < b.len() && b[k] == enabled[i];
    assert(out@[n + k] == b[k]);
    assert(out@[n + k]@ == rows[i]);
}

/// Everybody who registered and has no grant is listed as waiting.
pub proof fn registered_emails_are_listed(
    grants: &StrMap<PlanOverride>,
    interest: &StrMap<String>,
    out: Vec<AccessRow>,
    i: int,
)
    requires
        call_ensures(access_from_maps, (grants, interest), out),
        0 <= i < interest.entries@.len(),
        forall|g: int| 0 <= g < grants.entries@.len() ==> (#[trigger] grants.entries@[g]).0@ != interest.entries@[i].1@,
    ensures
        exists|k: int| 0 <= k < out@.len() && (#[trigger] out@[k])@ == (AccessRowView::Waiting {
            email: interest.entries@[i].1@,
            account_id: Some(interest.entries@[i].0@),
        }),
{
    let (enabled, waiting) = choose|enabled: Seq<AccessRow>, waiting: Seq<AccessRow>|
        {
            &&& row_views(enabled) == granted_rows(*grants)
            &&& row_views(waiting) == registered_rows(*interest)
            &&& #[trigger] is_access_list(out@, enabled, waiting)
        };
    let left = waiting.filter(unlisted(enabled));
    let rows = registered_rows(*interest);
    assert(row_views(waiting).len() == waiting.len());
    assert(row_views(enabled).len() == enabled.len());
    assert(row_views(waiting)[i] == rows[i]);
    assert(waiting[i]@ == rows[i]);
    let row = waiting[i];
    assert(!lists_email(enabled, row@.email())) by {
        if lists_email(enabled, row@.email()) {
            let g = choose|g: int| 0 <= g < enabled.len() && (#[trigger] enabled[g])@.email() == row@.email();
            assert(row_views(enabled)[g] == granted_rows(*grants)[g]);
            assert(grants.entries@[g].0@ == interest.entries@[i].1@);
        }
    }
    assert(waiting.contains(row));
    filter_keeps(waiting, unlisted(enabled), row);
    let a = out@.take(left.len() as int);
    sorted_holds_the_same(a, left, row);
    let k = choose|k: int| 0 <= k < a.len() && a[k] == row;
    assert(out@[k] == a[k]);
    assert(out@[k]@ == rows[i]);
}

/// Stored items are listed by what they are, one after the other.
pub proof fn stored_items_are_listed(items: Seq<Item>, item: Item)
    ensures
        grant_row(viewed(item)) is Some ==> grant_rows(items.push(item)) == grant_rows(items).push(
            grant_row(viewed(item))->0,
        ),
        grant_row(viewed(item)) is None ==> grant_rows(items.push(item)) == grant_rows(items),
        interest_row(viewed(item)) is Some ==> interest_rows(items.push(item)) == interest_rows(items).push(
            interest_row(viewed(item))->0,
        ),
        interest_row(viewed(item)) is None ==> interest_rows(items.push(item)) == interest_rows(items),
        grant_rows(Seq::empty()).len() == 0 && interest_rows(Seq::empty()).len() == 0,
{
    assert(items.push(item).drop_last() =~= items);
    assert(items.push(item).last() == item);
}

} // verus!
