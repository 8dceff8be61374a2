//! The billing service with its records in memory.

use vstd::prelude::*;
use vstd::string::*;

use super::access::{access_from_maps, granted_rows, is_access_list, registered_rows, row_views, AccessRow};
use super::records::{
    free_record, grant_email, is_operator, is_operator_email, new_record, normalize_grant_email, override_view,
    BillingRecord, BillingRecordView, PlanOverride, PlanOverrideView,
};
use super::status::{account_status, grant_is_active_at, held, not_enabled_text, not_provisioned_cap, not_provisioned_error, not_provisioned_response, status_from_record_at, CapError};
use super::webhook::{
    account_of_event, apply_event, changes_subscription, customer_of_event, event_account, event_customer, fault_view,
    first_record, is_subscription_event, metadata_plan, names_no_price, paid_events_set_the_plan, record_after, record_from_event, signature_fault, verify_stripe_signature_at,
    StripeEvent, StripeEventView,
};
use crate::clock::{utc_now, Moment, MAX_SECS};
use crate::dynamo::{viewed, viewed_insert, viewed_remove};
use crate::gateway::auth::{AuthUser, AuthUserView};
use crate::gateway::entitlements::{empty_usage, no_usage, usage_with_boms};
use crate::http::{error_reply, refusal, refusal_with_message, Reply, ReplyView};
use crate::json::{get_view, pointer_view, JsonView};
use crate::model::purchasing::{BillingAccountStatus, BillingAccountStatusView, BillingPlan, PlanUsage, PurchaseStatus};
use crate::strmap::{entry_in_map, key_has_entry, StrMap};
use crate::text::case::{lowercase, to_lowercase};
use crate::text::{copy_opt, owned, same, trim, trimmed};

verus! {

/// What the service remembers.
pub struct BillingMemory {
    pub records: StrMap<BillingRecord>,
    pub overrides: StrMap<PlanOverride>,
    pub email_grants: StrMap<PlanOverride>,
    pub interest_sent: StrMap<String>,
    pub usage: StrMap<PlanUsage>,
    pub seen_events: StrMap<()>,
}

/// The content of the memory.
#[verifier::ext_equal]
pub struct BillingMemoryView {
    pub records: Map<Seq<char>, BillingRecordView>,
    pub overrides: Map<Seq<char>, PlanOverrideView>,
    pub email_grants: Map<Seq<char>, PlanOverrideView>,
    pub interest_sent: Map<Seq<char>, Seq<char>>,
    pub usage: Map<Seq<char>, PlanUsage>,
    pub seen_events: Set<Seq<char>>,
}

impl View for BillingMemory {
    type V = BillingMemoryView;

    open spec fn view(&self) -> BillingMemoryView {
        BillingMemoryView {
            records: viewed(self.records),
            overrides: viewed(self.overrides),
            email_grants: viewed(self.email_grants),
            interest_sent: viewed(self.interest_sent),
            usage: viewed(self.usage),
            seen_events: self.seen_events@.dom(),
        }
    }
}

impl BillingMemory {
    /// The maps are well formed and each record stands under its account.
    pub open spec fn wf(self) -> bool {
        &&& self.records.wf()
        &&& self.overrides.wf()
        &&& self.email_grants.wf()
        &&& self.interest_sent.wf()
        &&& self.usage.wf()
        &&& self.seen_events.wf()
        &&& forall|id: Seq<char>| #[trigger]
            self@.records.dom().contains(id) ==> self@.records[id].account_id == id
    }
}

/// The billing service.
pub struct BillingService {
    pub secret_key: String,
    pub webhook_secret: String,
    pub price_growth: String,
    pub price_scale: String,
    pub memory: BillingMemory,
}

/// What a map holds for a key.
pub open spec fn lookup<V>(m: Map<Seq<char>, V>, key: Seq<char>) -> Option<V> {
    if m.dom().contains(key) {
        Some(m[key])
    } else {
        None
    }
}

/// Plans by hand after one is set; the free plan takes the entry away.
pub open spec fn with_plan(
    overrides: Map<Seq<char>, PlanOverrideView>,
    account_id: Seq<char>,
    entry: PlanOverrideView,
) -> Map<Seq<char>, PlanOverrideView> {
    if entry.plan == BillingPlan::Free {
        overrides.remove(account_id)
    } else {
        overrides.insert(account_id, entry)
    }
}

/// The usage of an account.
pub open spec fn usage_of(usage: Map<Seq<char>, PlanUsage>, account_id: Seq<char>) -> PlanUsage {
    match lookup(usage, account_id) {
        Some(u) => u,
        None => no_usage(),
    }
}

/// A counter after a change, kept within its range.
pub open spec fn changed_counter(current: u32, delta: int) -> u32 {
    if current + delta < 0 {
        0
    } else if current + delta > u32::MAX {
        u32::MAX
    } else {
        (current + delta) as u32
    }
}

/// A number in the signed range, wrapped around where it lies beyond.
pub open spec fn wrapped(n: u32) -> int {
    if n <= i32::MAX {
        n as int
    } else {
        n as int - 0x1_0000_0000
    }
}

fn as_signed(n: u32) -> (r: i32)
    ensures
        r as int == wrapped(n),
{
    if n <= 0x7fff_ffff {
        n as i32
    } else {
        -((u32::MAX - n) as i32) - 1
    }
}

/// Changes a counter and keeps it within its range.
pub fn apply_usage_delta(current: &mut u32, delta: i32)
    ensures
        *final(current) == changed_counter(*old(current), delta as int),
{
    let sum: i64 = *current as i64 + delta as i64;
    *current = if sum < 0 {
        0
    } else if sum > 0xffff_ffff {
        0xffff_ffff
    } else {
        sum as u32
    };
}

/// A usage after a change of its counters.
pub open spec fn changed_usage(
    usage: PlanUsage,
    analyses: int,
    lines: int,
    purchasing: int,
    orders: int,
) -> PlanUsage {
    PlanUsage {
        analyses_count: changed_counter(usage.analyses_count, analyses),
        lines_count: changed_counter(usage.lines_count, lines),
        purchasing_actions_count: changed_counter(usage.purchasing_actions_count, purchasing),
        orders_count: changed_counter(usage.orders_count, orders),
        active_boms_count: usage.active_boms_count,
    }
}

/// A change that stays in range is undone by its opposite.
pub proof fn change_undone(current: u32, delta: int)
    requires
        0 <= current + delta <= u32::MAX,
    ensures
        changed_counter(changed_counter(current, delta), -delta) == current,
{
}

/// A cap that a reservation ran into, or a failed write.
#[derive(Debug)]
pub enum ReserveError {
    Cap { cap: String, used: u32, limit: u32 },
    Write,
}

/// The cap that stands in the way of a reservation.
pub open spec fn reserve_fault(
    usage: PlanUsage,
    purchasing_limit: u32,
    order_limit: Option<u32>,
) -> Option<(Seq<char>, u32, u32)> {
    if usage.purchasing_actions_count >= purchasing_limit {
        Some(
            ("purchasing_actions_per_month"@, usage.purchasing_actions_count, purchasing_limit),
        )
    } else if order_limit is Some && usage.orders_count >= order_limit->0 {
        Some(("orders_per_month"@, usage.orders_count, order_limit->0))
    } else {
        None
    }
}

/// The usage once an action, and an order where one is meant, is reserved.
pub open spec fn reserved_usage(usage: PlanUsage, order_limit: Option<u32>) -> PlanUsage {
    PlanUsage {
        purchasing_actions_count: (usage.purchasing_actions_count + 1) as u32,
        orders_count: if order_limit is Some {
            (usage.orders_count + 1) as u32
        } else {
            usage.orders_count
        },
        ..usage
    }
}

/// A refusal of a reservation is that cap.
pub open spec fn is_cap(error: ReserveError, cap: (Seq<char>, u32, u32)) -> bool {
    match error {
        ReserveError::Cap { cap: name, used, limit } => name@ == cap.0 && used == cap.1 && limit
            == cap.2,
        ReserveError::Write => false,
    }
}

/// Reservations never pass the caps.
pub proof fn reservation_stays_within_caps(
    usage: PlanUsage,
    purchasing_limit: u32,
    order_limit: Option<u32>,
)
    requires
        reserve_fault(usage, purchasing_limit, order_limit) is None,
    ensures
        ({
            let after = reserved_usage(usage, order_limit);
            &&& after.purchasing_actions_count == usage.purchasing_actions_count + 1
            &&& after.purchasing_actions_count <= purchasing_limit
            &&& order_limit is Some ==> after.orders_count == usage.orders_count + 1
                && after.orders_count <= order_limit->0
            &&& order_limit is None ==> after.orders_count == usage.orders_count
        }),
{
}

/// The usage after a number of tries to reserve, of which those within the caps
/// go through.
pub open spec fn usage_after_tries(
    usage: PlanUsage,
    purchasing_limit: u32,
    order_limit: Option<u32>,
    tries: nat,
) -> PlanUsage
    decreases tries,
{
    if tries == 0 {
        usage
    } else {
        let before = usage_after_tries(usage, purchasing_limit, order_limit, (tries - 1) as nat);
        if reserve_fault(before, purchasing_limit, order_limit) is None {
            reserved_usage(before, order_limit)
        } else {
            before
        }
    }
}

/// However often it is tried, no count passes its cap that was within it.
pub proof fn tries_stay_within_caps(
    usage: PlanUsage,
    purchasing_limit: u32,
    order_limit: Option<u32>,
    tries: nat,
)
    ensures
        ({
            let after = usage_after_tries(usage, purchasing_limit, order_limit, tries);
            &&& usage.purchasing_actions_count <= purchasing_limit ==> after.purchasing_actions_count
                <= purchasing_limit
            &&& order_limit is Some && usage.orders_count <= order_limit->0 ==> after.orders_count
                <= order_limit->0
            &&& order_limit is None ==> after.orders_count == usage.orders_count
        }),
    decreases tries,
{
    if tries > 0 {
        tries_stay_within_caps(usage, purchasing_limit, order_limit, (tries - 1) as nat);
    }
}

/// Reserves an action, and an order where an order limit is given.
pub fn reserve_usage(
    usage: PlanUsage,
    purchasing_limit: u32,
    order_limit: Option<u32>,
) -> (r: Result<PlanUsage, ReserveError>)
    ensures
        match reserve_fault(usage, purchasing_limit, order_limit) {
            Some(cap) => r is Err && is_cap(r->Err_0, cap),
            None => r == Ok::<PlanUsage, ReserveError>(reserved_usage(usage, order_limit)),
        },
{
    if usage.purchasing_actions_count >= purchasing_limit {
        return Err(
            ReserveError::Cap {
                cap: owned("purchasing_actions_per_month"),
                used: usage.purchasing_actions_count,
                limit: purchasing_limit,
            },
        );
    }
    let mut orders_count: u32 = usage.orders_count;
    if let Some(limit) = order_limit {
        if usage.orders_count >= limit {
            return Err(
                ReserveError::Cap {
                    cap: owned("orders_per_month"),
                    used: usage.orders_count,
                    limit,
                },
            );
        }
        orders_count = usage.orders_count + 1;
    }
    Ok(
        PlanUsage {
            analyses_count: usage.analyses_count,
            lines_count: usage.lines_count,
            purchasing_actions_count: usage.purchasing_actions_count + 1,
            orders_count,
            active_boms_count: usage.active_boms_count,
        },
    )
}

/// The condition and the update of a reservation in a table.
pub struct ReserveRequest {
    pub condition: String,
    pub update: String,
}

/// The condition and the update of a reservation in a table.
pub fn reserve_request(with_order: bool) -> (r: ReserveRequest)
    ensures
        r.condition@ == reserve_condition(with_order),
        r.update@ == reserve_update(with_order),
{
    let mut condition = owned(
        "(attribute_not_exists(purchasing_actions_count) OR purchasing_actions_count < :plimit)",
    );
    let update = if with_order {
        condition.append(" AND (attribute_not_exists(orders_count) OR orders_count < :olimit)");
        "ADD purchasing_actions_count :one, orders_count :one SET account_id = if_not_exists(account_id, :aid)"
    } else {
        "ADD purchasing_actions_count :one SET account_id = if_not_exists(account_id, :aid)"
    };
    ReserveRequest { condition, update: owned(update) }
}

/// When a reservation in a table may go through.
pub open spec fn reserve_condition(with_order: bool) -> Seq<char> {
    let purchasing =
        "(attribute_not_exists(purchasing_actions_count) OR purchasing_actions_count < :plimit)"@;
    if with_order {
        purchasing + " AND (attribute_not_exists(orders_count) OR orders_count < :olimit)"@
    } else {
        purchasing
    }
}

/// What a reservation in a table changes.
pub open spec fn reserve_update(with_order: bool) -> Seq<char> {
    if with_order {
        "ADD purchasing_actions_count :one, orders_count :one SET account_id = if_not_exists(account_id, :aid)"@
    } else {
        "ADD purchasing_actions_count :one SET account_id = if_not_exists(account_id, :aid)"@
    }
}

/// The cap to report once a table refused a reservation: the purchasing cap
/// where it is reached, else the order cap where an order was meant.
pub open spec fn refused_cap(
    usage: PlanUsage,
    purchasing_limit: u32,
    order_limit: Option<u32>,
) -> (Seq<char>, u32, u32) {
    if usage.purchasing_actions_count < purchasing_limit && order_limit is Some {
        ("orders_per_month"@, usage.orders_count, order_limit->0)
    } else {
        ("purchasing_actions_per_month"@, usage.purchasing_actions_count, purchasing_limit)
    }
}

/// The cap to report once a table refused a reservation.
pub fn reserve_refusal(usage: PlanUsage, purchasing_limit: u32, order_limit: Option<u32>) -> (r:
    ReserveError)
    ensures
        is_cap(r, refused_cap(usage, purchasing_limit, order_limit)),
{
    if usage.purchasing_actions_count < purchasing_limit {
        if let Some(limit) = order_limit {
            return ReserveError::Cap {
                cap: owned("orders_per_month"),
                used: usage.orders_count,
                limit,
            };
        }
    }
    ReserveError::Cap {
        cap: owned("purchasing_actions_per_month"),
        used: usage.purchasing_actions_count,
        limit: purchasing_limit,
    }
}

/// The grant that counts for a user, and the plans by hand after it was looked
/// up: an own plan that holds comes first; else a grant to the user's email
/// that holds is taken over as the account's own.
pub open spec fn grant_for(m: BillingMemoryView, user: AuthUserView, now: Moment) -> Result<
    (Option<PlanOverrideView>, Map<Seq<char>, PlanOverrideView>),
    Seq<char>,
> {
    let own = lookup(m.overrides, user.account_id);
    if held(own, now) is Some {
        Ok((own, m.overrides))
    } else {
        match user.email {
            None => Ok((own, m.overrides)),
            Some(email) => match grant_email(email) {
                None => Err("invalid email"@),
                Some(key) => match held(lookup(m.email_grants, key), now) {
                    Some(grant) => Ok(
                        (
                            Some(grant),
                            with_plan(
                                m.overrides,
                                user.account_id,
                                PlanOverrideView {
                                    plan: grant.plan,
                                    expires_at: grant.expires_at,
                                    note: Some(email),
                                },
                            ),
                        ),
                    ),
                    None => Ok((own, m.overrides)),
                },
            },
        }
    }
}

/// The record of a user's account.
pub open spec fn record_for(m: BillingMemoryView, user: AuthUserView) -> BillingRecordView {
    match lookup(m.records, user.account_id) {
        Some(record) => record,
        None => free_record(user.account_id, user.email),
    }
}

/// What a user may do, and the memory after the question was answered.
pub open spec fn status_answer(
    m: BillingMemoryView,
    user: AuthUserView,
    active_boms_count: u32,
    now: Moment,
) -> Result<(BillingAccountStatusView, BillingMemoryView), Seq<char>> {
    match grant_for(m, user, now) {
        Err(error) => Err(error),
        Ok((grant, overrides)) => Ok(
            (
                account_status(
                    record_for(m, user),
                    grant,
                    PlanUsage { active_boms_count, ..usage_of(m.usage, user.account_id) },
                    is_operator(user.email),
                    now,
                ),
                BillingMemoryView { overrides, ..m },
            ),
        ),
    }
}

/// Whether a user's account is enabled, and if not what they are answered; and
/// the memory after the question.
pub open spec fn provisioning(m: BillingMemoryView, user: AuthUserView, now: Moment) -> (
    Option<ReplyView>,
    BillingMemoryView,
) {
    if is_operator(user.email) {
        (None, m)
    } else {
        match status_answer(m, user, 0, now) {
            Err(error) => (Some(refusal(502, error)), m),
            Ok((status, after)) => if status.provisioned {
                (None, after)
            } else {
                (
                    Some(refusal_with_message(403, "not_provisioned"@, not_enabled_text())),
                    after,
                )
            },
        }
    }
}

/// Why a webhook is refused before its event is looked at.
pub open spec fn webhook_fault(
    secret_key: Seq<char>,
    webhook_secret: Seq<char>,
    header: Option<Seq<char>>,
    body: Seq<u8>,
    now: i64,
) -> Option<Seq<char>> {
    if secret_key.len() == 0 {
        Some("Stripe billing not configured"@)
    } else if webhook_secret.len() == 0 {
        Some("Stripe webhook secret not configured"@)
    } else {
        signature_fault(header, body, webhook_secret, now)
    }
}

/// Why a webhook is refused before its event is looked at.
pub fn admit_webhook(
    secret_key: &str,
    webhook_secret: &str,
    header: Option<&str>,
    body: &[u8],
    now: i64,
) -> (r: Result<(), String>)
    ensures
        fault_view(r) == webhook_fault(
            secret_key@,
            webhook_secret@,
            header.deep_view(),
            body@,
            now,
        ),
{
    if secret_key.is_empty() {
        return Err(owned("Stripe billing not configured"));
    }
    if webhook_secret.is_empty() {
        return Err(owned("Stripe webhook secret not configured"));
    }
    verify_stripe_signature_at(header, body, webhook_secret, now)
}

/// The records after an event: those of the account that it names, or of one
/// that has the customer it names. An event that names neither, or a customer
/// that nobody has, changes nothing.
pub open spec fn records_after(
    before: Map<Seq<char>, BillingRecordView>,
    after: Map<Seq<char>, BillingRecordView>,
    event: StripeEventView,
    price_growth: Seq<char>,
    price_scale: Seq<char>,
) -> bool {
    match event_account(event.object) {
        Some(id) => {
            let record = match lookup(before, id) {
                Some(record) => record,
                None => first_record(id, event.object),
            };
            after == before.insert(id, record_after(record, event, price_growth, price_scale))
        },
        None => match event_customer(event.object) {
            Some(customer) => if exists|id: Seq<char>| #[trigger] has_customer(before, id, customer) {
                exists|id: Seq<char>|
                    #![trigger has_customer(before, id, customer)]
                    has_customer(before, id, customer) && after == before.insert(
                        id,
                        record_after(before[id], event, price_growth, price_scale),
                    )
            } else {
                after == before
            },
            None => after == before,
        },
    }
}

/// The account's record has that customer.
pub open spec fn has_customer(
    records: Map<Seq<char>, BillingRecordView>,
    id: Seq<char>,
    customer: Seq<char>,
) -> bool {
    records.dom().contains(id) && records[id].stripe_customer_id == Some(customer)
}

impl BillingService {
    /// The maps are well formed and each record stands under its account.
    pub open spec fn wf(self) -> bool {
        self.memory.wf()
    }

    /// A service that remembers nothing yet.
    pub fn with_keys(
        secret_key: String,
        webhook_secret: String,
        price_growth: String,
        price_scale: String,
    ) -> (r: Self)
        ensures
            r.wf(),
            r.memory@ == (BillingMemoryView {
                records: Map::empty(),
                overrides: Map::empty(),
                email_grants: Map::empty(),
                interest_sent: Map::empty(),
                usage: Map::empty(),
                seen_events: Set::empty(),
            }),
            r.secret_key@ == secret_key@,
            r.webhook_secret@ == webhook_secret@,
            r.price_growth@ == price_growth@,
            r.price_scale@ == price_scale@,
    {
        let r = BillingService {
            secret_key,
            webhook_secret,
            price_growth,
            price_scale,
            memory: BillingMemory {
                records: StrMap::new(),
                overrides: StrMap::new(),
                email_grants: StrMap::new(),
                interest_sent: StrMap::new(),
                usage: StrMap::new(),
                seen_events: StrMap::new(),
            },
        };
        assert(viewed(r.memory.records) =~= Map::empty());
        assert(viewed(r.memory.overrides) =~= Map::empty());
        assert(viewed(r.memory.email_grants) =~= Map::empty());
        assert(viewed(r.memory.interest_sent) =~= Map::empty());
        assert(viewed(r.memory.usage) =~= Map::empty());
        assert(r.memory.seen_events@.dom() =~= Set::empty());
        r
    }

    /// A service without keys that remembers nothing yet.
    pub fn memory() -> (r: Self)
        ensures
            r.wf(),
            r.memory@ == (BillingMemoryView {
                records: Map::empty(),
                overrides: Map::empty(),
                email_grants: Map::empty(),
                interest_sent: Map::empty(),
                usage: Map::empty(),
                seen_events: Set::empty(),
            }),
            r.secret_key@.len() == 0,
            r.webhook_secret@.len() == 0,
            r.price_growth@.len() == 0,
            r.price_scale@.len() == 0,
    {
        BillingService::with_keys(String::new(), String::new(), String::new(), String::new())
    }

    /// Only the memory of the service changed.
    pub open spec fn same_keys(self, other: Self) -> bool {
        &&& self.secret_key == other.secret_key
        &&& self.webhook_secret == other.webhook_secret
        &&& self.price_growth == other.price_growth
        &&& self.price_scale == other.price_scale
    }

    /// Whether the payment service is set up.
    pub fn stripe_configured(&self) -> (r: bool)
        ensures
            r == (self.secret_key@.len() > 0),
    {
        !self.secret_key.as_str().is_empty()
    }

    /// Gives an account a plan by hand; the free plan takes it away again.
    pub fn set_admin_plan(
        &mut self,
        account_id: &str,
        plan: BillingPlan,
        expires_at: Option<String>,
        note: Option<String>,
    )
        requires
            old(self).wf(),
        ensures
            final(self).wf(),
            final(self).same_keys(*old(self)),
            final(self).memory@ == (BillingMemoryView {
                overrides: with_plan(
                    old(self).memory@.overrides,
                    account_id@,
                    PlanOverrideView {
                        plan,
                        expires_at: expires_at.deep_view(),
                        note: note.deep_view(),
                    },
                ),
                ..old(self).memory@
            }),
    {
        if plan == BillingPlan::Free {
            self.clear_admin_plan(account_id);
            return;
        }
        let ghost before = self.memory.overrides;
        let entry = PlanOverride { plan, expires_at, note };
        let ghost e = entry;
        self.memory.overrides.insert(account_id, entry);
        proof {
            viewed_insert(before, self.memory.overrides, account_id@, e);
        }
    }

    /// Takes away a plan given by hand.
    pub fn clear_admin_plan(&mut self, account_id: &str)
        requires
            old(self).wf(),
        ensures
            final(self).wf(),
            final(self).same_keys(*old(self)),
            final(self).memory@ == (BillingMemoryView {
                overrides: old(self).memory@.overrides.remove(account_id@),
                ..old(self).memory@
            }),
    {
        let ghost before = self.memory.overrides;
        let _ = self.memory.overrides.remove(account_id);
        proof {
            viewed_remove(before, self.memory.overrides, account_id@);
        }
    }

    /// The record of an account.
    pub fn get_record(&self, account_id: &str) -> (r: Option<BillingRecord>)
        requires
            self.wf(),
        ensures
            match lookup(self.memory@.records, account_id@) {
                Some(record) => r is Some && r->0@ == record,
                None => r is None,
            },
    {
        match self.memory.records.get(account_id) {
            Some(record) => Some(record.clone()),
            None => None,
        }
    }

    /// Keeps a record under its account.
    pub fn put_record(&mut self, record: &BillingRecord)
        requires
            old(self).wf(),
        ensures
            final(self).wf(),
            final(self).same_keys(*old(self)),
            final(self).memory@ == (BillingMemoryView {
                records: old(self).memory@.records.insert(record@.account_id, record@),
                ..old(self).memory@
            }),
    {
        let ghost before = self.memory.records;
        self.memory.records.insert(record.account_id.as_str(), record.clone());
        proof {
            viewed_insert(before, self.memory.records, record@.account_id, *record);
        }
    }

    /// The record that has the customer; any one where several do.
    pub fn find_by_customer(&self, customer_id: &str) -> (r: Option<BillingRecord>)
        requires
            self.wf(),
        ensures
            r is Some <==> exists|id: Seq<char>| #[trigger]
                has_customer(self.memory@.records, id, customer_id@),
            r is Some ==> has_customer(self.memory@.records, r->0@.account_id, customer_id@)
                && self.memory@.records[r->0@.account_id] == r->0@,
    {
        let records = &self.memory.records;
        let mut i: usize = 0;
        while i < records.entries.len()
            invariant
                i <= records.entries@.len(),
                *records == self.memory.records,
                self.wf(),
                forall|j: int|
                    0 <= j < i ==> (#[trigger] records.entries@[j]).1@.stripe_customer_id != Some(
                        customer_id@,
                    ),
            decreases records.entries@.len() - i,
        {
            let record = &records.entries[i].1;
            proof {
                entry_in_map(*records, i as int);
                assert(self.memory@.records.dom().contains(records.entries@[i as int].0@));
            }
            let hit = match &record.stripe_customer_id {
                Some(id) => same(id.as_str(), customer_id),
                None => false,
            };
            if hit {
                assert(has_customer(self.memory@.records, record@.account_id, customer_id@));
                return Some(record.clone());
            }
            i += 1;
        }
        proof {
            assert forall|id: Seq<char>| !#[trigger] has_customer(
                self.memory@.records,
                id,
                customer_id@,
            ) by {
                if self.memory@.records.dom().contains(id) {
                    key_has_entry(*records, id);
                }
            }
        }
        None
    }

    /// What an account used.
    pub fn get_usage(&self, account_id: &str) -> (r: PlanUsage)
        requires
            self.wf(),
        ensures
            r == usage_of(self.memory@.usage, account_id@),
    {
        match self.memory.usage.get(account_id) {
            Some(usage) => *usage,
            None => empty_usage(),
        }
    }

    fn set_usage(&mut self, account_id: &str, usage: PlanUsage)
        requires
            old(self).wf(),
        ensures
            final(self).wf(),
            final(self).same_keys(*old(self)),
            final(self).memory@ == (BillingMemoryView {
                usage: old(self).memory@.usage.insert(account_id@, usage),
                ..old(self).memory@
            }),
    {
        let ghost before = self.memory.usage;
        self.memory.usage.insert(account_id, usage);
        proof {
            viewed_insert(before, self.memory.usage, account_id@, usage);
        }
    }

    /// Changes the counters of an account.
    pub fn adjust_usage(
        &mut self,
        account_id: &str,
        analyses: i32,
        lines: i32,
        purchasing: i32,
        orders: i32,
    )
        requires
            old(self).wf(),
        ensures
            final(self).wf(),
            final(self).same_keys(*old(self)),
            final(self).memory@ == (BillingMemoryView {
                usage: old(self).memory@.usage.insert(
                    account_id@,
                    changed_usage(
                        usage_of(old(self).memory@.usage, account_id@),
                        analyses as int,
                        lines as int,
                        purchasing as int,
                        orders as int,
                    ),
                ),
                ..old(self).memory@
            }),
    {
        let mut entry = self.get_usage(account_id);
        apply_usage_delta(&mut entry.analyses_count, analyses);
        apply_usage_delta(&mut entry.lines_count, lines);
        apply_usage_delta(&mut entry.purchasing_actions_count, purchasing);
        apply_usage_delta(&mut entry.orders_count, orders);
        self.set_usage(account_id, entry);
    }

    /// Counts what was used. Numbers beyond the signed range wrap around.
    pub fn increment_usage(
        &mut self,
        account_id: &str,
        analyses: u32,
        lines: u32,
        purchasing: u32,
        orders: u32,
    )
        requires
            old(self).wf(),
        ensures
            final(self).wf(),
            final(self).same_keys(*old(self)),
            final(self).memory@ == (BillingMemoryView {
                usage: old(self).memory@.usage.insert(
                    account_id@,
                    changed_usage(
                        usage_of(old(self).memory@.usage, account_id@),
                        wrapped(analyses),
                        wrapped(lines),
                        wrapped(purchasing),
                        wrapped(orders),
                    ),
                ),
                ..old(self).memory@
            }),
    {
        self.adjust_usage(
            account_id,
            as_signed(analyses),
            as_signed(lines),
            as_signed(purchasing),
            as_signed(orders),
        );
    }

    /// Reserves an action, and an order where an order limit is given.
    pub fn try_reserve_usage_atomic(
        &mut self,
        account_id: &str,
        purchasing_limit: u32,
        order_limit: Option<u32>,
    ) -> (r: Result<(), ReserveError>)
        requires
            old(self).wf(),
        ensures
            final(self).wf(),
            final(self).same_keys(*old(self)),
            ({
                let before = usage_of(old(self).memory@.usage, account_id@);
                let fault = reserve_fault(before, purchasing_limit, order_limit);
                let after = if fault is None {
                    reserved_usage(before, order_limit)
                } else {
                    before
                };
                &&& r is Ok <==> fault is None
                &&& r is Err ==> is_cap(r->Err_0, fault->0)
                &&& final(self).memory@ == (BillingMemoryView {
                    usage: old(self).memory@.usage.insert(account_id@, after),
                    ..old(self).memory@
                })
            }),
    {
        let entry = self.get_usage(account_id);
        match reserve_usage(entry, purchasing_limit, order_limit) {
            Ok(after) => {
                self.set_usage(account_id, after);
                Ok(())
            },
            Err(error) => {
                self.set_usage(account_id, entry);
                Err(error)
            },
        }
    }

    /// A plan given to an account by hand.
    pub fn get_plan_override(&self, account_id: &str) -> (r: Option<PlanOverride>)
        requires
            self.wf(),
        ensures
            override_view(r) == lookup(self.memory@.overrides, account_id@),
    {
        match self.memory.overrides.get(account_id) {
            Some(entry) => Some(entry.clone()),
            None => None,
        }
    }

    /// A plan granted to an email.
    pub fn get_email_grant(&self, email: &str) -> (r: Result<Option<PlanOverride>, String>)
        requires
            self.wf(),
        ensures
            match grant_email(email@) {
                Some(key) => r is Ok && override_view(r->Ok_0) == lookup(
                    self.memory@.email_grants,
                    key,
                ),
                None => r is Err && r->Err_0@ == "invalid email"@,
            },
    {
        let key = match normalize_grant_email(email) {
            Ok(key) => key,
            Err(error) => {
                return Err(error);
            },
        };
        match self.memory.email_grants.get(key.as_str()) {
            Some(entry) => Ok(Some(entry.clone())),
            None => Ok(None),
        }
    }

    /// Grants the largest plan to an email.
    pub fn put_email_grant(&mut self, email: &str, expires_at: Option<String>) -> (r: Result<
        (),
        String,
    >)
        requires
            old(self).wf(),
        ensures
            final(self).wf(),
            final(self).same_keys(*old(self)),
            match grant_email(email@) {
                Some(key) => r is Ok && final(self).memory@ == (BillingMemoryView {
                    email_grants: old(self).memory@.email_grants.insert(
                        key,
                        PlanOverrideView {
                            plan: BillingPlan::Scale,
                            expires_at: expires_at.deep_view(),
                            note: Some(key),
                        },
                    ),
                    ..old(self).memory@
                }),
                None => r is Err && r->Err_0@ == "invalid email"@ && *final(self) == *old(self),
            },
    {
        let key = match normalize_grant_email(email) {
            Ok(key) => key,
            Err(error) => {
                return Err(error);
            },
        };
        let ghost before = self.memory.email_grants;
        let grant = PlanOverride {
            plan: BillingPlan::Scale,
            expires_at,
            note: Some(key.clone()),
        };
        let ghost g = grant;
        self.memory.email_grants.insert(key.as_str(), grant);
        proof {
            viewed_insert(before, self.memory.email_grants, key@, g);
        }
        Ok(())
    }

    /// Takes back a grant to an email.
    pub fn delete_email_grant(&mut self, email: &str) -> (r: Result<(), String>)
        requires
            old(self).wf(),
        ensures
            final(self).wf(),
            final(self).same_keys(*old(self)),
            match grant_email(email@) {
                Some(key) => r is Ok && final(self).memory@ == (BillingMemoryView {
                    email_grants: old(self).memory@.email_grants.remove(key),
                    ..old(self).memory@
                }),
                None => r is Err && r->Err_0@ == "invalid email"@ && *final(self) == *old(self),
            },
    {
        let key = match normalize_grant_email(email) {
            Ok(key) => key,
            Err(error) => {
                return Err(error);
            },
        };
        let ghost before = self.memory.email_grants;
        let _ = self.memory.email_grants.remove(key.as_str());
        proof {
            viewed_remove(before, self.memory.email_grants, key@);
        }
        Ok(())
    }

    /// Grants the largest plan to an email, and to its account where there is one.
    pub fn grant_email(
        &mut self,
        email: &str,
        expires_at: Option<String>,
        account_id: Option<&str>,
    ) -> (r: Result<(), String>)
        requires
            old(self).wf(),
        ensures
            final(self).wf(),
            final(self).same_keys(*old(self)),
            match grant_email(email@) {
                Some(key) => r is Ok && final(self).memory@ == (BillingMemoryView {
                    email_grants: old(self).memory@.email_grants.insert(
                        key,
                        PlanOverrideView {
                            plan: BillingPlan::Scale,
                            expires_at: expires_at.deep_view(),
                            note: Some(key),
                        },
                    ),
                    overrides: match account_id.deep_view() {
                        Some(id) => old(self).memory@.overrides.insert(
                            id,
                            PlanOverrideView {
                                plan: BillingPlan::Scale,
                                expires_at: expires_at.deep_view(),
                                note: Some(email@),
                            },
                        ),
                        None => old(self).memory@.overrides,
                    },
                    ..old(self).memory@
                }),
                None => r is Err && r->Err_0@ == "invalid email"@ && *final(self) == *old(self),
            },
    {
        let expires = copy_opt(&expires_at);
        match self.put_email_grant(email, expires) {
            Ok(()) => {},
            Err(error) => {
                return Err(error);
            },
        }
        if let Some(account_id) = account_id {
            self.set_admin_plan(account_id, BillingPlan::Scale, expires_at, Some(owned(email)));
        }
        Ok(())
    }

    /// Takes back a grant to an email, and the plan of its account where there is one.
    pub fn revoke_email(&mut self, email: &str, account_id: Option<&str>) -> (r: Result<(), String>)
        requires
            old(self).wf(),
        ensures
            final(self).wf(),
            final(self).same_keys(*old(self)),
            match grant_email(email@) {
                Some(key) => r is Ok && final(self).memory@ == (BillingMemoryView {
                    email_grants: old(self).memory@.email_grants.remove(key),
                    overrides: match account_id.deep_view() {
                        Some(id) => old(self).memory@.overrides.remove(id),
                        None => old(self).memory@.overrides,
                    },
                    ..old(self).memory@
                }),
                None => r is Err && r->Err_0@ == "invalid email"@ && *final(self) == *old(self),
            },
    {
        match self.delete_email_grant(email) {
            Ok(()) => {},
            Err(error) => {
                return Err(error);
            },
        }
        if let Some(account_id) = account_id {
            self.clear_admin_plan(account_id);
        }
        Ok(())
    }

    /// The email under which an account registered.
    pub fn interest_sent_email(&self, account_id: &str) -> (r: Option<String>)
        requires
            self.wf(),
        ensures
            r.deep_view() == lookup(self.memory@.interest_sent, account_id@),
    {
        match self.memory.interest_sent.get(account_id) {
            Some(email) => Some(email.clone()),
            None => None,
        }
    }

    /// Notes that an account registered.
    pub fn mark_interest_sent(&mut self, account_id: &str, email: &str)
        requires
            old(self).wf(),
        ensures
            final(self).wf(),
            final(self).same_keys(*old(self)),
            final(self).memory@ == (BillingMemoryView {
                interest_sent: old(self).memory@.interest_sent.insert(
                    account_id@,
                    lowercase(trimmed(email@)),
                ),
                ..old(self).memory@
            }),
    {
        let email = to_lowercase(trim(email).as_str());
        let ghost before = self.memory.interest_sent;
        let ghost e = email;
        self.memory.interest_sent.insert(account_id, email);
        proof {
            viewed_insert(before, self.memory.interest_sent, account_id@, e);
        }
    }

    /// Everybody with access or waiting for it.
    pub fn list_access(&self) -> (out: Vec<AccessRow>)
        ensures
            exists|enabled: Seq<AccessRow>, waiting: Seq<AccessRow>|
                {
                    &&& row_views(enabled) == granted_rows(self.memory.email_grants)
                    &&& row_views(waiting) == registered_rows(self.memory.interest_sent)
                    &&& #[trigger] is_access_list(out@, enabled, waiting)
                },
    {
        access_from_maps(&self.memory.email_grants, &self.memory.interest_sent)
    }

    /// Claims an event, so that it is applied at most once; whether it was free.
    pub fn claim_event(&mut self, event_id: &str) -> (r: bool)
        requires
            old(self).wf(),
        ensures
            final(self).wf(),
            final(self).same_keys(*old(self)),
            r == !old(self).memory@.seen_events.contains(event_id@),
            final(self).memory@ == (BillingMemoryView {
                seen_events: old(self).memory@.seen_events.insert(event_id@),
                ..old(self).memory@
            }),
    {
        let free = !self.memory.seen_events.contains_key(event_id);
        self.memory.seen_events.insert(event_id, ());
        proof {
            assert(self.memory@.seen_events =~= old(self).memory@.seen_events.insert(event_id@));
        }
        free
    }

    /// Gives a claimed event free again.
    pub fn release_event(&mut self, event_id: &str)
        requires
            old(self).wf(),
        ensures
            final(self).wf(),
            final(self).same_keys(*old(self)),
            final(self).memory@ == (BillingMemoryView {
                seen_events: old(self).memory@.seen_events.remove(event_id@),
                ..old(self).memory@
            }),
    {
        let _ = self.memory.seen_events.remove(event_id);
        proof {
            assert(self.memory@.seen_events =~= old(self).memory@.seen_events.remove(event_id@));
        }
    }

    /// Brings a record up to date with an event.
    pub fn apply_subscription_event(&mut self, event: &StripeEvent)
        requires
            old(self).wf(),
        ensures
            final(self).wf(),
            final(self).same_keys(*old(self)),
            final(self).memory@ == (BillingMemoryView {
                records: final(self).memory@.records,
                ..old(self).memory@
            }),
            records_after(
                old(self).memory@.records,
                final(self).memory@.records,
                event@,
                old(self).price_growth@,
                old(self).price_scale@,
            ),
    {
        let record = match account_of_event(event) {
            Some(account_id) => match self.get_record(account_id.as_str()) {
                Some(record) => record,
                None => record_from_event(account_id.as_str(), event),
            },
            None => match customer_of_event(event) {
                Some(customer_id) => match self.find_by_customer(customer_id.as_str()) {
                    Some(record) => record,
                    None => {
                        return;
                    },
                },
                None => {
                    return;
                },
            },
        };
        let ghost base = record@;
        let record = apply_event(
            record,
            event,
            self.price_growth.as_str(),
            self.price_scale.as_str(),
        );
        self.put_record(&record);
        proof {
            let records = old(self).memory@.records;
            match event_account(event@.object) {
                Some(id) => {
                    if records.dom().contains(id) {
                        assert(records[id].account_id == id);
                    }
                    assert(base.account_id == id);
                },
                None => {
                    assert(has_customer(
                        records,
                        base.account_id,
                        event_customer(event@.object)->0,
                    ));
                },
            }
        }
    }

    /// Takes in a webhook at that time: its signature header, its body, and the
    /// event that the body holds or why it holds none.
    pub fn handle_webhook_at(
        &mut self,
        header: Option<&str>,
        body: &[u8],
        event: Result<StripeEvent, String>,
        now: i64,
    ) -> (r: Result<(), String>)
        requires
            old(self).wf(),
        ensures
            final(self).wf(),
            final(self).same_keys(*old(self)),
            match webhook_fault(
                old(self).secret_key@,
                old(self).webhook_secret@,
                header.deep_view(),
                body@,
                now,
            ) {
                Some(fault) => fault_view(r) == Some(fault) && *final(self) == *old(self),
                None => match event {
                    Err(error) => fault_view(r) == Some("invalid webhook json: "@ + error@)
                        && *final(self) == *old(self),
                    Ok(event) => r is Ok && webhook_applied(
                        old(self).memory@,
                        final(self).memory@,
                        event@,
                        old(self).price_growth@,
                        old(self).price_scale@,
                    ),
                },
            },
    {
        match admit_webhook(
            self.secret_key.as_str(),
            self.webhook_secret.as_str(),
            header,
            body,
            now,
        ) {
            Ok(()) => {},
            Err(error) => {
                return Err(error);
            },
        }
        let event = match event {
            Ok(event) => event,
            Err(error) => {
                let mut text = owned("invalid webhook json: ");
                text.append(error.as_str());
                return Err(text);
            },
        };
        if changes_subscription(event.kind.as_str()) {
            if self.claim_event(event.id.as_str()) {
                self.apply_subscription_event(&event);
            } else {
                assert(self.memory@.seen_events =~= old(self).memory@.seen_events);
            }
        }
        Ok(())
    }

    /// Takes in a webhook now.
    pub fn handle_webhook(
        &mut self,
        header: Option<&str>,
        body: &[u8],
        event: Result<StripeEvent, String>,
    ) -> (r: Result<(), String>)
        requires
            old(self).wf(),
        ensures
            final(self).wf(),
            final(self).same_keys(*old(self)),
            exists|now: i64| 0 <= now <= MAX_SECS && match #[trigger] webhook_fault(
                old(self).secret_key@,
                old(self).webhook_secret@,
                header.deep_view(),
                body@,
                now,
            ) {
                Some(fault) => fault_view(r) == Some(fault) && *final(self) == *old(self),
                None => match event {
                    Err(error) => fault_view(r) == Some("invalid webhook json: "@ + error@)
                        && *final(self) == *old(self),
                    Ok(event) => r is Ok && webhook_applied(
                        old(self).memory@,
                        final(self).memory@,
                        event@,
                        old(self).price_growth@,
                        old(self).price_scale@,
                    ),
                },
            },
    {
        let now = utc_now();
        self.handle_webhook_at(header, body, event, now.secs)
    }

    /// What a user may do at that time.
    pub fn status_for_at(&mut self, user: &AuthUser, active_boms_count: u32, now: Moment) -> (r:
        Result<BillingAccountStatus, String>)
        requires
            old(self).wf(),
        ensures
            final(self).wf(),
            final(self).same_keys(*old(self)),
            match status_answer(old(self).memory@, user@, active_boms_count, now) {
                Ok((status, after)) => r is Ok && r->Ok_0@ == status && final(self).memory@
                    == after,
                Err(error) => r is Err && r->Err_0@ == error && *final(self) == *old(self),
            },
    {
        let record = match self.get_record(user.account_id.as_str()) {
            Some(record) => record,
            None => new_record(user.account_id.as_str(), &user.email),
        };
        let mut override_plan = self.get_plan_override(user.account_id.as_str());
        let holds = match &override_plan {
            Some(entry) => grant_is_active_at(entry, now),
            None => false,
        };
        if !holds {
            if let Some(email) = &user.email {
                match self.get_email_grant(email.as_str()) {
                    Err(error) => {
                        return Err(error);
                    },
                    Ok(Some(grant)) => {
                        if grant_is_active_at(&grant, now) {
                            self.set_admin_plan(
                                user.account_id.as_str(),
                                grant.plan,
                                copy_opt(&grant.expires_at),
                                Some(email.clone()),
                            );
                            override_plan = Some(grant);
                        }
                    },
                    Ok(None) => {},
                }
            }
        }
        let usage = self.get_usage(user.account_id.as_str());
        let usage = usage_with_boms(active_boms_count, usage);
        let operator = is_operator_email(super::records::as_str_opt(&user.email));
        Ok(status_from_record_at(&record, override_plan, usage, operator, now))
    }

    /// What a user may do now.
    pub fn status_for(&mut self, user: &AuthUser, active_boms_count: u32) -> (r: Result<
        BillingAccountStatus,
        String,
    >)
        requires
            old(self).wf(),
        ensures
            final(self).wf(),
            final(self).same_keys(*old(self)),
            exists|now: Moment| now.can_be_now() && match #[trigger] status_answer(
                old(self).memory@,
                user@,
                active_boms_count,
                now,
            ) {
                Ok((status, after)) => r is Ok && r->Ok_0@ == status && final(self).memory@
                    == after,
                Err(error) => r is Err && r->Err_0@ == error && *final(self) == *old(self),
            },
    {
        let now = utc_now();
        self.status_for_at(user, active_boms_count, now)
    }

    /// Refuses users whose account is not enabled at that time.
    pub fn ensure_provisioned_at(&mut self, user: &AuthUser, now: Moment) -> (r: Result<(), Reply>)
        requires
            old(self).wf(),
        ensures
            final(self).wf(),
            final(self).same_keys(*old(self)),
            ({
                let (refused, after) = provisioning(old(self).memory@, user@, now);
                &&& r is Ok <==> refused is None
                &&& r is Err ==> refused == Some(r->Err_0@)
                &&& final(self).memory@ == after
            }),
    {
        if is_operator_email(super::records::as_str_opt(&user.email)) {
            return Ok(());
        }
        match self.status_for_at(user, 0, now) {
            Ok(status) => if status.provisioned {
                Ok(())
            } else {
                Err(not_provisioned_response())
            },
            Err(error) => Err(error_reply(502, error.as_str())),
        }
    }

    /// Refuses users whose account is not enabled now.
    pub fn ensure_provisioned(&mut self, user: &AuthUser) -> (r: Result<(), Reply>)
        requires
            old(self).wf(),
        ensures
            final(self).wf(),
            final(self).same_keys(*old(self)),
            exists|now: Moment|
                {
                    let (refused, after) = #[trigger] provisioning(old(self).memory@, user@, now);
                    &&& now.can_be_now()
                    &&& r is Ok <==> refused is None
                    &&& r is Err ==> refused == Some(r->Err_0@)
                    &&& final(self).memory@ == after
                },
    {
        let now = utc_now();
        self.ensure_provisioned_at(user, now)
    }

    /// Enabled accounts can purchase; others need a subscription.
    pub fn ensure_can_purchase(&mut self, user: &AuthUser) -> (r: Result<(), PurchaseStatus>)
        requires
            old(self).wf(),
        ensures
            final(self).wf(),
            final(self).same_keys(*old(self)),
            exists|now: Moment|
                {
                    let (refused, after) = #[trigger] provisioning(old(self).memory@, user@, now);
                    &&& now.can_be_now()
                    &&& r is Ok <==> refused is None
                    &&& r is Err ==> r->Err_0 == PurchaseStatus::RequiresSubscription
                    &&& final(self).memory@ == after
                },
    {
        match self.ensure_provisioned(user) {
            Ok(()) => Ok(()),
            Err(_) => Err(PurchaseStatus::RequiresSubscription),
        }
    }

    fn ensure_enabled(&mut self, user: &AuthUser) -> (r: Result<(), CapError>)
        requires
            old(self).wf(),
        ensures
            final(self).wf(),
            final(self).same_keys(*old(self)),
            exists|now: Moment|
                {
                    let (refused, after) = #[trigger] provisioning(old(self).memory@, user@, now);
                    &&& now.can_be_now()
                    &&& r is Ok <==> refused is None
                    &&& r is Err ==> r->Err_0@ == not_provisioned_cap()
                    &&& final(self).memory@ == after
                },
    {
        match self.ensure_provisioned(user) {
            Ok(()) => Ok(()),
            Err(_) => Err(not_provisioned_error()),
        }
    }

    /// Reserves a quote or an order: enabled accounts may make either.
    pub fn reserve_purchasing_action(&mut self, user: &AuthUser, _is_order: bool) -> (r: Result<
        (),
        CapError,
    >)
        requires
            old(self).wf(),
        ensures
            final(self).wf(),
            final(self).same_keys(*old(self)),
            exists|now: Moment|
                {
                    let (refused, after) = #[trigger] provisioning(old(self).memory@, user@, now);
                    &&& now.can_be_now()
                    &&& r is Ok <==> refused is None
                    &&& r is Err ==> r->Err_0@ == not_provisioned_cap()
                    &&& final(self).memory@ == after
                },
    {
        self.ensure_enabled(user)
    }

    /// Gives back a reserved quote or order. Nothing is counted, so nothing changes.
    pub fn release_purchasing_action(&mut self, _user: &AuthUser, _is_order: bool)
        ensures
            *final(self) == *old(self),
    {
    }

    /// Whether a user may keep one more bom: enabled accounts may.
    pub fn ensure_bom_create(
        &mut self,
        user: &AuthUser,
        _active_bom_count: u32,
        _line_count: u32,
    ) -> (r: Result<(), CapError>)
        requires
            old(self).wf(),
        ensures
            final(self).wf(),
            final(self).same_keys(*old(self)),
            exists|now: Moment|
                {
                    let (refused, after) = #[trigger] provisioning(old(self).memory@, user@, now);
                    &&& now.can_be_now()
                    &&& r is Ok <==> refused is None
                    &&& r is Err ==> r->Err_0@ == not_provisioned_cap()
                    &&& final(self).memory@ == after
                },
    {
        self.ensure_enabled(user)
    }

    /// Whether a user may change a bom: enabled accounts may.
    pub fn ensure_bom_update(&mut self, user: &AuthUser, _line_count: u32) -> (r: Result<
        (),
        CapError,
    >)
        requires
            old(self).wf(),
        ensures
            final(self).wf(),
            final(self).same_keys(*old(self)),
            exists|now: Moment|
                {
                    let (refused, after) = #[trigger] provisioning(old(self).memory@, user@, now);
                    &&& now.can_be_now()
                    &&& r is Ok <==> refused is None
                    &&& r is Err ==> r->Err_0@ == not_provisioned_cap()
                    &&& final(self).memory@ == after
                },
    {
        self.ensure_enabled(user)
    }
}

/// What an accepted webhook does: an event that changes subscriptions is
/// claimed, and applied where it was not claimed before. Others do nothing.
pub open spec fn webhook_applied(
    before: BillingMemoryView,
    after: BillingMemoryView,
    event: StripeEventView,
    price_growth: Seq<char>,
    price_scale: Seq<char>,
) -> bool {
    if !is_subscription_event(event.kind) || before.seen_events.contains(event.id) {
        after == before
    } else {
        &&& after == (BillingMemoryView {
            records: after.records,
            seen_events: before.seen_events.insert(event.id),
            ..before
        })
        &&& records_after(before.records, after.records, event, price_growth, price_scale)
    }
}

/// An event that was taken in once changes nothing when it comes again.
pub proof fn event_applies_once(
    first: BillingMemoryView,
    second: BillingMemoryView,
    third: BillingMemoryView,
    event: StripeEventView,
    price_growth: Seq<char>,
    price_scale: Seq<char>,
)
    requires
        webhook_applied(first, second, event, price_growth, price_scale),
        webhook_applied(second, third, event, price_growth, price_scale),
    ensures
        third == second,
{
}

/// Setting a plan and clearing it leaves no plan by hand.
pub proof fn cleared_plan_is_gone(
    overrides: Map<Seq<char>, PlanOverrideView>,
    account_id: Seq<char>,
    entry: PlanOverrideView,
)
    ensures
        lookup(with_plan(overrides, account_id, entry).remove(account_id), account_id) is None,
        entry.plan != BillingPlan::Free ==> lookup(
            with_plan(overrides, account_id, entry),
            account_id,
        ) == Some(entry),
        entry.plan == BillingPlan::Free ==> lookup(
            with_plan(overrides, account_id, entry),
            account_id,
        ) is None,
{
}

/// A customer who pays for a plan is on it: once the paid checkout of an account was taken
/// in, the account is enabled on the plan that the checkout names, and no other account is
/// touched.
pub proof fn paying_enables_the_account(
    before: BillingMemoryView,
    after: BillingMemoryView,
    event: StripeEventView,
    price_growth: Seq<char>,
    price_scale: Seq<char>,
    user: AuthUserView,
    boms: u32,
    now: Moment,
    other: Seq<char>,
)
    requires
        webhook_applied(before, after, event, price_growth, price_scale),
        !before.seen_events.contains(event.id),
        event.kind == "checkout.session.completed"@,
        event.object is Object,
        get_view(event.object, "object"@) is None,
        get_view(event.object, "payment_status"@) == Some(JsonView::Text("paid"@)),
        get_view(event.object, "client_reference_id"@) == Some(JsonView::Text(user.account_id)),
        names_no_price(event.object),
        user.email is None,
        !before.overrides.dom().contains(user.account_id),
    ensures
        metadata_plan(event.object) == Some(JsonView::Text("growth"@)) ==> ({
            let answer = status_answer(after, user, boms, now);
            &&& answer is Ok
            &&& answer->Ok_0.0.plan == BillingPlan::Growth
            &&& answer->Ok_0.0.provisioned && answer->Ok_0.0.can_purchase
            &&& provisioning(after, user, now).0 is None
        }),
        metadata_plan(event.object) == Some(JsonView::Text("scale"@)) ==> ({
            let answer = status_answer(after, user, boms, now);
            &&& answer is Ok
            &&& answer->Ok_0.0.plan == BillingPlan::Scale
            &&& answer->Ok_0.0.provisioned && answer->Ok_0.0.can_purchase
            &&& provisioning(after, user, now).0 is None
        }),
        other != user.account_id ==> (after.records.dom().contains(other) <==> before.records.dom().contains(
            other,
        )),
        other != user.account_id && before.records.dom().contains(other) ==> after.records[other]
            == before.records[other],
        after.usage == before.usage && after.overrides == before.overrides && after.email_grants
            == before.email_grants,
        after.seen_events.contains(event.id),
{
    reveal_strlit("checkout.session.completed");
    reveal_strlit("customer.subscription.deleted");
    assert("checkout.session.completed"@.len() == 26);
    assert("customer.subscription.deleted"@.len() == 29);
    assert(event_account(event.object) == Some(user.account_id));
    let record = match lookup(before.records, user.account_id) {
        Some(record) => record,
        None => first_record(user.account_id, event.object),
    };
    paid_events_set_the_plan(record, event, price_growth, price_scale);
    let written = record_after(record, event, price_growth, price_scale);
    assert(after.records[user.account_id] == written);
    assert(written.status == crate::model::purchasing::BillingStatus::Active);
}

/// A subscription that was deleted no longer enables its account, but for those who run
/// the service and those who hold a grant.
pub proof fn deleting_disables_the_account(
    before: BillingMemoryView,
    after: BillingMemoryView,
    event: StripeEventView,
    price_growth: Seq<char>,
    price_scale: Seq<char>,
    user: AuthUserView,
    boms: u32,
    now: Moment,
)
    requires
        webhook_applied(before, after, event, price_growth, price_scale),
        !before.seen_events.contains(event.id),
        event.kind == "customer.subscription.deleted"@,
        get_view(event.object, "client_reference_id"@) == Some(JsonView::Text(user.account_id)),
        user.email is None,
        !before.overrides.dom().contains(user.account_id),
    ensures
        ({
            let answer = status_answer(after, user, boms, now);
            &&& answer is Ok
            &&& answer->Ok_0.0.plan == BillingPlan::Free
            &&& !answer->Ok_0.0.provisioned && !answer->Ok_0.0.can_purchase
            &&& provisioning(after, user, now).0 is Some
            &&& provisioning(after, user, now).0->0.status == 403
        }),
{
    assert(event_account(event.object) == Some(user.account_id));
    let record = match lookup(before.records, user.account_id) {
        Some(record) => record,
        None => first_record(user.account_id, event.object),
    };
    assert(after.records[user.account_id] == record_after(record, event, price_growth, price_scale));
}

/// An event without an account goes to an account with its customer, and where nobody has
/// that customer, or it names none, nothing changes.
pub proof fn events_find_accounts_by_customer(
    before: Map<Seq<char>, BillingRecordView>,
    after: Map<Seq<char>, BillingRecordView>,
    event: StripeEventView,
    price_growth: Seq<char>,
    price_scale: Seq<char>,
    customer: Seq<char>,
    id: Seq<char>,
)
    requires
        records_after(before, after, event, price_growth, price_scale),
        event.object is Object,
        get_view(event.object, "client_reference_id"@) is None,
        get_view(event.object, "metadata"@) is None,
    ensures
        get_view(event.object, "customer"@) is None ==> after == before,
        get_view(event.object, "customer"@) == Some(JsonView::Text(customer)) && (forall|k: Seq<char>| #[trigger]
            before.dom().contains(k) ==> before[k].stripe_customer_id != Some(customer)) ==> after == before,
        before.dom().contains(id) ==> after.dom().contains(id),
        get_view(event.object, "customer"@) == Some(JsonView::Text(customer)) && before.dom().contains(id)
            && before[id].stripe_customer_id != Some(customer) ==> after[id] == before[id],
        get_view(event.object, "customer"@) == Some(JsonView::Text(customer)) && before.dom().contains(id)
            && before[id].stripe_customer_id == Some(customer) && event.kind == "customer.subscription.deleted"@
            && (forall|k: Seq<char>| #[trigger]
            before.dom().contains(k) && before[k].stripe_customer_id == Some(customer) ==> k == id)
            ==> after[id].plan == BillingPlan::Free,
{
    let path = seq!["metadata"@, "account_id"@];
    assert(pointer_view(event.object, path) is None);
    assert(event_account(event.object) is None);
    if get_view(event.object, "customer"@) == Some(JsonView::Text(customer)) {
        assert(event_customer(event.object) == Some(customer));
        if before.dom().contains(id) && before[id].stripe_customer_id == Some(customer) {
            assert(has_customer(before, id, customer));
        }
        if exists|k: Seq<char>| #[trigger] has_customer(before, k, customer) {
            let w = choose|k: Seq<char>| #[trigger] has_customer(before, k, customer);
            assert(has_customer(before, w, event_customer(event.object)->0));
            assert(exists|k: Seq<char>|
                #![trigger has_customer(before, k, customer)]
                has_customer(before, k, customer) && after == before.insert(
                    k,
                    record_after(before[k], event, price_growth, price_scale),
                ));
            let k = choose|k: Seq<char>|
                #![trigger has_customer(before, k, customer)]
                has_customer(before, k, customer) && after == before.insert(
                    k,
                    record_after(before[k], event, price_growth, price_scale),
                );
            assert(has_customer(before, k, customer));
        } else if before.dom().contains(id) {
            assert(has_customer(before, id, customer) <==> before[id].stripe_customer_id == Some(customer));
        }
    }
}

/// Events of other kinds, and events that were taken in before, change nothing.
pub proof fn other_webhooks_change_nothing(
    before: BillingMemoryView,
    after: BillingMemoryView,
    event: StripeEventView,
    price_growth: Seq<char>,
    price_scale: Seq<char>,
)
    requires
        webhook_applied(before, after, event, price_growth, price_scale),
        before.seen_events.contains(event.id) || (event.kind != "checkout.session.completed"@ && event.kind
            != "customer.subscription.created"@ && event.kind != "customer.subscription.updated"@ && event.kind
            != "customer.subscription.deleted"@),
    ensures
        after == before,
{
}

/// A plan given by hand that holds is the account's plan, whatever its record says; one
/// that ended leaves it with what the record says.
pub proof fn plans_by_hand_count_while_they_hold(
    m: BillingMemoryView,
    user: AuthUserView,
    entry: PlanOverrideView,
    boms: u32,
    now: Moment,
)
    requires
        user.email is None,
        m.overrides.dom().contains(user.account_id),
        m.overrides[user.account_id] == entry,
    ensures
        entry.expires_at is None ==> ({
            let answer = status_answer(m, user, boms, now);
            &&& answer is Ok
            &&& answer->Ok_0.0.plan == entry.plan
            &&& answer->Ok_0.0.provisioned
            &&& answer->Ok_0.1 == m
        }),
        (entry.expires_at is Some && crate::clock::moment_of(entry.expires_at->0) is Some && crate::clock::moment_of(
            entry.expires_at->0,
        )->0.secs < now.secs) ==> status_answer(m, user, boms, now) is Ok && status_answer(m, user, boms, now)->Ok_0.0
            == status_answer(
            BillingMemoryView { overrides: m.overrides.remove(user.account_id), ..m },
            user,
            boms,
            now,
        )->Ok_0.0,
        status_answer(m, user, boms, now)->Ok_0.0.usage.active_boms_count == boms,
        m.usage.dom().contains(user.account_id) ==> status_answer(m, user, boms, now)->Ok_0.0.usage.orders_count
            == m.usage[user.account_id].orders_count,
{
}

/// A grant to an email enables the account of whoever signs in with it, and becomes the
/// account's own: it is not lost when the email is granted nothing later.
pub proof fn granted_emails_enable_accounts(
    m: BillingMemoryView,
    user: AuthUserView,
    email: Seq<char>,
    key: Seq<char>,
    boms: u32,
    now: Moment,
)
    requires
        user.email == Some(email),
        grant_email(email) == Some(key),
        !m.overrides.dom().contains(user.account_id),
        m.email_grants.dom().contains(key),
        m.email_grants[key].expires_at is None,
        m.email_grants[key].plan == BillingPlan::Scale,
    ensures
        ({
            let answer = status_answer(m, user, boms, now);
            let after = answer->Ok_0.1;
            let without = BillingMemoryView { email_grants: after.email_grants.remove(key), ..after };
            &&& answer is Ok
            &&& answer->Ok_0.0.provisioned
            &&& answer->Ok_0.0.plan == BillingPlan::Scale
            &&& after.overrides.dom().contains(user.account_id)
            &&& after.overrides[user.account_id].plan == BillingPlan::Scale
            &&& after.overrides[user.account_id].note == Some(email)
            &&& after.records == m.records && after.email_grants == m.email_grants && after.usage == m.usage
            &&& status_answer(without, user, boms, now)->Ok_0.0.provisioned
        }),
{
}

/// An account that nothing is known of is told that it is not enabled yet; who runs the
/// service is let through; and an address that is none is an upstream fault.
pub proof fn unknown_accounts_are_not_enabled(m: BillingMemoryView, user: AuthUserView, now: Moment)
    requires
        !m.overrides.dom().contains(user.account_id),
        !m.records.dom().contains(user.account_id),
    ensures
        user.email is None ==> ({
            let (refused, after) = provisioning(m, user, now);
            &&& refused is Some
            &&& refused->0.status == 403
            &&& get_view(refused->0.body, "error"@) == Some(JsonView::Text("not_provisioned"@))
            &&& after == m
        }),
        is_operator(user.email) ==> provisioning(m, user, now).0 is None,
        user.email is Some && !is_operator(user.email) && grant_email(user.email->0) is None ==> ({
            let (refused, after) = provisioning(m, user, now);
            refused is Some && refused->0.status == 502 && after == m
        }),
{
    if user.email is None {
        let fields = provisioning(m, user, now).0->0.body->Object_0;
        reveal_strlit("error");
        reveal_strlit("message");
        assert("error"@.len() == 5);
        assert("message"@.len() == 7);
        assert(fields[0] == ("error"@, JsonView::Text("not_provisioned"@)));
        crate::json::first_field_is_found(fields, "error"@, 0);
    }
}

/// Counting adds and gives back within the range of a counter, one after another.
pub proof fn counters_add(current: u32, a: int, b: int)
    ensures
        0 <= current + a <= u32::MAX ==> changed_counter(current, a) == current + a,
        current + a < 0 ==> changed_counter(current, a) == 0,
        current + a > u32::MAX ==> changed_counter(current, a) == u32::MAX,
        changed_counter(current, 0) == current,
        a >= 0 && b >= 0 ==> changed_counter(changed_counter(current, a), b) == changed_counter(current, a + b),
        a <= b ==> changed_counter(current, a) <= changed_counter(current, b),
{
}

/// Each counter changes by its own amount.
pub proof fn each_counter_changes_by_itself(usage: PlanUsage, analyses: u32, lines: u32, purchasing: u32, orders: u32)
    requires
        usage.analyses_count + analyses <= i32::MAX,
        usage.lines_count + lines <= i32::MAX,
        usage.purchasing_actions_count + purchasing <= i32::MAX,
        usage.orders_count + orders <= i32::MAX,
    ensures
        ({
            let after = changed_usage(
                usage,
                wrapped(analyses),
                wrapped(lines),
                wrapped(purchasing),
                wrapped(orders),
            );
            let undone = changed_usage(
                after,
                -(analyses as int),
                -(lines as int),
                -(purchasing as int),
                -(orders as int),
            );
            &&& after.analyses_count == usage.analyses_count + analyses
            &&& after.lines_count == usage.lines_count + lines
            &&& after.purchasing_actions_count == usage.purchasing_actions_count + purchasing
            &&& after.orders_count == usage.orders_count + orders
            &&& after.active_boms_count == usage.active_boms_count
            &&& undone == usage
        }),
{
}

/// A reservation goes through exactly while each cap that it counts towards is not
/// reached, and counts one; a refused one names the cap that is reached.
pub proof fn reservations_count_one(
    usage: PlanUsage,
    purchasing_limit: u32,
    order_limit: Option<u32>,
    r: Result<PlanUsage, ReserveError>,
)
    requires
        call_ensures(reserve_usage, (usage, purchasing_limit, order_limit), r),
    ensures
        r is Ok <==> usage.purchasing_actions_count < purchasing_limit && (order_limit is None
            || usage.orders_count < order_limit->0),
        r is Ok ==> r->Ok_0.purchasing_actions_count == usage.purchasing_actions_count + 1,
        r is Ok && order_limit is Some ==> r->Ok_0.orders_count == usage.orders_count + 1,
        r is Ok && order_limit is None ==> r->Ok_0.orders_count == usage.orders_count,
        r is Ok ==> r->Ok_0.analyses_count == usage.analyses_count && r->Ok_0.lines_count == usage.lines_count
            && r->Ok_0.active_boms_count == usage.active_boms_count,
        usage.purchasing_actions_count >= purchasing_limit ==> r is Err && r->Err_0 is Cap && r->Err_0->cap@
            == "purchasing_actions_per_month"@ && r->Err_0->used == usage.purchasing_actions_count && r->Err_0->limit
            == purchasing_limit,
        usage.purchasing_actions_count < purchasing_limit && order_limit is Some && usage.orders_count
            >= order_limit->0 ==> r is Err && r->Err_0 is Cap && r->Err_0->cap@ == "orders_per_month"@
            && r->Err_0->used == usage.orders_count && r->Err_0->limit == order_limit->0,
{
}

/// A table that refused a reservation is reported as the memory would report it.
pub proof fn refusals_agree(
    usage: PlanUsage,
    purchasing_limit: u32,
    order_limit: Option<u32>,
    r: Result<PlanUsage, ReserveError>,
    s: ReserveError,
)
    requires
        call_ensures(reserve_usage, (usage, purchasing_limit, order_limit), r),
        call_ensures(reserve_refusal, (usage, purchasing_limit, order_limit), s),
        r is Err,
    ensures
        s is Cap && r->Err_0 is Cap,
        s->cap@ == r->Err_0->cap@,
        s->used == r->Err_0->used,
        s->limit == r->Err_0->limit,
{
}

/// Webhooks are refused until the service has both of its keys.
pub proof fn webhooks_need_keys(
    secret_key: &str,
    webhook_secret: &str,
    header: Option<&str>,
    body: &[u8],
    now: i64,
    r: Result<(), String>,
)
    requires
        call_ensures(admit_webhook, (secret_key, webhook_secret, header, body, now), r),
    ensures
        secret_key@.len() == 0 ==> r is Err && r->Err_0@ == "Stripe billing not configured"@,
        secret_key@.len() > 0 && webhook_secret@.len() == 0 ==> r is Err && r->Err_0@
            == "Stripe webhook secret not configured"@,
        header is None ==> r is Err,
        secret_key@.len() > 0 && webhook_secret@.len() > 0 ==> (r is Ok <==> signature_fault(
            header.deep_view(),
            body@,
            webhook_secret@,
            now,
        ) is None),
{
}

/// A plan given by hand is found under its account until it is taken away; giving the free
/// plan takes it away.
pub proof fn plans_by_hand_are_kept(
    service: &mut BillingService,
    account_id: &str,
    plan: BillingPlan,
    expires_at: Option<String>,
    note: Option<String>,
    other: Seq<char>,
)
    requires
        old(service).wf(),
        call_ensures(BillingService::set_admin_plan, (service, account_id, plan, expires_at, note), ()),
    ensures
        plan != BillingPlan::Free ==> ({
            let entries = final(service).memory@.overrides;
            &&& entries.dom().contains(account_id@)
            &&& entries[account_id@].plan == plan
            &&& entries[account_id@].expires_at == expires_at.deep_view()
            &&& entries[account_id@].note == note.deep_view()
        }),
        plan == BillingPlan::Free ==> !final(service).memory@.overrides.dom().contains(account_id@),
        other != account_id@ ==> (final(service).memory@.overrides.dom().contains(other)
            <==> old(service).memory@.overrides.dom().contains(other)),
        final(service).memory@.records == old(service).memory@.records,
        final(service).memory@.email_grants == old(service).memory@.email_grants,
        final(service).memory@.usage == old(service).memory@.usage,
{
}

/// A record is kept under its account, in place of the one before; other accounts keep
/// theirs.
pub proof fn records_are_kept(service: &mut BillingService, record: &BillingRecord, other: Seq<char>)
    requires
        old(service).wf(),
        call_ensures(BillingService::put_record, (service, record), ()),
    ensures
        final(service).memory@.records.dom().contains(record@.account_id),
        final(service).memory@.records[record@.account_id] == record@,
        other != record@.account_id ==> (final(service).memory@.records.dom().contains(other)
            <==> old(service).memory@.records.dom().contains(other)),
        other != record@.account_id && old(service).memory@.records.dom().contains(other)
            ==> final(service).memory@.records[other] == old(service).memory@.records[other],
        final(service).memory@.overrides == old(service).memory@.overrides,
{
}

/// What an account used adds up, each counter for itself; other accounts are not touched.
pub proof fn use_adds_up(
    service: &mut BillingService,
    account_id: &str,
    analyses: u32,
    lines: u32,
    purchasing: u32,
    orders: u32,
    other: Seq<char>,
)
    requires
        old(service).wf(),
        call_ensures(BillingService::increment_usage, (service, account_id, analyses, lines, purchasing, orders), ()),
        old(service).memory@.usage.dom().contains(account_id@),
        old(service).memory@.usage[account_id@].analyses_count + analyses <= i32::MAX,
        old(service).memory@.usage[account_id@].lines_count + lines <= i32::MAX,
        old(service).memory@.usage[account_id@].purchasing_actions_count + purchasing <= i32::MAX,
        old(service).memory@.usage[account_id@].orders_count + orders <= i32::MAX,
    ensures
        ({
            let before = old(service).memory@.usage[account_id@];
            let after = final(service).memory@.usage[account_id@];
            &&& final(service).memory@.usage.dom().contains(account_id@)
            &&& after.analyses_count == before.analyses_count + analyses
            &&& after.lines_count == before.lines_count + lines
            &&& after.purchasing_actions_count == before.purchasing_actions_count + purchasing
            &&& after.orders_count == before.orders_count + orders
        }),
        other != account_id@ && old(service).memory@.usage.dom().contains(other) ==> final(service).memory@.usage[other] == old(service).memory@.usage[other],
{
}

/// A reservation counts against its account exactly where it goes through.
pub proof fn reservations_are_counted(
    service: &mut BillingService,
    account_id: &str,
    purchasing_limit: u32,
    order_limit: Option<u32>,
    r: Result<(), ReserveError>,
)
    requires
        old(service).wf(),
        call_ensures(
            BillingService::try_reserve_usage_atomic,
            (service, account_id, purchasing_limit, order_limit),
            r,
        ),
        old(service).memory@.usage.dom().contains(account_id@),
    ensures
        ({
            let before = old(service).memory@.usage[account_id@];
            let after = final(service).memory@.usage[account_id@];
            &&& r is Ok <==> before.purchasing_actions_count < purchasing_limit && (order_limit is None
                || before.orders_count < order_limit->0)
            &&& r is Ok ==> after.purchasing_actions_count == before.purchasing_actions_count + 1
            &&& r is Ok && order_limit is Some ==> after.orders_count == before.orders_count + 1
            &&& r is Err || order_limit is None ==> after.orders_count == before.orders_count
            &&& r is Err ==> after == before
        }),
{
}

/// An event is claimed once: the first claim is new, a second is not, until it is given
/// free.
pub proof fn events_are_claimed_once(service: &mut BillingService, id: &str, r: bool, other: Seq<char>)
    requires
        old(service).wf(),
        call_ensures(BillingService::claim_event, (service, id), r),
    ensures
        r <==> !old(service).memory@.seen_events.contains(id@),
        final(service).memory@.seen_events.contains(id@),
        other != id@ ==> (final(service).memory@.seen_events.contains(other)
            <==> old(service).memory@.seen_events.contains(other)),
        final(service).memory@.records == old(service).memory@.records,
{
}

/// An event that is given free can be claimed again.
pub proof fn released_events_are_free(service: &mut BillingService, id: &str, other: Seq<char>)
    requires
        old(service).wf(),
        call_ensures(BillingService::release_event, (service, id), ()),
    ensures
        !final(service).memory@.seen_events.contains(id@),
        other != id@ ==> (final(service).memory@.seen_events.contains(other)
            <==> old(service).memory@.seen_events.contains(other)),
{
}

/// An email that is granted access gets the large plan, and so does its account; taking the
/// grant back takes both away.
pub proof fn granted_emails_get_the_large_plan(
    service: &mut BillingService,
    email: &str,
    expires_at: Option<String>,
    account_id: Option<&str>,
    r: Result<(), String>,
)
    requires
        old(service).wf(),
        call_ensures(BillingService::grant_email, (service, email, expires_at, account_id), r),
    ensures
        r is Ok <==> grant_email(email@) is Some,
        r is Ok ==> ({
            let key = grant_email(email@)->0;
            let grants = final(service).memory@.email_grants;
            let plans = final(service).memory@.overrides;
            &&& grants.dom().contains(key) && grants[key].plan == BillingPlan::Scale && grants[key].expires_at
                == expires_at.deep_view()
            &&& account_id is Some ==> plans.dom().contains(account_id->0@) && plans[account_id->0@].plan
                == BillingPlan::Scale && plans[account_id->0@].expires_at == expires_at.deep_view()
            &&& account_id is None ==> plans == old(service).memory@.overrides
        }),
        r is Err ==> final(service).memory@ == old(service).memory@,
{
}

/// A grant that is taken back is gone, and so is the plan of its account.
pub proof fn revoked_emails_have_nothing(
    service: &mut BillingService,
    email: &str,
    account_id: Option<&str>,
    r: Result<(), String>,
)
    requires
        old(service).wf(),
        call_ensures(BillingService::revoke_email, (service, email, account_id), r),
    ensures
        r is Ok <==> grant_email(email@) is Some,
        r is Ok ==> !final(service).memory@.email_grants.dom().contains(grant_email(email@)->0),
        r is Ok && account_id is Some ==> !final(service).memory@.overrides.dom().contains(account_id->0@),
        r is Ok && account_id is None ==> final(service).memory@.overrides == old(service).memory@.overrides,
        final(service).memory@.records == old(service).memory@.records,
{
}

/// A webhook that is not signed, or holds no event, is refused and changes nothing.
pub proof fn refused_webhooks_change_nothing(
    service: &mut BillingService,
    header: Option<&str>,
    body: &[u8],
    event: Result<StripeEvent, String>,
    now: i64,
    r: Result<(), String>,
)
    requires
        old(service).wf(),
        call_ensures(BillingService::handle_webhook_at, (service, header, body, event, now), r),
    ensures
        header is None ==> r is Err,
        old(service).secret_key@.len() == 0 || old(service).webhook_secret@.len() == 0 ==> r is Err,
        event is Err ==> r is Err,
        r is Err ==> *final(service) == *old(service),
        r is Ok && event->Ok_0@.kind == "checkout.session.completed"@ ==> final(service).memory@.seen_events.contains(
            event->Ok_0@.id,
        ),
        r is Ok ==> final(service).memory@.overrides == old(service).memory@.overrides && final(service).memory@.usage
            == old(service).memory@.usage && final(service).memory@.email_grants
            == old(service).memory@.email_grants,
{
}

/// Asking what a user may do changes nothing but a grant that is taken over, and answers
/// an operator with everything.
pub proof fn asking_changes_no_records(
    service: &mut BillingService,
    user: &AuthUser,
    boms: u32,
    now: Moment,
    r: Result<BillingAccountStatus, String>,
)
    requires
        old(service).wf(),
        call_ensures(BillingService::status_for_at, (service, user, boms, now), r),
    ensures
        final(service).memory@.records == old(service).memory@.records,
        final(service).memory@.usage == old(service).memory@.usage,
        final(service).memory@.seen_events == old(service).memory@.seen_events,
        user@.email is None ==> r is Ok && final(service).memory@ == old(service).memory@,
        r is Ok ==> r->Ok_0@.usage.active_boms_count == boms,
        r is Ok && is_operator(user@.email) ==> r->Ok_0@.plan == BillingPlan::Scale && r->Ok_0@.provisioned,
        r is Ok && !is_operator(user@.email) && user@.email is None && !old(service).memory@.overrides.dom().contains(
            user@.account_id,
        ) && !old(service).memory@.records.dom().contains(user@.account_id) ==> r->Ok_0@.plan == BillingPlan::Free
            && !r->Ok_0@.provisioned,
{
}

/// Those who run the service pass; an unknown account without an address does not.
pub proof fn only_enabled_accounts_pass(service: &mut BillingService, user: &AuthUser, now: Moment, r: Result<(), Reply>)
    requires
        old(service).wf(),
        call_ensures(BillingService::ensure_provisioned_at, (service, user, now), r),
    ensures
        is_operator(user@.email) ==> r is Ok,
        user@.email is None && !old(service).memory@.overrides.dom().contains(user@.account_id)
            && !old(service).memory@.records.dom().contains(user@.account_id) ==> r is Err && r->Err_0@.status == 403,
        user@.email is None && old(service).memory@.overrides.dom().contains(user@.account_id)
            && old(service).memory@.overrides[user@.account_id].expires_at is None ==> r is Ok,
{
}

/// The same for purchases, quotes and boms: an account that nothing is known of is told
/// that it needs a subscription, or that it is not enabled.
pub proof fn purchases_need_an_enabled_account(service: &mut BillingService, user: &AuthUser, r: Result<(), PurchaseStatus>)
    requires
        old(service).wf(),
        call_ensures(BillingService::ensure_can_purchase, (service, user), r),
    ensures
        is_operator(user@.email) ==> r is Ok,
        user@.email is None && !old(service).memory@.overrides.dom().contains(user@.account_id)
            && !old(service).memory@.records.dom().contains(user@.account_id) ==> r == Err::<(), PurchaseStatus>(
            PurchaseStatus::RequiresSubscription,
        ),
{
}

/// A quote or an order is reserved for enabled accounts, and for others it is not.
pub proof fn actions_need_an_enabled_account(
    service: &mut BillingService,
    user: &AuthUser,
    is_order: bool,
    r: Result<(), CapError>,
)
    requires
        old(service).wf(),
        call_ensures(BillingService::reserve_purchasing_action, (service, user, is_order), r),
    ensures
        is_operator(user@.email) ==> r is Ok,
        user@.email is None && !old(service).memory@.overrides.dom().contains(user@.account_id)
            && !old(service).memory@.records.dom().contains(user@.account_id) ==> r is Err && r->Err_0@.cap
            == "not_provisioned"@,
        r is Err ==> r->Err_0@.purchase_status == Some(PurchaseStatus::RequiresSubscription),
        final(service).memory@.usage == old(service).memory@.usage,
{
}

/// A bom is created by enabled accounts, and by others it is not.
pub proof fn boms_need_an_enabled_account(
    service: &mut BillingService,
    user: &AuthUser,
    boms: u32,
    lines: u32,
    r: Result<(), CapError>,
)
    requires
        old(service).wf(),
        call_ensures(BillingService::ensure_bom_create, (service, user, boms, lines), r),
    ensures
        is_operator(user@.email) ==> r is Ok,
        user@.email is None && !old(service).memory@.overrides.dom().contains(user@.account_id)
            && !old(service).memory@.records.dom().contains(user@.account_id) ==> r is Err && r->Err_0@.cap
            == "not_provisioned"@,
{
}

/// And so is a bom changed.
pub proof fn changes_need_an_enabled_account(
    service: &mut BillingService,
    user: &AuthUser,
    lines: u32,
    r: Result<(), CapError>,
)
    requires
        old(service).wf(),
        call_ensures(BillingService::ensure_bom_update, (service, user, lines), r),
    ensures
        is_operator(user@.email) ==> r is Ok,
        user@.email is None && !old(service).memory@.overrides.dom().contains(user@.account_id)
            && !old(service).memory@.records.dom().contains(user@.account_id) ==> r is Err && r->Err_0@.cap
            == "not_provisioned"@,
{
}

/// A registration is kept under its account, with the address in small letters and without
/// the blanks around it.
pub proof fn registrations_are_kept(service: &mut BillingService, account_id: &str, email: &str, other: Seq<char>)
    requires
        old(service).wf(),
        call_ensures(BillingService::mark_interest_sent, (service, account_id, email), ()),
    ensures
        final(service).memory@.interest_sent.dom().contains(account_id@),
        final(service).memory@.interest_sent[account_id@] == lowercase(trimmed(email@)),
        other != account_id@ ==> (final(service).memory@.interest_sent.dom().contains(other)
            <==> old(service).memory@.interest_sent.dom().contains(other)),
        final(service).memory@.email_grants == old(service).memory@.email_grants,
{
}

/// A plan that is taken away is gone, and no other account's is.
pub proof fn cleared_plans_are_gone(service: &mut BillingService, account_id: &str, other: Seq<char>)
    requires
        old(service).wf(),
        call_ensures(BillingService::clear_admin_plan, (service, account_id), ()),
    ensures
        !final(service).memory@.overrides.dom().contains(account_id@),
        other != account_id@ && old(service).memory@.overrides.dom().contains(other) ==> final(
            service
        ).memory@.overrides.dom().contains(other),
        final(service).memory@.records == old(service).memory@.records,
{
}

/// A record is found by its account; and what is found by its customer has that customer.
pub proof fn records_are_found(
    service: &BillingService,
    id: &str,
    customer: &str,
    a: Option<BillingRecord>,
    b: Option<BillingRecord>,
)
    requires
        service.wf(),
        call_ensures(BillingService::get_record, (service, id), a),
        call_ensures(BillingService::find_by_customer, (service, customer), b),
    ensures
        a is Some <==> service.memory@.records.dom().contains(id@),
        a is Some ==> a->0@ == service.memory@.records[id@] && a->0@.account_id == id@,
        b is Some ==> b->0@.stripe_customer_id == Some(customer@),
        b is Some ==> service.memory@.records.dom().contains(b->0@.account_id),
{
}

/// An account that used nothing is shown to have used nothing, another what it used.
pub proof fn use_is_shown(service: &BillingService, id: &str, r: PlanUsage, configured: bool)
    requires
        service.wf(),
        call_ensures(BillingService::get_usage, (service, id), r),
        call_ensures(BillingService::stripe_configured, (service,), configured),
    ensures
        service.memory@.usage.dom().contains(id@) ==> r == service.memory@.usage[id@],
        !service.memory@.usage.dom().contains(id@) ==> r.orders_count == 0 && r.purchasing_actions_count == 0
            && r.analyses_count == 0 && r.lines_count == 0 && r.active_boms_count == 0,
        configured <==> service.secret_key@.len() > 0,
{
}

/// A reservation in a table goes through while the counts are below the limits, or not
/// there yet, and counts one of each.
pub proof fn table_reservations_count_one(a: ReserveRequest, b: ReserveRequest)
    requires
        call_ensures(reserve_request, (false,), a),
        call_ensures(reserve_request, (true,), b),
    ensures
        a.condition@
            == "(attribute_not_exists(purchasing_actions_count) OR purchasing_actions_count < :plimit)"@,
        b.condition@ == a.condition@ + " AND (attribute_not_exists(orders_count) OR orders_count < :olimit)"@,
        a.update@ == "ADD purchasing_actions_count :one SET account_id = if_not_exists(account_id, :aid)"@,
        b.update@
            == "ADD purchasing_actions_count :one, orders_count :one SET account_id = if_not_exists(account_id, :aid)"@,
{
}

} // verus!
