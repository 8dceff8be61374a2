//! Plans, usage and account status.

use vstd::prelude::*;
use vstd::string::*;

verus! {

/// A subscription plan.
#[derive(Debug, Clone, Copy, PartialEq, Eq, Structural)]
pub enum BillingPlan {
    Free,
    Growth,
    Scale,
}

/// The state of a subscription.
#[derive(Debug, Clone, Copy, PartialEq, Eq, Structural)]
pub enum BillingStatus {
    /// No subscription; written `none`.
    Inactive,
    Trialing,
    Active,
    PastDue,
    Canceled,
}

/// Where the plan of an account comes from.
#[derive(Debug, Clone, Copy, PartialEq, Eq, Structural)]
pub enum PlanSource {
    Free,
    Stripe,
    Admin,
}

/// How often stored boms are refreshed.
#[derive(Debug, Clone, Copy, PartialEq, Eq, Structural)]
pub enum RefreshCadence {
    Weekly,
    Daily,
}

/// The outcome of a quote or an order.
#[derive(Debug, Clone, Copy, PartialEq, Eq, Structural)]
pub enum PurchaseStatus {
    Quoted,
    Partial,
    Submitted,
    Unavailable,
    NotConfigured,
    RequiresDistributorCredit,
    RequiresSubscription,
    CapExceeded,
    Error,
}

/// The caps of a plan.
#[derive(Debug)]
pub struct PlanLimits {
    pub seats: u32,
    pub active_boms: u32,
    pub max_lines_per_bom: u32,
    pub lines_per_month: u32,
    pub analyses_per_month: u32,
    pub purchasing_actions_per_month: u32,
    pub orders_per_month: u32,
    pub concurrent_analyses: u32,
    pub unique_mpn_lookups_per_day: u32,
    pub refresh: RefreshCadence,
    pub bedrock: String,
}

/// The content of a plan's caps.
#[verifier::ext_equal]
pub struct PlanLimitsView {
    pub seats: u32,
    pub active_boms: u32,
    pub max_lines_per_bom: u32,
    pub lines_per_month: u32,
    pub analyses_per_month: u32,
    pub purchasing_actions_per_month: u32,
    pub orders_per_month: u32,
    pub concurrent_analyses: u32,
    pub unique_mpn_lookups_per_day: u32,
    pub refresh: RefreshCadence,
    pub bedrock: Seq<char>,
}

impl View for PlanLimits {
    type V = PlanLimitsView;

    open spec fn view(&self) -> PlanLimitsView {
        PlanLimitsView {
            seats: self.seats,
            active_boms: self.active_boms,
            max_lines_per_bom: self.max_lines_per_bom,
            lines_per_month: self.lines_per_month,
            analyses_per_month: self.analyses_per_month,
            purchasing_actions_per_month: self.purchasing_actions_per_month,
            orders_per_month: self.orders_per_month,
            concurrent_analyses: self.concurrent_analyses,
            unique_mpn_lookups_per_day: self.unique_mpn_lookups_per_day,
            refresh: self.refresh,
            bedrock: self.bedrock@,
        }
    }
}

/// What an account used in the current month.
#[derive(Debug, Clone, Copy, PartialEq, Eq, Structural)]
pub struct PlanUsage {
    pub analyses_count: u32,
    pub lines_count: u32,
    pub purchasing_actions_count: u32,
    pub orders_count: u32,
    pub active_boms_count: u32,
}

impl View for PlanUsage {
    type V = PlanUsage;

    open spec fn view(&self) -> PlanUsage {
        *self
    }
}

/// What an account may do, and why.
#[derive(Debug)]
pub struct BillingAccountStatus {
    pub plan: BillingPlan,
    pub status: BillingStatus,
    pub plan_source: PlanSource,
    pub can_purchase: bool,
    pub limits: PlanLimits,
    pub usage: PlanUsage,
    pub stripe_customer_id: Option<String>,
    pub current_period_end: Option<String>,
    pub admin_expires_at: Option<String>,
    pub provisioned: bool,
    pub is_operator: bool,
}

/// The content of an account's status.
#[verifier::ext_equal]
pub struct BillingAccountStatusView {
    pub plan: BillingPlan,
    pub status: BillingStatus,
    pub plan_source: PlanSource,
    pub can_purchase: bool,
    pub limits: PlanLimitsView,
    pub usage: PlanUsage,
    pub stripe_customer_id: Option<Seq<char>>,
    pub current_period_end: Option<Seq<char>>,
    pub admin_expires_at: Option<Seq<char>>,
    pub provisioned: bool,
    pub is_operator: bool,
}

impl View for BillingAccountStatus {
    type V = BillingAccountStatusView;

    open spec fn view(&self) -> BillingAccountStatusView {
        BillingAccountStatusView {
            plan: self.plan,
            status: self.status,
            plan_source: self.plan_source,
            can_purchase: self.can_purchase,
            limits: self.limits@,
            usage: self.usage,
            stripe_customer_id: self.stripe_customer_id.deep_view(),
            current_period_end: self.current_period_end.deep_view(),
            admin_expires_at: self.admin_expires_at.deep_view(),
            provisioned: self.provisioned,
            is_operator: self.is_operator,
        }
    }
}

} // verus!
