//! What each plan allows.

use vstd::prelude::*;
use vstd::string::*;

use crate::model::purchasing::{BillingPlan, PlanLimits, PlanLimitsView, PlanUsage, RefreshCadence};
use crate::text::owned;

verus! {

/// The caps of each plan.
pub open spec fn plan_limits(plan: BillingPlan) -> PlanLimitsView {
    match plan {
        BillingPlan::Free => PlanLimitsView {
            seats: 1,
            active_boms: 1,
            max_lines_per_bom: 100,
            lines_per_month: 300,
            analyses_per_month: 3,
            purchasing_actions_per_month: 5,
            orders_per_month: 2,
            concurrent_analyses: 1,
            unique_mpn_lookups_per_day: 200,
            refresh: RefreshCadence::Weekly,
            bedrock: "haiku_capped"@,
        },
        BillingPlan::Growth => PlanLimitsView {
            seats: 2,
            active_boms: 10,
            max_lines_per_bom: 500,
            lines_per_month: 2_500,
            analyses_per_month: 20,
            purchasing_actions_per_month: 40,
            orders_per_month: 10,
            concurrent_analyses: 1,
            unique_mpn_lookups_per_day: 1_000,
            refresh: RefreshCadence::Daily,
            bedrock: "on"@,
        },
        BillingPlan::Scale => PlanLimitsView {
            seats: 5,
            active_boms: 50,
            max_lines_per_bom: 2_000,
            lines_per_month: 15_000,
            analyses_per_month: 100,
            purchasing_actions_per_month: 200,
            orders_per_month: 50,
            concurrent_analyses: 3,
            unique_mpn_lookups_per_day: 5_000,
            refresh: RefreshCadence::Daily,
            bedrock: "on"@,
        },
    }
}

/// The caps of a plan.
pub fn limits_for(plan: BillingPlan) -> (r: PlanLimits)
    ensures
        r@ == plan_limits(plan),
{
    match plan {
        BillingPlan::Free => PlanLimits {
            seats: 1,
            active_boms: 1,
            max_lines_per_bom: 100,
            lines_per_month: 300,
            analyses_per_month: 3,
            purchasing_actions_per_month: 5,
            orders_per_month: 2,
            concurrent_analyses: 1,
            unique_mpn_lookups_per_day: 200,
            refresh: RefreshCadence::Weekly,
            bedrock: owned("haiku_capped"),
        },
        BillingPlan::Growth => PlanLimits {
            seats: 2,
            active_boms: 10,
            max_lines_per_bom: 500,
            lines_per_month: 2_500,
            analyses_per_month: 20,
            purchasing_actions_per_month: 40,
            orders_per_month: 10,
            concurrent_analyses: 1,
            unique_mpn_lookups_per_day: 1_000,
            refresh: RefreshCadence::Daily,
            bedrock: owned("on"),
        },
        BillingPlan::Scale => PlanLimits {
            seats: 5,
            active_boms: 50,
            max_lines_per_bom: 2_000,
            lines_per_month: 15_000,
            analyses_per_month: 100,
            purchasing_actions_per_month: 200,
            orders_per_month: 50,
            concurrent_analyses: 3,
            unique_mpn_lookups_per_day: 5_000,
            refresh: RefreshCadence::Daily,
            bedrock: owned("on"),
        },
    }
}

/// A larger plan allows at least as much of everything.
pub proof fn larger_plans_allow_more()
    ensures
        forall|p: BillingPlan, q: BillingPlan|
            #![trigger plan_limits(p), plan_limits(q)]
            plan_rank(p) <= plan_rank(q) ==> {
                let a = plan_limits(p);
                let b = plan_limits(q);
                &&& a.seats <= b.seats
                &&& a.active_boms <= b.active_boms
                &&& a.max_lines_per_bom <= b.max_lines_per_bom
                &&& a.lines_per_month <= b.lines_per_month
                &&& a.analyses_per_month <= b.analyses_per_month
                &&& a.purchasing_actions_per_month <= b.purchasing_actions_per_month
                &&& a.orders_per_month <= b.orders_per_month
                &&& a.concurrent_analyses <= b.concurrent_analyses
                &&& a.unique_mpn_lookups_per_day <= b.unique_mpn_lookups_per_day
            },
{
}

/// Plans from the smallest to the largest.
pub open spec fn plan_rank(plan: BillingPlan) -> int {
    match plan {
        BillingPlan::Free => 0,
        BillingPlan::Growth => 1,
        BillingPlan::Scale => 2,
    }
}

/// No usage.
pub open spec fn no_usage() -> PlanUsage {
    PlanUsage {
        analyses_count: 0,
        lines_count: 0,
        purchasing_actions_count: 0,
        orders_count: 0,
        active_boms_count: 0,
    }
}

/// No usage.
pub fn empty_usage() -> (r: PlanUsage)
    ensures
        r == no_usage(),
{
    PlanUsage {
        analyses_count: 0,
        lines_count: 0,
        purchasing_actions_count: 0,
        orders_count: 0,
        active_boms_count: 0,
    }
}

/// The usage together with the number of boms that the account holds.
pub fn usage_with_boms(active_boms_count: u32, usage: PlanUsage) -> (r: PlanUsage)
    ensures
        r == (PlanUsage { active_boms_count, ..usage }),
{
    PlanUsage {
        analyses_count: usage.analyses_count,
        lines_count: usage.lines_count,
        purchasing_actions_count: usage.purchasing_actions_count,
        orders_count: usage.orders_count,
        active_boms_count,
    }
}

/// An unpaid account has one seat and one small bom and three analyses a month, refreshed
/// weekly.
pub proof fn unpaid_accounts_are_small(r: PlanLimits)
    requires
        call_ensures(limits_for, (BillingPlan::Free,), r),
    ensures
        r.seats == 1 && r.active_boms == 1 && r.concurrent_analyses == 1,
        r.max_lines_per_bom == 100 && r.lines_per_month == 300 && r.analyses_per_month == 3,
        r.purchasing_actions_per_month == 5 && r.orders_per_month == 2,
        r.unique_mpn_lookups_per_day == 200,
        r.refresh == RefreshCadence::Weekly,
        r.bedrock@ == "haiku_capped"@,
{
}

/// What the smaller paid plan allows.
pub proof fn growing_accounts_are_refreshed_daily(r: PlanLimits)
    requires
        call_ensures(limits_for, (BillingPlan::Growth,), r),
    ensures
        r.seats == 2 && r.active_boms == 10 && r.concurrent_analyses == 1,
        r.max_lines_per_bom == 500 && r.lines_per_month == 2_500 && r.analyses_per_month == 20,
        r.purchasing_actions_per_month == 40 && r.orders_per_month == 10,
        r.unique_mpn_lookups_per_day == 1_000,
        r.refresh == RefreshCadence::Daily,
        r.bedrock@ == "on"@,
{
}

/// What the larger paid plan allows.
pub proof fn scaled_accounts_run_side_by_side(r: PlanLimits)
    requires
        call_ensures(limits_for, (BillingPlan::Scale,), r),
    ensures
        r.seats == 5 && r.active_boms == 50 && r.concurrent_analyses == 3,
        r.max_lines_per_bom == 2_000 && r.lines_per_month == 15_000 && r.analyses_per_month == 100,
        r.purchasing_actions_per_month == 200 && r.orders_per_month == 50,
        r.unique_mpn_lookups_per_day == 5_000,
        r.refresh == RefreshCadence::Daily,
        r.bedrock@ == "on"@,
{
}

/// Every plan lets an account analyze at least one bom of the largest size that it
/// allows, and submit no more orders than it takes purchasing actions.
pub proof fn plans_are_usable(plan: BillingPlan, r: PlanLimits)
    requires
        call_ensures(limits_for, (plan,), r),
    ensures
        r.seats >= 1 && r.active_boms >= 1 && r.analyses_per_month >= 1 && r.concurrent_analyses >= 1,
        r.max_lines_per_bom <= r.lines_per_month,
        r.orders_per_month <= r.purchasing_actions_per_month,
        r.concurrent_analyses <= r.analyses_per_month,
{
}

/// Counting boms leaves the rest of the usage as it is.
pub proof fn counting_boms_keeps_usage(active_boms_count: u32, usage: PlanUsage, r: PlanUsage)
    requires
        call_ensures(usage_with_boms, (active_boms_count, usage), r),
    ensures
        r.active_boms_count == active_boms_count,
        r.analyses_count == usage.analyses_count,
        r.lines_count == usage.lines_count,
        r.purchasing_actions_count == usage.purchasing_actions_count,
        r.orders_count == usage.orders_count,
{
}

/// An account that used nothing has used nothing of anything.
pub proof fn nothing_used_is_zero(r: PlanUsage)
    requires
        call_ensures(empty_usage, (), r),
    ensures
        r.analyses_count == 0 && r.lines_count == 0 && r.purchasing_actions_count == 0 && r.orders_count == 0
            && r.active_boms_count == 0,
{
}

} // verus!
