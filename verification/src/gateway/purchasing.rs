//! Quotes and orders: who may make them, what they cost of a reservation, and
//! what is answered.

use vstd::prelude::*;
use vstd::string::*;

use super::auth::{require_write, AuthUser, TeamRole};
use super::billing::status::CapError;
use super::error::{gateway_error_text, GatewayError, GatewayErrorView};
use crate::http::{error_reply, refusal, refusal_with_message, Reply, ReplyView};
use crate::json::{field, Json, JsonView};
use crate::model::purchasing::PurchaseStatus;
use crate::text::owned;

verus! {

/// Outcomes that use up a reservation: a quote or an order that got somewhere.
pub open spec fn is_billable(status: PurchaseStatus) -> bool {
    status == PurchaseStatus::Quoted || status == PurchaseStatus::Partial || status
        == PurchaseStatus::Submitted
}

/// Whether the outcome uses up a reservation.
pub fn counts_toward_purchasing_usage(status: PurchaseStatus) -> (r: bool)
    ensures
        r == is_billable(status),
{
    matches!(status, PurchaseStatus::Quoted | PurchaseStatus::Partial | PurchaseStatus::Submitted)
}

/// What stands in the way of a quote or an order: a plain refusal, or an outcome
/// with a message and no lines.
#[derive(Debug)]
pub enum Declined {
    Refused(Reply),
    Answered { status: PurchaseStatus, message: String },
}

/// The content of what stands in the way.
#[verifier::ext_equal]
pub enum DeclinedView {
    Refused(ReplyView),
    Answered { status: PurchaseStatus, message: Seq<char> },
}

impl View for Declined {
    type V = DeclinedView;

    open spec fn view(&self) -> DeclinedView {
        match self {
            Declined::Refused(reply) => DeclinedView::Refused(reply@),
            Declined::Answered { status, message } => DeclinedView::Answered {
                status: *status,
                message: message@,
            },
        }
    }
}

/// Whether a request is let through to the books: its user may write and its
/// body can be read.
pub fn admit_purchase(user: &AuthUser, payload_error: Option<String>) -> (r: Result<(), Reply>)
    ensures
        match purchase_refusal(user.role, payload_error.deep_view()) {
            None => r is Ok,
            Some(reply) => r is Err && r->Err_0@ == reply,
        },
{
    match require_write(user) {
        Ok(()) => {},
        Err(reply) => {
            return Err(reply);
        },
    }
    match payload_error {
        Some(text) => Err(error_reply(400, text.as_str())),
        None => Ok(()),
    }
}

/// Why a request is not let through to the books.
pub open spec fn purchase_refusal(role: TeamRole, payload_error: Option<Seq<char>>) -> Option<
    ReplyView,
> {
    if role == TeamRole::ReadOnly {
        Some(
            refusal_with_message(
                403,
                "forbidden"@,
                "read_only role cannot perform this action"@,
            ),
        )
    } else {
        match payload_error {
            Some(text) => Some(refusal(400, text)),
            None => None,
        }
    }
}

/// What the books say of a request: nothing is booked, an action was reserved,
/// or a cap stands in the way.
#[derive(Debug)]
pub enum Booking {
    NoBooks,
    Reserved,
    Capped(CapError),
}

/// What is answered where a request gets no further than the books.
pub open spec fn booking_fault(booking: Booking, billing_required: bool) -> Option<DeclinedView> {
    match booking {
        Booking::Reserved => None,
        Booking::Capped(cap) => Some(
            DeclinedView::Answered {
                status: match cap.purchase_status {
                    Some(status) => status,
                    None => PurchaseStatus::CapExceeded,
                },
                message: "plan cap exceeded: "@ + cap.cap@,
            },
        ),
        Booking::NoBooks => if billing_required {
            Some(
                DeclinedView::Answered {
                    status: PurchaseStatus::RequiresSubscription,
                    message: "billing not configured"@,
                },
            )
        } else {
            None
        },
    }
}

/// Lets a request through the books; whether an action is reserved.
pub fn pass_books(booking: Booking, billing_required: bool) -> (r: Result<bool, Declined>)
    ensures
        match booking_fault(booking, billing_required) {
            None => r == Ok::<bool, Declined>(booking is Reserved),
            Some(fault) => r is Err && r->Err_0@ == fault,
        },
{
    match booking {
        Booking::Reserved => Ok(true),
        Booking::Capped(cap) => {
            let mut message = owned("plan cap exceeded: ");
            message.append(cap.cap.as_str());
            let status = match cap.purchase_status {
                Some(status) => status,
                None => PurchaseStatus::CapExceeded,
            };
            Err(Declined::Answered { status, message })
        },
        Booking::NoBooks => if billing_required {
            Err(
                Declined::Answered {
                    status: PurchaseStatus::RequiresSubscription,
                    message: owned("billing not configured"),
                },
            )
        } else {
            Ok(false)
        },
    }
}

/// What is done once the distributor answered, or did not.
#[derive(Debug)]
pub struct Settlement {
    /// Give the reservation back.
    pub release: bool,
    /// What is answered; nothing where the distributor's answer is passed on.
    pub reply: Option<Reply>,
}

/// What is answered after a quote, where the distributor's answer is not passed on.
pub open spec fn quote_reply(outcome: Result<PurchaseStatus, GatewayErrorView>) -> Option<ReplyView> {
    match outcome {
        Ok(_) => None,
        Err(GatewayErrorView::PurchasingTimeout) => Some(refusal(504, "purchasing timed out"@)),
        Err(error) => Some(refusal(502, gateway_error_text(error))),
    }
}

/// A quote gives its reservation back unless its outcome is billable.
pub open spec fn quote_releases(reserved: bool, outcome: Result<PurchaseStatus, GatewayErrorView>) -> bool {
    reserved && match outcome {
        Ok(status) => !is_billable(status),
        Err(_) => true,
    }
}

/// The content of an outcome.
pub open spec fn outcome_view(outcome: Result<PurchaseStatus, GatewayError>) -> Result<
    PurchaseStatus,
    GatewayErrorView,
> {
    match outcome {
        Ok(status) => Ok(status),
        Err(error) => Err(error@),
    }
}

/// The content of an optional reply.
pub open spec fn opt_reply(reply: Option<Reply>) -> Option<ReplyView> {
    match reply {
        Some(r) => Some(r@),
        None => None,
    }
}

/// What is done once a quote was answered, or was not.
pub fn settle_quote(reserved: bool, outcome: Result<PurchaseStatus, GatewayError>) -> (r: Settlement)
    ensures
        r.release == quote_releases(reserved, outcome_view(outcome)),
        opt_reply(r.reply) == quote_reply(outcome_view(outcome)),
{
    match outcome {
        Ok(status) => Settlement {
            release: reserved && !counts_toward_purchasing_usage(status),
            reply: None,
        },
        Err(GatewayError::PurchasingTimeout) => Settlement {
            release: reserved,
            reply: Some(error_reply(504, "purchasing timed out")),
        },
        Err(error) => Settlement {
            release: reserved,
            reply: Some(error_reply(502, error.message().as_str())),
        },
    }
}

/// What is answered when an order timed out: it may have been placed, so it is
/// not safe to try again.
pub open spec fn order_timeout_reply(reserved: bool) -> ReplyView {
    ReplyView {
        status: 504,
        body: JsonView::Object(
            seq![
                ("error"@, JsonView::Text("purchasing timed out"@)),
                ("quota_consumed"@, JsonView::Bool(reserved)),
                ("retry_safe"@, JsonView::Bool(false)),
                (
                    "message"@,
                    JsonView::Text(
                        if reserved {
                            "Order timed out after quota was reserved. Do not retry until you confirm with the distributor whether the order was placed; retrying may create a duplicate."@
                        } else {
                            "Order timed out. Do not retry until you confirm with the distributor whether the order was placed; retrying may create a duplicate."@
                        },
                    ),
                ),
            ],
        ),
    }
}

/// What is answered after an order, where the distributor's answer is not passed on.
pub open spec fn order_reply(reserved: bool, outcome: Result<PurchaseStatus, GatewayErrorView>) -> Option<
    ReplyView,
> {
    match outcome {
        Ok(_) => None,
        Err(GatewayErrorView::PurchasingTimeout) => Some(order_timeout_reply(reserved)),
        Err(error) => Some(refusal(502, gateway_error_text(error))),
    }
}

/// An order gives its reservation back unless its outcome is billable, or is not
/// known because it timed out.
pub open spec fn order_releases(reserved: bool, outcome: Result<PurchaseStatus, GatewayErrorView>) -> bool {
    reserved && match outcome {
        Ok(status) => !is_billable(status),
        Err(GatewayErrorView::PurchasingTimeout) => false,
        Err(_) => true,
    }
}

/// What is done once an order was answered, or was not.
pub fn settle_order(reserved: bool, outcome: Result<PurchaseStatus, GatewayError>) -> (r: Settlement)
    ensures
        r.release == order_releases(reserved, outcome_view(outcome)),
        opt_reply(r.reply) == order_reply(reserved, outcome_view(outcome)),
{
    match outcome {
        Ok(status) => Settlement {
            release: reserved && !counts_toward_purchasing_usage(status),
            reply: None,
        },
        Err(GatewayError::PurchasingTimeout) => {
            let message = if reserved {
                "Order timed out after quota was reserved. Do not retry until you confirm with the distributor whether the order was placed; retrying may create a duplicate."
            } else {
                "Order timed out. Do not retry until you confirm with the distributor whether the order was placed; retrying may create a duplicate."
            };
            let reply = Reply {
                status: 504,
                body: Json::Object(
                    vec![
                        field("error", Json::text("purchasing timed out")),
                        field("quota_consumed", Json::boolean(reserved)),
                        field("retry_safe", Json::boolean(false)),
                        field("message", Json::text(message)),
                    ],
                ),
            };
            assert(reply.body@->Object_0 =~= order_timeout_reply(reserved).body->Object_0);
            Settlement { release: false, reply: Some(reply) }
        },
        Err(error) => Settlement {
            release: reserved,
            reply: Some(error_reply(502, error.message().as_str())),
        },
    }
}

/// A reservation is given back only if one was made, never after a billable
/// outcome, and for an order never after a timeout.
pub proof fn release_only_what_was_reserved(
    reserved: bool,
    outcome: Result<PurchaseStatus, GatewayErrorView>,
)
    ensures
        quote_releases(reserved, outcome) ==> reserved,
        order_releases(reserved, outcome) ==> reserved && quote_releases(reserved, outcome),
        outcome is Ok && is_billable(outcome->Ok_0) ==> !quote_releases(reserved, outcome)
            && !order_releases(reserved, outcome),
        outcome == Err::<PurchaseStatus, GatewayErrorView>(GatewayErrorView::PurchasingTimeout)
            ==> !order_releases(reserved, outcome),
{
}

/// A quote, a part of one, and an order that was submitted use up a reservation; nothing
/// else does.
pub proof fn only_results_are_billed(status: PurchaseStatus, r: bool)
    requires
        call_ensures(counts_toward_purchasing_usage, (status,), r),
    ensures
        status == PurchaseStatus::Quoted ==> r,
        status == PurchaseStatus::Partial ==> r,
        status == PurchaseStatus::Submitted ==> r,
        status == PurchaseStatus::Unavailable || status == PurchaseStatus::NotConfigured || status
            == PurchaseStatus::RequiresDistributorCredit || status == PurchaseStatus::RequiresSubscription || status
            == PurchaseStatus::CapExceeded || status == PurchaseStatus::Error ==> !r,
{
}

/// Those who may only read purchase nothing; a body that cannot be read is refused; anybody
/// else goes on.
pub proof fn readers_purchase_nothing(user: &AuthUser, payload_error: Option<String>, r: Result<(), Reply>)
    requires
        call_ensures(admit_purchase, (user, payload_error), r),
    ensures
        r is Ok <==> user.role != TeamRole::ReadOnly && payload_error is None,
        user.role == TeamRole::ReadOnly ==> r is Err && r->Err_0@.status == 403,
        user.role != TeamRole::ReadOnly && payload_error is Some ==> r is Err && r->Err_0@.status == 400,
{
}

/// A request passes with a reservation, or without books where none are required. A cap is
/// answered by its name.
pub proof fn books_are_passed(booking: Booking, billing_required: bool, r: Result<bool, Declined>)
    requires
        call_ensures(pass_books, (booking, billing_required), r),
    ensures
        booking is Reserved ==> r == Ok::<bool, Declined>(true),
        booking is NoBooks && !billing_required ==> r == Ok::<bool, Declined>(false),
        booking is NoBooks && billing_required ==> r is Err && r->Err_0 is Answered && r->Err_0->status
            == PurchaseStatus::RequiresSubscription,
        booking is Capped ==> r is Err && r->Err_0 is Answered && r->Err_0->message@ == "plan cap exceeded: "@
            + booking->Capped_0.cap@,
        booking is Capped && booking->Capped_0.purchase_status is None ==> r->Err_0->status
            == PurchaseStatus::CapExceeded,
        booking is Capped && booking->Capped_0.purchase_status is Some ==> r->Err_0->status
            == booking->Capped_0.purchase_status->0,
{
}

/// A quote that brought nothing gives its reservation back, one that brought something
/// does not; the distributor's answer is passed on, and a failure is a gateway's.
pub proof fn quotes_are_settled(reserved: bool, outcome: Result<PurchaseStatus, GatewayError>, r: Settlement)
    requires
        call_ensures(settle_quote, (reserved, outcome), r),
    ensures
        !reserved ==> !r.release,
        outcome is Err && reserved ==> r.release,
        outcome is Ok && (outcome->Ok_0 == PurchaseStatus::Quoted || outcome->Ok_0 == PurchaseStatus::Partial
            || outcome->Ok_0 == PurchaseStatus::Submitted) ==> !r.release,
        reserved && outcome is Ok && (outcome->Ok_0 == PurchaseStatus::Unavailable || outcome->Ok_0
            == PurchaseStatus::Error || outcome->Ok_0 == PurchaseStatus::NotConfigured) ==> r.release,
        outcome is Ok <==> r.reply is None,
        outcome is Err && outcome->Err_0@ == GatewayErrorView::PurchasingTimeout ==> r.reply is Some
            && r.reply->0@.status == 504,
        outcome is Err && outcome->Err_0@ != GatewayErrorView::PurchasingTimeout ==> r.reply is Some
            && r.reply->0@.status == 502,
{
}

/// An order is settled as a quote is, but for one that timed out: it may have been placed,
/// so its reservation is kept and nobody is told to try again.
pub proof fn orders_are_settled(
    reserved: bool,
    outcome: Result<PurchaseStatus, GatewayError>,
    r: Settlement,
    quote: Settlement,
)
    requires
        call_ensures(settle_order, (reserved, outcome), r),
        call_ensures(settle_quote, (reserved, outcome), quote),
    ensures
        outcome is Ok ==> r.release == quote.release && r.reply is None,
        outcome is Err && outcome->Err_0@ != GatewayErrorView::PurchasingTimeout ==> r.release == reserved
            && r.reply is Some && r.reply->0@.status == 502,
        outcome is Err && outcome->Err_0@ == GatewayErrorView::PurchasingTimeout ==> {
            &&& !r.release
            &&& r.reply is Some
            &&& r.reply->0@.status == 504
            &&& r.reply->0@.body is Object
            &&& r.reply->0@.body->Object_0.contains(("retry_safe"@, JsonView::Bool(false)))
            &&& r.reply->0@.body->Object_0.contains(("quota_consumed"@, JsonView::Bool(reserved)))
        },
{
    if outcome is Err && outcome->Err_0@ == GatewayErrorView::PurchasingTimeout {
        let f = r.reply->0@.body->Object_0;
        assert(f[1] == ("quota_consumed"@, JsonView::Bool(reserved)));
        assert(f[2] == ("retry_safe"@, JsonView::Bool(false)));
    }
}

} // verus!
