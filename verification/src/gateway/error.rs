//! What can go wrong with the services that the gateway calls.

use vstd::prelude::*;
use vstd::string::*;

use crate::http::{error_reply, refusal, Reply, ReplyView};
use crate::text::owned;

verus! {

/// A failed call of a service.
#[derive(Debug)]
pub enum GatewayError {
    ParserError(String),
    ParserTimeout,
    EnrichmentError(String),
    EnrichmentTimeout,
    TariffError(String),
    TariffTimeout,
    PurchasingError(String),
    PurchasingTimeout,
    BedrockError(String),
}

/// The content of a failed call.
#[verifier::ext_equal]
pub enum GatewayErrorView {
    ParserError(Seq<char>),
    ParserTimeout,
    EnrichmentError(Seq<char>),
    EnrichmentTimeout,
    TariffError(Seq<char>),
    TariffTimeout,
    PurchasingError(Seq<char>),
    PurchasingTimeout,
    BedrockError(Seq<char>),
}

impl View for GatewayError {
    type V = GatewayErrorView;

    open spec fn view(&self) -> GatewayErrorView {
        match self {
            GatewayError::ParserError(m) => GatewayErrorView::ParserError(m@),
            GatewayError::ParserTimeout => GatewayErrorView::ParserTimeout,
            GatewayError::EnrichmentError(m) => GatewayErrorView::EnrichmentError(m@),
            GatewayError::EnrichmentTimeout => GatewayErrorView::EnrichmentTimeout,
            GatewayError::TariffError(m) => GatewayErrorView::TariffError(m@),
            GatewayError::TariffTimeout => GatewayErrorView::TariffTimeout,
            GatewayError::PurchasingError(m) => GatewayErrorView::PurchasingError(m@),
            GatewayError::PurchasingTimeout => GatewayErrorView::PurchasingTimeout,
            GatewayError::BedrockError(m) => GatewayErrorView::BedrockError(m@),
        }
    }
}

/// The message of a failed call.
pub open spec fn gateway_error_text(error: GatewayErrorView) -> Seq<char> {
    match error {
        GatewayErrorView::ParserError(m) => "parser error: "@ + m,
        GatewayErrorView::ParserTimeout => "parser timed out"@,
        GatewayErrorView::EnrichmentError(m) => "enrichment error: "@ + m,
        GatewayErrorView::EnrichmentTimeout => "enrichment timed out"@,
        GatewayErrorView::TariffError(m) => "tariff error: "@ + m,
        GatewayErrorView::TariffTimeout => "tariff timed out"@,
        GatewayErrorView::PurchasingError(m) => "purchasing error: "@ + m,
        GatewayErrorView::PurchasingTimeout => "purchasing timed out"@,
        GatewayErrorView::BedrockError(m) => "bedrock error: "@ + m,
    }
}

fn joined(prefix: &str, text: &str) -> (r: String)
    ensures
        r@ == prefix@ + text@,
{
    let mut s = owned(prefix);
    s.append(text);
    s
}

impl GatewayError {
    /// The message.
    pub fn message(&self) -> (r: String)
        ensures
            r@ == gateway_error_text(self@),
    {
        match self {
            GatewayError::ParserError(m) => joined("parser error: ", m.as_str()),
            GatewayError::ParserTimeout => owned("parser timed out"),
            GatewayError::EnrichmentError(m) => joined("enrichment error: ", m.as_str()),
            GatewayError::EnrichmentTimeout => owned("enrichment timed out"),
            GatewayError::TariffError(m) => joined("tariff error: ", m.as_str()),
            GatewayError::TariffTimeout => owned("tariff timed out"),
            GatewayError::PurchasingError(m) => joined("purchasing error: ", m.as_str()),
            GatewayError::PurchasingTimeout => owned("purchasing timed out"),
            GatewayError::BedrockError(m) => joined("bedrock error: ", m.as_str()),
        }
    }
}

/// What is answered when the parser failed.
pub open spec fn parser_reply(error: GatewayErrorView) -> ReplyView {
    match error {
        GatewayErrorView::ParserTimeout => refusal(504, "parser timed out"@),
        GatewayErrorView::ParserError(message) => refusal(502, message),
        _ => refusal(502, "parser upstream failed"@),
    }
}

/// What is answered when the parser failed.
pub fn parser_error_response(error: GatewayError) -> (r: Reply)
    ensures
        r@ == parser_reply(error@),
{
    match error {
        GatewayError::ParserTimeout => error_reply(504, "parser timed out"),
        GatewayError::ParserError(message) => error_reply(502, message.as_str()),
        _ => error_reply(502, "parser upstream failed"),
    }
}

/// Why a file could not be analyzed.
#[derive(Debug)]
pub enum AnalyzePipelineError {
    Parser(GatewayError),
    LowMappingConfidence,
}

/// What is answered when a file could not be analyzed.
pub open spec fn pipeline_reply(error: AnalyzePipelineError) -> ReplyView {
    match error {
        AnalyzePipelineError::Parser(error) => parser_reply(error@),
        AnalyzePipelineError::LowMappingConfidence => refusal(
            422,
            "mapping confidence below threshold"@,
        ),
    }
}

/// What is answered when a file could not be analyzed.
pub fn analyze_pipeline_error_response(error: AnalyzePipelineError) -> (r: Reply)
    ensures
        r@ == pipeline_reply(error),
{
    match error {
        AnalyzePipelineError::Parser(error) => parser_error_response(error),
        AnalyzePipelineError::LowMappingConfidence => error_reply(
            422,
            "mapping confidence below threshold",
        ),
    }
}

/// A service that did not answer in time is told apart from one that failed, and the
/// parser's own words are passed on.
pub proof fn failures_of_the_parser_are_answered(error: GatewayError, r: Reply)
    requires
        call_ensures(parser_error_response, (error,), r),
    ensures
        error is ParserTimeout ==> r@.status == 504,
        !(error is ParserTimeout) ==> r@.status == 502,
        error is ParserError ==> r@.body->Object_0.contains(("error"@, crate::json::JsonView::Text(error->ParserError_0@))),
{
    let f = r@.body->Object_0;
    assert(f.contains(f[0]));
}

/// A file whose columns are unsure cannot be processed as it is; any other failure is the
/// parser's.
pub proof fn unsure_files_are_sent_back(error: AnalyzePipelineError, r: Reply)
    requires
        call_ensures(analyze_pipeline_error_response, (error,), r),
    ensures
        error is LowMappingConfidence ==> r@.status == 422,
        error is Parser && error->Parser_0 is ParserTimeout ==> r@.status == 504,
        error is Parser && !(error->Parser_0 is ParserTimeout) ==> r@.status == 502,
{
}

/// Every message names the service that failed.
pub proof fn failures_name_the_service(error: &GatewayError, r: String)
    requires
        call_ensures(GatewayError::message, (error,), r),
    ensures
        error is ParserTimeout ==> r@ == "parser timed out"@,
        error is EnrichmentTimeout ==> r@ == "enrichment timed out"@,
        error is TariffTimeout ==> r@ == "tariff timed out"@,
        error is PurchasingTimeout ==> r@ == "purchasing timed out"@,
        error is ParserError ==> r@ == "parser error: "@ + error->ParserError_0@,
        error is EnrichmentError ==> r@ == "enrichment error: "@ + error->EnrichmentError_0@,
        error is TariffError ==> r@ == "tariff error: "@ + error->TariffError_0@,
        error is PurchasingError ==> r@ == "purchasing error: "@ + error->PurchasingError_0@,
        error is BedrockError ==> r@ == "bedrock error: "@ + error->BedrockError_0@,
{
}

} // verus!
