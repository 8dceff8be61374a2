//! The model service.

use vstd::prelude::*;
use vstd::string::*;

use crate::text::{non_blank, trim_opt};

verus! {

/// Where the model's id is set.
pub const BEDROCK_MODEL_ID_ENV: &'static str = "BEDROCK_MODEL_ID";

/// The model that is used where none is named.
pub const DEFAULT_BEDROCK_MODEL_ID: &'static str = "amazon.nova-micro-v1:0";

/// The id of the model; none where it is unset or blank.
pub fn parse_bedrock_model_id(raw: Option<&str>) -> (r: Option<String>)
    ensures
        r.deep_view() == non_blank(raw.deep_view()),
{
    trim_opt(raw)
}

/// A model that is named is used, without the blanks around its name; a blank name is none.
pub proof fn named_models_are_used(raw: Option<&str>, r: Option<String>)
    requires
        call_ensures(parse_bedrock_model_id, (raw,), r),
    ensures
        raw is None ==> r is None,
        raw is Some && crate::text::is_blank(raw->0@) ==> r is None,
        raw is Some && !crate::text::is_blank(raw->0@) ==> r is Some && r->0@ == crate::text::trimmed(raw->0@),
{
}

} // verus!
