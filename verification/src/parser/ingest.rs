//! Why a file could not be read.

use vstd::prelude::*;
use vstd::string::*;

use crate::text::owned;

verus! {

/// Why a file could not be read.
#[derive(Debug)]
pub enum ParseError {
    Csv(String),
    Xlsx(String),
    PasswordProtected(String),
    EncodingError(String),
}

/// The message of an error.
pub open spec fn ingest_error_text(error: ParseError) -> Seq<char> {
    match error {
        ParseError::Csv(m) => "csv parse error: "@ + m@,
        ParseError::Xlsx(m) => "xlsx parse error: "@ + m@,
        ParseError::PasswordProtected(m) => m@,
        ParseError::EncodingError(m) => m@,
    }
}

impl ParseError {
    /// The message.
    pub fn message(&self) -> (r: String)
        ensures
            r@ == ingest_error_text(*self),
    {
        match self {
            ParseError::Csv(m) => {
                let mut s = owned("csv parse error: ");
                s.append(m.as_str());
                s
            },
            ParseError::Xlsx(m) => {
                let mut s = owned("xlsx parse error: ");
                s.append(m.as_str());
                s
            },
            ParseError::PasswordProtected(m) => m.clone(),
            ParseError::EncodingError(m) => m.clone(),
        }
    }
}

/// Every failure to take a file in is told by its kind.
pub proof fn failures_to_take_in_are_told(error: &ParseError, r: String)
    requires
        call_ensures(ParseError::message, (error,), r),
    ensures
        error is Csv ==> r@ == "csv parse error: "@ + error->Csv_0@,
        error is Xlsx ==> r@ == "xlsx parse error: "@ + error->Xlsx_0@,
        error is PasswordProtected ==> r@ == error->PasswordProtected_0@,
        error is EncodingError ==> r@ == error->EncodingError_0@,
{
}

} // verus!
