//! What is odd about a file.

use vstd::prelude::*;
use vstd::string::*;

verus! {

/// What a warning is about.
#[derive(Debug, Clone, Copy, PartialEq, Eq, Structural)]
pub enum WarningCode {
    LowMappingConfidence,
    DistSkuSuspect,
    MissingMpn,
    RowLimitExceeded,
}

/// A warning.
#[derive(Debug)]
pub struct ParseWarning {
    pub code: WarningCode,
    pub row_index: usize,
    pub column: Option<String>,
    pub message: Option<String>,
}

/// The content of a warning.
#[verifier::ext_equal]
pub struct WarningView {
    pub code: WarningCode,
    pub row_index: usize,
    pub column: Option<Seq<char>>,
    pub message: Option<Seq<char>>,
}

impl View for ParseWarning {
    type V = WarningView;

    open spec fn view(&self) -> WarningView {
        WarningView {
            code: self.code,
            row_index: self.row_index,
            column: self.column.deep_view(),
            message: self.message.deep_view(),
        }
    }
}

/// The contents of warnings.
pub open spec fn warning_views(warnings: Seq<ParseWarning>) -> Seq<WarningView> {
    warnings.map_values(|w: ParseWarning| w@)
}

/// A warning without a message.
pub open spec fn plain_warning(code: WarningCode, row_index: usize, column: Option<Seq<char>>) -> WarningView {
    WarningView { code, row_index, column, message: None }
}

/// Adds a warning.
pub fn push_warning(
    warnings: &mut Vec<ParseWarning>,
    code: WarningCode,
    row_index: usize,
    column: Option<String>,
)
    ensures
        warning_views(final(warnings)@) == warning_views(old(warnings)@).push(
            plain_warning(code, row_index, column.deep_view()),
        ),
{
    let ghost before = warnings@;
    let warning = ParseWarning { code, row_index, column, message: None };
    let ghost w = warning@;
    warnings.push(warning);
    assert(warning_views(warnings@) =~= warning_views(before).push(w));
}

} // verus!
