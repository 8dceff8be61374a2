//! What the parser service answers.

use vstd::prelude::*;
use vstd::string::*;

use crate::json::Json;

verus! {

/// A parsed file.
#[derive(Debug)]
pub struct ParseResult {
    pub source_filename: String,
    pub sheet_name: Option<String>,
    pub header_row_index: usize,
    pub column_mapping: Vec<(String, String)>,
    /// The bit pattern of the confidence, a binary32 number.
    pub mapping_confidence: u32,
    pub lines: Vec<ParsedLine>,
    pub warnings: Vec<Json>,
    pub stats: Json,
    pub flywheel_events: Vec<FlywheelEvent>,
}

/// A line of a parsed file. The quantity is a decimal number in text.
#[derive(Debug)]
pub struct ParsedLine {
    pub mpn: Option<String>,
    pub manufacturer: Option<String>,
    pub quantity: Option<String>,
    pub refdes: Option<String>,
    pub description: Option<String>,
    pub aml_candidates: Vec<String>,
    pub row_index: usize,
}

/// The content of a line.
#[verifier::ext_equal]
pub struct ParsedLineView {
    pub mpn: Option<Seq<char>>,
    pub manufacturer: Option<Seq<char>>,
    pub quantity: Option<Seq<char>>,
    pub refdes: Option<Seq<char>>,
    pub description: Option<Seq<char>>,
    pub aml_candidates: Seq<Seq<char>>,
    pub row_index: usize,
}

impl View for ParsedLine {
    type V = ParsedLineView;

    open spec fn view(&self) -> ParsedLineView {
        ParsedLineView {
            mpn: self.mpn.deep_view(),
            manufacturer: self.manufacturer.deep_view(),
            quantity: self.quantity.deep_view(),
            refdes: self.refdes.deep_view(),
            description: self.description.deep_view(),
            aml_candidates: self.aml_candidates.deep_view(),
            row_index: self.row_index,
        }
    }
}

/// A line as it is handed on for learning.
#[derive(Debug)]
pub struct FlywheelEvent {
    pub mpn: Option<String>,
    pub manufacturer: Option<String>,
    pub quantity: Option<String>,
    pub refdes: Option<String>,
    pub aml_candidates: Vec<String>,
}

/// Below three tenths. A binary32 number is less than 0.3 where its pattern is
/// less than that of 0.3, or is that of a negative number.
pub open spec fn is_low_confidence(bits: u32) -> bool {
    bits < 0x3e99_999a || 0x8000_0000 <= bits <= 0xff80_0000
}

/// Whether a confidence is below three tenths.
pub fn low_confidence(bits: u32) -> (r: bool)
    ensures
        r == is_low_confidence(bits),
{
    bits < 0x3e99_999a || (bits >= 0x8000_0000 && bits <= 0xff80_0000)
}

/// Three tenths and more is sure enough (the bit patterns of the numbers from 0.3 on), less
/// is not.
pub proof fn three_tenths_are_enough(bits: u32, r: bool)
    requires
        call_ensures(low_confidence, (bits,), r),
    ensures
        0x3e99_999a <= bits <= 0x7f80_0000 ==> !r,
        bits < 0x3e99_999a ==> r,
{
}

/// A negative confidence is not enough, and what is no number is not compared.
pub proof fn negative_confidence_is_not_enough(bits: u32, r: bool)
    requires
        call_ensures(low_confidence, (bits,), r),
    ensures
        0x8000_0000 <= bits <= 0xff80_0000 ==> r,
        0x7f80_0000 < bits < 0x8000_0000 ==> !r,
        bits > 0xff80_0000 ==> !r,
{
}

} // verus!
