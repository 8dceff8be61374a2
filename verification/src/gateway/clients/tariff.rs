//! What the tariff service is asked and answers.

use vstd::prelude::*;
use vstd::string::*;


verus! {

/// A percentage: the bit pattern of the binary64 number, and how it is written:
/// as it is, as programs show it, and with four decimals.
#[derive(Debug)]
pub struct Percent {
    pub bits: u64,
    pub plain: String,
    pub shown: String,
    pub fixed: String,
}

/// The content of a percentage.
#[verifier::ext_equal]
pub struct PercentView {
    pub bits: u64,
    pub plain: Seq<char>,
    pub shown: Seq<char>,
    pub fixed: Seq<char>,
}

impl View for Percent {
    type V = PercentView;

    open spec fn view(&self) -> PercentView {
        PercentView {
            bits: self.bits,
            plain: self.plain@,
            shown: self.shown@,
            fixed: self.fixed@,
        }
    }
}

impl Clone for Percent {
    fn clone(&self) -> (r: Self)
        ensures
            r == *self,
    {
        Percent {
            bits: self.bits,
            plain: self.plain.clone(),
            shown: self.shown.clone(),
            fixed: self.fixed.clone(),
        }
    }
}

/// The content of an optional percentage.
pub open spec fn percent_view(p: Option<Percent>) -> Option<PercentView> {
    match p {
        Some(p) => Some(p@),
        None => None,
    }
}

/// A copy of an optional percentage.
pub fn copy_percent(p: &Option<Percent>) -> (r: Option<Percent>)
    ensures
        r == *p,
        percent_view(r) == percent_view(*p),
{
    match p {
        Some(p) => Some(p.clone()),
        None => None,
    }
}

/// At least 25. Patterns of numbers from 0 on are ordered as the numbers; that
/// of 25 is the lower bound here and that of infinity the upper.
pub open spec fn is_at_least_25(bits: u64) -> bool {
    0x4039_0000_0000_0000 <= bits <= 0x7ff0_0000_0000_0000
}

/// More than 0: the patterns after that of 0 up to that of infinity.
pub open spec fn is_positive(bits: u64) -> bool {
    1 <= bits <= 0x7ff0_0000_0000_0000
}

impl Percent {
    /// Whether the percentage is at least 25.
    pub fn at_least_25(&self) -> (r: bool)
        ensures
            r == is_at_least_25(self@.bits),
    {
        0x4039_0000_0000_0000 <= self.bits && self.bits <= 0x7ff0_0000_0000_0000
    }

    /// Whether the percentage is more than 0.
    pub fn positive(&self) -> (r: bool)
        ensures
            r == is_positive(self@.bits),
    {
        1 <= self.bits && self.bits <= 0x7ff0_0000_0000_0000
    }
}

/// A part to be classified.
#[derive(Debug)]
pub struct TariffInput {
    pub mpn: String,
    pub description: Option<String>,
    pub category: Option<String>,
    pub country_of_origin: Option<String>,
    pub manufacturer: Option<String>,
}

/// The content of a question.
#[verifier::ext_equal]
pub struct TariffInputView {
    pub mpn: Seq<char>,
    pub description: Option<Seq<char>>,
    pub category: Option<Seq<char>>,
    pub country_of_origin: Option<Seq<char>>,
    pub manufacturer: Option<Seq<char>>,
}

impl View for TariffInput {
    type V = TariffInputView;

    open spec fn view(&self) -> TariffInputView {
        TariffInputView {
            mpn: self.mpn@,
            description: self.description.deep_view(),
            category: self.category.deep_view(),
            country_of_origin: self.country_of_origin.deep_view(),
            manufacturer: self.manufacturer.deep_view(),
        }
    }
}

/// How old the tariff data is.
#[derive(Debug)]
pub struct TariffDataSources {
    pub hts_revision: String,
    pub section_301_retrieved: String,
    pub hts_data_age_days: i64,
    pub section_301_data_age_days: i64,
    pub is_stale: bool,
}

/// What the tariff service says of a part.
#[derive(Debug)]
pub struct TariffResult {
    pub mpn: String,
    pub hts_code: Option<String>,
    pub classification: Option<String>,
    pub confidence: String,
    pub base_duty_pct: Option<Percent>,
    pub section_301_pct: Option<Percent>,
    pub total_duty_pct: Option<Percent>,
    pub rate_basis: String,
    pub estimated: bool,
    pub notes: Option<String>,
    pub entity_list_match: bool,
    pub entity_list_matched_name: Option<String>,
    pub entity_list_notes: Option<String>,
    pub data_sources: TariffDataSources,
    pub disclaimer: String,
}

/// How long a question to the tariff service may take, in seconds: one for each
/// line, at least a minute and at most ten.
pub fn tariff_timeout_secs(line_count: usize) -> (r: u64)
    ensures
        r == if line_count < 60 {
            60
        } else if line_count > 600 {
            600
        } else {
            line_count as int
        },
{
    let n: u64 = line_count as u64;
    if n < 60 {
        60
    } else if n > 600 {
        600
    } else {
        n
    }
}

/// How long a question to the enrichment service may take, in seconds: one for
/// each line that is only looked up, two for each that may be asked for.
pub fn enrich_timeout_secs(line_count: usize, cache_only: bool) -> (r: u64)
    ensures
        r == if cache_only {
            if line_count < 60 {
                60
            } else if line_count > 600 {
                600
            } else {
                line_count as int
            }
        } else {
            if line_count * 2 < 120 {
                120
            } else if line_count * 2 > 3600 {
                3600
            } else {
                line_count * 2
            }
        },
{
    if cache_only {
        tariff_timeout_secs(line_count)
    } else if line_count < 60 {
        120
    } else if line_count > 1800 {
        3600
    } else {
        line_count as u64 * 2
    }
}

/// The bit patterns of the numbers from 25 on are at least 25, and those of the numbers
/// above nought are positive; nought is neither.
pub proof fn percentages_are_compared(p: &Percent, r: bool, s: bool)
    requires
        call_ensures(Percent::at_least_25, (p,), r),
        call_ensures(Percent::positive, (p,), s),
    ensures
        p.bits == 0x4039_0000_0000_0000 ==> r,
        p.bits == 0x4038_ffff_ffff_ffff ==> !r,
        0x4039_0000_0000_0000 <= p.bits <= 0x7ff0_0000_0000_0000 ==> r && s,
        p.bits == 0 ==> !r && !s,
        0 < p.bits < 0x4039_0000_0000_0000 ==> !r && s,
        p.bits >= 0x8000_0000_0000_0000 ==> !r && !s,
{
}

/// Larger boms get more time, one second for each line, within a minute and ten.
pub proof fn tariffs_get_a_second_a_line(a: usize, b: usize, r: u64, s: u64)
    requires
        call_ensures(tariff_timeout_secs, (a,), r),
        call_ensures(tariff_timeout_secs, (b,), s),
    ensures
        60 <= r <= 600,
        60 <= a <= 600 ==> r == a,
        a <= 60 ==> r == 60,
        a >= 600 ==> r == 600,
        a <= b ==> r <= s,
{
}

/// Looking lines up takes a second each, within a minute and ten; asking for them two, within
/// two minutes and an hour.
pub proof fn enrichment_gets_time_by_the_line(a: usize, b: usize, cached: u64, asked: u64, more: u64)
    requires
        call_ensures(enrich_timeout_secs, (a, true), cached),
        call_ensures(enrich_timeout_secs, (a, false), asked),
        call_ensures(enrich_timeout_secs, (b, false), more),
    ensures
        60 <= cached <= 600,
        120 <= asked <= 3600,
        60 <= a <= 600 ==> cached == a,
        60 <= a <= 1800 ==> asked == 2 * a,
        a <= 60 ==> cached == 60 && asked == 120,
        a >= 1800 ==> asked == 3600,
        cached <= asked,
        a <= b ==> asked <= more,
{
}

} // verus!
