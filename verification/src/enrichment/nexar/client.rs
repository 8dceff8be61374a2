//! Matching parts through the part search.

use vstd::prelude::*;
use vstd::string::*;

use super::auth::AuthError;
use crate::json::{field, or_null, Json, JsonView};
use crate::text::case::{ascii_upper, eq_ascii_case, eq_ignore_ascii_case, to_ascii_upper};
use crate::text::number::{dec_nat, u64_text};
use crate::text::{copy_opt, owned, same, trim, trimmed};

verus! {

/// How many parts are asked for at once.
pub const BATCH_SIZE: usize = 20;

/// How long to wait before asking again, in seconds.
pub const RATE_LIMIT_RETRY_DELAY_SECS: u64 = 2;

/// A part to be matched.
#[derive(Debug)]
pub struct MatchInput {
    pub mpn: String,
    pub manufacturer: Option<String>,
}

/// The content of a part to be matched.
#[verifier::ext_equal]
pub struct MatchInputView {
    pub mpn: Seq<char>,
    pub manufacturer: Option<Seq<char>>,
}

impl View for MatchInput {
    type V = MatchInputView;

    open spec fn view(&self) -> MatchInputView {
        MatchInputView { mpn: self.mpn@, manufacturer: self.manufacturer.deep_view() }
    }
}

/// How well a part was matched.
#[derive(Debug, Clone, Copy, PartialEq, Eq, Structural)]
pub enum MatchStatus {
    Exact,
    Fuzzy,
    /// Written `None`.
    NoMatch,
}

/// Whether a part can be had.
#[derive(Debug, Clone, Copy, PartialEq, Eq, Structural)]
pub enum AvailabilityStatus {
    InStock,
    OutOfStock,
    NoMatch,
    Error,
}

/// Where a part is in its life.
#[derive(Debug, Clone, Copy, PartialEq, Eq, Structural)]
pub enum LifecycleStatus {
    Active,
    Nrnd,
    Eol,
    Discontinued,
    Unknown,
}

/// What a seller has of a part.
#[derive(Debug)]
pub struct SellerOffer {
    pub name: String,
    pub inventory_level: i64,
}

/// The content of an offer.
#[verifier::ext_equal]
pub struct SellerOfferView {
    pub name: Seq<char>,
    pub inventory_level: i64,
}

impl View for SellerOffer {
    type V = SellerOfferView;

    open spec fn view(&self) -> SellerOfferView {
        SellerOfferView { name: self.name@, inventory_level: self.inventory_level }
    }
}

/// The contents of offers.
pub open spec fn offer_views(offers: Seq<SellerOffer>) -> Seq<SellerOfferView> {
    offers.map_values(|o: SellerOffer| o@)
}

/// What a part was matched to.
#[derive(Debug)]
pub struct MatchResult {
    pub input_index: usize,
    pub nexar_part_id: Option<String>,
    pub matched_mpn: Option<String>,
    pub matched_manufacturer: Option<String>,
    pub match_status: MatchStatus,
    pub total_avail: i64,
    pub availability_status: AvailabilityStatus,
    pub lifecycle_status: LifecycleStatus,
    pub factory_lead_days: Option<i32>,
    pub top_sellers: Vec<SellerOffer>,
    pub cached: bool,
    pub error_detail: Option<String>,
}

/// The content of a match.
#[verifier::ext_equal]
pub struct MatchResultView {
    pub input_index: usize,
    pub nexar_part_id: Option<Seq<char>>,
    pub matched_mpn: Option<Seq<char>>,
    pub matched_manufacturer: Option<Seq<char>>,
    pub match_status: MatchStatus,
    pub total_avail: i64,
    pub availability_status: AvailabilityStatus,
    pub lifecycle_status: LifecycleStatus,
    pub factory_lead_days: Option<i32>,
    pub top_sellers: Seq<SellerOfferView>,
    pub cached: bool,
    pub error_detail: Option<Seq<char>>,
}

impl View for MatchResult {
    type V = MatchResultView;

    open spec fn view(&self) -> MatchResultView {
        MatchResultView {
            input_index: self.input_index,
            nexar_part_id: self.nexar_part_id.deep_view(),
            matched_mpn: self.matched_mpn.deep_view(),
            matched_manufacturer: self.matched_manufacturer.deep_view(),
            match_status: self.match_status,
            total_avail: self.total_avail,
            availability_status: self.availability_status,
            lifecycle_status: self.lifecycle_status,
            factory_lead_days: self.factory_lead_days,
            top_sellers: offer_views(self.top_sellers@),
            cached: self.cached,
            error_detail: self.error_detail.deep_view(),
        }
    }
}

fn copy_offers(offers: &Vec<SellerOffer>) -> (r: Vec<SellerOffer>)
    ensures
        offer_views(r@) == offer_views(offers@),
{
    let mut out: Vec<SellerOffer> = Vec::new();
    let mut i: usize = 0;
    while i < offers.len()
        invariant
            i <= offers@.len(),
            out@.len() == i,
            forall|j: int| 0 <= j < i ==> (#[trigger] out@[j])@ == offers@[j]@,
        decreases offers@.len() - i,
    {
        out.push(
            SellerOffer {
                name: offers[i].name.clone(),
                inventory_level: offers[i].inventory_level,
            },
        );
        i += 1;
    }
    assert(offer_views(out@) =~= offer_views(offers@));
    out
}

impl Clone for MatchResult {
    fn clone(&self) -> (r: Self)
        ensures
            r@ == self@,
    {
        MatchResult {
            input_index: self.input_index,
            nexar_part_id: copy_opt(&self.nexar_part_id),
            matched_mpn: copy_opt(&self.matched_mpn),
            matched_manufacturer: copy_opt(&self.matched_manufacturer),
            match_status: self.match_status,
            total_avail: self.total_avail,
            availability_status: self.availability_status,
            lifecycle_status: self.lifecycle_status,
            factory_lead_days: self.factory_lead_days,
            top_sellers: copy_offers(&self.top_sellers),
            cached: self.cached,
            error_detail: copy_opt(&self.error_detail),
        }
    }
}

/// Why parts could not be matched.
#[derive(Debug)]
pub enum ClientError {
    Auth(AuthError),
    Request(String),
    Timeout,
}

/// The message of an error.
pub open spec fn client_error_text(error: ClientError) -> Seq<char> {
    match error {
        ClientError::Auth(e) => "auth error: "@ + super::auth::auth_error_text(e@),
        ClientError::Request(m) => "request error: "@ + m@,
        ClientError::Timeout => "request timed out"@,
    }
}

impl ClientError {
    /// The message.
    pub fn message(&self) -> (r: String)
        ensures
            r@ == client_error_text(*self),
    {
        match self {
            ClientError::Auth(e) => {
                let mut s = owned("auth error: ");
                s.append(e.message().as_str());
                s
            },
            ClientError::Request(m) => {
                let mut s = owned("request error: ");
                s.append(m.as_str());
                s
            },
            ClientError::Timeout => owned("request timed out"),
        }
    }
}

/// What the search offers of a part at a seller.
#[derive(Debug)]
pub struct SupOffer {
    pub inventory_level: Option<i64>,
    pub factory_lead_days: Option<i32>,
}

/// A seller of a part.
#[derive(Debug)]
pub struct SupSeller {
    pub company: Option<String>,
    pub offers: Vec<SupOffer>,
}

/// A part that the search found. A seller's company is its name, and none where
/// it has none; missing lists are empty.
#[derive(Debug)]
pub struct SupHit {
    pub mpn: Option<String>,
    pub manufacturer: Option<String>,
    pub total_avail: Option<i64>,
    pub lifecycle_status: Option<String>,
    pub sellers: Vec<SupSeller>,
}

/// Two names are the same but for white space around them and the case of ASCII
/// letters; a missing one is like no other.
pub open spec fn same_name(left: Option<Seq<char>>, right: Option<Seq<char>>) -> bool {
    left is Some && right is Some && eq_ascii_case(trimmed(left->0), trimmed(right->0))
}

/// Whether two names are the same but for white space and case.
pub fn eq_case_insensitive(left: Option<&str>, right: Option<&str>) -> (r: bool)
    ensures
        r == same_name(left.deep_view(), right.deep_view()),
{
    match (left, right) {
        (Some(a), Some(b)) => eq_ignore_ascii_case(trim(a).as_str(), trim(b).as_str()),
        _ => false,
    }
}

fn opt_str(s: &Option<String>) -> (r: Option<&str>)
    ensures
        r.deep_view() == s.deep_view(),
{
    match s {
        Some(t) => Some(t.as_str()),
        None => None,
    }
}

/// The position of the first hit of that manufacturer; the number of hits where
/// there is none.
pub open spec fn first_of_maker(hits: Seq<SupHit>, maker: Seq<char>) -> int
    decreases hits.len(),
{
    if hits.len() == 0 || same_name(hits[0].manufacturer.deep_view(), Some(maker)) {
        0
    } else {
        1 + first_of_maker(hits.drop_first(), maker)
    }
}

/// The hit that is taken: the first of the wanted manufacturer, else the first.
pub open spec fn chosen_hit(hits: Seq<SupHit>, input: MatchInputView) -> int {
    match input.manufacturer {
        Some(maker) => if first_of_maker(hits, maker) < hits.len() {
            first_of_maker(hits, maker)
        } else {
            0
        },
        None => 0,
    }
}

/// The hit that is taken; none where there are none.
pub fn select_hit(hits: &Vec<SupHit>, input: &MatchInput) -> (r: Option<usize>)
    ensures
        hits@.len() == 0 ==> r is None,
        hits@.len() > 0 ==> r is Some && r->0 == chosen_hit(hits@, input@) && r->0 < hits@.len(),
{
    if hits.len() == 0 {
        return None;
    }
    if let Some(target) = &input.manufacturer {
        let mut i: usize = 0;
        assert(hits@.skip(0) =~= hits@);
        while i < hits.len()
            invariant
                i <= hits@.len(),
                hits@.len() > 0,
                input@.manufacturer == Some(target@),
                first_of_maker(hits@, target@) == i + first_of_maker(
                    hits@.skip(i as int),
                    target@,
                ),
            decreases hits@.len() - i,
        {
            assert(hits@.skip(i as int)[0] == hits@[i as int]);
            if eq_case_insensitive(opt_str(&hits[i].manufacturer), Some(target.as_str())) {
                return Some(i);
            }
            assert(hits@.skip(i as int).drop_first() =~= hits@.skip(i as int + 1));
            i += 1;
        }
    }
    Some(0)
}

/// Where a part is in its life, as the search writes it.
pub open spec fn lifecycle_of(raw: Option<Seq<char>>) -> LifecycleStatus {
    match raw {
        None => LifecycleStatus::Unknown,
        Some(text) => {
            let name = ascii_upper(trimmed(text));
            if name == "ACTIVE"@ {
                LifecycleStatus::Active
            } else if name == "NRND"@ {
                LifecycleStatus::Nrnd
            } else if name == "EOL"@ {
                LifecycleStatus::Eol
            } else if name == "DISCONTINUED"@ {
                LifecycleStatus::Discontinued
            } else {
                LifecycleStatus::Unknown
            }
        },
    }
}

/// Where a part is in its life, as the search writes it.
pub fn map_lifecycle_status(raw: Option<&str>) -> (r: LifecycleStatus)
    ensures
        r == lifecycle_of(raw.deep_view()),
{
    match raw {
        None => LifecycleStatus::Unknown,
        Some(text) => {
            let name = to_ascii_upper(trim(text).as_str());
            if same(name.as_str(), "ACTIVE") {
                LifecycleStatus::Active
            } else if same(name.as_str(), "NRND") {
                LifecycleStatus::Nrnd
            } else if same(name.as_str(), "EOL") {
                LifecycleStatus::Eol
            } else if same(name.as_str(), "DISCONTINUED") {
                LifecycleStatus::Discontinued
            } else {
                LifecycleStatus::Unknown
            }
        },
    }
}

/// The largest inventory among offers, where any names one.
pub open spec fn largest_inventory(offers: Seq<SupOffer>) -> Option<i64>
    decreases offers.len(),
{
    if offers.len() == 0 {
        None
    } else {
        let before = largest_inventory(offers.drop_last());
        match (before, offers.last().inventory_level) {
            (Some(a), Some(b)) => Some(
                if b > a {
                    b
                } else {
                    a
                },
            ),
            (None, b) => b,
            (a, None) => a,
        }
    }
}

fn max_inventory(offers: &Vec<SupOffer>) -> (r: Option<i64>)
    ensures
        r == largest_inventory(offers@),
{
    let mut best: Option<i64> = None;
    let mut i: usize = 0;
    while i < offers.len()
        invariant
            i <= offers@.len(),
            best == largest_inventory(offers@.take(i as int)),
        decreases offers@.len() - i,
    {
        assert(offers@.take(i + 1).drop_last() =~= offers@.take(i as int));
        assert(offers@.take(i + 1).last() == offers@[i as int]);
        if let Some(level) = offers[i].inventory_level {
            best = match best {
                Some(b) => if level > b {
                    Some(level)
                } else {
                    Some(b)
                },
                None => Some(level),
            };
        }
        i += 1;
    }
    assert(offers@.take(i as int) =~= offers@);
    best
}

/// The sellers that have a name, in order, each with the largest inventory that
/// it offers.
pub open spec fn named_sellers(sellers: Seq<SupSeller>) -> Seq<SellerOfferView>
    decreases sellers.len(),
{
    if sellers.len() == 0 {
        Seq::empty()
    } else {
        let before = named_sellers(sellers.drop_last());
        let seller = sellers.last();
        match seller.company {
            Some(name) => before.push(
                SellerOfferView {
                    name: name@,
                    inventory_level: match largest_inventory(seller.offers@) {
                        Some(level) => level,
                        None => 0,
                    },
                },
            ),
            None => before,
        }
    }
}

/// The sellers of a hit.
pub fn map_top_sellers(hit: &SupHit) -> (r: Vec<SellerOffer>)
    ensures
        offer_views(r@) == named_sellers(hit.sellers@),
{
    let sellers = &hit.sellers;
    let mut out: Vec<SellerOffer> = Vec::new();
    let mut i: usize = 0;
    assert(offer_views(out@) =~= named_sellers(sellers@.take(0)));
    while i < sellers.len()
        invariant
            i <= sellers@.len(),
            offer_views(out@) == named_sellers(sellers@.take(i as int)),
        decreases sellers@.len() - i,
    {
        let ghost before = out@;
        proof {
            assert(sellers@.take(i + 1).drop_last() =~= sellers@.take(i as int));
            assert(sellers@.take(i + 1).last() == sellers@[i as int]);
        }
        if let Some(name) = &sellers[i].company {
            let inventory_level = match max_inventory(&sellers[i].offers) {
                Some(level) => level,
                None => 0,
            };
            let offer = SellerOffer { name: name.clone(), inventory_level };
            let ghost ov = offer@;
            out.push(offer);
            assert(offer_views(out@) =~= offer_views(before).push(ov));
        }
        i += 1;
    }
    assert(sellers@.take(i as int) =~= sellers@);
    out
}

/// The shorter of two lead times, where there are any.
pub open spec fn shorter(a: Option<i32>, b: Option<i32>) -> Option<i32> {
    match (a, b) {
        (Some(x), Some(y)) => Some(
            if y < x {
                y
            } else {
                x
            },
        ),
        (None, y) => y,
        (x, None) => x,
    }
}

/// The shortest lead time among offers.
pub open spec fn shortest_lead(offers: Seq<SupOffer>) -> Option<i32>
    decreases offers.len(),
{
    if offers.len() == 0 {
        None
    } else {
        shorter(shortest_lead(offers.drop_last()), offers.last().factory_lead_days)
    }
}

/// The shortest lead time among all offers of all sellers.
pub open spec fn shortest_of_all(sellers: Seq<SupSeller>) -> Option<i32>
    decreases sellers.len(),
{
    if sellers.len() == 0 {
        None
    } else {
        shorter(shortest_of_all(sellers.drop_last()), shortest_lead(sellers.last().offers@))
    }
}

fn min_opt(a: Option<i32>, b: Option<i32>) -> (r: Option<i32>)
    ensures
        r == shorter(a, b),
{
    match (a, b) {
        (Some(x), Some(y)) => if y < x {
            Some(y)
        } else {
            Some(x)
        },
        (None, y) => y,
        (x, None) => x,
    }
}

/// The shortest lead time of a hit.
pub fn min_factory_lead_days(hit: &SupHit) -> (r: Option<i32>)
    ensures
        r == shortest_of_all(hit.sellers@),
{
    let sellers = &hit.sellers;
    let mut best: Option<i32> = None;
    let mut i: usize = 0;
    while i < sellers.len()
        invariant
            i <= sellers@.len(),
            best == shortest_of_all(sellers@.take(i as int)),
        decreases sellers@.len() - i,
    {
        assert(sellers@.take(i + 1).drop_last() =~= sellers@.take(i as int));
        assert(sellers@.take(i + 1).last() == sellers@[i as int]);
        let offers = &sellers[i].offers;
        let mut inner: Option<i32> = None;
        let mut k: usize = 0;
        while k < offers.len()
            invariant
                k <= offers@.len(),
                inner == shortest_lead(offers@.take(k as int)),
            decreases offers@.len() - k,
        {
            assert(offers@.take(k + 1).drop_last() =~= offers@.take(k as int));
            assert(offers@.take(k + 1).last() == offers@[k as int]);
            inner = min_opt(inner, offers[k].factory_lead_days);
            k += 1;
        }
        assert(offers@.take(k as int) =~= offers@);
        best = min_opt(best, inner);
        i += 1;
    }
    assert(sellers@.take(i as int) =~= sellers@);
    best
}

/// No match.
pub open spec fn no_match(input_index: usize) -> MatchResultView {
    MatchResultView {
        input_index,
        nexar_part_id: None,
        matched_mpn: None,
        matched_manufacturer: None,
        match_status: MatchStatus::NoMatch,
        total_avail: 0,
        availability_status: AvailabilityStatus::NoMatch,
        lifecycle_status: LifecycleStatus::Unknown,
        factory_lead_days: None,
        top_sellers: Seq::empty(),
        cached: false,
        error_detail: None,
    }
}

/// No match.
pub fn empty_result(input_index: usize) -> (r: MatchResult)
    ensures
        r@ == no_match(input_index),
{
    let r = MatchResult {
        input_index,
        nexar_part_id: None,
        matched_mpn: None,
        matched_manufacturer: None,
        match_status: MatchStatus::NoMatch,
        total_avail: 0,
        availability_status: AvailabilityStatus::NoMatch,
        lifecycle_status: LifecycleStatus::Unknown,
        factory_lead_days: None,
        top_sellers: Vec::new(),
        cached: false,
        error_detail: None,
    };
    assert(offer_views(r.top_sellers@) =~= Seq::<SellerOfferView>::empty());
    r
}

/// The match to a part with that hit.
pub open spec fn match_of(hit: SupHit, input: MatchInputView, input_index: usize) -> MatchResultView {
    let total_avail = match hit.total_avail {
        Some(n) => n,
        None => 0,
    };
    MatchResultView {
        input_index,
        nexar_part_id: None,
        matched_mpn: hit.mpn.deep_view(),
        matched_manufacturer: hit.manufacturer.deep_view(),
        match_status: if same_name(hit.manufacturer.deep_view(), input.manufacturer) {
            MatchStatus::Exact
        } else {
            MatchStatus::Fuzzy
        },
        total_avail,
        availability_status: if total_avail > 0 {
            AvailabilityStatus::InStock
        } else {
            AvailabilityStatus::OutOfStock
        },
        lifecycle_status: lifecycle_of(hit.lifecycle_status.deep_view()),
        factory_lead_days: shortest_of_all(hit.sellers@),
        top_sellers: named_sellers(hit.sellers@),
        cached: false,
        error_detail: None,
    }
}

/// What a part is matched to among hits.
pub open spec fn matched(hits: Seq<SupHit>, input: MatchInputView, input_index: usize) -> MatchResultView {
    if hits.len() == 0 {
        no_match(input_index)
    } else {
        match_of(hits[chosen_hit(hits, input)], input, input_index)
    }
}

/// What a part is matched to among hits.
pub fn map_one_result(hits: &Vec<SupHit>, input: &MatchInput, input_index: usize) -> (r: MatchResult)
    ensures
        r@ == matched(hits@, input@, input_index),
{
    let hit = match select_hit(hits, input) {
        Some(i) => &hits[i],
        None => {
            return empty_result(input_index);
        },
    };
    let exact = eq_case_insensitive(opt_str(&hit.manufacturer), opt_str(&input.manufacturer));
    let total_avail: i64 = match hit.total_avail {
        Some(n) => n,
        None => 0,
    };
    MatchResult {
        input_index,
        nexar_part_id: None,
        matched_mpn: copy_opt(&hit.mpn),
        matched_manufacturer: copy_opt(&hit.manufacturer),
        match_status: if exact {
            MatchStatus::Exact
        } else {
            MatchStatus::Fuzzy
        },
        total_avail,
        availability_status: if total_avail > 0 {
            AvailabilityStatus::InStock
        } else {
            AvailabilityStatus::OutOfStock
        },
        lifecycle_status: map_lifecycle_status(opt_str(&hit.lifecycle_status)),
        factory_lead_days: min_factory_lead_days(hit),
        top_sellers: map_top_sellers(hit),
        cached: false,
        error_detail: None,
    }
}

/// The hits for the part at a position; none where the search gave no list.
pub open spec fn hits_at(lists: Seq<Vec<SupHit>>, i: int) -> Seq<SupHit> {
    if 0 <= i < lists.len() {
        lists[i]@
    } else {
        Seq::empty()
    }
}

/// What the parts of a batch are matched to, counted from the batch's start.
pub fn map_batch_response(lists: &Vec<Vec<SupHit>>, inputs: &[MatchInput], global_start_index: usize) -> (r:
    Vec<MatchResult>)
    requires
        global_start_index + inputs@.len() <= usize::MAX,
    ensures
        r@.len() == inputs@.len(),
        forall|i: int|
            0 <= i < r@.len() ==> (#[trigger] r@[i])@ == matched(
                hits_at(lists@, i),
                inputs@[i]@,
                (global_start_index + i) as usize,
            ),
{
    let empty: Vec<SupHit> = Vec::new();
    let mut out: Vec<MatchResult> = Vec::new();
    let mut i: usize = 0;
    while i < inputs.len()
        invariant
            i <= inputs@.len(),
            global_start_index + inputs@.len() <= usize::MAX,
            empty@ == Seq::<SupHit>::empty(),
            out@.len() == i,
            forall|j: int|
                0 <= j < i ==> (#[trigger] out@[j])@ == matched(
                    hits_at(lists@, j),
                    inputs@[j]@,
                    (global_start_index + j) as usize,
                ),
        decreases inputs@.len() - i,
    {
        let hits = if i < lists.len() {
            &lists[i]
        } else {
            &empty
        };
        out.push(map_one_result(hits, &inputs[i], global_start_index + i));
        i += 1;
    }
    out
}

/// What is done with an answer of the search.
#[derive(Debug, Clone, Copy, PartialEq, Eq, Structural)]
pub enum BatchStep {
    /// Wait, and ask again.
    Retry,
    /// Give up.
    Fail,
    /// Read what it found.
    Read,
}

/// What is done with an answer of the search: the first that says it is asked too
/// often is waited out.
pub fn batch_step(status: u16, attempts: usize) -> (r: BatchStep)
    ensures
        r == if status == 429 && attempts == 0 {
            BatchStep::Retry
        } else if 200 <= status < 300 {
            BatchStep::Read
        } else {
            BatchStep::Fail
        },
{
    if status == 429 && attempts == 0 {
        BatchStep::Retry
    } else if 200 <= status && status < 300 {
        BatchStep::Read
    } else {
        BatchStep::Fail
    }
}

/// The error for an answer that is no success.
pub fn status_error(status: u16) -> (r: ClientError)
    ensures
        r is Request,
        r->Request_0@ == "status "@ + dec_nat(status as nat),
{
    let mut text = owned("status ");
    text.append(u64_text(status as u64).as_str());
    ClientError::Request(text)
}

/// The parts of the batch that begins there: up to twenty.
pub fn batch_end(total: usize, start: usize) -> (r: usize)
    requires
        start <= total,
    ensures
        r == if total - start < BATCH_SIZE {
            total as int
        } else {
            start + BATCH_SIZE
        },
        start < total ==> start < r,
        r <= total,
{
    if total - start < BATCH_SIZE {
        total
    } else {
        start + BATCH_SIZE
    }
}

/// A part that the search found is matched exactly only if its manufacturer was
/// asked for.
pub proof fn exact_needs_manufacturer(hits: Seq<SupHit>, input: MatchInputView, input_index: usize)
    ensures
        matched(hits, input, input_index).match_status == MatchStatus::Exact ==> hits.len() > 0
            && input.manufacturer is Some && same_name(
            matched(hits, input, input_index).matched_manufacturer,
            input.manufacturer,
        ),
        matched(hits, input, input_index).availability_status == AvailabilityStatus::NoMatch <==> hits.len() == 0,
{
}

/// What Nexar is asked: for each part its offers.
pub const SUP_MULTI_MATCH_QUERY: &'static str =
    "query SupMultiMatch($queries: [SupPartMatchQuery!]!) {\n  supMultiMatch(queries: $queries) {\n    hits {\n      part {\n        mpn\n        manufacturer { name }\n        totalAvail\n        manufacturerProductUrl\n        lifecycleStatus\n        medianPrice1000 { price currency }\n        sellers(includeBrokers: false) {\n          company { name }\n          offers {\n            inventoryLevel\n            factoryLeadDays\n          }\n        }\n      }\n    }\n  }\n}";

/// What Nexar is asked about a part.
pub open spec fn part_query_json(input: MatchInputView) -> JsonView {
    JsonView::Object(
        seq![
            ("mpn"@, JsonView::Text(input.mpn)),
            ("manufacturer"@, or_null(input.manufacturer)),
        ],
    )
}

/// The request for a batch of parts.
pub open spec fn batch_request(inputs: Seq<MatchInput>) -> JsonView {
    JsonView::Object(
        seq![
            ("query"@, JsonView::Text(SUP_MULTI_MATCH_QUERY@)),
            (
                "variables"@,
                JsonView::Object(
                    seq![
                        (
                            "queries"@,
                            JsonView::Array(
                                Seq::new(inputs.len(), |i: int| part_query_json(inputs[i]@)),
                            ),
                        ),
                    ],
                ),
            ),
        ],
    )
}

fn part_query(input: &MatchInput) -> (r: Json)
    ensures
        r@ == part_query_json(input@),
{
    let r = Json::Object(
        vec![
            field("mpn", Json::text(input.mpn.as_str())),
            field("manufacturer", Json::text_or_null(&input.manufacturer)),
        ],
    );
    assert(r@->Object_0 =~= part_query_json(input@)->Object_0);
    r
}

/// The request for a batch of parts.
pub fn build_graphql_request(lines: &[MatchInput]) -> (r: Json)
    ensures
        r@ == batch_request(lines@),
{
    let mut queries: Vec<Json> = Vec::new();
    let mut i: usize = 0;
    while i < lines.len()
        invariant
            i <= lines@.len(),
            queries@.len() == i,
            forall|j: int| 0 <= j < i ==> (#[trigger] queries@[j])@ == part_query_json(lines@[j]@),
        decreases lines@.len() - i,
    {
        queries.push(part_query(&lines[i]));
        i += 1;
    }
    let list = Json::Array(queries);
    let ghost parts = Seq::new(lines@.len(), |j: int| part_query_json(lines@[j]@));
    assert(list@->Array_0 =~= parts);
    let variables = Json::Object(vec![field("queries", list)]);
    assert(variables@->Object_0 =~= seq![("queries"@, JsonView::Array(parts))]);
    let r = Json::Object(
        vec![field("query", Json::text(SUP_MULTI_MATCH_QUERY)), field("variables", variables)],
    );
    assert(r@->Object_0 =~= batch_request(lines@)->Object_0);
    r
}

/// The names that the search has for a part's life are read in any case and with blanks
/// around them; any other is unknown.
pub proof fn lives_are_read(raw: Option<&str>, r: LifecycleStatus)
    requires
        call_ensures(map_lifecycle_status, (raw,), r),
    ensures
        raw is None ==> r == LifecycleStatus::Unknown,
        raw is Some ==> ({
            let t = trimmed(raw->0@);
            &&& eq_ascii_case(t, "Active"@) <==> r == LifecycleStatus::Active
            &&& eq_ascii_case(t, "Nrnd"@) <==> r == LifecycleStatus::Nrnd
            &&& eq_ascii_case(t, "Eol"@) <==> r == LifecycleStatus::Eol
            &&& eq_ascii_case(t, "Discontinued"@) <==> r == LifecycleStatus::Discontinued
        }),
{
    if raw is Some {
        let t = trimmed(raw->0@);
        reveal_strlit("Active");
        reveal_strlit("Nrnd");
        reveal_strlit("Eol");
        reveal_strlit("Discontinued");
        reveal_strlit("ACTIVE");
        reveal_strlit("NRND");
        reveal_strlit("EOL");
        reveal_strlit("DISCONTINUED");
        same_in_capitals(t, "Active"@);
        same_in_capitals(t, "Nrnd"@);
        same_in_capitals(t, "Eol"@);
        same_in_capitals(t, "Discontinued"@);
        assert(ascii_upper("Active"@) =~= "ACTIVE"@);
        assert(ascii_upper("Nrnd"@) =~= "NRND"@);
        assert(ascii_upper("Eol"@) =~= "EOL"@);
        assert(ascii_upper("Discontinued"@) =~= "DISCONTINUED"@);
        assert("ACTIVE"@.len() == 6);
        assert("NRND"@.len() == 4);
        assert("EOL"@.len() == 3);
        assert("DISCONTINUED"@.len() == 12);
    }
}

proof fn same_in_capitals(a: Seq<char>, b: Seq<char>)
    ensures
        eq_ascii_case(a, b) <==> ascii_upper(a) == ascii_upper(b),
{
    if eq_ascii_case(a, b) {
        assert(crate::text::case::ascii_lower(a).len() == crate::text::case::ascii_lower(b).len());
        assert forall|i: int| 0 <= i < a.len() implies ascii_upper(a)[i] == ascii_upper(b)[i] by {
            assert(crate::text::case::ascii_lower(a)[i] == crate::text::case::ascii_lower(b)[i]);
        }
        assert(ascii_upper(a) =~= ascii_upper(b));
    }
    if ascii_upper(a) == ascii_upper(b) {
        assert(ascii_upper(a).len() == ascii_upper(b).len());
        assert forall|i: int| 0 <= i < a.len() implies crate::text::case::ascii_lower(a)[i]
            == crate::text::case::ascii_lower(b)[i] by {
            assert(ascii_upper(a)[i] == ascii_upper(b)[i]);
        }
        assert(crate::text::case::ascii_lower(a) =~= crate::text::case::ascii_lower(b));
    }
}

proof fn first_of_maker_is_first(hits: Seq<SupHit>, maker: Seq<char>)
    ensures
        0 <= first_of_maker(hits, maker) <= hits.len(),
        first_of_maker(hits, maker) < hits.len() ==> same_name(
            hits[first_of_maker(hits, maker)].manufacturer.deep_view(),
            Some(maker),
        ),
        forall|i: int|
            0 <= i < first_of_maker(hits, maker) ==> !same_name((#[trigger] hits[i]).manufacturer.deep_view(), Some(maker)),
    decreases hits.len(),
{
    if hits.len() > 0 && !same_name(hits[0].manufacturer.deep_view(), Some(maker)) {
        let rest = hits.drop_first();
        first_of_maker_is_first(rest, maker);
        let n = first_of_maker(rest, maker);
        if n < rest.len() {
            assert(rest[n] == hits[n + 1]);
        }
        assert forall|i: int| 0 <= i < n + 1 implies !same_name(
            (#[trigger] hits[i]).manufacturer.deep_view(),
            Some(maker),
        ) by {
            if i > 0 {
                assert(hits[i] == rest[i - 1]);
            }
        }
    }
}

/// A part is matched to a hit of its own maker where there is one, the first of them, and
/// else to the first hit; with no hits there is no match.
pub proof fn own_makers_come_first(hits: &Vec<SupHit>, input: &MatchInput, r: Option<usize>, k: int)
    requires
        call_ensures(select_hit, (hits, input), r),
    ensures
        hits@.len() == 0 <==> r is None,
        r is Some ==> r->0 < hits@.len(),
        input@.manufacturer is None && hits@.len() > 0 ==> r == Some(0usize),
        input@.manufacturer is Some && 0 <= k < hits@.len() && same_name(
            hits@[k].manufacturer.deep_view(),
            input@.manufacturer,
        ) ==> r->0 <= k && same_name(hits@[r->0 as int].manufacturer.deep_view(), input@.manufacturer),
        input@.manufacturer is Some && hits@.len() > 0 && (forall|j: int|
            0 <= j < hits@.len() ==> !same_name((#[trigger] hits@[j]).manufacturer.deep_view(), input@.manufacturer))
            ==> r == Some(0usize),
{
    if input@.manufacturer is Some {
        first_of_maker_is_first(hits@, input@.manufacturer->0);
    }
}

proof fn largest_is_largest(offers: Seq<SupOffer>, i: int)
    ensures
        0 <= i < offers.len() && offers[i].inventory_level is Some ==> largest_inventory(offers) is Some
            && offers[i].inventory_level->0 <= largest_inventory(offers)->0,
        largest_inventory(offers) is Some ==> exists|k: int|
            0 <= k < offers.len() && (#[trigger] offers[k]).inventory_level == largest_inventory(offers),
    decreases offers.len(),
{
    if offers.len() > 0 {
        let d = offers.drop_last();
        largest_is_largest(d, i);
        assert(offers.last() == offers[offers.len() - 1]);
        if 0 <= i < d.len() {
            assert(d[i] == offers[i]);
        }
        if largest_inventory(d) is Some {
            let k = choose|k: int| 0 <= k < d.len() && (#[trigger] d[k]).inventory_level == largest_inventory(d);
            assert(offers[k] == d[k]);
        }
    }
}

proof fn shortest_is_shortest(offers: Seq<SupOffer>, i: int)
    ensures
        0 <= i < offers.len() && offers[i].factory_lead_days is Some ==> shortest_lead(offers) is Some && shortest_lead(
            offers,
        )->0 <= offers[i].factory_lead_days->0,
        shortest_lead(offers) is Some ==> exists|k: int|
            0 <= k < offers.len() && (#[trigger] offers[k]).factory_lead_days == shortest_lead(offers),
    decreases offers.len(),
{
    if offers.len() > 0 {
        let d = offers.drop_last();
        shortest_is_shortest(d, i);
        assert(offers.last() == offers[offers.len() - 1]);
        if 0 <= i < d.len() {
            assert(d[i] == offers[i]);
        }
        if shortest_lead(d) is Some {
            let k = choose|k: int| 0 <= k < d.len() && (#[trigger] d[k]).factory_lead_days == shortest_lead(d);
            assert(offers[k] == d[k]);
        }
    }
}

proof fn shortest_over_sellers(sellers: Seq<SupSeller>, s: int, i: int)
    requires
        0 <= s < sellers.len(),
        0 <= i < sellers[s].offers@.len(),
        sellers[s].offers@[i].factory_lead_days is Some,
    ensures
        shortest_of_all(sellers) is Some,
        shortest_of_all(sellers)->0 <= sellers[s].offers@[i].factory_lead_days->0,
    decreases sellers.len(),
{
    let d = sellers.drop_last();
    if s < d.len() {
        assert(d[s] == sellers[s]);
        shortest_over_sellers(d, s, i);
    } else {
        shortest_is_shortest(sellers.last().offers@, i);
    }
}

/// The lead time of a hit is no longer than any that a seller offers.
pub proof fn lead_times_are_the_shortest(hit: &SupHit, r: Option<i32>, s: int, i: int)
    requires
        call_ensures(min_factory_lead_days, (hit,), r),
        0 <= s < hit.sellers@.len(),
        0 <= i < hit.sellers@[s].offers@.len(),
        hit.sellers@[s].offers@[i].factory_lead_days is Some,
    ensures
        r is Some,
        r->0 <= hit.sellers@[s].offers@[i].factory_lead_days->0,
{
    shortest_over_sellers(hit.sellers@, s, i);
}

/// Each seller with a name is listed, in order, with the most that it has in one offer.
pub proof fn named_sellers_are_listed(sellers: Seq<SupSeller>, seller: SupSeller, i: int)
    ensures
        seller.company is None ==> named_sellers(sellers.push(seller)) == named_sellers(sellers),
        seller.company is Some ==> ({
            let all = named_sellers(sellers.push(seller));
            &&& all.len() == named_sellers(sellers).len() + 1
            &&& all.drop_last() == named_sellers(sellers)
            &&& all.last().name == seller.company->0@
            &&& 0 <= i < seller.offers@.len() && seller.offers@[i].inventory_level is Some
                ==> seller.offers@[i].inventory_level->0 <= all.last().inventory_level
            &&& seller.offers@.len() == 0 ==> all.last().inventory_level == 0
        }),
        named_sellers(Seq::empty()).len() == 0,
{
    assert(sellers.push(seller).drop_last() =~= sellers);
    assert(sellers.push(seller).last() == seller);
    largest_is_largest(seller.offers@, i);
    if seller.company is Some {
        assert(named_sellers(sellers.push(seller)).drop_last() =~= named_sellers(sellers));
    }
}

/// A match says what the hit says: its number, its maker, its stock and its life; it is
/// exact where the maker was asked for, in stock where there is any.
pub proof fn matches_say_what_the_hit_says(hits: &Vec<SupHit>, input: &MatchInput, i: usize, r: MatchResult)
    requires
        call_ensures(map_one_result, (hits, input, i), r),
    ensures
        r@.input_index == i,
        !r@.cached && r@.error_detail is None,
        hits@.len() == 0 ==> r@.match_status == MatchStatus::NoMatch && r@.availability_status
            == AvailabilityStatus::NoMatch && r@.total_avail == 0 && r@.lifecycle_status == LifecycleStatus::Unknown,
        hits@.len() == 1 ==> ({
            let hit = hits@[0];
            &&& r@.matched_mpn == hit.mpn.deep_view()
            &&& r@.matched_manufacturer == hit.manufacturer.deep_view()
            &&& hit.total_avail is Some ==> r@.total_avail == hit.total_avail->0
            &&& hit.total_avail is None ==> r@.total_avail == 0
            &&& r@.total_avail > 0 ==> r@.availability_status == AvailabilityStatus::InStock
            &&& r@.total_avail <= 0 ==> r@.availability_status == AvailabilityStatus::OutOfStock
            &&& r@.lifecycle_status == lifecycle_of(hit.lifecycle_status.deep_view())
            &&& r@.factory_lead_days == shortest_of_all(hit.sellers@)
            &&& r@.top_sellers == named_sellers(hit.sellers@)
            &&& input@.manufacturer is Some && hit.manufacturer is Some && eq_ascii_case(
                trimmed(hit.manufacturer->0@),
                trimmed(input@.manufacturer->0),
            ) ==> r@.match_status == MatchStatus::Exact
            &&& input@.manufacturer is None || hit.manufacturer is None ==> r@.match_status == MatchStatus::Fuzzy
        }),
{
    if hits@.len() == 1 && input@.manufacturer is Some {
        first_of_maker_is_first(hits@, input@.manufacturer->0);
    }
}

/// The matches of a batch stand in its order, counted from its start; a part without an
/// answer has no match.
pub proof fn batches_keep_their_order(lists: &Vec<Vec<SupHit>>, inputs: &[MatchInput], start: usize, r: Vec<MatchResult>, i: int)
    requires
        start + inputs@.len() <= usize::MAX,
        call_ensures(map_batch_response, (lists, inputs, start), r),
        0 <= i < inputs@.len(),
    ensures
        r@.len() == inputs@.len(),
        r@[i]@.input_index == start + i,
        i >= lists@.len() ==> r@[i]@.match_status == MatchStatus::NoMatch,
        i < lists@.len() && lists@[i]@.len() == 0 ==> r@[i]@.match_status == MatchStatus::NoMatch,
        i < lists@.len() && lists@[i]@.len() == 1 ==> r@[i]@.matched_mpn == lists@[i]@[0].mpn.deep_view(),
{
    assert(r@[i]@ == matched(hits_at(lists@, i), inputs@[i]@, (start + i) as usize));
    if i < lists@.len() && inputs@[i]@.manufacturer is Some {
        first_of_maker_is_first(lists@[i]@, inputs@[i]@.manufacturer->0);
    }
}

/// A search that is asked too often is tried once more, and then given up; successes are
/// read.
pub proof fn searches_are_tried_twice(status: u16, attempts: usize, r: BatchStep)
    requires
        call_ensures(batch_step, (status, attempts), r),
    ensures
        r == BatchStep::Retry <==> status == 429 && attempts == 0,
        200 <= status <= 299 ==> r == BatchStep::Read,
        status == 429 && attempts > 0 ==> r == BatchStep::Fail,
        status >= 300 && status != 429 ==> r == BatchStep::Fail,
{
}

/// Twenty parts are asked for at once, and what is left at the end.
pub proof fn twenty_parts_at_once(total: usize, start: usize, r: usize)
    requires
        start <= total,
        call_ensures(batch_end, (total, start), r),
    ensures
        total - start >= 20 ==> r == start + 20,
        total - start < 20 ==> r == total,
{
}

/// Names are compared without blanks around them and in any case; a name that is missing
/// is like no other.
pub proof fn names_are_compared_loosely(a: Option<&str>, b: Option<&str>, r: bool)
    requires
        call_ensures(eq_case_insensitive, (a, b), r),
    ensures
        a is None || b is None ==> !r,
        a is Some && b is Some ==> (r <==> eq_ascii_case(trimmed(a->0@), trimmed(b->0@))),
{
}

/// Each part of a batch is asked for in its place, by its number and its maker.
pub proof fn each_part_of_a_batch_is_asked_for(lines: &[MatchInput], r: Json, i: int)
    requires
        call_ensures(build_graphql_request, (lines,), r),
        0 <= i < lines@.len(),
    ensures
        r@ is Object && r@->Object_0.len() == 2,
        r@->Object_0[0] == ("query"@, JsonView::Text(SUP_MULTI_MATCH_QUERY@)),
        r@->Object_0[1].0 == "variables"@ && r@->Object_0[1].1->Object_0[0].0 == "queries"@,
        r@->Object_0[1].1->Object_0[0].1->Array_0.len() == lines@.len(),
        ({
            let q = r@->Object_0[1].1->Object_0[0].1->Array_0[i]->Object_0;
            &&& q.len() == 2
            &&& q[0] == ("mpn"@, JsonView::Text(lines@[i]@.mpn))
            &&& lines@[i]@.manufacturer is Some ==> q[1] == (
                "manufacturer"@,
                JsonView::Text(lines@[i]@.manufacturer->0),
            )
            &&& lines@[i]@.manufacturer is None ==> q[1] == ("manufacturer"@, JsonView::Null)
        }),
{
}

/// Every failure to match parts is told by its kind.
pub proof fn failures_to_match_are_told(error: &ClientError, r: String, status: u16, e: ClientError)
    requires
        call_ensures(ClientError::message, (error,), r),
        call_ensures(status_error, (status,), e),
    ensures
        error is Request ==> r@ == "request error: "@ + error->Request_0@,
        error is Timeout ==> r@ == "request timed out"@,
        error is Auth && error->Auth_0 is TokenMissing ==> r@ == "auth error: "@ + "token missing in auth response"@,
        e is Request && e->Request_0@ == "status "@ + dec_nat(status as nat),
{
}

} // verus!
