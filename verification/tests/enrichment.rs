use prokuro::clock::parse_moment;
use prokuro::dynamo::{get_n, get_s, new_item, put_n, put_s};
use prokuro::enrichment::cache::{
    cache_key, cache_rows, fan_out, is_cacheable, line_keys, served_form, stored_form, unique_keys,
    KeyedResult,
};
use prokuro::enrichment::drain::{resolve_query, split_claimed};
use prokuro::enrichment::lines::{enrich_lines, missing_parts, wanted_keys, wanted_parts};
use prokuro::enrichment::metrics::{
    digikey_cache_hit, digikey_http_429, enrichment_nightly_refreshed, Metrics,
};
use prokuro::enrichment::nexar::auth::{
    is_token_fresh, read_token, reusable_token, token_request, AuthError, CachedToken, TokenResponse,
};
use prokuro::enrichment::nexar::client::{
    batch_end, batch_step, map_batch_response, map_lifecycle_status, AvailabilityStatus as NexarAvailability,
    BatchStep, LifecycleStatus as NexarLifecycle, MatchInput, MatchResult, MatchStatus as NexarMatch,
    SupHit, SupOffer, SupSeller,
};
use prokuro::enrichment::providers::digikey::dto::{Classifications, Named, Product, ProductStatus};
use prokuro::enrichment::providers::digikey::provider::{
    map_product, map_product_at, parse_lead_weeks, product_step, product_url, weeks_to_days, ProductStep,
};
use prokuro::enrichment::providers::digikey::rate_limit::{
    require_limit, RateLimiter, SlotStep, MINUTE_NANOS, SECOND_NANOS, SLACK_NANOS,
};
use prokuro::enrichment::providers::fallback::{Fallback, FallbackStep};
use prokuro::enrichment::providers::mouser::{
    map_lifecycle, map_part_at, parse_lead_days, read_search, require_key, MouserPart,
};
use prokuro::enrichment::store::{
    chunk_end, distinct_keys, parse_unresolved_item, resting, take_parts, unresolved_row, Claim,
    ClaimRules, StoreError, UnresolvedItem,
};
use prokuro::enrichment::store_item::{item_to_result, result_to_item};
use prokuro::enrichment::sync::SyncProgress;
use prokuro::enrichment::types::{
    normalize_manufacturer, normalize_mpn, parse_part_key, part_key, query_from_key, PartQuery, PartResult,
    ProviderError,
};
use prokuro::enrichment::worker::{outcome, outcome_at, Outcome};
use prokuro::model::enrichment::{
    AvailabilityStatus, EnrichInput, EnrichSource, LifecycleStatus, MatchStatus,
};
use prokuro::strmap::StrMap;

fn sample_result(label: &str) -> MatchResult {
    MatchResult {
        input_index: 0,
        nexar_part_id: None,
        matched_mpn: Some(label.to_string()),
        matched_manufacturer: None,
        match_status: NexarMatch::Exact,
        total_avail: 1,
        availability_status: NexarAvailability::InStock,
        lifecycle_status: NexarLifecycle::Active,
        factory_lead_days: None,
        top_sellers: Vec::new(),
        cached: false,
        error_detail: None,
    }
}

fn error_result() -> MatchResult {
    MatchResult {
        input_index: 0,
        nexar_part_id: None,
        matched_mpn: None,
        matched_manufacturer: None,
        match_status: NexarMatch::NoMatch,
        total_avail: 0,
        availability_status: NexarAvailability::Error,
        lifecycle_status: NexarLifecycle::Unknown,
        factory_lead_days: None,
        top_sellers: Vec::new(),
        cached: false,
        error_detail: Some("provider quota exceeded".into()),
    }
}

fn sample_part(mpn: &str, manufacturer: &str, avail: i64) -> PartResult {
    PartResult {
        provider_part_id: Some(format!("{mpn}-ND")),
        matched_mpn: Some(mpn.into()),
        matched_manufacturer: Some(manufacturer.into()),
        match_status: MatchStatus::Exact,
        availability_status: if avail > 0 {
            AvailabilityStatus::InStock
        } else {
            AvailabilityStatus::OutOfStock
        },
        lifecycle_status: LifecycleStatus::Active,
        total_avail: avail,
        factory_lead_days: Some(14),
        hts_code: Some("8542.31.00".into()),
        country_of_origin: Some("MY".into()),
        category: Some("Integrated Circuits".into()),
        fetched_at: "2026-07-16T12:00:00Z".into(),
    }
}

fn input(mpn: &str, manufacturer: Option<&str>) -> MatchInput {
    MatchInput { mpn: mpn.into(), manufacturer: manufacturer.map(str::to_string) }
}

fn question(mpn: &str, manufacturer: Option<&str>) -> EnrichInput {
    EnrichInput { mpn: mpn.into(), manufacturer: manufacturer.map(str::to_string) }
}

#[test]
fn error_results_are_not_cacheable() {
    let error = error_result();
    let nomatch = MatchResult {
        availability_status: NexarAvailability::NoMatch,
        error_detail: None,
        ..error.clone()
    };
    assert!(!is_cacheable(&error));
    assert!(is_cacheable(&nomatch));
    assert!(is_cacheable(&sample_result("ok")));
}

#[test]
fn put_cached_skips_error_results_without_writing() {
    let pairs = vec![(input("X", None), error_result())];
    let cacheable: Vec<_> = pairs.iter().filter(|(_, result)| is_cacheable(result)).collect();
    assert!(cacheable.is_empty());
    assert!(cache_rows(&pairs).is_empty());
}

#[test]
fn dedup_produces_unique_keys_and_fans_out_in_order() {
    let lines = vec![
        input("MPN-A", Some("Acme")),
        input("MPN-B", None),
        input("MPN-A", Some("Acme")),
        input("MPN-C", Some("Corp")),
        input("MPN-B", None),
        input("MPN-A", Some("Acme")),
        input("MPN-C", Some("Corp")),
        input("MPN-B", None),
        input("MPN-A", Some("Acme")),
        input("MPN-C", Some("Corp")),
    ];
    let keys = line_keys(&lines);
    let unique = unique_keys(&keys);
    assert_eq!(keys.len(), 10);
    assert_eq!(unique.len(), 3);
    let by_key = vec![
        KeyedResult { key: unique[0].clone(), result: sample_result("A") },
        KeyedResult { key: unique[1].clone(), result: sample_result("B") },
        KeyedResult { key: unique[2].clone(), result: sample_result("C") },
    ];
    let results = fan_out(&keys, &by_key);
    assert_eq!(results.len(), 10);
    assert_eq!(results[0].input_index, 0);
    assert_eq!(results[0].matched_mpn.as_deref(), Some("A"));
    assert_eq!(results[1].matched_mpn.as_deref(), Some("B"));
    assert_eq!(results[2].matched_mpn.as_deref(), Some("A"));
    assert_eq!(results[3].matched_mpn.as_deref(), Some("C"));
    assert_eq!(results[9].input_index, 9);
    assert_eq!(results[9].matched_mpn.as_deref(), Some("C"));
}

#[test]
fn cache_key_normalizes_mpn_and_manufacturer() {
    let left = cache_key(&MatchInput { mpn: " grm188 ".into(), manufacturer: Some("Murata".into()) });
    let right = cache_key(&MatchInput { mpn: "GRM188".into(), manufacturer: Some("murata".into()) });
    assert_eq!(left, right);
    assert_eq!(left, ("GRM188".into(), "murata".into()));
}

#[test]
fn kept_results_are_served_as_cached() {
    let stored = stored_form(&sample_result("A"));
    assert!(!stored.cached);
    let served = served_form(stored).expect("kept");
    assert!(served.cached);
    assert!(served_form(error_result()).is_none());
}

#[test]
fn token_in_past_needs_refresh() {
    let now = 1_000 * SECOND_NANOS;
    let token = CachedToken { access_token: "old".to_string(), expires_at: now - SECOND_NANOS };
    assert!(!is_token_fresh(&token, now));
}

#[test]
fn token_far_in_future_is_reused() {
    let now = 1_000 * SECOND_NANOS;
    let token = CachedToken { access_token: "fresh".to_string(), expires_at: now + 300 * SECOND_NANOS };
    assert!(is_token_fresh(&token, now));
    assert_eq!(reusable_token(&Some(token), now).as_deref(), Some("fresh"));
    assert_eq!(reusable_token(&None, now), None);
}

#[test]
fn token_replies_are_read() {
    let good = TokenResponse { access_token: Some("t".into()), expires_in: 5 };
    assert_eq!(read_token(200, "", Ok(good)).unwrap(), ("t".to_string(), 5));
    let empty = TokenResponse { access_token: None, expires_in: 5 };
    assert!(matches!(read_token(200, "", Ok(empty)), Err(AuthError::TokenMissing)));
    let refused = read_token(401, "no", Err("x".into())).unwrap_err();
    assert!(matches!(&refused, AuthError::RequestFailed(text) if text == "status 401 body no"));
    assert!(matches!(read_token(200, "{", Err("eof".into())), Err(AuthError::RequestFailed(_))));
    assert_eq!(
        token_request("id", "word"),
        "grant_type=client_credentials&client_id=id&client_secret=word&scope=supply.domain"
    );
}

fn hit(mpn: &str, manufacturer: &str) -> SupHit {
    SupHit {
        mpn: Some(mpn.into()),
        manufacturer: Some(manufacturer.into()),
        total_avail: Some(1200),
        lifecycle_status: Some("active".into()),
        sellers: vec![SupSeller {
            company: Some("Shop".into()),
            offers: vec![
                SupOffer { inventory_level: Some(700), factory_lead_days: Some(30) },
                SupOffer { inventory_level: Some(500), factory_lead_days: Some(20) },
            ],
        }],
    }
}

#[test]
fn hit_maps_to_in_stock_active() {
    let inputs = vec![input("GRM188R71H104KA93D", Some("Murata"))];
    let result = map_batch_response(&vec![vec![hit("GRM188R71H104KA93D", "Murata")]], &inputs, 0);
    assert_eq!(result[0].availability_status, NexarAvailability::InStock);
    assert_eq!(result[0].match_status, NexarMatch::Exact);
    assert_eq!(result[0].matched_mpn.as_deref(), Some("GRM188R71H104KA93D"));
    assert_eq!(result[0].lifecycle_status, NexarLifecycle::Active);
    assert_eq!(result[0].factory_lead_days, Some(20));
}

#[test]
fn miss_maps_to_no_match() {
    let inputs = vec![input("DOES-NOT-EXIST", Some("Unknown"))];
    let result = map_batch_response(&vec![vec![]], &inputs, 0);
    assert_eq!(result[0].availability_status, NexarAvailability::NoMatch);
    assert_eq!(result[0].match_status, NexarMatch::NoMatch);
}

#[test]
fn batches_keep_their_places() {
    let inputs = vec![input("A", None), input("B", None)];
    let result = map_batch_response(&vec![vec![hit("A", "X")]], &inputs, 40);
    assert_eq!(result[0].input_index, 40);
    assert_eq!(result[1].input_index, 41);
    assert_eq!(result[1].match_status, NexarMatch::NoMatch);
    assert_eq!(batch_end(45, 40), 45);
    assert_eq!(batch_end(45, 0), 20);
}

#[test]
fn batches_are_retried_once() {
    assert_eq!(batch_step(429, 0), BatchStep::Retry);
    assert_eq!(batch_step(429, 1), BatchStep::Fail);
    assert_eq!(batch_step(200, 0), BatchStep::Read);
    assert_eq!(batch_step(500, 0), BatchStep::Fail);
    assert_eq!(map_lifecycle_status(None), NexarLifecycle::Unknown);
}

#[test]
fn normalize_mpn_trims_and_uppercases() {
    assert_eq!(normalize_mpn("  lm358dr "), "LM358DR");
}

#[test]
fn part_key_includes_manufacturer() {
    assert_eq!(part_key("lm358dr", Some("Texas Instruments")), "LM358DR#TEXAS INSTRUMENTS");
    assert_eq!(part_key("lm358dr", None), "LM358DR#UNKNOWN");
    assert_eq!(part_key("lm358dr", Some("  ")), "LM358DR#UNKNOWN");
}

#[test]
fn parse_part_key_round_trip() {
    let pk = part_key("C0402", Some("Murata"));
    let (mpn, mfr) = parse_part_key(&pk).expect("parse");
    assert_eq!(mpn, "C0402");
    assert_eq!(mfr, "MURATA");
}

#[test]
fn status_enums_serialize_pascal_case() {
    assert_eq!(AvailabilityStatus::InStock.as_str(), "InStock");
    assert_eq!(MatchStatus::Pending.as_str(), "Pending");
}

#[test]
fn keys_lead_back_to_queries() {
    let query = query_from_key("ABC#MURATA").expect("key");
    assert_eq!(query.mpn, "ABC");
    assert_eq!(query.manufacturer.as_deref(), Some("MURATA"));
    assert_eq!(query_from_key("ABC#UNKNOWN").expect("key").manufacturer, None);
    assert!(query_from_key("ABC").is_none());
    assert_eq!(normalize_manufacturer(None), "UNKNOWN");
    assert_eq!(PartQuery { mpn: "a".into(), manufacturer: None }.part_key(), "A#UNKNOWN");
}

#[test]
fn fallback_propagates_rate_limit_instead_of_nomatch() {
    let mut state = Fallback::new();
    for answer in [Err(ProviderError::RateLimited), Ok(None)] {
        state = match state.take_answer(answer) {
            FallbackStep::Next(next) => next,
            FallbackStep::Found(_) => panic!("nothing to find"),
        };
    }
    let err = state.finish().expect_err("rate limit must surface");
    assert!(matches!(err, ProviderError::RateLimited));
}

#[test]
fn fallback_clean_miss_when_all_providers_miss() {
    let mut state = Fallback::new();
    for answer in [Ok(None), Ok(None)] {
        state = match state.take_answer(answer) {
            FallbackStep::Next(next) => next,
            FallbackStep::Found(_) => panic!("nothing to find"),
        };
    }
    assert!(state.finish().expect("ok").is_none());
}

#[test]
fn fallback_stops_at_the_first_find() {
    match Fallback::new().take_answer(Ok(Some(sample_part("A", "X", 1)))) {
        FallbackStep::Found(part) => assert_eq!(part.total_avail, 1),
        FallbackStep::Next(_) => panic!("should be found"),
    }
}

#[test]
fn rows_read_back_as_parts() {
    let part = sample_part("LM358DR", "Texas Instruments", 99);
    let row = result_to_item("LM358DR#TEXAS INSTRUMENTS", &part);
    assert_eq!(get_s(&row, "pk").as_deref(), Some("LM358DR#TEXAS INSTRUMENTS"));
    let read = item_to_result(&row).expect("part");
    assert_eq!(read.total_avail, 99);
    assert_eq!(read.fetched_at, "2026-07-16T12:00:00Z");
    assert_eq!(read.match_status, MatchStatus::Exact);
    assert_eq!(read.factory_lead_days, Some(14));
    assert_eq!(read.hts_code.as_deref(), Some("8542.31.00"));
}

#[test]
fn missing_part_is_looked_up_and_answered_live() {
    let lines = vec![question("NEWPART", Some("Acme")), question("newpart", Some("acme"))];
    let wanted = wanted_parts(&lines);
    assert_eq!(wanted_keys(&wanted), vec!["NEWPART#ACME"]);
    let cached: StrMap<PartResult> = StrMap::new();
    let missing = missing_parts(wanted, &cached);
    assert_eq!(missing.len(), 1);
    let mut live: StrMap<PartResult> = StrMap::new();
    live.insert("NEWPART#ACME", sample_part("NEWPART", "Acme", 42));
    let results = enrich_lines(&lines, &cached, &live);
    assert_eq!(results.len(), 2);
    assert_eq!(results[0].total_avail, 42);
    assert_eq!(results[0].source, Some(EnrichSource::LiveMiss));
    assert_eq!(results[1].input_index, 1);
}

#[test]
fn cached_part_is_answered_without_a_lookup() {
    let lines = vec![question("c0402", Some("murata"))];
    let mut cached: StrMap<PartResult> = StrMap::new();
    cached.insert(&part_key("C0402", Some("Murata")), sample_part("C0402", "Murata", 5000));
    assert!(missing_parts(wanted_parts(&lines), &cached).is_empty());
    let results = enrich_lines(&lines, &cached, &StrMap::new());
    assert_eq!(results[0].availability_status, AvailabilityStatus::InStock);
    assert_eq!(results[0].total_avail, 5000);
    assert_eq!(results[0].source, Some(EnrichSource::Cache));
    assert_eq!(results[0].hts_code.as_deref(), Some("8542.31.00"));
}

#[test]
fn unmatched_part_is_pending_for_the_customer() {
    let lines = vec![question("NOSUCHPART", Some("Acme"))];
    let stored = match outcome_at(Ok(None), "2026-01-01T00:00:00Z".into()) {
        Outcome::Store { part, unresolved } => {
            assert!(unresolved);
            part
        }
        Outcome::Fail { .. } => panic!("a miss is stored"),
    };
    assert_eq!(stored.availability_status, AvailabilityStatus::NoMatch);
    let mut live: StrMap<PartResult> = StrMap::new();
    live.insert("NOSUCHPART#ACME", stored);
    let results = enrich_lines(&lines, &StrMap::new(), &live);
    assert_eq!(results[0].match_status, MatchStatus::Pending);
    assert_eq!(results[0].availability_status, AvailabilityStatus::Pending);
}

#[test]
fn unmatched_part_of_a_provider_is_answered_live() {
    let lines = vec![question("ODD", Some("Acme"))];
    let mut part = sample_part("ODD", "Acme", 0);
    part.match_status = MatchStatus::NoMatch;
    let mut live: StrMap<PartResult> = StrMap::new();
    live.insert("ODD#ACME", part);
    let results = enrich_lines(&lines, &StrMap::new(), &live);
    assert_eq!(results[0].match_status, MatchStatus::NoMatch);
    assert_eq!(results[0].source, Some(EnrichSource::LiveMiss));
}

#[test]
fn keys_differ_where_parts_do() {
    let key = |mpn: &str, manufacturer: Option<&str>| part_key(mpn, manufacturer);
    assert_eq!(key(" lm358 ", Some(" ti ")), key("LM358", Some("TI")));
    assert_eq!(key("lm358", Some(" ")), key("LM358", None));
    assert_ne!(key("LM358", Some("TI")), key("LM358", None));
    assert_ne!(key("LM358", Some("TI")), key("LM358D", Some("TI")));
    assert_eq!(key("A#B", Some("C")), key("A", Some("B#C")));
}

#[test]
fn line_without_a_part_number_has_no_match() {
    let results = enrich_lines(&vec![question("  ", None)], &StrMap::new(), &StrMap::new());
    assert_eq!(results[0].match_status, MatchStatus::NoMatch);
}

#[test]
fn worker_tells_rate_limits_from_other_failures() {
    match outcome(Err(ProviderError::RateLimited)) {
        Outcome::Fail { rate_limited, .. } => assert!(rate_limited),
        Outcome::Store { .. } => panic!("a failure is not stored"),
    }
    match outcome(Err(ProviderError::Request("down".into()))) {
        Outcome::Fail { rate_limited, error } => {
            assert!(!rate_limited);
            assert!(error.contains("down"));
        }
        Outcome::Store { .. } => panic!("a failure is not stored"),
    }
    match outcome(Ok(Some(sample_part("A", "X", 42)))) {
        Outcome::Store { part, unresolved } => {
            assert_eq!(part.total_avail, 42);
            assert!(!unresolved);
        }
        Outcome::Fail { .. } => panic!("a part is stored"),
    }
    match outcome(Ok(None)) {
        Outcome::Store { part, .. } => assert!(parse_moment(&part.fetched_at).is_some()),
        Outcome::Fail { .. } => panic!("a miss is stored"),
    }
}

#[test]
fn sync_stops_at_a_rate_limit() {
    let mut progress = SyncProgress::new();
    assert!(progress.take_part(None));
    assert!(progress.take_part(Some("provider request failed: down")));
    assert!(!progress.take_part(Some(&ProviderError::RateLimited.message())));
    assert_eq!(progress.refreshed, 1);
    assert!(progress.incomplete);
}

#[test]
fn digikey_product_maps_to_a_part() {
    let product = Product {
        digi_key_product_number: Some("GRM155R71C104KA88D-ND".into()),
        manufacturer_product_number: Some("GRM155R71C104KA88D".into()),
        manufacturer: Some(Named { name: Some("Mock Mfr".into()) }),
        quantity_available: Some(1234),
        manufacturer_lead_weeks: Some("2".into()),
        product_status: Some(ProductStatus { status: Some("Active".into()) }),
        discontinued: Some(false),
        end_of_life: Some(false),
        classifications: Some(Classifications { htsus_code: Some("8532.24.00".into()) }),
        category: Some(Named { name: Some("Capacitors".into()) }),
        country_of_origin: Some("JP".into()),
    };
    let found = map_product(product);
    assert_eq!(found.total_avail, 1234);
    assert_eq!(found.factory_lead_days, Some(14));
    assert_eq!(found.lifecycle_status, LifecycleStatus::Active);
    assert_eq!(found.hts_code.as_deref(), Some("8532.24.00"));
    assert_eq!(found.country_of_origin.as_deref(), Some("JP"));
    assert_eq!(found.match_status, MatchStatus::Exact);
    assert!(parse_moment(&found.fetched_at).is_some());
}

#[test]
fn bare_digikey_product_is_out_of_stock() {
    let product = Product {
        digi_key_product_number: None,
        manufacturer_product_number: None,
        manufacturer: None,
        quantity_available: None,
        manufacturer_lead_weeks: None,
        product_status: None,
        discontinued: Some(true),
        end_of_life: None,
        classifications: None,
        category: None,
        country_of_origin: None,
    };
    let found = map_product_at(product, "then".into());
    assert_eq!(found.availability_status, AvailabilityStatus::OutOfStock);
    assert_eq!(found.lifecycle_status, LifecycleStatus::Discontinued);
    assert_eq!(found.fetched_at, "then");
}

#[test]
fn digikey_replies_lead_to_steps() {
    assert_eq!(product_step(404, None, 0), ProductStep::NotFound);
    assert_eq!(product_step(429, Some("7"), 0), ProductStep::RetryAfter(7));
    assert_eq!(product_step(429, Some("soon"), 2), ProductStep::RetryAfter(1));
    assert_eq!(product_step(429, Some("0"), 2), ProductStep::RetryAfter(1));
    assert_eq!(product_step(429, None, 3), ProductStep::RateLimited);
    assert_eq!(product_step(500, None, 0), ProductStep::Failed);
    assert_eq!(product_step(200, None, 0), ProductStep::Read);
    assert_eq!(
        product_url("https://api.digikey.com", "A/B C"),
        "https://api.digikey.com/products/v4/search/A%2FB%20C/productdetails"
    );
    assert_eq!(parse_lead_weeks("16 Weeks"), Some(16));
    assert_eq!(weeks_to_days(2), 14);
}

#[test]
fn mouser_lead_times_are_read() {
    assert_eq!(parse_lead_days(Some("12 Weeks")), Some(84));
    assert_eq!(parse_lead_days(Some("10 days")), Some(10));
    assert_eq!(parse_lead_days(Some("9")), Some(9));
    assert_eq!(parse_lead_days(Some("soon")), None);
    assert_eq!(parse_lead_days(None), None);
    assert_eq!(map_lifecycle(None), LifecycleStatus::Active);
}

#[test]
fn mouser_replies_are_read() {
    let refused = read_search(vec![Some("bad key".into()), None, Some("again".into())], vec![]).unwrap_err();
    assert!(matches!(refused, ProviderError::Request(text) if text == "bad key; again"));
    assert!(read_search(vec![], vec![]).unwrap().is_none());
    let part = MouserPart {
        mouser_part_number: Some("81-X".into()),
        manufacturer_part_number: Some("X".into()),
        manufacturer: Some("Murata".into()),
        availability_in_stock: Some(3),
        lifecycle_status: None,
        category: None,
        lead_time: Some("2 Weeks".into()),
    };
    let found = read_search(vec![], vec![part]).unwrap().expect("part");
    let query = PartQuery { mpn: "x".into(), manufacturer: None };
    let mapped = map_part_at(found, &query, "then".into());
    assert_eq!(mapped.provider_part_id.as_deref(), Some("81-X"));
    assert_eq!(mapped.total_avail, 3);
    assert_eq!(mapped.factory_lead_days, Some(14));
    assert_eq!(require_key(Some("k")).unwrap(), "k");
    assert!(matches!(require_key(Some(" ")), Err(ProviderError::NotConfigured(_))));
}

#[test]
fn minute_limit_holds_back_requests() {
    let mut limiter = RateLimiter::with_limits(2, 3);
    let start = 5 * SECOND_NANOS;
    assert_eq!(limiter.take_minute(start), SlotStep::Taken);
    assert_eq!(limiter.take_minute(start + SECOND_NANOS), SlotStep::Taken);
    assert_eq!(
        limiter.take_minute(start + 2 * SECOND_NANOS),
        SlotStep::Wait(MINUTE_NANOS - 2 * SECOND_NANOS + SLACK_NANOS)
    );
    assert_eq!(limiter.take_minute(start + MINUTE_NANOS + SLACK_NANOS), SlotStep::Taken);
}

#[test]
fn day_limit_refuses_requests() {
    let mut limiter = RateLimiter::with_limits(2, 1);
    assert!(limiter.take_day(7).is_ok());
    assert!(matches!(limiter.take_day(7), Err(ProviderError::RateLimited)));
    assert!(limiter.take_day(8).is_ok());
}

#[test]
fn pauses_end() {
    let mut limiter = RateLimiter::with_limits(2, 1);
    limiter.pause_for(0, 0);
    assert_eq!(limiter.pause_left(0), Some(SECOND_NANOS));
    limiter.end_pause(2 * SECOND_NANOS);
    assert_eq!(limiter.pause_left(2 * SECOND_NANOS), None);
    limiter.observe_limits(Some(9), Some(8));
    assert_eq!(limiter.max_per_minute, 9);
    assert_eq!(limiter.max_per_day, 8);
}

#[test]
fn limits_come_from_settings() {
    assert_eq!(require_limit("X", Some("5"), 10).unwrap(), 5);
    assert!(require_limit("X", Some("0"), 10).is_err());
    assert!(require_limit("X", Some("11"), 10).is_err());
    assert!(require_limit("X", None, 10).is_err());
}

fn queued(pk: &str, first_seen: &str, attempts: u32, last: Option<&str>) -> prokuro::dynamo::Item {
    let mut row = new_item();
    put_s(&mut row, "pk", pk);
    put_s(&mut row, "first_seen", first_seen);
    put_n(&mut row, "attempt_count", &attempts.to_string());
    if let Some(last) = last {
        put_s(&mut row, "last_attempted_at", last);
    }
    row
}

#[test]
fn claims_skip_given_up_and_resting_parts() {
    let rules = ClaimRules { limit: 2, max_attempts: 3, backoff_secs: 60 };
    let now = parse_moment("2026-01-01T00:01:00Z").unwrap();
    let mut claim = Claim::new();
    claim.take_page(&vec![
        queued("LATE#X", "2026-01-01T00:00:00Z", 0, None),
        queued("DONE#X", "2026-01-01T00:00:00Z", 3, None),
        queued("REST#X", "2026-01-01T00:00:00Z", 1, Some("2026-01-01T00:00:30Z")),
        queued("LATE#X", "2026-01-01T00:00:00Z", 0, None),
        queued("EARLY#X", "2025-12-31T00:00:00Z", 1, Some("2026-01-01T00:00:00Z")),
    ]);
    let (claimed, given_up) = claim.finish(now, rules);
    let keys: Vec<&str> = claimed.iter().map(|item| item.pk.as_str()).collect();
    assert_eq!(keys, vec!["EARLY#X", "LATE#X"]);
    assert_eq!(given_up, vec!["DONE#X"]);
}

#[test]
fn oldest_ready_parts_are_claimed() {
    let rules = ClaimRules { limit: 1, max_attempts: 3, backoff_secs: 60 };
    let now = parse_moment("2026-01-01T00:01:00Z").unwrap();
    let mut claim = Claim::new();
    claim.take_page(&vec![
        queued("NEW#X", "2026-01-01T00:00:00Z", 0, None),
        queued("OLD#X", "2025-12-30T00:00:00Z", 0, None),
    ]);
    claim.take_page(&vec![
        queued("OLDEST#X", "2025-12-29T00:00:00Z", 0, None),
        queued("OLDER#X", "2025-12-01T00:00:00Z", 3, None),
    ]);
    let (claimed, given_up) = claim.finish(now, rules);
    assert_eq!(claimed.len(), 1);
    assert_eq!(claimed[0].pk, "OLDEST#X");
    assert_eq!(given_up, vec!["OLDER#X"]);
    let mut twice = Claim::new();
    twice.take_page(&vec![
        queued("A#X", "2026-01-01T00:00:00Z", 0, None),
        queued("A#X", "2025-12-30T00:00:00Z", 0, None),
    ]);
    let (claimed, _) = twice.finish(now, rules);
    assert_eq!(claimed[0].first_seen, "2025-12-30T00:00:00Z");
}

#[test]
fn fresh_rows_read_back() {
    let row = unresolved_row("A#B", "2026-01-01T00:00:00Z");
    let item = parse_unresolved_item(&row).expect("row");
    assert_eq!(item.pk, "A#B");
    assert_eq!(item.attempt_count, 0);
    assert_eq!(get_n(&row, "attempt_count").as_deref(), Some("0"));
    assert!(parse_unresolved_item(&new_item()).is_none());
    let now = parse_moment("2026-01-01T00:00:01Z").unwrap();
    assert!(!resting(&item, now, 30));
}

#[test]
fn drained_parts_are_split() {
    let claimed = vec![
        UnresolvedItem { pk: "A#B".into(), first_seen: "x".into(), attempt_count: 0, last_attempted_at: None },
        UnresolvedItem { pk: "C#D".into(), first_seen: "x".into(), attempt_count: 0, last_attempted_at: None },
    ];
    let mut cached: StrMap<PartResult> = StrMap::new();
    cached.insert("A#B", sample_part("A", "B", 1));
    let split = split_claimed(claimed, &cached);
    assert_eq!(split.resolved.len(), 1);
    assert_eq!(split.resolved[0].pk, "A#B");
    assert_eq!(resolve_query(&split.to_lookup[0]).unwrap().mpn, "C");
    let bad = UnresolvedItem { pk: "C".into(), first_seen: "x".into(), attempt_count: 0, last_attempted_at: None };
    assert!(resolve_query(&bad).is_err());
}

#[test]
fn pages_are_cut_into_chunks() {
    assert_eq!(chunk_end(250, 0, 100), 100);
    assert_eq!(chunk_end(250, 200, 100), 250);
    assert_eq!(
        distinct_keys(&vec!["b".to_string(), "a".to_string(), "b".to_string()]),
        vec!["b", "a"]
    );
    let mut parts: StrMap<PartResult> = StrMap::new();
    take_parts(&mut parts, &vec![result_to_item("A#B", &sample_part("A", "B", 5)), new_item()]);
    assert_eq!(parts.entries.len(), 1);
    assert_eq!(parts.get("A#B").map(|part| part.total_avail), Some(5));
}

#[test]
fn errors_have_messages() {
    assert!(StoreError::Dynamo("down".into()).message().contains("down"));
    assert!(ProviderError::NotConfigured("KEY".into()).message().contains("KEY"));
    assert!(AuthError::EnvVarMissing("ID".into()).message().contains("ID"));
}

#[test]
fn counters_count() {
    let mut m = Metrics::new();
    digikey_cache_hit(&mut m);
    digikey_cache_hit(&mut m);
    digikey_http_429(&mut m);
    enrichment_nightly_refreshed(&mut m, 5);
    assert_eq!((m.cache_hit, m.http_429, m.nightly_refreshed, m.live_miss), (2, 1, 5, 0));
}
