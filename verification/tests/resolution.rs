use currency_converter::cache::CacheStore;
use currency_converter::errors::{ApiError, FetchError, RequestError};
use currency_converter::resolve::{
    parse_response, resolve_from_cache, CacheDecision, MissReason, RemoteOutcome,
};
use currency_converter::{ApiResponse, RateEntry};

fn snapshot(base: &str, next: u64, rates: &[(&str, u64)]) -> ApiResponse {
    ApiResponse {
        base_code: base.to_string(),
        time_next_update_unix: next,
        conversion_rates: rates
            .iter()
            .map(|(c, r)| RateEntry { code: c.to_string(), rate_micro: *r })
            .collect(),
    }
}

/// A fake remote client that counts how often it is asked.
struct CountingClient {
    calls: usize,
    outcome_body: Option<ApiResponse>,
}

impl CountingClient {
    fn fetch(&mut self) -> RemoteOutcome {
        self.calls += 1;
        match &self.outcome_body {
            Some(s) => RemoteOutcome::Parsed(s.clone()),
            None => RemoteOutcome::Transport("no route to provider".to_string()),
        }
    }
}

fn resolve(
    store: &mut CacheStore,
    code: &str,
    now: u64,
    client: &mut CountingClient,
) -> Result<ApiResponse, FetchError> {
    match resolve_from_cache(store, code, now) {
        CacheDecision::UseCache(s) => Ok(s),
        CacheDecision::FetchRemote(_) => {
            let outcome = client.fetch();
            parse_response(code, outcome, store)
        }
    }
}

#[test]
fn live_cache_entry_skips_the_remote_client() {
    let mut store = CacheStore::init_in_memory().expect("in-memory store");
    let s = snapshot("USD", 1000, &[("GBP", 790_000)]);
    store.add(&s).expect("insert");
    let mut client = CountingClient { calls: 0, outcome_body: None };
    let got = resolve(&mut store, "USD", 500, &mut client).expect("cache hit");
    assert_eq!(client.calls, 0);
    assert_eq!(got.base_code, "USD");
    assert_eq!(got.conversion_rates[0].rate_micro, 790_000);
}

#[test]
fn miss_fetches_once_then_next_resolution_hits_the_cache() {
    let mut store = CacheStore::init_in_memory().expect("in-memory store");
    let fresh = snapshot("USD", 1000, &[("GBP", 790_000)]);
    let mut client = CountingClient { calls: 0, outcome_body: Some(fresh) };
    let first = resolve(&mut store, "USD", 500, &mut client).expect("fetched");
    assert_eq!(client.calls, 1);
    assert_eq!(first.base_code, "USD");
    let second = resolve(&mut store, "USD", 600, &mut client).expect("cached");
    assert_eq!(client.calls, 1, "the second resolution must not fetch");
    assert_eq!(second.base_code, "USD");
    assert_eq!(second.time_next_update_unix, 1000);
}

#[test]
fn expired_row_is_purged_then_lookup_misses() {
    let mut store = CacheStore::init_in_memory().expect("in-memory store");
    let stale = snapshot("EUR", 100, &[("USD", 1_080_000)]);
    store.add(&stale).expect("insert");
    let decision = resolve_from_cache(&mut store, "EUR", 500);
    assert!(matches!(
        decision,
        CacheDecision::FetchRemote(MissReason::NotCached)
    ));
}

#[test]
fn corrupt_row_does_not_block_a_working_remote_path() {
    let mut store = CacheStore::init_in_memory().expect("in-memory store");
    store.add_row("USD", 9999, "garbage").expect("raw insert");
    let decision = resolve_from_cache(&mut store, "USD", 500);
    assert!(matches!(
        decision,
        CacheDecision::FetchRemote(MissReason::LookupFailed(_))
    ));
    let fresh = snapshot("USD", 9000, &[("GBP", 790_000)]);
    let mut client = CountingClient { calls: 0, outcome_body: Some(fresh) };
    let got = resolve(&mut store, "USD", 500, &mut client).expect("remote succeeds");
    assert_eq!(client.calls, 1);
    assert_eq!(got.base_code, "USD");
}

#[test]
fn quota_reached_fails_resolution_and_writes_no_row() {
    let mut store = CacheStore::init_in_memory().expect("in-memory store");
    let decision = resolve_from_cache(&mut store, "USD", 500);
    assert!(matches!(
        decision,
        CacheDecision::FetchRemote(MissReason::NotCached)
    ));
    let body = "{\"result\":\"error\",\"documentation\":\"d\",\"terms-of-use\":\"t\",\"error-type\":\"quota-reached\"}";
    let outcome = RemoteOutcome::ErrorStatus(body.to_string());
    let r = parse_response("USD", outcome, &mut store);
    assert_eq!(r, Err(FetchError::Api(ApiError::QuotaReached())));
    // No row was written: the next resolution still misses.
    assert!(matches!(
        resolve_from_cache(&mut store, "USD", 500),
        CacheDecision::FetchRemote(MissReason::NotCached)
    ));
}

#[test]
fn transport_failure_is_a_request_error() {
    let mut store = CacheStore::init_in_memory().expect("in-memory store");
    let r = parse_response(
        "USD",
        RemoteOutcome::Transport("connection refused".to_string()),
        &mut store,
    );
    assert_eq!(
        r,
        Err(FetchError::Request(RequestError::RequestError(
            "connection refused".to_string()
        )))
    );
}

#[test]
fn unparsable_success_body_is_a_deserialize_error() {
    let mut store = CacheStore::init_in_memory().expect("in-memory store");
    let r = parse_response(
        "USD",
        RemoteOutcome::BadPayload("missing fields".to_string()),
        &mut store,
    );
    assert_eq!(r, Err(FetchError::Deserialize("missing fields".to_string())));
}

#[test]
fn unsupported_code_carries_the_requested_code() {
    let mut store = CacheStore::init_in_memory().expect("in-memory store");
    let body = "{\"error-type\":\"unsupported-code\"}";
    let r = parse_response("XXX", RemoteOutcome::ErrorStatus(body.to_string()), &mut store);
    assert_eq!(r, Err(FetchError::Api(ApiError::UnsupportedCode("XXX".to_string()))));
}

#[test]
fn known_error_codes_map_to_their_variants() {
    let mut store = CacheStore::init_in_memory().expect("in-memory store");
    let cases: &[(&str, ApiError)] = &[
        ("malformed-request", ApiError::MalformedRequest()),
        ("invalid-key", ApiError::InvalidKey()),
        ("inactive-account", ApiError::InactiveAccount()),
        ("quota-reached", ApiError::QuotaReached()),
    ];
    for (code, expected) in cases {
        let body = format!("{{\"error-type\":\"{}\"}}", code);
        let r = parse_response("USD", RemoteOutcome::ErrorStatus(body), &mut store);
        assert_eq!(r, Err(FetchError::Api(expected.clone())));
    }
}

#[test]
fn unknown_error_code_is_kept_verbatim() {
    let mut store = CacheStore::init_in_memory().expect("in-memory store");
    let body = "{\"error-type\":\"surprise-outage\"}";
    let r = parse_response("USD", RemoteOutcome::ErrorStatus(body.to_string()), &mut store);
    assert_eq!(
        r,
        Err(FetchError::Api(ApiError::UnknownError("surprise-outage".to_string())))
    );
}

#[test]
fn error_body_that_is_not_json_is_a_deserialize_error() {
    let mut store = CacheStore::init_in_memory().expect("in-memory store");
    let r = parse_response(
        "USD",
        RemoteOutcome::ErrorStatus("<html>503</html>".to_string()),
        &mut store,
    );
    assert!(matches!(r, Err(FetchError::Deserialize(_))));
}
