use currency_converter::cache::CacheStore;
use currency_converter::codec::{decode_snapshot, encode_snapshot};
use currency_converter::errors::CacheError;
use currency_converter::{ApiResponse, RateEntry};

fn snapshot(base: &str, next: u64, rates: &[(&str, u64)]) -> ApiResponse {
    ApiResponse {
        base_code: base.to_string(),
        time_next_update_unix: next,
        conversion_rates: rates
            .iter()
            .map(|(c, r)| RateEntry { code: c.to_string(), rate_micro: *r })
            .collect(),
    }
}

fn assert_same_snapshot(a: &ApiResponse, b: &ApiResponse) {
    assert_eq!(a.base_code, b.base_code);
    assert_eq!(a.time_next_update_unix, b.time_next_update_unix);
    assert_eq!(a.conversion_rates.len(), b.conversion_rates.len());
    for (x, y) in a.conversion_rates.iter().zip(b.conversion_rates.iter()) {
        assert_eq!(x.code, y.code);
        assert_eq!(x.rate_micro, y.rate_micro);
    }
}

#[test]
fn payload_round_trips() {
    let s = snapshot("USD", 1_700_000_000, &[("GBP", 790_000), ("JPY", 149_000_000)]);
    let text = encode_snapshot(&s);
    let back = decode_snapshot(&text).expect("decoding an encoded snapshot");
    assert_same_snapshot(&s, &back);
}

#[test]
fn garbage_payload_is_rejected() {
    assert!(matches!(
        decode_snapshot("not a snapshot"),
        Err(CacheError::DeserializeError(_))
    ));
    assert!(matches!(decode_snapshot(""), Err(CacheError::DeserializeError(_))));
}

#[test]
fn lookup_on_empty_store_misses() {
    let store = CacheStore::init_in_memory().expect("in-memory store");
    assert!(matches!(store.get("USD"), Ok(None)));
}

#[test]
fn added_snapshot_is_served_back() {
    let mut store = CacheStore::init_in_memory().expect("in-memory store");
    let s = snapshot("USD", 2000, &[("GBP", 790_000)]);
    store.add(&s).expect("insert");
    let got = store.get("USD").expect("lookup").expect("a cached row");
    assert_same_snapshot(&s, &got);
    assert!(matches!(store.get("EUR"), Ok(None)));
}

#[test]
fn cleanup_purges_expired_and_keeps_live_rows() {
    let mut store = CacheStore::init_in_memory().expect("in-memory store");
    let stale = snapshot("EUR", 40, &[("USD", 1_080_000)]);
    let live = snapshot("USD", 60, &[("GBP", 790_000)]);
    store.add(&stale).expect("insert stale");
    store.add(&live).expect("insert live");
    let deleted = store.cleanup(50).expect("cleanup");
    assert_eq!(deleted, 1);
    assert!(matches!(store.get("EUR"), Ok(None)));
    let kept = store.get("USD").expect("lookup").expect("live row kept");
    assert_same_snapshot(&live, &kept);
}

#[test]
fn cleanup_keeps_row_expiring_exactly_now() {
    let mut store = CacheStore::init_in_memory().expect("in-memory store");
    let s = snapshot("USD", 50, &[("GBP", 790_000)]);
    store.add(&s).expect("insert");
    assert_eq!(store.cleanup(50).expect("cleanup"), 0);
    assert!(store.get("USD").expect("lookup").is_some());
}

#[test]
fn corrupt_row_is_a_deserialize_error() {
    let mut store = CacheStore::init_in_memory().expect("in-memory store");
    store.add_row("USD", 9999, "garbage").expect("raw insert");
    assert!(matches!(store.get("USD"), Err(CacheError::DeserializeError(_))));
}

#[test]
fn cleanup_counts_every_expired_row() {
    let mut store = CacheStore::init_in_memory().expect("in-memory store");
    store.add_row("AAA", 1, "x").expect("raw insert");
    store.add_row("BBB", 2, "y").expect("raw insert");
    store.add_row("CCC", 300, "z").expect("raw insert");
    assert_eq!(store.cleanup(100).expect("cleanup"), 2);
    assert_eq!(store.cleanup(100).expect("cleanup"), 0);
}

fn pad20(n: u64) -> String {
    format!("{:020}", n)
}

#[test]
fn payload_format_is_fixed_width() {
    let payload = format!("USD{}GBP{}", pad20(500), pad20(790_000));
    let s = decode_snapshot(&payload).expect("well-formed payload");
    assert_eq!(s.base_code, "USD");
    assert_eq!(s.time_next_update_unix, 500);
    assert_eq!(s.conversion_rates.len(), 1);
    assert_eq!(s.conversion_rates[0].code, "GBP");
    assert_eq!(s.conversion_rates[0].rate_micro, 790_000);
}

#[test]
fn zero_rate_payload_is_rejected() {
    let payload = format!("USD{}GBP{}", pad20(500), pad20(0));
    assert!(matches!(
        decode_snapshot(&payload),
        Err(CacheError::DeserializeError(_))
    ));
}

#[test]
fn truncated_payload_is_rejected() {
    let payload = format!("USD{}GBP{}", pad20(500), pad20(790_000));
    let cut = &payload[..payload.len() - 1];
    assert!(matches!(decode_snapshot(cut), Err(CacheError::DeserializeError(_))));
}

#[test]
fn expiry_beyond_storage_range_is_a_storage_error() {
    let mut store = CacheStore::init_in_memory().expect("in-memory store");
    let s = snapshot("USD", u64::MAX, &[("GBP", 790_000)]);
    assert!(matches!(store.add(&s), Err(CacheError::StorageError(_))));
    assert!(matches!(store.get("USD"), Ok(None)));
}

#[test]
fn out_of_range_cleanup_fails_and_leaves_rows() {
    let mut store = CacheStore::init_in_memory().expect("in-memory store");
    let s = snapshot("USD", 2000, &[("GBP", 790_000)]);
    store.add(&s).expect("insert");
    assert!(matches!(store.cleanup(u64::MAX), Err(CacheError::StorageError(_))));
    let kept = store.get("USD").expect("lookup").expect("row still there");
    assert_same_snapshot(&s, &kept);
}
