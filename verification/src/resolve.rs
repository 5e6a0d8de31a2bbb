//! The exchange-data resolver: cache-first resolution with best-effort
//! write-back, and classification of remote outcomes.
//!
//! A resolution is one linear pass: cleanup, then lookup; on a hit the
//! cached snapshot is the result and the remote client is never involved;
//! on a miss or any cache-layer failure the caller performs one remote
//! fetch and completes the resolution with its outcome. Only the remote
//! path can fail a resolution.

use vstd::multiset::Multiset;
use vstd::prelude::*;

use crate::cache::CacheStore;
use crate::codec::{lemma_snapshot_roundtrip, snap_chars, snap_of_chars};
use crate::errors::{ApiError, CacheError, FetchError, RequestError};
use crate::models::{ApiResponse, ApiResponseError, SnapModel};

verus! {

broadcast use {vstd::multiset::group_multiset_axioms, vstd::multiset::group_multiset_properties};

/// Why the cache could not serve a snapshot and a remote fetch is needed.
#[derive(Debug)]
pub enum MissReason {
    /// Expiry cleanup failed; the cache is not consulted this resolution.
    CleanupFailed(CacheError),
    /// The lookup failed: a storage fault or a corrupt stored payload.
    LookupFailed(CacheError),
    /// Cleanup and lookup worked, but no row matches the code.
    NotCached,
}

/// The outcome of the cache phase of a resolution.
#[derive(Debug)]
pub enum CacheDecision {
    /// A cached snapshot: the resolution is complete and the remote
    /// client must not be called.
    UseCache(ApiResponse),
    /// The remote client must be called; says why the cache did not
    /// serve. Every cache-layer failure lands here rather than failing
    /// the resolution.
    FetchRemote(MissReason),
}

/// What the transport layer hands back from one remote fetch.
#[derive(Debug)]
pub enum RemoteOutcome {
    /// The request produced no HTTP response; carries the transport
    /// error's description.
    Transport(String),
    /// An HTTP success whose body parsed as a snapshot.
    Parsed(ApiResponse),
    /// An HTTP success whose body did not parse as a snapshot.
    BadPayload(String),
    /// An HTTP failure status; carries the raw response body.
    ErrorStatus(String),
}

/// The cache phase: purge expired rows, then look the code up. Returns
/// the cached snapshot on a hit; otherwise says why a remote fetch is
/// needed. No cache-layer failure escapes this function.
pub fn resolve_from_cache(store: &mut CacheStore, from_currency: &str, now: u64) -> (r:
    CacheDecision)
    ensures
        match r {
            CacheDecision::UseCache(s) => {
                &&& final(store).rows() == old(store).rows().filter(
                    |row: (Seq<char>, u64, Seq<char>)| row.1 >= now,
                )
                &&& exists|e: u64, d: Seq<char>|
                    final(store).rows().contains((from_currency@, e, d)) && e >= now
                        && snap_of_chars(d) == Some(s.model())
                &&& s.model().shaped()
            },
            CacheDecision::FetchRemote(reason) => match reason {
                MissReason::CleanupFailed(e) => final(store).rows() == old(store).rows() && e
                    is StorageError,
                MissReason::LookupFailed(e) => {
                    &&& final(store).rows() == old(store).rows().filter(
                        |row: (Seq<char>, u64, Seq<char>)| row.1 >= now,
                    )
                    &&& e is StorageError || e is DeserializeError
                },
                MissReason::NotCached => {
                    &&& final(store).rows() == old(store).rows().filter(
                        |row: (Seq<char>, u64, Seq<char>)| row.1 >= now,
                    )
                    &&& forall|e: u64, d: Seq<char>|
                        !final(store).rows().contains((from_currency@, e, d))
                },
            },
        },
{
    match store.cleanup(now) {
        Err(e) => CacheDecision::FetchRemote(MissReason::CleanupFailed(e)),
        Ok(_) => match store.get(from_currency) {
            Ok(Some(s)) => CacheDecision::UseCache(s),
            Ok(None) => CacheDecision::FetchRemote(MissReason::NotCached),
            Err(e) => CacheDecision::FetchRemote(MissReason::LookupFailed(e)),
        },
    }
}

/// The `error-type` field of a provider error body, when the body is JSON
/// carrying one; what is extracted depends on the body text alone.
pub uninterp spec fn error_type_of(body: Seq<char>) -> Option<Seq<char>>;

/// Relies on `serde_json::from_str::<Value>` and `serde_json::Value::get`
/// and `as_str`: parses the provider's error body and extracts its
/// `error-type` string, `None` when the body is not JSON or has no such
/// string field.
#[verifier::external_body]
fn parse_error_body(body: &str) -> (r: Option<ApiResponseError>)
    ensures
        match r {
            Some(p) => error_type_of(body@) == Some(p.error_type@),
            None => error_type_of(body@) is None,
        },
{
    let v: serde_json::Value = serde_json::from_str(body).ok()?;
    let et = v.get("error-type")?.as_str()?;
    Some(ApiResponseError { error_type: et.to_owned() })
}

/// The closed-then-open classification of the provider's `error-type`
/// string `et`: five known codes, everything else in the catch-all.
pub open spec fn classified(et: Seq<char>, from: Seq<char>, r: ApiError) -> bool {
    if et == "unsupported-code"@ {
        r matches ApiError::UnsupportedCode(c) && c@ == from
    } else if et == "malformed-request"@ {
        r == ApiError::MalformedRequest()
    } else if et == "invalid-key"@ {
        r == ApiError::InvalidKey()
    } else if et == "inactive-account"@ {
        r == ApiError::InactiveAccount()
    } else if et == "quota-reached"@ {
        r == ApiError::QuotaReached()
    } else {
        r matches ApiError::UnknownError(u) && u@ == et
    }
}

/// Maps a provider error payload to the error taxonomy; never a silent
/// default: unrecognized codes are returned verbatim in the catch-all.
pub fn classify_error_type(err: &ApiResponseError, from_currency: &str) -> (r: ApiError)
    ensures
        classified(err.error_type@, from_currency@, r),
{
    if err.error_type == "unsupported-code".to_owned() {
        ApiError::UnsupportedCode(from_currency.to_owned())
    } else if err.error_type == "malformed-request".to_owned() {
        ApiError::MalformedRequest()
    } else if err.error_type == "invalid-key".to_owned() {
        ApiError::InvalidKey()
    } else if err.error_type == "inactive-account".to_owned() {
        ApiError::InactiveAccount()
    } else if err.error_type == "quota-reached".to_owned() {
        ApiError::QuotaReached()
    } else {
        ApiError::UnknownError(err.error_type.clone())
    }
}

/// Completes a resolution from the remote outcome. The caller-visible
/// result is determined solely by the outcome: a parsed payload is the
/// result, and it is written back to the cache best-effort — a write-back
/// failure never fails the resolution; every other outcome is the
/// resolution's terminal error, and leaves the store untouched.
pub fn parse_response(from_currency: &str, outcome: RemoteOutcome, store: &mut CacheStore) -> (r:
    Result<ApiResponse, FetchError>)
    ensures
        (r is Ok) == (outcome matches RemoteOutcome::Parsed(_)),
        match outcome {
            RemoteOutcome::Parsed(s) => {
                &&& r == Ok::<ApiResponse, FetchError>(s)
                &&& (final(store).rows() == old(store).rows().insert(
                    (s.base_code@, s.time_next_update_unix, snap_chars(s.model())),
                ) || final(store).rows() == old(store).rows())
            },
            RemoteOutcome::Transport(m) => r == Err::<ApiResponse, FetchError>(
                FetchError::Request(RequestError::RequestError(m)),
            ) && *final(store) == *old(store),
            RemoteOutcome::BadPayload(m) => r == Err::<ApiResponse, FetchError>(
                FetchError::Deserialize(m),
            ) && *final(store) == *old(store),
            RemoteOutcome::ErrorStatus(body) => *final(store) == *old(store) && match error_type_of(
                body@,
            ) {
                Some(et) => r matches Err(FetchError::Api(a)) && classified(
                    et,
                    from_currency@,
                    a,
                ),
                None => r matches Err(FetchError::Deserialize(_)),
            },
        },
{
    match outcome {
        RemoteOutcome::Transport(m) => Err(FetchError::Request(RequestError::RequestError(m))),
        RemoteOutcome::BadPayload(m) => Err(FetchError::Deserialize(m)),
        RemoteOutcome::Parsed(s) => {
            let _ignored = store.add(&s);
            Ok(s)
        },
        RemoteOutcome::ErrorStatus(body) => match parse_error_body(body.as_str()) {
            Some(p) => Err(FetchError::Api(classify_error_type(&p, from_currency))),
            None => Err(FetchError::Deserialize("unrecognized error body".to_owned())),
        },
    }
}

/// Expiry purge semantics: a cleaned table keeps a row exactly when its
/// expiry has not passed, at the row's full multiplicity.
pub proof fn lemma_purge_row_membership(
    rows: Multiset<(Seq<char>, u64, Seq<char>)>,
    now: u64,
    row: (Seq<char>, u64, Seq<char>),
)
    ensures
        rows.filter(|r2: (Seq<char>, u64, Seq<char>)| r2.1 >= now).count(row) == if row.1 >= now {
            rows.count(row)
        } else {
            0
        },
{
}

/// A fetched snapshot, written back, is served by the next resolution: in
/// a table that had no row for the snapshot's code, after inserting its
/// row and purging at any time not past its expiry, exactly that row is
/// present for the code, and its payload decodes back to the snapshot.
pub proof fn lemma_fetch_then_cache_hit(
    rows: Multiset<(Seq<char>, u64, Seq<char>)>,
    m: SnapModel,
    now: u64,
)
    requires
        m.shaped(),
        forall|e: u64, d: Seq<char>| !rows.contains((m.base, e, d)),
        now <= m.next,
    ensures
        ({
            let row = (m.base, m.next, snap_chars(m));
            let live = rows.insert(row).filter(|r2: (Seq<char>, u64, Seq<char>)| r2.1 >= now);
            &&& live.contains(row)
            &&& forall|e: u64, d: Seq<char>|
                live.contains((m.base, e, d)) ==> (m.base, e, d) == row
            &&& snap_of_chars(snap_chars(m)) == Some(m)
        }),
{
    lemma_snapshot_roundtrip(m);
    let row = (m.base, m.next, snap_chars(m));
    let inserted = rows.insert(row);
    let live = inserted.filter(|r2: (Seq<char>, u64, Seq<char>)| r2.1 >= now);
    assert(inserted.count(row) >= 1);
    assert(live.count(row) == inserted.count(row));
    assert forall|e: u64, d: Seq<char>|
        live.contains((m.base, e, d)) implies (m.base, e, d) == row by {
        let other = (m.base, e, d);
        if other != row {
            assert(inserted.count(other) == rows.count(other));
            assert(!rows.contains(other));
        }
    }
}

} // verus!

