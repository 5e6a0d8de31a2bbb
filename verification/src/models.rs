use vstd::prelude::*;

verus! {

/// One conversion-rate entry of a snapshot: a target currency code and the
/// rate in millionths (one unit of the base currency is worth
/// `rate_micro / 1_000_000` units of the target currency).
#[derive(Debug, Clone, PartialEq, Eq)]
pub struct RateEntry {
    pub code: String,
    pub rate_micro: u64,
}

/// A rate snapshot for one base currency: the unit of cached and fetched
/// data. `time_next_update_unix` is the absolute UNIX timestamp after which
/// the snapshot is stale; it doubles as the cache row's expiry.
#[derive(Debug, Clone, PartialEq, Eq)]
pub struct ApiResponse {
    pub base_code: String,
    pub time_next_update_unix: u64,
    pub conversion_rates: Vec<RateEntry>,
}

/// The provider's structured error payload, reduced to the field the
/// classification reads.
#[derive(Debug, Clone, PartialEq, Eq)]
pub struct ApiResponseError {
    pub error_type: String,
}

/// Mathematical model of a snapshot.
pub ghost struct SnapModel {
    pub base: Seq<char>,
    pub next: u64,
    pub rates: Seq<(Seq<char>, u64)>,
}

/// A currency code: exactly three ASCII uppercase letters.
pub open spec fn is_code(s: Seq<char>) -> bool {
    s.len() == 3 && forall|i: int| 0 <= i < 3 ==> 'A' <= #[trigger] s[i] && s[i] <= 'Z'
}

/// The rate for `code`, taking the first matching entry.
pub open spec fn rate_in(rates: Seq<(Seq<char>, u64)>, code: Seq<char>) -> Option<u64>
    decreases rates.len(),
{
    if rates.len() == 0 {
        None
    } else if rates[0].0 == code {
        Some(rates[0].1)
    } else {
        rate_in(rates.skip(1), code)
    }
}

impl SnapModel {
    /// Structural validity: what a decoded payload is guaranteed to satisfy.
    pub open spec fn shaped(self) -> bool {
        &&& is_code(self.base)
        &&& self.rates.len() >= 1
        &&& forall|i: int|
            0 <= i < self.rates.len() ==> is_code(#[trigger] self.rates[i].0)
                && self.rates[i].1 >= 1
    }

    /// Full well-formedness: structural validity plus unique rate keys.
    pub open spec fn wf(self) -> bool {
        &&& self.shaped()
        &&& forall|i: int, j: int|
            0 <= i < j < self.rates.len() ==> (#[trigger] self.rates[i].0) != (
            #[trigger] self.rates[j].0)
    }
}

impl RateEntry {
    pub open spec fn model(self) -> (Seq<char>, u64) {
        (self.code@, self.rate_micro)
    }
}

impl ApiResponse {
    pub open spec fn model(self) -> SnapModel {
        SnapModel {
            base: self.base_code@,
            next: self.time_next_update_unix,
            rates: self.conversion_rates@.map_values(|e: RateEntry| e.model()),
        }
    }

    pub open spec fn wf(self) -> bool {
        self.model().wf()
    }
}

} // verus!
