use vstd::prelude::*;

verus! {

/// Failure to reach the remote rate provider at all; carries the transport
/// layer's own description of the cause.
#[derive(Debug, Clone, PartialEq, Eq)]
pub enum RequestError {
    RequestError(String),
}

/// The provider's classified API failures: five known error codes and a
/// catch-all that carries the unrecognized raw code.
#[derive(Debug, Clone, PartialEq, Eq)]
pub enum ApiError {
    UnsupportedCode(String),
    MalformedRequest(),
    InvalidKey(),
    InactiveAccount(),
    QuotaReached(),
    UnknownError(String),
}

/// Failure of the pure conversion step: the target code is absent from the
/// snapshot. Carries the snapshot's base code and the missing target code.
#[derive(Debug, Clone, PartialEq, Eq)]
pub enum ConversionError {
    CurrencyNotFound(String, String),
}

/// Failures of user-supplied input.
#[derive(Debug, Clone, PartialEq, Eq)]
pub enum InputError {
    InvalidCode(),
    InvalidAmount(),
    ReadLineError(String),
}

/// The API key could not be found in the environment.
#[derive(Debug, Clone, PartialEq, Eq)]
pub enum ApiKeyError {
    KeyNotFound(),
}

/// Cache-layer failures. Always non-fatal to resolution: the resolver
/// degrades to a remote fetch on any of these.
#[derive(Debug, Clone, PartialEq, Eq)]
pub enum CacheError {
    /// The backing store could not be created or opened.
    StorageInitError(String),
    /// An I/O or query failure of the backing store.
    StorageError(String),
    /// A stored payload did not decode as a snapshot.
    DeserializeError(String),
}

/// The terminal failure modes of a resolution: only the remote path can
/// fail a resolution.
#[derive(Debug, Clone, PartialEq, Eq)]
pub enum FetchError {
    /// Transport failure reaching the provider.
    Request(RequestError),
    /// A response body that should have been API-contractual did not parse.
    Deserialize(String),
    /// A classified provider error.
    Api(ApiError),
}

} // verus!
