//! The library's flat error taxonomy.

use vstd::prelude::*;

verus! {

/// Every failure a call can surface, as a closed set of kinds with no
/// payload. Transport-level failures and on-the-wire decode failures at the
/// transport boundary both map to `TransportError`; `ServerTimeoutError` is
/// part of the taxonomy but produced by no mapping in this crate.
#[derive(Debug, Clone, Copy, PartialEq, Eq, Structural)]
pub enum MoabError {
    ServerInternalError,
    ServerTimeoutError,
    DecodeError,
    RequestError,
    TransportError,
    NotFound,
    Unauthorized,
    UnknownError,
}

} // verus!
