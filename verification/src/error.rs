use vstd::prelude::*;

verus! {

/// Every failure the engine can surface. The first error any part of a
/// run encounters aborts the whole run; there are no retries.
#[derive(Clone, Copy, Debug, PartialEq, Eq, Structural)]
pub enum Error {
    /// The endpoint list is empty, some weight is below one, or the
    /// summed weights do not fit in `i32`.
    InvalidWeights,
    /// The configured worker count is zero.
    InvalidConcurrency,
    /// The configured total request count is zero.
    InvalidTotal,
    /// A response carried a status code outside the accepted set
    /// {200, 201, 204}.
    UnexpectedStatusCode { status_code: u16, endpoint_index: usize },
    /// A request failed below the HTTP layer (connection, timeout, DNS).
    RequestFailed { endpoint_index: usize },
    /// The current and baseline configurations differ structurally, so
    /// their runs cannot be compared.
    BaselineMismatch,
    /// A percentile was asked of an empty duration bucket.
    InsufficientSamples,
}

} // verus!
