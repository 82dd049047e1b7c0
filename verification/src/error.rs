use vstd::prelude::*;

verus! {

/// Failure taxonomy of the collector.
///
/// `ConnectionError` is a transport-level failure to establish or use the
/// socket; `AuthenticationRejected` is the remote refusing the secret over a
/// healthy transport; `MetricsCollectError` is a reply that was received but
/// could not be parsed into a metric, carrying the offending raw text.
#[derive(Debug)]
pub enum Error {
    ConnectionError(String),
    AuthenticationRejected,
    MetricsCollectError(String),
}

impl Error {
    /// True exactly when the error is a failed parse.
    pub fn is_metrics_collect_error(&self) -> (r: bool)
        ensures
            r == (self is MetricsCollectError),
    {
        match self {
            Error::MetricsCollectError(_) => true,
            _ => false,
        }
    }
}

} // verus!
