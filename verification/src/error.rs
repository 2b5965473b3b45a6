use vstd::prelude::*;

verus! {

/// How a call of the trade-history endpoint can fail.  Callers must be
/// able to tell a server that was unreachable from a body that could
/// not be understood, so the transport and decode cases are distinct
/// variants; `UnknownError` is what the deterministic test transport
/// returns when its error flag is set.
#[derive(Debug)]
pub enum Error {
    /// The transport could not complete the request: the URL did not
    /// parse, the connection failed, or the body could not be read.
    TransportError { message: String },
    /// The response body was not the documented JSON shape; `field`
    /// names the offending field (or `json` for a structural fault).
    DecodeError { field: String },
    /// An unclassified failure.
    UnknownError,
}

impl Error {
    /// True exactly of decode failures.
    pub open spec fn is_decode(&self) -> bool {
        self matches Error::DecodeError { .. }
    }
}

} // verus!
