use vstd::prelude::*;
use crate::error::Error;
use crate::response::RawResponse;

verus! {

/// The capability a caller hands in to perform the HTTP exchange: one
/// GET of a URL.  Each implementation states through `get_ens` what
/// its answers look like; the production network adapter lives
/// outside the verified library and promises nothing beyond the type.
pub trait HttpClient {
    /// What this client guarantees of a result of `get`.
    spec fn get_ens(&self, url: Seq<char>, r: Result<RawResponse, Error>) -> bool;

    /// Performs one GET of `url`.
    fn get(&self, url: String) -> (r: Result<RawResponse, Error>)
        ensures
            self.get_ens(url@, r),
    ;
}

/// A deterministic in-memory stand-in for the network: it answers
/// every GET with the configured status and body, or with the opaque
/// error when the error flag is set, and performs no I/O at all.
pub struct InmemClient {
    pub http_status_code: u16,
    pub body_text: String,
    pub return_error: bool,
}

impl HttpClient for InmemClient {
    open spec fn get_ens(&self, url: Seq<char>, r: Result<RawResponse, Error>) -> bool {
        if self.return_error {
            r == Result::<RawResponse, Error>::Err(Error::UnknownError)
        } else {
            match r {
                Ok(raw) => raw.http_status_code == self.http_status_code && raw.body_text@
                    == self.body_text@,
                Err(_) => false,
            }
        }
    }

    fn get(&self, url: String) -> (r: Result<RawResponse, Error>) {
        if self.return_error {
            return Err(Error::UnknownError);
        }
        Ok(
            RawResponse {
                http_status_code: self.http_status_code,
                body_text: self.body_text.clone(),
            },
        )
    }
}

/// The test transport is deterministic: while the error flag is
/// clear, every call returns exactly the configured status code and
/// body, whatever the URL and however often it is called.
pub proof fn lemma_inmem_fixed_response(
    c: InmemClient,
    url: Seq<char>,
    r: Result<RawResponse, Error>,
)
    requires
        !c.return_error,
        c.get_ens(url, r),
    ensures
        r matches Ok(raw) && raw.http_status_code == c.http_status_code && raw.body_text@
            == c.body_text@,
{
}

/// While the error flag is set, every call returns the opaque error
/// and never a response value, whatever the URL.
pub proof fn lemma_inmem_error_flag(c: InmemClient, url: Seq<char>, r: Result<RawResponse, Error>)
    requires
        c.return_error,
        c.get_ens(url, r),
    ensures
        r == Result::<RawResponse, Error>::Err(Error::UnknownError),
{
}

} // verus!
