use vstd::prelude::*;

verus! {

/// What a transport hands back: the HTTP status code and the raw body
/// text, passed on to the decode layer uninterpreted.
pub struct RawResponse {
    pub http_status_code: u16,
    pub body_text: String,
}

/// A decoded response: the HTTP status code of the exchange's answer
/// together with the typed body read out of it.
pub struct RestResponse<T> {
    pub http_status_code: u16,
    pub body: T,
}

} // verus!
