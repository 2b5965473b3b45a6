//! Typed client for the GMO Coin public trade-history endpoint.
//!
//! The crate builds the request URL, hands it to a pluggable HTTP
//! transport, and decodes the JSON body that comes back into typed
//! records.  Prices, sizes and timestamps arrive string-encoded in
//! the exchange's own formats, so the decode layer carries exact
//! contracts for each converter and for the body grammar as a whole.

pub mod chars;
pub mod error;
pub mod http_client;
pub mod json;
pub mod number;
pub mod public;
pub mod response;
pub mod symbol;
pub mod timestamp;
