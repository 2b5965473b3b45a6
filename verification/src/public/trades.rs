use vstd::prelude::*;
use vstd::string::StringExecFns;
use crate::error::Error;
use crate::http_client::HttpClient;
use crate::json::{parse_from_http_response, sp_envelope};
use crate::number::{sp_i64_str, Decimal};
use crate::response::{RawResponse, RestResponse};
use crate::symbol::{symbol_str, Symbol};
use crate::timestamp::Timestamp;

verus! {

/// One executed trade from the history: the wire carries `price` and
/// `size` as numeric strings and `timestamp` in the exchange's own
/// format, all read into plain values during decode.
pub struct Trade {
    pub price: i64,
    pub side: String,
    pub size: Decimal,
    pub timestamp: Timestamp,
}

/// The mathematical value of a trade record.
pub struct TradeV {
    pub price: i64,
    pub side: Seq<char>,
    pub size: Decimal,
    pub timestamp: Timestamp,
}

impl View for Trade {
    type V = TradeV;

    open spec fn view(&self) -> TradeV {
        TradeV {
            price: self.price,
            side: self.side@,
            size: self.size,
            timestamp: self.timestamp,
        }
    }
}

/// The page information block of the envelope; both fields arrive as
/// numeric strings.
#[allow(non_snake_case)]
#[derive(Clone, Copy, PartialEq, Eq, Structural, Debug)]
pub struct Pagination {
    pub currentPage: i64,
    pub count: i64,
}

impl View for Pagination {
    type V = Pagination;

    open spec fn view(&self) -> Pagination {
        *self
    }
}

/// The `data` part of the envelope: the trade list and its paging.
pub struct Data {
    pub list: Vec<Trade>,
    pub pagination: Pagination,
}

/// The mathematical value of the `data` part.
pub struct DataV {
    pub list: Seq<TradeV>,
    pub pagination: Pagination,
}

impl View for Data {
    type V = DataV;

    open spec fn view(&self) -> DataV {
        DataV { list: self.list@.map_values(|t: Trade| t@), pagination: self.pagination }
    }
}

/// The decoded response envelope of the trade-history endpoint.
pub struct Trades {
    pub status: i16,
    pub responsetime: Timestamp,
    pub data: Data,
}

/// The mathematical value of the envelope.
pub struct TradesV {
    pub status: i16,
    pub responsetime: Timestamp,
    pub data: DataV,
}

impl View for Trades {
    type V = TradesV;

    open spec fn view(&self) -> TradesV {
        TradesV { status: self.status, responsetime: self.responsetime, data: self.data@ }
    }
}

impl RestResponse<Trades> {
    /// The page information of the decoded envelope.
    pub fn pagination(&self) -> (r: &Pagination)
        ensures
            *r == self.body.data.pagination,
    {
        &self.body.data.pagination
    }

    /// The decoded trades, in the order the exchange sent them.
    pub fn trades(&self) -> (r: &Vec<Trade>)
        ensures
            *r == self.body.data.list,
    {
        &self.body.data.list
    }
}

/// Base URL of the exchange's public API.
pub open spec fn spec_public_endpoint() -> Seq<char> {
    "https://api.coin.z.com/public"@
}

pub fn public_endpoint() -> (r: &'static str)
    ensures
        r@ == spec_public_endpoint(),
{
    "https://api.coin.z.com/public"
}

/// Path of the trade-history endpoint.
pub open spec fn spec_trades_api_path() -> Seq<char> {
    "/v1/trades"@
}

pub fn trades_api_path() -> (r: &'static str)
    ensures
        r@ == spec_trades_api_path(),
{
    "/v1/trades"
}

/// The exact request URL for a symbol, a page and a page size.
pub open spec fn trades_url(sym: Symbol, page: int, count: int) -> Seq<char> {
    spec_public_endpoint() + spec_trades_api_path() + "?symbol="@ + symbol_str(sym) + "&page="@
        + sp_i64_str(page) + "&count="@ + sp_i64_str(count)
}

/// Builds the fully qualified request URL, character for character.
pub fn build_trades_url(symbol: &Symbol, page: i32, count: i32) -> (r: String)
    ensures
        r@ == trades_url(*symbol, page as int, count as int),
{
    let mut url = String::from_str(public_endpoint());
    url.append(trades_api_path());
    url.append("?symbol=");
    let sympart = crate::symbol::to_string(symbol);
    url.append(sympart.as_str());
    url.append("&page=");
    let p = crate::number::i64_to_string(page as i64);
    url.append(p.as_str());
    url.append("&count=");
    let c = crate::number::i64_to_string(count as i64);
    url.append(c.as_str());
    proof {
        assert(url@ =~= trades_url(*symbol, page as int, count as int));
    }
    url
}

/// The decode step applied to whatever the transport answered: a
/// transport error passes through unchanged, and a response is
/// decoded with its status code kept, succeeding exactly when the
/// body is the documented shape.
pub open spec fn response_of(
    t: Result<RawResponse, Error>,
    r: Result<RestResponse<Trades>, Error>,
) -> bool {
    match t {
        Err(e) => r == Result::<RestResponse<Trades>, Error>::Err(e),
        Ok(raw) => match r {
            Ok(resp) => sp_envelope(raw.body_text@) == Some(resp.body@) && resp.http_status_code
                == raw.http_status_code,
            Err(e) => sp_envelope(raw.body_text@) is None && e.is_decode(),
        },
    }
}

/// Calls the trade-history API with an explicit page and page size:
/// the transport is asked exactly the documented URL, and the result
/// is its answer passed through the decode step.
pub fn get_trades_with_options<C: HttpClient>(
    http_client: &C,
    symbol: &Symbol,
    page: i32,
    count: i32,
) -> (r: Result<RestResponse<Trades>, Error>)
    ensures
        exists|t: Result<RawResponse, Error>|
            http_client.get_ens(trades_url(*symbol, page as int, count as int), t)
                && #[trigger] response_of(t, r),
{
    let url = build_trades_url(symbol, page, count);
    let resp = http_client.get(url);
    let ghost gt = resp;
    let r = match resp {
        Err(e) => Err(e),
        Ok(raw) => parse_from_http_response(&raw),
    };
    proof {
        assert(http_client.get_ens(trades_url(*symbol, page as int, count as int), gt)
            && response_of(gt, r));
    }
    r
}

/// Calls the trade-history API with the documented defaults: page 1
/// and one hundred records.
pub fn get_trades<C: HttpClient>(http_client: &C, symbol: &Symbol) -> (r: Result<
    RestResponse<Trades>,
    Error,
>)
    ensures
        exists|t: Result<RawResponse, Error>|
            http_client.get_ens(trades_url(*symbol, 1, 100), t) && #[trigger] response_of(t, r),
{
    get_trades_with_options(http_client, symbol, 1, 100)
}

} // verus!
