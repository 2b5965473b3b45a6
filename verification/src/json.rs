use vstd::prelude::*;
use vstd::string::StringExecFns;
use crate::chars::{lit_at, match_lit, opt_idx_is, skip_ws, sp_ws, to_char_vec};
use crate::error::Error;
use crate::number::{
    digits_val, is_digit, lemma_digits_val_nonneg, parse_decimal_chars, parse_digits_bounded,
    parse_i64_chars, sp_parse_decimal, sp_parse_i64, sp_signed_mag,
};
use crate::public::trades::{Data, DataV, Pagination, Trade, TradeV, Trades, TradesV};
use crate::response::{RawResponse, RestResponse};
use crate::timestamp::{parse_timestamp_chars, sp_parse_timestamp};

verus! {

/// The quoted member name `status`.
pub open spec fn key_status() -> Seq<char> {
    seq!['"', 's', 't', 'a', 't', 'u', 's', '"']
}

fn tok_status() -> (r: Vec<char>)
    ensures
        r@ == key_status(),
{
    let r: Vec<char> = vec!['"', 's', 't', 'a', 't', 'u', 's', '"'];
    proof {
        assert(r@ =~= key_status());
    }
    r
}

/// The quoted member name `data`.
pub open spec fn key_data() -> Seq<char> {
    seq!['"', 'd', 'a', 't', 'a', '"']
}

fn tok_data() -> (r: Vec<char>)
    ensures
        r@ == key_data(),
{
    let r: Vec<char> = vec!['"', 'd', 'a', 't', 'a', '"'];
    proof {
        assert(r@ =~= key_data());
    }
    r
}

/// The quoted member name `pagination`.
pub open spec fn key_pagination() -> Seq<char> {
    seq!['"', 'p', 'a', 'g', 'i', 'n', 'a', 't', 'i', 'o', 'n', '"']
}

fn tok_pagination() -> (r: Vec<char>)
    ensures
        r@ == key_pagination(),
{
    let r: Vec<char> = vec!['"', 'p', 'a', 'g', 'i', 'n', 'a', 't', 'i', 'o', 'n', '"'];
    proof {
        assert(r@ =~= key_pagination());
    }
    r
}

/// The quoted member name `currentPage`.
pub open spec fn key_current_page() -> Seq<char> {
    seq!['"', 'c', 'u', 'r', 'r', 'e', 'n', 't', 'P', 'a', 'g', 'e', '"']
}

fn tok_current_page() -> (r: Vec<char>)
    ensures
        r@ == key_current_page(),
{
    let r: Vec<char> = vec!['"', 'c', 'u', 'r', 'r', 'e', 'n', 't', 'P', 'a', 'g', 'e', '"'];
    proof {
        assert(r@ =~= key_current_page());
    }
    r
}

/// The quoted member name `count`.
pub open spec fn key_count() -> Seq<char> {
    seq!['"', 'c', 'o', 'u', 'n', 't', '"']
}

fn tok_count() -> (r: Vec<char>)
    ensures
        r@ == key_count(),
{
    let r: Vec<char> = vec!['"', 'c', 'o', 'u', 'n', 't', '"'];
    proof {
        assert(r@ =~= key_count());
    }
    r
}

/// The quoted member name `list`.
pub open spec fn key_list() -> Seq<char> {
    seq!['"', 'l', 'i', 's', 't', '"']
}

fn tok_list() -> (r: Vec<char>)
    ensures
        r@ == key_list(),
{
    let r: Vec<char> = vec!['"', 'l', 'i', 's', 't', '"'];
    proof {
        assert(r@ =~= key_list());
    }
    r
}

/// The quoted member name `responsetime`.
pub open spec fn key_responsetime() -> Seq<char> {
    seq!['"', 'r', 'e', 's', 'p', 'o', 'n', 's', 'e', 't', 'i', 'm', 'e', '"']
}

fn tok_responsetime() -> (r: Vec<char>)
    ensures
        r@ == key_responsetime(),
{
    let r: Vec<char> = vec!['"', 'r', 'e', 's', 'p', 'o', 'n', 's', 'e', 't', 'i', 'm', 'e', '"'];
    proof {
        assert(r@ =~= key_responsetime());
    }
    r
}

/// The quoted member name `price`.
pub open spec fn key_price() -> Seq<char> {
    seq!['"', 'p', 'r', 'i', 'c', 'e', '"']
}

fn tok_price() -> (r: Vec<char>)
    ensures
        r@ == key_price(),
{
    let r: Vec<char> = vec!['"', 'p', 'r', 'i', 'c', 'e', '"'];
    proof {
        assert(r@ =~= key_price());
    }
    r
}

/// The quoted member name `side`.
pub open spec fn key_side() -> Seq<char> {
    seq!['"', 's', 'i', 'd', 'e', '"']
}

fn tok_side() -> (r: Vec<char>)
    ensures
        r@ == key_side(),
{
    let r: Vec<char> = vec!['"', 's', 'i', 'd', 'e', '"'];
    proof {
        assert(r@ =~= key_side());
    }
    r
}

/// The quoted member name `size`.
pub open spec fn key_size() -> Seq<char> {
    seq!['"', 's', 'i', 'z', 'e', '"']
}

fn tok_size() -> (r: Vec<char>)
    ensures
        r@ == key_size(),
{
    let r: Vec<char> = vec!['"', 's', 'i', 'z', 'e', '"'];
    proof {
        assert(r@ =~= key_size());
    }
    r
}

/// The quoted member name `timestamp`.
pub open spec fn key_timestamp() -> Seq<char> {
    seq!['"', 't', 'i', 'm', 'e', 's', 't', 'a', 'm', 'p', '"']
}

fn tok_timestamp() -> (r: Vec<char>)
    ensures
        r@ == key_timestamp(),
{
    let r: Vec<char> = vec!['"', 't', 'i', 'm', 'e', 's', 't', 'a', 'm', 'p', '"'];
    proof {
        assert(r@ =~= key_timestamp());
    }
    r
}
/// The decoded characters of a JSON string read from `i` (just after
/// the opening quote) until the closing quote, with the usual single
/// character escapes; `acc` carries what is decoded so far, and the
/// result index stands just past the closing quote.
pub open spec fn sp_str_tail(s: Seq<char>, i: int, acc: Seq<char>) -> Option<(Seq<char>, int)>
    decreases s.len() - i,
{
    if i < 0 || i >= s.len() {
        None
    } else if s[i] == '"' {
        Some((acc, i + 1))
    } else if s[i] == '\\' {
        if i + 1 < s.len() {
            let e = s[i + 1];
            if e == '"' {
                sp_str_tail(s, i + 2, acc.push('"'))
            } else if e == '\\' {
                sp_str_tail(s, i + 2, acc.push('\\'))
            } else if e == '/' {
                sp_str_tail(s, i + 2, acc.push('/'))
            } else if e == 'n' {
                sp_str_tail(s, i + 2, acc.push('\n'))
            } else if e == 'r' {
                sp_str_tail(s, i + 2, acc.push('\r'))
            } else if e == 't' {
                sp_str_tail(s, i + 2, acc.push('\t'))
            } else if e == 'b' {
                sp_str_tail(s, i + 2, acc.push('\u{8}'))
            } else if e == 'f' {
                sp_str_tail(s, i + 2, acc.push('\u{c}'))
            } else {
                None
            }
        } else {
            None
        }
    } else if (s[i] as u32) < 32 {
        None
    } else {
        sp_str_tail(s, i + 1, acc.push(s[i]))
    }
}

/// A JSON string at `i`, which must hold the opening quote.
pub open spec fn sp_string(s: Seq<char>, i: int) -> Option<(Seq<char>, int)> {
    if 0 <= i < s.len() && s[i] == '"' {
        sp_str_tail(s, i + 1, Seq::empty())
    } else {
        None
    }
}

/// Relates an executable string-and-index result to its mathematical
/// counterpart.
pub open spec fn opt_sv_is(r: Option<(Vec<char>, usize)>, m: Option<(Seq<char>, int)>) -> bool {
    match r {
        Some(p) => m == Some((p.0@, p.1 as int)),
        None => m is None,
    }
}

fn parse_string(v: &Vec<char>, i: usize) -> (r: Option<(Vec<char>, usize)>)
    ensures
        opt_sv_is(r, sp_string(v@, i as int)),
        r matches Some(p) ==> p.1 <= v@.len(),
{
    let n = v.len();
    if i >= n {
        return None;
    }
    if v[i] != '"' {
        return None;
    }
    let mut out: Vec<char> = Vec::new();
    let mut j: usize = i + 1;
    proof {
        assert(out@ =~= Seq::<char>::empty());
    }
    loop
        invariant
            i + 1 <= j <= n,
            n == v@.len(),
            sp_string(v@, i as int) == sp_str_tail(v@, j as int, out@),
        decreases n - j,
    {
        if j >= n {
            return None;
        }
        let c = v[j];
        if c == '"' {
            return Some((out, j + 1));
        }
        if c == '\\' {
            if j + 1 >= n {
                return None;
            }
            let e = v[j + 1];
            if e == '"' {
                out.push('"');
            } else if e == '\\' {
                out.push('\\');
            } else if e == '/' {
                out.push('/');
            } else if e == 'n' {
                out.push('\n');
            } else if e == 'r' {
                out.push('\r');
            } else if e == 't' {
                out.push('\t');
            } else if e == 'b' {
                out.push('\u{8}');
            } else if e == 'f' {
                out.push('\u{c}');
            } else {
                return None;
            }
            j += 2;
        } else if (c as u32) < 32 {
            return None;
        } else {
            out.push(c);
            j += 1;
        }
    }
}

/// A member name at `i`: the quoted key, optional whitespace and the
/// colon; the result index stands just after the colon.
pub open spec fn sp_key(s: Seq<char>, i: int, key: Seq<char>) -> Option<int> {
    match lit_at(s, i, key) {
        Some(j) => {
            let k = sp_ws(s, j);
            if 0 <= k < s.len() && s[k] == ':' {
                Some(k + 1)
            } else {
                None
            }
        },
        None => None,
    }
}

fn match_key(v: &Vec<char>, i: usize, tok: &Vec<char>) -> (r: Option<usize>)
    ensures
        opt_idx_is(r, sp_key(v@, i as int, tok@)),
        r matches Some(j) ==> j <= v@.len(),
{
    match match_lit(v, i, tok) {
        None => None,
        Some(j) => {
            let k = skip_ws(v, j);
            if k < v.len() {
                if v[k] == ':' {
                    Some(k + 1)
                } else {
                    None
                }
            } else {
                None
            }
        },
    }
}

/// Optional whitespace followed by exactly the character `c`.
pub open spec fn sp_punct(s: Seq<char>, i: int, c: char) -> Option<int> {
    let j = sp_ws(s, i);
    if 0 <= j < s.len() && s[j] == c {
        Some(j + 1)
    } else {
        None
    }
}

fn match_punct(v: &Vec<char>, i: usize, c: char) -> (r: Option<usize>)
    requires
        i <= v@.len(),
    ensures
        opt_idx_is(r, sp_punct(v@, i as int, c)),
        r matches Some(j) ==> j <= v@.len(),
{
    let j = skip_ws(v, i);
    if j < v.len() {
        if v[j] == c {
            Some(j + 1)
        } else {
            None
        }
    } else {
        None
    }
}

/// A `"name": "value"` member at `i`: the decoded value string and
/// the index just past its closing quote.
pub open spec fn sp_str_member(s: Seq<char>, i: int, key: Seq<char>) -> Option<(Seq<char>, int)> {
    let j = sp_ws(s, i);
    match sp_key(s, j, key) {
        Some(k) => {
            let m = sp_ws(s, k);
            sp_string(s, m)
        },
        None => None,
    }
}

fn parse_str_member(v: &Vec<char>, i: usize, tok: &Vec<char>) -> (r: Option<(Vec<char>, usize)>)
    requires
        i <= v@.len(),
    ensures
        opt_sv_is(r, sp_str_member(v@, i as int, tok@)),
        r matches Some(p) ==> p.1 <= v@.len(),
{
    let j = skip_ws(v, i);
    match match_key(v, j, tok) {
        None => None,
        Some(k) => {
            let m = skip_ws(v, k);
            parse_string(v, m)
        },
    }
}

/// The first index at or after `i` that holds no digit.
pub open spec fn sp_digit_end(s: Seq<char>, i: int) -> int
    decreases s.len() - i,
{
    if 0 <= i < s.len() && is_digit(s[i]) {
        sp_digit_end(s, i + 1)
    } else {
        i
    }
}

/// A bare JSON integer token at `i`: an optional minus, digits
/// without a superfluous leading zero, not followed by a fraction or
/// an exponent, and within the signed 64-bit range.
pub open spec fn sp_int_token(s: Seq<char>, i: int) -> Option<(i64, int)> {
    let neg = 0 <= i < s.len() && s[i] == '-';
    let d0 = if neg {
        i + 1
    } else {
        i
    };
    let e = sp_digit_end(s, d0);
    if i < 0 || e == d0 {
        None
    } else {
        let ds = s.subrange(d0, e);
        if ds.len() > 1 && ds[0] == '0' {
            None
        } else if e < s.len() && (s[e] == '.' || s[e] == 'e' || s[e] == 'E') {
            None
        } else {
            match sp_signed_mag(ds, neg) {
                Some(val) => Some((val as i64, e)),
                None => None,
            }
        }
    }
}

fn parse_int_token(v: &Vec<char>, i: usize) -> (r: Option<(i64, usize)>)
    requires
        i <= v@.len(),
    ensures
        match r {
            Some(p) => sp_int_token(v@, i as int) == Some((p.0, p.1 as int)) && p.1 <= v@.len(),
            None => sp_int_token(v@, i as int) is None,
        },
{
    let n = v.len();
    let neg: bool = i < n && v[i] == '-';
    let d0: usize = if neg {
        i + 1
    } else {
        i
    };
    let mut e: usize = d0;
    while e < n && (v[e] as u32) >= 48 && (v[e] as u32) <= 57
        invariant
            d0 <= e <= n,
            n == v@.len(),
            d0 <= v@.len(),
            sp_digit_end(v@, d0 as int) == sp_digit_end(v@, e as int),
            forall|k: int| d0 <= k < e ==> is_digit(v@[k]),
        decreases n - e,
    {
        proof {
            assert(sp_digit_end(v@, e as int) == sp_digit_end(v@, e + 1));
        }
        e += 1;
    }
    let ghost ds = v@.subrange(d0 as int, e as int);
    if e == d0 {
        return None;
    }
    if e - d0 > 1 && v[d0] == '0' {
        return None;
    }
    if e < n {
        let ce = v[e];
        if ce == '.' || ce == 'e' || ce == 'E' {
            return None;
        }
    }
    let ds_vec = crate::chars::copy_range(v, d0, e);
    proof {
        assert(ds_vec@.skip(0) =~= ds);
        assert(forall|k: int| 0 <= k < ds.len() ==> is_digit(#[trigger] ds[k]));
        lemma_digits_val_nonneg(ds);
    }
    let bound: u64 = if neg {
        0x8000_0000_0000_0000
    } else {
        0x7fff_ffff_ffff_ffff
    };
    match parse_digits_bounded(&ds_vec, 0, bound) {
        None => None,
        Some(m) => {
            let x: i64 = if neg {
                if m == 0x8000_0000_0000_0000u64 {
                    i64::MIN
                } else {
                    -(m as i64)
                }
            } else {
                m as i64
            };
            Some((x, e))
        },
    }
}

/// The bare integer token read as the envelope's 16-bit status.
pub open spec fn sp_status_num(s: Seq<char>, i: int) -> Option<(i16, int)> {
    match sp_int_token(s, i) {
        None => None,
        Some((x, e)) => if -32768 <= x <= 32767 {
            Some((x as i16, e))
        } else {
            None
        },
    }
}

fn parse_status_num(v: &Vec<char>, i: usize) -> (r: Option<(i16, usize)>)
    requires
        i <= v@.len(),
    ensures
        match r {
            Some(p) => sp_status_num(v@, i as int) == Some((p.0, p.1 as int)) && p.1 <= v@.len(),
            None => sp_status_num(v@, i as int) is None,
        },
{
    match parse_int_token(v, i) {
        None => None,
        Some((x, e)) => {
            if -32768 <= x && x <= 32767 {
                Some((x as i16, e))
            } else {
                None
            }
        },
    }
}

/// An integer member value: either a string-encoded integer, as the
/// wire format documents, or a bare integer token, which the exchange
/// also sends for the pagination fields.
pub open spec fn sp_i64_value(s: Seq<char>, i: int) -> Option<(i64, int)> {
    if 0 <= i < s.len() && s[i] == '"' {
        match sp_string(s, i) {
            Some((raw, j)) => match sp_parse_i64(raw) {
                Some(x) => Some((x, j)),
                None => None,
            },
            None => None,
        }
    } else {
        sp_int_token(s, i)
    }
}

fn parse_i64_value(v: &Vec<char>, i: usize) -> (r: Option<(i64, usize)>)
    requires
        i <= v@.len(),
    ensures
        match r {
            Some(p) => sp_i64_value(v@, i as int) == Some((p.0, p.1 as int)) && p.1 <= v@.len(),
            None => sp_i64_value(v@, i as int) is None,
        },
{
    let n = v.len();
    if i < n && v[i] == '"' {
        match parse_string(v, i) {
            Some((raw, j)) => match parse_i64_chars(&raw) {
                Some(x) => Some((x, j)),
                None => None,
            },
            None => None,
        }
    } else {
        parse_int_token(v, i)
    }
}

/// One trade object: the four members in the documented order, each a
/// string-encoded value, between braces.
pub open spec fn sp_trade(s: Seq<char>, i: int) -> Option<(TradeV, int)> {
    match sp_punct(s, i, '{') {
        None => None,
        Some(i1) => match sp_str_member(s, i1, key_price()) {
            None => None,
            Some((praw, i2)) => match sp_parse_i64(praw) {
                None => None,
                Some(price) => match sp_punct(s, i2, ',') {
                    None => None,
                    Some(i3) => match sp_str_member(s, i3, key_side()) {
                        None => None,
                        Some((side, i4)) => match sp_punct(s, i4, ',') {
                            None => None,
                            Some(i5) => match sp_str_member(s, i5, key_size()) {
                                None => None,
                                Some((sraw, i6)) => match sp_parse_decimal(sraw) {
                                    None => None,
                                    Some(size) => match sp_punct(s, i6, ',') {
                                        None => None,
                                        Some(i7) => match sp_str_member(s, i7, key_timestamp()) {
                                            None => None,
                                            Some((traw, i8)) => match sp_parse_timestamp(traw) {
                                                None => None,
                                                Some(ts) => match sp_punct(s, i8, '}') {
                                                    None => None,
                                                    Some(i9) => Some(
                                                        (
                                                            TradeV {
                                                                price,
                                                                side,
                                                                size,
                                                                timestamp: ts,
                                                            },
                                                            i9,
                                                        ),
                                                    ),
                                                },
                                            },
                                        },
                                    },
                                },
                            },
                        },
                    },
                },
            },
        },
    }
}

/// Relates an executable decode result to its mathematical
/// counterpart: success carries the same value and index, and every
/// failure is a decode error.
pub open spec fn res_is<T: View>(r: Result<(T, usize), Error>, m: Option<(T::V, int)>) -> bool {
    match r {
        Ok(p) => m == Some((p.0@, p.1 as int)),
        Err(e) => m is None && e.is_decode(),
    }
}

fn dec_err(name: &str) -> (e: Error)
    ensures
        e.is_decode(),
{
    Error::DecodeError { field: String::from_str(name) }
}

fn parse_trade(v: &Vec<char>, i: usize) -> (r: Result<(Trade, usize), Error>)
    requires
        i <= v@.len(),
    ensures
        res_is(r, sp_trade(v@, i as int)),
        r matches Ok(p) ==> p.1 <= v@.len(),
{
    let i1 = match match_punct(v, i, '{') {
        Some(x) => x,
        None => {
            return Err(dec_err("trade"));
        },
    };
    let tok = tok_price();
    let (praw, i2) = match parse_str_member(v, i1, &tok) {
        Some(x) => x,
        None => {
            return Err(dec_err("price"));
        },
    };
    let price = match parse_i64_chars(&praw) {
        Some(x) => x,
        None => {
            return Err(dec_err("price"));
        },
    };
    let i3 = match match_punct(v, i2, ',') {
        Some(x) => x,
        None => {
            return Err(dec_err("trade"));
        },
    };
    let tok = tok_side();
    let (sideraw, i4) = match parse_str_member(v, i3, &tok) {
        Some(x) => x,
        None => {
            return Err(dec_err("side"));
        },
    };
    let i5 = match match_punct(v, i4, ',') {
        Some(x) => x,
        None => {
            return Err(dec_err("trade"));
        },
    };
    let tok = tok_size();
    let (szraw, i6) = match parse_str_member(v, i5, &tok) {
        Some(x) => x,
        None => {
            return Err(dec_err("size"));
        },
    };
    let size = match parse_decimal_chars(&szraw) {
        Some(x) => x,
        None => {
            return Err(dec_err("size"));
        },
    };
    let i7 = match match_punct(v, i6, ',') {
        Some(x) => x,
        None => {
            return Err(dec_err("trade"));
        },
    };
    let tok = tok_timestamp();
    let (tsraw, i8) = match parse_str_member(v, i7, &tok) {
        Some(x) => x,
        None => {
            return Err(dec_err("timestamp"));
        },
    };
    let ts = match parse_timestamp_chars(&tsraw) {
        Some(x) => x,
        None => {
            return Err(dec_err("timestamp"));
        },
    };
    let i9 = match match_punct(v, i8, '}') {
        Some(x) => x,
        None => {
            return Err(dec_err("trade"));
        },
    };
    let side = crate::chars::chars_to_string(&sideraw);
    Ok((Trade { price, side, size, timestamp: ts }, i9))
}

/// The values of a sequence of trade records.
pub open spec fn trades_views(ts: Seq<Trade>) -> Seq<TradeV> {
    ts.map_values(|t: Trade| t@)
}

/// The trades after the first one: whitespace, then either the
/// closing bracket or a comma and the next trade, until the bracket.
/// `fuel` bounds the recursion; the caller passes the body's length,
/// and each trade consumes at least one character, so the fuel never
/// runs out on a body the grammar accepts.
pub open spec fn sp_list_rest(s: Seq<char>, i: int, acc: Seq<TradeV>, fuel: nat) -> Option<
    (Seq<TradeV>, int),
>
    decreases fuel,
{
    let j = sp_ws(s, i);
    if 0 <= j < s.len() && s[j] == ']' {
        Some((acc, j + 1))
    } else if 0 <= j < s.len() && s[j] == ',' {
        match sp_trade(s, j + 1) {
            None => None,
            Some((t, e)) => if fuel == 0 {
                None
            } else {
                sp_list_rest(s, e, acc.push(t), (fuel - 1) as nat)
            },
        }
    } else {
        None
    }
}

/// A trade list at `i`, just after the opening bracket.
pub open spec fn sp_list(s: Seq<char>, i: int, fuel: nat) -> Option<(Seq<TradeV>, int)> {
    let j = sp_ws(s, i);
    if 0 <= j < s.len() && s[j] == ']' {
        Some((Seq::empty(), j + 1))
    } else {
        match sp_trade(s, i) {
            None => None,
            Some((t, e)) => sp_list_rest(s, e, seq![t], fuel),
        }
    }
}

fn parse_list(v: &Vec<char>, i: usize) -> (r: Result<(Vec<Trade>, usize), Error>)
    requires
        i <= v@.len(),
    ensures
        match r {
            Ok(p) => sp_list(v@, i as int, v@.len() as nat) == Some((trades_views(p.0@), p.1 as int))
                && p.1 <= v@.len(),
            Err(e) => sp_list(v@, i as int, v@.len() as nat) is None && e.is_decode(),
        },
{
    let n = v.len();
    let j = skip_ws(v, i);
    if j < n {
        if v[j] == ']' {
            let out: Vec<Trade> = Vec::new();
            proof {
                assert(trades_views(out@) =~= Seq::<TradeV>::empty());
            }
            return Ok((out, j + 1));
        }
    }
    let (t0, e0) = match parse_trade(v, i) {
        Ok(x) => x,
        Err(e) => {
            return Err(e);
        },
    };
    let mut out: Vec<Trade> = Vec::new();
    out.push(t0);
    let mut pos: usize = e0;
    let mut fuel: usize = n;
    proof {
        assert(trades_views(out@) =~= seq![t0@]);
    }
    loop
        invariant
            pos <= n,
            n == v@.len(),
            sp_list(v@, i as int, n as nat) == sp_list_rest(
                v@,
                pos as int,
                trades_views(out@),
                fuel as nat,
            ),
        decreases fuel,
    {
        let j2 = skip_ws(v, pos);
        if j2 >= n {
            return Err(dec_err("list"));
        }
        let c = v[j2];
        if c == ']' {
            return Ok((out, j2 + 1));
        }
        if c != ',' {
            return Err(dec_err("list"));
        }
        let (t, e) = match parse_trade(v, j2 + 1) {
            Ok(x) => x,
            Err(er) => {
                return Err(er);
            },
        };
        if fuel == 0 {
            return Err(dec_err("list"));
        }
        proof {
            assert(trades_views(out@.push(t)) =~= trades_views(out@).push(t@));
        }
        out.push(t);
        pos = e;
        fuel = fuel - 1;
    }
}

/// The page information object: `currentPage` and `count`, integer
/// values, between braces.
pub open spec fn sp_pagination(s: Seq<char>, i: int) -> Option<(Pagination, int)> {
    match sp_punct(s, i, '{') {
        None => None,
        Some(i1) => {
            let j = sp_ws(s, i1);
            match sp_key(s, j, key_current_page()) {
                None => None,
                Some(k1) => match sp_i64_value(s, sp_ws(s, k1)) {
                    None => None,
                    Some((cp, i2)) => match sp_punct(s, i2, ',') {
                        None => None,
                        Some(i3) => {
                            let j2 = sp_ws(s, i3);
                            match sp_key(s, j2, key_count()) {
                                None => None,
                                Some(k2) => match sp_i64_value(s, sp_ws(s, k2)) {
                                    None => None,
                                    Some((cnt, i4)) => match sp_punct(s, i4, '}') {
                                        None => None,
                                        Some(i5) => Some(
                                            (Pagination { currentPage: cp, count: cnt }, i5),
                                        ),
                                    },
                                },
                            }
                        },
                    },
                },
            }
        },
    }
}

fn parse_pagination(v: &Vec<char>, i: usize) -> (r: Result<(Pagination, usize), Error>)
    requires
        i <= v@.len(),
    ensures
        res_is(r, sp_pagination(v@, i as int)),
        r matches Ok(p) ==> p.1 <= v@.len(),
{
    let i1 = match match_punct(v, i, '{') {
        Some(x) => x,
        None => {
            return Err(dec_err("pagination"));
        },
    };
    let j = skip_ws(v, i1);
    let tok = tok_current_page();
    let k1 = match match_key(v, j, &tok) {
        Some(x) => x,
        None => {
            return Err(dec_err("currentPage"));
        },
    };
    let m1 = skip_ws(v, k1);
    let (cp, i2) = match parse_i64_value(v, m1) {
        Some(x) => x,
        None => {
            return Err(dec_err("currentPage"));
        },
    };
    let i3 = match match_punct(v, i2, ',') {
        Some(x) => x,
        None => {
            return Err(dec_err("pagination"));
        },
    };
    let j2 = skip_ws(v, i3);
    let tok = tok_count();
    let k2 = match match_key(v, j2, &tok) {
        Some(x) => x,
        None => {
            return Err(dec_err("count"));
        },
    };
    let m2 = skip_ws(v, k2);
    let (cnt, i4) = match parse_i64_value(v, m2) {
        Some(x) => x,
        None => {
            return Err(dec_err("count"));
        },
    };
    let i5 = match match_punct(v, i4, '}') {
        Some(x) => x,
        None => {
            return Err(dec_err("pagination"));
        },
    };
    Ok((Pagination { currentPage: cp, count: cnt }, i5))
}

/// The `data` object: the pagination block, then the trade list,
/// between braces.
pub open spec fn sp_data(s: Seq<char>, i: int, fuel: nat) -> Option<(DataV, int)> {
    match sp_punct(s, i, '{') {
        None => None,
        Some(i1) => {
            let j = sp_ws(s, i1);
            match sp_key(s, j, key_pagination()) {
                None => None,
                Some(i2) => match sp_pagination(s, i2) {
                    None => None,
                    Some((pg, i3)) => match sp_punct(s, i3, ',') {
                        None => None,
                        Some(i4) => {
                            let j2 = sp_ws(s, i4);
                            match sp_key(s, j2, key_list()) {
                                None => None,
                                Some(i5) => match sp_punct(s, i5, '[') {
                                    None => None,
                                    Some(i6) => match sp_list(s, i6, fuel) {
                                        None => None,
                                        Some((ts, i7)) => match sp_punct(s, i7, '}') {
                                            None => None,
                                            Some(i8) => Some(
                                                (DataV { list: ts, pagination: pg }, i8),
                                            ),
                                        },
                                    },
                                },
                            }
                        },
                    },
                },
            }
        },
    }
}

fn parse_data(v: &Vec<char>, i: usize) -> (r: Result<(Data, usize), Error>)
    requires
        i <= v@.len(),
    ensures
        match r {
            Ok(p) => sp_data(v@, i as int, v@.len() as nat) == Some((p.0@, p.1 as int)) && p.1
                <= v@.len(),
            Err(e) => sp_data(v@, i as int, v@.len() as nat) is None && e.is_decode(),
        },
{
    let i1 = match match_punct(v, i, '{') {
        Some(x) => x,
        None => {
            return Err(dec_err("data"));
        },
    };
    let j = skip_ws(v, i1);
    let tok = tok_pagination();
    let i2 = match match_key(v, j, &tok) {
        Some(x) => x,
        None => {
            return Err(dec_err("pagination"));
        },
    };
    let (pg, i3) = match parse_pagination(v, i2) {
        Ok(x) => x,
        Err(e) => {
            return Err(e);
        },
    };
    let i4 = match match_punct(v, i3, ',') {
        Some(x) => x,
        None => {
            return Err(dec_err("data"));
        },
    };
    let j2 = skip_ws(v, i4);
    let tok = tok_list();
    let i5 = match match_key(v, j2, &tok) {
        Some(x) => x,
        None => {
            return Err(dec_err("list"));
        },
    };
    let i6 = match match_punct(v, i5, '[') {
        Some(x) => x,
        None => {
            return Err(dec_err("list"));
        },
    };
    let (ts, i7) = match parse_list(v, i6) {
        Ok(x) => x,
        Err(e) => {
            return Err(e);
        },
    };
    let i8 = match match_punct(v, i7, '}') {
        Some(x) => x,
        None => {
            return Err(dec_err("data"));
        },
    };
    Ok((Data { list: ts, pagination: pg }, i8))
}

/// What a whole response body means: the documented envelope, with
/// `status`, then `data` (pagination and trade list), then
/// `responsetime`, and nothing but whitespace after the closing
/// brace.
pub open spec fn sp_envelope(s: Seq<char>) -> Option<TradesV> {
    match sp_punct(s, 0, '{') {
        None => None,
        Some(i1) => {
            let j = sp_ws(s, i1);
            match sp_key(s, j, key_status()) {
                None => None,
                Some(i2) => {
                    let j2 = sp_ws(s, i2);
                    match sp_status_num(s, j2) {
                        None => None,
                        Some((st, i3)) => match sp_punct(s, i3, ',') {
                            None => None,
                            Some(i4) => {
                                let j3 = sp_ws(s, i4);
                                match sp_key(s, j3, key_data()) {
                                    None => None,
                                    Some(i5) => match sp_data(s, i5, s.len()) {
                                        None => None,
                                        Some((data, i6)) => match sp_punct(s, i6, ',') {
                                            None => None,
                                            Some(i7) => match sp_str_member(
                                                s,
                                                i7,
                                                key_responsetime(),
                                            ) {
                                                None => None,
                                                Some((rtraw, i8)) => match sp_parse_timestamp(
                                                    rtraw,
                                                ) {
                                                    None => None,
                                                    Some(rt) => match sp_punct(s, i8, '}') {
                                                        None => None,
                                                        Some(i9) => if sp_ws(s, i9) == s.len() {
                                                            Some(
                                                                TradesV {
                                                                    status: st,
                                                                    responsetime: rt,
                                                                    data,
                                                                },
                                                            )
                                                        } else {
                                                            None
                                                        },
                                                    },
                                                },
                                            },
                                        },
                                    },
                                }
                            },
                        },
                    }
                },
            }
        },
    }
}

fn parse_envelope(v: &Vec<char>) -> (r: Result<Trades, Error>)
    ensures
        match r {
            Ok(t) => sp_envelope(v@) == Some(t@),
            Err(e) => sp_envelope(v@) is None && e.is_decode(),
        },
{
    let i1 = match match_punct(v, 0, '{') {
        Some(x) => x,
        None => {
            return Err(dec_err("json"));
        },
    };
    let j = skip_ws(v, i1);
    let tok = tok_status();
    let i2 = match match_key(v, j, &tok) {
        Some(x) => x,
        None => {
            return Err(dec_err("status"));
        },
    };
    let j2 = skip_ws(v, i2);
    let (st, i3) = match parse_status_num(v, j2) {
        Some(x) => x,
        None => {
            return Err(dec_err("status"));
        },
    };
    let i4 = match match_punct(v, i3, ',') {
        Some(x) => x,
        None => {
            return Err(dec_err("json"));
        },
    };
    let j3 = skip_ws(v, i4);
    let tok = tok_data();
    let i5 = match match_key(v, j3, &tok) {
        Some(x) => x,
        None => {
            return Err(dec_err("data"));
        },
    };
    let (data, i6) = match parse_data(v, i5) {
        Ok(x) => x,
        Err(e) => {
            return Err(e);
        },
    };
    let i7 = match match_punct(v, i6, ',') {
        Some(x) => x,
        None => {
            return Err(dec_err("json"));
        },
    };
    let tok = tok_responsetime();
    let (rtraw, i8) = match parse_str_member(v, i7, &tok) {
        Some(x) => x,
        None => {
            return Err(dec_err("responsetime"));
        },
    };
    let rt = match parse_timestamp_chars(&rtraw) {
        Some(x) => x,
        None => {
            return Err(dec_err("responsetime"));
        },
    };
    let i9 = match match_punct(v, i8, '}') {
        Some(x) => x,
        None => {
            return Err(dec_err("json"));
        },
    };
    let tail = skip_ws(v, i9);
    if tail != v.len() {
        return Err(dec_err("json"));
    }
    Ok(Trades { status: st, responsetime: rt, data })
}

/// Decodes a raw transport response into the typed envelope, keeping
/// the HTTP status code beside it.  It succeeds exactly when the body
/// is the documented JSON shape, and every failure it returns is a
/// decode error, never a transport error.
pub fn parse_from_http_response(response: &RawResponse) -> (r: Result<RestResponse<Trades>, Error>)
    ensures
        match r {
            Ok(resp) => sp_envelope(response.body_text@) == Some(resp.body@)
                && resp.http_status_code == response.http_status_code,
            Err(e) => sp_envelope(response.body_text@) is None && e.is_decode(),
        },
{
    let v = to_char_vec(response.body_text.as_str());
    match parse_envelope(&v) {
        Ok(t) => Ok(RestResponse { http_status_code: response.http_status_code, body: t }),
        Err(e) => Err(e),
    }
}

} // verus!
