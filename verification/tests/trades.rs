use gmo_coin::error::Error;
use gmo_coin::http_client::{HttpClient, InmemClient};
use gmo_coin::public::trades::{build_trades_url, get_trades, get_trades_with_options};
use gmo_coin::symbol::Symbol;

const TRADES_RESPONSE_SAMPLE: &str = r#"
          {
            "status": 0,
            "data": {
              "pagination": {
                "currentPage": 1,
                "count": 30
              },
              "list": [
                {
                  "price": "750760",
                  "side": "BUY",
                  "size": "0.1",
                  "timestamp": "2018-03-30T12:34:56.789Z"
                },
                {
                    "price": "750760",
                    "side": "BUY",
                    "size": "0.1",
                    "timestamp": "2018-03-30T12:34:56.789Z"
                }
              ]
            },
            "responsetime": "2019-03-28T09:28:07.980Z"
          }
          "#;

#[test]
fn should_return_ok_when_http_client_returns_correct_response() {
    let body = TRADES_RESPONSE_SAMPLE;
    let http_client = InmemClient {
        http_status_code: 200,
        body_text: body.to_string(),
        return_error: false,
    };
    let resp = get_trades(&http_client, &Symbol::Btc).unwrap();
    assert_eq!(resp.http_status_code, 200);
    assert_eq!(resp.body.status, 0);
    assert_eq!(
        resp.body.responsetime.to_rfc3339_millis(),
        "2019-03-28T09:28:07.980Z"
    );
    assert_eq!(resp.pagination().count, 30);
    assert_eq!(resp.pagination().currentPage, 1);
    let trades = resp.trades();
    assert_eq!(trades.len(), 2);
}

#[test]
fn decoded_trade_fields_match_the_wire_values() {
    let http_client = InmemClient {
        http_status_code: 200,
        body_text: TRADES_RESPONSE_SAMPLE.to_string(),
        return_error: false,
    };
    let resp = get_trades(&http_client, &Symbol::Btc).unwrap();
    let trades = resp.trades();
    assert_eq!(trades[0].price, 750760);
    assert_eq!(trades[0].side, "BUY");
    assert_eq!(trades[0].size.mantissa, 1);
    assert_eq!(trades[0].size.scale, 1);
    assert_eq!(
        trades[0].timestamp.to_rfc3339_millis(),
        "2018-03-30T12:34:56.789Z"
    );
}

#[test]
fn malformed_json_gives_a_decode_error_not_a_panic() {
    let http_client = InmemClient {
        http_status_code: 200,
        body_text: "{\"status\": 0, nonsense".to_string(),
        return_error: false,
    };
    let r = get_trades(&http_client, &Symbol::Btc);
    match r {
        Err(Error::DecodeError { .. }) => {}
        _ => panic!("expected a decode error"),
    }
}

#[test]
fn error_flag_returns_the_opaque_error_regardless_of_arguments() {
    let http_client = InmemClient {
        http_status_code: 200,
        body_text: TRADES_RESPONSE_SAMPLE.to_string(),
        return_error: true,
    };
    match get_trades(&http_client, &Symbol::Btc) {
        Err(Error::UnknownError) => {}
        _ => panic!("expected the opaque error"),
    }
    match get_trades_with_options(&http_client, &Symbol::Eth, 7, 9) {
        Err(Error::UnknownError) => {}
        _ => panic!("expected the opaque error"),
    }
}

#[test]
fn non_numeric_price_fails_naming_the_field() {
    let body = TRADES_RESPONSE_SAMPLE.replace("\"750760\"", "\"abc\"");
    let http_client = InmemClient {
        http_status_code: 200,
        body_text: body,
        return_error: false,
    };
    match get_trades(&http_client, &Symbol::Btc) {
        Err(Error::DecodeError { field }) => assert_eq!(field, "price"),
        _ => panic!("expected a decode error naming the price field"),
    }
}

#[test]
fn explicit_page_and_count_stand_in_the_url() {
    let url = build_trades_url(&Symbol::Btc, 2, 50);
    assert_eq!(
        url,
        "https://api.coin.z.com/public/v1/trades?symbol=BTC&page=2&count=50"
    );
    assert!(url.contains("page=2&count=50"));
}

#[test]
fn omitted_page_and_count_default_to_one_and_one_hundred() {
    let url = build_trades_url(&Symbol::Btc, 1, 100);
    assert_eq!(
        url,
        "https://api.coin.z.com/public/v1/trades?symbol=BTC&page=1&count=100"
    );
}

#[test]
fn transport_errors_stay_distinct_from_decode_errors() {
    let e = Error::TransportError {
        message: "connection refused".to_string(),
    };
    match e {
        Error::TransportError { message } => assert_eq!(message, "connection refused"),
        _ => unreachable!(),
    }
    let http_client = InmemClient {
        http_status_code: 200,
        body_text: "not json".to_string(),
        return_error: false,
    };
    match get_trades(&http_client, &Symbol::Btc) {
        Err(Error::DecodeError { .. }) => {}
        _ => panic!("an unreadable body must give a decode error, not a transport error"),
    }
}

#[test]
fn test_transport_is_deterministic_across_calls_and_urls() {
    let http_client = InmemClient {
        http_status_code: 404,
        body_text: "not json".to_string(),
        return_error: false,
    };
    for symbol in [Symbol::Btc, Symbol::Eth, Symbol::Xrp] {
        for page in [1, 2, 3] {
            let raw = http_client
                .get(build_trades_url(&symbol, page, 10))
                .unwrap();
            assert_eq!(raw.http_status_code, 404);
            assert_eq!(raw.body_text, "not json");
        }
    }
}

#[test]
fn empty_trade_list_decodes_to_no_trades() {
    let body = "{\"status\":0,\"data\":{\"pagination\":{\"currentPage\":\"1\",\"count\":\"0\"},\"list\":[]},\"responsetime\":\"2019-03-28T09:28:07.980Z\"}";
    let http_client = InmemClient {
        http_status_code: 200,
        body_text: body.to_string(),
        return_error: false,
    };
    let resp = get_trades(&http_client, &Symbol::Btc).unwrap();
    assert_eq!(resp.trades().len(), 0);
    assert_eq!(resp.pagination().count, 0);
}

#[test]
fn members_out_of_the_documented_order_are_refused() {
    let body = "{\"responsetime\":\"2019-03-28T09:28:07.980Z\",\"status\":0,\"data\":{\"pagination\":{\"currentPage\":1,\"count\":30},\"list\":[]}}";
    let http_client = InmemClient {
        http_status_code: 200,
        body_text: body.to_string(),
        return_error: false,
    };
    match get_trades(&http_client, &Symbol::Btc) {
        Err(Error::DecodeError { .. }) => {}
        _ => panic!("expected a decode error for a reordered body"),
    }
}

#[test]
fn out_of_range_or_fractional_status_is_refused() {
    for status in ["40000", "-40000", "0.5", "1e3"] {
        let body = TRADES_RESPONSE_SAMPLE.replace("\"status\": 0", &format!("\"status\": {}", status));
        let http_client = InmemClient {
            http_status_code: 200,
            body_text: body,
            return_error: false,
        };
        match get_trades(&http_client, &Symbol::Btc) {
            Err(Error::DecodeError { field }) => assert_eq!(field, "status"),
            _ => panic!("expected a decode error for the status field"),
        }
    }
}

#[test]
fn trailing_text_after_the_envelope_is_refused() {
    let mut body = TRADES_RESPONSE_SAMPLE.to_string();
    body.push_str("x");
    let http_client = InmemClient {
        http_status_code: 200,
        body_text: body,
        return_error: false,
    };
    match get_trades(&http_client, &Symbol::Btc) {
        Err(Error::DecodeError { .. }) => {}
        _ => panic!("expected a decode error for trailing text"),
    }
}

#[test]
fn escaped_characters_in_strings_decode() {
    let body = TRADES_RESPONSE_SAMPLE.replacen("\"BUY\"", "\"B\\\"U\\\\Y\\n\"", 1);
    let http_client = InmemClient {
        http_status_code: 200,
        body_text: body,
        return_error: false,
    };
    let resp = get_trades(&http_client, &Symbol::Btc).unwrap();
    assert_eq!(resp.trades()[0].side, "B\"U\\Y\n");
    assert_eq!(resp.trades()[1].side, "BUY");
}
