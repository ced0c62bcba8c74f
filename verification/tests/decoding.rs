use arbitrage_bot::aevo::AevoBuilder;
use arbitrage_bot::arbitrage::{Venue, MAX_PRICE};
use arbitrage_bot::decode::{price_in, records, DecodeError};
use arbitrage_bot::dydx::DyDxBuilder;
use arbitrage_bot::json::Json;
use arbitrage_bot::price::parse_decimal;
use arbitrage_bot::socket_stream::{
    advance, listen, listen_to_stream, Attempt, ConnectError, Frame, Reading,
};

#[test]
fn aevo_reads_the_first_index_price() {
    let text = r#"{"channel":"ticker:ETH:PERPETUAL","data":{"timestamp":"1","tickers":[{"instrument_id":"1","index_price":"1234.5","mark":{"price":"9"}},{"index_price":"7"}]}}"#;
    assert_eq!(arbitrage_bot::aevo::handle_message(text), Ok(1_234_500_000));
    assert_eq!((1_234_500_000u64 as f64) / 1e6, 1234.5);
}

#[test]
fn dydx_reads_the_last_trade_price() {
    let text = r#"{"type":"channel_data","contents":{"trades":[{"price":"1.0","size":"2"},{"price":"1234.5","size":"0.1"}]}}"#;
    assert_eq!(arbitrage_bot::dydx::handle_message(text), Ok(1_234_500_000));
}

#[test]
fn missing_fields_fail() {
    let aevo = arbitrage_bot::aevo::handle_message;
    let dydx = arbitrage_bot::dydx::handle_message;
    assert_eq!(aevo(r#"{"data":{}}"#), Err(DecodeError::MissingField));
    assert_eq!(aevo(r#"{}"#), Err(DecodeError::MissingField));
    assert_eq!(aevo(r#"[1,2]"#), Err(DecodeError::MissingField));
    assert_eq!(aevo(r#"{"data":{"tickers":{"index_price":"1"}}}"#), Err(DecodeError::MissingField));
    assert_eq!(aevo(r#"{"data":{"tickers":[{"price":"1"}]}}"#), Err(DecodeError::MissingField));
    assert_eq!(aevo(r#"{"data":{"tickers":[{"index_price":1234.5}]}}"#), Err(DecodeError::MissingField));
    assert_eq!(aevo(r#"{"data":{"tickers":["1234.5"]}}"#), Err(DecodeError::MissingField));
    assert_eq!(dydx(r#"{"contents":{"trades":null}}"#), Err(DecodeError::MissingField));
    assert_eq!(dydx(r#"{"data":{"tickers":[{"index_price":"1"}]}}"#), Err(DecodeError::MissingField));
    assert_eq!(dydx(r#"{"contents":{"trades":[{"price":"1"},{"size":"1"}]}}"#), Err(DecodeError::MissingField));
}

#[test]
fn empty_batches_fail() {
    assert_eq!(
        arbitrage_bot::aevo::handle_message(r#"{"data":{"tickers":[]}}"#),
        Err(DecodeError::EmptyBatch)
    );
    assert_eq!(
        arbitrage_bot::dydx::handle_message(r#"{"contents":{"trades":[]}}"#),
        Err(DecodeError::EmptyBatch)
    );
}

#[test]
fn non_numeric_prices_fail() {
    assert_eq!(
        arbitrage_bot::aevo::handle_message(r#"{"data":{"tickers":[{"index_price":"abc"}]}}"#),
        Err(DecodeError::NumericParse)
    );
    assert_eq!(
        arbitrage_bot::dydx::handle_message(r#"{"contents":{"trades":[{"price":"12,5"}]}}"#),
        Err(DecodeError::NumericParse)
    );
    assert_eq!(
        arbitrage_bot::dydx::handle_message(r#"{"contents":{"trades":[{"price":""}]}}"#),
        Err(DecodeError::NumericParse)
    );
}

#[test]
fn malformed_messages_fail() {
    for text in ["", "{", "not json", r#"{"data":"#, r#"{"data":{}} trailing"#] {
        assert_eq!(arbitrage_bot::aevo::handle_message(text), Err(DecodeError::Malformed));
        assert_eq!(arbitrage_bot::dydx::handle_message(text), Err(DecodeError::Malformed));
    }
}

#[test]
fn venue_selects_the_decoder() {
    let aevo = r#"{"data":{"tickers":[{"index_price":"2"}]}}"#;
    let dydx = r#"{"contents":{"trades":[{"price":"3"}]}}"#;
    let handle_message = arbitrage_bot::socket_stream::handle_message;
    assert_eq!(handle_message(Venue::Aevo, aevo), Ok(2_000_000));
    assert_eq!(handle_message(Venue::DyDx, dydx), Ok(3_000_000));
    assert_eq!(handle_message(Venue::Aevo, dydx), Err(DecodeError::MissingField));
    assert_eq!(handle_message(Venue::DyDx, aevo), Err(DecodeError::MissingField));
}

#[test]
fn frames_give_prices_or_are_passed_over() {
    let good = Frame::Text(r#"{"contents":{"trades":[{"price":"3.25"}]}}"#.to_string());
    assert_eq!(listen_to_stream(Venue::DyDx, &good), Reading::Price(3_250_000));
    assert_eq!(listen_to_stream(Venue::Aevo, &good), Reading::Skipped);
    let bad = Frame::Text("{".to_string());
    assert_eq!(listen_to_stream(Venue::DyDx, &bad), Reading::Skipped);
    assert_eq!(listen_to_stream(Venue::DyDx, &Frame::Other), Reading::Skipped);
    assert_eq!(listen_to_stream(Venue::Aevo, &Frame::Failed), Reading::TransportError);
}

#[test]
fn decimal_text_is_read_in_millionths() {
    assert_eq!(parse_decimal("1234.5"), Ok(1_234_500_000));
    assert_eq!(parse_decimal("0"), Ok(0));
    assert_eq!(parse_decimal("0.000001"), Ok(1));
    assert_eq!(parse_decimal("007"), Ok(7_000_000));
    assert_eq!(parse_decimal(".5"), Ok(500_000));
    assert_eq!(parse_decimal("5."), Ok(5_000_000));
    assert_eq!(parse_decimal("3456.123456"), Ok(3_456_123_456));
    assert_eq!(parse_decimal("1.2345678"), Ok(1_234_567));
    assert_eq!(parse_decimal("0.0000009"), Ok(0));
    assert_eq!(parse_decimal("1000000000"), Ok(MAX_PRICE as i64));
    assert_eq!(parse_decimal("1000000000.0000009"), Ok(MAX_PRICE as i64));
}

#[test]
fn signs_and_exponents_are_read() {
    assert_eq!(parse_decimal("+1"), Ok(1_000_000));
    assert_eq!(parse_decimal("+1.5"), Ok(1_500_000));
    assert_eq!(parse_decimal("+.5"), Ok(500_000));
    assert_eq!(parse_decimal("1e3"), Ok(1_000_000_000));
    assert_eq!(parse_decimal("1E3"), Ok(1_000_000_000));
    assert_eq!(parse_decimal("1e+3"), Ok(1_000_000_000));
    assert_eq!(parse_decimal("2.5E-1"), Ok(250_000));
    assert_eq!(parse_decimal("2.5e0"), Ok(2_500_000));
    assert_eq!(parse_decimal(".5e1"), Ok(5_000_000));
    assert_eq!(parse_decimal("5.e0"), Ok(5_000_000));
    assert_eq!(parse_decimal("123456789e-3"), Ok(123_456_789_000));
    assert_eq!(parse_decimal("1234.5678e-2"), Ok(12_345_678));
    assert_eq!(parse_decimal("1e-6"), Ok(1));
    assert_eq!(parse_decimal("1e-7"), Ok(0));
    assert_eq!(parse_decimal("9e-7"), Ok(0));
    assert_eq!(parse_decimal("1e9"), Ok(MAX_PRICE as i64));
    assert_eq!(parse_decimal("0.001e12"), Ok(MAX_PRICE as i64));
    assert_eq!(parse_decimal("1e0000000000000000000000000000000000000003"), Ok(1_000_000_000));
    assert_eq!(parse_decimal("0e99999999999999999999999999999999999999"), Ok(0));
    assert_eq!(parse_decimal("0.000e20"), Ok(0));
    assert_eq!(parse_decimal("1e-99999999999999999999999999999999999999"), Ok(0));
    assert_eq!(parse_decimal("0.00000000000000000000001e23"), Ok(1_000_000));
    for (text, value) in [("1e3", 1e3f64), ("2.5E-1", 2.5e-1), ("+1.5", 1.5), ("1234.5", 1234.5)] {
        let micros = parse_decimal(text).expect("a price");
        assert_eq!(text.parse::<f64>().unwrap(), value);
        assert!(((micros as f64) / 1e6 - value).abs() < 1e-6);
    }
}

#[test]
fn what_is_no_number_is_refused() {
    for text in [
        "", ".", "..", "1..2", "1.2.3", "1e", "e5", ".e5", "1e+", "1e-", "1e5.5", "1e5e5", "1E5E5",
        "+", "-", "+-1", "-+1", "++1", "1e--1", " 1", "1 ", "abc", "1,5", "inf", "+inf", "-inf",
        "infinity", "NaN", "nan", "-nan", "１２", "1.٣", "0x10", "1_000", "1f",
    ] {
        assert_eq!(parse_decimal(text), Err(DecodeError::NumericParse), "{:?}", text);
    }
}

#[test]
fn numbers_below_zero_are_read() {
    assert_eq!(parse_decimal("-1"), Ok(-1_000_000));
    assert_eq!(parse_decimal("-1.5"), Ok(-1_500_000));
    assert_eq!(parse_decimal("-.5"), Ok(-500_000));
    assert_eq!(parse_decimal("-1e3"), Ok(-1_000_000_000));
    assert_eq!(parse_decimal("-2.5E-1"), Ok(-250_000));
    assert_eq!(parse_decimal("-0"), Ok(0));
    assert_eq!(parse_decimal("-0.0"), Ok(0));
    assert_eq!(parse_decimal("+0"), Ok(0));
    assert_eq!(parse_decimal("-0e5"), Ok(0));
    assert_eq!(parse_decimal("-0.0000001"), Ok(0));
    assert_eq!(parse_decimal("-9223372036854.775807"), Ok(-i64::MAX));
    assert_eq!(parse_decimal("-9223372036854.775808"), Ok(i64::MIN));
    assert_eq!(parse_decimal("-9223372036854.7758089"), Ok(i64::MIN));
    assert_eq!("-1.5".parse::<f64>().unwrap(), -1.5);
}

#[test]
fn numbers_beyond_64_bits_are_out_of_range() {
    for text in [
        "9223372036854.775808", "9223372036855", "-9223372036854.775809", "-9223372036855",
        "18446744073709.551615", "1e13", "-1e13", "1e14", "0.1e15",
        "99999999999999999999999999999999999999", "-99999999999999999999999999999999999999",
        "1e99999999999999999999999999999999999999", "-1e99999999999999999999999999999999999999",
        "0.0000000000000000000000000000001e45",
    ] {
        assert_eq!(parse_decimal(text), Err(DecodeError::OutOfRange), "{:?}", text);
    }
}

#[test]
fn prices_above_the_engine_range_are_read() {
    assert_eq!(parse_decimal("1000000000.000001"), Ok(MAX_PRICE as i64 + 1));
    assert_eq!(parse_decimal("1000000001"), Ok(1_000_000_001_000_000));
    assert_eq!(parse_decimal("1e10"), Ok(10_000_000_000_000_000));
    assert_eq!(parse_decimal("1e12"), Ok(1_000_000_000_000_000_000));
    assert_eq!(parse_decimal("9223372036854.775807"), Ok(i64::MAX));
    assert_eq!(parse_decimal("9223372036854775807e-6"), Ok(i64::MAX));
    assert_eq!(parse_decimal("0.000000000000009223372036854775807e27"), Ok(i64::MAX));
    assert_eq!(parse_decimal("9.223372036854775807e12"), Ok(i64::MAX));
    assert_eq!(parse_decimal("0.00000000000000000001e32"), Ok(1_000_000_000_000_000_000));
}

#[test]
fn decoders_take_signs_and_exponents() {
    assert_eq!(
        arbitrage_bot::aevo::handle_message(r#"{"data":{"tickers":[{"index_price":"1e3"}]}}"#),
        Ok(1_000_000_000)
    );
    assert_eq!(
        arbitrage_bot::aevo::handle_message(r#"{"data":{"tickers":[{"index_price":"+1.5"}]}}"#),
        Ok(1_500_000)
    );
    assert_eq!(
        arbitrage_bot::dydx::handle_message(r#"{"contents":{"trades":[{"price":"2.5E-1"}]}}"#),
        Ok(250_000)
    );
    assert_eq!(
        arbitrage_bot::dydx::handle_message(r#"{"contents":{"trades":[{"price":"-2.5"}]}}"#),
        Ok(-2_500_000)
    );
    assert_eq!(
        arbitrage_bot::dydx::handle_message(r#"{"contents":{"trades":[{"price":"-0"}]}}"#),
        Ok(0)
    );
    assert_eq!(
        arbitrage_bot::aevo::handle_message(r#"{"data":{"tickers":[{"index_price":"-0.0"}]}}"#),
        Ok(0)
    );
    assert_eq!(
        arbitrage_bot::aevo::handle_message(r#"{"data":{"tickers":[{"index_price":"1e10"}]}}"#),
        Ok(10_000_000_000_000_000)
    );
    assert_eq!(
        arbitrage_bot::aevo::handle_message(r#"{"data":{"tickers":[{"index_price":"1e14"}]}}"#),
        Err(DecodeError::OutOfRange)
    );
    assert_eq!(
        arbitrage_bot::aevo::handle_message(r#"{"data":{"tickers":[{"index_price":"NaN"}]}}"#),
        Err(DecodeError::NumericParse)
    );
    let frame = Frame::Text(r#"{"contents":{"trades":[{"price":"-2.5"}]}}"#.to_string());
    assert_eq!(listen_to_stream(Venue::DyDx, &frame), Reading::Price(-2_500_000));
}

fn object(entries: Vec<(&str, Json)>) -> Json {
    Json::Object(entries.into_iter().map(|(k, v)| (k.to_string(), v)).collect())
}

#[test]
fn members_are_found_by_key() {
    let doc = object(vec![
        ("a", Json::Bool(true)),
        ("b", Json::Text("x".to_string())),
        ("", Json::Null),
    ]);
    assert!(matches!(doc.get("a"), Some(Json::Bool(true))));
    assert_eq!(doc.get("b").and_then(|v| v.as_str()), Some("x"));
    assert!(matches!(doc.get(""), Some(Json::Null)));
    assert!(doc.get("c").is_none());
    assert!(doc.get("A").is_none());
    assert!(Json::Array(vec![]).get("a").is_none());
    assert!(Json::Null.get("a").is_none());
    assert!(doc.as_array().is_none());
    assert!(doc.as_str().is_none());
    assert_eq!(Json::Array(vec![Json::Number, Json::Null]).as_array().map(|v| v.len()), Some(2));
}

#[test]
fn documents_are_decoded_without_the_parser() {
    let ticker = object(vec![("index_price", Json::Text("10.25".to_string()))]);
    let late = object(vec![("index_price", Json::Text("11".to_string()))]);
    let doc = object(vec![("data", object(vec![("tickers", Json::Array(vec![ticker, late]))]))]);
    assert_eq!(arbitrage_bot::aevo::decode_document(&doc), Ok(10_250_000));
    assert_eq!(arbitrage_bot::dydx::decode_document(&doc), Err(DecodeError::MissingField));
    assert_eq!(records(&doc, "data", "tickers").map(|v| v.len()), Some(2));
    assert!(records(&doc, "data", "trades").is_none());
    assert!(records(&doc, "tickers", "data").is_none());

    let first = object(vec![("price", Json::Text("1".to_string()))]);
    let last = object(vec![("price", Json::Text("2.5".to_string())), ("size", Json::Number)]);
    assert_eq!(price_in(&last, "price"), Ok(2_500_000));
    assert_eq!(price_in(&last, "size"), Err(DecodeError::MissingField));
    assert_eq!(price_in(&last, "side"), Err(DecodeError::MissingField));
    let doc = object(vec![("contents", object(vec![("trades", Json::Array(vec![first, last]))]))]);
    assert_eq!(arbitrage_bot::dydx::decode_document(&doc), Ok(2_500_000));
    let empty = object(vec![("contents", object(vec![("trades", Json::Array(vec![]))]))]);
    assert_eq!(arbitrage_bot::dydx::decode_document(&empty), Err(DecodeError::EmptyBatch));
}

#[test]
fn parser_builds_the_whole_document() {
    let doc = Json::parse(r#"{"b":[null,true,1.5,"s",{"k":[]}],"a":{"x":"y"}}"#).expect("a document");
    let items = doc.get("b").and_then(|v| v.as_array()).expect("an array");
    assert_eq!(items.len(), 5);
    assert!(matches!(items[0], Json::Null));
    assert!(matches!(items[1], Json::Bool(true)));
    assert!(matches!(items[2], Json::Number));
    assert_eq!(items[3].as_str(), Some("s"));
    assert_eq!(items[4].get("k").and_then(|v| v.as_array()).map(|v| v.len()), Some(0));
    assert_eq!(doc.get("a").and_then(|v| v.get("x")).and_then(|v| v.as_str()), Some("y"));
    assert!(Json::parse("{").is_none());
    assert!(matches!(Json::parse(" \"text\" "), Some(Json::Text(_))));
}

#[test]
fn repeated_key_keeps_the_last_value() {
    let text = r#"{"contents":{"trades":[{"price":"1","price":"2"}]}}"#;
    assert_eq!(arbitrage_bot::dydx::handle_message(text), Ok(2_000_000));
}

#[test]
fn builders_hold_endpoint_and_subscription() {
    let aevo = AevoBuilder::new();
    assert_eq!(aevo.url, "wss://ws.aevo.xyz");
    let mut data = serde_json::Map::new();
    data.insert("op".to_string(), serde_json::Value::String("subscribe".to_string()));
    data.insert(
        "data".to_string(),
        serde_json::Value::Array(vec![serde_json::Value::String("ticker:ETH:PERPETUAL".to_string())]),
    );
    let expected = serde_json::Value::Object(data);
    assert_eq!(serde_json::from_str::<serde_json::Value>(&aevo.subscribe_message).unwrap(), expected);
    assert_eq!(aevo.subscribe_message, expected.to_string());

    let dydx = DyDxBuilder::new();
    assert_eq!(dydx.url, "wss://indexer.dydx.trade/v4/ws");
    let mut data = serde_json::Map::new();
    data.insert("type".to_string(), serde_json::Value::String("subscribe".to_string()));
    data.insert("channel".to_string(), serde_json::Value::String("v4_trades".to_string()));
    data.insert("id".to_string(), serde_json::Value::String("ETH-USD".to_string()));
    let expected = serde_json::Value::Object(data);
    assert_eq!(serde_json::from_str::<serde_json::Value>(&dydx.subscribe_message).unwrap(), expected);
    assert_eq!(dydx.subscribe_message, expected.to_string());
}

#[test]
fn connection_attempts_end_once() {
    let opened = advance(Attempt::Opening, true);
    assert_eq!(opened, Attempt::Subscribing);
    assert_eq!(advance(opened, true), Attempt::Connected);
    assert_eq!(
        advance(opened, false),
        Attempt::Failed(ConnectError::HandshakeFailure)
    );
    let failed = advance(Attempt::Opening, false);
    assert_eq!(failed, Attempt::Failed(ConnectError::TransportFailure));
    assert_eq!(advance(failed, true), failed);
    assert_eq!(advance(failed, false), failed);
    assert_eq!(advance(Attempt::Connected, false), Attempt::Connected);
}

#[test]
fn stream_yields_the_prices_in_the_order_of_their_frames() {
    let frames = vec![
        Frame::Text(r#"{"contents":{"trades":[{"price":"3.25"}]}}"#.to_string()),
        Frame::Other,
        Frame::Text("{".to_string()),
        Frame::Failed,
        Frame::Text(r#"{"contents":{"trades":[]}}"#.to_string()),
        Frame::Text(r#"{"contents":{"trades":[{"price":"1"},{"price":"-4e0"}]}}"#.to_string()),
        Frame::Text(r#"{"data":{"tickers":[{"index_price":"7"}]}}"#.to_string()),
        Frame::Text(r#"{"contents":{"trades":[{"price":"3.25"}]}}"#.to_string()),
        Frame::Failed,
    ];
    assert_eq!(listen(Venue::DyDx, &frames), vec![3_250_000, -4_000_000, 3_250_000]);
    assert_eq!(listen(Venue::Aevo, &frames), vec![7_000_000]);
    assert_eq!(listen(Venue::Aevo, &Vec::new()), Vec::<i64>::new());
    assert_eq!(listen(Venue::Aevo, &vec![Frame::Failed, Frame::Other]), Vec::<i64>::new());
}
