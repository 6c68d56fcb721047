use arb::binance::ws::{apply_ticker, is_ack, subscription, BookTicker, STALE_MSG_WARN_MS};
use arb::double::Double;
use arb::feed::FeedError;
use arb::state::{PriceData, State};
use serde_json::Value;

fn d(x: f64) -> Double {
    Double { bits: x.to_bits() }
}

fn ticker(symbol: &str, bid: Option<f64>, ask: Option<f64>, time: i64) -> BookTicker {
    BookTicker {
        symbol: symbol.to_string(),
        bid_price: bid.map(d),
        ask_price: ask.map(d),
        transaction_time: time,
    }
}

#[test]
fn answers_to_a_subscription() {
    assert!(is_ack("{\"result\":null,\"id\":1}"));
    assert!(is_ack("{\"id\":1}"));
    assert!(!is_ack("{\"e\":\"bookTicker\",\"id\":1}"));
    assert!(is_ack("{\"e\":\"bookTicker\",\"result\":null}"));
    assert!(!is_ack("{\"e\":\"bookTicker\",\"s\":\"TAOUSDT\"}"));
    assert!(!is_ack("{\"result\": null}"));
    assert!(!is_ack(""));
}

#[test]
fn prices_are_kept() {
    let mut s = State::new_at(0);
    assert!(matches!(apply_ticker(ticker("TAOUSDT", Some(246.38), Some(246.39), 77), &mut s, 99), Ok(true)));
    assert_eq!(
        s.binance_prices.get("TAOUSDT"),
        Some(&PriceData { bid: d(246.38), ask: d(246.39), timestamp_ms: 77 })
    );
    assert!(matches!(apply_ticker(ticker("SUIUSDT", Some(1.0), Some(2.0), 0), &mut s, 99), Ok(true)));
    assert_eq!(s.binance_prices.get("SUIUSDT").unwrap().timestamp_ms, 99);
    assert_eq!(s.binance_prices.get("TAOUSDT").unwrap().timestamp_ms, 77);
    assert!(matches!(apply_ticker(ticker("TAOUSDT", Some(3.0), Some(4.0), -1), &mut s, 100), Ok(true)));
    assert_eq!(
        s.binance_prices.get("TAOUSDT"),
        Some(&PriceData { bid: d(3.0), ask: d(4.0), timestamp_ms: 100 })
    );
}

#[test]
fn prices_of_zero_or_below_are_skipped() {
    let mut s = State::new_at(0);
    for (b, a) in [(0.0, 1.0), (1.0, 0.0), (-1.0, 1.0), (1.0, -0.0)] {
        assert!(matches!(apply_ticker(ticker("X", Some(b), Some(a), 1), &mut s, 2), Ok(false)));
    }
    assert_eq!(s.binance_prices.len(), 0);
    assert!(matches!(apply_ticker(ticker("X", Some(f64::NAN), Some(1.0), 1), &mut s, 2), Ok(true)));
}

#[test]
fn prices_that_are_no_numbers_are_refused() {
    let mut s = State::new_at(0);
    assert!(matches!(apply_ticker(ticker("X", None, Some(1.0), 1), &mut s, 2), Err(FeedError::BadBid)));
    assert!(matches!(apply_ticker(ticker("X", None, None, 1), &mut s, 2), Err(FeedError::BadBid)));
    assert!(matches!(apply_ticker(ticker("X", Some(1.0), None, 1), &mut s, 2), Err(FeedError::BadAsk)));
    assert_eq!(s.binance_prices.len(), 0);
}

#[test]
fn request_for_prices() {
    let symbols = vec!["TAOUSDT".to_string(), "SuiUSDT".to_string()];
    assert_eq!(
        subscription(&symbols),
        "{\"id\":1,\"method\":\"SUBSCRIBE\",\"params\":[\"taousdt@bookTicker\",\"suiusdt@bookTicker\"]}"
    );
    for list in [vec![], vec!["\u{130}\"\u{c9}".to_string()], symbols] {
        let mut o = serde_json::Map::new();
        o.insert("method".to_string(), Value::String("SUBSCRIBE".to_string()));
        let names: Vec<Value> =
            list.iter().map(|s| Value::String(format!("{}@bookTicker", s.to_lowercase()))).collect();
        o.insert("params".to_string(), Value::Array(names));
        o.insert("id".to_string(), Value::from(1));
        assert_eq!(subscription(&list), Value::Object(o).to_string());
    }
    assert_eq!(STALE_MSG_WARN_MS, 200);
}
