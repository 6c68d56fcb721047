use arb::double::Double;
use arb::feed::FeedError;
use arb::mexc::ws_public::{
    apply_depth, from_mexc_symbol, handle_text, inbound, route, subscriptions, DepthFullData,
    DepthFullPush, DepthRow, Route, STALE_MSG_WARN_MS,
};
use arb::state::{PriceData, State};
use serde_json::Value;

fn d(x: f64) -> Double {
    Double { bits: x.to_bits() }
}

fn row(values: &[f64]) -> DepthRow {
    let steps = if values.is_empty() { 0 } else { (values[0] * 1e8).round() as i64 };
    DepthRow {
        values: values.iter().map(|v| d(*v)).collect(),
        steps,
        price: d(steps as f64 / 1e8),
    }
}

fn push(symbol: &str, ts: Option<i64>, bids: &[&[f64]], asks: &[&[f64]]) -> DepthFullPush {
    DepthFullPush {
        symbol: Some(symbol.to_string()),
        ts,
        data: Some(DepthFullData {
            asks: asks.iter().map(|r| row(r)).collect(),
            bids: bids.iter().map(|r| row(r)).collect(),
            version: 42,
        }),
    }
}

fn prices(s: &State, symbol: &str) -> Option<PriceData> {
    s.mexc_prices.get(symbol).copied()
}

#[test]
fn a_book_replaces_the_old_one() {
    let mut s = State::new_at(0);
    let p = push("TAO_USDT", Some(500), &[&[246.3, 5.0], &[246.1, 1.0]], &[&[246.5, 2.0], &[246.4, 3.0]]);
    assert!(matches!(apply_depth(p, &mut s, 900), Ok(true)));
    assert_eq!(
        prices(&s, "TAOUSDT"),
        Some(PriceData { bid: d(246.3), ask: d(246.4), timestamp_ms: 500 })
    );
    let b = s.mexc_books.get("TAOUSDT").unwrap();
    assert_eq!((b.bids.len(), b.asks.len(), b.version, b.last_update_ms), (2, 2, 42, 500));
    let p = push("TAO_USDT", None, &[&[10.0, 1.0]], &[&[11.0, 1.0]]);
    assert!(matches!(apply_depth(p, &mut s, 900), Ok(true)));
    let b = s.mexc_books.get("TAOUSDT").unwrap();
    assert_eq!((b.bids.len(), b.asks.len(), b.last_update_ms), (1, 1, 900));
    assert_eq!(b.best_bid(), Some((d(10.0), d(1.0))));
    assert_eq!(
        prices(&s, "TAOUSDT"),
        Some(PriceData { bid: d(10.0), ask: d(11.0), timestamp_ms: 900 })
    );
}

#[test]
fn rows_without_a_positive_price_and_volume_are_left_out() {
    let mut s = State::new_at(0);
    let p = push(
        "X_USDT",
        Some(-1),
        &[&[1.0], &[], &[2.0, 0.0], &[0.0, 5.0], &[-3.0, 5.0], &[f64::NAN, 1.0], &[1.5, 7.0, 9.0]],
        &[&[2.5, -1.0], &[2.25, 1.0], &[2.25, 8.0]],
    );
    assert!(matches!(apply_depth(p, &mut s, 3), Ok(true)));
    let b = s.mexc_books.get("XUSDT").unwrap();
    assert_eq!(b.bids.len(), 1);
    assert_eq!(b.best_bid(), Some((d(1.5), d(7.0))));
    assert_eq!(b.asks.len(), 1);
    assert_eq!(b.best_ask(), Some((d(2.25), d(8.0))));
    assert_eq!(b.last_update_ms, 3);
}

#[test]
fn a_book_with_an_empty_side_is_skipped() {
    let mut s = State::new_at(0);
    assert!(matches!(apply_depth(push("X_USDT", None, &[], &[&[1.0, 1.0]]), &mut s, 3), Ok(false)));
    assert!(matches!(apply_depth(push("X_USDT", None, &[&[1.0, 1.0]], &[]), &mut s, 3), Ok(false)));
    assert_eq!(s.mexc_books.len(), 0);
}

#[test]
fn a_book_without_best_prices_leaves_the_old_ones() {
    let mut s = State::new_at(0);
    let p = push("X_USDT", Some(1), &[&[1.0, 1.0]], &[&[2.0, 1.0]]);
    assert!(matches!(apply_depth(p, &mut s, 3), Ok(true)));
    let p = push("X_USDT", Some(2), &[&[0.0, 1.0]], &[&[3.0, 1.0]]);
    assert!(matches!(apply_depth(p, &mut s, 3), Ok(false)));
    assert_eq!(prices(&s, "XUSDT"), Some(PriceData { bid: d(1.0), ask: d(2.0), timestamp_ms: 1 }));
    assert_eq!(s.mexc_books.get("XUSDT").unwrap().bids.len(), 0);
    let tiny = push("X_USDT", Some(5), &[&[1e-9, 1.0]], &[&[3.0, 1.0]]);
    assert!(matches!(apply_depth(tiny, &mut s, 3), Ok(false)));
    assert_eq!(s.mexc_books.get("XUSDT").unwrap().best_bid(), Some((d(0.0), d(1.0))));
    assert_eq!(prices(&s, "XUSDT"), Some(PriceData { bid: d(1.0), ask: d(2.0), timestamp_ms: 1 }));
}

#[test]
fn a_book_needs_a_symbol_and_levels() {
    let mut s = State::new_at(0);
    let mut p = push("X_USDT", None, &[&[1.0, 1.0]], &[&[2.0, 1.0]]);
    p.symbol = None;
    assert!(matches!(apply_depth(p, &mut s, 3), Err(FeedError::NoSymbol)));
    let p = DepthFullPush { symbol: None, ts: None, data: None };
    assert!(matches!(apply_depth(p, &mut s, 3), Err(FeedError::NoSymbol)));
    let p = DepthFullPush { symbol: Some("X_USDT".to_string()), ts: None, data: None };
    assert!(matches!(apply_depth(p, &mut s, 3), Err(FeedError::NoData)));
    assert_eq!(s.mexc_books.len(), 0);
}

#[test]
fn a_book_concerns_one_symbol() {
    let mut s = State::new_at(0);
    apply_depth(push("X_USDT", Some(1), &[&[1.0, 1.0]], &[&[2.0, 1.0]]), &mut s, 3).unwrap();
    apply_depth(push("Y_USDT", Some(1), &[&[5.0, 1.0]], &[&[6.0, 1.0]]), &mut s, 3).unwrap();
    assert_eq!(prices(&s, "XUSDT"), Some(PriceData { bid: d(1.0), ask: d(2.0), timestamp_ms: 1 }));
    assert_eq!(prices(&s, "YUSDT"), Some(PriceData { bid: d(5.0), ask: d(6.0), timestamp_ms: 1 }));
    assert_eq!(s.mexc_books.len(), 2);
}

#[test]
fn separators_are_dropped() {
    assert_eq!(from_mexc_symbol("TAO_USDT"), "TAOUSDT");
    assert_eq!(from_mexc_symbol("_A__B_"), "AB");
}

#[test]
fn channels_of_the_book_feed() {
    assert_eq!(route("pong"), Route::Pong);
    assert_eq!(route("rs.sub.depth.full"), Route::SubAck);
    assert_eq!(route("rs.error"), Route::ServerError);
    assert_eq!(route("push.depth.full"), Route::Depth);
    assert_eq!(route(""), Route::Unnamed);
    assert_eq!(route("push.depth"), Route::Ignored);
    assert_eq!(route("Pong"), Route::Ignored);
}

#[test]
fn messages_of_the_book_feed() {
    let m = handle_text("{\"channel\":\"push.depth.full\",\"symbol\":\"TAO_USDT\"}").unwrap();
    assert_eq!(m.route, Route::Depth);
    assert_eq!(m.body.get("symbol").and_then(|s| s.as_str()), Some("TAO_USDT"));
    assert_eq!(handle_text("{\"channel\":7}").unwrap().route, Route::Unnamed);
    assert_eq!(handle_text("[]").unwrap().route, Route::Unnamed);
    assert!(matches!(handle_text("{"), Err(FeedError::Json(_))));
    let mut o = serde_json::Map::new();
    o.insert("channel".to_string(), Value::String("rs.error".to_string()));
    assert_eq!(inbound(Value::Object(o)).route, Route::ServerError);
}

#[test]
fn requests_for_books() {
    let symbols = vec!["TAOUSDT".to_string(), "NVDAUSDT".to_string()];
    assert_eq!(
        subscriptions(&symbols),
        vec![
            "{\"method\":\"sub.depth.full\",\"param\":{\"symbol\":\"TAO_USDT\"}}",
            "{\"method\":\"sub.depth.full\",\"param\":{\"symbol\":\"NVIDIA_USDT\"}}",
        ]
    );
    assert_eq!(STALE_MSG_WARN_MS, 500);
}
