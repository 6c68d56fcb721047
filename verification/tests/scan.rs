use arb::double::Double;
use arb::scan::{
    depth_request, is_ping_due, read_ticker, read_top, stream_url, ticker_in, top_in, PriceState, Scan,
    Stats, WIDE, WIDER, WIDEST,
};
use serde_json::Value;

fn d(x: f64) -> Double {
    Double { bits: x.to_bits() }
}

fn tokens() -> Vec<String> {
    ["TAO", "ASTER", "SUI"].iter().map(|t| t.to_string()).collect()
}

#[test]
fn levels_of_the_scan() {
    assert_eq!((WIDE, WIDER, WIDEST), (0.10f64.to_bits(), 0.15f64.to_bits(), 0.20f64.to_bits()));
}

#[test]
fn spreads_are_counted_by_level() {
    let mut st = Stats {
        spread_count_010: 0,
        spread_count_015: 0,
        spread_count_020: 0,
        max_spread: d(0.0),
        sample_count: 0,
    };
    for x in [-0.5, 0.0, 0.09, 0.10, 0.12, 0.15, 0.19, 0.20, 0.5, f64::NAN] {
        st.record(&d(x));
    }
    assert_eq!(
        st,
        Stats {
            spread_count_010: 6,
            spread_count_015: 4,
            spread_count_020: 2,
            max_spread: d(0.5),
            sample_count: 10,
        }
    );
}

#[test]
fn prices_of_a_scan() {
    let mut s = Scan::new(&tokens());
    assert!(s.ready().is_empty());
    s.set_binance("TAO", d(10.0), d(11.0));
    assert!(s.ready().is_empty());
    s.set_mexc("TAO", d(9.0), d(9.5));
    s.set_mexc("OTHER", d(9.0), d(9.5));
    s.set_binance("OTHER", d(9.0), d(9.5));
    s.set_binance("SUI", d(1.0), d(2.0));
    s.set_mexc("SUI", d(0.0), d(2.0));
    let want = PriceState {
        binance_bid: d(10.0),
        binance_ask: d(11.0),
        mexc_bid: d(9.0),
        mexc_ask: d(9.5),
    };
    assert_eq!(s.ready(), vec![("TAO".to_string(), want)]);
    s.set_binance("TAO", d(12.0), d(13.0));
    let p = s.ready()[0].1;
    assert_eq!((p.binance_bid, p.mexc_bid, p.mexc_ask), (d(12.0), d(9.0), d(9.5)));
    assert_eq!(s.prices.len(), 3);
}

#[test]
fn spreads_of_a_scan() {
    let mut s = Scan::new(&tokens());
    assert_eq!(s.record("TAO", &d(0.12), &d(-0.3)), Some(d(0.12)));
    assert_eq!(s.record("TAO", &d(-0.2), &d(-0.3)), Some(d(0.0)));
    assert_eq!(s.record("OTHER", &d(0.12), &d(-0.3)), None);
    let st = s.stats.get("TAO").unwrap();
    assert_eq!((st.sample_count, st.spread_count_010, st.spread_count_015), (2, 1, 0));
    assert_eq!(st.max_spread, d(0.12));
    assert_eq!(s.stats.get("SUI").unwrap().sample_count, 0);
}

#[test]
fn tokens_are_ranked_by_wide_spreads() {
    let mut s = Scan::new(&tokens());
    s.record("SUI", &d(0.2), &d(0.0));
    s.record("SUI", &d(0.2), &d(0.0));
    s.record("ASTER", &d(0.1), &d(0.0));
    let names: Vec<String> = s.ranking().iter().map(|r| r.0.clone()).collect();
    assert_eq!(names, vec!["SUI", "ASTER", "TAO"]);
    assert_eq!(s.ranking()[0].1.spread_count_020, 2);
}

#[test]
fn messages_with_prices() {
    let t = read_ticker("{\"stream\":\"x\",\"data\":{\"s\":\"TAOUSDT\",\"b\":\"246.3\",\"a\":\"246.4\"}}").unwrap();
    assert_eq!((t.token.as_str(), t.bid.as_str(), t.ask.as_str()), ("TAO", "246.3", "246.4"));
    assert!(read_ticker("{\"data\":{\"s\":\"TAOUSDT\",\"b\":246.3,\"a\":\"246.4\"}}").is_none());
    assert!(read_ticker("{\"data\":{\"s\":\"TAOUSDT\",\"b\":\"1\"}}").is_none());
    assert!(read_ticker("{\"s\":\"TAOUSDT\",\"b\":\"1\",\"a\":\"2\"}").is_none());
    assert!(read_ticker("{\"data\":[]}").is_none());
    assert!(read_ticker("oops").is_none());
    assert!(ticker_in(&Value::Object(serde_json::Map::new())).is_none());
}

#[test]
fn messages_with_books() {
    let t = read_top(
        "{\"channel\":\"push.depth.full\",\"symbol\":\"TAO_USDT\",\
         \"data\":{\"bids\":[[246.3,5,1],[246.2,1]],\"asks\":[[247,1]]}}",
    )
    .unwrap();
    assert_eq!((t.token.as_str(), t.bid, t.ask), ("TAO", d(246.3), d(247.0)));
    let t = read_top("{\"channel\":\"push.depth.full\",\"symbol\":\"X\",\"data\":{\"bids\":[[\"1\"]],\"asks\":[]}}")
        .unwrap();
    assert_eq!((t.token.as_str(), t.bid, t.ask), ("X", d(0.0), d(0.0)));
    let t = read_top("{\"channel\":\"push.depth.full\",\"symbol\":\"X\",\"data\":7}").unwrap();
    assert_eq!((t.bid, t.ask), (d(0.0), d(0.0)));
    assert!(read_top("{\"channel\":\"push.depth\",\"symbol\":\"X\",\"data\":{}}").is_none());
    assert!(read_top("{\"symbol\":\"X\",\"data\":{}}").is_none());
    assert!(read_top("{\"channel\":\"push.depth.full\",\"data\":{}}").is_none());
    assert!(read_top("{\"channel\":\"push.depth.full\",\"symbol\":\"X\"}").is_none());
    assert!(read_top("{").is_none());
    assert!(top_in(&Value::Null).is_none());
}

#[test]
fn addresses_and_requests_of_a_scan() {
    assert_eq!(
        stream_url(&tokens()),
        "wss://fstream.binance.com/stream?streams=taousdt@bookTicker/asterusdt@bookTicker/suiusdt@bookTicker"
    );
    let none: Vec<String> = Vec::new();
    assert_eq!(stream_url(&none), "wss://fstream.binance.com/stream?streams=");
    assert_eq!(
        depth_request("TAO"),
        "{\"method\":\"sub.depth.full\",\"param\":{\"limit\":5,\"symbol\":\"TAO_USDT\"}}"
    );
}

#[test]
fn pings_of_a_scan() {
    assert!(!is_ping_due(15_000_000_000));
    assert!(is_ping_due(15_000_000_001));
}
