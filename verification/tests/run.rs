use arb::binance::ws::{apply_ticker, BookTicker};
use arb::double::Double;
use arb::mexc::ws_private::{handle_deal, DealData, DealPush, PnlChange};
use arb::mexc::ws_public::{apply_depth, DepthFullData, DepthFullPush, DepthRow};
use arb::spread_tracker::{Bucket, SymbolStats};
use arb::state::{OrderBook, PriceData, State};

fn d(x: f64) -> Double {
    Double { bits: x.to_bits() }
}

fn row(price: f64, volume: f64) -> DepthRow {
    let steps = (price * 1e8).round() as i64;
    DepthRow { values: vec![d(price), d(volume)], steps, price: d(steps as f64 / 1e8) }
}

fn book(symbol: &str, bid: f64, ask: f64) -> DepthFullPush {
    DepthFullPush {
        symbol: Some(symbol.to_string()),
        ts: None,
        data: Some(DepthFullData {
            asks: vec![row(ask, 1.0)],
            bids: vec![row(bid, 1.0)],
            version: 0,
        }),
    }
}

fn ticker(symbol: &str, bid: f64, ask: f64) -> BookTicker {
    BookTicker {
        symbol: symbol.to_string(),
        bid_price: Some(d(bid)),
        ask_price: Some(d(ask)),
        transaction_time: 0,
    }
}

fn deal(oid: &str, profit: f64) -> DealPush {
    DealPush {
        symbol: Some("A_USDT".to_string()),
        data: Some(DealData {
            order_id: oid.to_string(),
            profit: d(profit),
            realised_profit: d(0.0),
            category: 1,
            side: 4,
            price: d(1.0),
            vol: d(1.0),
            symbol: String::new(),
            timestamp: 1,
        }),
    }
}

#[test]
fn the_market_is_sound_throughout_a_run() {
    let mut s = State::new_at(1);
    let prices = [1.0, 0.0, -1.0, 1e-9, 5.0, f64::NAN, 2.5];
    for (i, a) in prices.iter().enumerate() {
        for (j, b) in prices.iter().enumerate() {
            let _ = apply_depth(book(&format!("S{}_USDT", i % 3), *a, *b), &mut s, 7);
            let _ = apply_ticker(ticker(&format!("S{}USDT", j % 3), *a, *b), &mut s, 7);
            for k in 0..s.mexc_prices.len() {
                let p = s.mexc_prices.value_at(k);
                assert!(p.bid.is_positive() && p.ask.is_positive());
                assert!(s.mexc_books.contains(s.mexc_prices.key_at(k)));
            }
            for k in 0..s.binance_prices.len() {
                let p = s.binance_prices.value_at(k);
                assert!(!p.bid.le(&d(0.0)) && !p.ask.le(&d(0.0)));
            }
        }
    }
    assert_eq!(s.started_at_ms, 1);
}

#[test]
fn no_order_changes_the_profit_twice_in_a_run() {
    let mut s = State::new_at(1);
    let mut changes = Vec::new();
    for (i, oid) in ["1", "2", "1", "3", "2", "1"].iter().enumerate() {
        if i == 3 {
            s.reset_stats();
        }
        let o = handle_deal(deal(oid, i as f64), &mut s, 5);
        if o.pnl != PnlChange::Unchanged {
            changes.push(oid.to_string());
        }
    }
    assert_eq!(changes, vec!["1", "2", "3"]);
    assert_eq!(s.trade_history.len(), 1);
}

#[test]
fn a_run_keeps_the_trades() {
    let mut s = State::new_at(1);
    for i in 0..30 {
        handle_deal(deal(&format!("o{}", i), 1.0), &mut s, 5);
        apply_depth(book("A_USDT", 1.0, 2.0), &mut s, 7).unwrap();
        assert_eq!(s.trade_history.len(), i + 1);
        for (k, t) in s.trade_history.iter().enumerate() {
            assert_eq!(t.id, format!("ws_o{}", k));
        }
    }
}

#[test]
fn default_values() {
    assert_eq!(PriceData::default(), PriceData { bid: d(0.0), ask: d(0.0), timestamp_ms: 0 });
    let b = OrderBook::default();
    assert_eq!((b.bids.len(), b.asks.len(), b.version, b.last_update_ms), (0, 0, 0, 0));
    let b = Bucket::default();
    assert_eq!((b.range.as_str(), b.count), ("", 0));
    let st = SymbolStats::default();
    assert_eq!((st.samples, st.histogram, st.max_seen), (0, [0; 11], d(0.0)));
    assert!(st.events.is_empty() && st.current_event.is_none());
}
