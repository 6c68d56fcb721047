use arb::double::Double;
use arb::state::{now_ms, stamp, Level, OrderBook, State, Trade};

fn d(x: f64) -> Double {
    Double { bits: x.to_bits() }
}

fn level(price: f64, volume: f64) -> Level {
    Level { price: d(price), volume: d(volume) }
}

fn trade(id: &str) -> Trade {
    Trade {
        id: id.to_string(),
        symbol: "TAOUSDT".to_string(),
        side: "BUY".to_string(),
        entry_price: d(1.0),
        exit_price: d(2.0),
        size: d(3.0),
        pnl: d(4.0),
        status: "CLOSED".to_string(),
        close_order_id: "c".to_string(),
        position_id: 5,
        open_time_ms: 6,
        close_time_ms: 7,
        spread_at_entry: d(8.0),
        stop_armed: true,
        open_http_ms: 9,
        close_reason: "r".to_string(),
        verified: true,
    }
}

#[test]
fn best_levels_of_a_book() {
    let mut b = OrderBook::new();
    assert_eq!(b.best_bid(), None);
    assert_eq!(b.best_ask(), None);
    b.bids.insert(200, level(2.0, 20.0));
    b.bids.insert(300, level(3.0, 30.0));
    b.bids.insert(-100, level(1.0, 10.0));
    b.asks.insert(500, level(5.0, 50.0));
    b.asks.insert(400, level(4.0, 40.0));
    assert_eq!(b.best_bid(), Some((d(3.0), d(30.0))));
    assert_eq!(b.best_ask(), Some((d(4.0), d(40.0))));
}

#[test]
fn state_at_start() {
    let s = State::new_at(77);
    assert!(!s.running);
    assert_eq!(s.started_at_ms, 77);
    assert_eq!(s.binance_prices.len() + s.mexc_prices.len() + s.mexc_books.len(), 0);
    assert!(s.open_trade.is_none());
    assert!(s.trade_history.is_empty());
    assert_eq!((s.balance_usdt, s.total_pnl), (d(0.0), d(0.0)));
    assert_eq!((s.total_trades, s.winning_trades), (0, 0));
    assert!(!s.risk_control_blocked);
    assert!(!s.corrected_oids.contains("x"));
}

#[test]
fn start_stop_and_unblock() {
    let mut s = State::new_at(0);
    s.start();
    assert!(s.running);
    s.stop();
    assert!(!s.running);
    s.risk_control_blocked = true;
    s.unblock();
    assert!(s.running && !s.risk_control_blocked);
}

#[test]
fn reset_forgets_the_closed_trades_only() {
    let mut s = State::new_at(0);
    s.trade_history.push(trade("a"));
    s.open_trade = Some(trade("b"));
    s.total_pnl = d(5.0);
    s.total_trades = 3;
    s.winning_trades = 2;
    s.balance_usdt = d(100.0);
    s.corrected_oids.set("o", ());
    s.reset_stats();
    assert!(s.trade_history.is_empty());
    assert_eq!((s.total_pnl, s.total_trades, s.winning_trades), (d(0.0), 0, 0));
    assert_eq!(s.balance_usdt, d(100.0));
    assert!(s.open_trade.is_some());
    assert!(s.corrected_oids.contains("o"));
    assert_eq!(s.resets, 1);
    s.resets = u64::MAX;
    s.reset_stats();
    assert_eq!(s.resets, 0);
}

#[test]
fn a_cloned_trade_is_the_same() {
    let t = trade("x");
    assert_eq!(format!("{:?}", t.clone()), format!("{:?}", t));
}

#[test]
fn stamps() {
    assert_eq!(stamp(None), None);
    assert_eq!(stamp(Some(1234)), Some(1234));
    assert_eq!(stamp(Some(u64::MAX as u128 + 3)), Some(2));
}

#[test]
fn the_present_time() {
    let a = now_ms().unwrap();
    let real = std::time::SystemTime::now()
        .duration_since(std::time::UNIX_EPOCH)
        .unwrap()
        .as_millis() as u64;
    assert!(a <= real && real - a < 10_000);
    let s = State::new().unwrap();
    assert!(s.started_at_ms >= a);
}
