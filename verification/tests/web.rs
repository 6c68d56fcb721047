use arb::binance::ws::{apply_ticker, BookTicker};
use arb::config::{Account, Config, Server, Trading};
use arb::double::Double;
use arb::state::{PriceData, State, Trade};
use arb::web::{
    active_symbols, build_settings, build_spreads, build_status, recent_trades, saved_trades,
    TradeWatcher, Watched, ACCOUNT_ID, SHOWN_LEVERAGE,
};

fn d(x: f64) -> Double {
    Double { bits: x.to_bits() }
}

fn trade(id: &str) -> Trade {
    Trade {
        id: id.to_string(),
        symbol: "TAOUSDT".to_string(),
        side: "BUY".to_string(),
        entry_price: d(1.0),
        exit_price: d(2.0),
        size: d(3.0),
        pnl: d(4.0),
        status: "CLOSED".to_string(),
        close_order_id: "c".to_string(),
        position_id: 5,
        open_time_ms: 6,
        close_time_ms: 7,
        spread_at_entry: d(8.0),
        stop_armed: true,
        open_http_ms: 9,
        close_reason: "r".to_string(),
        verified: false,
    }
}

fn watched(list: &[(&str, f64)]) -> Vec<Watched> {
    list.iter().map(|(s, m)| Watched { symbol: s.to_string(), min_spread: d(*m) }).collect()
}

fn config(uid: &str, proxy: &str) -> Config {
    Config {
        account: Account {
            label: "main".to_string(),
            mexc_uid: uid.to_string(),
            proxy_url: proxy.to_string(),
        },
        trading: Trading {
            symbols: vec!["TAOUSDT".to_string()],
            min_spread_pct: d(0.07),
            converge_threshold_pct: d(0.02),
            size_usdt: d(1000.0),
        },
        server: Server { listen: "127.0.0.1:1".to_string() },
    }
}

fn ids(list: &[Trade]) -> Vec<String> {
    list.iter().map(|t| t.id.clone()).collect()
}

#[test]
fn symbols_that_are_traded() {
    let all = watched(&[("A", 0.07), ("B", 999.0), ("C", 998.9999), ("D", 1000.0), ("E", f64::NAN), ("F", -1.0)]);
    assert_eq!(active_symbols(&all), vec!["A", "C", "F"]);
    assert!(active_symbols(&watched(&[("B", 999.0)])).is_empty());
}

#[test]
fn rows_of_the_dashboard() {
    let mut s = State::new_at(0);
    s.mexc_prices.set("A", PriceData { bid: d(1.0), ask: d(2.0), timestamp_ms: 40 });
    s.binance_prices.set("A", PriceData { bid: d(3.0), ask: d(4.0), timestamp_ms: 150 });
    s.mexc_prices.set("B", PriceData { bid: d(5.0), ask: d(6.0), timestamp_ms: 100 });
    let all = watched(&[("A", 0.1), ("X", 999.0), ("B", 0.1), ("C", 0.1)]);
    let rows = build_spreads(&all, &s, 100);
    assert_eq!(rows.len(), 3);
    let a = &rows[0];
    assert_eq!((a.symbol.as_str(), a.has_spread), ("A", true));
    assert_eq!((a.mexc_bid, a.mexc_ask, a.binance_bid, a.binance_ask), (d(1.0), d(2.0), d(3.0), d(4.0)));
    assert_eq!((a.mexc_age_ms, a.binance_age_ms), (60, 0));
    let b = &rows[1];
    assert_eq!((b.symbol.as_str(), b.has_spread), ("B", false));
    assert_eq!((b.mexc_bid, b.binance_bid, b.binance_age_ms), (d(5.0), d(0.0), 0));
    let c = &rows[2];
    assert_eq!((c.symbol.as_str(), c.has_spread, c.mexc_ask, c.mexc_age_ms), ("C", false, d(0.0), 0));
}

#[test]
fn rows_show_the_last_prices() {
    let mut s = State::new_at(0);
    let t = BookTicker {
        symbol: "A".to_string(),
        bid_price: Some(d(3.5)),
        ask_price: Some(d(4.5)),
        transaction_time: 70,
    };
    apply_ticker(t, &mut s, 80).unwrap();
    let rows = build_spreads(&watched(&[("A", 0.1)]), &s, 100);
    assert_eq!((rows[0].binance_bid, rows[0].binance_ask, rows[0].binance_age_ms), (d(3.5), d(4.5), 30));
}

#[test]
fn status_of_the_account() {
    let mut s = State::new_at(0);
    s.running = true;
    s.balance_usdt = d(50.0);
    s.total_pnl = d(-1.0);
    s.total_trades = 4;
    s.winning_trades = 3;
    let all = watched(&[("X", 999.0), ("A", 0.1), ("B", 0.1)]);
    let r = build_status(&config("uid", ""), &all, &s);
    assert!(r.running && r.has_uid && !r.in_trade && !r.opening);
    assert!(r.blocked.is_none() && r.open_trade.is_none());
    assert_eq!((r.label.as_str(), r.symbol.as_str()), ("main", "A"));
    assert_eq!(r.symbols, vec!["A", "B"]);
    assert_eq!((r.balance, r.total_pnl, r.total_trades, r.winning_trades), (d(50.0), d(-1.0), 4, 3));
    assert_eq!((r.spread_min, r.size_usdt), (d(0.07), d(1000.0)));
    assert_eq!((ACCOUNT_ID, SHOWN_LEVERAGE), (0, 200));
}

#[test]
fn status_tells_opening_from_open() {
    let mut s = State::new_at(0);
    s.open_trade = Some(trade("a"));
    let none = watched(&[]);
    let r = build_status(&config("", ""), &none, &s);
    assert!(!r.in_trade && r.opening && !r.has_uid);
    assert_eq!(r.symbol, "");
    assert_eq!(r.open_trade.unwrap().id, "a");
    if let Some(t) = &mut s.open_trade {
        t.verified = true;
    }
    s.risk_control_blocked = true;
    let r = build_status(&config("", ""), &none, &s);
    assert!(r.in_trade && !r.opening);
    assert_eq!(r.blocked, Some("RISK CONTROL".to_string()));
}

#[test]
fn settings_hide_secrets() {
    let all = watched(&[("A", 0.1), ("X", 999.0)]);
    let r = build_settings(&config("uid", ""), &all);
    assert!(r.mexc_uid_set && !r.proxy_set);
    assert_eq!(r.label, "main");
    assert_eq!(r.symbols, vec!["A"]);
    assert_eq!((r.min_spread_pct, r.converge_threshold_pct, r.size_usdt), (d(0.07), d(0.02), d(1000.0)));
    let r = build_settings(&config("", "http://p:1"), &all);
    assert!(!r.mexc_uid_set && r.proxy_set);
}

#[test]
fn trades_to_show_and_to_save() {
    let mut s = State::new_at(0);
    assert!(recent_trades(&s).is_empty() && saved_trades(&s).is_empty());
    for i in 0..3 {
        s.trade_history.push(trade(&format!("{}", i)));
    }
    assert_eq!(ids(&recent_trades(&s)), vec!["2", "1", "0"]);
    assert_eq!(ids(&saved_trades(&s)), vec!["0", "1", "2"]);
    for i in 3..600 {
        s.trade_history.push(trade(&format!("{}", i)));
    }
    let shown = ids(&recent_trades(&s));
    assert_eq!((shown.len(), shown[0].as_str(), shown[49].as_str()), (50, "599", "550"));
    let saved = ids(&saved_trades(&s));
    assert_eq!((saved.len(), saved[0].as_str(), saved[499].as_str()), (500, "100", "599"));
}

#[test]
fn news_of_trades() {
    let mut s = State::new_at(0);
    s.trade_history.push(trade("old"));
    let mut w = TradeWatcher::new(&s);
    let n = w.poll(&s, 1);
    assert!(n.opened.is_none() && n.closed.is_empty());
    s.open_trade = Some(trade("a"));
    assert_eq!(w.poll(&s, 1).opened.unwrap().id, "a");
    assert!(w.poll(&s, 1).opened.is_none());
    s.open_trade = None;
    s.trade_history.push(trade("a"));
    s.trade_history.push(trade("b"));
    let n = w.poll(&s, 1);
    assert!(n.opened.is_none());
    assert_eq!(ids(&n.closed), vec!["a", "b"]);
    assert!(w.poll(&s, 1).closed.is_empty());
    s.open_trade = Some(trade("c"));
    assert_eq!(w.poll(&s, 3).opened.unwrap().id, "c");
}

#[test]
fn nobody_listens_nothing_is_told() {
    let mut s = State::new_at(0);
    let mut w = TradeWatcher::new(&s);
    s.open_trade = Some(trade("a"));
    s.trade_history.push(trade("z"));
    let n = w.poll(&s, 0);
    assert!(n.opened.is_none() && n.closed.is_empty());
    let n = w.poll(&s, 1);
    assert_eq!(n.opened.unwrap().id, "a");
    assert_eq!(ids(&n.closed), vec!["z"]);
}

#[test]
fn a_trade_that_follows_at_once_is_told_of() {
    let mut s = State::new_at(0);
    let mut w = TradeWatcher::new(&s);
    s.open_trade = Some(trade("a"));
    assert_eq!(w.poll(&s, 1).opened.unwrap().id, "a");
    s.open_trade = Some(trade("b"));
    s.trade_history.push(trade("a"));
    let n = w.poll(&s, 1);
    assert_eq!(n.opened.unwrap().id, "b");
    assert_eq!(ids(&n.closed), vec!["a"]);
    assert!(w.poll(&s, 1).opened.is_none());
    s.open_trade = None;
    assert!(w.poll(&s, 1).opened.is_none());
    s.open_trade = Some(trade("b"));
    assert_eq!(w.poll(&s, 1).opened.unwrap().id, "b");
}

#[test]
fn a_trade_that_is_open_at_the_start_is_told_of() {
    let mut s = State::new_at(0);
    s.open_trade = Some(trade("a"));
    let mut w = TradeWatcher::new(&s);
    assert_eq!(w.poll(&s, 1).opened.unwrap().id, "a");
}

#[test]
fn closes_are_told_of_after_a_reset() {
    let mut s = State::new_at(0);
    s.trade_history.push(trade("a"));
    s.trade_history.push(trade("b"));
    let mut w = TradeWatcher::new(&s);
    s.reset_stats();
    s.trade_history.push(trade("c"));
    assert_eq!(ids(&w.poll(&s, 1).closed), vec!["c"]);
    assert!(w.poll(&s, 1).closed.is_empty());
    s.trade_history.push(trade("d"));
    assert_eq!(ids(&w.poll(&s, 1).closed), vec!["d"]);
    s.reset_stats();
    for id in ["e", "f", "g"] {
        s.trade_history.push(trade(id));
    }
    assert_eq!(ids(&w.poll(&s, 1).closed), vec!["e", "f", "g"]);
    s.reset_stats();
    assert!(w.poll(&s, 1).closed.is_empty());
    s.trade_history.push(trade("h"));
    assert_eq!(ids(&w.poll(&s, 1).closed), vec!["h"]);
}

#[test]
fn a_history_that_has_shrunk_is_told_of_anew() {
    let mut s = State::new_at(0);
    s.trade_history.push(trade("a"));
    s.trade_history.push(trade("b"));
    let mut w = TradeWatcher::new(&s);
    s.trade_history.clear();
    s.trade_history.push(trade("c"));
    assert_eq!(ids(&w.poll(&s, 1).closed), vec!["c"]);
}
