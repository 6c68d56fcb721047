use arb::binance::ws::{apply_ticker, BookTicker};
use arb::double::Double;
use arb::mexc::ws_public::{apply_depth, DepthFullData, DepthFullPush, DepthRow};
use arb::spread_tracker::{
    bucket_of, edge_at, is_usable, new_tracker, pairs, record_spread, snapshot, symbol_report, SymbolStats,
};
use arb::state::{PriceData, State};

fn d(x: f64) -> Double {
    Double { bits: x.to_bits() }
}

fn price(bid: f64, ask: f64) -> PriceData {
    PriceData { bid: d(bid), ask: d(ask), timestamp_ms: 0 }
}

#[test]
fn edges_of_the_buckets() {
    let edges = [0.01, 0.02, 0.03, 0.04, 0.05, 0.06, 0.07, 0.08, 0.09, 0.10];
    for (i, e) in edges.iter().enumerate() {
        assert_eq!(edge_at(i), d(*e));
        assert_eq!(bucket_of(&d(*e)), i + 1);
        assert_eq!(bucket_of(&Double { bits: e.to_bits() - 1 }), i);
    }
    assert_eq!(bucket_of(&d(0.0)), 0);
    assert_eq!(bucket_of(&d(7.0)), 10);
    assert_eq!(bucket_of(&d(f64::INFINITY)), 10);
    assert_eq!(bucket_of(&d(f64::NAN)), 10);
}

#[test]
fn buckets_count_every_sample_once() {
    let mut st = SymbolStats::new();
    for i in 0..200u64 {
        st.record(&d(i as f64 / 1000.0), i);
    }
    assert_eq!(st.samples, 200);
    assert_eq!(st.histogram.iter().sum::<u64>(), 200);
    assert_eq!(st.histogram[10], 100);
    assert_eq!(st.max_seen, d(0.199));
}

#[test]
fn wide_spreads_are_events() {
    let mut st = SymbolStats::new();
    st.record(&d(0.04), 10);
    assert!(st.current_event.is_none());
    st.record(&d(0.05), 20);
    st.record(&d(0.12), 30);
    st.record(&d(0.06), 40);
    let ce = st.current_event.unwrap();
    assert_eq!((ce.start_ms, ce.max_pct), (20, d(0.12)));
    assert!(st.events.is_empty());
    st.record(&d(0.01), 55);
    assert!(st.current_event.is_none());
    assert_eq!(st.events.len(), 1);
    let e = st.events[0];
    assert_eq!((e.start_ms, e.max_pct, e.duration_ms, e.converged), (20, d(0.12), 35, true));
    st.record(&d(0.05), 100);
    st.record(&d(0.0), 90);
    assert_eq!(st.events[1].duration_ms, 0);
}

#[test]
fn only_the_newest_events_are_kept() {
    let mut st = SymbolStats::new();
    for i in 0..1005u64 {
        st.record(&d(0.05), 2 * i);
        st.record(&d(0.0), 2 * i + 1);
    }
    assert_eq!(st.events.len(), 1000);
    assert_eq!(st.events[0].start_ms, 10);
    assert_eq!(st.events[999].start_ms, 2008);
}

#[test]
fn the_wider_direction_counts_without_its_sign() {
    let mut t = new_tracker();
    record_spread(&mut t, "A", &d(0.03), &d(-0.5), 1);
    record_spread(&mut t, "A", &d(-0.2), &d(-0.07), 2);
    record_spread(&mut t, "B", &d(0.0), &d(0.0), 3);
    let a = t.get("A").unwrap();
    assert_eq!(a.samples, 2);
    assert_eq!((a.histogram[3], a.histogram[7]), (1, 1));
    assert_eq!(a.max_seen, d(0.07));
    assert_eq!(t.get("B").unwrap().samples, 1);
}

#[test]
fn report_on_a_symbol() {
    let mut st = SymbolStats::new();
    let widths = [0.05, 0.08, 0.10, 0.30];
    for (i, w) in widths.iter().enumerate() {
        let t = 1000 * i as u64;
        st.record(&d(*w), t);
        st.record(&d(0.015), t + 100 + i as u64);
    }
    let r = symbol_report(&st);
    assert_eq!(r.samples, 8);
    assert_eq!(r.baseline_pct as f64 / 1000.0, 0.015);
    assert_eq!(r.max_seen, d(0.30));
    assert_eq!((r.total_events, r.significant_events, r.converged_events), (4, 2, 2));
    assert_eq!(r.avg_duration_ms, 102);
    let counts: Vec<usize> = r.events_by_threshold.iter().map(|t| t.1).collect();
    assert_eq!(counts, vec![4, 2, 1, 1, 1, 1]);
    let levels: Vec<&str> = r.events_by_threshold.iter().map(|t| t.0.as_str()).collect();
    assert_eq!(levels, vec![">=0.05%", ">=0.10%", ">=0.15%", ">=0.20%", ">=0.25%", ">=0.30%"]);
    let names: Vec<String> = r.histogram.iter().map(|b| b.range.clone()).collect();
    assert_eq!(
        names,
        vec![
            "<0.01%", "0.01-0.02%", "0.02-0.03%", "0.03-0.04%", "0.04-0.05%", "0.05-0.06%", "0.06-0.07%",
            "0.07-0.08%", "0.08-0.09%", "0.09-0.10%", ">=0.10%"
        ]
    );
    assert_eq!(r.histogram.iter().map(|b| b.count).sum::<u64>(), r.samples);
    assert_eq!(r.histogram[1].count, 4);
    assert_eq!(r.histogram[10].count, 2);
}

#[test]
fn baseline_is_the_middle_of_the_fullest_bucket() {
    let middles = [0.015, 0.025, 0.035, 0.045, 0.055, 0.065, 0.075, 0.085, 0.095, 0.10];
    for (i, m) in middles.iter().enumerate() {
        let mut st = SymbolStats::new();
        st.histogram[0] = 1000;
        st.histogram[i + 1] = 5;
        st.samples = 1005;
        assert_eq!(symbol_report(&st).baseline_pct as f64 / 1000.0, *m);
    }
    let mut st = SymbolStats::new();
    st.histogram[3] = 5;
    st.histogram[6] = 5;
    st.samples = 10;
    assert_eq!(symbol_report(&st).baseline_pct, 35);
    assert_eq!(symbol_report(&SymbolStats::new()).baseline_pct, 15);
    assert_eq!(symbol_report(&SymbolStats::new()).avg_duration_ms, 0);
}

#[test]
fn long_events_have_an_average() {
    let mut st = SymbolStats::new();
    for _ in 0..3 {
        st.record(&d(0.2), 0);
        st.record(&d(0.0), u64::MAX);
    }
    assert_eq!(symbol_report(&st).avg_duration_ms, u64::MAX);
}

#[test]
fn reports_come_in_the_order_of_names() {
    let mut t = new_tracker();
    let mut names = vec!["ZECUSDT", "ADAUSDT", "TAOUSDT", "A", "AB", "aa"];
    for n in &names {
        record_spread(&mut t, n, &d(0.01), &d(0.0), 1);
    }
    record_spread(&mut t, "A", &d(0.01), &d(0.0), 1);
    names.sort();
    let all = snapshot(&t);
    let got: Vec<&str> = all.iter().map(|e| e.0.as_str()).collect();
    assert_eq!(got, names);
    assert_eq!(all[0].1.samples, 2);
    assert_eq!(all[1].1.samples, 1);
    assert!(snapshot(&new_tracker()).is_empty());
}

#[test]
fn usable_prices() {
    assert!(is_usable(&price(1.0, 2.0)));
    assert!(!is_usable(&price(0.0, 2.0)));
    assert!(!is_usable(&price(1.0, -2.0)));
    assert!(is_usable(&price(f64::NAN, 2.0)));
}

#[test]
fn symbols_with_prices_on_both_exchanges() {
    let mut s = State::new_at(0);
    s.mexc_prices.set("A", price(1.0, 2.0));
    s.mexc_prices.set("B", price(1.0, 2.0));
    s.mexc_prices.set("C", price(0.0, 2.0));
    s.mexc_prices.set("D", price(5.0, 6.0));
    s.binance_prices.set("D", price(7.0, 8.0));
    s.binance_prices.set("A", price(3.0, 4.0));
    s.binance_prices.set("C", price(1.0, 2.0));
    s.binance_prices.set("E", price(1.0, 2.0));
    let all = pairs(&s);
    let names: Vec<&str> = all.iter().map(|p| p.symbol.as_str()).collect();
    assert_eq!(names, vec!["A", "D"]);
    assert_eq!((all[0].mexc, all[0].binance), (price(1.0, 2.0), price(3.0, 4.0)));
    assert_eq!((all[1].mexc, all[1].binance), (price(5.0, 6.0), price(7.0, 8.0)));
}

#[test]
fn both_feeds_give_a_pair() {
    let mut s = State::new_at(0);
    let ticker = BookTicker {
        symbol: "TAOUSDT".to_string(),
        bid_price: Some(d(10.5)),
        ask_price: Some(d(11.0)),
        transaction_time: 7,
    };
    apply_ticker(ticker, &mut s, 8).unwrap();
    assert!(pairs(&s).is_empty());
    let row = |p: f64| DepthRow {
        values: vec![d(p), d(1.0)],
        steps: (p * 1e8).round() as i64,
        price: d(p),
    };
    let push = DepthFullPush {
        symbol: Some("TAO_USDT".to_string()),
        ts: Some(9),
        data: Some(DepthFullData { asks: vec![row(10.0)], bids: vec![row(9.5)], version: 1 }),
    };
    apply_depth(push, &mut s, 8).unwrap();
    let all = pairs(&s);
    assert_eq!(all.len(), 1);
    assert_eq!(all[0].mexc, PriceData { bid: d(9.5), ask: d(10.0), timestamp_ms: 9 });
    assert_eq!(all[0].binance, PriceData { bid: d(10.5), ask: d(11.0), timestamp_ms: 7 });
}

#[test]
fn events_are_counted_by_threshold() {
    let levels = [0.05, 0.10, 0.15, 0.20, 0.25, 0.30];
    for (i, level) in levels.iter().enumerate() {
        let mut st = SymbolStats::new();
        st.record(&d(*level), 0);
        st.record(&d(0.0), 1);
        let counts: Vec<usize> = symbol_report(&st).events_by_threshold.iter().map(|t| t.1).collect();
        for (j, n) in counts.iter().enumerate() {
            assert_eq!(*n, if j <= i { 1 } else { 0 });
        }
        let mut st = SymbolStats::new();
        st.record(&d(0.05), 0);
        st.record(&Double { bits: level.to_bits() - 1 }, 1);
        st.record(&d(0.0), 2);
        if i > 0 {
            assert_eq!(symbol_report(&st).events_by_threshold[i].1, 0);
            assert_eq!(symbol_report(&st).events_by_threshold[i - 1].1, 1);
        }
    }
}

#[test]
fn a_row_of_wide_spreads_is_one_event() {
    let mut st = SymbolStats::new();
    for (i, w) in [0.06, 0.09, 0.3, 0.05, 0.1].iter().enumerate() {
        st.record(&d(*w), 100 + 10 * i as u64);
        assert_eq!(st.current_event.unwrap().start_ms, 100);
        assert!(st.events.is_empty());
    }
    st.record(&d(0.049), 170);
    assert!(st.current_event.is_none());
    assert_eq!(st.events.len(), 1);
    let e = st.events[0];
    assert_eq!((e.start_ms, e.duration_ms, e.max_pct, e.converged), (100, 70, d(0.3), true));
    st.record(&d(0.01), 180);
    assert_eq!(st.events.len(), 1);
}

#[test]
fn events_stand_in_the_order_of_their_start() {
    let mut st = SymbolStats::new();
    let mut x: u64 = 7;
    for t in 0..5000u64 {
        x = (x * 1103515245 + 12345) % 2147483648;
        st.record(&d((x % 12) as f64 / 100.0), t / 2);
    }
    assert!(st.events.len() > 100);
    for pair in st.events.windows(2) {
        assert!(pair[0].start_ms + pair[0].duration_ms <= pair[1].start_ms);
    }
}
