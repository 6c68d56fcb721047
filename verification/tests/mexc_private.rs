use arb::double::Double;
use arb::feed::FeedError;
use arb::mexc::ws_private::{
    handle_asset, handle_deal, handle_position, handle_text, inbound, login_in, login_reply,
    login_request, login_step, route, subscriptions, AssetData, AssetPush, DealData, DealOutcome, DealPush,
    LoginEvent, LoginFailure, LoginReply, LoginStep,
    PnlChange, PositionData, PositionPush, Route,
};
use arb::state::{State, Trade};
use serde_json::Value;

fn d(x: f64) -> Double {
    Double { bits: x.to_bits() }
}

fn trade(oid: &str, status: &str, pnl: f64) -> Trade {
    Trade {
        id: format!("t_{}", oid),
        symbol: "TAOUSDT".to_string(),
        side: "BUY".to_string(),
        entry_price: d(1.0),
        exit_price: d(2.0),
        size: d(3.0),
        pnl: d(pnl),
        status: status.to_string(),
        close_order_id: oid.to_string(),
        position_id: 5,
        open_time_ms: 6,
        close_time_ms: 7,
        spread_at_entry: d(8.0),
        stop_armed: true,
        open_http_ms: 9,
        close_reason: "r".to_string(),
        verified: false,
    }
}

fn deal(symbol: Option<&str>, oid: &str, side: i32, profit: f64, realised: f64) -> DealPush {
    DealPush {
        symbol: symbol.map(|s| s.to_string()),
        data: Some(DealData {
            order_id: oid.to_string(),
            profit: d(profit),
            realised_profit: d(realised),
            category: 1,
            side,
            price: d(246.5),
            vol: d(12.0),
            symbol: "SUI_USDT".to_string(),
            timestamp: 0,
        }),
    }
}

fn close(o: &DealOutcome) -> Option<(String, i64)> {
    o.close.as_ref().map(|c| (c.symbol.clone(), c.position_id))
}

#[test]
fn a_deal_corrects_the_trade_of_its_order() {
    let mut s = State::new_at(0);
    s.trade_history.push(trade("1", "CLOSED", 0.5));
    s.trade_history.push(trade("2", "CLOSED", 0.25));
    s.open_trade = Some(trade("", "OPEN", 0.0));
    let o = handle_deal(deal(Some("TAO_USDT"), "1", 4, 1.5, 9.0), &mut s, 100_000);
    assert_eq!(o.pnl, PnlChange::Corrected { old_pnl: d(0.5), new_pnl: d(1.5) });
    assert_eq!(close(&o), Some(("TAOUSDT".to_string(), 5)));
    assert_eq!(s.trade_history[0].pnl, d(1.5));
    assert_eq!(s.trade_history[1].pnl, d(0.25));
    assert_eq!(s.trade_history.len(), 2);
    assert!(s.corrected_oids.contains("1"));
    assert!(s.open_trade.is_some());
}

#[test]
fn an_order_is_booked_once() {
    let mut s = State::new_at(0);
    s.trade_history.push(trade("1", "CLOSED", 0.5));
    handle_deal(deal(Some("TAO_USDT"), "1", 4, 1.5, 0.0), &mut s, 0);
    let o = handle_deal(deal(Some("TAO_USDT"), "1", 4, 99.0, 0.0), &mut s, 0);
    assert_eq!(o.pnl, PnlChange::Unchanged);
    assert_eq!(close(&o), Some(("TAOUSDT".to_string(), 0)));
    assert_eq!(s.trade_history[0].pnl, d(1.5));
    s.reset_stats();
    let o = handle_deal(deal(Some("TAO_USDT"), "1", 4, 99.0, 0.0), &mut s, 0);
    assert_eq!(o.pnl, PnlChange::Unchanged);
    assert!(s.trade_history.is_empty());
}

#[test]
fn a_missing_trade_is_recorded() {
    let mut s = State::new_at(0);
    let o = handle_deal(deal(Some("TAO_USDT"), "77", 2, 0.0, -3.0), &mut s, 100_000);
    assert_eq!(o.pnl, PnlChange::Added { pnl: d(-3.0) });
    let t = &s.trade_history[0];
    assert_eq!((t.id.as_str(), t.symbol.as_str(), t.side.as_str()), ("ws_77", "TAOUSDT", "SELL"));
    assert_eq!((t.entry_price, t.exit_price, t.size, t.pnl), (d(0.0), d(246.5), d(12.0), d(-3.0)));
    assert_eq!((t.status.as_str(), t.close_order_id.as_str()), ("CLOSED", "77"));
    assert_eq!((t.position_id, t.open_time_ms, t.close_time_ms), (0, 40_000, 100_000));
    assert_eq!((t.spread_at_entry, t.stop_armed, t.open_http_ms), (d(0.0), false, 0));
    assert_eq!((t.close_reason.as_str(), t.verified), ("ws_synthetic", true));
}

#[test]
fn a_missing_trade_may_be_named_by_its_deal() {
    let mut s = State::new_at(0);
    let mut p = deal(None, "78", 4, 2.0, 1.0);
    if let Some(x) = &mut p.data {
        x.timestamp = 555;
    }
    let o = handle_deal(p, &mut s, 59_999);
    assert!(o.close.is_none());
    let t = &s.trade_history[0];
    assert_eq!((t.symbol.as_str(), t.side.as_str(), t.pnl), ("SUIUSDT", "BUY", d(2.0)));
    assert_eq!((t.open_time_ms, t.close_time_ms), (0, 555));
}

#[test]
fn only_closed_trades_are_corrected() {
    let mut s = State::new_at(0);
    s.trade_history.push(trade("1", "OPEN", 0.5));
    let o = handle_deal(deal(None, "1", 4, 1.5, 0.0), &mut s, 0);
    assert_eq!(o.pnl, PnlChange::Added { pnl: d(1.5) });
    assert_eq!(s.trade_history.len(), 2);
    assert_eq!(s.trade_history[0].pnl, d(0.5));
}

#[test]
fn only_the_newest_trades_are_searched() {
    let mut s = State::new_at(0);
    s.trade_history.push(trade("old", "CLOSED", 0.5));
    s.trade_history.push(trade("edge", "CLOSED", 0.5));
    for i in 0..19 {
        s.trade_history.push(trade(&format!("n{}", i), "CLOSED", 0.0));
    }
    let o = handle_deal(deal(None, "edge", 4, 1.0, 0.0), &mut s, 0);
    assert_eq!(o.pnl, PnlChange::Corrected { old_pnl: d(0.5), new_pnl: d(1.0) });
    let o = handle_deal(deal(None, "old", 4, 1.0, 0.0), &mut s, 0);
    assert_eq!(o.pnl, PnlChange::Added { pnl: d(1.0) });
    assert_eq!(s.trade_history[0].pnl, d(0.5));
    assert_eq!(s.trade_history.len(), 22);
}

#[test]
fn the_newest_trade_of_an_order_is_corrected() {
    let mut s = State::new_at(0);
    s.trade_history.push(trade("1", "CLOSED", 0.5));
    s.trade_history.push(trade("1", "CLOSED", 0.25));
    let o = handle_deal(deal(None, "1", 2, 4.0, 0.0), &mut s, 0);
    assert_eq!(o.pnl, PnlChange::Corrected { old_pnl: d(0.25), new_pnl: d(4.0) });
    assert_eq!((s.trade_history[0].pnl, s.trade_history[1].pnl), (d(0.5), d(4.0)));
}

#[test]
fn deals_that_do_not_close_are_ignored() {
    let mut s = State::new_at(0);
    for side in [0, 1, 3, 5] {
        let o = handle_deal(deal(Some("TAO_USDT"), "1", side, 1.0, 1.0), &mut s, 0);
        assert!(o.close.is_none());
        assert_eq!(o.pnl, PnlChange::Unchanged);
    }
    let o = handle_deal(deal(Some("TAO_USDT"), "", 4, 1.0, 1.0), &mut s, 0);
    assert_eq!(close(&o), Some(("TAOUSDT".to_string(), 0)));
    assert_eq!(o.pnl, PnlChange::Unchanged);
    let o = handle_deal(DealPush { symbol: Some("A".to_string()), data: None }, &mut s, 0);
    assert!(o.close.is_none());
    assert_eq!(o.pnl, PnlChange::Unchanged);
    assert!(s.trade_history.is_empty());
    assert!(!s.corrected_oids.contains("1"));
}

fn position(symbol: &str, id: i64, held: f64) -> PositionPush {
    PositionPush {
        symbol: Some(symbol.to_string()),
        data: Some(PositionData {
            position_id: id,
            hold_vol: d(held),
            realised: d(0.0),
            position_type: 1,
        }),
    }
}

#[test]
fn a_position_confirms_the_open_trade() {
    let mut s = State::new_at(0);
    let mut t = trade("", "OPEN", 0.0);
    t.position_id = 0;
    s.open_trade = Some(t);
    let o = handle_position(position("TAO_USDT", 9, 1.0), &mut s);
    assert!(o.confirmed && o.close.is_none());
    let t = s.open_trade.as_ref().unwrap();
    assert_eq!((t.position_id, t.verified), (9, true));
    let o = handle_position(position("TAO_USDT", 10, 1.0), &mut s);
    assert!(!o.confirmed);
    assert_eq!(s.open_trade.as_ref().unwrap().position_id, 9);
}

#[test]
fn a_position_of_another_symbol_changes_nothing() {
    let mut s = State::new_at(0);
    s.open_trade = Some(trade("", "OPEN", 0.0));
    let o = handle_position(position("SUI_USDT", 9, 1.0), &mut s);
    assert!(!o.confirmed && o.close.is_none());
    assert!(!s.open_trade.as_ref().unwrap().verified);
    s.open_trade = None;
    assert!(!handle_position(position("TAO_USDT", 9, 1.0), &mut s).confirmed);
    assert!(s.open_trade.is_none());
}

#[test]
fn a_closed_position_is_announced() {
    let mut s = State::new_at(0);
    s.open_trade = Some(trade("", "OPEN", 0.0));
    for held in [0.0, -0.0, -1.0] {
        let o = handle_position(position("TAO_USDT", 9, held), &mut s);
        let c = o.close.unwrap();
        assert_eq!((c.symbol.as_str(), c.position_id), ("TAOUSDT", 9));
        assert!(!o.confirmed);
    }
    assert!(!s.open_trade.as_ref().unwrap().verified);
    let o = handle_position(PositionPush { symbol: None, data: None }, &mut s);
    assert!(o.close.is_none() && !o.confirmed);
}

#[test]
fn balances_in_usdt_are_kept() {
    let asset = |c: &str, b: f64| AssetPush {
        data: Some(AssetData { currency: c.to_string(), available_balance: d(b) }),
    };
    let mut s = State::new_at(0);
    handle_asset(asset("USDT", 12.5), &mut s);
    assert_eq!(s.balance_usdt, d(12.5));
    handle_asset(asset("BTC", 1.0), &mut s);
    assert_eq!(s.balance_usdt, d(12.5));
    handle_asset(AssetPush { data: None }, &mut s);
    assert_eq!(s.balance_usdt, d(12.5));
}

#[test]
fn channels_of_the_account_feed() {
    for c in ["pong", "rs.sub.personal.order.deal", "rs.sub.personal.position", "rs.sub.personal.asset", "rs.sub.personal.order"] {
        assert_eq!(route(c), Route::Ack);
    }
    assert_eq!(route("rs.error"), Route::ServerError);
    assert_eq!(route("push.personal.position"), Route::Position);
    assert_eq!(route("push.personal.order.deal"), Route::Deal);
    assert_eq!(route("push.personal.asset"), Route::Asset);
    assert_eq!(route("push.personal.order"), Route::Ignored);
    assert_eq!(route(""), Route::Ignored);
}

#[test]
fn messages_of_the_account_feed() {
    let m = handle_text("{\"channel\":\"push.personal.asset\",\"data\":{}}").unwrap();
    assert_eq!(m.route, Route::Asset);
    assert!(m.body.get("data").is_some());
    assert_eq!(handle_text("1").unwrap().route, Route::Ignored);
    assert!(matches!(handle_text(""), Err(FeedError::Json(_))));
    let mut o = serde_json::Map::new();
    o.insert("channel".to_string(), Value::String("push.personal.order.deal".to_string()));
    assert_eq!(inbound(Value::Object(o)).route, Route::Deal);
}

#[test]
fn answers_to_a_login() {
    let say = |t: &str| login_reply(t).unwrap();
    assert_eq!(say("{\"channel\":\"rs.login\",\"data\":\"success\"}"), LoginReply::Accepted);
    assert_eq!(say("{\"channel\":\"rs.login\",\"data\":\"failed\"}"), LoginReply::Rejected);
    assert_eq!(say("{\"channel\":\"rs.login\",\"data\":{\"success\":true}}"), LoginReply::Rejected);
    assert_eq!(say("{\"channel\":\"rs.error\",\"data\":\"success\"}"), LoginReply::Rejected);
    assert_eq!(say("{\"channel\":\"pong\",\"data\":\"success\"}"), LoginReply::Pending);
    assert_eq!(say("[]"), LoginReply::Pending);
    assert!(matches!(login_reply("nope"), Err(FeedError::Json(_))));
    assert_eq!(login_in(&Value::Null), LoginReply::Pending);
}

#[test]
fn requests_of_the_account_feed() {
    assert_eq!(login_request("WEB\"1"), "{\"method\":\"login\",\"param\":{\"token\":\"WEB\\\"1\"}}");
    assert_eq!(
        subscriptions("u"),
        vec![
            "{\"method\":\"sub.personal.order.deal\",\"param\":{}}",
            "{\"method\":\"sub.personal.order.deal\",\"param\":{\"token\":\"u\"}}",
            "{\"method\":\"sub.personal.position\",\"param\":{}}",
            "{\"method\":\"sub.personal.position\",\"param\":{\"token\":\"u\"}}",
            "{\"method\":\"sub.personal.asset\",\"param\":{}}",
            "{\"method\":\"sub.personal.asset\",\"param\":{\"token\":\"u\"}}",
            "{\"method\":\"sub.personal.order\",\"param\":{}}",
            "{\"method\":\"sub.personal.order\",\"param\":{\"token\":\"u\"}}",
        ]
    );
}

#[test]
fn steps_of_a_login() {
    let fail = |f| LoginStep::Fail(f);
    assert_eq!(login_step(LoginEvent::Reply(LoginReply::Accepted)), LoginStep::Proceed);
    assert_eq!(login_step(LoginEvent::Reply(LoginReply::Rejected)), fail(LoginFailure::Rejected));
    assert_eq!(login_step(LoginEvent::Reply(LoginReply::Pending)), LoginStep::Wait);
    assert_eq!(login_step(LoginEvent::Other), LoginStep::Wait);
    assert_eq!(login_step(LoginEvent::Unreadable), fail(LoginFailure::Broken));
    assert_eq!(login_step(LoginEvent::ReceiveFailed), fail(LoginFailure::Broken));
    assert_eq!(login_step(LoginEvent::Ended), fail(LoginFailure::Closed));
    assert_eq!(login_step(LoginEvent::TimedOut), fail(LoginFailure::TimedOut));
}
