//! The account feed of MEXC: positions, deals and the balance.
use crate::double::{law_sign_is_that_of_the_bits, Double};
use crate::feed::FeedError;
use crate::json::{
    json, member_or_empty, parse, parsed, request, request_text, single, single_text, text_or_empty,
    Json,
};
use crate::state::{after_reset, trades, State, StateView, Trade, TradeView};
use crate::text::{remove_char, same, without};
use vstd::prelude::*;

verus! {

/// How many of the newest closed trades are searched for the trade of a deal.
pub const SEARCH_DEPTH: usize = 20;

/// How long before its report a trade that was missed is taken to have been opened.
pub const ASSUMED_HOLD_MS: u64 = 60_000;

/// A deal: an order that was filled.
#[derive(Debug)]
pub struct DealData {
    pub order_id: String,
    /// The profit that the exchange reports for a closing deal.
    pub profit: Double,
    pub realised_profit: Double,
    /// 1 = open, 2 = close, 3 = liquidation
    pub category: i32,
    /// 1 = open long, 2 = close short, 3 = open short, 4 = close long
    pub side: i32,
    pub price: Double,
    pub vol: Double,
    pub symbol: String,
    pub timestamp: u64,
}

/// The report of a deal.
#[derive(Debug)]
pub struct DealPush {
    pub symbol: Option<String>,
    pub data: Option<DealData>,
}

/// What a deal says.
pub struct DealView {
    pub order_id: Seq<char>,
    pub profit: Double,
    pub realised_profit: Double,
    pub side: i32,
    pub price: Double,
    pub vol: Double,
    pub symbol: Seq<char>,
    pub timestamp: u64,
}

impl View for DealData {
    type V = DealView;

    open spec fn view(&self) -> DealView {
        DealView {
            order_id: self.order_id@,
            profit: self.profit,
            realised_profit: self.realised_profit,
            side: self.side,
            price: self.price,
            vol: self.vol,
            symbol: self.symbol@,
            timestamp: self.timestamp,
        }
    }
}

/// A text that may be missing; missing is empty.
pub open spec fn text_of(s: Option<String>) -> Seq<char> {
    match s {
        Some(s) => s@,
        None => Seq::empty(),
    }
}

/// The deal of a report, if it names one.
pub open spec fn deal_of(d: Option<DealData>) -> Option<DealView> {
    match d {
        Some(d) => Some(d@),
        None => None,
    }
}

/// The news that a position is closed.
#[derive(Debug)]
pub struct PositionClose {
    /// The symbol without its underscore.
    pub symbol: String,
    pub position_id: i64,
}

/// What the news says.
pub open spec fn close_of(c: Option<PositionClose>) -> Option<(Seq<char>, i64)> {
    match c {
        Some(c) => Some((c.symbol@, c.position_id)),
        None => None,
    }
}

/// What has to happen to the total profit.
#[derive(Clone, Copy, Debug, PartialEq, Eq, Structural)]
pub enum PnlChange {
    Unchanged,
    /// The profit of a recorded trade was `old` and is `new`.
    Corrected { old_pnl: Double, new_pnl: Double },
    /// A trade with this profit was added.
    Added { pnl: Double },
}

/// What a deal leads to: the news to send, and the change of the total profit. The
/// trades have changed, and are to be saved, exactly when the profit has.
#[derive(Debug)]
pub struct DealOutcome {
    pub close: Option<PositionClose>,
    pub pnl: PnlChange,
}

/// The sides that close a position. Closing deals come with any category, so the
/// side alone tells.
pub open spec fn closes(side: i32) -> bool {
    side == 2 || side == 4
}

/// The profit of a deal: the one under either name that is not zero, the first name
/// first.
pub open spec fn real_pnl(d: DealView) -> Double {
    if d.profit.zero() {
        d.realised_profit
    } else {
        d.profit
    }
}

/// The position that is open, or zero.
pub open spec fn open_position(s: StateView) -> i64 {
    match s.open_trade {
        Some(t) => t.position_id,
        None => 0,
    }
}

/// The news that a deal gives: a closing deal of a named symbol closes the position.
pub open spec fn deal_close(s: StateView, symbol: Seq<char>, d: DealView) -> Option<(
    Seq<char>,
    i64,
)> {
    if closes(d.side) && symbol.len() > 0 {
        Some((without(symbol, '_'), open_position(s)))
    } else {
        None
    }
}

/// Whether the profit of a deal is still to be booked.
pub open spec fn books(s: StateView, d: DealView) -> bool {
    closes(d.side) && d.order_id.len() > 0 && !s.corrected_oids.contains(d.order_id)
}

/// A closed trade that the order `oid` closed.
pub open spec fn closed_by(t: TradeView, oid: Seq<char>) -> bool {
    t.close_order_id == oid && t.status == "CLOSED"@
}

/// `i` is the newest trade, among the searched ones, that `oid` closed.
pub open spec fn is_newest(history: Seq<TradeView>, oid: Seq<char>, i: int) -> bool {
    &&& 0 <= i < history.len()
    &&& history.len() - SEARCH_DEPTH <= i
    &&& closed_by(history[i], oid)
    &&& forall|j: int| i < j < history.len() ==> !closed_by(#[trigger] history[j], oid)
}

/// Where the trade of a deal stands in the history, if it is among the searched ones.
pub open spec fn newest(history: Seq<TradeView>, oid: Seq<char>) -> Option<int> {
    if exists|i: int| is_newest(history, oid, i) {
        Some(choose|i: int| is_newest(history, oid, i))
    } else {
        None
    }
}

/// The record that stands in for a trade that was not found. A closed short had been
/// sold, a closed long bought.
pub open spec fn synthetic(symbol: Seq<char>, d: DealView, now: u64) -> TradeView {
    let named = if symbol.len() > 0 {
        symbol
    } else {
        d.symbol
    };
    TradeView {
        id: "ws_"@ + d.order_id,
        symbol: without(named, '_'),
        side: if d.side == 2 {
            "SELL"@
        } else {
            "BUY"@
        },
        entry_price: Double { bits: 0 },
        exit_price: d.price,
        size: d.vol,
        pnl: real_pnl(d),
        status: "CLOSED"@,
        close_order_id: d.order_id,
        position_id: 0,
        open_time_ms: if now < ASSUMED_HOLD_MS {
            0
        } else {
            (now - ASSUMED_HOLD_MS) as u64
        },
        close_time_ms: if d.timestamp > 0 {
            d.timestamp
        } else {
            now
        },
        spread_at_entry: Double { bits: 0 },
        stop_armed: false,
        open_http_ms: 0,
        close_reason: "ws_synthetic"@,
        verified: true,
    }
}

/// The history once the profit of a deal is booked: the trade found has its profit
/// set, or a record is added.
pub open spec fn booked(
    history: Seq<TradeView>,
    symbol: Seq<char>,
    d: DealView,
    now: u64,
) -> Seq<TradeView> {
    match newest(history, d.order_id) {
        Some(i) => history.update(i, TradeView { pnl: real_pnl(d), ..history[i] }),
        None => history.push(synthetic(symbol, d, now)),
    }
}

/// The state after a deal.
pub open spec fn after_deal(
    s: StateView,
    symbol: Seq<char>,
    deal: Option<DealView>,
    now: u64,
) -> StateView {
    match deal {
        Some(d) => if books(s, d) {
            StateView {
                trade_history: booked(s.trade_history, symbol, d, now),
                corrected_oids: s.corrected_oids.insert(d.order_id),
                ..s
            }
        } else {
            s
        },
        None => s,
    }
}

/// The change of the total profit that a deal asks for.
pub open spec fn deal_pnl(s: StateView, deal: Option<DealView>) -> PnlChange {
    match deal {
        Some(d) => if books(s, d) {
            match newest(s.trade_history, d.order_id) {
                Some(i) => PnlChange::Corrected {
                    old_pnl: s.trade_history[i].pnl,
                    new_pnl: real_pnl(d),
                },
                None => PnlChange::Added { pnl: real_pnl(d) },
            }
        } else {
            PnlChange::Unchanged
        },
        None => PnlChange::Unchanged,
    }
}

/// The newest of the searched trades that `oid` closed.
fn find_closed(history: &Vec<Trade>, oid: &str) -> (r: Option<usize>)
    ensures
        r matches Some(i) ==> is_newest(trades(history@), oid@, i as int),
        r is None ==> forall|i: int| !is_newest(trades(history@), oid@, i),
        r is Some <==> newest(trades(history@), oid@) is Some,
        r matches Some(i) ==> newest(trades(history@), oid@) == Some(i as int),
{
    let n: usize = history.len();
    let floor: usize = if n > SEARCH_DEPTH {
        n - SEARCH_DEPTH
    } else {
        0
    };
    let ghost hs = trades(history@);
    let mut i: usize = n;
    while i > floor
        invariant
            floor <= i <= n,
            n == history.len(),
            floor == (if n > SEARCH_DEPTH {
                n - SEARCH_DEPTH
            } else {
                0
            }),
            hs == trades(history@),
            forall|j: int| i <= j < n ==> !closed_by(#[trigger] hs[j], oid@),
        decreases i,
    {
        i = i - 1;
        let t = &history[i];
        assert(hs[i as int] == t@);
        if same(t.close_order_id.as_str(), oid) && same(t.status.as_str(), "CLOSED") {
            proof {
                assert(is_newest(hs, oid@, i as int));
                let k = choose|k: int| is_newest(hs, oid@, k);
                assert(k == i) by {
                    if k < i {
                        assert(!closed_by(hs[i as int], oid@));
                    } else if k > i {
                        assert(!closed_by(hs[k], oid@));
                    }
                }
            }
            return Some(i);
        }
    }
    None
}

/// Takes in the report of a deal at the time `now`.
pub fn handle_deal(push: DealPush, state: &mut State, now: u64) -> (r: DealOutcome)
    requires
        old(state).wf(),
    ensures
        final(state).wf(),
        final(state)@ == after_deal(old(state)@, text_of(push.symbol), deal_of(push.data), now),
        close_of(r.close) == (match deal_of(push.data) {
            Some(d) => deal_close(old(state)@, text_of(push.symbol), d),
            None => None,
        }),
        r.pnl == deal_pnl(old(state)@, deal_of(push.data)),
{
    let ghost before = state@;
    let symbol_raw = match push.symbol {
        Some(s) => s,
        None => String::new(),
    };
    let data = match push.data {
        Some(d) => d,
        None => {
            return DealOutcome { close: None, pnl: PnlChange::Unchanged };
        },
    };
    let closing = data.side == 2 || data.side == 4;
    let close = if closing && !symbol_raw.as_str().is_empty() {
        let position_id: i64 = match &state.open_trade {
            Some(t) => t.position_id,
            None => 0,
        };
        Some(PositionClose { symbol: remove_char(symbol_raw.as_str(), '_'), position_id })
    } else {
        None
    };
    if !closing || data.order_id.as_str().is_empty() {
        return DealOutcome { close, pnl: PnlChange::Unchanged };
    }
    if state.corrected_oids.contains(data.order_id.as_str()) {
        return DealOutcome { close, pnl: PnlChange::Unchanged };
    }
    state.corrected_oids.set(data.order_id.as_str(), ());
    assert(state.corrected_oids@.dom() =~= before.corrected_oids.insert(data.order_id@));
    let amount = if data.profit.is_zero() {
        data.realised_profit
    } else {
        data.profit
    };
    let ghost history = trades(state.trade_history@);
    match find_closed(&state.trade_history, data.order_id.as_str()) {
        Some(i) => {
            let mut t = state.trade_history[i].clone();
            let old_pnl = t.pnl;
            t.pnl = amount;
            state.trade_history.set(i, t);
            proof {
                assert(trades(state.trade_history@) =~= history.update(
                    i as int,
                    TradeView { pnl: amount, ..history[i as int] },
                ));
                assert(state@ =~= after_deal(before, symbol_raw@, Some(data@), now));
            }
            DealOutcome { close, pnl: PnlChange::Corrected { old_pnl, new_pnl: amount } }
        },
        None => {
            let named = if !symbol_raw.as_str().is_empty() {
                symbol_raw.as_str()
            } else {
                data.symbol.as_str()
            };
            let mut id = String::new();
            id.append("ws_");
            id.append(data.order_id.as_str());
            let record = Trade {
                id,
                symbol: remove_char(named, '_'),
                side: (if data.side == 2 {
                    "SELL"
                } else {
                    "BUY"
                }).to_string(),
                entry_price: Double { bits: 0 },
                exit_price: data.price,
                size: data.vol,
                pnl: amount,
                status: "CLOSED".to_string(),
                close_order_id: data.order_id.clone(),
                position_id: 0,
                open_time_ms: now.saturating_sub(ASSUMED_HOLD_MS),
                close_time_ms: if data.timestamp > 0 {
                    data.timestamp
                } else {
                    now
                },
                spread_at_entry: Double { bits: 0 },
                stop_armed: false,
                open_http_ms: 0,
                close_reason: "ws_synthetic".to_string(),
                verified: true,
            };
            proof {
                assert(record@.id =~= "ws_"@ + data.order_id@);
                assert(record@ == synthetic(symbol_raw@, data@, now));
            }
            state.trade_history.push(record);
            proof {
                assert(trades(state.trade_history@) =~= history.push(record@));
                assert(state@ =~= after_deal(before, symbol_raw@, Some(data@), now));
            }
            DealOutcome { close, pnl: PnlChange::Added { pnl: amount } }
        },
    }
}

/// Once the profit of an order is booked, no later report of that order changes the
/// trades or the total profit.
pub proof fn law_order_is_booked_once(
    s: StateView,
    symbol: Seq<char>,
    d: DealView,
    now: u64,
    later_symbol: Seq<char>,
    later: DealView,
    later_now: u64,
)
    requires
        closes(d.side),
        d.order_id.len() > 0,
        later.order_id == d.order_id,
    ensures
        ({
            let once = after_deal(s, symbol, Some(d), now);
            &&& after_deal(once, later_symbol, Some(later), later_now) == once
            &&& deal_pnl(once, Some(later)) == PnlChange::Unchanged
        }),
{
}

/// A deal removes no trade, adds at most one, and of the trades that were there it
/// changes the profit of at most one.
pub proof fn law_deal_keeps_the_trades(
    s: StateView,
    symbol: Seq<char>,
    deal: Option<DealView>,
    now: u64,
)
    ensures
        ({
            let h = s.trade_history;
            let after = after_deal(s, symbol, deal, now).trade_history;
            &&& h.len() <= after.len() <= h.len() + 1
            &&& forall|i: int|
                0 <= i < h.len() ==> #[trigger] after[i] == (TradeView { pnl: after[i].pnl, ..h[i] })
            &&& forall|i: int, j: int|
                0 <= i < j < h.len() ==> #[trigger] after[i] == h[i] || #[trigger] after[j] == h[j]
        }),
{
    if deal is Some && books(s, deal->0) {
        match newest(s.trade_history, deal->0.order_id) {
            Some(i) => {
                assert(is_newest(s.trade_history, deal->0.order_id, i));
            },
            None => {},
        }
    }
}

/// When a deal is booked, a closed trade of its order stands in the history with its
/// profit, and the total changes by what the history changed by.
pub proof fn law_booked_profit_is_recorded(
    s: StateView,
    symbol: Seq<char>,
    d: DealView,
    now: u64,
)
    requires
        books(s, d),
    ensures
        ({
            let h = s.trade_history;
            let after = after_deal(s, symbol, Some(d), now).trade_history;
            exists|i: int|
                {
                    &&& 0 <= i < after.len()
                    &&& closed_by(#[trigger] after[i], d.order_id)
                    &&& after[i].pnl == real_pnl(d)
                    &&& deal_pnl(s, Some(d)) == (if i < h.len() {
                        PnlChange::Corrected { old_pnl: h[i].pnl, new_pnl: after[i].pnl }
                    } else {
                        PnlChange::Added { pnl: after[i].pnl }
                    })
                }
        }),
{
    let h = s.trade_history;
    let after = after_deal(s, symbol, Some(d), now).trade_history;
    match newest(h, d.order_id) {
        Some(i) => {
            assert(is_newest(h, d.order_id, i));
            assert(closed_by(after[i], d.order_id));
        },
        None => {
            assert(closed_by(after[h.len() as int], d.order_id));
        },
    }
}

/// A position of the account.
#[derive(Debug)]
pub struct PositionData {
    pub position_id: i64,
    pub hold_vol: Double,
    pub realised: Double,
    /// 1 = long, 2 = short
    pub position_type: i32,
}

/// The report of a position.
#[derive(Debug)]
pub struct PositionPush {
    pub symbol: Option<String>,
    pub data: Option<PositionData>,
}

/// What a position leads to.
#[derive(Debug)]
pub struct PositionOutcome {
    /// The news to send.
    pub close: Option<PositionClose>,
    /// The open trade was confirmed just now.
    pub confirmed: bool,
}

/// A position of which nothing is held is closed.
pub open spec fn position_is_closed(d: PositionData) -> bool {
    d.hold_vol.at_most(Double { bits: 0 })
}

/// The report is about the open trade.
pub open spec fn is_own_position(s: StateView, symbol: Seq<char>) -> bool {
    match s.open_trade {
        Some(t) => t.symbol == without(symbol, '_'),
        None => false,
    }
}

/// The trade once the exchange has confirmed its position.
pub open spec fn confirmed(t: TradeView, position_id: i64) -> TradeView {
    TradeView {
        position_id: if t.position_id == 0 {
            position_id
        } else {
            t.position_id
        },
        verified: true,
        ..t
    }
}

/// The state after the report of a position.
pub open spec fn after_position(
    s: StateView,
    symbol: Seq<char>,
    data: Option<PositionData>,
) -> StateView {
    match data {
        Some(d) => if !position_is_closed(d) && is_own_position(s, symbol) {
            StateView { open_trade: Some(confirmed(s.open_trade->0, d.position_id)), ..s }
        } else {
            s
        },
        None => s,
    }
}

/// The news that the report of a position gives: one of which nothing is held is closed.
pub open spec fn position_close(symbol: Seq<char>, data: Option<PositionData>) -> Option<(
    Seq<char>,
    i64,
)> {
    match data {
        Some(d) => if position_is_closed(d) {
            Some((without(symbol, '_'), d.position_id))
        } else {
            None
        },
        None => None,
    }
}

/// The report confirms the open trade for the first time.
pub open spec fn newly_confirms(s: StateView, symbol: Seq<char>, data: Option<PositionData>) -> bool {
    &&& data is Some && !position_is_closed(data->0)
    &&& is_own_position(s, symbol)
    &&& !s.open_trade->0.verified
}

/// A position is announced as closed exactly if nothing is held of it, whether or not it
/// is the one that is traded; it is told as confirmed exactly if something is held of
/// it, it is the one that is traded, and it was not confirmed before.
pub proof fn law_closed_position_is_announced(s: StateView, symbol: Seq<char>, d: PositionData)
    ensures
        ({
            let held = d.hold_vol.nan() || d.hold_vol.positive();
            &&& held ==> position_close(symbol, Some(d)) is None
            &&& !held ==> position_close(symbol, Some(d)) == Some(
                (without(symbol, '_'), d.position_id),
            )
            &&& newly_confirms(s, symbol, Some(d)) <==> {
                &&& held
                &&& s.open_trade is Some
                &&& s.open_trade->0.symbol == without(symbol, '_')
                &&& !s.open_trade->0.verified
            }
        }),
        position_close(symbol, None) is None,
        !newly_confirms(s, symbol, None),
{
    law_sign_is_that_of_the_bits(d.hold_vol);
}

/// Takes in the report of a position. A closed one is only announced: the trade is
/// left to whoever watches it.
pub fn handle_position(push: PositionPush, state: &mut State) -> (r: PositionOutcome)
    requires
        old(state).wf(),
    ensures
        final(state).wf(),
        final(state)@ == after_position(old(state)@, text_of(push.symbol), push.data),
        close_of(r.close) == (match push.data {
            Some(d) => if position_is_closed(d) {
                Some((without(text_of(push.symbol), '_'), d.position_id))
            } else {
                None
            },
            None => None,
        }),
        close_of(r.close) == position_close(text_of(push.symbol), push.data),
        r.confirmed == newly_confirms(old(state)@, text_of(push.symbol), push.data),
        r.confirmed == (match old(state)@.open_trade {
            Some(t) => !t.verified && final(state)@.open_trade->0.verified,
            None => false,
        }),
{
    let ghost before = state@;
    let symbol_raw = match push.symbol {
        Some(s) => s,
        None => String::new(),
    };
    let data = match push.data {
        Some(d) => d,
        None => {
            return PositionOutcome { close: None, confirmed: false };
        },
    };
    let symbol = remove_char(symbol_raw.as_str(), '_');
    if data.hold_vol.le(&Double { bits: 0 }) {
        return PositionOutcome {
            close: Some(PositionClose { symbol, position_id: data.position_id }),
            confirmed: false,
        };
    }
    let mut newly = false;
    match &mut state.open_trade {
        Some(t) => {
            if same(t.symbol.as_str(), symbol.as_str()) {
                if t.position_id == 0 {
                    t.position_id = data.position_id;
                }
                if !t.verified {
                    t.verified = true;
                    newly = true;
                }
            }
        },
        None => {},
    }
    assert(state@ =~= after_position(before, symbol_raw@, Some(data)));
    PositionOutcome { close: None, confirmed: newly }
}

/// No report of a position takes a confirmation back, replaces a position that is
/// known, or opens or drops a trade.
pub proof fn law_position_only_confirms(
    s: StateView,
    symbol: Seq<char>,
    data: Option<PositionData>,
)
    ensures
        ({
            let after = after_position(s, symbol, data).open_trade;
            &&& after is Some <==> s.open_trade is Some
            &&& s.open_trade matches Some(t) ==> {
                &&& t.verified ==> after->0.verified
                &&& t.position_id != 0 ==> after->0.position_id == t.position_id
                &&& after->0 == (TradeView {
                    position_id: after->0.position_id,
                    verified: after->0.verified,
                    ..t
                })
            }
        }),
{
}

/// What the account holds of one currency.
#[derive(Debug)]
pub struct AssetData {
    pub currency: String,
    pub available_balance: Double,
}

/// The report of a balance.
#[derive(Debug)]
pub struct AssetPush {
    pub data: Option<AssetData>,
}

/// The state after the report of a balance: only the balance in USDT is kept.
pub open spec fn after_asset(s: StateView, data: Option<AssetData>) -> StateView {
    match data {
        Some(d) => if d.currency@ == "USDT"@ {
            StateView { balance_usdt: d.available_balance, ..s }
        } else {
            s
        },
        None => s,
    }
}

/// Takes in the report of a balance.
pub fn handle_asset(push: AssetPush, state: &mut State)
    requires
        old(state).wf(),
    ensures
        final(state).wf(),
        final(state)@ == after_asset(old(state)@, push.data),
{
    match push.data {
        Some(d) => {
            if same(d.currency.as_str(), "USDT") {
                state.balance_usdt = d.available_balance;
            }
        },
        None => {},
    }
}

/// The account feed leaves the market as it is: the books and the prices.
pub proof fn law_account_feed_leaves_the_market(
    s: StateView,
    symbol: Seq<char>,
    deal: Option<DealView>,
    position: Option<PositionData>,
    asset: Option<AssetData>,
    now: u64,
)
    ensures
        ({
            let d = after_deal(s, symbol, deal, now);
            let p = after_position(s, symbol, position);
            let a = after_asset(s, asset);
            &&& d.binance_prices == s.binance_prices && d.mexc_books == s.mexc_books
                && d.mexc_prices == s.mexc_prices
            &&& p.binance_prices == s.binance_prices && p.mexc_books == s.mexc_books
                && p.mexc_prices == s.mexc_prices
            &&& a.binance_prices == s.binance_prices && a.mexc_books == s.mexc_books
                && a.mexc_prices == s.mexc_prices
        }),
{
}

/// Forgetting the closed trades does not let an order be booked again.
pub proof fn law_reset_books_nothing_again(s: StateView, d: DealView)
    ensures
        books(after_reset(s), d) == books(s, d),
{
}

/// What a message of the account feed is.
#[derive(Clone, Copy, Debug, PartialEq, Eq, Structural)]
pub enum Route {
    /// The answer to a ping or to a subscription.
    Ack,
    ServerError,
    Position,
    Deal,
    Asset,
    Ignored,
}

/// What a channel carries.
pub open spec fn route_of(channel: Seq<char>) -> Route {
    if channel == "pong"@ || channel == "rs.sub.personal.order.deal"@ || channel
        == "rs.sub.personal.position"@ || channel == "rs.sub.personal.asset"@ || channel
        == "rs.sub.personal.order"@ {
        Route::Ack
    } else if channel == "rs.error"@ {
        Route::ServerError
    } else if channel == "push.personal.position"@ {
        Route::Position
    } else if channel == "push.personal.order.deal"@ {
        Route::Deal
    } else if channel == "push.personal.asset"@ {
        Route::Asset
    } else {
        Route::Ignored
    }
}

/// Finds out what a channel carries.
pub fn route(channel: &str) -> (r: Route)
    ensures
        r == route_of(channel@),
{
    if same(channel, "pong") || same(channel, "rs.sub.personal.order.deal") || same(
        channel,
        "rs.sub.personal.position",
    ) || same(channel, "rs.sub.personal.asset") || same(channel, "rs.sub.personal.order") {
        Route::Ack
    } else if same(channel, "rs.error") {
        Route::ServerError
    } else if same(channel, "push.personal.position") {
        Route::Position
    } else if same(channel, "push.personal.order.deal") {
        Route::Deal
    } else if same(channel, "push.personal.asset") {
        Route::Asset
    } else {
        Route::Ignored
    }
}

/// A message of the account feed and what it is.
#[derive(Debug)]
pub struct Inbound {
    pub route: Route,
    pub body: serde_json::Value,
}

/// Finds out what a message is: it goes by its channel.
pub fn inbound(body: serde_json::Value) -> (m: Inbound)
    ensures
        m.body == body,
        m.route == route_of(text_or_empty(json(body), "channel"@)),
{
    let channel = member_or_empty(&body, "channel");
    Inbound { route: route(channel.as_str()), body }
}

/// Reads a message. One that is no JSON is refused; any other goes by its channel.
pub fn handle_text(txt: &str) -> (r: Result<Inbound, FeedError>)
    ensures
        r is Ok <==> parsed(txt@) is Some,
        r matches Err(e) ==> e is Json,
        r matches Ok(m) ==> {
            &&& json(m.body) == parsed(txt@)->0
            &&& m.route == route_of(text_or_empty(parsed(txt@)->0, "channel"@))
        },
{
    match parse(txt) {
        Ok(body) => Ok(inbound(body)),
        Err(e) => Err(FeedError::Json(e)),
    }
}

/// What a message says of the login.
#[derive(Clone, Copy, Debug, PartialEq, Eq, Structural)]
pub enum LoginReply {
    Accepted,
    Rejected,
    /// Nothing: the answer is still to come.
    Pending,
}

/// What a message says of the login.
pub open spec fn login_of(message: Json) -> LoginReply {
    let channel = text_or_empty(message, "channel"@);
    if channel == "rs.login"@ {
        if text_or_empty(message, "data"@) == "success"@ {
            LoginReply::Accepted
        } else {
            LoginReply::Rejected
        }
    } else if channel == "rs.error"@ {
        LoginReply::Rejected
    } else {
        LoginReply::Pending
    }
}

/// What a message says of the login.
pub fn login_in(v: &serde_json::Value) -> (r: LoginReply)
    ensures
        r == login_of(json(*v)),
{
    let channel = member_or_empty(v, "channel");
    if same(channel.as_str(), "rs.login") {
        let data = member_or_empty(v, "data");
        if same(data.as_str(), "success") {
            LoginReply::Accepted
        } else {
            LoginReply::Rejected
        }
    } else if same(channel.as_str(), "rs.error") {
        LoginReply::Rejected
    } else {
        LoginReply::Pending
    }
}

/// Reads a message that comes before the login is answered.
pub fn login_reply(txt: &str) -> (r: Result<LoginReply, FeedError>)
    ensures
        r is Ok <==> parsed(txt@) is Some,
        r matches Err(e) ==> e is Json,
        r matches Ok(l) ==> l == login_of(parsed(txt@)->0),
{
    match parse(txt) {
        Ok(v) => Ok(login_in(&v)),
        Err(e) => Err(FeedError::Json(e)),
    }
}

/// What can happen while a login is waited for.
#[derive(Clone, Copy, Debug, PartialEq, Eq, Structural)]
pub enum LoginEvent {
    /// A text message came.
    Reply(LoginReply),
    /// A text message came that is no JSON.
    Unreadable,
    /// A message of some other kind came.
    Other,
    /// Receiving failed.
    ReceiveFailed,
    /// There is nothing more to receive.
    Ended,
    /// The time for the answer is over.
    TimedOut,
}

/// Why a login failed.
#[derive(Clone, Copy, Debug, PartialEq, Eq, Structural)]
pub enum LoginFailure {
    Rejected,
    Broken,
    Closed,
    TimedOut,
}

/// What to do while a login is waited for.
#[derive(Clone, Copy, Debug, PartialEq, Eq, Structural)]
pub enum LoginStep {
    Wait,
    Proceed,
    Fail(LoginFailure),
}

/// What an event asks for while a login is waited for.
pub open spec fn login_action(e: LoginEvent) -> LoginStep {
    match e {
        LoginEvent::Reply(reply) => match reply {
            LoginReply::Accepted => LoginStep::Proceed,
            LoginReply::Rejected => LoginStep::Fail(LoginFailure::Rejected),
            LoginReply::Pending => LoginStep::Wait,
        },
        LoginEvent::Other => LoginStep::Wait,
        LoginEvent::Unreadable | LoginEvent::ReceiveFailed => LoginStep::Fail(LoginFailure::Broken),
        LoginEvent::Ended => LoginStep::Fail(LoginFailure::Closed),
        LoginEvent::TimedOut => LoginStep::Fail(LoginFailure::TimedOut),
    }
}

/// Only an answer lets the session go on, and only a message that is none lets it wait;
/// everything else ends it, and says why.
pub proof fn law_login_waits_for_its_answer(e: LoginEvent)
    ensures
        login_action(e) == LoginStep::Proceed <==> e == LoginEvent::Reply(LoginReply::Accepted),
        login_action(e) == LoginStep::Wait <==> e == LoginEvent::Reply(LoginReply::Pending) || e
            == LoginEvent::Other,
        login_action(e) == LoginStep::Fail(LoginFailure::Rejected) <==> e == LoginEvent::Reply(
            LoginReply::Rejected,
        ),
        login_action(e) == LoginStep::Fail(LoginFailure::Broken) <==> e == LoginEvent::Unreadable
            || e == LoginEvent::ReceiveFailed,
        login_action(e) == LoginStep::Fail(LoginFailure::Closed) <==> e == LoginEvent::Ended,
        login_action(e) == LoginStep::Fail(LoginFailure::TimedOut) <==> e == LoginEvent::TimedOut,
{
}

/// Tells what an event asks for while a login is waited for: only an answer lets the
/// session go on, and only a message that is none lets it wait.
pub fn login_step(e: LoginEvent) -> (r: LoginStep)
    ensures
        r == login_action(e),
        r == LoginStep::Proceed <==> e == LoginEvent::Reply(LoginReply::Accepted),
        r == LoginStep::Wait <==> e == LoginEvent::Reply(LoginReply::Pending) || e
            == LoginEvent::Other,
        r == LoginStep::Fail(LoginFailure::Rejected) <==> e == LoginEvent::Reply(
            LoginReply::Rejected,
        ),
        r == LoginStep::Fail(LoginFailure::Broken) <==> e == LoginEvent::Unreadable || e
            == LoginEvent::ReceiveFailed,
        r == LoginStep::Fail(LoginFailure::Closed) <==> e == LoginEvent::Ended,
        r == LoginStep::Fail(LoginFailure::TimedOut) <==> e == LoginEvent::TimedOut,
{
    match e {
        LoginEvent::Reply(LoginReply::Accepted) => LoginStep::Proceed,
        LoginEvent::Reply(LoginReply::Rejected) => LoginStep::Fail(LoginFailure::Rejected),
        LoginEvent::Reply(LoginReply::Pending) => LoginStep::Wait,
        LoginEvent::Unreadable => LoginStep::Fail(LoginFailure::Broken),
        LoginEvent::Other => LoginStep::Wait,
        LoginEvent::ReceiveFailed => LoginStep::Fail(LoginFailure::Broken),
        LoginEvent::Ended => LoginStep::Fail(LoginFailure::Closed),
        LoginEvent::TimedOut => LoginStep::Fail(LoginFailure::TimedOut),
    }
}

/// The request that logs an account in.
pub fn login_request(uid: &str) -> (r: String)
    ensures
        r@ == request("login"@, single("token"@, uid@)),
{
    request_text("login", single_text("token", uid).as_str())
}

/// The channels of the account feed, in the order in which they are asked for.
pub open spec fn account_channels() -> Seq<Seq<char>> {
    seq![
        "sub.personal.order.deal"@,
        "sub.personal.position"@,
        "sub.personal.asset"@,
        "sub.personal.order"@,
    ]
}

/// The requests for the account feed: each channel twice, first without and then
/// with the token, since the exchange takes either one or the other.
pub fn subscriptions(uid: &str) -> (r: Vec<String>)
    ensures
        r@.len() == 2 * account_channels().len(),
        forall|i: int|
            0 <= i < account_channels().len() ==> {
                &&& (#[trigger] r@[2 * i])@ == request(account_channels()[i], "{}"@)
                &&& r@[2 * i + 1]@ == request(account_channels()[i], single("token"@, uid@))
            },
{
    let token = single_text("token", uid);
    let mut out: Vec<String> = Vec::new();
    out.push(request_text("sub.personal.order.deal", "{}"));
    out.push(request_text("sub.personal.order.deal", token.as_str()));
    out.push(request_text("sub.personal.position", "{}"));
    out.push(request_text("sub.personal.position", token.as_str()));
    out.push(request_text("sub.personal.asset", "{}"));
    out.push(request_text("sub.personal.asset", token.as_str()));
    out.push(request_text("sub.personal.order", "{}"));
    out.push(request_text("sub.personal.order", token.as_str()));
    out
}

proof fn lemma_newest_is_one(history: Seq<TradeView>, oid: Seq<char>, i: int)
    requires
        is_newest(history, oid, i),
    ensures
        newest(history, oid) == Some(i),
{
    let k = choose|k: int| is_newest(history, oid, k);
    assert(is_newest(history, oid, k));
    if k < i {
        assert(!closed_by(history[i], oid));
    } else if i < k {
        assert(!closed_by(history[k], oid));
    }
}

/// A closing deal of a trade among the last twenty sets the profit of that trade, the
/// newest one that the order closed, and of no other. The profit set is the one that
/// the deal reports, a loss as well as a gain; only where that is zero it is the one
/// under the second name. The total changes from the old profit to the new one.
pub proof fn law_deal_sets_the_profit_it_reports(
    s: StateView,
    symbol: Seq<char>,
    d: DealView,
    now: u64,
    i: int,
)
    requires
        d.side == 2 || d.side == 4,
        d.order_id.len() > 0,
        !s.corrected_oids.contains(d.order_id),
        0 <= i < s.trade_history.len(),
        s.trade_history.len() - 20 <= i,
        s.trade_history[i].close_order_id == d.order_id,
        s.trade_history[i].status == "CLOSED"@,
        forall|j: int|
            i < j < s.trade_history.len() ==> (#[trigger] s.trade_history[j]).close_order_id
                != d.order_id || s.trade_history[j].status != "CLOSED"@,
    ensures
        ({
            let after = after_deal(s, symbol, Some(d), now);
            let t = after.trade_history[i];
            &&& d.profit.bits != 0 && d.profit.bits != 0x8000_0000_0000_0000 ==> t.pnl == d.profit
            &&& d.profit.bits == 0 || d.profit.bits == 0x8000_0000_0000_0000 ==> t.pnl
                == d.realised_profit
            &&& t == (TradeView { pnl: t.pnl, ..s.trade_history[i] })
            &&& after.trade_history == s.trade_history.update(i, t)
            &&& after.corrected_oids == s.corrected_oids.insert(d.order_id)
            &&& after == (StateView {
                trade_history: after.trade_history,
                corrected_oids: after.corrected_oids,
                ..s
            })
            &&& deal_pnl(s, Some(d)) == PnlChange::Corrected {
                old_pnl: s.trade_history[i].pnl,
                new_pnl: t.pnl,
            }
        }),
{
    assert forall|j: int| i < j < s.trade_history.len() implies !closed_by(
        #[trigger] s.trade_history[j],
        d.order_id,
    ) by {}
    assert(is_newest(s.trade_history, d.order_id, i));
    lemma_newest_is_one(s.trade_history, d.order_id, i);
}

/// A closing deal of no trade among the last twenty adds a closed trade, which is all
/// that the deal tells, at the end: with the profit that the deal reports, a loss as
/// well as a gain, sold where a short was closed and bought where a long was, and
/// opened a minute before. The total grows by that profit.
pub proof fn law_missed_trade_is_added(s: StateView, symbol: Seq<char>, d: DealView, now: u64)
    requires
        d.side == 2 || d.side == 4,
        d.order_id.len() > 0,
        !s.corrected_oids.contains(d.order_id),
        forall|j: int|
            0 <= j < s.trade_history.len() && s.trade_history.len() - 20 <= j ==> (
            #[trigger] s.trade_history[j]).close_order_id != d.order_id
                || s.trade_history[j].status != "CLOSED"@,
    ensures
        ({
            let after = after_deal(s, symbol, Some(d), now);
            let t = after.trade_history.last();
            &&& after.trade_history == s.trade_history.push(t)
            &&& d.profit.bits != 0 && d.profit.bits != 0x8000_0000_0000_0000 ==> t.pnl == d.profit
            &&& d.profit.bits == 0 || d.profit.bits == 0x8000_0000_0000_0000 ==> t.pnl
                == d.realised_profit
            &&& t.id == "ws_"@ + d.order_id
            &&& symbol.len() > 0 ==> t.symbol == without(symbol, '_')
            &&& symbol.len() == 0 ==> t.symbol == without(d.symbol, '_')
            &&& d.side == 2 ==> t.side == "SELL"@
            &&& d.side == 4 ==> t.side == "BUY"@
            &&& t.exit_price == d.price && t.size == d.vol
            &&& t.entry_price.bits == 0 && t.spread_at_entry.bits == 0
            &&& t.status == "CLOSED"@ && t.close_order_id == d.order_id
            &&& t.position_id == 0 && t.open_http_ms == 0 && !t.stop_armed && t.verified
            &&& t.close_reason == "ws_synthetic"@
            &&& now >= 60_000 ==> t.open_time_ms == now - 60_000
            &&& now < 60_000 ==> t.open_time_ms == 0
            &&& d.timestamp > 0 ==> t.close_time_ms == d.timestamp
            &&& d.timestamp == 0 ==> t.close_time_ms == now
            &&& after.corrected_oids == s.corrected_oids.insert(d.order_id)
            &&& after == (StateView {
                trade_history: after.trade_history,
                corrected_oids: after.corrected_oids,
                ..s
            })
            &&& deal_pnl(s, Some(d)) == PnlChange::Added { pnl: t.pnl }
        }),
{
    assert(newest(s.trade_history, d.order_id) is None) by {
        if exists|i: int| is_newest(s.trade_history, d.order_id, i) {
            let i = choose|i: int| is_newest(s.trade_history, d.order_id, i);
            assert(closed_by(s.trade_history[i], d.order_id));
        }
    }
}

/// A report without a deal, a deal that opens, one without an order and one whose order
/// is booked already change neither the state nor the total.
pub proof fn law_other_deals_change_nothing(
    s: StateView,
    symbol: Seq<char>,
    deal: Option<DealView>,
    now: u64,
)
    requires
        deal is None || (deal->0.side != 2 && deal->0.side != 4) || deal->0.order_id.len() == 0
            || s.corrected_oids.contains(deal->0.order_id),
    ensures
        after_deal(s, symbol, deal, now) == s,
        deal_pnl(s, deal) == PnlChange::Unchanged,
{
}

/// Every closing deal of a named symbol is announced, booked before or not, with the
/// position that is open; no other deal is.
pub proof fn law_closing_deal_is_announced(s: StateView, symbol: Seq<char>, d: DealView)
    ensures
        (d.side == 2 || d.side == 4) && symbol.len() > 0 ==> {
            &&& s.open_trade matches Some(t) ==> deal_close(s, symbol, d) == Some(
                (without(symbol, '_'), t.position_id),
            )
            &&& s.open_trade is None ==> deal_close(s, symbol, d) == Some(
                (without(symbol, '_'), 0i64),
            )
        },
        (d.side != 2 && d.side != 4) || symbol.len() == 0 ==> deal_close(s, symbol, d) is None,
{
}

/// A position of which anything is held confirms the open trade of its symbol, and
/// gives it its number where it had none. Nothing else is changed, and a position of
/// which nothing is held, or one of another symbol, changes nothing at all.
pub proof fn law_held_position_confirms_its_trade(s: StateView, symbol: Seq<char>, d: PositionData)
    ensures
        ({
            let after = after_position(s, symbol, Some(d));
            let held = d.hold_vol.nan() || d.hold_vol.positive();
            let own = s.open_trade is Some && s.open_trade->0.symbol == without(symbol, '_');
            &&& position_is_closed(d) <==> !held
            &&& held && own ==> {
                let t = s.open_trade->0;
                &&& after.open_trade is Some
                &&& after.open_trade->0.verified
                &&& t.position_id == 0 ==> after.open_trade->0.position_id == d.position_id
                &&& t.position_id != 0 ==> after.open_trade->0.position_id == t.position_id
                &&& after.open_trade->0 == (TradeView {
                    verified: true,
                    position_id: after.open_trade->0.position_id,
                    ..t
                })
                &&& after == (StateView { open_trade: after.open_trade, ..s })
            }
            &&& !held || !own ==> after == s
        }),
        after_position(s, symbol, None) == s,
{
    law_sign_is_that_of_the_bits(d.hold_vol);
}

/// A balance in USDT becomes the balance; any other currency is passed over, and
/// nothing else is touched.
pub proof fn law_only_usdt_is_the_balance(s: StateView, d: AssetData)
    ensures
        d.currency@ == "USDT"@ ==> after_asset(s, Some(d)).balance_usdt == d.available_balance,
        d.currency@ != "USDT"@ ==> after_asset(s, Some(d)) == s,
        after_asset(s, Some(d)) == (StateView {
            balance_usdt: after_asset(s, Some(d)).balance_usdt,
            ..s
        }),
        after_asset(s, None) == s,
{
}

/// Each channel of the feed is told from the others: reports go to what handles them,
/// answers to requests are passed over.
pub proof fn law_channels_are_told_apart(channel: Seq<char>)
    ensures
        route_of(channel) == Route::Position <==> channel == "push.personal.position"@,
        route_of(channel) == Route::Deal <==> channel == "push.personal.order.deal"@,
        route_of(channel) == Route::Asset <==> channel == "push.personal.asset"@,
        route_of(channel) == Route::ServerError <==> channel == "rs.error"@,
        route_of(channel) == Route::Ack <==> channel == "pong"@ || channel
            == "rs.sub.personal.order.deal"@ || channel == "rs.sub.personal.position"@ || channel
            == "rs.sub.personal.asset"@ || channel == "rs.sub.personal.order"@,
{
    reveal_strlit("push.personal.position");
    reveal_strlit("push.personal.order.deal");
    reveal_strlit("push.personal.asset");
    reveal_strlit("rs.error");
    reveal_strlit("pong");
    reveal_strlit("rs.sub.personal.order.deal");
    reveal_strlit("rs.sub.personal.position");
    reveal_strlit("rs.sub.personal.asset");
    reveal_strlit("rs.sub.personal.order");
    assert("push.personal.position"@[0] == 'p' && "push.personal.order.deal"@[0] == 'p'
        && "push.personal.asset"@[0] == 'p');
    assert("push.personal.position"@[1] == 'u' && "push.personal.order.deal"@[1] == 'u'
        && "push.personal.asset"@[1] == 'u' && "pong"@[1] == 'o');
    assert("push.personal.position"@.len() == 22 && "push.personal.order.deal"@.len() == 24
        && "push.personal.asset"@.len() == 19);
    assert("rs.error"@[0] == 'r' && "rs.sub.personal.order.deal"@[0] == 'r'
        && "rs.sub.personal.position"@[0] == 'r' && "rs.sub.personal.asset"@[0] == 'r'
        && "rs.sub.personal.order"@[0] == 'r');
    assert("rs.error"@[3] == 'e' && "rs.sub.personal.order.deal"@[3] == 's'
        && "rs.sub.personal.position"@[3] == 's' && "rs.sub.personal.asset"@[3] == 's'
        && "rs.sub.personal.order"@[3] == 's');
}

/// A login is accepted by the answer that says so, and by no other message; an error of
/// the exchange rejects it like an answer that says anything else.
pub proof fn law_login_needs_its_answer(message: Json)
    ensures
        ({
            let channel = text_or_empty(message, "channel"@);
            let data = text_or_empty(message, "data"@);
            &&& login_of(message) == LoginReply::Accepted <==> channel == "rs.login"@ && data
                == "success"@
            &&& login_of(message) == LoginReply::Rejected <==> channel == "rs.error"@ || (channel
                == "rs.login"@ && data != "success"@)
        }),
{
    reveal_strlit("rs.login");
    reveal_strlit("rs.error");
    assert("rs.login"@[3] == 'l' && "rs.error"@[3] == 'e');
}

/// What a report says is what its fields hold; a text that is missing is empty.
pub proof fn law_reports_say_what_they_hold(d: DealData, s: String, c: PositionClose)
    ensures
        d@.order_id == d.order_id@ && d@.symbol == d.symbol@,
        d@.profit == d.profit && d@.realised_profit == d.realised_profit,
        d@.side == d.side && d@.price == d.price && d@.vol == d.vol,
        d@.timestamp == d.timestamp,
        deal_of(Some(d)) == Some(d@) && deal_of(None) is None,
        text_of(Some(s)) == s@ && text_of(None).len() == 0,
        close_of(Some(c)) == Some((c.symbol@, c.position_id)) && close_of(None) is None,
{
}

} // verus!
