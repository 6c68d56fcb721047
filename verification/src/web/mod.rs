//! What the dashboard shows: the spreads, the account, the trades and the news of them.
use crate::binance::ws::{after_ticker, kept, quote_of, BookTicker};
use crate::config::Config;
use crate::double::{is_hundredths, Double};
use crate::mexc::ws_public::{
    after_depth, book_key, law_top_is_best, new_book, replaces, top, DepthFullPush,
};
use crate::state::{trade_of, trades, PriceData, State, StateView, Trade, TradeView};
use crate::text::{same, views};
use vstd::prelude::*;

verus! {

/// The only account.
pub const ACCOUNT_ID: i64 = 0;

/// The leverage that the dashboard shows.
pub const SHOWN_LEVERAGE: i32 = 200;

/// How many of the newest trades the dashboard starts with.
pub const SHOWN_TRADES: usize = 50;

/// How many of the newest trades are kept over a restart.
pub const SAVED_TRADES: usize = 500;

/// The pattern of 999: a symbol with such a spread is never traded.
pub const NEVER_TRADED: u64 = 0x408f_3800_0000_0000;

/// A symbol and the spread, in percent, from which on it is traded.
#[derive(Debug)]
pub struct Watched {
    pub symbol: String,
    pub min_spread: Double,
}

/// A symbol that is traded.
pub open spec fn is_active(w: Watched) -> bool {
    w.min_spread.less(Double { bits: NEVER_TRADED })
}

/// The symbols that are traded, in their order.
pub open spec fn active(all: Seq<Watched>) -> Seq<Seq<char>> {
    all.filter(|w: Watched| is_active(w)).map_values(|w: Watched| w.symbol@)
}

proof fn lemma_active_step(all: Seq<Watched>, i: int)
    requires
        0 <= i < all.len(),
    ensures
        active(all.take(i + 1)) == (if is_active(all[i]) {
            active(all.take(i)).push(all[i].symbol@)
        } else {
            active(all.take(i))
        }),
{
    reveal(Seq::filter);
    assert(all.take(i + 1).drop_last() =~= all.take(i));
    assert(active(all.take(i + 1)) =~= (if is_active(all[i]) {
        active(all.take(i)).push(all[i].symbol@)
    } else {
        active(all.take(i))
    }));
}

proof fn lemma_active_start(all: Seq<Watched>)
    ensures
        active(all.take(0)) == Seq::<Seq<char>>::empty(),
        active(all.take(all.len() as int)) == active(all),
{
    reveal(Seq::filter);
    assert(active(all.take(0)) =~= Seq::<Seq<char>>::empty());
    assert(all.take(all.len() as int) =~= all);
}

/// The symbols that are traded.
pub fn active_symbols(all: &Vec<Watched>) -> (r: Vec<String>)
    ensures
        views(r@) == active(all@),
{
    let mut out: Vec<String> = Vec::new();
    let mut i: usize = 0;
    proof {
        lemma_active_start(all@);
        assert(views(out@) =~= Seq::<Seq<char>>::empty());
    }
    while i < all.len()
        invariant
            i <= all.len(),
            views(out@) == active(all@.take(i as int)),
        decreases all.len() - i,
    {
        let ghost before = out@;
        proof {
            lemma_active_step(all@, i as int);
        }
        if all[i].min_spread.lt(&Double { bits: NEVER_TRADED }) {
            let name = all[i].symbol.clone();
            out.push(name);
            assert(views(out@) =~= views(before).push(name@));
        }
        i = i + 1;
    }
    proof {
        lemma_active_start(all@);
    }
    out
}

/// What the dashboard shows of the prices of a symbol. A price that is not known is
/// zero, and so is its age.
#[derive(Debug)]
pub struct SpreadRow {
    pub symbol: String,
    pub mexc_bid: Double,
    pub mexc_ask: Double,
    pub binance_bid: Double,
    pub binance_ask: Double,
    pub mexc_age_ms: u64,
    pub binance_age_ms: u64,
    /// Whether there is a spread to show; where there is none it is shown as zero.
    pub has_spread: bool,
}

/// What a row says.
pub struct RowView {
    pub symbol: Seq<char>,
    pub mexc_bid: Double,
    pub mexc_ask: Double,
    pub binance_bid: Double,
    pub binance_ask: Double,
    pub mexc_age_ms: u64,
    pub binance_age_ms: u64,
    pub has_spread: bool,
}

impl View for SpreadRow {
    type V = RowView;

    open spec fn view(&self) -> RowView {
        RowView {
            symbol: self.symbol@,
            mexc_bid: self.mexc_bid,
            mexc_ask: self.mexc_ask,
            binance_bid: self.binance_bid,
            binance_ask: self.binance_ask,
            mexc_age_ms: self.mexc_age_ms,
            binance_age_ms: self.binance_age_ms,
            has_spread: self.has_spread,
        }
    }
}

/// What some rows say.
pub open spec fn rows(list: Seq<SpreadRow>) -> Seq<RowView> {
    list.map_values(|r: SpreadRow| r@)
}

/// How old a stamp is; one of the future is not old.
pub open spec fn age(now: u64, stamp: u64) -> u64 {
    if now < stamp {
        0
    } else {
        (now - stamp) as u64
    }
}

/// The bid, the ask and the age of prices that may be missing.
pub open spec fn shown(prices: Map<Seq<char>, PriceData>, symbol: Seq<char>, now: u64) -> (
    Double,
    Double,
    u64,
) {
    if prices.contains_key(symbol) {
        let p = prices[symbol];
        (p.bid, p.ask, age(now, p.timestamp_ms))
    } else {
        (Double { bits: 0 }, Double { bits: 0 }, 0)
    }
}

/// The row of a symbol.
pub open spec fn row(s: StateView, symbol: Seq<char>, now: u64) -> RowView {
    let mexc = shown(s.mexc_prices, symbol, now);
    let binance = shown(s.binance_prices, symbol, now);
    RowView {
        symbol,
        mexc_bid: mexc.0,
        mexc_ask: mexc.1,
        binance_bid: binance.0,
        binance_ask: binance.1,
        mexc_age_ms: mexc.2,
        binance_age_ms: binance.2,
        has_spread: mexc.1.positive() && binance.0.positive(),
    }
}

fn show(p: Option<&PriceData>, now: u64) -> (r: (Double, Double, u64))
    ensures
        r == (match p {
            Some(p) => (p.bid, p.ask, age(now, p.timestamp_ms)),
            None => (Double { bits: 0 }, Double { bits: 0 }, 0u64),
        }),
{
    match p {
        Some(p) => (p.bid, p.ask, now.saturating_sub(p.timestamp_ms)),
        None => (Double { bits: 0 }, Double { bits: 0 }, 0),
    }
}

/// The rows of the symbols that are traded, in their order, at the time `now`.
pub fn build_spreads(all: &Vec<Watched>, state: &State, now: u64) -> (r: Vec<SpreadRow>)
    requires
        state.wf(),
    ensures
        rows(r@) == active(all@).map_values(|symbol: Seq<char>| row(state@, symbol, now)),
{
    let names = active_symbols(all);
    let ghost wanted = active(all@).map_values(|symbol: Seq<char>| row(state@, symbol, now));
    let mut out: Vec<SpreadRow> = Vec::new();
    let mut i: usize = 0;
    while i < names.len()
        invariant
            i <= names.len(),
            state.wf(),
            views(names@) == active(all@),
            wanted == active(all@).map_values(|symbol: Seq<char>| row(state@, symbol, now)),
            rows(out@) == wanted.take(i as int),
        decreases names.len() - i,
    {
        let name = names[i].clone();
        let ghost before = out@;
        let mexc = show(state.mexc_prices.get(name.as_str()), now);
        let binance = show(state.binance_prices.get(name.as_str()), now);
        let next = SpreadRow {
            symbol: name,
            mexc_bid: mexc.0,
            mexc_ask: mexc.1,
            binance_bid: binance.0,
            binance_ask: binance.1,
            mexc_age_ms: mexc.2,
            binance_age_ms: binance.2,
            has_spread: mexc.1.is_positive() && binance.0.is_positive(),
        };
        out.push(next);
        proof {
            assert(views(names@)[i as int] == names@[i as int]@);
            assert(next@ == row(state@, views(names@)[i as int], now));
            assert(rows(out@) =~= rows(before).push(next@));
            assert(wanted.take(i + 1) =~= wanted.take(i as int).push(wanted[i as int]));
        }
        i = i + 1;
    }
    assert(rows(out@) =~= wanted);
    out
}

/// The dashboard shows the prices that the feed of Binance brought last.
pub proof fn law_row_shows_the_last_ticker(s: StateView, t: BookTicker, now: u64, later: u64)
    requires
        kept(t, now),
    ensures
        ({
            let r = row(after_ticker(s, t, now), t.symbol@, later);
            &&& Some(r.binance_bid) == t.bid_price
            &&& Some(r.binance_ask) == t.ask_price
            &&& r.binance_age_ms == age(later, quote_of(t, now).timestamp_ms)
        }),
{
}

/// The dashboard shows the best prices of the book that the feed of MEXC brought last.
pub proof fn law_row_shows_the_last_book(s: StateView, push: DepthFullPush, now: u64, later: u64)
    requires
        replaces(push),
        top(new_book(push, now)) is Some,
    ensures
        ({
            let r = row(after_depth(s, push, now), book_key(push), later);
            let best = top(new_book(push, now))->0;
            &&& r.mexc_bid == best.bid
            &&& r.mexc_ask == best.ask
            &&& r.mexc_age_ms == age(later, best.timestamp_ms)
        }),
{
}

/// What the dashboard shows of the account.
#[derive(Debug)]
pub struct Status {
    pub running: bool,
    pub label: String,
    pub symbols: Vec<String>,
    /// The first of the symbols; empty where there is none.
    pub symbol: String,
    pub has_uid: bool,
    pub balance: Double,
    pub total_pnl: Double,
    pub total_trades: u64,
    pub winning_trades: u64,
    /// A position is open, and the exchange has confirmed it.
    pub in_trade: bool,
    /// A position was opened, and the exchange has not confirmed it yet.
    pub opening: bool,
    /// Why the account may not trade, if it may not.
    pub blocked: Option<String>,
    pub open_trade: Option<Trade>,
    pub spread_min: Double,
    pub size_usdt: Double,
}

/// The first of some texts; empty where there is none.
pub open spec fn first_of(list: Seq<Seq<char>>) -> Seq<char> {
    if list.len() > 0 {
        list[0]
    } else {
        Seq::empty()
    }
}

/// A position is open, and the exchange has confirmed it.
pub open spec fn in_position(s: StateView) -> bool {
    s.open_trade is Some && s.open_trade->0.verified
}

/// A position was opened, and the exchange has not confirmed it yet.
pub open spec fn is_opening(s: StateView) -> bool {
    s.open_trade is Some && !s.open_trade->0.verified
}

/// Gathers what the dashboard shows of the account.
pub fn build_status(cfg: &Config, all: &Vec<Watched>, state: &State) -> (r: Status)
    ensures
        r.running == state@.running,
        r.label@ == cfg.account.label@,
        views(r.symbols@) == active(all@),
        r.symbol@ == first_of(active(all@)),
        r.has_uid == (cfg.account.mexc_uid@.len() > 0),
        r.balance == state@.balance_usdt,
        r.total_pnl == state@.total_pnl,
        r.total_trades == state@.total_trades,
        r.winning_trades == state@.winning_trades,
        r.in_trade == in_position(state@),
        r.opening == is_opening(state@),
        r.in_trade == (state@.open_trade is Some && state@.open_trade->0.verified),
        r.opening == (state@.open_trade is Some && !state@.open_trade->0.verified),
        r.blocked is Some <==> state@.risk_control_blocked,
        r.blocked matches Some(why) ==> why@ == "RISK CONTROL"@,
        trade_of(r.open_trade) == state@.open_trade,
        r.spread_min == cfg.trading.min_spread_pct,
        r.size_usdt == cfg.trading.size_usdt,
{
    let symbols = active_symbols(all);
    let symbol = if symbols.len() > 0 {
        assert(views(symbols@)[0] == symbols@[0]@);
        symbols[0].clone()
    } else {
        String::new()
    };
    let (open_trade, in_trade, opening) = match &state.open_trade {
        Some(t) => (Some(t.clone()), t.verified, !t.verified),
        None => (None, false, false),
    };
    let blocked = if state.risk_control_blocked {
        Some("RISK CONTROL".to_string())
    } else {
        None
    };
    Status {
        running: state.running,
        label: cfg.account.label.clone(),
        symbols,
        symbol,
        has_uid: !cfg.account.mexc_uid.as_str().is_empty(),
        balance: state.balance_usdt,
        total_pnl: state.total_pnl,
        total_trades: state.total_trades,
        winning_trades: state.winning_trades,
        in_trade,
        opening,
        blocked,
        open_trade,
        spread_min: cfg.trading.min_spread_pct,
        size_usdt: cfg.trading.size_usdt,
    }
}

/// What the dashboard shows of the configuration: of secrets only that they are there.
#[derive(Debug)]
pub struct Settings {
    pub label: String,
    pub mexc_uid_set: bool,
    pub proxy_set: bool,
    pub symbols: Vec<String>,
    pub min_spread_pct: Double,
    pub converge_threshold_pct: Double,
    pub size_usdt: Double,
}

/// Gathers what the dashboard shows of the configuration.
pub fn build_settings(cfg: &Config, all: &Vec<Watched>) -> (r: Settings)
    ensures
        r.label@ == cfg.account.label@,
        r.mexc_uid_set == (cfg.account.mexc_uid@.len() > 0),
        r.proxy_set == (cfg.account.proxy_url@.len() > 0),
        views(r.symbols@) == active(all@),
        r.min_spread_pct == cfg.trading.min_spread_pct,
        r.converge_threshold_pct == cfg.trading.converge_threshold_pct,
        r.size_usdt == cfg.trading.size_usdt,
{
    Settings {
        label: cfg.account.label.clone(),
        mexc_uid_set: !cfg.account.mexc_uid.as_str().is_empty(),
        proxy_set: !cfg.account.proxy_url.as_str().is_empty(),
        symbols: active_symbols(all),
        min_spread_pct: cfg.trading.min_spread_pct,
        converge_threshold_pct: cfg.trading.converge_threshold_pct,
        size_usdt: cfg.trading.size_usdt,
    }
}

/// The newest of some trades, as many as `n`, oldest first.
pub open spec fn newest(history: Seq<TradeView>, n: nat) -> Seq<TradeView> {
    if history.len() <= n {
        history
    } else {
        history.skip(history.len() - n)
    }
}

fn trades_from(history: &Vec<Trade>, from: usize) -> (r: Vec<Trade>)
    requires
        from <= history@.len(),
    ensures
        trades(r@) == trades(history@).skip(from as int),
{
    let ghost all = trades(history@);
    let mut out: Vec<Trade> = Vec::new();
    let mut i: usize = from;
    assert(trades(out@) =~= all.subrange(from as int, from as int));
    while i < history.len()
        invariant
            from <= i <= history.len(),
            all == trades(history@),
            trades(out@) == all.subrange(from as int, i as int),
        decreases history.len() - i,
    {
        let ghost before = out@;
        let t = history[i].clone();
        out.push(t);
        proof {
            assert(trades(out@) =~= trades(before).push(t@));
            assert(all.subrange(from as int, i + 1) =~= all.subrange(from as int, i as int).push(
                all[i as int],
            ));
        }
        i = i + 1;
    }
    assert(all.subrange(from as int, all.len() as int) =~= all.skip(from as int));
    out
}

/// The trades that are kept over a restart, oldest first.
pub fn saved_trades(state: &State) -> (r: Vec<Trade>)
    ensures
        trades(r@) == newest(state@.trade_history, SAVED_TRADES as nat),
{
    let n: usize = state.trade_history.len();
    let from: usize = if n > SAVED_TRADES {
        n - SAVED_TRADES
    } else {
        0
    };
    let r = trades_from(&state.trade_history, from);
    assert(trades(r@) =~= newest(state@.trade_history, SAVED_TRADES as nat));
    r
}

/// The trades that the dashboard starts with, newest first.
pub fn recent_trades(state: &State) -> (r: Vec<Trade>)
    ensures
        trades(r@) == newest(state@.trade_history, SHOWN_TRADES as nat).reverse(),
{
    let n: usize = state.trade_history.len();
    let ghost all = trades(state.trade_history@);
    let ghost wanted = newest(all, SHOWN_TRADES as nat).reverse();
    let count: usize = if n > SHOWN_TRADES {
        SHOWN_TRADES
    } else {
        n
    };
    let mut out: Vec<Trade> = Vec::new();
    let mut i: usize = 0;
    while i < count
        invariant
            i <= count <= n,
            n == state.trade_history@.len(),
            all == trades(state.trade_history@),
            wanted == newest(all, SHOWN_TRADES as nat).reverse(),
            count == wanted.len(),
            forall|j: int| 0 <= j < count ==> #[trigger] wanted[j] == all[n - 1 - j],
            trades(out@) == wanted.take(i as int),
        decreases count - i,
    {
        let ghost before = out@;
        let t = state.trade_history[n - 1 - i].clone();
        out.push(t);
        proof {
            assert(trades(out@) =~= trades(before).push(t@));
            assert(wanted[i as int] == t@);
            assert(wanted.take(i + 1) =~= wanted.take(i as int).push(wanted[i as int]));
        }
        i = i + 1;
    }
    assert(trades(out@) =~= wanted);
    out
}

/// What of the trades was told to the dashboard so far: the trade that was open, and
/// how many trades were closed, at the last look.
#[derive(Debug)]
pub struct TradeWatcher {
    pub last_open_id: Option<String>,
    pub last_history_len: usize,
    pub last_resets: u64,
}

/// What a watcher knows.
pub struct WatcherView {
    pub last_open_id: Option<Seq<char>>,
    pub last_history_len: nat,
    pub last_resets: u64,
}

/// What an optional text says.
pub open spec fn id_of(s: Option<String>) -> Option<Seq<char>> {
    match s {
        Some(s) => Some(s@),
        None => None,
    }
}

impl View for TradeWatcher {
    type V = WatcherView;

    open spec fn view(&self) -> WatcherView {
        WatcherView {
            last_open_id: id_of(self.last_open_id),
            last_history_len: self.last_history_len as nat,
            last_resets: self.last_resets,
        }
    }
}

/// The news for the dashboard.
#[derive(Debug)]
pub struct News {
    /// A trade was opened.
    pub opened: Option<Trade>,
    /// Trades were closed.
    pub closed: Vec<Trade>,
}

/// The name of the open trade.
pub open spec fn open_id(s: StateView) -> Option<Seq<char>> {
    match s.open_trade {
        Some(t) => Some(t.id),
        None => None,
    }
}

/// The trade that is told of as opened: the open one, where it was not open at the
/// last look.
pub open spec fn opened(w: WatcherView, s: StateView) -> Option<TradeView> {
    if open_id(s) == w.last_open_id {
        None
    } else {
        s.open_trade
    }
}

/// How many of the closed trades were told of before. None of them was, if the trades
/// were forgotten since.
pub open spec fn told_before(w: WatcherView, s: StateView) -> nat {
    if w.last_resets != s.resets || s.trade_history.len() < w.last_history_len {
        0
    } else {
        w.last_history_len
    }
}

/// The trades that are told of as closed: those that came since the last look.
pub open spec fn closed(w: WatcherView, s: StateView) -> Seq<TradeView> {
    s.trade_history.skip(told_before(w, s) as int)
}

/// What is known after a look at a state.
pub open spec fn after_look(s: StateView) -> WatcherView {
    WatcherView {
        last_open_id: open_id(s),
        last_history_len: s.trade_history.len(),
        last_resets: s.resets,
    }
}

/// What is known at the start: the trades that are closed already are not told of, an
/// open one is.
pub open spec fn at_start(s: StateView) -> WatcherView {
    WatcherView { last_open_id: None, ..after_look(s) }
}

impl TradeWatcher {
    /// A watcher that has told of nothing.
    pub fn new(state: &State) -> (w: TradeWatcher)
        ensures
            w@ == at_start(state@),
    {
        TradeWatcher {
            last_open_id: None,
            last_history_len: state.trade_history.len(),
            last_resets: state.resets,
        }
    }

    /// Looks at the trades, and tells what is new. Where nobody listens nothing is
    /// looked at.
    pub fn poll(&mut self, state: &State, listeners: usize) -> (r: News)
        ensures
            listeners == 0 ==> {
                &&& final(self)@ == old(self)@
                &&& r.opened is None
                &&& r.closed@.len() == 0
            },
            listeners > 0 ==> {
                &&& final(self)@ == after_look(state@)
                &&& trade_of(r.opened) == opened(old(self)@, state@)
                &&& trades(r.closed@) == closed(old(self)@, state@)
            },
    {
        if listeners == 0 {
            return News { opened: None, closed: Vec::new() };
        }
        let mut fresh: Option<Trade> = None;
        let mut id: Option<String> = None;
        match &state.open_trade {
            Some(t) => {
                let known = match &self.last_open_id {
                    Some(last) => same(last.as_str(), t.id.as_str()),
                    None => false,
                };
                if !known {
                    fresh = Some(t.clone());
                }
                id = Some(t.id.clone());
            },
            None => {},
        }
        let n: usize = state.trade_history.len();
        let from: usize = if self.last_resets != state.resets || n < self.last_history_len {
            0
        } else {
            self.last_history_len
        };
        let news = trades_from(&state.trade_history, from);
        self.last_open_id = id;
        self.last_history_len = n;
        self.last_resets = state.resets;
        News { opened: fresh, closed: news }
    }
}

/// What is known before look `i` at a row of states.
pub open spec fn known_before(w: WatcherView, seen: Seq<StateView>, i: int) -> WatcherView {
    if i == 0 {
        w
    } else {
        after_look(seen[i - 1])
    }
}

/// A trade is told of as opened at exactly those looks that find it open where the
/// look before found none or another one: once when it comes, and not again while it
/// stays.
pub proof fn law_each_opening_is_told_once(start: StateView, seen: Seq<StateView>, i: int)
    requires
        0 <= i < seen.len(),
    ensures
        ({
            let told = opened(known_before(at_start(start), seen, i), seen[i]);
            &&& told is Some ==> told == seen[i].open_trade
            &&& told is Some <==> seen[i].open_trade is Some && (i == 0 || open_id(seen[i - 1])
                != open_id(seen[i]))
        }),
{
}

/// Where a closed trade stands: how often the trades had been forgotten, and its place
/// among those closed since. No two trades ever stand at one place.
pub struct Place {
    pub resets: u64,
    pub index: int,
}

/// Place `a` was taken before place `b`.
pub open spec fn earlier(a: Place, b: Place) -> bool {
    a.resets < b.resets || (a.resets == b.resets && a.index < b.index)
}

/// The places of the trades that a look tells of as closed.
pub open spec fn closed_places(w: WatcherView, s: StateView) -> Seq<Place> {
    Seq::new(
        closed(w, s).len(),
        |k: int| Place { resets: s.resets, index: told_before(w, s) + k },
    )
}

/// The places of the trades that are told of as closed in the first `n` looks at a row
/// of states.
pub open spec fn told_places(w: WatcherView, seen: Seq<StateView>, n: nat) -> Seq<Place>
    decreases n,
{
    if n == 0 {
        Seq::empty()
    } else {
        told_places(w, seen, (n - 1) as nat) + closed_places(
            known_before(w, seen, n - 1),
            seen[n - 1],
        )
    }
}

/// The trades that are told of as closed in the first `n` looks at a row of states.
pub open spec fn told_closed(w: WatcherView, seen: Seq<StateView>, n: nat) -> Seq<TradeView>
    decreases n,
{
    if n == 0 {
        Seq::empty()
    } else {
        told_closed(w, seen, (n - 1) as nat) + closed(known_before(w, seen, n - 1), seen[n - 1])
    }
}

/// `b` can come after `a`: trades were only added, or all of them were forgotten.
pub open spec fn can_follow(a: StateView, b: StateView) -> bool {
    a.resets < b.resets || (a.resets == b.resets && a.trade_history.len()
        <= b.trade_history.len())
}

/// Each state of a row can come after those before it, and after the first one.
pub open spec fn is_orderly(start: StateView, seen: Seq<StateView>) -> bool {
    &&& forall|i: int| 0 <= i < seen.len() ==> can_follow(start, #[trigger] seen[i])
    &&& forall|i: int, j: int|
        0 <= i < j < seen.len() ==> can_follow(#[trigger] seen[i], #[trigger] seen[j])
}

/// A trade stood in the history at the start.
pub open spec fn stood_at_start(start: StateView, p: Place) -> bool {
    p.resets == start.resets && p.index < start.trade_history.len()
}

/// A place is taken in a state.
pub open spec fn is_taken(s: StateView, p: Place) -> bool {
    p.resets == s.resets && 0 <= p.index < s.trade_history.len()
}

/// Every closed trade that a look finds, and that did not stand there at the start, is
/// told of exactly once, by that look or an earlier one, in the order in which the
/// trades came; forgetting the trades in between changes nothing of that. Those that
/// stood there at the start are not told of, and each is told of as it stood at a look.
pub proof fn law_each_close_is_told_once(start: StateView, seen: Seq<StateView>, n: nat)
    requires
        is_orderly(start, seen),
        n <= seen.len(),
    ensures
        ({
            let places = told_places(at_start(start), seen, n);
            let told = told_closed(at_start(start), seen, n);
            &&& told.len() == places.len()
            &&& forall|k: int, m: int|
                0 <= k < m < places.len() ==> earlier(#[trigger] places[k], #[trigger] places[m])
            &&& forall|k: int|
                0 <= k < places.len() ==> !stood_at_start(start, #[trigger] places[k])
            &&& forall|k: int|
                0 <= k < places.len() ==> exists|i: int|
                    0 <= i < n && is_taken(#[trigger] seen[i], #[trigger] places[k]) && told[k]
                        == seen[i].trade_history[places[k].index]
            &&& forall|i: int, p: Place|
                0 <= i < n && #[trigger] is_taken(seen[i], p) && !stood_at_start(start, p)
                    ==> places.contains(p)
        }),
    decreases n,
{
    if n > 0 {
        let w = at_start(start);
        let m = (n - 1) as nat;
        law_each_close_is_told_once(start, seen, m);
        let known = told_places(w, seen, m);
        let before = known_before(w, seen, m as int);
        let s = seen[m as int];
        let fresh = closed_places(before, s);
        let places = told_places(w, seen, n);
        let told_m = told_closed(w, seen, m);
        let told = told_closed(w, seen, n);
        let from = told_before(before, s);
        if m > 0 {
            assert(can_follow(seen[m - 1], s));
        }
        assert(can_follow(start, s));
        assert(places =~= known + fresh);
        assert forall|k: int| 0 <= k < known.len() implies earlier(
            #[trigger] known[k],
            Place { resets: s.resets, index: from as int },
        ) by {
            let i = choose|i: int|
                0 <= i < m && is_taken(#[trigger] seen[i], known[k]) && told_m[k]
                    == seen[i].trade_history[known[k].index];
            if i < m - 1 {
                assert(can_follow(seen[i], seen[m - 1]));
            }
            assert(can_follow(seen[i], s));
        }
        assert forall|k: int, l: int| 0 <= k < l < places.len() implies earlier(
            #[trigger] places[k],
            #[trigger] places[l],
        ) by {
            if l < known.len() {
                assert(places[k] == known[k] && places[l] == known[l]);
            } else if k < known.len() {
                assert(earlier(known[k], Place { resets: s.resets, index: from as int }));
                assert(places[l] == fresh[l - known.len()]);
            } else {
                assert(places[k] == fresh[k - known.len()]);
                assert(places[l] == fresh[l - known.len()]);
            }
        }
        assert forall|k: int| 0 <= k < places.len() implies !stood_at_start(
            start,
            #[trigger] places[k],
        ) by {
            if k < known.len() {
                assert(places[k] == known[k]);
            } else {
                assert(places[k] == fresh[k - known.len()]);
                if m > 0 {
                    assert(can_follow(start, seen[m - 1]));
                }
            }
        }
        assert forall|k: int| 0 <= k < places.len() implies exists|i: int|
            0 <= i < n && is_taken(#[trigger] seen[i], #[trigger] places[k]) && told[k]
                == seen[i].trade_history[places[k].index] by {
            if k < known.len() {
                let i = choose|i: int|
                    0 <= i < m && is_taken(#[trigger] seen[i], known[k]) && told_m[k]
                        == seen[i].trade_history[known[k].index];
                assert(places[k] == known[k] && told[k] == told_m[k]);
                assert(is_taken(seen[i], places[k]));
            } else {
                assert(places[k] == fresh[k - known.len()]);
                assert(told[k] == closed(before, s)[k - known.len()]);
                assert(is_taken(seen[m as int], places[k]));
            }
        }
        assert forall|i: int, p: Place|
            0 <= i < n && #[trigger] is_taken(seen[i], p) && !stood_at_start(start, p) implies places.contains(
            p,
        ) by {
            if i < m {
                assert(known.contains(p));
                let k = choose|k: int| 0 <= k < known.len() && known[k] == p;
                assert(places[k] == p);
            } else if p.index < from {
                if m > 0 {
                    assert(is_taken(seen[m - 1], p));
                    assert(known.contains(p));
                    let k = choose|k: int| 0 <= k < known.len() && known[k] == p;
                    assert(places[k] == p);
                }
            } else {
                assert(fresh[p.index - from] == p);
                assert(places[known.len() + (p.index - from)] == p);
            }
        }
    }
}

/// What is kept of a history is its end, never more than the limit; a history that is
/// short enough is kept whole.
pub proof fn law_newest_trades_are_the_end(history: Seq<TradeView>, n: nat)
    ensures
        newest(history, n).len() == (if history.len() <= n {
            history.len()
        } else {
            n
        }),
        forall|k: int|
            0 <= k < newest(history, n).len() ==> #[trigger] newest(history, n)[k]
                == history[history.len() - newest(history, n).len() + k],
        history.len() <= n ==> newest(history, n) == history,
{
}

/// A symbol is traded if its least spread is below 999, and only then; the traded ones
/// keep their order.
pub proof fn law_symbols_below_the_limit_are_active(all: Seq<Watched>, w: Watched)
    ensures
        is_hundredths(Double { bits: NEVER_TRADED }, 99_900),
        active(Seq::empty()) == Seq::<Seq<char>>::empty(),
        w.min_spread.less(Double { bits: 0x408f_3800_0000_0000 }) ==> active(all.push(w)) == active(
            all,
        ).push(w.symbol@),
        !w.min_spread.less(Double { bits: 0x408f_3800_0000_0000 }) ==> active(all.push(w))
            == active(all),
{
    let more = all.push(w);
    lemma_active_step(more, all.len() as int);
    lemma_active_start(more);
    assert(more.take(all.len() as int) =~= all);
    assert(more.take(all.len() as int + 1) =~= more);
    lemma_active_start(Seq::<Watched>::empty());
    assert(Seq::<Watched>::empty().take(0) =~= Seq::<Watched>::empty());
}

/// A row shows what is known of the prices of its symbol on either exchange, with their
/// age, and zero where nothing is known. It has a spread exactly if the ask of MEXC and
/// the bid of Binance are known and above zero, whichever of them is the larger.
pub proof fn law_row_shows_what_is_known(s: StateView, symbol: Seq<char>, now: u64)
    ensures
        ({
            let r = row(s, symbol, now);
            let m = s.mexc_prices;
            let b = s.binance_prices;
            &&& r.symbol == symbol
            &&& m.contains_key(symbol) ==> {
                &&& r.mexc_bid == m[symbol].bid && r.mexc_ask == m[symbol].ask
                &&& m[symbol].timestamp_ms <= now ==> r.mexc_age_ms == now
                    - m[symbol].timestamp_ms
                &&& now < m[symbol].timestamp_ms ==> r.mexc_age_ms == 0
            }
            &&& !m.contains_key(symbol) ==> r.mexc_bid.bits == 0 && r.mexc_ask.bits == 0
                && r.mexc_age_ms == 0
            &&& b.contains_key(symbol) ==> {
                &&& r.binance_bid == b[symbol].bid && r.binance_ask == b[symbol].ask
                &&& b[symbol].timestamp_ms <= now ==> r.binance_age_ms == now
                    - b[symbol].timestamp_ms
                &&& now < b[symbol].timestamp_ms ==> r.binance_age_ms == 0
            }
            &&& !b.contains_key(symbol) ==> r.binance_bid.bits == 0 && r.binance_ask.bits == 0
                && r.binance_age_ms == 0
            &&& r.has_spread <==> {
                &&& m.contains_key(symbol) && m[symbol].ask.positive()
                &&& b.contains_key(symbol) && b[symbol].bid.positive()
            }
        }),
{
}

/// Once both feeds have brought prices of a symbol its row has a spread to show,
/// whichever exchange is the dearer one.
pub proof fn law_both_feeds_give_a_spread(
    s: StateView,
    t: BookTicker,
    ticker_now: u64,
    push: DepthFullPush,
    book_now: u64,
    now: u64,
)
    requires
        t.bid_price is Some,
        t.bid_price->0.positive(),
        kept(t, ticker_now),
        replaces(push),
        top(new_book(push, book_now)) is Some,
        book_key(push) == t.symbol@,
    ensures
        row(after_depth(after_ticker(s, t, ticker_now), push, book_now), t.symbol@, now).has_spread,
        row(after_ticker(after_depth(s, push, book_now), t, ticker_now), t.symbol@, now).has_spread,
{
    law_top_is_best(new_book(push, book_now));
}

/// The first of some texts is the one that leads them.
pub proof fn law_first_text_leads(x: Seq<char>, rest: Seq<Seq<char>>)
    ensures
        first_of(seq![x] + rest) == x,
        first_of(Seq::empty()) == Seq::<char>::empty(),
{
}

/// A look tells of the open trade unless the last look found the same one, and keeps
/// its name; it tells of the closed trades behind those that the last look found, or of
/// all where they were forgotten in between, and keeps how many there are.
pub proof fn law_look_tells_what_is_new(w: WatcherView, s: StateView)
    ensures
        s.open_trade matches Some(t) ==> {
            &&& w.last_open_id == Some(t.id) ==> opened(w, s) is None
            &&& w.last_open_id != Some(t.id) ==> opened(w, s) == Some(t)
            &&& after_look(s).last_open_id == Some(t.id)
        },
        s.open_trade is None ==> opened(w, s) is None && after_look(s).last_open_id is None,
        w.last_resets == s.resets && w.last_history_len <= s.trade_history.len() ==> {
            &&& closed(w, s).len() == s.trade_history.len() - w.last_history_len
            &&& forall|k: int| 0 <= k < closed(w, s).len() ==> #[trigger] closed(w, s)[k]
                == s.trade_history[w.last_history_len + k]
        },
        w.last_resets != s.resets || s.trade_history.len() < w.last_history_len ==> closed(w, s)
            == s.trade_history,
        after_look(s).last_history_len == s.trade_history.len(),
        after_look(s).last_resets == s.resets,
        at_start(s).last_open_id is None,
        at_start(s).last_history_len == s.trade_history.len(),
        at_start(s).last_resets == s.resets,
{
    assert(s.trade_history.skip(0) =~= s.trade_history);
}

/// What a row and a watcher say is what their fields hold.
pub proof fn law_rows_say_what_they_hold(list: Seq<SpreadRow>, i: int, w: TradeWatcher)
    ensures
        rows(list).len() == list.len(),
        0 <= i < list.len() ==> {
            let r = list[i];
            let v = rows(list)[i];
            &&& v.symbol == r.symbol@ && v.has_spread == r.has_spread
            &&& v.mexc_bid == r.mexc_bid && v.mexc_ask == r.mexc_ask
            &&& v.binance_bid == r.binance_bid && v.binance_ask == r.binance_ask
            &&& v.mexc_age_ms == r.mexc_age_ms && v.binance_age_ms == r.binance_age_ms
        },
        w@.last_history_len == w.last_history_len && w@.last_resets == w.last_resets,
        w@.last_open_id is Some <==> w.last_open_id is Some,
        w.last_open_id matches Some(id) ==> w@.last_open_id == Some(id@),
{
}

/// Five hundred trades are kept over a restart and fifty are shown at first, or all
/// where there are fewer; the newest one is always among them.
pub proof fn law_newest_trades_are_kept_and_shown(history: Seq<TradeView>)
    ensures
        history.len() > 500 ==> newest(history, SAVED_TRADES as nat).len() == 500,
        history.len() <= 500 ==> newest(history, SAVED_TRADES as nat) == history,
        history.len() > 50 ==> newest(history, SHOWN_TRADES as nat).len() == 50,
        history.len() <= 50 ==> newest(history, SHOWN_TRADES as nat) == history,
        history.len() > 0 ==> {
            &&& newest(history, SAVED_TRADES as nat).last() == history.last()
            &&& newest(history, SHOWN_TRADES as nat).reverse()[0] == history.last()
        },
{
}

/// While a trade is open the dashboard shows it as opening until the exchange confirms
/// it and as open from then on, never as both; without one it shows neither.
pub proof fn law_trade_is_opening_until_confirmed(s: StateView, t: TradeView)
    ensures
        s.open_trade is None ==> !in_position(s) && !is_opening(s),
        s.open_trade == Some(t) ==> in_position(s) == t.verified && is_opening(s) == !t.verified,
        s.open_trade is Some ==> in_position(s) != is_opening(s),
{
}

} // verus!
