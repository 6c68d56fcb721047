//! The shared state of the bot: prices, order books, trades and counters.
use crate::double::Double;
use crate::table::Table;
use std::collections::BTreeMap;
use vstd::prelude::*;
use vstd::std_specs::btree::*;

verus! {

broadcast use {vstd::std_specs::btree::group_btree_axioms, vstd::laws_cmp::group_laws_cmp};

/// The best prices of one exchange for one symbol.
#[derive(Clone, Copy, Debug, PartialEq, Eq, Structural)]
pub struct PriceData {
    pub bid: Double,
    pub ask: Double,
    pub timestamp_ms: u64,
}

impl Default for PriceData {
    /// No prices, at no time.
    fn default() -> (p: PriceData)
        ensures
            p == (PriceData { bid: Double { bits: 0 }, ask: Double { bits: 0 }, timestamp_ms: 0 }),
    {
        PriceData { bid: Double { bits: 0 }, ask: Double { bits: 0 }, timestamp_ms: 0 }
    }
}

/// A price and the volume, in contracts, that is offered at it.
#[derive(Clone, Copy, Debug, PartialEq, Eq, Structural)]
pub struct Level {
    pub price: Double,
    pub volume: Double,
}

/// The two sides of a market. Each level stands under its price in steps of 1e-8,
/// an integer, so that the levels are ordered by price.
pub struct OrderBook {
    pub bids: BTreeMap<i64, Level>,
    pub asks: BTreeMap<i64, Level>,
    pub version: u64,
    pub last_update_ms: u64,
}

/// What an order book holds.
#[verifier::ext_equal]
pub struct BookView {
    pub bids: Map<i64, Level>,
    pub asks: Map<i64, Level>,
    pub version: u64,
    pub last_update_ms: u64,
}

impl View for OrderBook {
    type V = BookView;

    open spec fn view(&self) -> BookView {
        BookView {
            bids: self.bids@,
            asks: self.asks@,
            version: self.version,
            last_update_ms: self.last_update_ms,
        }
    }
}

/// `k` is the highest price of a side.
pub open spec fn is_highest(side: Map<i64, Level>, k: i64) -> bool {
    side.contains_key(k) && forall|j: i64| #[trigger] side.contains_key(j) ==> j <= k
}

/// `k` is the lowest price of a side.
pub open spec fn is_lowest(side: Map<i64, Level>, k: i64) -> bool {
    side.contains_key(k) && forall|j: i64| #[trigger] side.contains_key(j) ==> k <= j
}

/// The level with the highest price, if the side holds any.
pub open spec fn highest(side: Map<i64, Level>) -> Option<Level> {
    if exists|k: i64| is_highest(side, k) {
        Some(side[choose|k: i64| is_highest(side, k)])
    } else {
        None
    }
}

/// The level with the lowest price, if the side holds any.
pub open spec fn lowest(side: Map<i64, Level>) -> Option<Level> {
    if exists|k: i64| is_lowest(side, k) {
        Some(side[choose|k: i64| is_lowest(side, k)])
    } else {
        None
    }
}

fn last_level(side: &BTreeMap<i64, Level>) -> (r: Option<Level>)
    ensures
        r == highest(side@),
        r is None <==> side@ == Map::<i64, Level>::empty(),
{
    let mut best: Option<Level> = None;
    let mut top: i64 = 0;
    for entry in it: side.iter()
        invariant
            key_obeys_cmp_spec::<i64>(),
            it.seq() == vstd::std_specs::iter::IteratorSpec::remaining(&spec_btree_map_iter(side)),
            best is None <==> it.index() == 0,
            best matches Some(b) ==> side@.contains_key(top) && side@[top] == b,
            forall|j: int| 0 <= j < it.index() ==> *(#[trigger] it.seq()[j]).0 <= top,
    {
        let (k, level) = entry;
        if best.is_none() || top < *k {
            top = *k;
            best = Some(*level);
        }
    }
    proof {
        let walk = vstd::std_specs::iter::IteratorSpec::remaining(&spec_btree_map_iter(side));
        assert forall|j: i64| #[trigger] side@.contains_key(j) implies best is Some && j <= top by {
            assert(walk.contains((&j, &side@[j])));
            let at = choose|at: int| 0 <= at < walk.len() && walk[at] == (&j, &side@[j]);
            assert(*walk[at].0 <= top);
        }
        if best is Some {
            assert(is_highest(side@, top));
        } else {
            assert(side@ =~= Map::<i64, Level>::empty());
        }
    }
    best
}

fn first_level(side: &BTreeMap<i64, Level>) -> (r: Option<Level>)
    ensures
        r == lowest(side@),
        r is None <==> side@ == Map::<i64, Level>::empty(),
{
    let mut best: Option<Level> = None;
    let mut low: i64 = 0;
    for entry in it: side.iter()
        invariant
            key_obeys_cmp_spec::<i64>(),
            it.seq() == vstd::std_specs::iter::IteratorSpec::remaining(&spec_btree_map_iter(side)),
            best is None <==> it.index() == 0,
            best matches Some(b) ==> side@.contains_key(low) && side@[low] == b,
            forall|j: int| 0 <= j < it.index() ==> low <= *(#[trigger] it.seq()[j]).0,
    {
        let (k, level) = entry;
        if best.is_none() || *k < low {
            low = *k;
            best = Some(*level);
        }
    }
    proof {
        let walk = vstd::std_specs::iter::IteratorSpec::remaining(&spec_btree_map_iter(side));
        assert forall|j: i64| #[trigger] side@.contains_key(j) implies best is Some && low <= j by {
            assert(walk.contains((&j, &side@[j])));
            let at = choose|at: int| 0 <= at < walk.len() && walk[at] == (&j, &side@[j]);
            assert(low <= *walk[at].0);
        }
        if best is Some {
            assert(is_lowest(side@, low));
        } else {
            assert(side@ =~= Map::<i64, Level>::empty());
        }
    }
    best
}

/// The price and the volume of a level.
pub open spec fn quote(level: Option<Level>) -> Option<(Double, Double)> {
    match level {
        Some(l) => Some((l.price, l.volume)),
        None => None,
    }
}

impl OrderBook {
    /// A book without levels.
    pub fn new() -> (b: OrderBook)
        ensures
            b.bids@ == Map::<i64, Level>::empty(),
            b.asks@ == Map::<i64, Level>::empty(),
            b.version == 0,
            b.last_update_ms == 0,
    {
        OrderBook { bids: BTreeMap::new(), asks: BTreeMap::new(), version: 0, last_update_ms: 0 }
    }

    /// The price and the volume at the highest bid.
    pub fn best_bid(&self) -> (r: Option<(Double, Double)>)
        ensures
            r == quote(highest(self.bids@)),
            r is None <==> self.bids@ == Map::<i64, Level>::empty(),
    {
        match last_level(&self.bids) {
            Some(l) => Some((l.price, l.volume)),
            None => None,
        }
    }

    /// The price and the volume at the lowest ask.
    pub fn best_ask(&self) -> (r: Option<(Double, Double)>)
        ensures
            r == quote(lowest(self.asks@)),
            r is None <==> self.asks@ == Map::<i64, Level>::empty(),
    {
        match first_level(&self.asks) {
            Some(l) => Some((l.price, l.volume)),
            None => None,
        }
    }
}

impl Default for OrderBook {
    /// A book without levels.
    fn default() -> (b: OrderBook)
        ensures
            b.bids@ == Map::<i64, Level>::empty(),
            b.asks@ == Map::<i64, Level>::empty(),
            b.version == 0,
            b.last_update_ms == 0,
    {
        OrderBook::new()
    }
}

/// One trade, open or closed.
#[derive(Debug)]
pub struct Trade {
    pub id: String,
    pub symbol: String,
    /// `BUY` or `SELL`.
    pub side: String,
    pub entry_price: Double,
    pub exit_price: Double,
    /// In contracts.
    pub size: Double,
    pub pnl: Double,
    /// `OPEN` or `CLOSED`.
    pub status: String,
    pub close_order_id: String,
    pub position_id: i64,
    pub open_time_ms: u64,
    pub close_time_ms: u64,
    pub spread_at_entry: Double,
    pub stop_armed: bool,
    pub open_http_ms: u64,
    pub close_reason: String,
    /// The exchange has confirmed the position.
    pub verified: bool,
}

/// What a trade says.
pub struct TradeView {
    pub id: Seq<char>,
    pub symbol: Seq<char>,
    pub side: Seq<char>,
    pub entry_price: Double,
    pub exit_price: Double,
    pub size: Double,
    pub pnl: Double,
    pub status: Seq<char>,
    pub close_order_id: Seq<char>,
    pub position_id: i64,
    pub open_time_ms: u64,
    pub close_time_ms: u64,
    pub spread_at_entry: Double,
    pub stop_armed: bool,
    pub open_http_ms: u64,
    pub close_reason: Seq<char>,
    pub verified: bool,
}

impl View for Trade {
    type V = TradeView;

    open spec fn view(&self) -> TradeView {
        TradeView {
            id: self.id@,
            symbol: self.symbol@,
            side: self.side@,
            entry_price: self.entry_price,
            exit_price: self.exit_price,
            size: self.size,
            pnl: self.pnl,
            status: self.status@,
            close_order_id: self.close_order_id@,
            position_id: self.position_id,
            open_time_ms: self.open_time_ms,
            close_time_ms: self.close_time_ms,
            spread_at_entry: self.spread_at_entry,
            stop_armed: self.stop_armed,
            open_http_ms: self.open_http_ms,
            close_reason: self.close_reason@,
            verified: self.verified,
        }
    }
}

impl Clone for Trade {
    fn clone(&self) -> (r: Trade)
        ensures
            r == *self,
    {
        Trade {
            id: self.id.clone(),
            symbol: self.symbol.clone(),
            side: self.side.clone(),
            entry_price: self.entry_price,
            exit_price: self.exit_price,
            size: self.size,
            pnl: self.pnl,
            status: self.status.clone(),
            close_order_id: self.close_order_id.clone(),
            position_id: self.position_id,
            open_time_ms: self.open_time_ms,
            close_time_ms: self.close_time_ms,
            spread_at_entry: self.spread_at_entry,
            stop_armed: self.stop_armed,
            open_http_ms: self.open_http_ms,
            close_reason: self.close_reason.clone(),
            verified: self.verified,
        }
    }
}

/// What a list of trades says.
pub open spec fn trades(list: Seq<Trade>) -> Seq<TradeView> {
    list.map_values(|t: Trade| t@)
}

/// What an optional trade says.
pub open spec fn trade_of(t: Option<Trade>) -> Option<TradeView> {
    match t {
        Some(t) => Some(t@),
        None => None,
    }
}

/// Everything the tasks of the bot share.
pub struct State {
    pub running: bool,
    pub started_at_ms: u64,
    /// symbol -> best prices on Binance
    pub binance_prices: Table<PriceData>,
    /// symbol -> order book on MEXC
    pub mexc_books: Table<OrderBook>,
    /// symbol -> best prices on MEXC
    pub mexc_prices: Table<PriceData>,
    /// At most one position is open at a time.
    pub open_trade: Option<Trade>,
    /// Closed trades, oldest first.
    pub trade_history: Vec<Trade>,
    /// How often the closed trades were forgotten.
    pub resets: u64,
    pub balance_usdt: Double,
    pub total_pnl: Double,
    pub total_trades: u64,
    pub winning_trades: u64,
    /// No new trade before this time.
    pub cooldown_until_ms: u64,
    pub global_cooldown_until_ms: u64,
    pub risk_control_blocked: bool,
    /// symbol -> no new order before this time
    pub symbol_cooldown: Table<u64>,
    /// Close orders whose profit has been booked from the account feed.
    pub corrected_oids: Table<()>,
}

/// What the state holds.
#[verifier::ext_equal]
pub struct StateView {
    pub running: bool,
    pub started_at_ms: u64,
    pub binance_prices: Map<Seq<char>, PriceData>,
    pub mexc_books: Map<Seq<char>, BookView>,
    pub mexc_prices: Map<Seq<char>, PriceData>,
    pub open_trade: Option<TradeView>,
    pub trade_history: Seq<TradeView>,
    pub resets: u64,
    pub balance_usdt: Double,
    pub total_pnl: Double,
    pub total_trades: u64,
    pub winning_trades: u64,
    pub cooldown_until_ms: u64,
    pub global_cooldown_until_ms: u64,
    pub risk_control_blocked: bool,
    pub symbol_cooldown: Map<Seq<char>, u64>,
    pub corrected_oids: Set<Seq<char>>,
}

impl View for State {
    type V = StateView;

    open spec fn view(&self) -> StateView {
        StateView {
            running: self.running,
            started_at_ms: self.started_at_ms,
            binance_prices: self.binance_prices@,
            mexc_books: self.mexc_books@.map_values(|b: OrderBook| b@),
            mexc_prices: self.mexc_prices@,
            open_trade: trade_of(self.open_trade),
            trade_history: trades(self.trade_history@),
            resets: self.resets,
            balance_usdt: self.balance_usdt,
            total_pnl: self.total_pnl,
            total_trades: self.total_trades,
            winning_trades: self.winning_trades,
            cooldown_until_ms: self.cooldown_until_ms,
            global_cooldown_until_ms: self.global_cooldown_until_ms,
            risk_control_blocked: self.risk_control_blocked,
            symbol_cooldown: self.symbol_cooldown@,
            corrected_oids: self.corrected_oids@.dom(),
        }
    }
}

/// The state at start-up: stopped, with nothing known and nothing counted.
pub open spec fn initial(now: u64) -> StateView {
    StateView {
        running: false,
        started_at_ms: now,
        binance_prices: Map::empty(),
        mexc_books: Map::empty(),
        mexc_prices: Map::empty(),
        open_trade: None,
        trade_history: Seq::empty(),
        resets: 0,
        balance_usdt: Double { bits: 0 },
        total_pnl: Double { bits: 0 },
        total_trades: 0,
        winning_trades: 0,
        cooldown_until_ms: 0,
        global_cooldown_until_ms: 0,
        risk_control_blocked: false,
        symbol_cooldown: Map::empty(),
        corrected_oids: Set::empty(),
    }
}

/// The state in which the strategy may trade.
pub open spec fn after_start(s: StateView) -> StateView {
    StateView { running: true, ..s }
}

/// The state in which the strategy may not trade.
pub open spec fn after_stop(s: StateView) -> StateView {
    StateView { running: false, ..s }
}

/// The state without a block of the exchange, in which the strategy may trade.
pub open spec fn after_unblock(s: StateView) -> StateView {
    StateView { risk_control_blocked: false, running: true, ..s }
}

/// One more; past the largest number counting starts over.
pub open spec fn next_count(n: u64) -> u64 {
    if n == u64::MAX {
        0
    } else {
        (n + 1) as u64
    }
}

/// The state without closed trades, and without what was counted of them.
pub open spec fn after_reset(s: StateView) -> StateView {
    StateView {
        total_pnl: Double { bits: 0 },
        total_trades: 0,
        winning_trades: 0,
        trade_history: Seq::empty(),
        resets: next_count(s.resets),
        ..s
    }
}

impl State {
    /// The tables of the state are sound.
    pub open spec fn wf(&self) -> bool {
        &&& self.binance_prices.wf()
        &&& self.mexc_books.wf()
        &&& self.mexc_prices.wf()
        &&& self.symbol_cooldown.wf()
        &&& self.corrected_oids.wf()
    }

    /// The state at the time `now`.
    pub fn new_at(now: u64) -> (s: State)
        ensures
            s.wf(),
            s@ == initial(now),
    {
        let s = State {
            running: false,
            started_at_ms: now,
            binance_prices: Table::new(),
            mexc_books: Table::new(),
            mexc_prices: Table::new(),
            open_trade: None,
            trade_history: Vec::with_capacity(1000),
            resets: 0,
            balance_usdt: Double { bits: 0 },
            total_pnl: Double { bits: 0 },
            total_trades: 0,
            winning_trades: 0,
            cooldown_until_ms: 0,
            global_cooldown_until_ms: 0,
            risk_control_blocked: false,
            symbol_cooldown: Table::new(),
            corrected_oids: Table::new(),
        };
        assert(s@ =~= initial(now));
        s
    }

    /// The state at the present time, if the clock stands after the epoch.
    pub fn new() -> (r: Option<State>)
        ensures
            r matches Some(s) ==> s.wf() && s@ == initial(s.started_at_ms),
    {
        match now_ms() {
            Some(now) => Some(State::new_at(now)),
            None => None,
        }
    }

    /// Lets the strategy trade.
    pub fn start(&mut self)
        ensures
            final(self)@ == after_start(old(self)@),
            old(self).wf() ==> final(self).wf(),
    {
        self.running = true;
    }

    /// Keeps the strategy from trading.
    pub fn stop(&mut self)
        ensures
            final(self)@ == after_stop(old(self)@),
            old(self).wf() ==> final(self).wf(),
    {
        self.running = false;
    }

    /// Lifts the block of the exchange's risk control and lets the strategy trade.
    pub fn unblock(&mut self)
        ensures
            final(self)@ == after_unblock(old(self)@),
            old(self).wf() ==> final(self).wf(),
    {
        self.risk_control_blocked = false;
        self.running = true;
    }

    /// Forgets the closed trades and what was counted of them.
    pub fn reset_stats(&mut self)
        ensures
            final(self)@ == after_reset(old(self)@),
            old(self).wf() ==> final(self).wf(),
    {
        self.total_pnl = Double { bits: 0 };
        self.total_trades = 0;
        self.winning_trades = 0;
        self.trade_history.clear();
        self.resets = self.resets.wrapping_add(1);
        assert(trades(self.trade_history@) =~= Seq::empty());
    }
}

/// The milliseconds from the epoch to `SystemTime::now`, or nothing where the clock
/// stands before the epoch. Nothing is said of the number: it is the time of the
/// call.
#[verifier::external_body]
fn since_epoch() -> (r: Option<u128>) {
    std::time::SystemTime::now().duration_since(std::time::UNIX_EPOCH).ok().map(|d| d.as_millis())
}

/// A span in milliseconds as a 64-bit stamp; a missing span has none.
pub fn stamp(since: Option<u128>) -> (r: Option<u64>)
    ensures
        r is Some <==> since is Some,
        since matches Some(ms) ==> r->0 == ms % 0x1_0000_0000_0000_0000,
{
    match since {
        Some(ms) => {
            let r: u64 = ms as u64;
            assert(r as u128 == ms % 0x1_0000_0000_0000_0000) by (bit_vector)
                requires
                    r == ms as u64,
            ;
            Some(r)
        },
        None => None,
    }
}

/// The time of the call, in milliseconds since the epoch; nothing where the clock
/// stands before the epoch.
pub fn now_ms() -> Option<u64> {
    stamp(since_epoch())
}

proof fn lemma_some_highest(side: Map<i64, Level>, k: i64)
    requires
        side.contains_key(k),
    ensures
        exists|top: i64| is_highest(side, top),
    decreases i64::MAX - k,
{
    if exists|j: i64| #[trigger] side.contains_key(j) && j > k {
        let j = choose|j: i64| #[trigger] side.contains_key(j) && j > k;
        lemma_some_highest(side, j);
    } else {
        assert(is_highest(side, k));
    }
}

proof fn lemma_some_lowest(side: Map<i64, Level>, k: i64)
    requires
        side.contains_key(k),
    ensures
        exists|low: i64| is_lowest(side, low),
    decreases k - i64::MIN,
{
    if exists|j: i64| #[trigger] side.contains_key(j) && j < k {
        let j = choose|j: i64| #[trigger] side.contains_key(j) && j < k;
        lemma_some_lowest(side, j);
    } else {
        assert(is_lowest(side, k));
    }
}

/// A side that holds any level has a best bid: the price and the volume of the level
/// that no other level is above. A side without levels has none.
pub proof fn law_best_bid_is_the_highest_level(side: Map<i64, Level>, k: i64)
    ensures
        side.contains_key(k) ==> quote(highest(side)) is Some,
        side.contains_key(k) && (forall|j: i64| #[trigger] side.contains_key(j) ==> j <= k)
            ==> quote(highest(side)) == Some((side[k].price, side[k].volume)) && highest(side)
            == Some(side[k]),
        quote(highest(side)) is Some ==> exists|j: i64| #[trigger] side.contains_key(j),
{
    if side.contains_key(k) {
        lemma_some_highest(side, k);
        let top = choose|top: i64| is_highest(side, top);
        assert(is_highest(side, top));
    }
    if highest(side) is Some {
        let top = choose|top: i64| is_highest(side, top);
        assert(side.contains_key(top));
    }
}

/// A side that holds any level has a best ask: the price and the volume of the level
/// that no other level is below. A side without levels has none.
pub proof fn law_best_ask_is_the_lowest_level(side: Map<i64, Level>, k: i64)
    ensures
        side.contains_key(k) ==> quote(lowest(side)) is Some,
        side.contains_key(k) && (forall|j: i64| #[trigger] side.contains_key(j) ==> k <= j)
            ==> quote(lowest(side)) == Some((side[k].price, side[k].volume)) && lowest(side)
            == Some(side[k]),
        quote(lowest(side)) is Some ==> exists|j: i64| #[trigger] side.contains_key(j),
{
    if side.contains_key(k) {
        lemma_some_lowest(side, k);
        let low = choose|low: i64| is_lowest(side, low);
        assert(is_lowest(side, low));
    }
    if lowest(side) is Some {
        let low = choose|low: i64| is_lowest(side, low);
        assert(side.contains_key(low));
    }
}

/// At start-up nothing is known, nothing is counted, nothing is blocked, and the bot
/// does not trade.
pub proof fn law_start_is_empty(now: u64, k: Seq<char>)
    ensures
        ({
            let s = initial(now);
            &&& !s.running && !s.risk_control_blocked
            &&& s.started_at_ms == now
            &&& !s.binance_prices.contains_key(k) && !s.mexc_prices.contains_key(k)
            &&& !s.mexc_books.contains_key(k) && !s.symbol_cooldown.contains_key(k)
            &&& !s.corrected_oids.contains(k)
            &&& s.open_trade is None && s.trade_history.len() == 0
            &&& s.balance_usdt.bits == 0 && s.total_pnl.bits == 0
            &&& s.total_trades == 0 && s.winning_trades == 0 && s.resets == 0
            &&& s.cooldown_until_ms == 0 && s.global_cooldown_until_ms == 0
        }),
{
}

/// The switches of the dashboard do what they say and nothing else: only the one that
/// lifts the block touches it, and only starting, stopping and lifting decide whether
/// the bot trades.
pub proof fn law_switches_do_one_thing(s: StateView)
    ensures
        after_start(s).running && after_start(s) == (StateView { running: true, ..s }),
        !after_stop(s).running && after_stop(s) == (StateView { running: false, ..s }),
        after_unblock(s) == (StateView { running: true, risk_control_blocked: false, ..s }),
        after_stop(after_start(s)) == after_stop(s),
        after_start(after_stop(s)) == after_start(s),
{
}

/// Forgetting the trades empties the history and the counts; prices, books, the open
/// trade, the balance, the booked orders and the switches stay.
pub proof fn law_reset_forgets_closed_trades_only(s: StateView)
    ensures
        ({
            let after = after_reset(s);
            &&& after.trade_history.len() == 0
            &&& after.total_pnl.bits == 0 && after.total_trades == 0 && after.winning_trades == 0
            &&& s.resets < u64::MAX ==> after.resets == s.resets + 1
            &&& after.resets != s.resets
            &&& after == (StateView {
                trade_history: after.trade_history,
                total_pnl: after.total_pnl,
                total_trades: after.total_trades,
                winning_trades: after.winning_trades,
                resets: after.resets,
                ..s
            })
        }),
{
}

/// What a trade says is what its fields hold.
pub proof fn law_trade_says_what_it_holds(t: Trade)
    ensures
        t@.id == t.id@ && t@.symbol == t.symbol@ && t@.side == t.side@,
        t@.entry_price == t.entry_price && t@.exit_price == t.exit_price,
        t@.size == t.size && t@.pnl == t.pnl,
        t@.status == t.status@ && t@.close_order_id == t.close_order_id@,
        t@.position_id == t.position_id,
        t@.open_time_ms == t.open_time_ms && t@.close_time_ms == t.close_time_ms,
        t@.spread_at_entry == t.spread_at_entry && t@.stop_armed == t.stop_armed,
        t@.open_http_ms == t.open_http_ms && t@.close_reason == t.close_reason@,
        t@.verified == t.verified,
        trade_of(Some(t)) == Some(t@),
        trade_of(None) is None,
{
}

/// A list of trades says what each of them says, in order.
pub proof fn law_trades_say_what_they_hold(list: Seq<Trade>, i: int)
    requires
        0 <= i < list.len(),
    ensures
        trades(list).len() == list.len(),
        trades(list)[i] == list[i]@,
{
}

/// What the state says is what its fields hold.
pub proof fn law_state_says_what_it_holds(s: State, k: Seq<char>)
    ensures
        s@.running == s.running && s@.started_at_ms == s.started_at_ms,
        s@.binance_prices == s.binance_prices@ && s@.mexc_prices == s.mexc_prices@,
        s@.mexc_books.contains_key(k) <==> s.mexc_books@.contains_key(k),
        s.mexc_books@.contains_key(k) ==> {
            let b = s.mexc_books@[k];
            &&& s@.mexc_books[k].bids == b.bids@ && s@.mexc_books[k].asks == b.asks@
            &&& s@.mexc_books[k].version == b.version
            &&& s@.mexc_books[k].last_update_ms == b.last_update_ms
        },
        s@.open_trade == trade_of(s.open_trade) && s@.trade_history == trades(s.trade_history@),
        s@.resets == s.resets && s@.balance_usdt == s.balance_usdt,
        s@.total_pnl == s.total_pnl && s@.total_trades == s.total_trades,
        s@.winning_trades == s.winning_trades,
        s@.cooldown_until_ms == s.cooldown_until_ms,
        s@.global_cooldown_until_ms == s.global_cooldown_until_ms,
        s@.risk_control_blocked == s.risk_control_blocked,
        s@.symbol_cooldown == s.symbol_cooldown@,
        s@.corrected_oids.contains(k) <==> s.corrected_oids@.contains_key(k),
{
}

} // verus!
