//! The order book feed of MEXC.
use crate::config::{mexc_name, renamed, to_mexc_symbol};
use crate::double::Double;
use crate::feed::{message_time, stamped, FeedError};
use crate::json::{
    json, member_or_empty, parse, parsed, request, request_text, single, single_text, text_or_empty,
};
use crate::naming::law_names_round_trip;
use crate::state::{
    highest, is_highest, is_lowest, law_best_ask_is_the_lowest_level, law_best_bid_is_the_highest_level,
    lowest, BookView, Level, OrderBook, PriceData, State, StateView,
};
use crate::text::{remove_char, same, without};
use std::collections::BTreeMap;
use vstd::prelude::*;

verus! {

broadcast use {vstd::std_specs::btree::group_btree_axioms, vstd::laws_cmp::group_laws_cmp};

/// From which lateness on a message of this feed is worth a warning.
pub const STALE_MSG_WARN_MS: i64 = 500;

/// One row of a book as it was sent, with the price that its first number stands for
/// in the book: in steps of 1e-8, and those steps as a number again.
#[derive(Debug)]
pub struct DepthRow {
    pub values: Vec<Double>,
    pub steps: i64,
    pub price: Double,
}

/// Both sides of a book as they were sent.
#[derive(Debug)]
pub struct DepthFullData {
    pub asks: Vec<DepthRow>,
    pub bids: Vec<DepthRow>,
    pub version: u64,
}

/// A message with a whole book.
#[derive(Debug)]
pub struct DepthFullPush {
    pub symbol: Option<String>,
    pub ts: Option<i64>,
    pub data: Option<DepthFullData>,
}

/// A symbol of MEXC without its separator.
pub fn from_mexc_symbol(s: &str) -> (r: String)
    ensures
        r@ == without(s@, '_'),
{
    remove_char(s, '_')
}

/// A row gives a level if its price and its volume are there and positive.
pub open spec fn is_level(row: DepthRow) -> bool {
    row.values@.len() >= 2 && row.values@[0].positive() && row.values@[1].positive()
}

/// The level of a row.
pub open spec fn level(row: DepthRow) -> Level {
    Level { price: row.price, volume: row.values@[1] }
}

/// The side that rows make up: of two rows with one price the later one counts.
pub open spec fn side(rows: Seq<DepthRow>) -> Map<i64, Level>
    decreases rows.len(),
{
    if rows.len() == 0 {
        Map::empty()
    } else if is_level(rows.last()) {
        side(rows.drop_last()).insert(rows.last().steps, level(rows.last()))
    } else {
        side(rows.drop_last())
    }
}

/// The side that rows make up.
fn fill(rows: &Vec<DepthRow>) -> (r: BTreeMap<i64, Level>)
    ensures
        r@ == side(rows@),
{
    let mut out: BTreeMap<i64, Level> = BTreeMap::new();
    let mut i: usize = 0;
    assert(rows@.take(0) =~= Seq::<DepthRow>::empty());
    while i < rows.len()
        invariant
            i <= rows.len(),
            out@ == side(rows@.take(i as int)),
        decreases rows.len() - i,
    {
        let row = &rows[i];
        assert(rows@.take(i + 1).drop_last() =~= rows@.take(i as int));
        if row.values.len() >= 2 {
            let price = row.values[0];
            let volume = row.values[1];
            if price.is_positive() && volume.is_positive() {
                out.insert(row.steps, Level { price: row.price, volume });
            }
        }
        i = i + 1;
    }
    assert(rows@.take(rows@.len() as int) =~= rows@);
    out
}

/// The time stamp of a message; zero where it has none.
pub open spec fn sent(ts: Option<i64>) -> i64 {
    match ts {
        Some(t) => t,
        None => 0,
    }
}

/// A message that replaces a book: it names the symbol and has rows on both sides.
pub open spec fn replaces(push: DepthFullPush) -> bool {
    &&& push.symbol is Some
    &&& push.data matches Some(d)
    &&& d.bids@.len() > 0
    &&& d.asks@.len() > 0
}

/// The common name of the symbol of a message.
pub open spec fn book_key(push: DepthFullPush) -> Seq<char> {
    without(push.symbol->0@, '_')
}

/// The book that a message brings.
pub open spec fn new_book(push: DepthFullPush, now: u64) -> BookView {
    BookView {
        bids: side(push.data->0.bids@),
        asks: side(push.data->0.asks@),
        version: push.data->0.version,
        last_update_ms: stamped(sent(push.ts), now),
    }
}

/// The best prices of a book, if both are positive.
pub open spec fn top(book: BookView) -> Option<PriceData> {
    match (highest(book.bids), lowest(book.asks)) {
        (Some(bid), Some(ask)) => if bid.price.positive() && ask.price.positive() {
            Some(PriceData { bid: bid.price, ask: ask.price, timestamp_ms: book.last_update_ms })
        } else {
            None
        },
        _ => None,
    }
}

/// The best prices once a book has come: a book without positive best prices leaves
/// them as they were.
pub open spec fn cached(
    prices: Map<Seq<char>, PriceData>,
    key: Seq<char>,
    book: BookView,
) -> Map<Seq<char>, PriceData> {
    match top(book) {
        Some(p) => prices.insert(key, p),
        None => prices,
    }
}

/// The state after a message with a book.
pub open spec fn after_depth(s: StateView, push: DepthFullPush, now: u64) -> StateView {
    if replaces(push) {
        let book = new_book(push, now);
        StateView {
            mexc_books: s.mexc_books.insert(book_key(push), book),
            mexc_prices: cached(s.mexc_prices, book_key(push), book),
            ..s
        }
    } else {
        s
    }
}

/// Keeps the best prices of a book at hand. Tells whether they were kept: then the
/// strategy is to be woken.
fn update_top_cache(book: &OrderBook, key: &str, state: &mut State) -> (r: bool)
    requires
        old(state).wf(),
    ensures
        final(state).wf(),
        final(state)@ == (StateView {
            mexc_prices: cached(old(state)@.mexc_prices, key@, book@),
            ..old(state)@
        }),
        r == (top(book@) is Some),
{
    match (book.best_bid(), book.best_ask()) {
        (Some((bid, _)), Some((ask, _))) => {
            if bid.is_positive() && ask.is_positive() {
                let p = PriceData { bid, ask, timestamp_ms: book.last_update_ms };
                state.mexc_prices.set(key, p);
                true
            } else {
                false
            }
        },
        _ => false,
    }
}

/// Takes in a message with a book, at the time `now`. The symbol is looked for
/// before the levels. Tells whether the best prices were kept, so that the strategy
/// is to be woken.
pub fn apply_depth(push: DepthFullPush, state: &mut State, now: u64) -> (r: Result<bool, FeedError>)
    requires
        old(state).wf(),
    ensures
        final(state).wf(),
        final(state)@ == after_depth(old(state)@, push, now),
        r is Ok <==> push.symbol is Some && push.data is Some,
        r matches Err(e) ==> {
            &&& e is NoSymbol <==> push.symbol is None
            &&& e is NoData <==> push.symbol is Some
        },
        r matches Ok(woken) ==> woken == (replaces(push) && top(new_book(push, now)) is Some),
{
    let ghost before = state@;
    let ghost whole = push;
    let symbol = match push.symbol {
        Some(s) => s,
        None => {
            return Err(FeedError::NoSymbol);
        },
    };
    let data = match push.data {
        Some(d) => d,
        None => {
            return Err(FeedError::NoData);
        },
    };
    let ts: i64 = match push.ts {
        Some(t) => t,
        None => 0,
    };
    let key = from_mexc_symbol(symbol.as_str());
    if data.bids.is_empty() || data.asks.is_empty() {
        return Ok(false);
    }
    let book = OrderBook {
        bids: fill(&data.bids),
        asks: fill(&data.asks),
        version: data.version,
        last_update_ms: message_time(ts, now),
    };
    assert(book@ == new_book(whole, now));
    let woken = update_top_cache(&book, key.as_str(), state);
    let ghost books = state.mexc_books@;
    state.mexc_books.set(key.as_str(), book);
    proof {
        assert(state@.mexc_books =~= before.mexc_books.insert(key@, book@));
        assert(state@ =~= after_depth(before, whole, now));
    }
    Ok(woken)
}

/// What a message of the order book feed is.
#[derive(Clone, Copy, Debug, PartialEq, Eq, Structural)]
pub enum Route {
    Pong,
    /// The answer to a subscription.
    SubAck,
    ServerError,
    Depth,
    /// A message without a channel.
    Unnamed,
    /// A message of some other channel.
    Ignored,
}

/// What a channel carries.
pub open spec fn route_of(channel: Seq<char>) -> Route {
    if channel == "pong"@ {
        Route::Pong
    } else if channel == "rs.sub.depth.full"@ {
        Route::SubAck
    } else if channel == "rs.error"@ {
        Route::ServerError
    } else if channel == "push.depth.full"@ {
        Route::Depth
    } else if channel.len() == 0 {
        Route::Unnamed
    } else {
        Route::Ignored
    }
}

/// Finds out what a channel carries.
pub fn route(channel: &str) -> (r: Route)
    ensures
        r == route_of(channel@),
{
    if same(channel, "pong") {
        Route::Pong
    } else if same(channel, "rs.sub.depth.full") {
        Route::SubAck
    } else if same(channel, "rs.error") {
        Route::ServerError
    } else if same(channel, "push.depth.full") {
        Route::Depth
    } else if channel.is_empty() {
        Route::Unnamed
    } else {
        Route::Ignored
    }
}

/// A message of the order book feed and what it is.
#[derive(Debug)]
pub struct Inbound {
    pub route: Route,
    pub body: serde_json::Value,
}

/// Finds out what a message is: it goes by its channel.
pub fn inbound(body: serde_json::Value) -> (m: Inbound)
    ensures
        m.body == body,
        m.route == route_of(text_or_empty(json(body), "channel"@)),
{
    let channel = member_or_empty(&body, "channel");
    Inbound { route: route(channel.as_str()), body }
}

/// Reads a message. One that is no JSON is refused; any other goes by its channel.
pub fn handle_text(txt: &str) -> (r: Result<Inbound, FeedError>)
    ensures
        r is Ok <==> parsed(txt@) is Some,
        r matches Err(e) ==> e is Json,
        r matches Ok(m) ==> {
            &&& json(m.body) == parsed(txt@)->0
            &&& m.route == route_of(text_or_empty(parsed(txt@)->0, "channel"@))
        },
{
    match parse(txt) {
        Ok(body) => Ok(inbound(body)),
        Err(e) => Err(FeedError::Json(e)),
    }
}

/// The requests for the books of the symbols, in their order.
pub fn subscriptions(symbols: &Vec<String>) -> (r: Vec<String>)
    ensures
        r@.len() == symbols@.len(),
        forall|i: int|
            0 <= i < symbols@.len() ==> (#[trigger] r@[i])@ == request(
                "sub.depth.full"@,
                single("symbol"@, mexc_name(symbols@[i]@)),
            ),
{
    let mut out: Vec<String> = Vec::new();
    let mut i: usize = 0;
    while i < symbols.len()
        invariant
            i <= symbols.len(),
            out@.len() == i,
            forall|j: int|
                0 <= j < i ==> (#[trigger] out@[j])@ == request(
                    "sub.depth.full"@,
                    single("symbol"@, mexc_name(symbols@[j]@)),
                ),
        decreases symbols.len() - i,
    {
        let name = to_mexc_symbol(symbols[i].as_str());
        let param = single_text("symbol", name.as_str());
        out.push(request_text("sub.depth.full", param.as_str()));
        i = i + 1;
    }
    out
}

/// Row `i` is the last one that gives a level at the price `k`.
pub open spec fn is_last_at(rows: Seq<DepthRow>, k: i64, i: int) -> bool {
    &&& 0 <= i < rows.len()
    &&& is_level(rows[i])
    &&& rows[i].steps == k
    &&& forall|j: int| i < j < rows.len() ==> !(is_level(#[trigger] rows[j]) && rows[j].steps == k)
}

/// A side holds a price exactly if some row gives a level there, and then the level
/// of the last such row.
pub proof fn law_side_holds_the_last_levels(rows: Seq<DepthRow>, k: i64)
    ensures
        side(rows).contains_key(k) <==> exists|i: int| is_last_at(rows, k, i),
        forall|i: int| is_last_at(rows, k, i) ==> side(rows)[k] == level(rows[i]),
    decreases rows.len(),
{
    if rows.len() > 0 {
        let rest = rows.drop_last();
        let last = rows.len() - 1;
        law_side_holds_the_last_levels(rest, k);
        if is_level(rows.last()) && rows.last().steps == k {
            assert(is_last_at(rows, k, last));
            assert forall|i: int| is_last_at(rows, k, i) implies side(rows)[k] == level(rows[i]) by {
                if i < last {
                    assert(!(is_level(rows[last]) && rows[last].steps == k));
                }
            }
        } else {
            assert forall|i: int| is_last_at(rest, k, i) implies is_last_at(rows, k, i) by {
                assert(rows[i] == rest[i]);
                assert forall|j: int| i < j < rows.len() implies !(is_level(#[trigger] rows[j])
                    && rows[j].steps == k) by {
                    if j < last {
                        assert(rows[j] == rest[j]);
                    }
                }
            }
            assert forall|i: int| is_last_at(rows, k, i) implies is_last_at(rest, k, i) by {
                assert(i != last);
                assert(rows[i] == rest[i]);
                assert forall|j: int| i < j < rest.len() implies !(is_level(#[trigger] rest[j])
                    && rest[j].steps == k) by {
                    assert(rows[j] == rest[j]);
                }
            }
            if exists|i: int| is_last_at(rest, k, i) {
                let i = choose|i: int| is_last_at(rest, k, i);
                assert(is_last_at(rows, k, i));
            }
            assert forall|i: int| is_last_at(rows, k, i) implies side(rows)[k] == level(rows[i]) by {
                assert(is_last_at(rest, k, i));
            }
        }
    }
}

/// The best prices of a book are positive, and no level of the book is better.
pub proof fn law_top_is_best(book: BookView)
    requires
        top(book) is Some,
    ensures
        top(book)->0.bid.positive(),
        top(book)->0.ask.positive(),
        exists|b: i64, a: i64|
            {
                &&& #[trigger] is_highest(book.bids, b)
                &&& #[trigger] is_lowest(book.asks, a)
                &&& top(book)->0.bid == book.bids[b].price
                &&& top(book)->0.ask == book.asks[a].price
            },
{
    let b = choose|b: i64| is_highest(book.bids, b);
    let a = choose|a: i64| is_lowest(book.asks, a);
    assert(is_highest(book.bids, b) && is_lowest(book.asks, a));
}

/// A message with a book touches nothing but the book and the best prices of its
/// symbol, and the two agree wherever the best prices were kept.
pub proof fn law_depth_concerns_one_symbol(
    s: StateView,
    push: DepthFullPush,
    now: u64,
    other: Seq<char>,
)
    requires
        other != book_key(push),
    ensures
        ({
            let after = after_depth(s, push, now);
            let key = book_key(push);
            &&& after == (StateView {
                mexc_books: after.mexc_books,
                mexc_prices: after.mexc_prices,
                ..s
            })
            &&& after.mexc_books.contains_key(other) == s.mexc_books.contains_key(other)
            &&& after.mexc_books[other] == s.mexc_books[other]
            &&& after.mexc_prices.contains_key(other) == s.mexc_prices.contains_key(other)
            &&& after.mexc_prices[other] == s.mexc_prices[other]
            &&& replaces(push) ==> after.mexc_books[key] == new_book(push, now)
            &&& replaces(push) && top(after.mexc_books[key]) is Some ==> Some(
                after.mexc_prices[key],
            ) == top(after.mexc_books[key])
        }),
{
}

/// All best prices are positive.
pub open spec fn all_positive(prices: Map<Seq<char>, PriceData>) -> bool {
    forall|k: Seq<char>| #[trigger]
        prices.contains_key(k) ==> prices[k].bid.positive() && prices[k].ask.positive()
}

/// The best prices that are kept stay positive, whatever book comes.
pub proof fn law_kept_prices_are_positive(s: StateView, push: DepthFullPush, now: u64)
    requires
        all_positive(s.mexc_prices),
    ensures
        all_positive(after_depth(s, push, now).mexc_prices),
{
}

/// A book that was asked for under a symbol is filed under that symbol, if the
/// symbol has no separator of its own and is not renamed.
pub proof fn law_book_is_filed_under_its_symbol(sym: Seq<char>, push: DepthFullPush)
    requires
        !sym.contains('_'),
        renamed(sym) is None,
        push.symbol is Some,
        push.symbol->0@ == mexc_name(sym),
    ensures
        book_key(push) == sym,
{
    law_names_round_trip(sym);
}

/// A row gives a level where both its price and its volume are above zero, and only
/// there; of several rows with one price the last one counts.
pub proof fn law_side_is_made_of_its_rows(rows: Seq<DepthRow>, k: i64)
    ensures
        side(rows).contains_key(k) <==> exists|i: int|
            {
                &&& 0 <= i < rows.len()
                &&& (#[trigger] rows[i]).values@.len() >= 2
                &&& rows[i].values@[0].positive()
                &&& rows[i].values@[1].positive()
                &&& rows[i].steps == k
            },
        forall|i: int|
            {
                &&& 0 <= i < rows.len()
                &&& (#[trigger] rows[i]).values@.len() >= 2
                &&& rows[i].values@[0].positive()
                &&& rows[i].values@[1].positive()
                &&& rows[i].steps == k
                &&& forall|j: int|
                    i < j < rows.len() && (#[trigger] rows[j]).values@.len() >= 2
                        && rows[j].values@[0].positive() && rows[j].values@[1].positive()
                        ==> rows[j].steps != k
            } ==> side(rows)[k].price == rows[i].price && side(rows)[k].volume
                == rows[i].values@[1],
    decreases rows.len(),
{
    law_side_holds_the_last_levels(rows, k);
    if rows.len() > 0 {
        let rest = rows.drop_last();
        let last = rows.len() - 1;
        law_side_is_made_of_its_rows(rest, k);
        assert(rows[last] == rows.last());
        assert forall|i: int| 0 <= i < rest.len() implies #[trigger] rest[i] == rows[i] by {}
        if side(rows).contains_key(k) {
            let i = choose|i: int| is_last_at(rows, k, i);
            assert(rows[i].values@.len() >= 2);
        }
        if exists|i: int|
            {
                &&& 0 <= i < rows.len()
                &&& (#[trigger] rows[i]).values@.len() >= 2
                &&& rows[i].values@[0].positive()
                &&& rows[i].values@[1].positive()
                &&& rows[i].steps == k
            } {
            let i = choose|i: int|
                {
                    &&& 0 <= i < rows.len()
                    &&& (#[trigger] rows[i]).values@.len() >= 2
                    &&& rows[i].values@[0].positive()
                    &&& rows[i].values@[1].positive()
                    &&& rows[i].steps == k
                };
            if i < last {
                assert(rest[i] == rows[i]);
            }
            assert(side(rows).contains_key(k));
        }
        assert forall|i: int|
            {
                &&& 0 <= i < rows.len()
                &&& (#[trigger] rows[i]).values@.len() >= 2
                &&& rows[i].values@[0].positive()
                &&& rows[i].values@[1].positive()
                &&& rows[i].steps == k
                &&& forall|j: int|
                    i < j < rows.len() && (#[trigger] rows[j]).values@.len() >= 2
                        && rows[j].values@[0].positive() && rows[j].values@[1].positive()
                        ==> rows[j].steps != k
            } implies side(rows)[k].price == rows[i].price && side(rows)[k].volume
            == rows[i].values@[1] by {
            assert(is_last_at(rows, k, i));
        }
    }
}

/// A book has best prices exactly if it has levels on both sides and the price of its
/// highest bid and that of its lowest ask are above zero, however small they are; and
/// then they are those two.
pub proof fn law_top_is_there_if_the_best_levels_are(book: BookView, b: i64, a: i64)
    ensures
        book.bids.contains_key(b) && (forall|j: i64| #[trigger]
            book.bids.contains_key(j) ==> j <= b) && book.asks.contains_key(a) && (forall|
            j: i64,
        | #[trigger]
            book.asks.contains_key(j) ==> a <= j) ==> {
            &&& top(book) is Some <==> book.bids[b].price.positive()
                && book.asks[a].price.positive()
            &&& top(book) matches Some(p) ==> {
                &&& p.bid == book.bids[b].price
                &&& p.ask == book.asks[a].price
                &&& p.timestamp_ms == book.last_update_ms
            }
        },
        (forall|j: i64| !#[trigger] book.bids.contains_key(j)) ==> top(book) is None,
        (forall|j: i64| !#[trigger] book.asks.contains_key(j)) ==> top(book) is None,
{
    law_best_bid_is_the_highest_level(book.bids, b);
    law_best_ask_is_the_lowest_level(book.asks, a);
}

/// A message with rows on both sides brings the book that its rows make up, under its
/// symbol without the separator, with its version and its time, or the time of arrival
/// where it has none.
pub proof fn law_book_is_taken_in(s: StateView, push: DepthFullPush, now: u64, k: i64)
    requires
        push.symbol is Some,
        push.data is Some,
        push.data->0.bids@.len() > 0,
        push.data->0.asks@.len() > 0,
    ensures
        ({
            let after = after_depth(s, push, now);
            let key = without(push.symbol->0@, '_');
            let book = after.mexc_books[key];
            &&& after.mexc_books.contains_key(key)
            &&& book_key(push) == key && replaces(push) && new_book(push, now) == book
            &&& book.version == push.data->0.version
            &&& push.ts is Some && push.ts->0 > 0 ==> book.last_update_ms == push.ts->0 as int
            &&& push.ts is None || push.ts->0 <= 0 ==> book.last_update_ms == now
            &&& book.bids == side(push.data->0.bids@)
            &&& book.asks == side(push.data->0.asks@)
        }),
{
}

/// The strategy sees the best prices of each book that has them: those of its highest
/// bid and its lowest ask, whenever both are above zero. A book without them leaves the
/// prices as they were.
pub proof fn law_prices_follow_the_book(
    s: StateView,
    push: DepthFullPush,
    now: u64,
    b: i64,
    a: i64,
)
    requires
        push.symbol is Some,
        push.data is Some,
        push.data->0.bids@.len() > 0,
        push.data->0.asks@.len() > 0,
    ensures
        ({
            let after = after_depth(s, push, now);
            let key = without(push.symbol->0@, '_');
            let bids = side(push.data->0.bids@);
            let asks = side(push.data->0.asks@);
            let best = {
                &&& bids.contains_key(b) && forall|j: i64| #[trigger]
                    bids.contains_key(j) ==> j <= b
                &&& asks.contains_key(a) && forall|j: i64| #[trigger]
                    asks.contains_key(j) ==> a <= j
            };
            &&& best && bids[b].price.positive() && asks[a].price.positive() ==> {
                &&& top(new_book(push, now)) is Some
                &&& after.mexc_prices.contains_key(key)
                &&& after.mexc_prices[key].bid == bids[b].price
                &&& after.mexc_prices[key].ask == asks[a].price
                &&& after.mexc_prices[key].timestamp_ms == after.mexc_books[key].last_update_ms
                &&& after.mexc_prices == s.mexc_prices.insert(key, after.mexc_prices[key])
            }
            &&& best && !(bids[b].price.positive() && asks[a].price.positive()) ==> {
                &&& top(new_book(push, now)) is None
                &&& after.mexc_prices == s.mexc_prices
            }
            &&& (forall|j: i64| !#[trigger] bids.contains_key(j)) || (forall|j: i64|
                !#[trigger] asks.contains_key(j)) ==> {
                &&& top(new_book(push, now)) is None
                &&& after.mexc_prices == s.mexc_prices
            }
        }),
{
    law_top_is_there_if_the_best_levels_are(new_book(push, now), b, a);
}

/// A message without a symbol, without a book or with an empty side changes nothing.
pub proof fn law_incomplete_book_changes_nothing(s: StateView, push: DepthFullPush, now: u64)
    requires
        push.symbol is None || push.data is None || push.data->0.bids@.len() == 0
            || push.data->0.asks@.len() == 0,
    ensures
        after_depth(s, push, now) == s,
        !replaces(push),
{
}

/// Each channel of the feed is told from the others, and only the one of the books
/// carries books.
pub proof fn law_channels_are_told_apart(channel: Seq<char>)
    ensures
        route_of(channel) == Route::Depth <==> channel == "push.depth.full"@,
        route_of(channel) == Route::Pong <==> channel == "pong"@,
        route_of(channel) == Route::SubAck <==> channel == "rs.sub.depth.full"@,
        route_of(channel) == Route::ServerError <==> channel == "rs.error"@,
        route_of(channel) == Route::Unnamed <==> channel.len() == 0,
{
    reveal_strlit("push.depth.full");
    reveal_strlit("pong");
    reveal_strlit("rs.sub.depth.full");
    reveal_strlit("rs.error");
    assert("push.depth.full"@.len() == 15 && "pong"@.len() == 4 && "rs.sub.depth.full"@.len() == 17
        && "rs.error"@.len() == 8);
}

} // verus!
