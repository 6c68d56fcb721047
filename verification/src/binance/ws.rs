//! The feed of best prices of Binance.
use crate::double::{law_sign_is_that_of_the_bits, Double};
use crate::feed::{message_time, stamped, FeedError};
use crate::json::{list, list_text};
use crate::spread_tracker::{is_usable, usable};
use crate::state::{PriceData, State, StateView};
use crate::text::{contains, law_occurrence_splits_the_text, lower, lowered, occurs, views};
use vstd::prelude::*;
use vstd::string::*;

verus! {

/// From which lateness on a message of this feed is worth a note.
pub const STALE_MSG_WARN_MS: i64 = 200;

/// A message with the best prices of a symbol. A price that is not a number is
/// missing.
#[derive(Debug)]
pub struct BookTicker {
    pub symbol: String,
    pub bid_price: Option<Double>,
    pub ask_price: Option<Double>,
    pub transaction_time: i64,
}

/// A message that answers a request and brings no prices: it has an empty result, or
/// a number of a request and no event.
pub open spec fn acknowledges(txt: Seq<char>) -> bool {
    occurs(txt, "\"result\":null"@) || occurs(txt, "\"id\":"@) && !occurs(txt, "\"e\":"@)
}

/// Whether a message only answers a request.
pub fn is_ack(txt: &str) -> (r: bool)
    ensures
        r == acknowledges(txt@),
{
    contains(txt, "\"result\":null") || contains(txt, "\"id\":") && !contains(txt, "\"e\":")
}

/// The prices that a message brings.
pub open spec fn quote_of(t: BookTicker, now: u64) -> PriceData {
    PriceData {
        bid: t.bid_price->0,
        ask: t.ask_price->0,
        timestamp_ms: stamped(t.transaction_time, now),
    }
}

/// A message whose prices are kept: both are there, and neither is zero or below.
pub open spec fn kept(t: BookTicker, now: u64) -> bool {
    t.bid_price is Some && t.ask_price is Some && usable(quote_of(t, now))
}

/// The state after a message with prices.
pub open spec fn after_ticker(s: StateView, t: BookTicker, now: u64) -> StateView {
    if kept(t, now) {
        StateView {
            binance_prices: s.binance_prices.insert(t.symbol@, quote_of(t, now)),
            ..s
        }
    } else {
        s
    }
}

/// Takes in a message with prices, at the time `now`. The bid is looked at first.
/// Tells whether the prices were kept, so that the strategy is to be woken.
pub fn apply_ticker(t: BookTicker, state: &mut State, now: u64) -> (r: Result<bool, FeedError>)
    requires
        old(state).wf(),
    ensures
        final(state).wf(),
        final(state)@ == after_ticker(old(state)@, t, now),
        r is Ok <==> t.bid_price is Some && t.ask_price is Some,
        r matches Err(e) ==> {
            &&& e is BadBid <==> t.bid_price is None
            &&& e is BadAsk <==> t.bid_price is Some
        },
        r matches Ok(woken) ==> woken == kept(t, now),
{
    let bid = match t.bid_price {
        Some(p) => p,
        None => {
            return Err(FeedError::BadBid);
        },
    };
    let ask = match t.ask_price {
        Some(p) => p,
        None => {
            return Err(FeedError::BadAsk);
        },
    };
    let p = PriceData { bid, ask, timestamp_ms: message_time(t.transaction_time, now) };
    if !is_usable(&p) {
        return Ok(false);
    }
    state.binance_prices.set(t.symbol.as_str(), p);
    Ok(true)
}

/// The streams of the best prices of symbols.
pub open spec fn streams(symbols: Seq<Seq<char>>) -> Seq<Seq<char>> {
    symbols.map_values(|s: Seq<char>| lowered(s) + "@bookTicker"@)
}

/// The request for the best prices of the symbols.
pub open spec fn subscription_text(symbols: Seq<Seq<char>>) -> Seq<char> {
    "{\"id\":1,\"method\":\"SUBSCRIBE\",\"params\":"@ + list(streams(symbols)) + "}"@
}

/// Writes the request for the best prices of the symbols. The exchange wants their
/// names in lower case.
pub fn subscription(symbols: &Vec<String>) -> (r: String)
    ensures
        r@ == subscription_text(views(symbols@)),
{
    let ghost all = streams(views(symbols@));
    let mut names: Vec<String> = Vec::new();
    let mut i: usize = 0;
    while i < symbols.len()
        invariant
            i <= symbols.len(),
            all == streams(views(symbols@)),
            views(names@) == all.take(i as int),
        decreases symbols.len() - i,
    {
        let ghost before = names@;
        let mut name = lower(symbols[i].as_str());
        name.append("@bookTicker");
        names.push(name);
        proof {
            assert(views(names@) =~= views(before).push(name@));
            assert(all.take(i + 1) =~= all.take(i as int).push(all[i as int]));
        }
        i = i + 1;
    }
    assert(views(names@) =~= all);
    let mut out = String::new();
    out.append("{\"id\":1,\"method\":\"SUBSCRIBE\",\"params\":");
    out.append(list_text(&names).as_str());
    out.append("}");
    assert(out@ =~= subscription_text(views(symbols@)));
    out
}

/// A message gives a symbol exactly the prices that it brings, and touches nothing
/// else: no other symbol, and no other part of the state.
pub proof fn law_ticker_concerns_one_symbol(
    s: StateView,
    t: BookTicker,
    now: u64,
    other: Seq<char>,
)
    requires
        other != t.symbol@,
    ensures
        ({
            let after = after_ticker(s, t, now);
            &&& after == (StateView { binance_prices: after.binance_prices, ..s })
            &&& after.binance_prices.contains_key(other) == s.binance_prices.contains_key(other)
            &&& after.binance_prices[other] == s.binance_prices[other]
            &&& kept(t, now) ==> {
                &&& after.binance_prices.contains_key(t.symbol@)
                &&& after.binance_prices[t.symbol@] == quote_of(t, now)
            }
        }),
{
}

/// All best prices are usable.
pub open spec fn all_usable(prices: Map<Seq<char>, PriceData>) -> bool {
    forall|k: Seq<char>| #[trigger] prices.contains_key(k) ==> usable(prices[k])
}

/// The best prices that are kept stay usable, whatever message comes.
pub proof fn law_kept_prices_are_usable(s: StateView, t: BookTicker, now: u64)
    requires
        all_usable(s.binance_prices),
    ensures
        all_usable(after_ticker(s, t, now).binance_prices),
{
}

/// A ticker whose two prices are not zero or below gives the symbol exactly those
/// prices, however small they are and whichever is the larger; any other ticker changes
/// nothing.
pub proof fn law_ticker_gives_its_prices(s: StateView, t: BookTicker, now: u64)
    ensures
        ({
            let after = after_ticker(s, t, now);
            let good = {
                &&& t.bid_price is Some && (t.bid_price->0.nan() || t.bid_price->0.positive())
                &&& t.ask_price is Some && (t.ask_price->0.nan() || t.ask_price->0.positive())
            };
            &&& kept(t, now) <==> good
            &&& good ==> {
                let p = after.binance_prices[t.symbol@];
                &&& after.binance_prices == s.binance_prices.insert(t.symbol@, p)
                &&& Some(p.bid) == t.bid_price
                &&& Some(p.ask) == t.ask_price
                &&& t.transaction_time > 0 ==> p.timestamp_ms == t.transaction_time as int
                &&& t.transaction_time <= 0 ==> p.timestamp_ms == now
                &&& after == (StateView { binance_prices: after.binance_prices, ..s })
            }
            &&& !good ==> after == s
        }),
{
    if t.bid_price is Some {
        law_sign_is_that_of_the_bits(t.bid_price->0);
    }
    if t.ask_price is Some {
        law_sign_is_that_of_the_bits(t.ask_price->0);
    }
}

/// A message with an empty result only answers, wherever in it that stands. Any other
/// message answers if it has a number and no event; an event, or nothing of the kind,
/// brings prices.
pub proof fn law_answers_bring_no_prices(a: Seq<char>, b: Seq<char>, txt: Seq<char>)
    ensures
        acknowledges(a + "\"result\":null"@ + b),
        !occurs(txt, "\"result\":null"@) && occurs(txt, "\"e\":"@) ==> !acknowledges(txt),
        !occurs(txt, "\"result\":null"@) && !occurs(txt, "\"id\":"@) ==> !acknowledges(txt),
        occurs(txt, "\"id\":"@) && !occurs(txt, "\"e\":"@) ==> acknowledges(txt),
{
    law_occurrence_splits_the_text(txt, "\"result\":null"@, a, b);
}

/// The request names the stream of every symbol, in lower case and in order.
pub proof fn law_request_names_every_symbol(symbols: Seq<Seq<char>>, i: int)
    requires
        0 <= i < symbols.len(),
    ensures
        streams(symbols).len() == symbols.len(),
        streams(symbols)[i] == lowered(symbols[i]) + "@bookTicker"@,
        subscription_text(symbols) == "{\"id\":1,\"method\":\"SUBSCRIBE\",\"params\":"@ + list(
            Seq::new(symbols.len(), |k: int| lowered(symbols[k]) + "@bookTicker"@),
        ) + "}"@,
{
    assert(streams(symbols) =~= Seq::new(
        symbols.len(),
        |k: int| lowered(symbols[k]) + "@bookTicker"@,
    ));
}

} // verus!
