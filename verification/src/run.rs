//! What holds over a whole run of the bot, whatever the feeds bring and whatever the
//! dashboard asks for.
use crate::binance::ws::{after_ticker, all_usable, law_kept_prices_are_usable, BookTicker};
use crate::mexc::ws_private::{
    after_asset, after_deal, after_position, deal_pnl, law_deal_keeps_the_trades, AssetData, DealView,
    PnlChange, PositionData,
};
use crate::mexc::ws_public::{
    after_depth, all_positive, law_kept_prices_are_positive, DepthFullPush,
};
use crate::state::{
    after_reset, after_start, after_stop, after_unblock, initial, StateView, TradeView,
};
use crate::web::{
    at_start, can_follow, earlier, is_orderly, is_taken, law_each_close_is_told_once, stood_at_start,
    told_places, Place,
};
use vstd::prelude::*;

verus! {

/// What can reach the state: the messages of the feeds, each with the time of its
/// arrival where that counts, and the orders of the dashboard.
pub enum Input {
    Ticker { ticker: BookTicker, now: u64 },
    Book { push: DepthFullPush, now: u64 },
    Deal { symbol: Seq<char>, deal: Option<DealView>, now: u64 },
    Position { symbol: Seq<char>, data: Option<PositionData> },
    Asset { data: Option<AssetData> },
    Start,
    Stop,
    Unblock,
    Reset,
}

/// The state after one input.
pub open spec fn after_input(s: StateView, input: Input) -> StateView {
    match input {
        Input::Ticker { ticker, now } => after_ticker(s, ticker, now),
        Input::Book { push, now } => after_depth(s, push, now),
        Input::Deal { symbol, deal, now } => after_deal(s, symbol, deal, now),
        Input::Position { symbol, data } => after_position(s, symbol, data),
        Input::Asset { data } => after_asset(s, data),
        Input::Start => after_start(s),
        Input::Stop => after_stop(s),
        Input::Unblock => after_unblock(s),
        Input::Reset => after_reset(s),
    }
}

/// The state after a row of inputs.
pub open spec fn after_inputs(s: StateView, inputs: Seq<Input>) -> StateView
    decreases inputs.len(),
{
    if inputs.len() == 0 {
        s
    } else {
        after_input(after_inputs(s, inputs.drop_last()), inputs.last())
    }
}

/// The prices of both exchanges can be traded on, and every best price of MEXC comes
/// from a book.
pub open spec fn market_is_sound(s: StateView) -> bool {
    &&& all_positive(s.mexc_prices)
    &&& all_usable(s.binance_prices)
    &&& forall|k: Seq<char>| #[trigger]
        s.mexc_prices.contains_key(k) ==> s.mexc_books.contains_key(k)
}

/// Whatever happens, the market stays sound.
pub proof fn law_market_stays_sound(s: StateView, inputs: Seq<Input>)
    requires
        market_is_sound(s),
    ensures
        market_is_sound(after_inputs(s, inputs)),
    decreases inputs.len(),
{
    if inputs.len() > 0 {
        law_market_stays_sound(s, inputs.drop_last());
        let before = after_inputs(s, inputs.drop_last());
        match inputs.last() {
            Input::Ticker { ticker, now } => law_kept_prices_are_usable(before, ticker, now),
            Input::Book { push, now } => law_kept_prices_are_positive(before, push, now),
            _ => {},
        }
    }
}

/// The market is sound at every time after the start.
pub proof fn law_market_is_always_sound(started: u64, inputs: Seq<Input>)
    ensures
        market_is_sound(after_inputs(initial(started), inputs)),
{
    law_market_stays_sound(initial(started), inputs);
}

/// Whatever happens, no booked order is forgotten.
pub proof fn law_booked_orders_are_remembered(s: StateView, inputs: Seq<Input>)
    ensures
        s.corrected_oids.subset_of(after_inputs(s, inputs).corrected_oids),
    decreases inputs.len(),
{
    if inputs.len() > 0 {
        law_booked_orders_are_remembered(s, inputs.drop_last());
    }
}

/// Every trade of `s` still stands where it stood, and no more than its profit has
/// changed.
pub open spec fn keeps_the_trades(s: StateView, later: StateView) -> bool {
    &&& s.trade_history.len() <= later.trade_history.len()
    &&& forall|i: int|
        0 <= i < s.trade_history.len() ==> #[trigger] later.trade_history[i] == (TradeView {
            pnl: later.trade_history[i].pnl,
            ..s.trade_history[i]
        })
}

/// As long as the dashboard does not ask for it, no closed trade is lost, and none is
/// rewritten but for its profit.
pub proof fn law_trades_are_kept(s: StateView, inputs: Seq<Input>)
    requires
        forall|i: int| 0 <= i < inputs.len() ==> !((#[trigger] inputs[i]) is Reset),
    ensures
        keeps_the_trades(s, after_inputs(s, inputs)),
    decreases inputs.len(),
{
    if inputs.len() > 0 {
        let rest = inputs.drop_last();
        let before = after_inputs(s, rest);
        let after = after_inputs(s, inputs);
        assert(forall|i: int| 0 <= i < rest.len() ==> #[trigger] rest[i] == inputs[i]);
        law_trades_are_kept(s, rest);
        assert(inputs.last() == inputs[inputs.len() - 1]);
        match inputs.last() {
            Input::Deal { symbol, deal, now } => {
                law_deal_keeps_the_trades(before, symbol, deal, now);
                assert forall|i: int| 0 <= i < s.trade_history.len() implies #[trigger]
                after.trade_history[i] == (TradeView {
                    pnl: after.trade_history[i].pnl,
                    ..s.trade_history[i]
                }) by {
                    assert(before.trade_history[i] == (TradeView {
                        pnl: before.trade_history[i].pnl,
                        ..s.trade_history[i]
                    }));
                }
            },
            _ => {
                assert(after.trade_history == before.trade_history);
            },
        }
    }
}

proof fn lemma_run_can_follow(s: StateView, inputs: Seq<Input>)
    requires
        s.resets + inputs.len() <= u64::MAX,
    ensures
        can_follow(s, after_inputs(s, inputs)),
        s.resets <= after_inputs(s, inputs).resets <= s.resets + inputs.len(),
    decreases inputs.len(),
{
    if inputs.len() > 0 {
        let rest = inputs.drop_last();
        let before = after_inputs(s, rest);
        lemma_run_can_follow(s, rest);
        match inputs.last() {
            Input::Deal { symbol, deal, now } => law_deal_keeps_the_trades(
                before,
                symbol,
                deal,
                now,
            ),
            _ => {},
        }
    }
}

/// The states that are looked at in a run, each after so many inputs.
pub open spec fn looked_at(s: StateView, inputs: Seq<Input>, at: Seq<int>) -> Seq<StateView> {
    Seq::new(at.len(), |i: int| after_inputs(s, inputs.take(at[i])))
}

/// Whatever happens between the looks at a run, also where the dashboard has the trades
/// forgotten: every closed trade that a look finds, and that did not stand there at the
/// start, is told of exactly once, in the order in which the trades came.
pub proof fn law_each_close_of_a_run_is_told_once(s: StateView, inputs: Seq<Input>, at: Seq<int>)
    requires
        s.resets + inputs.len() <= u64::MAX,
        forall|i: int| 0 <= i < at.len() ==> 0 <= #[trigger] at[i] <= inputs.len(),
        forall|i: int, j: int| 0 <= i < j < at.len() ==> #[trigger] at[i] <= #[trigger] at[j],
    ensures
        is_orderly(s, looked_at(s, inputs, at)),
        ({
            let seen = looked_at(s, inputs, at);
            let places = told_places(at_start(s), seen, seen.len());
            &&& forall|k: int, m: int|
                0 <= k < m < places.len() ==> earlier(#[trigger] places[k], #[trigger] places[m])
            &&& forall|i: int, p: Place|
                0 <= i < seen.len() && #[trigger] is_taken(seen[i], p) ==> places.contains(p)
                    != stood_at_start(s, p)
        }),
{
    let seen = looked_at(s, inputs, at);
    assert forall|i: int| 0 <= i < seen.len() implies can_follow(s, #[trigger] seen[i]) by {
        lemma_run_can_follow(s, inputs.take(at[i]));
    }
    assert forall|i: int, j: int| 0 <= i < j < seen.len() implies can_follow(
        #[trigger] seen[i],
        #[trigger] seen[j],
    ) by {
        let upto = inputs.take(at[j]);
        lemma_split(s, upto, at[i]);
        assert(upto.take(at[i]) =~= inputs.take(at[i]));
        lemma_run_can_follow(s, inputs.take(at[i]));
        lemma_run_can_follow(seen[i], upto.skip(at[i]));
    }
    law_each_close_is_told_once(s, seen, seen.len());
    let places = told_places(at_start(s), seen, seen.len());
    assert forall|i: int, p: Place| 0 <= i < seen.len() && #[trigger] is_taken(seen[i], p) implies places.contains(
        p,
    ) != stood_at_start(s, p) by {
        if places.contains(p) {
            let k = choose|k: int| 0 <= k < places.len() && places[k] == p;
            assert(!stood_at_start(s, places[k]));
        }
    }
}

/// The change of the total profit that the input at a place of a row asks for.
pub open spec fn pnl_at(s: StateView, inputs: Seq<Input>, i: int) -> PnlChange {
    match inputs[i] {
        Input::Deal { symbol, deal, now } => deal_pnl(after_inputs(s, inputs.take(i)), deal),
        _ => PnlChange::Unchanged,
    }
}

/// The input is a deal of an order.
pub open spec fn is_deal_of(input: Input, oid: Seq<char>) -> bool {
    match input {
        Input::Deal { symbol, deal, now } => deal is Some && deal->0.order_id == oid,
        _ => false,
    }
}

proof fn lemma_split(s: StateView, inputs: Seq<Input>, i: int)
    requires
        0 <= i <= inputs.len(),
    ensures
        after_inputs(s, inputs) == after_inputs(after_inputs(s, inputs.take(i)), inputs.skip(i)),
    decreases inputs.len() - i,
{
    if i == inputs.len() {
        assert(inputs.take(i) =~= inputs);
        assert(inputs.skip(i) =~= Seq::<Input>::empty());
    } else {
        let rest = inputs.drop_last();
        lemma_split(s, rest, i);
        assert(rest.take(i) =~= inputs.take(i));
        assert(inputs.skip(i).drop_last() =~= rest.skip(i));
        assert(inputs.skip(i).last() == inputs.last());
    }
}

/// In a whole run no order changes the total profit twice, however often the exchange
/// reports it.
pub proof fn law_no_order_is_booked_twice(
    s: StateView,
    inputs: Seq<Input>,
    oid: Seq<char>,
    i: int,
    j: int,
)
    requires
        0 <= i < j < inputs.len(),
        is_deal_of(inputs[i], oid),
        is_deal_of(inputs[j], oid),
        pnl_at(s, inputs, i) != PnlChange::Unchanged,
    ensures
        pnl_at(s, inputs, j) == PnlChange::Unchanged,
{
    let upto = inputs.take(i + 1);
    let mid = after_inputs(s, upto);
    assert(upto.drop_last() =~= inputs.take(i));
    assert(upto.last() == inputs[i]);
    assert(mid.corrected_oids.contains(oid));
    let before = inputs.take(j);
    lemma_split(s, before, i + 1);
    assert(before.take(i + 1) =~= upto);
    law_booked_orders_are_remembered(mid, before.skip(i + 1));
}

} // verus!
