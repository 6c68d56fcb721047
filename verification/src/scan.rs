//! A scan of tokens for wide spreads: the prices of each token on both exchanges, and
//! how often the spread was how wide.
use crate::double::{is_hundredths, law_sign_is_that_of_the_bits, Double};
use crate::json::{
    as_number, first, first_item, get, is_plain, json, law_plain_text_is_only_quoted, member, number_in, parse, parsed, quote, quoted, read_text, request,
    request_text, text_member, Json,
};
use crate::table::Table;
use crate::text::{join, joined, lower, lowered, same, trim_end, trimmed_end, views};
use vstd::prelude::*;
use vstd::string::*;

verus! {

/// How long a connection goes without a ping.
pub const PING_AFTER_NS: u128 = 15_000_000_000;

/// The pattern of 0.10, the smallest spread that is counted, in percent.
pub const WIDE: u64 = 0x3fb9_9999_9999_999a;

/// The pattern of 0.15.
pub const WIDER: u64 = 0x3fc3_3333_3333_3333;

/// The pattern of 0.20.
pub const WIDEST: u64 = 0x3fc9_9999_9999_999a;

/// The best prices of a token on both exchanges; zero where not known yet.
#[derive(Clone, Copy, Debug, PartialEq, Eq, Structural)]
pub struct PriceState {
    pub binance_bid: Double,
    pub binance_ask: Double,
    pub mexc_bid: Double,
    pub mexc_ask: Double,
}

/// How often the spread of a token was how wide.
#[derive(Clone, Copy, Debug, PartialEq, Eq, Structural)]
pub struct Stats {
    pub spread_count_010: u64,
    pub spread_count_015: u64,
    pub spread_count_020: u64,
    pub max_spread: Double,
    pub sample_count: u64,
}

/// No price is known.
pub open spec fn no_prices() -> PriceState {
    PriceState {
        binance_bid: Double { bits: 0 },
        binance_ask: Double { bits: 0 },
        mexc_bid: Double { bits: 0 },
        mexc_ask: Double { bits: 0 },
    }
}

/// No spread was seen.
pub open spec fn no_stats() -> Stats {
    Stats {
        spread_count_010: 0,
        spread_count_015: 0,
        spread_count_020: 0,
        max_spread: Double { bits: 0 },
        sample_count: 0,
    }
}

/// All four prices are there: none is zero or below.
pub open spec fn is_ready(p: PriceState) -> bool {
    let zero = Double { bits: 0 };
    &&& !p.binance_bid.at_most(zero)
    &&& !p.mexc_ask.at_most(zero)
    &&& !p.binance_ask.at_most(zero)
    &&& !p.mexc_bid.at_most(zero)
}

/// A count with one more if the spread reaches a level.
pub open spec fn counted(count: u64, level: u64, spread: Double) -> u64 {
    if (Double { bits: level }).at_most(spread) {
        (count + 1) as u64
    } else {
        count
    }
}

/// The counts after a spread.
pub open spec fn after_spread(st: Stats, spread: Double) -> Stats {
    Stats {
        spread_count_010: counted(st.spread_count_010, WIDE, spread),
        spread_count_015: counted(st.spread_count_015, WIDER, spread),
        spread_count_020: counted(st.spread_count_020, WIDEST, spread),
        max_spread: if st.max_spread.less(spread) {
            spread
        } else {
            st.max_spread
        },
        sample_count: (st.sample_count + 1) as u64,
    }
}

/// What holds of the counts at every time: a wider level was not reached more often
/// than a narrower one, and the widest spread is a number not below zero.
pub open spec fn sound(st: Stats) -> bool {
    &&& st.spread_count_020 <= st.spread_count_015 <= st.spread_count_010 <= st.sample_count
    &&& !st.max_spread.nan()
    &&& st.max_spread.rank() >= 0
}

/// The counts stay sound with every spread.
pub proof fn law_spreads_keep_the_counts_sound(st: Stats, spread: Double)
    requires
        sound(st),
        st.sample_count < u64::MAX,
    ensures
        sound(after_spread(st, spread)),
        st.max_spread.at_most(after_spread(st, spread).max_spread),
        !spread.nan() ==> spread.at_most(after_spread(st, spread).max_spread),
{
}

fn reaches(spread: &Double, level: u64) -> (r: u64)
    ensures
        r == (if (Double { bits: level }).at_most(*spread) {
            1u64
        } else {
            0u64
        }),
{
    let edge = Double { bits: level };
    if edge.le(spread) {
        1
    } else {
        0
    }
}

impl Stats {
    /// Takes in a spread, in percent.
    pub fn record(&mut self, spread: &Double)
        requires
            sound(*old(self)),
            old(self).sample_count < u64::MAX,
        ensures
            *final(self) == after_spread(*old(self), *spread),
            sound(*final(self)),
    {
        self.sample_count = self.sample_count + 1;
        if self.max_spread.lt(spread) {
            self.max_spread = *spread;
        }
        self.spread_count_010 = self.spread_count_010 + reaches(spread, WIDE);
        self.spread_count_015 = self.spread_count_015 + reaches(spread, WIDER);
        self.spread_count_020 = self.spread_count_020 + reaches(spread, WIDEST);
        proof {
            law_spreads_keep_the_counts_sound(*old(self), *spread);
        }
    }
}

/// The tokens of a scan, with their prices and counts.
pub struct Scan {
    pub prices: Table<PriceState>,
    pub stats: Table<Stats>,
}

/// What a scan holds.
#[verifier::ext_equal]
pub struct ScanView {
    pub prices: Map<Seq<char>, PriceState>,
    pub stats: Map<Seq<char>, Stats>,
}

impl View for Scan {
    type V = ScanView;

    open spec fn view(&self) -> ScanView {
        ScanView { prices: self.prices@, stats: self.stats@ }
    }
}

/// A scan that starts with some tokens.
pub open spec fn fresh(tokens: Seq<Seq<char>>) -> ScanView {
    ScanView {
        prices: Map::new(|k: Seq<char>| tokens.contains(k), |k: Seq<char>| no_prices()),
        stats: Map::new(|k: Seq<char>| tokens.contains(k), |k: Seq<char>| no_stats()),
    }
}

/// The scan after prices of Binance: only a token of the scan gets them.
pub open spec fn after_binance(s: ScanView, token: Seq<char>, bid: Double, ask: Double) -> ScanView {
    if s.prices.contains_key(token) {
        ScanView {
            prices: s.prices.insert(
                token,
                PriceState { binance_bid: bid, binance_ask: ask, ..s.prices[token] },
            ),
            ..s
        }
    } else {
        s
    }
}

/// The scan after prices of MEXC: only a token of the scan gets them.
pub open spec fn after_mexc(s: ScanView, token: Seq<char>, bid: Double, ask: Double) -> ScanView {
    if s.prices.contains_key(token) {
        ScanView {
            prices: s.prices.insert(
                token,
                PriceState { mexc_bid: bid, mexc_ask: ask, ..s.prices[token] },
            ),
            ..s
        }
    } else {
        s
    }
}

/// The spread of a token: the larger one of the two directions.
pub open spec fn wider(long: Double, short: Double) -> Double {
    long.larger(short)
}

/// What the spreads of a token in the two directions add to its average.
pub open spec fn share(long: Double, short: Double) -> Double {
    wider(long, short).larger(Double { bits: 0 })
}

/// The scan after the spreads of a token in the two directions.
pub open spec fn after_sample(s: ScanView, token: Seq<char>, long: Double, short: Double) -> ScanView {
    if s.stats.contains_key(token) {
        ScanView {
            stats: s.stats.insert(token, after_spread(s.stats[token], wider(long, short))),
            ..s
        }
    } else {
        s
    }
}

impl Scan {
    /// The tables are sound, and so are the counts.
    pub open spec fn wf(&self) -> bool {
        &&& self.prices.wf()
        &&& self.stats.wf()
        &&& forall|k: Seq<char>| #[trigger] self.stats@.contains_key(k) ==> sound(self.stats@[k])
    }

    /// A scan of some tokens.
    pub fn new(tokens: &Vec<String>) -> (s: Scan)
        ensures
            s.wf(),
            s@ == fresh(views(tokens@)),
    {
        let mut s = Scan { prices: Table::new(), stats: Table::new() };
        let zero = Double { bits: 0 };
        let mut i: usize = 0;
        assert(s@ =~= fresh(views(tokens@).take(0)));
        while i < tokens.len()
            invariant
                i <= tokens.len(),
                s.wf(),
                zero.bits == 0,
                s@ == fresh(views(tokens@).take(i as int)),
            decreases tokens.len() - i,
        {
            let ghost before = s@;
            s.prices.set(
                tokens[i].as_str(),
                PriceState { binance_bid: zero, binance_ask: zero, mexc_bid: zero, mexc_ask: zero },
            );
            s.stats.set(
                tokens[i].as_str(),
                Stats {
                    spread_count_010: 0,
                    spread_count_015: 0,
                    spread_count_020: 0,
                    max_spread: zero,
                    sample_count: 0,
                },
            );
            proof {
                let some = views(tokens@).take(i as int);
                let more = views(tokens@).take(i + 1);
                let new = tokens@[i as int]@;
                assert(more =~= some.push(new));
                assert forall|k: Seq<char>| more.contains(k) <==> some.contains(k) || k == new by {
                    if some.contains(k) {
                        let at = choose|at: int| 0 <= at < some.len() && some[at] == k;
                        assert(more[at] == k);
                    }
                    if k == new {
                        assert(more[i as int] == k);
                    }
                }
                assert(s@ =~= fresh(more));
            }
            i = i + 1;
        }
        assert(views(tokens@).take(tokens@.len() as int) =~= views(tokens@));
        s
    }

    /// Takes in prices of Binance.
    pub fn set_binance(&mut self, token: &str, bid: Double, ask: Double)
        requires
            old(self).wf(),
        ensures
            final(self).wf(),
            final(self)@ == after_binance(old(self)@, token@, bid, ask),
    {
        let ghost before = self@;
        match self.prices.get(token) {
            Some(p) => {
                let p = PriceState {
                    binance_bid: bid,
                    binance_ask: ask,
                    mexc_bid: p.mexc_bid,
                    mexc_ask: p.mexc_ask,
                };
                self.prices.set(token, p);
            },
            None => {},
        }
        assert(self@ =~= after_binance(before, token@, bid, ask));
    }

    /// Takes in prices of MEXC.
    pub fn set_mexc(&mut self, token: &str, bid: Double, ask: Double)
        requires
            old(self).wf(),
        ensures
            final(self).wf(),
            final(self)@ == after_mexc(old(self)@, token@, bid, ask),
    {
        let ghost before = self@;
        match self.prices.get(token) {
            Some(p) => {
                let p = PriceState {
                    binance_bid: p.binance_bid,
                    binance_ask: p.binance_ask,
                    mexc_bid: bid,
                    mexc_ask: ask,
                };
                self.prices.set(token, p);
            },
            None => {},
        }
        assert(self@ =~= after_mexc(before, token@, bid, ask));
    }

    /// The tokens whose spread can be taken, each once, with their prices.
    pub fn ready(&self) -> (r: Vec<(String, PriceState)>)
        requires
            self.wf(),
        ensures
            forall|i: int|
                0 <= i < r@.len() ==> {
                    let (token, p) = #[trigger] r@[i];
                    &&& self@.prices.contains_key(token@)
                    &&& p == self@.prices[token@]
                    &&& is_ready(p)
                },
            forall|k: Seq<char>| #[trigger]
                self@.prices.contains_key(k) && is_ready(self@.prices[k]) ==> exists|i: int|
                    0 <= i < r@.len() && (#[trigger] r@[i]).0@ == k,
            forall|i: int, j: int|
                0 <= i < j < r@.len() ==> (#[trigger] r@[i]).0@ != (#[trigger] r@[j]).0@,
    {
        let mut out: Vec<(String, PriceState)> = Vec::new();
        let zero = Double { bits: 0 };
        let ghost order = self.prices.order();
        let ghost all = self@.prices;
        proof {
            self.prices.lemma_order();
        }
        let n: usize = self.prices.len();
        let mut i: usize = 0;
        while i < n
            invariant
                i <= n,
                n == order.len(),
                zero.bits == 0,
                self.wf(),
                order == self.prices.order(),
                order.no_duplicates(),
                all == self@.prices,
                forall|k: Seq<char>| #[trigger] all.contains_key(k) <==> order.contains(k),
                forall|j: int|
                    0 <= j < out@.len() ==> {
                        let (token, p) = #[trigger] out@[j];
                        &&& all.contains_key(token@)
                        &&& p == all[token@]
                        &&& is_ready(p)
                        &&& order.take(i as int).contains(token@)
                    },
                forall|j: int|
                    0 <= j < i && is_ready(all[#[trigger] order[j]]) ==> exists|m: int|
                        0 <= m < out@.len() && (#[trigger] out@[m]).0@ == order[j],
                forall|j: int, m: int|
                    0 <= j < m < out@.len() ==> (#[trigger] out@[j]).0@ != (#[trigger] out@[m]).0@,
            decreases n - i,
        {
            let token = self.prices.key_at(i);
            let p = *self.prices.value_at(i);
            let ghost seen = out@;
            proof {
                assert(order.contains(order[i as int]));
                assert forall|k: Seq<char>| order.take(i as int).contains(k) implies order.take(
                    i + 1,
                ).contains(k) && k != order[i as int] by {
                    let at = choose|at: int| 0 <= at < i && order.take(i as int)[at] == k;
                    assert(order.take(i + 1)[at] == k);
                }
                assert(order.take(i + 1)[i as int] == order[i as int]);
            }
            if !p.binance_bid.le(&zero) && !p.mexc_ask.le(&zero) && !p.binance_ask.le(&zero)
                && !p.mexc_bid.le(&zero) {
                out.push((token.clone(), p));
                assert(out@[seen.len() as int].0@ == order[i as int]);
            }
            proof {
                assert forall|j: int| 0 <= j < i + 1 && is_ready(all[#[trigger] order[j]]) implies exists|
                    m: int,
                | 0 <= m < out@.len() && (#[trigger] out@[m]).0@ == order[j] by {
                    if j < i {
                        let m = choose|m: int|
                            0 <= m < seen.len() && (#[trigger] seen[m]).0@ == order[j];
                        assert(out@[m] == seen[m]);
                    }
                }
            }
            i = i + 1;
        }
        proof {
            assert forall|k: Seq<char>| #[trigger]
                all.contains_key(k) && is_ready(all[k]) implies exists|m: int|
                0 <= m < out@.len() && (#[trigger] out@[m]).0@ == k by {
                assert(order.contains(k));
                let j = choose|j: int| 0 <= j < order.len() && order[j] == k;
                assert(is_ready(all[order[j]]));
            }
        }
        out
    }

    /// Takes in the spreads of a token in the two directions, in percent. Returns what
    /// counts towards the average, for a token of the scan: the spread, but not less
    /// than zero.
    pub fn record(&mut self, token: &str, long: &Double, short: &Double) -> (r: Option<Double>)
        requires
            old(self).wf(),
            old(self)@.stats.contains_key(token@) ==> old(self)@.stats[token@].sample_count
                < u64::MAX,
        ensures
            final(self).wf(),
            final(self)@ == after_sample(old(self)@, token@, *long, *short),
            r is Some <==> old(self)@.stats.contains_key(token@),
            r matches Some(amount) ==> amount == share(*long, *short),
            r == (if old(self)@.stats.contains_key(token@) {
                Some(wider(*long, *short).larger(Double { bits: 0 }))
            } else {
                None
            }),
    {
        let ghost before = self@;
        let spread = long.max(short);
        let r = match self.stats.get(token) {
            Some(st) => {
                let mut st = *st;
                st.record(&spread);
                self.stats.set(token, st);
                Some(spread.max(&Double { bits: 0 }))
            },
            None => None,
        };
        assert(self@ =~= after_sample(before, token@, *long, *short));
        r
    }

    /// The tokens with their counts, those with more wide spreads first.
    pub fn ranking(&self) -> (r: Vec<(String, Stats)>)
        requires
            self.wf(),
        ensures
            descending(r@),
            forall|i: int|
                0 <= i < r@.len() ==> {
                    let (token, st) = #[trigger] r@[i];
                    &&& self@.stats.contains_key(token@)
                    &&& st == self@.stats[token@]
                },
            forall|k: Seq<char>| #[trigger]
                self@.stats.contains_key(k) ==> exists|i: int|
                    0 <= i < r@.len() && (#[trigger] r@[i]).0@ == k,
            forall|i: int, j: int|
                0 <= i < j < r@.len() ==> (#[trigger] r@[i]).0@ != (#[trigger] r@[j]).0@,
    {
        let mut out: Vec<(String, Stats)> = Vec::new();
        let ghost order = self.stats.order();
        let ghost all = self@.stats;
        proof {
            self.stats.lemma_order();
        }
        let n: usize = self.stats.len();
        let mut i: usize = 0;
        while i < n
            invariant
                i <= n,
                n == order.len(),
                self.wf(),
                order == self.stats.order(),
                order.no_duplicates(),
                all == self@.stats,
                forall|k: Seq<char>| #[trigger] all.contains_key(k) <==> order.contains(k),
                descending(out@),
                forall|j: int|
                    0 <= j < out@.len() ==> {
                        let (token, st) = #[trigger] out@[j];
                        &&& all.contains_key(token@)
                        &&& st == all[token@]
                        &&& order.take(i as int).contains(token@)
                    },
                forall|j: int|
                    0 <= j < i ==> exists|m: int|
                        0 <= m < out@.len() && (#[trigger] out@[m]).0@ == #[trigger] order[j],
                forall|j: int, m: int|
                    0 <= j < m < out@.len() ==> (#[trigger] out@[j]).0@ != (#[trigger] out@[m]).0@,
            decreases n - i,
        {
            let token = self.stats.key_at(i).clone();
            let st = *self.stats.value_at(i);
            let ghost was = out@;
            proof {
                assert(order.contains(order[i as int]));
                assert forall|k: Seq<char>| order.take(i as int).contains(k) implies order.take(
                    i + 1,
                ).contains(k) && k != order[i as int] by {
                    let at = choose|at: int| 0 <= at < i && order.take(i as int)[at] == k;
                    assert(order.take(i + 1)[at] == k);
                }
                assert(order.take(i + 1)[i as int] == order[i as int]);
            }
            place(&mut out, token, st);
            proof {
                let at = choose|at: int|
                    0 <= at <= was.len() && out@ == #[trigger] was.insert(at, (token, st));
                assert forall|j: int| 0 <= j < out@.len() implies {
                    let (token, st) = #[trigger] out@[j];
                    &&& all.contains_key(token@)
                    &&& st == all[token@]
                    &&& order.take(i + 1).contains(token@)
                } by {
                    if j < at {
                        assert(out@[j] == was[j]);
                    } else if j > at {
                        assert(out@[j] == was[j - 1]);
                    }
                }
                assert forall|j: int| 0 <= j < i + 1 implies exists|m: int|
                    0 <= m < out@.len() && (#[trigger] out@[m]).0@ == #[trigger] order[j] by {
                    if j < i {
                        let m = choose|m: int|
                            0 <= m < was.len() && (#[trigger] was[m]).0@ == order[j];
                        if m < at {
                            assert(out@[m] == was[m]);
                        } else {
                            assert(out@[m + 1] == was[m]);
                        }
                    } else {
                        assert(out@[at].0@ == order[j]);
                    }
                }
                assert forall|j: int, m: int| 0 <= j < m < out@.len() implies (
                #[trigger] out@[j]).0@ != (#[trigger] out@[m]).0@ by {
                    if j < at {
                        assert(out@[j] == was[j]);
                    } else if j > at {
                        assert(out@[j] == was[j - 1]);
                    }
                    if m < at {
                        assert(out@[m] == was[m]);
                    } else if m > at {
                        assert(out@[m] == was[m - 1]);
                    }
                }
            }
            i = i + 1;
        }
        proof {
            assert forall|k: Seq<char>| #[trigger] all.contains_key(k) implies exists|m: int|
                0 <= m < out@.len() && (#[trigger] out@[m]).0@ == k by {
                let j = choose|j: int| 0 <= j < order.len() && order[j] == k;
                assert(order[j] == k);
            }
        }
        out
    }
}

/// No entry has more wide spreads than an earlier one.
pub open spec fn descending(entries: Seq<(String, Stats)>) -> bool {
    forall|i: int, j: int|
        0 <= i < j < entries.len() ==> (#[trigger] entries[j]).1.spread_count_010 <= (
        #[trigger] entries[i]).1.spread_count_010
}

/// Puts an entry behind those with as many wide spreads or more.
fn place(entries: &mut Vec<(String, Stats)>, token: String, st: Stats)
    requires
        descending(old(entries)@),
    ensures
        descending(final(entries)@),
        exists|at: int|
            0 <= at <= old(entries)@.len() && final(entries)@ == #[trigger] old(entries)@.insert(
                at,
                (token, st),
            ),
{
    let ghost was = entries@;
    let mut at: usize = 0;
    while at < entries.len() && entries[at].1.spread_count_010 >= st.spread_count_010
        invariant
            at <= entries.len(),
            entries@ == was,
            forall|i: int|
                0 <= i < at ==> (#[trigger] was[i]).1.spread_count_010 >= st.spread_count_010,
        decreases entries.len() - at,
    {
        at = at + 1;
    }
    entries.insert(at, (token, st));
    assert(entries@ == was.insert(at as int, (token, st)));
}

/// A message of Binance with the prices of a token, as they were written.
#[derive(Debug)]
pub struct Ticker {
    pub token: String,
    pub bid: String,
    pub ask: String,
}

/// What such a message says.
pub open spec fn ticker_view(t: Option<Ticker>) -> Option<(Seq<char>, Seq<char>, Seq<char>)> {
    match t {
        Some(t) => Some((t.token@, t.bid@, t.ask@)),
        None => None,
    }
}

/// The token and the prices in a message of Binance, if all three are there as texts.
pub open spec fn ticker_of(message: Json) -> Option<(Seq<char>, Seq<char>, Seq<char>)> {
    match member(message, "data"@) {
        Some(data) => match (
            text_member(data, "s"@),
            text_member(data, "b"@),
            text_member(data, "a"@),
        ) {
            (Some(s), Some(b), Some(a)) => Some((trimmed_end(s, "USDT"@), b, a)),
            _ => None,
        },
        None => None,
    }
}

/// The token and the prices in a message of Binance.
pub fn ticker_in(v: &serde_json::Value) -> (r: Option<Ticker>)
    ensures
        ticker_view(r) == ticker_of(json(*v)),
{
    match get(v, "data") {
        Some(data) => match (read_text(data, "s"), read_text(data, "b"), read_text(data, "a")) {
            (Some(s), Some(bid), Some(ask)) => {
                proof {
                    reveal_strlit("USDT");
                }
                Some(Ticker { token: trim_end(s.as_str(), "USDT"), bid, ask })
            },
            _ => None,
        },
        None => None,
    }
}

/// Reads a message of Binance. One that is no JSON says nothing.
pub fn read_ticker(txt: &str) -> (r: Option<Ticker>)
    ensures
        ticker_view(r) == (match parsed(txt@) {
            Some(message) => ticker_of(message),
            None => None,
        }),
{
    match parse(txt) {
        Ok(v) => ticker_in(&v),
        Err(_) => None,
    }
}

/// A message of MEXC with the best prices of a token.
#[derive(Debug)]
pub struct Top {
    pub token: String,
    pub bid: Double,
    pub ask: Double,
}

/// What such a message says.
pub open spec fn top_view(t: Option<Top>) -> Option<(Seq<char>, Double, Double)> {
    match t {
        Some(t) => Some((t.token@, t.bid, t.ask)),
        None => None,
    }
}

/// The first item of the first item of a member.
pub open spec fn first_price(data: Json, side: Seq<char>) -> Option<Json> {
    match member(data, side) {
        Some(levels) => match first_item(levels) {
            Some(level) => first_item(level),
            None => None,
        },
        None => None,
    }
}

/// The best price of a side of a book, or zero where there is none.
pub open spec fn best_of(data: Json, side: Seq<char>) -> Double {
    match first_price(data, side) {
        Some(price) => match number_in(price) {
            Some(d) => d,
            None => Double { bits: 0 },
        },
        None => Double { bits: 0 },
    }
}

fn best_in(data: &serde_json::Value, side: &str) -> (r: Double)
    ensures
        r == best_of(json(*data), side@),
{
    let zero = Double { bits: 0 };
    match get(data, side) {
        Some(levels) => match first(levels) {
            Some(level) => match first(level) {
                Some(price) => match as_number(price) {
                    Some(d) => d,
                    None => zero,
                },
                None => zero,
            },
            None => zero,
        },
        None => zero,
    }
}

/// The token and the best prices in a message of MEXC, if it is one with a book of a
/// named symbol.
pub open spec fn top_of(message: Json) -> Option<(Seq<char>, Double, Double)> {
    if text_member(message, "channel"@) == Some("push.depth.full"@) {
        match (text_member(message, "symbol"@), member(message, "data"@)) {
            (Some(symbol), Some(data)) => Some(
                (trimmed_end(symbol, "_USDT"@), best_of(data, "bids"@), best_of(data, "asks"@)),
            ),
            _ => None,
        }
    } else {
        None
    }
}

/// The token and the best prices in a message of MEXC.
pub fn top_in(v: &serde_json::Value) -> (r: Option<Top>)
    ensures
        top_view(r) == top_of(json(*v)),
{
    match read_text(v, "channel") {
        Some(channel) => {
            if !same(channel.as_str(), "push.depth.full") {
                return None;
            }
        },
        None => {
            return None;
        },
    }
    match (read_text(v, "symbol"), get(v, "data")) {
        (Some(symbol), Some(data)) => {
            proof {
                reveal_strlit("_USDT");
            }
            Some(
                Top {
                    token: trim_end(symbol.as_str(), "_USDT"),
                    bid: best_in(data, "bids"),
                    ask: best_in(data, "asks"),
                },
            )
        },
        _ => None,
    }
}

/// Reads a message of MEXC. One that is no JSON says nothing.
pub fn read_top(txt: &str) -> (r: Option<Top>)
    ensures
        top_view(r) == (match parsed(txt@) {
            Some(message) => top_of(message),
            None => None,
        }),
{
    match parse(txt) {
        Ok(v) => top_in(&v),
        Err(_) => None,
    }
}

/// The streams of the best prices of tokens.
pub open spec fn streams(tokens: Seq<Seq<char>>) -> Seq<Seq<char>> {
    tokens.map_values(|t: Seq<char>| lowered(t) + "usdt@bookTicker"@)
}

/// The address at Binance of the best prices of all the tokens.
pub fn stream_url(tokens: &Vec<String>) -> (r: String)
    ensures
        r@ == "wss://fstream.binance.com/stream?streams="@ + joined(streams(views(tokens@)), "/"@),
{
    let ghost all = streams(views(tokens@));
    let mut names: Vec<String> = Vec::new();
    let mut i: usize = 0;
    while i < tokens.len()
        invariant
            i <= tokens.len(),
            all == streams(views(tokens@)),
            views(names@) == all.take(i as int),
        decreases tokens.len() - i,
    {
        let ghost before = names@;
        let mut name = lower(tokens[i].as_str());
        name.append("usdt@bookTicker");
        names.push(name);
        proof {
            assert(views(names@) =~= views(before).push(name@));
            assert(all.take(i + 1) =~= all.take(i as int).push(all[i as int]));
        }
        i = i + 1;
    }
    assert(views(names@) =~= all);
    let mut out = String::new();
    out.append("wss://fstream.binance.com/stream?streams=");
    out.append(join(&names, "/").as_str());
    assert(out@ =~= "wss://fstream.binance.com/stream?streams="@ + joined(all, "/"@));
    out
}

/// What MEXC is asked for: the first five levels of the book of a token.
pub open spec fn five_levels(token: Seq<char>) -> Seq<char> {
    "{\"limit\":5,\"symbol\":"@ + quoted(token + "_USDT"@) + "}"@
}

/// The request to MEXC for the book of a token.
pub fn depth_request(token: &str) -> (r: String)
    ensures
        r@ == request("sub.depth.full"@, five_levels(token@)),
{
    let mut symbol = String::new();
    symbol.append(token);
    symbol.append("_USDT");
    assert(symbol@ =~= token@ + "_USDT"@);
    let mut param = String::new();
    param.append("{\"limit\":5,\"symbol\":");
    param.append(quote(symbol.as_str()).as_str());
    param.append("}");
    assert(param@ =~= five_levels(token@));
    request_text("sub.depth.full", param.as_str())
}

/// Whether it is time for a ping, so long after the last one.
pub fn is_ping_due(elapsed_ns: u128) -> (r: bool)
    ensures
        r == (elapsed_ns > PING_AFTER_NS),
{
    elapsed_ns > PING_AFTER_NS
}

/// Prices of one exchange leave those of the other, the other tokens and the counts
/// as they are, and a scan keeps its tokens.
pub proof fn law_prices_concern_one_side(
    s: ScanView,
    token: Seq<char>,
    bid: Double,
    ask: Double,
    other: Seq<char>,
)
    ensures
        ({
            let b = after_binance(s, token, bid, ask);
            let m = after_mexc(s, token, bid, ask);
            &&& b.stats == s.stats && m.stats == s.stats
            &&& b.prices.dom() == s.prices.dom() && m.prices.dom() == s.prices.dom()
            &&& other != token ==> b.prices[other] == s.prices[other] && m.prices[other]
                == s.prices[other]
            &&& s.prices.contains_key(token) ==> {
                &&& b.prices[token].mexc_bid == s.prices[token].mexc_bid
                &&& b.prices[token].mexc_ask == s.prices[token].mexc_ask
                &&& m.prices[token].binance_bid == s.prices[token].binance_bid
                &&& m.prices[token].binance_ask == s.prices[token].binance_ask
            }
        }),
{
    let b = after_binance(s, token, bid, ask);
    let m = after_mexc(s, token, bid, ask);
    assert(b.prices.dom() =~= s.prices.dom());
    assert(m.prices.dom() =~= s.prices.dom());
}

/// The levels at which spreads are counted are 0.10, 0.15 and 0.20.
pub proof fn law_levels_are_hundredths()
    ensures
        is_hundredths(Double { bits: WIDE }, 10),
        is_hundredths(Double { bits: WIDER }, 15),
        is_hundredths(Double { bits: WIDEST }, 20),
{
}

/// The spread of a token is one of its two directions, and neither of them is above it.
pub proof fn law_spread_is_the_better_direction(long: Double, short: Double)
    ensures
        wider(long, short) == long || wider(long, short) == short,
        !long.nan() && !short.nan() ==> long.at_most(wider(long, short)) && short.at_most(
            wider(long, short),
        ),
        long.nan() ==> wider(long, short) == short,
        short.nan() && !long.nan() ==> wider(long, short) == long,
{
}

/// A sample of a token counts once at each level that either direction reaches, raises
/// the widest spread to the larger direction where that is wider, and touches no other
/// token and no price. A token that is not scanned is passed over.
pub proof fn law_sample_counts_either_direction(
    s: ScanView,
    token: Seq<char>,
    long: Double,
    short: Double,
    other: Seq<char>,
)
    requires
        other != token,
        s.stats.contains_key(token) ==> sound(s.stats[token]) && s.stats[token].sample_count
            < u64::MAX,
    ensures
        ({
            let after = after_sample(s, token, long, short);
            let was = s.stats[token];
            let is = after.stats[token];
            let reaches = |level: u64|
                (Double { bits: level }).at_most(long) || (Double { bits: level }).at_most(short);
            &&& s.stats.contains_key(token) ==> {
                &&& after.stats == s.stats.insert(token, is)
                &&& is.sample_count == was.sample_count + 1
                &&& is.spread_count_010 == was.spread_count_010 + (if reaches(
                    0x3fb9_9999_9999_999a,
                ) {
                    1int
                } else {
                    0
                })
                &&& is.spread_count_015 == was.spread_count_015 + (if reaches(
                    0x3fc3_3333_3333_3333,
                ) {
                    1int
                } else {
                    0
                })
                &&& is.spread_count_020 == was.spread_count_020 + (if reaches(
                    0x3fc9_9999_9999_999a,
                ) {
                    1int
                } else {
                    0
                })
                &&& is.max_spread == was.max_spread || is.max_spread == long || is.max_spread
                    == short
                &&& was.max_spread.at_most(is.max_spread)
                &&& !long.nan() ==> long.at_most(is.max_spread)
                &&& !short.nan() ==> short.at_most(is.max_spread)
            }
            &&& !s.stats.contains_key(token) ==> after == s
            &&& after.prices == s.prices
            &&& after.stats.contains_key(other) == s.stats.contains_key(other)
            &&& after.stats[other] == s.stats[other]
        }),
{
}

/// A token is sampled exactly if each exchange has a bid and an ask for it that are not
/// zero or below, however small and whichever exchange is dearer.
pub proof fn law_prices_above_zero_are_ready(p: PriceState)
    ensures
        is_ready(p) <==> {
            &&& p.binance_bid.nan() || p.binance_bid.positive()
            &&& p.binance_ask.nan() || p.binance_ask.positive()
            &&& p.mexc_bid.nan() || p.mexc_bid.positive()
            &&& p.mexc_ask.nan() || p.mexc_ask.positive()
        },
{
    law_sign_is_that_of_the_bits(p.binance_bid);
    law_sign_is_that_of_the_bits(p.binance_ask);
    law_sign_is_that_of_the_bits(p.mexc_bid);
    law_sign_is_that_of_the_bits(p.mexc_ask);
}

/// Prices of an exchange become the prices of a token of the scan; a token that is not
/// scanned is passed over.
pub proof fn law_prices_are_kept_for_scanned_tokens(
    s: ScanView,
    token: Seq<char>,
    bid: Double,
    ask: Double,
)
    ensures
        ({
            let b = after_binance(s, token, bid, ask);
            let m = after_mexc(s, token, bid, ask);
            &&& s.prices.contains_key(token) ==> {
                &&& b.prices.contains_key(token) && m.prices.contains_key(token)
                &&& b.prices[token].binance_bid == bid && b.prices[token].binance_ask == ask
                &&& m.prices[token].mexc_bid == bid && m.prices[token].mexc_ask == ask
            }
            &&& !s.prices.contains_key(token) ==> b == s && m == s
        }),
{
}

/// A scan starts with its tokens and no other, each without prices and without counts.
pub proof fn law_scan_starts_empty(tokens: Seq<Seq<char>>, k: Seq<char>)
    ensures
        fresh(tokens).prices.contains_key(k) <==> tokens.contains(k),
        fresh(tokens).stats.contains_key(k) <==> tokens.contains(k),
        tokens.contains(k) ==> {
            let p = fresh(tokens).prices[k];
            let st = fresh(tokens).stats[k];
            &&& p.binance_bid.bits == 0 && p.binance_ask.bits == 0
            &&& p.mexc_bid.bits == 0 && p.mexc_ask.bits == 0
            &&& st.sample_count == 0 && st.max_spread.bits == 0
            &&& st.spread_count_010 == 0 && st.spread_count_015 == 0 && st.spread_count_020 == 0
        },
{
}

/// In a ranking no token has more wide spreads than one that stands before it.
pub proof fn law_ranking_descends(entries: Seq<(String, Stats)>, i: int, j: int)
    requires
        descending(entries),
        0 <= i < j < entries.len(),
    ensures
        entries[j].1.spread_count_010 <= entries[i].1.spread_count_010,
{
}

/// A message of Binance brings prices exactly if its data names the symbol, the bid and
/// the ask as texts; the prices are handed on as they are written.
pub proof fn law_ticker_needs_all_three_texts(
    message: Json,
    data: Json,
    s: Seq<char>,
    b: Seq<char>,
    a: Seq<char>,
)
    ensures
        member(message, "data"@) == Some(data) && text_member(data, "s"@) == Some(s)
            && text_member(data, "b"@) == Some(b) && text_member(data, "a"@) == Some(a)
            ==> ticker_of(message) == Some((trimmed_end(s, "USDT"@), b, a)),
        member(message, "data"@) is None ==> ticker_of(message) is None,
        member(message, "data"@) == Some(data) && (text_member(data, "s"@) is None || text_member(
            data,
            "b"@,
        ) is None || text_member(data, "a"@) is None) ==> ticker_of(message) is None,
{
}

/// A message of MEXC brings prices exactly if it is one of the books and names its
/// symbol and its data; they are the first numbers of the first rows, or zero.
pub proof fn law_top_is_that_of_the_first_rows(
    message: Json,
    data: Json,
    symbol: Seq<char>,
    d: Double,
    row: Seq<Json>,
    rows: Seq<Json>,
    members: Map<Seq<char>, Json>,
    side: Seq<char>,
)
    ensures
        text_member(message, "channel"@) == Some("push.depth.full"@) && text_member(
            message,
            "symbol"@,
        ) == Some(symbol) && member(message, "data"@) == Some(data) ==> top_of(message) == Some(
            (trimmed_end(symbol, "_USDT"@), best_of(data, "bids"@), best_of(data, "asks"@)),
        ),
        text_member(message, "channel"@) != Some("push.depth.full"@) || text_member(
            message,
            "symbol"@,
        ) is None || member(message, "data"@) is None ==> top_of(message) is None,
        best_of(
            Json::Object(
                members.insert(
                    side,
                    Json::List(seq![Json::List(seq![Json::Number(d)] + row)] + rows),
                ),
            ),
            side,
        ) == d,
        !members.contains_key(side) ==> best_of(Json::Object(members), side).bits == 0,
        best_of(Json::Object(members.insert(side, Json::List(Seq::empty()))), side).bits == 0,
        best_of(Json::Object(members.insert(side, Json::Number(d))), side).bits == 0,
        best_of(
            Json::Object(members.insert(side, Json::List(seq![Json::Number(d)] + rows))),
            side,
        ).bits == 0,
        best_of(
            Json::Object(
                members.insert(
                    side,
                    Json::List(seq![Json::List(seq![Json::Text(symbol)] + row)] + rows),
                ),
            ),
            side,
        ).bits == 0,
        best_of(Json::Other, side).bits == 0,
{
    let r = seq![Json::Number(d)] + row;
    let t = seq![Json::Text(symbol)] + row;
    assert(r[0] == Json::Number(d));
    assert(t[0] == Json::Text(symbol));
    assert((seq![Json::List(r)] + rows)[0] == Json::List(r));
    assert((seq![Json::List(t)] + rows)[0] == Json::List(t));
    assert((seq![Json::Number(d)] + rows)[0] == Json::Number(d));
}

/// Each token has its stream in the address, in lower case and in order, and asks for
/// five levels of its book.
pub proof fn law_scan_asks_for_every_token(tokens: Seq<Seq<char>>, i: int)
    requires
        0 <= i < tokens.len(),
        is_plain(tokens[i]),
    ensures
        streams(tokens).len() == tokens.len(),
        streams(tokens)[i] == lowered(tokens[i]) + "usdt@bookTicker"@,
        five_levels(tokens[i]) == "{\"limit\":5,\"symbol\":\""@ + tokens[i] + "_USDT\"}"@,
{
    reveal_strlit("_USDT");
    let name = tokens[i] + "_USDT"@;
    assert(is_plain(name));
    law_plain_text_is_only_quoted(name);
    reveal_strlit("{\"limit\":5,\"symbol\":");
    reveal_strlit("{\"limit\":5,\"symbol\":\"");
    reveal_strlit("_USDT\"}");
    reveal_strlit("}");
    assert(five_levels(tokens[i]) =~= "{\"limit\":5,\"symbol\":\""@ + tokens[i] + "_USDT\"}"@);
}

/// What a scan and its messages say is what their fields hold.
pub proof fn law_scan_says_what_it_holds(s: Scan, t: Ticker, p: Top)
    ensures
        s@.prices == s.prices@ && s@.stats == s.stats@,
        ticker_view(Some(t)) == Some((t.token@, t.bid@, t.ask@)) && ticker_view(None) is None,
        top_view(Some(p)) == Some((p.token@, p.bid, p.ask)) && top_view(None) is None,
{
}

/// A best price other than zero is the first number of the first row of its side.
pub proof fn law_best_price_stands_in_the_first_row(data: Json, side: Seq<char>)
    requires
        best_of(data, side).bits != 0,
    ensures
        data is Object,
        data->Object_0.contains_key(side),
        data->Object_0[side] is List,
        data->Object_0[side]->List_0.len() > 0,
        data->Object_0[side]->List_0[0] is List,
        data->Object_0[side]->List_0[0]->List_0.len() > 0,
        data->Object_0[side]->List_0[0]->List_0[0] == Json::Number(best_of(data, side)),
{
}

/// A spread above zero, in either direction, adds itself to the average, the larger one
/// of the two; where neither is above zero nothing is added.
pub proof fn law_average_takes_spreads_above_zero(long: Double, short: Double)
    ensures
        long.positive() && !long.less(short) ==> share(long, short) == long,
        short.positive() && long.less(short) ==> share(long, short) == short,
        long.nan() && short.positive() ==> share(long, short) == short,
        !long.positive() && !short.positive() ==> share(long, short).zero(),
        !share(long, short).less(Double { bits: 0 }),
{
}

} // verus!
