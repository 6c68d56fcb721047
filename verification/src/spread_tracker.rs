//! Statistics of the spreads between the exchanges: how often each size of spread
//! was seen, and how long the larger ones lasted.
use crate::binance::ws::{after_ticker, kept, quote_of, BookTicker};
use crate::double::{is_hundredths, law_sign_is_that_of_the_bits, Double};
use crate::mexc::ws_public::{after_depth, book_key, new_book, replaces, top, DepthFullPush};
use crate::state::{PriceData, State, StateView};
use crate::table::Table;
use crate::text::{before, comes_before, law_order_is_total, law_order_is_transitive};
use vstd::prelude::*;
use vstd::string::*;

verus! {

/// How many closed events are kept for a symbol.
pub const MAX_EVENTS_PER_SYMBOL: usize = 1000;

/// How many buckets the histogram has.
pub const BUCKETS: usize = 11;

/// A bucket of the histogram: a range of spreads, and how often one was seen.
#[derive(Clone, Debug)]
pub struct Bucket {
    pub range: String,
    pub count: u64,
}

impl Default for Bucket {
    /// A bucket without a range, in which nothing was counted.
    fn default() -> (b: Bucket)
        ensures
            b.range@ == Seq::<char>::empty(),
            b.count == 0,
    {
        Bucket { range: String::new(), count: 0 }
    }
}

/// A time during which the spread was wide, and is no more.
#[derive(Clone, Copy, Debug, PartialEq, Eq, Structural)]
pub struct SpreadEvent {
    pub start_ms: u64,
    pub max_pct: Double,
    pub duration_ms: u64,
    /// The spread has come back.
    pub converged: bool,
}

/// A time during which the spread is wide.
#[derive(Clone, Copy, Debug, PartialEq, Eq, Structural)]
pub struct CurrentEvent {
    pub start_ms: u64,
    pub max_pct: Double,
}

/// What is known of the spreads of one symbol.
#[derive(Debug)]
pub struct SymbolStats {
    pub samples: u64,
    pub histogram: [u64; 11],
    pub max_seen: Double,
    pub events: Vec<SpreadEvent>,
    pub current_event: Option<CurrentEvent>,
}

/// The statistics of every symbol.
pub type Tracker = Table<SymbolStats>;

/// What the statistics say.
#[verifier::ext_equal]
pub struct StatsView {
    pub samples: u64,
    pub histogram: Seq<u64>,
    pub max_seen: Double,
    pub events: Seq<SpreadEvent>,
    pub current_event: Option<CurrentEvent>,
}

impl View for SymbolStats {
    type V = StatsView;

    open spec fn view(&self) -> StatsView {
        StatsView {
            samples: self.samples,
            histogram: self.histogram@,
            max_seen: self.max_seen,
            events: self.events@,
            current_event: self.current_event,
        }
    }
}

/// The upper edges of the buckets, in percent: 0.01, 0.02 and so on to 0.10, each as
/// the nearest double. The last bucket has none.
pub open spec fn edge(i: int) -> Double {
    if i == 0 {
        Double { bits: 0x3f84_7ae1_47ae_147b }
    } else if i == 1 {
        Double { bits: 0x3f94_7ae1_47ae_147b }
    } else if i == 2 {
        Double { bits: 0x3f9e_b851_eb85_1eb8 }
    } else if i == 3 {
        Double { bits: 0x3fa4_7ae1_47ae_147b }
    } else if i == 4 {
        Double { bits: 0x3fa9_9999_9999_999a }
    } else if i == 5 {
        Double { bits: 0x3fae_b851_eb85_1eb8 }
    } else if i == 6 {
        Double { bits: 0x3fb1_eb85_1eb8_51ec }
    } else if i == 7 {
        Double { bits: 0x3fb4_7ae1_47ae_147b }
    } else if i == 8 {
        Double { bits: 0x3fb7_0a3d_70a3_d70a }
    } else {
        Double { bits: 0x3fb9_9999_9999_999a }
    }
}

/// The upper edge of a bucket that has one.
pub fn edge_at(i: usize) -> (r: Double)
    requires
        i < 10,
    ensures
        r == edge(i as int),
{
    if i == 0 {
        Double { bits: 0x3f84_7ae1_47ae_147b }
    } else if i == 1 {
        Double { bits: 0x3f94_7ae1_47ae_147b }
    } else if i == 2 {
        Double { bits: 0x3f9e_b851_eb85_1eb8 }
    } else if i == 3 {
        Double { bits: 0x3fa4_7ae1_47ae_147b }
    } else if i == 4 {
        Double { bits: 0x3fa9_9999_9999_999a }
    } else if i == 5 {
        Double { bits: 0x3fae_b851_eb85_1eb8 }
    } else if i == 6 {
        Double { bits: 0x3fb1_eb85_1eb8_51ec }
    } else if i == 7 {
        Double { bits: 0x3fb4_7ae1_47ae_147b }
    } else if i == 8 {
        Double { bits: 0x3fb7_0a3d_70a3_d70a }
    } else {
        Double { bits: 0x3fb9_9999_9999_999a }
    }
}

/// An event starts at a spread of 0.05 %.
pub open spec fn trigger_level() -> Double {
    edge(4)
}

/// An event is significant from 0.10 % on.
pub open spec fn significant_level() -> Double {
    edge(9)
}

/// The widths at which the events are counted, in percent: 0.05, 0.10 and so on to
/// 0.30, each as the nearest double.
pub open spec fn threshold(i: int) -> Double {
    if i == 0 {
        Double { bits: 0x3fa9_9999_9999_999a }
    } else if i == 1 {
        Double { bits: 0x3fb9_9999_9999_999a }
    } else if i == 2 {
        Double { bits: 0x3fc3_3333_3333_3333 }
    } else if i == 3 {
        Double { bits: 0x3fc9_9999_9999_999a }
    } else if i == 4 {
        Double { bits: 0x3fd0_0000_0000_0000 }
    } else {
        Double { bits: 0x3fd3_3333_3333_3333 }
    }
}

/// A spread is counted in bucket `b`: below the edge of that bucket and of none
/// before. What is below no edge is counted in the last bucket.
pub open spec fn in_bucket(spread: Double, b: int) -> bool {
    &&& 0 <= b < BUCKETS
    &&& b < 10 ==> spread.less(edge(b))
    &&& forall|i: int| 0 <= i < b ==> !spread.less(#[trigger] edge(i))
}

/// The bucket in which a spread is counted.
pub open spec fn bucket(spread: Double) -> int {
    choose|b: int| in_bucket(spread, b)
}

/// The bucket in which a spread is counted.
pub fn bucket_of(spread: &Double) -> (b: usize)
    ensures
        in_bucket(*spread, b as int),
        b == bucket(*spread),
{
    let mut b: usize = 0;
    while b < 10 && !spread.lt(&edge_at(b))
        invariant
            b <= 10,
            forall|i: int| 0 <= i < b ==> !spread.less(#[trigger] edge(i)),
        decreases 10 - b,
    {
        b = b + 1;
    }
    proof {
        assert(in_bucket(*spread, b as int));
        law_bucket_is_unique(*spread, b as int, bucket(*spread));
    }
    b
}

proof fn lemma_some_bucket(spread: Double, from: int)
    requires
        0 <= from <= 10,
        forall|i: int| 0 <= i < from ==> !spread.less(#[trigger] edge(i)),
    ensures
        exists|b: int| in_bucket(spread, b),
    decreases 10 - from,
{
    if from == 10 || spread.less(edge(from)) {
        assert(in_bucket(spread, from));
    } else {
        lemma_some_bucket(spread, from + 1);
    }
}

/// Every spread is counted in some bucket.
pub proof fn law_every_spread_has_a_bucket(spread: Double)
    ensures
        in_bucket(spread, bucket(spread)),
{
    lemma_some_bucket(spread, 0);
}

/// A spread is counted in one bucket only.
pub proof fn law_bucket_is_unique(spread: Double, a: int, b: int)
    requires
        in_bucket(spread, a),
        in_bucket(spread, b),
    ensures
        a == b,
{
    if a < b {
        assert(!spread.less(edge(a)));
    } else if b < a {
        assert(!spread.less(edge(b)));
    }
}

/// The events with one more, of which only the newest are kept.
pub open spec fn keep_newest(events: Seq<SpreadEvent>, e: SpreadEvent) -> Seq<SpreadEvent> {
    let all = events.push(e);
    if all.len() > MAX_EVENTS_PER_SYMBOL {
        all.remove(0)
    } else {
        all
    }
}

/// What an event is once it is over.
pub open spec fn ended(ce: CurrentEvent, now: u64) -> SpreadEvent {
    SpreadEvent {
        start_ms: ce.start_ms,
        max_pct: ce.max_pct,
        duration_ms: if now < ce.start_ms {
            0
        } else {
            (now - ce.start_ms) as u64
        },
        converged: true,
    }
}

/// The event that is under way after a spread: a wide one starts or goes on, and any
/// other ends it.
pub open spec fn event_after(
    current: Option<CurrentEvent>,
    spread: Double,
    now: u64,
) -> Option<CurrentEvent> {
    if trigger_level().at_most(spread) {
        match current {
            Some(ce) => Some(
                CurrentEvent {
                    max_pct: if ce.max_pct.less(spread) {
                        spread
                    } else {
                        ce.max_pct
                    },
                    ..ce
                },
            ),
            None => Some(CurrentEvent { start_ms: now, max_pct: spread }),
        }
    } else {
        None
    }
}

/// The statistics after a spread, given without its sign.
pub open spec fn after_sample(st: StatsView, spread: Double, now: u64) -> StatsView {
    StatsView {
        samples: (st.samples + 1) as u64,
        histogram: st.histogram.update(
            bucket(spread),
            (st.histogram[bucket(spread)] + 1) as u64,
        ),
        max_seen: if st.max_seen.less(spread) {
            spread
        } else {
            st.max_seen
        },
        events: match st.current_event {
            Some(ce) if !trigger_level().at_most(spread) => keep_newest(st.events, ended(ce, now)),
            _ => st.events,
        },
        current_event: event_after(st.current_event, spread, now),
    }
}

/// The sum of some counts.
pub open spec fn total(counts: Seq<u64>) -> int
    decreases counts.len(),
{
    if counts.len() == 0 {
        0
    } else {
        total(counts.drop_last()) + counts.last()
    }
}

proof fn lemma_total_of_update(counts: Seq<u64>, i: int, v: u64)
    requires
        0 <= i < counts.len(),
    ensures
        total(counts.update(i, v)) == total(counts) - counts[i] + v,
    decreases counts.len(),
{
    if i == counts.len() - 1 {
        assert(counts.update(i, v).drop_last() =~= counts.drop_last());
    } else {
        assert(counts.update(i, v).drop_last() =~= counts.drop_last().update(i, v));
        lemma_total_of_update(counts.drop_last(), i, v);
    }
}

proof fn lemma_total_bounds(counts: Seq<u64>)
    ensures
        total(counts) >= 0,
        forall|i: int| 0 <= i < counts.len() ==> #[trigger] counts[i] <= total(counts),
    decreases counts.len(),
{
    if counts.len() > 0 {
        lemma_total_bounds(counts.drop_last());
        assert forall|i: int| 0 <= i < counts.len() implies #[trigger] counts[i] <= total(
            counts,
        ) by {
            if i < counts.len() - 1 {
                assert(counts.drop_last()[i] == counts[i]);
            }
        }
    }
}

impl StatsView {
    /// What holds of the statistics at every time: each sample is in one bucket, the
    /// events are the newest ones, each had a wide spread and has converged, and no
    /// event was wider than the widest spread seen.
    pub open spec fn sound(self) -> bool {
        &&& self.histogram.len() == BUCKETS
        &&& total(self.histogram) == self.samples
        &&& !self.max_seen.nan()
        &&& self.events.len() <= MAX_EVENTS_PER_SYMBOL
        &&& forall|i: int|
            0 <= i < self.events.len() ==> {
                let e = #[trigger] self.events[i];
                &&& e.converged
                &&& trigger_level().at_most(e.max_pct)
                &&& e.max_pct.at_most(self.max_seen)
            }
        &&& self.current_event matches Some(ce) ==> {
            &&& trigger_level().at_most(ce.max_pct)
            &&& ce.max_pct.at_most(self.max_seen)
        }
    }
}

/// The statistics stay sound with every spread.
pub proof fn law_samples_keep_the_statistics_sound(st: StatsView, spread: Double, now: u64)
    requires
        st.sound(),
        st.samples < u64::MAX,
    ensures
        after_sample(st, spread, now).sound(),
{
    law_every_spread_has_a_bucket(spread);
    let b = bucket(spread);
    lemma_total_bounds(st.histogram);
    assert(st.histogram[b] <= total(st.histogram));
    lemma_total_of_update(st.histogram, b, (st.histogram[b] + 1) as u64);
}

impl SymbolStats {
    /// Statistics of a symbol that was not seen yet.
    pub fn new() -> (st: SymbolStats)
        ensures
            st@.sound(),
            st.samples == 0,
            st.histogram@ == Seq::new(BUCKETS as nat, |i: int| 0u64),
            st.max_seen == (Double { bits: 0 }),
            st.events@ == Seq::<SpreadEvent>::empty(),
            st.current_event is None,
    {
        let st = SymbolStats {
            samples: 0,
            histogram: [0, 0, 0, 0, 0, 0, 0, 0, 0, 0, 0],
            max_seen: Double { bits: 0 },
            events: Vec::new(),
            current_event: None,
        };
        assert(st.histogram@ =~= Seq::new(BUCKETS as nat, |i: int| 0u64));
        assert(total(st.histogram@) == 0) by {
            reveal_with_fuel(total, 12);
        }
        st
    }

    /// Takes in a spread, given without its sign, at the time `now`.
    pub fn record(&mut self, spread: &Double, now: u64)
        requires
            old(self)@.sound(),
            old(self).samples < u64::MAX,
        ensures
            final(self)@ == after_sample(old(self)@, *spread, now),
            final(self)@.sound(),
    {
        let ghost before = self@;
        self.samples = self.samples + 1;
        if self.max_seen.lt(spread) {
            self.max_seen = *spread;
        }
        let b: usize = bucket_of(spread);
        proof {
            lemma_total_bounds(before.histogram);
        }
        let count: u64 = self.histogram[b];
        assert(count == before.histogram[b as int]);
        self.histogram[b] = count + 1;
        if edge_at(4).le(spread) {
            match self.current_event {
                Some(ce) => {
                    if ce.max_pct.lt(spread) {
                        self.current_event = Some(
                            CurrentEvent { start_ms: ce.start_ms, max_pct: *spread },
                        );
                    }
                },
                None => {
                    self.current_event = Some(CurrentEvent { start_ms: now, max_pct: *spread });
                },
            }
        } else {
            match self.current_event {
                Some(ce) => {
                    self.current_event = None;
                    self.events.push(
                        SpreadEvent {
                            start_ms: ce.start_ms,
                            max_pct: ce.max_pct,
                            duration_ms: now.saturating_sub(ce.start_ms),
                            converged: true,
                        },
                    );
                    if self.events.len() > MAX_EVENTS_PER_SYMBOL {
                        self.events.remove(0);
                    }
                },
                None => {},
            }
        }
        proof {
            assert(self@ =~= after_sample(before, *spread, now));
            law_samples_keep_the_statistics_sound(before, *spread, now);
        }
    }
}

impl Default for SymbolStats {
    /// Statistics of a symbol that was not seen yet.
    fn default() -> (st: SymbolStats)
        ensures
            st@ == unseen(),
            st@.sound(),
    {
        let st = SymbolStats::new();
        assert(st@ =~= unseen());
        st
    }
}

/// The statistics of every symbol, as what they say.
pub open spec fn stats(t: Tracker) -> Map<Seq<char>, StatsView> {
    t@.map_values(|st: SymbolStats| st@)
}

/// A sound table of sound statistics.
pub open spec fn tracker_sound(t: Tracker) -> bool {
    t.wf() && forall|k: Seq<char>| #[trigger] t@.contains_key(k) ==> t@[k]@.sound()
}

/// Statistics of no symbol.
pub fn new_tracker() -> (t: Tracker)
    ensures
        tracker_sound(t),
        stats(t) == Map::<Seq<char>, StatsView>::empty(),
{
    let t: Tracker = Table::new();
    assert(stats(t) =~= Map::<Seq<char>, StatsView>::empty());
    t
}

/// What is said of a symbol that was not seen yet.
pub open spec fn unseen() -> StatsView {
    StatsView {
        samples: 0,
        histogram: Seq::new(BUCKETS as nat, |i: int| 0u64),
        max_seen: Double { bits: 0 },
        events: Seq::empty(),
        current_event: None,
    }
}

/// What is known of a symbol.
pub open spec fn known(all: Map<Seq<char>, StatsView>, symbol: Seq<char>) -> StatsView {
    if all.contains_key(symbol) {
        all[symbol]
    } else {
        unseen()
    }
}

/// The spread between the exchanges: the larger one of the two directions, without
/// its sign.
pub open spec fn spread_of(long: Double, short: Double) -> Double {
    long.larger(short).absolute()
}

/// Takes in the spreads of a symbol in the two directions, in percent, at the time
/// `now`.
pub fn record_spread(tracker: &mut Tracker, symbol: &str, long: &Double, short: &Double, now: u64)
    requires
        tracker_sound(*old(tracker)),
        known(stats(*old(tracker)), symbol@).samples < u64::MAX,
    ensures
        tracker_sound(*final(tracker)),
        stats(*final(tracker)) == stats(*old(tracker)).insert(
            symbol@,
            after_sample(known(stats(*old(tracker)), symbol@), spread_of(*long, *short), now),
        ),
{
    let ghost before = *tracker;
    let spread = long.max(short).abs();
    match tracker.find(symbol) {
        Some(i) => {
            let st = tracker.value_mut(i);
            st.record(&spread, now);
        },
        None => {
            let mut st = SymbolStats::new();
            assert(st@ =~= unseen());
            st.record(&spread, now);
            tracker.set(symbol, st);
        },
    }
    assert(stats(*tracker) =~= stats(before).insert(
        symbol@,
        after_sample(known(stats(before), symbol@), spread_of(*long, *short), now),
    ));
}

/// A spread, without its sign, and the time at which it was taken.
pub struct Sample {
    pub spread: Double,
    pub now: u64,
}

/// The statistics after a row of samples.
pub open spec fn after_samples(st: StatsView, samples: Seq<Sample>) -> StatsView
    decreases samples.len(),
{
    if samples.len() == 0 {
        st
    } else {
        after_sample(
            after_samples(st, samples.drop_last()),
            samples.last().spread,
            samples.last().now,
        )
    }
}

/// The clock never goes back.
pub open spec fn in_time(samples: Seq<Sample>) -> bool {
    forall|i: int, j: int|
        0 <= i < j < samples.len() ==> (#[trigger] samples[i]).now <= (#[trigger] samples[j]).now
}

/// When an event was over.
pub open spec fn end_of(e: SpreadEvent) -> int {
    e.start_ms + e.duration_ms
}

/// The events stand one after the other: each was over before the next one started,
/// and all were over before the current one did, which has started by `now`.
pub open spec fn chronological(st: StatsView, now: u64) -> bool {
    &&& forall|i: int, j: int|
        0 <= i < j < st.events.len() ==> end_of(#[trigger] st.events[i]) <= (
        #[trigger] st.events[j]).start_ms
    &&& forall|i: int| 0 <= i < st.events.len() ==> end_of(#[trigger] st.events[i]) <= now
    &&& st.current_event matches Some(ce) ==> {
        &&& ce.start_ms <= now
        &&& forall|i: int|
            0 <= i < st.events.len() ==> end_of(#[trigger] st.events[i]) <= ce.start_ms
    }
}

/// As long as the clock never goes back, the events of a symbol stand in the order in
/// which they started, none starts before the one ahead of it is over, and none starts
/// after the current one or after the last sample. All of them are sound.
pub proof fn law_events_are_chronological(samples: Seq<Sample>)
    requires
        0 < samples.len() <= u64::MAX,
        in_time(samples),
    ensures
        chronological(after_samples(unseen(), samples), samples.last().now),
        after_samples(unseen(), samples).sound(),
        after_samples(unseen(), samples).samples == samples.len(),
    decreases samples.len(),
{
    let rest = samples.drop_last();
    let s = samples.last();
    if rest.len() == 0 {
        assert(unseen().sound()) by {
            reveal_with_fuel(total, 12);
        }
        assert(rest =~= Seq::<Sample>::empty());
    } else {
        assert forall|i: int, j: int| 0 <= i < j < rest.len() implies (#[trigger] rest[i]).now <= (
        #[trigger] rest[j]).now by {
            assert(samples[i].now <= samples[j].now);
        }
        law_events_are_chronological(rest);
        assert(samples[rest.len() - 1].now <= samples[rest.len() as int].now);
    }
    let before = after_samples(unseen(), rest);
    law_samples_keep_the_statistics_sound(before, s.spread, s.now);
    let after = after_samples(unseen(), samples);
    if before.current_event is Some && !trigger_level().at_most(s.spread) {
        let all = before.events.push(ended(before.current_event->0, s.now));
        assert forall|i: int, j: int| 0 <= i < j < all.len() implies end_of(#[trigger] all[i]) <= (
        #[trigger] all[j]).start_ms by {}
        assert forall|i: int, j: int| 0 <= i < j < after.events.len() implies end_of(
            #[trigger] after.events[i],
        ) <= (#[trigger] after.events[j]).start_ms by {
            if all.len() > MAX_EVENTS_PER_SYMBOL {
                assert(after.events[i] == all[i + 1] && after.events[j] == all[j + 1]);
            }
        }
    }
}

/// A sample adds an event only where one was under way and the spread is narrow again,
/// and then, once there are as many as are kept, drops the oldest one and no other.
pub proof fn law_only_a_return_adds_an_event(st: StatsView, spread: Double, now: u64)
    requires
        st.sound(),
    ensures
        ({
            let after = after_sample(st, spread, now);
            let ends = st.current_event is Some && !trigger_level().at_most(spread);
            &&& !ends ==> after.events == st.events
            &&& ends && st.events.len() < MAX_EVENTS_PER_SYMBOL ==> after.events == st.events.push(
                ended(st.current_event->0, now),
            )
            &&& ends && st.events.len() == MAX_EVENTS_PER_SYMBOL ==> after.events == st.events.skip(
                1,
            ).push(ended(st.current_event->0, now))
            &&& after.current_event is Some <==> trigger_level().at_most(spread)
        }),
{
    if st.current_event is Some && st.events.len() == MAX_EVENTS_PER_SYMBOL {
        let e = ended(st.current_event->0, now);
        assert(st.events.push(e).remove(0) =~= st.events.skip(1).push(e));
    }
}

/// All spreads of a row are wide.
pub open spec fn all_wide(row: Seq<Sample>) -> bool {
    forall|i: int| 0 <= i < row.len() ==> trigger_level().at_most((#[trigger] row[i]).spread)
}

/// `m` is the greatest spread of a row.
pub open spec fn is_greatest(row: Seq<Sample>, m: Double) -> bool {
    &&& exists|i: int| 0 <= i < row.len() && (#[trigger] row[i]).spread == m
    &&& forall|i: int| 0 <= i < row.len() ==> (#[trigger] row[i]).spread.at_most(m)
}

proof fn lemma_wide_row(st: StatsView, row: Seq<Sample>)
    requires
        st.current_event is None,
        row.len() > 0,
        all_wide(row),
    ensures
        after_samples(st, row).events == st.events,
        after_samples(st, row).current_event matches Some(ce) && ce.start_ms == row[0].now
            && is_greatest(row, ce.max_pct),
    decreases row.len(),
{
    let rest = row.drop_last();
    let last = row.len() - 1;
    assert(row[last] == row.last());
    if rest.len() == 0 {
        assert(rest =~= Seq::<Sample>::empty());
        assert(after_samples(st, rest) == st);
        assert(row[0].spread == row.last().spread);
    } else {
        assert(all_wide(rest)) by {
            assert forall|i: int| 0 <= i < rest.len() implies trigger_level().at_most(
                (#[trigger] rest[i]).spread,
            ) by {
                assert(rest[i] == row[i]);
            }
        }
        lemma_wide_row(st, rest);
        let was = after_samples(st, rest).current_event->0.max_pct;
        let ce = after_samples(st, row).current_event->0;
        let i = choose|i: int| 0 <= i < rest.len() && (#[trigger] rest[i]).spread == was;
        assert(row[i] == rest[i]);
        assert forall|j: int| 0 <= j < row.len() implies (#[trigger] row[j]).spread.at_most(
            ce.max_pct,
        ) by {
            if j < last {
                assert(rest[j] == row[j]);
            }
        }
        if was.less(row[last].spread) {
            assert(row[last].spread == ce.max_pct);
        } else {
            assert(row[i].spread == ce.max_pct);
        }
    }
}

/// A row of wide spreads is one event. While the row lasts the event is under way, since
/// the first sample and as wide as the widest so far, and no event is added; the first
/// narrow spread adds exactly that event, with the time that has passed since.
pub proof fn law_wide_row_is_one_event(st: StatsView, row: Seq<Sample>, back: Sample)
    requires
        st.sound(),
        st.current_event is None,
        row.len() > 0,
        all_wide(row),
        !trigger_level().at_most(back.spread),
        row[0].now <= back.now,
    ensures
        forall|n: int|
            0 < n <= row.len() ==> {
                let during = after_samples(st, #[trigger] row.take(n));
                &&& during.events == st.events
                &&& during.current_event matches Some(ce) && ce.start_ms == row[0].now
                    && is_greatest(row.take(n), ce.max_pct)
            },
        ({
            let after = after_samples(st, row.push(back));
            let e = after.events.last();
            &&& after.current_event is None
            &&& after.events == keep_newest(st.events, e)
            &&& e.start_ms == row[0].now
            &&& e.duration_ms == back.now - row[0].now
            &&& e.converged
            &&& is_greatest(row, e.max_pct)
        }),
{
    assert forall|n: int| 0 < n <= row.len() implies {
        let during = after_samples(st, #[trigger] row.take(n));
        &&& during.events == st.events
        &&& during.current_event matches Some(ce) && ce.start_ms == row[0].now && is_greatest(
            row.take(n),
            ce.max_pct,
        )
    } by {
        let part = row.take(n);
        assert forall|i: int| 0 <= i < part.len() implies trigger_level().at_most(
            (#[trigger] part[i]).spread,
        ) by {
            assert(part[i] == row[i]);
        }
        lemma_wide_row(st, part);
        assert(part[0] == row[0]);
    }
    lemma_wide_row(st, row);
    let all = row.push(back);
    assert(all.drop_last() =~= row);
    let ce = after_samples(st, row).current_event->0;
    let e = ended(ce, back.now);
    assert(keep_newest(st.events, e).last() == e);
}

/// A symbol with its prices on both exchanges.
#[derive(Debug)]
pub struct Pair {
    pub symbol: String,
    pub mexc: PriceData,
    pub binance: PriceData,
}

/// Neither price is zero or below.
pub open spec fn usable(p: PriceData) -> bool {
    !p.bid.at_most(Double { bits: 0 }) && !p.ask.at_most(Double { bits: 0 })
}

/// A symbol whose spread can be taken: both exchanges have usable prices for it.
pub open spec fn comparable(
    mexc: Map<Seq<char>, PriceData>,
    binance: Map<Seq<char>, PriceData>,
    symbol: Seq<char>,
) -> bool {
    &&& mexc.contains_key(symbol)
    &&& binance.contains_key(symbol)
    &&& usable(mexc[symbol])
    &&& usable(binance[symbol])
}

/// Whether prices are usable.
pub fn is_usable(p: &PriceData) -> (r: bool)
    ensures
        r == usable(*p),
{
    let zero = Double { bits: 0 };
    !p.bid.le(&zero) && !p.ask.le(&zero)
}

/// The symbols whose spread can be taken, each once, with their prices.
pub fn pairs(state: &State) -> (r: Vec<Pair>)
    requires
        state.wf(),
    ensures
        forall|i: int|
            0 <= i < r@.len() ==> {
                let p = #[trigger] r@[i];
                &&& comparable(state@.mexc_prices, state@.binance_prices, p.symbol@)
                &&& p.mexc == state@.mexc_prices[p.symbol@]
                &&& p.binance == state@.binance_prices[p.symbol@]
            },
        forall|k: Seq<char>| #[trigger]
            comparable(state@.mexc_prices, state@.binance_prices, k) ==> exists|i: int|
                0 <= i < r@.len() && (#[trigger] r@[i]).symbol@ == k,
        forall|i: int, j: int|
            0 <= i < j < r@.len() ==> (#[trigger] r@[i]).symbol@ != (#[trigger] r@[j]).symbol@,
{
    let mut out: Vec<Pair> = Vec::new();
    let ghost mexc = state@.mexc_prices;
    let ghost binance = state@.binance_prices;
    let ghost order = state.mexc_prices.order();
    proof {
        state.mexc_prices.lemma_order();
    }
    let n: usize = state.mexc_prices.len();
    let mut i: usize = 0;
    while i < n
        invariant
            i <= n,
            n == order.len(),
            state.wf(),
            order == state.mexc_prices.order(),
            order.no_duplicates(),
            mexc == state@.mexc_prices,
            binance == state@.binance_prices,
            forall|k: Seq<char>| #[trigger] mexc.contains_key(k) <==> order.contains(k),
            forall|j: int|
                0 <= j < out@.len() ==> {
                    let p = #[trigger] out@[j];
                    &&& comparable(mexc, binance, p.symbol@)
                    &&& p.mexc == mexc[p.symbol@]
                    &&& p.binance == binance[p.symbol@]
                    &&& order.take(i as int).contains(p.symbol@)
                },
            forall|j: int|
                0 <= j < i && comparable(mexc, binance, #[trigger] order[j]) ==> exists|m: int|
                    0 <= m < out@.len() && (#[trigger] out@[m]).symbol@ == order[j],
            forall|j: int, m: int|
                0 <= j < m < out@.len() ==> (#[trigger] out@[j]).symbol@ != (#[trigger] out@[m]).symbol@,
        decreases n - i,
    {
        let symbol = state.mexc_prices.key_at(i);
        let m = *state.mexc_prices.value_at(i);
        let ghost seen = out@;
        proof {
            assert(order.take(i + 1) =~= order.take(i as int).push(order[i as int]));
            assert(order.contains(order[i as int]));
            assert forall|k: Seq<char>| order.take(i as int).contains(k) implies order.take(
                i + 1,
            ).contains(k) && k != order[i as int] by {
                let at = choose|at: int| 0 <= at < i && order.take(i as int)[at] == k;
                assert(order.take(i + 1)[at] == k);
            }
            assert(order.take(i + 1)[i as int] == order[i as int]);
        }
        match state.binance_prices.get(symbol.as_str()) {
            Some(b) => {
                if is_usable(&m) && is_usable(b) {
                    out.push(Pair { symbol: symbol.clone(), mexc: m, binance: *b });
                    assert(out@[seen.len() as int].symbol@ == order[i as int]);
                }
            },
            None => {},
        }
        proof {
            assert forall|j: int|
                0 <= j < i + 1 && comparable(mexc, binance, #[trigger] order[j]) implies exists|
                m: int,
            | 0 <= m < out@.len() && (#[trigger] out@[m]).symbol@ == order[j] by {
                if j < i {
                    let m = choose|m: int|
                        0 <= m < seen.len() && (#[trigger] seen[m]).symbol@ == order[j];
                    assert(out@[m] == seen[m]);
                }
            }
        }
        i = i + 1;
    }
    proof {
        assert forall|k: Seq<char>| #[trigger] comparable(mexc, binance, k) implies exists|m: int|
            0 <= m < out@.len() && (#[trigger] out@[m]).symbol@ == k by {
            assert(order.contains(k));
            let j = choose|j: int| 0 <= j < order.len() && order[j] == k;
            assert(comparable(mexc, binance, order[j]));
        }
    }
    out
}

/// Once both feeds have brought prices of a symbol its spread can be taken, from
/// exactly those prices.
pub proof fn law_both_feeds_give_a_pair(
    s: StateView,
    t: BookTicker,
    ticker_now: u64,
    push: DepthFullPush,
    book_now: u64,
)
    requires
        kept(t, ticker_now),
        replaces(push),
        top(new_book(push, book_now)) is Some,
        book_key(push) == t.symbol@,
    ensures
        ({
            let after = after_depth(after_ticker(s, t, ticker_now), push, book_now);
            let swapped = after_ticker(after_depth(s, push, book_now), t, ticker_now);
            &&& after == swapped
            &&& comparable(after.mexc_prices, after.binance_prices, t.symbol@)
            &&& after.binance_prices[t.symbol@] == quote_of(t, ticker_now)
            &&& Some(after.mexc_prices[t.symbol@]) == top(new_book(push, book_now))
        }),
{
}

/// The report on one symbol.
#[derive(Debug)]
pub struct SymbolStatsJson {
    pub samples: u64,
    pub histogram: Vec<Bucket>,
    /// The middle of the fullest bucket, in thousandths of a percent.
    pub baseline_pct: u64,
    pub max_seen: Double,
    pub total_events: usize,
    pub significant_events: usize,
    pub converged_events: usize,
    pub avg_duration_ms: u64,
    pub events_by_threshold: Vec<(String, usize)>,
}

/// What a report says.
#[verifier::ext_equal]
pub struct ReportView {
    pub samples: u64,
    pub histogram: Seq<(Seq<char>, u64)>,
    pub baseline_pct: int,
    pub max_seen: Double,
    pub total_events: nat,
    pub significant_events: nat,
    pub converged_events: nat,
    pub avg_duration_ms: int,
    pub events_by_threshold: Seq<(Seq<char>, nat)>,
}

impl View for SymbolStatsJson {
    type V = ReportView;

    open spec fn view(&self) -> ReportView {
        ReportView {
            samples: self.samples,
            histogram: self.histogram@.map_values(|b: Bucket| (b.range@, b.count)),
            baseline_pct: self.baseline_pct as int,
            max_seen: self.max_seen,
            total_events: self.total_events as nat,
            significant_events: self.significant_events as nat,
            converged_events: self.converged_events as nat,
            avg_duration_ms: self.avg_duration_ms as int,
            events_by_threshold: self.events_by_threshold@.map_values(
                |t: (String, usize)| (t.0@, t.1 as nat),
            ),
        }
    }
}

/// The names of the buckets.
pub open spec fn bucket_names() -> Seq<Seq<char>> {
    seq![
        "<0.01%"@,
        "0.01-0.02%"@,
        "0.02-0.03%"@,
        "0.03-0.04%"@,
        "0.04-0.05%"@,
        "0.05-0.06%"@,
        "0.06-0.07%"@,
        "0.07-0.08%"@,
        "0.08-0.09%"@,
        "0.09-0.10%"@,
        ">=0.10%"@,
    ]
}

/// The names of the thresholds.
pub open spec fn threshold_names() -> Seq<Seq<char>> {
    seq![">=0.05%"@, ">=0.10%"@, ">=0.15%"@, ">=0.20%"@, ">=0.25%"@, ">=0.30%"@]
}

/// Bucket `b` is the first of the fullest ones. The bucket of the smallest spreads is
/// left out: most samples fall there and tell nothing.
pub open spec fn is_mode(histogram: Seq<u64>, b: int) -> bool {
    &&& 1 <= b < BUCKETS
    &&& forall|i: int| 1 <= i < BUCKETS ==> #[trigger] histogram[i] <= histogram[b]
    &&& forall|i: int| 1 <= i < b ==> #[trigger] histogram[i] < histogram[b]
}

/// The first of the fullest buckets.
pub open spec fn mode(histogram: Seq<u64>) -> int {
    choose|b: int| is_mode(histogram, b)
}

/// The middle of a bucket, in thousandths of a percent; of the last one its lower
/// edge.
pub open spec fn middle(b: int) -> int {
    if b < 10 {
        10 * b + 5
    } else {
        100
    }
}

/// The events that were at least as wide as a level.
pub open spec fn at_least(events: Seq<SpreadEvent>, level: Double) -> Seq<SpreadEvent> {
    events.filter(|e: SpreadEvent| level.at_most(e.max_pct))
}

/// How long events lasted in all.
pub open spec fn durations(events: Seq<SpreadEvent>) -> int
    decreases events.len(),
{
    if events.len() == 0 {
        0
    } else {
        durations(events.drop_last()) + events.last().duration_ms
    }
}

/// How long events lasted on average, rounded down; zero where there is none.
pub open spec fn average_duration(events: Seq<SpreadEvent>) -> int {
    if events.len() == 0 {
        0
    } else {
        durations(events) / (events.len() as int)
    }
}

/// The report on a symbol.
pub open spec fn report(st: StatsView) -> ReportView {
    let significant = at_least(st.events, significant_level());
    ReportView {
        samples: st.samples,
        histogram: Seq::new(BUCKETS as nat, |i: int| (bucket_names()[i], st.histogram[i])),
        baseline_pct: middle(mode(st.histogram)),
        max_seen: st.max_seen,
        total_events: st.events.len(),
        significant_events: significant.len(),
        converged_events: significant.filter(|e: SpreadEvent| e.converged).len(),
        avg_duration_ms: average_duration(significant),
        events_by_threshold: Seq::new(
            6,
            |i: int| (threshold_names()[i], at_least(st.events, threshold(i)).len()),
        ),
    }
}

fn fullest(histogram: &[u64; 11]) -> (b: usize)
    ensures
        is_mode(histogram@, b as int),
        b == mode(histogram@),
{
    let mut best: usize = 1;
    let mut i: usize = 2;
    while i < 11
        invariant
            2 <= i <= 11,
            1 <= best < i,
            forall|j: int| 1 <= j < i ==> #[trigger] histogram@[j] <= histogram@[best as int],
            forall|j: int| 1 <= j < best ==> #[trigger] histogram@[j] < histogram@[best as int],
        decreases 11 - i,
    {
        if histogram[i] > histogram[best] {
            best = i;
        }
        i = i + 1;
    }
    proof {
        assert(is_mode(histogram@, best as int));
        let m = mode(histogram@);
        assert(is_mode(histogram@, m));
        if m < best {
            assert(histogram@[m] < histogram@[best as int]);
        } else if best < m {
            assert(histogram@[best as int] < histogram@[m]);
        }
    }
    best
}

/// The events that were at least as wide as a level, in their order.
fn wide_events(events: &Vec<SpreadEvent>, level: &Double) -> (r: Vec<SpreadEvent>)
    ensures
        r@ == at_least(events@, *level),
{
    let mut out: Vec<SpreadEvent> = Vec::new();
    let mut i: usize = 0;
    proof {
        reveal(Seq::filter);
        assert(events@.take(0) =~= Seq::<SpreadEvent>::empty());
    }
    while i < events.len()
        invariant
            i <= events.len(),
            out@ == at_least(events@.take(i as int), *level),
        decreases events.len() - i,
    {
        let e = events[i];
        proof {
            reveal(Seq::filter);
            assert(events@.take(i + 1).drop_last() =~= events@.take(i as int));
        }
        if level.le(&e.max_pct) {
            out.push(e);
        }
        i = i + 1;
    }
    assert(events@.take(events@.len() as int) =~= events@);
    out
}

fn count_converged(events: &Vec<SpreadEvent>) -> (n: usize)
    ensures
        n == events@.filter(|e: SpreadEvent| e.converged).len(),
{
    let ghost keep = |e: SpreadEvent| e.converged;
    let mut n: usize = 0;
    let mut i: usize = 0;
    proof {
        reveal(Seq::filter);
        assert(events@.take(0) =~= Seq::<SpreadEvent>::empty());
    }
    while i < events.len()
        invariant
            n <= i <= events.len(),
            keep == (|e: SpreadEvent| e.converged),
            n == events@.take(i as int).filter(keep).len(),
        decreases events.len() - i,
    {
        proof {
            reveal(Seq::filter);
            assert(events@.take(i + 1).drop_last() =~= events@.take(i as int));
        }
        if events[i].converged {
            n = n + 1;
        }
        i = i + 1;
    }
    assert(events@.take(events@.len() as int) =~= events@);
    n
}

proof fn lemma_durations_bound(events: Seq<SpreadEvent>)
    ensures
        0 <= durations(events) <= events.len() * u64::MAX,
    decreases events.len(),
{
    if events.len() > 0 {
        lemma_durations_bound(events.drop_last());
        assert(events.len() * u64::MAX == (events.len() - 1) * u64::MAX + u64::MAX)
            by (nonlinear_arith);
    }
}

fn mean_duration(events: &Vec<SpreadEvent>) -> (r: u64)
    ensures
        r == average_duration(events@),
{
    if events.len() == 0 {
        return 0;
    }
    let mut sum: u128 = 0;
    let mut i: usize = 0;
    assert(events@.take(0) =~= Seq::<SpreadEvent>::empty());
    while i < events.len()
        invariant
            i <= events.len(),
            sum == durations(events@.take(i as int)),
        decreases events.len() - i,
    {
        proof {
            let next = events@.take(i + 1);
            assert(next.drop_last() =~= events@.take(i as int));
            lemma_durations_bound(next);
            assert(next.len() * u64::MAX <= u64::MAX * u64::MAX) by (nonlinear_arith)
                requires
                    next.len() <= u64::MAX,
            ;
        }
        sum = sum + events[i].duration_ms as u128;
        i = i + 1;
    }
    proof {
        assert(events@.take(events@.len() as int) =~= events@);
        lemma_durations_bound(events@);
        let n = events@.len() as int;
        assert(sum as int / n <= u64::MAX) by (nonlinear_arith)
            requires
                0 <= sum <= n * u64::MAX,
                n > 0,
        ;
    }
    (sum / events.len() as u128) as u64
}

fn named_bucket(name: &str, count: u64) -> (b: Bucket)
    ensures
        b.range@ == name@,
        b.count == count,
{
    Bucket { range: name.to_string(), count }
}

fn named_count(events: &Vec<SpreadEvent>, name: &str, level: Double) -> (r: (String, usize))
    ensures
        r.0@ == name@,
        r.1 == at_least(events@, level).len(),
{
    (name.to_string(), wide_events(events, &level).len())
}

/// Reports on a symbol.
pub fn symbol_report(st: &SymbolStats) -> (r: SymbolStatsJson)
    ensures
        r@ == report(st@),
{
    let h = &st.histogram;
    let mut histogram: Vec<Bucket> = Vec::new();
    histogram.push(named_bucket("<0.01%", h[0]));
    histogram.push(named_bucket("0.01-0.02%", h[1]));
    histogram.push(named_bucket("0.02-0.03%", h[2]));
    histogram.push(named_bucket("0.03-0.04%", h[3]));
    histogram.push(named_bucket("0.04-0.05%", h[4]));
    histogram.push(named_bucket("0.05-0.06%", h[5]));
    histogram.push(named_bucket("0.06-0.07%", h[6]));
    histogram.push(named_bucket("0.07-0.08%", h[7]));
    histogram.push(named_bucket("0.08-0.09%", h[8]));
    histogram.push(named_bucket("0.09-0.10%", h[9]));
    histogram.push(named_bucket(">=0.10%", h[10]));
    let mut by_threshold: Vec<(String, usize)> = Vec::new();
    by_threshold.push(named_count(&st.events, ">=0.05%", Double { bits: 0x3fa9_9999_9999_999a }));
    by_threshold.push(named_count(&st.events, ">=0.10%", Double { bits: 0x3fb9_9999_9999_999a }));
    by_threshold.push(named_count(&st.events, ">=0.15%", Double { bits: 0x3fc3_3333_3333_3333 }));
    by_threshold.push(named_count(&st.events, ">=0.20%", Double { bits: 0x3fc9_9999_9999_999a }));
    by_threshold.push(named_count(&st.events, ">=0.25%", Double { bits: 0x3fd0_0000_0000_0000 }));
    by_threshold.push(named_count(&st.events, ">=0.30%", Double { bits: 0x3fd3_3333_3333_3333 }));
    let b: usize = fullest(h);
    let significant = wide_events(&st.events, &edge_at(9));
    let r = SymbolStatsJson {
        samples: st.samples,
        histogram,
        baseline_pct: if b < 10 {
            10 * b as u64 + 5
        } else {
            100
        },
        max_seen: st.max_seen,
        total_events: st.events.len(),
        significant_events: significant.len(),
        converged_events: count_converged(&significant),
        avg_duration_ms: mean_duration(&significant),
        events_by_threshold: by_threshold,
    };
    assert(r@ =~= report(st@));
    r
}

/// The entries are in strictly ascending order of their names.
pub open spec fn ascending(entries: Seq<(String, SymbolStatsJson)>) -> bool {
    forall|i: int, j: int|
        0 <= i < j < entries.len() ==> comes_before(
            (#[trigger] entries[i]).0@,
            (#[trigger] entries[j]).0@,
        )
}

/// Puts an entry where its name belongs.
fn place(entries: &mut Vec<(String, SymbolStatsJson)>, name: String, entry: SymbolStatsJson)
    requires
        ascending(old(entries)@),
        forall|i: int| 0 <= i < old(entries)@.len() ==> (#[trigger] old(entries)@[i]).0@ != name@,
    ensures
        ascending(final(entries)@),
        exists|at: int|
            0 <= at <= old(entries)@.len() && final(entries)@ == #[trigger] old(entries)@.insert(
                at,
                (name, entry),
            ),
{
    let ghost was = entries@;
    let mut at: usize = 0;
    while at < entries.len() && before(entries[at].0.as_str(), name.as_str())
        invariant
            at <= entries.len(),
            entries@ == was,
            forall|i: int| 0 <= i < at ==> comes_before((#[trigger] was[i]).0@, name@),
        decreases entries.len() - at,
    {
        at = at + 1;
    }
    proof {
        let now = was.insert(at as int, (name, entry));
        assert forall|i: int| at <= i < was.len() implies comes_before(
            name@,
            (#[trigger] was[i]).0@,
        ) by {
            law_order_is_total(name@, was[at as int].0@);
            if i > at {
                law_order_is_transitive(name@, was[at as int].0@, was[i].0@);
            }
        }
        assert forall|i: int, j: int| 0 <= i < j < now.len() implies comes_before(
            (#[trigger] now[i]).0@,
            (#[trigger] now[j]).0@,
        ) by {
            if i < at {
                assert(now[i] == was[i]);
            } else if i > at {
                assert(now[i] == was[i - 1]);
            }
            if j < at {
                assert(now[j] == was[j]);
            } else if j > at {
                assert(now[j] == was[j - 1]);
            }
        }
    }
    entries.insert(at, (name, entry));
    assert(entries@ == was.insert(at as int, (name, entry)));
}

/// Reports on every symbol, in the order of their names.
pub fn snapshot(tracker: &Tracker) -> (r: Vec<(String, SymbolStatsJson)>)
    requires
        tracker.wf(),
    ensures
        ascending(r@),
        forall|i: int|
            0 <= i < r@.len() ==> {
                let (name, entry) = #[trigger] r@[i];
                &&& stats(*tracker).contains_key(name@)
                &&& entry@ == report(stats(*tracker)[name@])
            },
        forall|k: Seq<char>| #[trigger]
            stats(*tracker).contains_key(k) ==> exists|i: int|
                0 <= i < r@.len() && (#[trigger] r@[i]).0@ == k,
{
    let mut out: Vec<(String, SymbolStatsJson)> = Vec::new();
    let ghost order = tracker.order();
    let ghost all = stats(*tracker);
    proof {
        tracker.lemma_order();
    }
    let n: usize = tracker.len();
    let mut i: usize = 0;
    while i < n
        invariant
            i <= n,
            n == order.len(),
            tracker.wf(),
            order == tracker.order(),
            order.no_duplicates(),
            all == stats(*tracker),
            forall|k: Seq<char>| #[trigger] tracker@.contains_key(k) <==> order.contains(k),
            ascending(out@),
            forall|j: int|
                0 <= j < out@.len() ==> {
                    let (name, entry) = #[trigger] out@[j];
                    &&& all.contains_key(name@)
                    &&& entry@ == report(all[name@])
                    &&& order.take(i as int).contains(name@)
                },
            forall|j: int|
                0 <= j < i ==> exists|m: int|
                    0 <= m < out@.len() && (#[trigger] out@[m]).0@ == #[trigger] order[j],
        decreases n - i,
    {
        let name = tracker.key_at(i).clone();
        let entry = symbol_report(tracker.value_at(i));
        let ghost was = out@;
        proof {
            assert(order.contains(order[i as int]));
            assert forall|k: Seq<char>| order.take(i as int).contains(k) implies order.take(
                i + 1,
            ).contains(k) && k != order[i as int] by {
                let at = choose|at: int| 0 <= at < i && order.take(i as int)[at] == k;
                assert(order.take(i + 1)[at] == k);
            }
            assert(order.take(i + 1)[i as int] == order[i as int]);
        }
        place(&mut out, name, entry);
        proof {
            let at = choose|at: int|
                0 <= at <= was.len() && out@ == #[trigger] was.insert(at, (name, entry));
            assert forall|j: int| 0 <= j < out@.len() implies {
                let (name, entry) = #[trigger] out@[j];
                &&& all.contains_key(name@)
                &&& entry@ == report(all[name@])
                &&& order.take(i + 1).contains(name@)
            } by {
                if j < at {
                    assert(out@[j] == was[j]);
                } else if j > at {
                    assert(out@[j] == was[j - 1]);
                }
            }
            assert forall|j: int| 0 <= j < i + 1 implies exists|m: int|
                0 <= m < out@.len() && (#[trigger] out@[m]).0@ == #[trigger] order[j] by {
                if j < i {
                    let m = choose|m: int|
                        0 <= m < was.len() && (#[trigger] was[m]).0@ == order[j];
                    if m < at {
                        assert(out@[m] == was[m]);
                    } else {
                        assert(out@[m + 1] == was[m]);
                    }
                } else {
                    assert(out@[at].0@ == order[j]);
                }
            }
        }
        i = i + 1;
    }
    proof {
        assert forall|k: Seq<char>| #[trigger] all.contains_key(k) implies exists|m: int|
            0 <= m < out@.len() && (#[trigger] out@[m]).0@ == k by {
            assert(tracker@.contains_key(k));
            let j = choose|j: int| 0 <= j < order.len() && order[j] == k;
            assert(order[j] == k);
        }
    }
    out
}

proof fn lemma_fewer_are_wider(events: Seq<SpreadEvent>, low: Double, high: Double)
    requires
        low.at_most(high),
    ensures
        at_least(events, high).len() <= at_least(events, low).len(),
    decreases events.len(),
{
    reveal(Seq::filter);
    if events.len() > 0 {
        lemma_fewer_are_wider(events.drop_last(), low, high);
    }
}

proof fn lemma_all_pass(events: Seq<SpreadEvent>, keep: spec_fn(SpreadEvent) -> bool)
    requires
        forall|i: int| 0 <= i < events.len() ==> keep(#[trigger] events[i]),
    ensures
        events.filter(keep) == events,
    decreases events.len(),
{
    reveal(Seq::filter);
    if events.len() > 0 {
        lemma_all_pass(events.drop_last(), keep);
        assert(events.drop_last().push(events.last()) =~= events);
    } else {
        assert(events.filter(keep) =~= events);
    }
}

proof fn lemma_passing(events: Seq<SpreadEvent>, level: Double, i: int)
    requires
        0 <= i < at_least(events, level).len(),
    ensures
        exists|j: int| 0 <= j < events.len() && #[trigger] events[j] == at_least(events, level)[i],
    decreases events.len(),
{
    reveal(Seq::filter);
    if events.len() > 0 {
        let rest = events.drop_last();
        if i < at_least(rest, level).len() {
            lemma_passing(rest, level, i);
            let j = choose|j: int|
                0 <= j < rest.len() && #[trigger] rest[j] == at_least(rest, level)[i];
            assert(events[j] == rest[j]);
        } else {
            assert(events[events.len() - 1] == at_least(events, level)[i]);
        }
    }
}

/// A report counts no more events at a higher threshold than at a lower one.
pub proof fn law_thresholds_nest(st: StatsView, i: int, j: int)
    requires
        0 <= i <= j < 6,
    ensures
        report(st).events_by_threshold[j].1 <= report(st).events_by_threshold[i].1,
{
    lemma_fewer_are_wider(st.events, threshold(i), threshold(j));
}

/// In a report on sound statistics the buckets add up to the samples, every
/// significant event has converged, the lowest threshold counts all the events, and the
/// second one those that are significant.
pub proof fn law_report_adds_up(st: StatsView)
    requires
        st.sound(),
    ensures
        total(report(st).histogram.map_values(|b: (Seq<char>, u64)| b.1)) == report(st).samples,
        report(st).converged_events == report(st).significant_events,
        report(st).events_by_threshold[0].1 == report(st).total_events,
        report(st).events_by_threshold[1].1 == report(st).significant_events,
        report(st).total_events <= MAX_EVENTS_PER_SYMBOL,
{
    assert(report(st).histogram.map_values(|b: (Seq<char>, u64)| b.1) =~= st.histogram);
    let significant = at_least(st.events, significant_level());
    assert forall|i: int| 0 <= i < significant.len() implies #[trigger] significant[i].converged by {
        lemma_passing(st.events, significant_level(), i);
    }
    lemma_all_pass(significant, |e: SpreadEvent| e.converged);
    lemma_all_pass(st.events, |e: SpreadEvent| threshold(0).at_most(e.max_pct));
}

/// The edges of the buckets are 0.01, 0.02 and so on to 0.10, the thresholds 0.05, 0.10
/// and so on to 0.30, an event starts at 0.05 and is significant from 0.10 on.
pub proof fn law_levels_are_hundredths(i: int)
    ensures
        0 <= i < 10 ==> is_hundredths(edge(i), i + 1),
        0 <= i < 6 ==> is_hundredths(threshold(i), 5 * i + 5),
        is_hundredths(trigger_level(), 5),
        is_hundredths(significant_level(), 10),
{
}

/// A spread is counted below the upper edge of its bucket and not below the one before;
/// the last bucket takes the rest, and what is not a number.
pub proof fn law_bucket_lies_between_its_edges(spread: Double)
    ensures
        0 <= bucket(spread) <= 10,
        bucket(spread) < 10 ==> spread.less(edge(bucket(spread))),
        bucket(spread) > 0 && !spread.nan() ==> edge(bucket(spread) - 1).at_most(spread),
        spread.nan() ==> bucket(spread) == 10,
{
    law_every_spread_has_a_bucket(spread);
    let b = bucket(spread);
    if b > 0 {
        assert(!spread.less(edge(b - 1)));
    }
    if spread.nan() {
        assert(!spread.less(edge(b)));
    }
}

/// A wider spread is never counted in a lower bucket.
pub proof fn law_buckets_grow_with_the_spread(a: Double, b: Double)
    requires
        a.at_most(b),
    ensures
        bucket(a) <= bucket(b),
{
    law_every_spread_has_a_bucket(a);
    law_every_spread_has_a_bucket(b);
    if bucket(b) < bucket(a) {
        assert(!a.less(edge(bucket(b))));
    }
}

/// The spread taken is that of the larger one of the two directions, whichever it is,
/// with its sign cleared.
pub proof fn law_spread_is_that_of_the_better_direction(long: Double, short: Double)
    ensures
        long.less(short) ==> spread_of(long, short).bits == short.bits % 0x8000_0000_0000_0000,
        short.less(long) ==> spread_of(long, short).bits == long.bits % 0x8000_0000_0000_0000,
        !long.nan() && !short.nan() && long.rank() == short.rank() ==> spread_of(long, short).bits
            == long.bits % 0x8000_0000_0000_0000,
        long.nan() ==> spread_of(long, short).bits == short.bits % 0x8000_0000_0000_0000,
        short.nan() && !long.nan() ==> spread_of(long, short).bits == long.bits
            % 0x8000_0000_0000_0000,
        long.less(short) && short.positive() ==> spread_of(long, short) == short,
        short.less(long) && long.positive() ==> spread_of(long, short) == long,
{
}

/// A sample counts: one more sample, one more in the bucket between whose edges the
/// spread lies and in no other, and the widest spread seen is the wider one of what it
/// was and the new one.
pub proof fn law_sample_is_counted(st: StatsView, spread: Double, now: u64, b: int)
    requires
        st.sound(),
        st.samples < u64::MAX,
        0 <= b <= 10,
        b < 10 ==> spread.less(edge(b)),
        b > 0 ==> edge(b - 1).at_most(spread),
    ensures
        ({
            let after = after_sample(st, spread, now);
            &&& after.samples == st.samples + 1
            &&& after.histogram.len() == st.histogram.len()
            &&& after.histogram[b] == st.histogram[b] + 1
            &&& forall|i: int| 0 <= i <= 10 && i != b ==> #[trigger] after.histogram[i]
                == st.histogram[i]
            &&& after.max_seen == st.max_seen || after.max_seen == spread
            &&& st.max_seen.at_most(after.max_seen)
            &&& spread.at_most(after.max_seen)
        }),
{
    law_every_spread_has_a_bucket(spread);
    let at = bucket(spread);
    if at < b {
        assert(spread.less(edge(at)));
        assert(edge(at).rank() <= edge(b - 1).rank());
    } else if b < at {
        assert(!spread.less(edge(b)));
    }
    lemma_total_bounds(st.histogram);
    assert(st.histogram[b] <= total(st.histogram));
}

/// What is not a number is counted in the last bucket, leaves the widest spread seen as
/// it was, and ends an event.
pub proof fn law_no_number_ends_an_event(st: StatsView, spread: Double, now: u64)
    requires
        st.sound(),
        st.samples < u64::MAX,
        spread.nan(),
    ensures
        after_sample(st, spread, now).max_seen == st.max_seen,
        after_sample(st, spread, now).samples == st.samples + 1,
        after_sample(st, spread, now).histogram == st.histogram.update(
            10,
            (st.histogram[10] + 1) as u64,
        ),
        st.histogram[10] < u64::MAX,
        after_sample(st, spread, now).current_event is None,
{
    law_bucket_lies_between_its_edges(spread);
    lemma_total_bounds(st.histogram);
    assert(st.histogram[10] <= total(st.histogram));
}

/// A spread of 0.05 or more starts an event or widens the one under way; a narrower one
/// ends it, and then the event is added as it was, with the time it took.
pub proof fn law_event_starts_widens_and_ends(st: StatsView, spread: Double, now: u64)
    requires
        st.sound(),
    ensures
        ({
            let after = after_sample(st, spread, now);
            let wide = (Double { bits: 0x3fa9_9999_9999_999a }).at_most(spread);
            &&& wide && st.current_event is None ==> after.current_event == Some(
                CurrentEvent { start_ms: now, max_pct: spread },
            )
            &&& wide && st.current_event is Some ==> {
                let was = st.current_event->0;
                &&& after.current_event is Some
                &&& after.current_event->0.start_ms == was.start_ms
                &&& was.max_pct.at_most(after.current_event->0.max_pct)
                &&& spread.at_most(after.current_event->0.max_pct)
                &&& after.current_event->0.max_pct == was.max_pct
                    || after.current_event->0.max_pct == spread
            }
            &&& wide ==> after.events == st.events
            &&& !wide ==> after.current_event is None
            &&& !wide && st.current_event is None ==> after.events == st.events
            &&& !wide && st.current_event is Some ==> {
                let was = st.current_event->0;
                let e = after.events.last();
                &&& e.start_ms == was.start_ms && e.max_pct == was.max_pct && e.converged
                &&& was.start_ms <= now ==> e.duration_ms == now - was.start_ms
                &&& now < was.start_ms ==> e.duration_ms == 0
                &&& st.events.len() < 1000 ==> after.events == st.events.push(e)
                &&& st.events.len() == 1000 ==> after.events == st.events.skip(1).push(e)
            }
        }),
{
    if st.current_event is Some && !(trigger_level().at_most(spread)) {
        let e = ended(st.current_event->0, now);
        assert(keep_newest(st.events, e).last() == e);
        if st.events.len() == 1000 {
            assert(st.events.push(e).remove(0) =~= st.events.skip(1).push(e));
        }
    }
}

/// What is known of a symbol is what the table holds of it; of a symbol that was never
/// seen nothing was counted.
pub proof fn law_known_is_what_the_table_holds(
    all: Map<Seq<char>, StatsView>,
    symbol: Seq<char>,
    i: int,
)
    ensures
        all.contains_key(symbol) ==> known(all, symbol) == all[symbol],
        !all.contains_key(symbol) ==> {
            let st = known(all, symbol);
            &&& st.samples == 0 && st.max_seen.bits == 0 && st.events.len() == 0
            &&& st.current_event is None && st.histogram.len() == 11
            &&& 0 <= i < 11 ==> st.histogram[i] == 0
        },
{
}

/// The spread of a symbol can be taken exactly if both exchanges have a bid and an ask
/// for it that are not zero or below, however small and whichever exchange is dearer.
pub proof fn law_prices_above_zero_are_comparable(
    mexc: Map<Seq<char>, PriceData>,
    binance: Map<Seq<char>, PriceData>,
    symbol: Seq<char>,
)
    ensures
        comparable(mexc, binance, symbol) <==> {
            &&& mexc.contains_key(symbol)
            &&& binance.contains_key(symbol)
            &&& mexc[symbol].bid.nan() || mexc[symbol].bid.positive()
            &&& mexc[symbol].ask.nan() || mexc[symbol].ask.positive()
            &&& binance[symbol].bid.nan() || binance[symbol].bid.positive()
            &&& binance[symbol].ask.nan() || binance[symbol].ask.positive()
        },
        forall|p: PriceData|
            #![trigger usable(p)]
            usable(p) <==> (p.bid.nan() || p.bid.positive()) && (p.ask.nan() || p.ask.positive()),
{
    assert forall|p: PriceData|
        #![trigger usable(p)]
        usable(p) <==> (p.bid.nan() || p.bid.positive()) && (p.ask.nan() || p.ask.positive()) by {
        law_sign_is_that_of_the_bits(p.bid);
        law_sign_is_that_of_the_bits(p.ask);
    }
}

/// The statistics are those of the table, symbol by symbol.
pub proof fn law_statistics_are_those_of_the_table(t: Tracker, k: Seq<char>)
    ensures
        stats(t).contains_key(k) <==> t@.contains_key(k),
        t@.contains_key(k) ==> stats(t)[k] == t@[k]@,
{
}

/// The counts by level go up by one with every event that is as wide, and with no
/// other.
pub proof fn law_events_are_counted_by_width(
    events: Seq<SpreadEvent>,
    e: SpreadEvent,
    level: Double,
)
    ensures
        at_least(Seq::empty(), level).len() == 0,
        level.at_most(e.max_pct) ==> at_least(events.push(e), level) == at_least(
            events,
            level,
        ).push(e),
        !level.at_most(e.max_pct) ==> at_least(events.push(e), level) == at_least(events, level),
{
    reveal(Seq::filter);
    assert(events.push(e).drop_last() =~= events);
}

/// A report repeats the counts, names its buckets in order, and gives as the baseline
/// the middle of the first of the fullest buckets but the lowest, or 0.10 where that is
/// the last one.
pub proof fn law_report_names_the_baseline(st: StatsView, b: int)
    requires
        st.histogram.len() == 11,
        1 <= b <= 10,
        forall|i: int| 1 <= i <= 10 ==> #[trigger] st.histogram[i] <= st.histogram[b],
        forall|i: int| 1 <= i < b ==> #[trigger] st.histogram[i] < st.histogram[b],
    ensures
        report(st).samples == st.samples,
        report(st).max_seen == st.max_seen,
        report(st).total_events == st.events.len(),
        report(st).histogram.len() == 11,
        forall|i: int| 0 <= i < 11 ==> (#[trigger] report(st).histogram[i]).1 == st.histogram[i],
        b < 10 ==> report(st).baseline_pct == 10 * b + 5,
        b == 10 ==> report(st).baseline_pct == 100,
{
    assert(is_mode(st.histogram, b));
    let m = mode(st.histogram);
    assert(is_mode(st.histogram, m));
    if m < b {
        assert(st.histogram[m] < st.histogram[b]);
    } else if b < m {
        assert(st.histogram[b] < st.histogram[m]);
    }
}

/// How long events lasted in all goes up with every event by the time it took.
pub proof fn law_durations_add_up(events: Seq<SpreadEvent>, e: SpreadEvent)
    ensures
        durations(Seq::empty()) == 0,
        durations(events.push(e)) == durations(events) + e.duration_ms,
{
    assert(events.push(e).drop_last() =~= events);
}

/// A report counts the events from 0.10 on as significant, counts the events at each
/// threshold, and gives the average time of the significant ones, rounded down.
pub proof fn law_report_counts_the_events(st: StatsView, i: int)
    requires
        0 <= i < 6,
    ensures
        ({
            let r = report(st);
            let significant = at_least(st.events, Double { bits: 0x3fb9_9999_9999_999a });
            let n = significant.len() as int;
            &&& r.significant_events == n
            &&& r.events_by_threshold.len() == 6
            &&& r.events_by_threshold[i].1 == at_least(st.events, threshold(i)).len()
            &&& n == 0 ==> r.avg_duration_ms == 0
            &&& n > 0 ==> {
                &&& r.avg_duration_ms * n <= durations(significant)
                &&& durations(significant) < (r.avg_duration_ms + 1) * n
            }
        }),
{
    let significant = at_least(st.events, significant_level());
    let n = significant.len() as int;
    if n > 0 {
        let sum = durations(significant);
        let q = sum / n;
        assert(q * n <= sum < (q + 1) * n) by (nonlinear_arith)
            requires
                n > 0,
                q == sum / n,
        ;
    }
}

/// Entries in ascending order come one before the other.
pub proof fn law_ascending_entries_come_in_order(
    entries: Seq<(String, SymbolStatsJson)>,
    i: int,
    j: int,
)
    requires
        ascending(entries),
        0 <= i < j < entries.len(),
    ensures
        comes_before(entries[i].0@, entries[j].0@),
{
}

/// What the statistics and a report say is what their fields hold.
pub proof fn law_statistics_say_what_they_hold(st: SymbolStats, r: SymbolStatsJson, i: int)
    ensures
        st@.samples == st.samples && st@.histogram == st.histogram@,
        st@.max_seen == st.max_seen && st@.events == st.events@,
        st@.current_event == st.current_event,
        r@.samples == r.samples && r@.baseline_pct == r.baseline_pct && r@.max_seen == r.max_seen,
        r@.total_events == r.total_events && r@.significant_events == r.significant_events,
        r@.converged_events == r.converged_events && r@.avg_duration_ms == r.avg_duration_ms,
        r@.histogram.len() == r.histogram@.len(),
        0 <= i < r.histogram@.len() ==> r@.histogram[i] == (
            r.histogram@[i].range@,
            r.histogram@[i].count,
        ),
        r@.events_by_threshold.len() == r.events_by_threshold@.len(),
        0 <= i < r.events_by_threshold@.len() ==> r@.events_by_threshold[i] == (
            r.events_by_threshold@[i].0@,
            r.events_by_threshold@[i].1 as nat,
        ),
{
}

} // verus!
