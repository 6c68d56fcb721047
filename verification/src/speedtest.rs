//! The summary of a row of response times.
use vstd::prelude::*;
use vstd::relations::*;

verus! {

/// The shortest, the middle and the longest of some times.
#[derive(Clone, Copy, Debug, PartialEq, Eq, Structural)]
pub struct Summary {
    pub min: u128,
    pub median: u128,
    pub max: u128,
}

/// No time is longer than a later one.
pub open spec fn is_ascending(times: Seq<u128>) -> bool {
    forall|i: int, j: int| 0 <= i < j < times.len() ==> #[trigger] times[i] <= #[trigger] times[j]
}

/// The same times, each as often.
pub open spec fn same_times(a: Seq<u128>, b: Seq<u128>) -> bool {
    a.to_multiset() == b.to_multiset()
}

/// `s` summarises some times: of the times in ascending order it has the first, the
/// one at half their number and the last.
pub open spec fn summarises(s: Summary, times: Seq<u128>) -> bool {
    exists|sorted: Seq<u128>|
        {
            &&& #[trigger] is_ascending(sorted)
            &&& same_times(sorted, times)
            &&& s.min == sorted[0]
            &&& s.median == sorted[sorted.len() as int / 2]
            &&& s.max == sorted[sorted.len() - 1]
        }
}

/// Some times have one summary only.
pub proof fn law_summary_is_unique(a: Summary, b: Summary, times: Seq<u128>)
    requires
        times.len() > 0,
        summarises(a, times),
        summarises(b, times),
    ensures
        a == b,
{
    let x = choose|sorted: Seq<u128>|
        {
            &&& #[trigger] is_ascending(sorted)
            &&& same_times(sorted, times)
            &&& a.min == sorted[0]
            &&& a.median == sorted[sorted.len() as int / 2]
            &&& a.max == sorted[sorted.len() - 1]
        };
    let y = choose|sorted: Seq<u128>|
        {
            &&& #[trigger] is_ascending(sorted)
            &&& same_times(sorted, times)
            &&& b.min == sorted[0]
            &&& b.median == sorted[sorted.len() as int / 2]
            &&& b.max == sorted[sorted.len() - 1]
        };
    let leq = |p: u128, q: u128| p <= q;
    assert(sorted_by(x, leq));
    assert(sorted_by(y, leq));
    vstd::seq_lib::lemma_sorted_unique(x, y, leq);
}

/// Puts a time where it belongs.
fn place(times: &mut Vec<u128>, t: u128)
    requires
        is_ascending(old(times)@),
    ensures
        is_ascending(final(times)@),
        same_times(final(times)@, old(times)@.push(t)),
{
    let ghost was = times@;
    let mut at: usize = 0;
    while at < times.len() && times[at] <= t
        invariant
            at <= times.len(),
            times@ == was,
            forall|i: int| 0 <= i < at ==> #[trigger] was[i] <= t,
        decreases times.len() - at,
    {
        at = at + 1;
    }
    times.insert(at, t);
    proof {
        was.to_multiset_ensures();
        vstd::seq_lib::to_multiset_insert(was, at as int, t);
        assert(times@ =~= was.insert(at as int, t));
    }
}

/// Summarises a row of times that is not empty.
pub fn summary(times: &Vec<u128>) -> (r: Summary)
    requires
        times@.len() > 0,
    ensures
        summarises(r, times@),
{
    let mut sorted: Vec<u128> = Vec::new();
    let mut i: usize = 0;
    assert(times@.take(0) =~= sorted@);
    while i < times.len()
        invariant
            i <= times.len(),
            sorted@.len() == i,
            is_ascending(sorted@),
            same_times(sorted@, times@.take(i as int)),
        decreases times.len() - i,
    {
        let ghost was = sorted@;
        place(&mut sorted, times[i]);
        proof {
            assert(times@.take(i + 1) =~= times@.take(i as int).push(times@[i as int]));
            was.to_multiset_ensures();
            times@.take(i as int).to_multiset_ensures();
            sorted@.to_multiset_ensures();
            was.push(times@[i as int]).to_multiset_ensures();
        }
        i = i + 1;
    }
    assert(times@.take(times@.len() as int) =~= times@);
    let n: usize = sorted.len();
    let r = Summary { min: sorted[0], median: sorted[n / 2], max: sorted[n - 1] };
    assert(is_ascending(sorted@) && same_times(sorted@, times@));
    r
}

/// The summary of times that stand in ascending order is the first, the one at half
/// their number and the last.
pub proof fn law_summary_of_ascending_times(s: Summary, times: Seq<u128>)
    requires
        times.len() > 0,
        forall|i: int, j: int|
            0 <= i < j < times.len() ==> #[trigger] times[i] <= #[trigger] times[j],
    ensures
        summarises(s, times) <==> {
            &&& s.min == times[0]
            &&& s.median == times[times.len() as int / 2]
            &&& s.max == times[times.len() - 1]
        },
{
    let own = Summary {
        min: times[0],
        median: times[times.len() as int / 2],
        max: times[times.len() - 1],
    };
    assert(is_ascending(times) && same_times(times, times));
    assert(summarises(own, times));
    if summarises(s, times) {
        law_summary_is_unique(s, own, times);
    }
}

/// The order of the times does not matter to their summary, only how often each occurs.
pub proof fn law_order_of_times_does_not_matter(s: Summary, a: Seq<u128>, b: Seq<u128>)
    requires
        a.to_multiset() == b.to_multiset(),
        summarises(s, a),
    ensures
        summarises(s, b),
{
    let sorted = choose|sorted: Seq<u128>|
        {
            &&& #[trigger] is_ascending(sorted)
            &&& same_times(sorted, a)
            &&& s.min == sorted[0]
            &&& s.median == sorted[sorted.len() as int / 2]
            &&& s.max == sorted[sorted.len() - 1]
        };
    assert(is_ascending(sorted) && same_times(sorted, b));
}

} // verus!
