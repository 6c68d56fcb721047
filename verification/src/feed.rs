//! What the feeds of both exchanges have in common.
use vstd::prelude::*;

verus! {

/// Why a message of a feed was not taken in.
#[derive(Debug)]
pub enum FeedError {
    /// The message is no JSON.
    Json(serde_json::Error),
    /// An order book without a symbol.
    NoSymbol,
    /// An order book without levels.
    NoData,
    /// A bid that is not a number.
    BadBid,
    /// An ask that is not a number.
    BadAsk,
}

/// By how many milliseconds a message is late, if by more than a limit. A stamp that is
/// not positive is no stamp.
pub open spec fn late_by(now: int, sent: int, limit: int) -> Option<int> {
    if sent > 0 && now - sent > limit {
        Some(now - sent)
    } else {
        None
    }
}

/// By how many milliseconds a message stamped `sent` is late at the time `now`, if
/// by more than `limit`.
pub fn lateness(now: u64, sent: i64, limit: i64) -> (r: Option<i64>)
    requires
        now <= i64::MAX,
    ensures
        r is Some <==> late_by(now as int, sent as int, limit as int) is Some,
        r matches Some(late) ==> late_by(now as int, sent as int, limit as int) == Some(
            late as int,
        ),
{
    if sent > 0 {
        let late: i64 = now as i64 - sent;
        if late > limit {
            return Some(late);
        }
    }
    None
}

/// The stamp of a message, or the time of its arrival where it has none.
pub open spec fn stamped(sent: i64, now: u64) -> u64 {
    if sent > 0 {
        sent as u64
    } else {
        now
    }
}

/// The time that a message is filed under.
pub fn message_time(sent: i64, now: u64) -> (r: u64)
    ensures
        r == stamped(sent, now),
{
    if sent > 0 {
        sent as u64
    } else {
        now
    }
}

/// A message keeps its own time where it has one, and only then.
pub proof fn law_message_keeps_its_time(sent: i64, now: u64)
    ensures
        sent > 0 ==> stamped(sent, now) == sent as int,
        sent <= 0 ==> stamped(sent, now) == now,
{
}

/// A message with a stamp is late exactly if more than the limit has passed since, and
/// then by what has passed; one without a stamp is never late.
pub proof fn law_lateness_is_what_has_passed(now: int, sent: int, limit: int)
    ensures
        sent > 0 && sent + limit < now ==> late_by(now, sent, limit) == Some(now - sent),
        sent > 0 && sent + limit >= now ==> late_by(now, sent, limit) is None,
        sent <= 0 ==> late_by(now, sent, limit) is None,
{
}

} // verus!
