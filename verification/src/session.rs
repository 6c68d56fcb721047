//! The life of a connection to a feed: what each event on it asks for, and how long
//! to wait before the next try when it is lost.
use vstd::prelude::*;

verus! {

/// The first wait before a new try.
pub const RECONNECT_MIN_MS: u64 = 1_000;

/// The longest wait before a new try.
pub const RECONNECT_MAX_MS: u64 = 30_000;

/// How long a connection may stay silent.
pub const IDLE_LIMIT_NS: u128 = 60_000_000_000;

/// The wait before the next try: it doubles with every failure up to a limit, and
/// starts over after a session that ended in order.
#[derive(Clone, Copy, Debug, PartialEq, Eq, Structural)]
pub struct Backoff {
    wait_ms: u64,
}

/// Twice a wait, within the limit.
pub open spec fn doubled(wait_ms: int) -> int {
    if 2 * wait_ms > RECONNECT_MAX_MS {
        RECONNECT_MAX_MS as int
    } else {
        2 * wait_ms
    }
}

/// The wait after the `n`-th failure in a row.
pub open spec fn wait_after(n: nat) -> int
    decreases n,
{
    if n <= 1 {
        RECONNECT_MIN_MS as int
    } else {
        doubled(wait_after((n - 1) as nat))
    }
}

impl Backoff {
    /// The wait that the next failure will ask for.
    pub closed spec fn next_wait(self) -> int {
        self.wait_ms as int
    }

    /// The next wait is within the limits.
    pub open spec fn wf(self) -> bool {
        RECONNECT_MIN_MS <= self.next_wait() <= RECONNECT_MAX_MS
    }

    pub fn new() -> (b: Backoff)
        ensures
            b.wf(),
            b.next_wait() == RECONNECT_MIN_MS,
    {
        Backoff { wait_ms: RECONNECT_MIN_MS }
    }

    /// A session ended in order: there is no wait.
    pub fn ended(&mut self)
        ensures
            final(self).wf(),
            final(self).next_wait() == RECONNECT_MIN_MS,
    {
        self.wait_ms = RECONNECT_MIN_MS;
    }

    /// A session failed: returns how long to wait.
    pub fn failed(&mut self) -> (wait_ms: u64)
        requires
            old(self).wf(),
        ensures
            wait_ms == old(self).next_wait(),
            final(self).next_wait() == doubled(old(self).next_wait()),
            final(self).wf(),
            forall|n: nat|
                n >= 1 && old(self).next_wait() == #[trigger] wait_after(n)
                    ==> final(self).next_wait() == wait_after(n + 1),
    {
        let wait_ms: u64 = self.wait_ms;
        let twice: u64 = wait_ms * 2;
        self.wait_ms = if twice > RECONNECT_MAX_MS {
            RECONNECT_MAX_MS
        } else {
            twice
        };
        wait_ms
    }
}

/// However many tries fail in a row, the wait stays within the limits and never gets
/// shorter.
pub proof fn law_waits_grow_within_limits(n: nat)
    requires
        n >= 1,
    ensures
        RECONNECT_MIN_MS <= wait_after(n) <= RECONNECT_MAX_MS,
        wait_after(n) <= wait_after(n + 1),
    decreases n,
{
    if n > 1 {
        law_waits_grow_within_limits((n - 1) as nat);
    }
}

/// From the sixth failure in a row on the wait is the longest one.
pub proof fn law_waits_reach_the_limit(n: nat)
    requires
        n >= 6,
    ensures
        wait_after(n) == RECONNECT_MAX_MS,
    decreases n,
{
    if n == 6 {
        reveal_with_fuel(wait_after, 7);
    } else {
        law_waits_reach_the_limit((n - 1) as nat);
    }
}

/// What can happen on a connection.
#[derive(Clone, Copy, Debug, PartialEq, Eq, Structural)]
pub enum Event {
    /// It is time to send a ping.
    PingDue,
    /// It is time to see whether the connection is still alive.
    IdleCheck,
    /// A text message came.
    Text,
    /// A ping came.
    Ping,
    /// The other side closes.
    Close,
    /// A message of some other kind came.
    Other,
    /// Receiving failed.
    ReceiveFailed,
    /// There is nothing more to receive.
    Ended,
}

/// Why a session ends.
#[derive(Clone, Copy, Debug, PartialEq, Eq, Structural)]
pub enum EndReason {
    Idle,
    ServerClosed,
    ReceiveFailed,
    StreamEnded,
}

/// What an event asks for.
#[derive(Clone, Copy, Debug, PartialEq, Eq, Structural)]
pub enum Action {
    Nothing,
    SendPing,
    SendPong,
    HandleText,
    End(EndReason),
}

/// A connection: when its last message came.
#[derive(Clone, Copy, Debug, PartialEq, Eq, Structural)]
pub struct Connection {
    pub last_message_ns: u128,
}

/// An event that brings a message.
pub open spec fn is_message(e: Event) -> bool {
    e == Event::Text || e == Event::Ping || e == Event::Close || e == Event::Other
}

/// The connection has been silent for too long.
pub open spec fn is_idle(c: Connection, now_ns: u128) -> bool {
    now_ns - c.last_message_ns > IDLE_LIMIT_NS
}

/// What an event asks for.
pub open spec fn action(c: Connection, e: Event, now_ns: u128) -> Action {
    match e {
        Event::PingDue => Action::SendPing,
        Event::IdleCheck => if is_idle(c, now_ns) {
            Action::End(EndReason::Idle)
        } else {
            Action::Nothing
        },
        Event::Text => Action::HandleText,
        Event::Ping => Action::SendPong,
        Event::Close => Action::End(EndReason::ServerClosed),
        Event::Other => Action::Nothing,
        Event::ReceiveFailed => Action::End(EndReason::ReceiveFailed),
        Event::Ended => Action::End(EndReason::StreamEnded),
    }
}

impl Connection {
    /// A connection that is opened at a time counts as heard of then.
    pub fn open(now_ns: u128) -> (c: Connection)
        ensures
            c.last_message_ns == now_ns,
    {
        Connection { last_message_ns: now_ns }
    }

    /// Takes in an event at a time, and tells what it asks for.
    pub fn step(&mut self, e: Event, now_ns: u128) -> (a: Action)
        ensures
            a == action(*old(self), e, now_ns),
            final(self).last_message_ns == (if is_message(e) {
                now_ns
            } else {
                old(self).last_message_ns
            }),
    {
        match e {
            Event::PingDue => Action::SendPing,
            Event::IdleCheck => {
                if now_ns > self.last_message_ns && now_ns - self.last_message_ns > IDLE_LIMIT_NS {
                    Action::End(EndReason::Idle)
                } else {
                    Action::Nothing
                }
            },
            Event::Text => {
                self.last_message_ns = now_ns;
                Action::HandleText
            },
            Event::Ping => {
                self.last_message_ns = now_ns;
                Action::SendPong
            },
            Event::Close => {
                self.last_message_ns = now_ns;
                Action::End(EndReason::ServerClosed)
            },
            Event::Other => {
                self.last_message_ns = now_ns;
                Action::Nothing
            },
            Event::ReceiveFailed => Action::End(EndReason::ReceiveFailed),
            Event::Ended => Action::End(EndReason::StreamEnded),
        }
    }
}

/// The connection after some events, each with its time.
pub open spec fn after_events(c: Connection, events: Seq<(Event, u128)>) -> Connection
    decreases events.len(),
{
    if events.len() == 0 {
        c
    } else {
        let before = after_events(c, events.drop_last());
        if is_message(events.last().0) {
            Connection { last_message_ns: events.last().1 }
        } else {
            before
        }
    }
}

/// A session is ended for silence only if no message came within the limit.
pub proof fn law_only_silence_is_idle(c: Connection, events: Seq<(Event, u128)>, now_ns: u128)
    requires
        action(after_events(c, events), Event::IdleCheck, now_ns) == Action::End(EndReason::Idle),
        forall|i: int, j: int|
            0 <= i < j < events.len() ==> (#[trigger] events[i]).1 <= (#[trigger] events[j]).1,
    ensures
        forall|i: int|
            0 <= i < events.len() && is_message((#[trigger] events[i]).0) ==> now_ns - events[i].1
                > IDLE_LIMIT_NS,
    decreases events.len(),
{
    if events.len() > 0 {
        let rest = events.drop_last();
        assert forall|i: int|
            0 <= i < events.len() && is_message((#[trigger] events[i]).0) implies now_ns
            - events[i].1 > IDLE_LIMIT_NS by {
            if !is_message(events.last().0) {
                assert forall|i: int, j: int| 0 <= i < j < rest.len() implies (#[trigger] rest[i]).1
                    <= (#[trigger] rest[j]).1 by {
                    assert(events[i].1 <= events[j].1);
                }
                law_only_silence_is_idle(c, rest, now_ns);
                assert(rest[i] == events[i]);
            } else if i < events.len() - 1 {
                assert(events[i].1 <= events[events.len() - 1].1);
            }
        }
    }
}

/// Only a check for silence depends on the time: it ends a session once more than a
/// minute has passed since the last message, and asks for nothing before. Everything
/// else is answered at once, whenever it comes.
pub proof fn law_every_event_is_answered(c: Connection, now_ns: u128)
    ensures
        now_ns - c.last_message_ns > 60_000_000_000 ==> action(c, Event::IdleCheck, now_ns)
            == Action::End(EndReason::Idle),
        now_ns - c.last_message_ns <= 60_000_000_000 ==> action(c, Event::IdleCheck, now_ns)
            == Action::Nothing,
        action(c, Event::PingDue, now_ns) == Action::SendPing,
        action(c, Event::Text, now_ns) == Action::HandleText,
        action(c, Event::Ping, now_ns) == Action::SendPong,
        action(c, Event::Other, now_ns) == Action::Nothing,
        action(c, Event::Close, now_ns) == Action::End(EndReason::ServerClosed),
        action(c, Event::ReceiveFailed, now_ns) == Action::End(EndReason::ReceiveFailed),
        action(c, Event::Ended, now_ns) == Action::End(EndReason::StreamEnded),
{
}

/// Whatever the other side sends shows that it is alive; what this side does, or finds
/// missing, does not.
pub proof fn law_only_messages_show_life(c: Connection, events: Seq<(Event, u128)>, e: Event, now_ns: u128)
    ensures
        ({
            let before = after_events(c, events);
            let after = after_events(c, events.push((e, now_ns)));
            &&& e == Event::Text || e == Event::Ping || e == Event::Close || e == Event::Other
                ==> is_message(e) && after.last_message_ns == now_ns
            &&& e == Event::PingDue || e == Event::IdleCheck || e == Event::ReceiveFailed || e
                == Event::Ended ==> !is_message(e) && after.last_message_ns
                == before.last_message_ns
        }),
        after_events(c, Seq::empty()) == c,
{
    assert(events.push((e, now_ns)).drop_last() =~= events);
}

/// The first wait is a second, and each one is twice the one before, or half a minute
/// where that is less.
pub proof fn law_waits_double(n: nat)
    requires
        n >= 1,
    ensures
        wait_after(1) == 1_000,
        2 * wait_after(n) <= 30_000 ==> wait_after(n + 1) == 2 * wait_after(n),
        2 * wait_after(n) > 30_000 ==> wait_after(n + 1) == 30_000,
        doubled(wait_after(n)) == wait_after(n + 1),
{
}

} // verus!
