use arb::feed::{lateness, message_time};
use arb::session::{Action, Backoff, Connection, EndReason, Event};

const SECOND: u128 = 1_000_000_000;

#[test]
fn waits_double_up_to_the_limit() {
    let mut b = Backoff::new();
    let waits: Vec<u64> = (0..8).map(|_| b.failed()).collect();
    assert_eq!(waits, vec![1000, 2000, 4000, 8000, 16000, 30000, 30000, 30000]);
    b.ended();
    assert_eq!(b.failed(), 1000);
    assert_eq!(b.failed(), 2000);
}

#[test]
fn events_ask_for_actions() {
    let mut c = Connection::open(0);
    assert_eq!(c.step(Event::PingDue, SECOND), Action::SendPing);
    assert_eq!(c.step(Event::Text, SECOND), Action::HandleText);
    assert_eq!(c.step(Event::Ping, SECOND), Action::SendPong);
    assert_eq!(c.step(Event::Other, SECOND), Action::Nothing);
    assert_eq!(c.step(Event::Close, SECOND), Action::End(EndReason::ServerClosed));
    assert_eq!(c.step(Event::ReceiveFailed, SECOND), Action::End(EndReason::ReceiveFailed));
    assert_eq!(c.step(Event::Ended, SECOND), Action::End(EndReason::StreamEnded));
}

#[test]
fn only_silence_ends_a_session() {
    let mut c = Connection::open(0);
    assert_eq!(c.step(Event::IdleCheck, 60 * SECOND), Action::Nothing);
    assert_eq!(c.step(Event::PingDue, 30 * SECOND), Action::SendPing);
    assert_eq!(c.step(Event::IdleCheck, 60 * SECOND + 1), Action::End(EndReason::Idle));
    assert_eq!(c.step(Event::Other, 61 * SECOND), Action::Nothing);
    assert_eq!(c.step(Event::IdleCheck, 121 * SECOND), Action::Nothing);
    assert_eq!(c.step(Event::IdleCheck, 121 * SECOND + 1), Action::End(EndReason::Idle));
    assert_eq!(c.step(Event::IdleCheck, 0), Action::Nothing);
}

#[test]
fn late_messages() {
    assert_eq!(lateness(1_000, 400, 500), Some(600));
    assert_eq!(lateness(1_000, 500, 500), None);
    assert_eq!(lateness(1_000, 0, 500), None);
    assert_eq!(lateness(1_000, -5, 500), None);
    assert_eq!(lateness(1_000, 5_000, 500), None);
    assert_eq!(lateness(1_000, 5_000, -4_500), Some(-4_000));
}

#[test]
fn messages_without_a_stamp_get_the_time_of_arrival() {
    assert_eq!(message_time(7, 9), 7);
    assert_eq!(message_time(0, 9), 9);
    assert_eq!(message_time(-7, 9), 9);
}
