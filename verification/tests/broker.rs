use cork_core::broker::{
    BrokerAction, BrokerInput, BrokerPhase, RunEventStream, StreamPoll, SubscriptionBroker,
    DELIVERY_QUEUE_CAPACITY,
};
use cork_core::event_log::{InMemoryEventLog, LiveItem, LIVE_CAPACITY};
use cork_core::messages::RunEvent;
use cork_core::status::{Code, Status};

fn stored(sequence: u64) -> RunEvent {
    RunEvent { event_seq: sequence, payload: vec![sequence as u8] }
}

fn lagged() -> Status {
    Status { code: Code::Unavailable, message: "event stream lagged".to_string() }
}

#[test]
fn broker_replays_the_backlog_in_order_then_goes_live() {
    let mut broker = SubscriptionBroker::new(vec![stored(0), stored(1), stored(2)]);
    assert_eq!(broker.phase(), BrokerPhase::Replaying);
    for sequence in 0..3 {
        assert_eq!(broker.next_action(BrokerInput::Ready), BrokerAction::Deliver(stored(sequence)));
        assert_eq!(broker.phase(), BrokerPhase::Replaying);
    }
    assert_eq!(broker.next_action(BrokerInput::Ready), BrokerAction::Receive);
    assert_eq!(broker.phase(), BrokerPhase::Live);
}

#[test]
fn broker_with_an_empty_backlog_goes_live_at_once() {
    let mut broker = SubscriptionBroker::new(Vec::new());
    assert_eq!(broker.next_action(BrokerInput::Ready), BrokerAction::Receive);
    assert_eq!(broker.phase(), BrokerPhase::Live);
}

#[test]
fn broker_forwards_live_events_as_they_arrive() {
    let mut broker = SubscriptionBroker::new(Vec::new());
    assert_eq!(broker.next_action(BrokerInput::Ready), BrokerAction::Receive);
    assert_eq!(
        broker.next_action(BrokerInput::Live(LiveItem::Event(stored(0)))),
        BrokerAction::Deliver(stored(0))
    );
    assert_eq!(broker.next_action(BrokerInput::Ready), BrokerAction::Receive);
    assert_eq!(broker.next_action(BrokerInput::Live(LiveItem::Empty)), BrokerAction::Receive);
    assert_eq!(
        broker.next_action(BrokerInput::Live(LiveItem::Event(stored(1)))),
        BrokerAction::Deliver(stored(1))
    );
    assert_eq!(broker.phase(), BrokerPhase::Live);
}

#[test]
fn broker_stops_silently_when_the_consumer_is_gone_during_replay() {
    let mut broker = SubscriptionBroker::new(vec![stored(0), stored(1)]);
    assert_eq!(broker.next_action(BrokerInput::Ready), BrokerAction::Deliver(stored(0)));
    assert_eq!(broker.next_action(BrokerInput::ConsumerGone), BrokerAction::Stop);
    assert_eq!(broker.phase(), BrokerPhase::Closed);
    assert_eq!(broker.next_action(BrokerInput::Ready), BrokerAction::Stop);
    assert_eq!(broker.phase(), BrokerPhase::Closed);
}

#[test]
fn broker_stops_silently_when_the_consumer_is_gone_while_live() {
    let mut broker = SubscriptionBroker::new(Vec::new());
    assert_eq!(broker.next_action(BrokerInput::Ready), BrokerAction::Receive);
    assert_eq!(
        broker.next_action(BrokerInput::Live(LiveItem::Event(stored(0)))),
        BrokerAction::Deliver(stored(0))
    );
    assert_eq!(broker.next_action(BrokerInput::ConsumerGone), BrokerAction::Stop);
    assert_eq!(broker.phase(), BrokerPhase::Closed);
}

#[test]
fn broker_fails_the_stream_on_lag_and_stays_failed() {
    let mut broker = SubscriptionBroker::new(Vec::new());
    assert_eq!(broker.next_action(BrokerInput::Ready), BrokerAction::Receive);
    assert_eq!(
        broker.next_action(BrokerInput::Live(LiveItem::Lagged(3))),
        BrokerAction::Fail(lagged())
    );
    assert_eq!(broker.phase(), BrokerPhase::Failed);
    assert_eq!(broker.next_action(BrokerInput::Ready), BrokerAction::Stop);
    assert_eq!(
        broker.next_action(BrokerInput::Live(LiveItem::Event(stored(9)))),
        BrokerAction::Stop
    );
    assert_eq!(broker.next_action(BrokerInput::ConsumerGone), BrokerAction::Stop);
    assert_eq!(broker.phase(), BrokerPhase::Failed);
}

#[test]
fn broker_closes_when_the_log_is_gone() {
    let mut broker = SubscriptionBroker::new(Vec::new());
    assert_eq!(broker.next_action(BrokerInput::Ready), BrokerAction::Receive);
    assert_eq!(broker.next_action(BrokerInput::Live(LiveItem::Closed)), BrokerAction::Stop);
    assert_eq!(broker.phase(), BrokerPhase::Closed);
}

#[test]
fn broker_fails_a_stream_that_is_offered_live_items_during_replay() {
    let mut broker = SubscriptionBroker::new(vec![stored(0)]);
    assert_eq!(
        broker.next_action(BrokerInput::Live(LiveItem::Event(stored(1)))),
        BrokerAction::Fail(lagged())
    );
    assert_eq!(broker.phase(), BrokerPhase::Failed);
}

#[test]
fn stream_yields_backlog_then_live_then_pending() {
    let mut log = InMemoryEventLog::new();
    log.append(RunEvent { event_seq: 0, payload: b"stored".to_vec() });
    let mut stream = RunEventStream::new(log.subscribe(0));
    assert_eq!(
        stream.try_next(),
        StreamPoll::Item(RunEvent { event_seq: 0, payload: b"stored".to_vec() })
    );
    assert_eq!(stream.try_next(), StreamPoll::Pending);
    log.append(RunEvent { event_seq: 0, payload: b"live".to_vec() });
    assert_eq!(
        stream.try_next(),
        StreamPoll::Item(RunEvent { event_seq: 1, payload: b"live".to_vec() })
    );
    assert_eq!(stream.try_next(), StreamPoll::Pending);
    drop(log);
    assert_eq!(stream.try_next(), StreamPoll::Ended);
    assert_eq!(stream.try_next(), StreamPoll::Ended);
}

#[test]
fn stalled_subscriber_receives_a_terminal_lag_error() {
    let mut log = InMemoryEventLog::new();
    let mut stream = RunEventStream::new(log.subscribe(0));
    assert_eq!(stream.try_next(), StreamPoll::Pending);
    for _ in 0..LIVE_CAPACITY + 1 {
        log.append(RunEvent::default());
    }
    assert_eq!(stream.try_next(), StreamPoll::Failed(lagged()));
    assert_eq!(stream.try_next(), StreamPoll::Ended);
    log.append(RunEvent::default());
    assert_eq!(stream.try_next(), StreamPoll::Ended);
}

#[test]
fn stalled_consumer_behind_a_full_queue_gets_its_queue_then_the_lag_error() {
    let mut log = InMemoryEventLog::new();
    let mut subscription = log.subscribe(0);
    let mut broker = SubscriptionBroker::new(std::mem::take(&mut subscription.backlog));
    let mut queue: Vec<Result<RunEvent, Status>> = Vec::new();
    let mut input = BrokerInput::Ready;
    let total = LIVE_CAPACITY + DELIVERY_QUEUE_CAPACITY + 1;
    let mut appended = 0;
    // The consumer takes nothing: the driver fills the queue and then
    // suspends, while the log goes on appending.
    loop {
        if appended < total {
            log.append(RunEvent::default());
            appended += 1;
        }
        if queue.len() == DELIVERY_QUEUE_CAPACITY {
            if appended == total {
                break;
            }
            continue;
        }
        input = match broker.next_action(input) {
            BrokerAction::Deliver(event) => {
                queue.push(Ok(event));
                BrokerInput::Ready
            }
            BrokerAction::Receive => BrokerInput::Live(subscription.poll_live()),
            other => panic!("unexpected action while the subscriber keeps up: {:?}", other),
        };
    }
    // The consumer comes back and drains what was queued: the first
    // events, in order and without a gap.
    for (at, item) in queue.drain(..).enumerate() {
        assert_eq!(item.expect("queued event").event_seq, at as u64);
    }
    // The driver resumes and finds that the live tail has moved on.
    assert_eq!(broker.next_action(input), BrokerAction::Receive);
    let action = broker.next_action(BrokerInput::Live(subscription.poll_live()));
    assert_eq!(action, BrokerAction::Fail(lagged()));
    assert_eq!(broker.phase(), BrokerPhase::Failed);
    assert_eq!(broker.next_action(BrokerInput::Ready), BrokerAction::Stop);
}
