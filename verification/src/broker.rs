//! The subscription broker: decides, step by step, what a subscriber is
//! handed next. It replays the backlog in order, then forwards the live
//! tail, and ends when the consumer is gone or the subscriber has lagged.
//!
//! The broker performs no waiting itself. Its driver carries out each
//! action (handing an item to the consumer, waiting for the fanout) and
//! reports what happened as the next input.

use crate::event_log::{fanout_try_recv, records, LiveItem, Subscription};
use crate::messages::{EventRecord, RunEvent};
use crate::status::{Code, Status, StatusView};
use tokio::sync::broadcast::Receiver;
use vstd::prelude::*;

verus! {

/// How many items may wait between the broker and a consumer. A driver
/// that queues deliveries holds them in a queue of this capacity and
/// suspends while it is full.
pub const DELIVERY_QUEUE_CAPACITY: usize = 32;

/// Where a subscription stands.
#[derive(Clone, Copy, Debug, PartialEq, Eq, Structural)]
pub enum BrokerPhase {
    /// Stored events are being handed over.
    Replaying,
    /// The backlog is done; live events are handed over as they arrive.
    Live,
    /// The consumer is gone, or the log is. Not a failure.
    Closed,
    /// The subscriber fell behind the fanout and live events were lost.
    Failed,
}

/// What the driver reports to the broker.
#[derive(Clone, Debug, PartialEq, Eq)]
pub enum BrokerInput {
    /// The consumer can take an item: the last one was handed over, or none
    /// was handed over yet.
    Ready,
    /// The consumer has disconnected.
    ConsumerGone,
    /// What the live tail held when the driver looked at it.
    Live(LiveItem),
}

/// What the driver has to do next.
#[derive(Clone, Debug, PartialEq, Eq)]
pub enum BrokerAction {
    /// Hand this event to the consumer, then report `Ready` or `ConsumerGone`.
    Deliver(RunEvent),
    /// Look at the live tail, then report what it held.
    Receive,
    /// Hand this failure to the consumer and end the stream.
    Fail(Status),
    /// End the stream without a word.
    Stop,
}

/// What a `BrokerAction` says.
pub enum ActionView {
    Deliver(EventRecord),
    Receive,
    Fail(StatusView),
    Stop,
}

impl View for BrokerAction {
    type V = ActionView;

    open spec fn view(&self) -> ActionView {
        match self {
            BrokerAction::Deliver(event) => ActionView::Deliver(event@),
            BrokerAction::Receive => ActionView::Receive,
            BrokerAction::Fail(status) => ActionView::Fail(status@),
            BrokerAction::Stop => ActionView::Stop,
        }
    }
}

/// The state of a broker: its phase and the backlog still to be replayed.
pub struct BrokerState {
    pub phase: BrokerPhase,
    pub pending: Seq<EventRecord>,
}

/// The failure that a lagging subscriber is told.
pub open spec fn lagged_status() -> StatusView {
    StatusView { code: Code::Unavailable, message: "event stream lagged"@ }
}

/// The state of a stream that has ended in the given phase.
pub open spec fn ended(phase: BrokerPhase) -> BrokerState {
    BrokerState { phase, pending: Seq::empty() }
}

/// One step of the broker: the state after `input`, and the action to take.
///
/// While replaying, each `Ready` hands over the next stored event; when none
/// is left the broker goes live and asks for the live tail. Live, an event
/// is handed over as it arrives, and a lag ends the stream with a failure:
/// the broker never goes on past a gap. A live item offered before the
/// backlog is replayed cannot be delivered in order, so it ends the stream
/// in the same way. A consumer that is gone ends the stream silently, and
/// so does a log that is gone. A stream that has ended stays ended.
pub open spec fn step(state: BrokerState, input: BrokerInput) -> (BrokerState, ActionView) {
    match state.phase {
        BrokerPhase::Closed | BrokerPhase::Failed => (state, ActionView::Stop),
        BrokerPhase::Replaying => match input {
            BrokerInput::ConsumerGone => (ended(BrokerPhase::Closed), ActionView::Stop),
            BrokerInput::Ready => if state.pending.len() > 0 {
                (
                    BrokerState { phase: BrokerPhase::Replaying, pending: state.pending.skip(1) },
                    ActionView::Deliver(state.pending[0]),
                )
            } else {
                (ended(BrokerPhase::Live), ActionView::Receive)
            },
            BrokerInput::Live(_) => (
                ended(BrokerPhase::Failed),
                ActionView::Fail(lagged_status()),
            ),
        },
        BrokerPhase::Live => match input {
            BrokerInput::ConsumerGone => (ended(BrokerPhase::Closed), ActionView::Stop),
            BrokerInput::Ready => (ended(BrokerPhase::Live), ActionView::Receive),
            BrokerInput::Live(LiveItem::Event(event)) => (
                ended(BrokerPhase::Live),
                ActionView::Deliver(event@),
            ),
            BrokerInput::Live(LiveItem::Lagged(_)) => (
                ended(BrokerPhase::Failed),
                ActionView::Fail(lagged_status()),
            ),
            BrokerInput::Live(LiveItem::Empty) => (ended(BrokerPhase::Live), ActionView::Receive),
            BrokerInput::Live(LiveItem::Closed) => (ended(BrokerPhase::Closed), ActionView::Stop),
        },
    }
}

/// The order of the phases: a stream only ever moves to a later one.
pub open spec fn phase_rank(phase: BrokerPhase) -> int {
    match phase {
        BrokerPhase::Replaying => 0,
        BrokerPhase::Live => 1,
        BrokerPhase::Closed => 2,
        BrokerPhase::Failed => 2,
    }
}

/// Whether a stream in this phase has ended.
pub open spec fn is_terminal(phase: BrokerPhase) -> bool {
    phase == BrokerPhase::Closed || phase == BrokerPhase::Failed
}

/// The broker of one subscription.
#[derive(Debug)]
pub struct SubscriptionBroker {
    phase: BrokerPhase,
    backlog: Vec<RunEvent>,
    replayed: usize,
}

impl SubscriptionBroker {
    /// The phase and the backlog still to be replayed.
    pub closed spec fn view(&self) -> BrokerState {
        BrokerState {
            phase: self.phase,
            pending: if self.phase == BrokerPhase::Replaying && self.replayed
                <= self.backlog@.len() {
                records(self.backlog@).skip(self.replayed as int)
            } else {
                Seq::empty()
            },
        }
    }

    /// A broker that is about to replay `backlog`.
    pub fn new(backlog: Vec<RunEvent>) -> (broker: SubscriptionBroker)
        ensures
            broker@ == (BrokerState {
                phase: BrokerPhase::Replaying,
                pending: records(backlog@),
            }),
    {
        let broker = SubscriptionBroker { phase: BrokerPhase::Replaying, backlog, replayed: 0 };
        assert(broker@.pending =~= records(backlog@));
        broker
    }

    /// The phase that the subscription is in.
    pub fn phase(&self) -> (phase: BrokerPhase)
        ensures
            phase == self@.phase,
    {
        self.phase
    }

    /// Takes one step: moves on to the state after `input` and returns the
    /// action that the driver has to take.
    pub fn next_action(&mut self, input: BrokerInput) -> (action: BrokerAction)
        ensures
            (final(self)@, action@) == step(old(self)@, input),
    {
        match self.phase {
            BrokerPhase::Closed => BrokerAction::Stop,
            BrokerPhase::Failed => BrokerAction::Stop,
            BrokerPhase::Replaying => match input {
                BrokerInput::ConsumerGone => {
                    self.phase = BrokerPhase::Closed;
                    BrokerAction::Stop
                },
                BrokerInput::Ready => {
                    if self.replayed < self.backlog.len() {
                        let stored = &self.backlog[self.replayed];
                        let event = RunEvent {
                            event_seq: stored.event_seq,
                            payload: stored.payload.clone(),
                        };
                        self.replayed = self.replayed + 1;
                        proof {
                            assert(self@.pending =~= old(self)@.pending.skip(1));
                        }
                        BrokerAction::Deliver(event)
                    } else {
                        self.phase = BrokerPhase::Live;
                        BrokerAction::Receive
                    }
                },
                BrokerInput::Live(_) => {
                    self.phase = BrokerPhase::Failed;
                    BrokerAction::Fail(Status::unavailable("event stream lagged"))
                },
            },
            BrokerPhase::Live => match input {
                BrokerInput::ConsumerGone => {
                    self.phase = BrokerPhase::Closed;
                    BrokerAction::Stop
                },
                BrokerInput::Ready => BrokerAction::Receive,
                BrokerInput::Live(LiveItem::Event(event)) => BrokerAction::Deliver(event),
                BrokerInput::Live(LiveItem::Lagged(_)) => {
                    self.phase = BrokerPhase::Failed;
                    BrokerAction::Fail(Status::unavailable("event stream lagged"))
                },
                BrokerInput::Live(LiveItem::Empty) => BrokerAction::Receive,
                BrokerInput::Live(LiveItem::Closed) => {
                    self.phase = BrokerPhase::Closed;
                    BrokerAction::Stop
                },
            },
        }
    }
}

/// What a consumer finds when it asks a stream for its next item.
#[derive(Clone, Debug, PartialEq, Eq)]
pub enum StreamPoll {
    /// The next event of the run.
    Item(RunEvent),
    /// The stream has failed; this is its last word.
    Failed(Status),
    /// Nothing new yet; the stream is still open.
    Pending,
    /// The stream has ended.
    Ended,
}

/// What a `StreamPoll` says.
pub enum PollView {
    Item(EventRecord),
    Failed(StatusView),
    Pending,
    Ended,
}

impl View for StreamPoll {
    type V = PollView;

    open spec fn view(&self) -> PollView {
        match self {
            StreamPoll::Item(event) => PollView::Item(event@),
            StreamPoll::Failed(status) => PollView::Failed(status@),
            StreamPoll::Pending => PollView::Pending,
            StreamPoll::Ended => PollView::Ended,
        }
    }
}

/// What a consumer is told for an action of the broker.
pub open spec fn poll_for(action: ActionView) -> PollView {
    match action {
        ActionView::Deliver(event) => PollView::Item(event),
        ActionView::Fail(status) => PollView::Failed(status),
        ActionView::Receive => PollView::Pending,
        ActionView::Stop => PollView::Ended,
    }
}

/// One poll of a stream whose live tail holds `item`: the consumer is ready,
/// and if the broker then asks for the live tail, it is given `item`.
pub open spec fn polled(state: BrokerState, item: LiveItem) -> (BrokerState, PollView) {
    let (ready, first) = step(state, BrokerInput::Ready);
    if first == ActionView::Receive {
        let (after, second) = step(ready, BrokerInput::Live(item));
        (after, poll_for(second))
    } else {
        (ready, poll_for(first))
    }
}

/// The event stream of one subscription, for a consumer that polls.
#[derive(Debug)]
pub struct RunEventStream {
    pub broker: SubscriptionBroker,
    pub receiver: Receiver<RunEvent>,
}

impl RunEventStream {
    /// The stream of a subscription: its backlog first, then its live tail.
    pub fn new(subscription: Subscription) -> (stream: RunEventStream)
        ensures
            stream.broker@ == (BrokerState {
                phase: BrokerPhase::Replaying,
                pending: records(subscription.backlog@),
            }),
            stream.receiver == subscription.receiver,
    {
        RunEventStream {
            broker: SubscriptionBroker::new(subscription.backlog),
            receiver: subscription.receiver,
        }
    }

    /// The next item, if there is one now. Never waits.
    ///
    /// While the backlog lasts the answer is its next event. After that it
    /// is what the broker makes of the live tail: whatever the tail holds,
    /// the stream moves as `polled` says.
    pub fn try_next(&mut self) -> (poll: StreamPoll)
        ensures
            old(self).broker@.phase == BrokerPhase::Replaying && old(self).broker@.pending.len() > 0
                ==> poll@ == PollView::Item(old(self).broker@.pending[0])
                && final(self).broker@ == (BrokerState {
                phase: BrokerPhase::Replaying,
                pending: old(self).broker@.pending.skip(1),
            }),
            exists|item: LiveItem|
                (final(self).broker@, poll@) == #[trigger] polled(old(self).broker@, item),
    {
        let first = self.broker.next_action(BrokerInput::Ready);
        match first {
            BrokerAction::Deliver(event) => {
                assert((self.broker@, PollView::Item(event@)) == polled(
                    old(self).broker@,
                    LiveItem::Empty,
                ));
                StreamPoll::Item(event)
            },
            BrokerAction::Fail(status) => {
                assert((self.broker@, PollView::Failed(status@)) == polled(
                    old(self).broker@,
                    LiveItem::Empty,
                ));
                StreamPoll::Failed(status)
            },
            BrokerAction::Stop => {
                assert((self.broker@, PollView::Ended) == polled(
                    old(self).broker@,
                    LiveItem::Empty,
                ));
                StreamPoll::Ended
            },
            BrokerAction::Receive => {
                let item = fanout_try_recv(&mut self.receiver);
                let ghost witness = item;
                let second = self.broker.next_action(BrokerInput::Live(item));
                let poll = match second {
                    BrokerAction::Deliver(event) => StreamPoll::Item(event),
                    BrokerAction::Fail(status) => StreamPoll::Failed(status),
                    BrokerAction::Stop => StreamPoll::Ended,
                    BrokerAction::Receive => StreamPoll::Pending,
                };
                assert((self.broker@, poll@) == polled(old(self).broker@, witness));
                poll
            },
        }
    }
}

/// No step returns to an earlier phase, and a stream that has ended stays
/// as it is and only ever answers `Stop`.
pub proof fn lemma_step_never_goes_back(state: BrokerState, input: BrokerInput)
    ensures
        phase_rank(step(state, input).0.phase) >= phase_rank(state.phase),
        is_terminal(state.phase) ==> step(state, input) == (state, ActionView::Stop),
{
}

/// The state of a broker after its consumer was ready `count` times in a
/// row.
pub open spec fn after_ready(state: BrokerState, count: nat) -> BrokerState
    decreases count,
{
    if count == 0 {
        state
    } else {
        step(after_ready(state, (count - 1) as nat), BrokerInput::Ready).0
    }
}

/// A broker replays its backlog in order and in full before it goes live:
/// to a consumer that keeps taking, the step after `count` others hands
/// over the stored event at place `count`, and once every stored event is
/// handed over the next step goes live and asks for the live tail.
pub proof fn lemma_replay_in_order(backlog: Seq<EventRecord>, count: nat)
    requires
        count <= backlog.len(),
    ensures
        after_ready(BrokerState { phase: BrokerPhase::Replaying, pending: backlog }, count) == (
            BrokerState { phase: BrokerPhase::Replaying, pending: backlog.skip(count as int) }),
        count < backlog.len() ==> step(
            after_ready(BrokerState { phase: BrokerPhase::Replaying, pending: backlog }, count),
            BrokerInput::Ready,
        ).1 == ActionView::Deliver(backlog[count as int]),
        count == backlog.len() ==> step(
            after_ready(BrokerState { phase: BrokerPhase::Replaying, pending: backlog }, count),
            BrokerInput::Ready,
        ) == (ended(BrokerPhase::Live), ActionView::Receive),
    decreases count,
{
    let start = BrokerState { phase: BrokerPhase::Replaying, pending: backlog };
    if count == 0 {
        assert(backlog.skip(0) =~= backlog);
    } else {
        lemma_replay_in_order(backlog, (count - 1) as nat);
        assert(backlog.skip(count - 1).skip(1) =~= backlog.skip(count as int));
    }
}

/// The state of a broker after a run of inputs, and the actions that it
/// answered them with, in order.
pub open spec fn run(state: BrokerState, inputs: Seq<BrokerInput>) -> (BrokerState, Seq<ActionView>)
    decreases inputs.len(),
{
    if inputs.len() == 0 {
        (state, Seq::empty())
    } else {
        let (before, actions) = run(state, inputs.drop_last());
        let (after, action) = step(before, inputs.last());
        (after, actions.push(action))
    }
}

/// The events that a run of actions hands to the consumer, in order.
pub open spec fn deliveries(actions: Seq<ActionView>) -> Seq<EventRecord>
    decreases actions.len(),
{
    if actions.len() == 0 {
        Seq::empty()
    } else {
        match actions.last() {
            ActionView::Deliver(event) => deliveries(actions.drop_last()).push(event),
            _ => deliveries(actions.drop_last()),
        }
    }
}

/// The live events that a run of inputs reports, in order.
pub open spec fn live_events(inputs: Seq<BrokerInput>) -> Seq<EventRecord>
    decreases inputs.len(),
{
    if inputs.len() == 0 {
        Seq::empty()
    } else {
        match inputs.last() {
            BrokerInput::Live(LiveItem::Event(event)) => live_events(inputs.drop_last()).push(
                event@,
            ),
            _ => live_events(inputs.drop_last()),
        }
    }
}

/// Whatever its driver reports, a broker hands over the backlog first and
/// then the live events in the order in which they were reported, each
/// once and none out of turn: what was delivered so far is always a leading
/// part of the backlog followed by the live events. While the stream is
/// live nothing that was reported is missing from it.
pub proof fn lemma_delivery_in_order(backlog: Seq<EventRecord>, inputs: Seq<BrokerInput>)
    ensures
        ({
            let start = BrokerState { phase: BrokerPhase::Replaying, pending: backlog };
            let (state, actions) = run(start, inputs);
            let delivered = deliveries(actions);
            let offered = backlog + live_events(inputs);
            &&& delivered.len() <= offered.len()
            &&& delivered == offered.take(delivered.len() as int)
            &&& state.phase == BrokerPhase::Replaying ==> delivered + state.pending == backlog
            &&& state.phase == BrokerPhase::Live ==> delivered == offered
        }),
    decreases inputs.len(),
{
    let start = BrokerState { phase: BrokerPhase::Replaying, pending: backlog };
    let (state, actions) = run(start, inputs);
    let delivered = deliveries(actions);
    let offered = backlog + live_events(inputs);
    if inputs.len() == 0 {
        assert(delivered =~= offered.take(0));
        assert(delivered + state.pending =~= backlog);
    } else {
        let earlier = inputs.drop_last();
        lemma_delivery_in_order(backlog, earlier);
        let (before, answered) = run(start, earlier);
        let sofar = deliveries(answered);
        let known = backlog + live_events(earlier);
        assert(actions.drop_last() =~= answered);
        assert(known =~= offered.take(known.len() as int));
        assert(sofar =~= offered.take(sofar.len() as int));
        match before.phase {
            BrokerPhase::Replaying => {
                assert(sofar + before.pending == backlog);
                if inputs.last() == BrokerInput::Ready && before.pending.len() > 0 {
                    assert(delivered == sofar.push(before.pending[0]));
                    assert(backlog[sofar.len() as int] == before.pending[0]);
                    assert(delivered =~= offered.take(delivered.len() as int));
                    assert(delivered + state.pending =~= backlog);
                } else if inputs.last() == BrokerInput::Ready {
                    assert(sofar =~= backlog);
                    assert(live_events(earlier).len() == 0) by {
                        lemma_no_live_events_while_replaying(backlog, earlier);
                    }
                    assert(delivered =~= offered);
                }
            },
            BrokerPhase::Live => {
                assert(delivered =~= offered.take(delivered.len() as int));
                assert(state.phase == BrokerPhase::Live ==> delivered =~= offered);
            },
            _ => {},
        }
    }
}

proof fn lemma_no_live_events_while_replaying(backlog: Seq<EventRecord>, inputs: Seq<BrokerInput>)
    requires
        run(BrokerState { phase: BrokerPhase::Replaying, pending: backlog }, inputs).0.phase
            == BrokerPhase::Replaying,
    ensures
        live_events(inputs).len() == 0,
    decreases inputs.len(),
{
    if inputs.len() > 0 {
        let start = BrokerState { phase: BrokerPhase::Replaying, pending: backlog };
        let before = run(start, inputs.drop_last()).0;
        lemma_step_never_goes_back(before, inputs.last());
        lemma_no_live_events_while_replaying(backlog, inputs.drop_last());
    }
}

/// A stream fails only by lagging, and then says so: the one step into
/// `Failed` hands the consumer the lag failure. A lag reported while live
/// always takes that step, so no event is delivered past a gap.
pub proof fn lemma_lag_is_reported(state: BrokerState, input: BrokerInput)
    ensures
        state.phase != BrokerPhase::Failed && step(state, input).0.phase == BrokerPhase::Failed
            ==> step(state, input).1 == ActionView::Fail(lagged_status()),
        !is_terminal(state.phase) && (input matches BrokerInput::Live(LiveItem::Lagged(_)))
            ==> step(state, input) == (
            ended(BrokerPhase::Failed),
            ActionView::Fail(lagged_status()),
        ),
{
}

/// A consumer that goes away ends the stream silently: the stream is
/// closed, not failed, and nothing more is handed over.
pub proof fn lemma_cancellation_is_silent(state: BrokerState)
    requires
        !is_terminal(state.phase),
    ensures
        step(state, BrokerInput::ConsumerGone) == (ended(BrokerPhase::Closed), ActionView::Stop),
{
}

} // verus!
