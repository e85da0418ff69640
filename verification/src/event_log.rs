//! The per-run event log: an append-only history with a live fanout.

use crate::messages::{EventRecord, RunEvent};
use tokio::sync::broadcast::error::TryRecvError;
use tokio::sync::broadcast::{Receiver, Sender};
use vstd::prelude::*;

verus! {

/// The sending half of tokio's broadcast channel. Opaque: nothing is known
/// of what is inside.
#[verifier::external_type_specification]
#[verifier::external_body]
#[verifier::reject_recursive_types(T)]
pub struct ExBroadcastSender<T>(Sender<T>);

/// The receiving half of tokio's broadcast channel. Opaque as well.
#[verifier::external_type_specification]
#[verifier::external_body]
#[verifier::reject_recursive_types(T)]
pub struct ExBroadcastReceiver<T>(Receiver<T>);

/// How many live events the fanout retains for a subscriber that has not
/// read them yet. A subscriber that falls further behind is told so.
pub const LIVE_CAPACITY: usize = 1024;

/// What a subscriber finds when it looks at its live tail.
#[derive(Clone, Debug, PartialEq, Eq)]
pub enum LiveItem {
    /// The next live event.
    Event(RunEvent),
    /// This many live events were dropped before the subscriber read them.
    Lagged(u64),
    /// Nothing new has been appended yet.
    Empty,
    /// The log is gone: nothing will be appended any more.
    Closed,
}

/// Creates a fanout with `Sender::new` of tokio's broadcast channel.
///
/// Trusted: nothing is claimed of the channel. tokio panics on a capacity
/// of zero or above `usize::MAX / 2`, which the precondition leaves out.
#[verifier::external_body]
fn fanout_new(capacity: usize) -> (sender: Sender<RunEvent>)
    requires
        0 < capacity <= usize::MAX / 2,
{
    Sender::new(capacity)
}

/// Hands an event to every live subscriber with `Sender::send`, which
/// never waits. That no subscriber is listening is no failure here.
///
/// Trusted: nothing is claimed of the effect on the subscribers.
#[verifier::external_body]
fn fanout_send(sender: &Sender<RunEvent>, event: RunEvent) {
    let _ = sender.send(event);
}

/// Attaches a new subscriber with `Sender::subscribe`: it will be handed
/// what is sent from now on.
///
/// Trusted: nothing is claimed of the receiver. tokio panics when a quarter
/// of `usize::MAX` receivers are attached at once, which no contract over
/// values can express.
#[verifier::external_body]
fn fanout_subscribe(sender: &Sender<RunEvent>) -> (receiver: Receiver<RunEvent>) {
    sender.subscribe()
}

/// Looks for the next live event with `Receiver::try_recv`, without waiting.
///
/// Trusted: nothing is claimed of what is found, which depends on what was
/// sent since the receiver was attached.
#[verifier::external_body]
pub(crate) fn fanout_try_recv(receiver: &mut Receiver<RunEvent>) -> (item: LiveItem) {
    match receiver.try_recv() {
        Ok(event) => LiveItem::Event(event),
        Err(TryRecvError::Lagged(missed)) => LiveItem::Lagged(missed),
        Err(TryRecvError::Empty) => LiveItem::Empty,
        Err(TryRecvError::Closed) => LiveItem::Closed,
    }
}

/// The records that a vector of events holds.
pub open spec fn records(events: Seq<RunEvent>) -> Seq<EventRecord> {
    events.map_values(|event: RunEvent| event@)
}

/// The history that a sequence of payloads stands for: each event's
/// sequence number is its place in the order of appending.
spec fn history_of(payloads: Seq<Vec<u8>>) -> Seq<EventRecord> {
    Seq::new(
        payloads.len(),
        |i: int| EventRecord { sequence: i as nat, payload: payloads[i]@ },
    )
}

/// Sequence numbers count up from zero without a gap or a repeat.
pub open spec fn gapless(history: Seq<EventRecord>) -> bool {
    forall|i: int| 0 <= i < history.len() ==> (#[trigger] history[i]).sequence == i
}

/// The part of a history that a subscriber at `cursor` has yet to see: the
/// events whose sequence number is `cursor` or more, in order.
pub open spec fn backlog_from(history: Seq<EventRecord>, cursor: nat) -> Seq<EventRecord> {
    if cursor <= history.len() {
        history.skip(cursor as int)
    } else {
        Seq::empty()
    }
}

/// A history after one more event with the given payload.
pub open spec fn appended(history: Seq<EventRecord>, payload: Seq<u8>) -> Seq<EventRecord> {
    history.push(EventRecord { sequence: history.len(), payload })
}

/// A history after a run of appends, one for each payload in order.
pub open spec fn appended_all(history: Seq<EventRecord>, payloads: Seq<Seq<u8>>) -> Seq<
    EventRecord,
>
    decreases payloads.len(),
{
    if payloads.len() == 0 {
        history
    } else {
        appended(appended_all(history, payloads.drop_last()), payloads.last())
    }
}

/// An append keeps everything that was stored, in place, and numbers the
/// new event with the length of the history before it: one more than the
/// number of the event before, and more than every number given so far.
pub proof fn lemma_append_continues_numbering(history: Seq<EventRecord>, payload: Seq<u8>)
    requires
        gapless(history),
    ensures
        gapless(appended(history, payload)),
        appended(history, payload).len() == history.len() + 1,
        appended(history, payload).last() == (EventRecord { sequence: history.len(), payload }),
        appended(history, payload).take(history.len() as int) == history,
        forall|i: int|
            0 <= i < history.len() ==> (#[trigger] history[i]).sequence < appended(
                history,
                payload,
            ).last().sequence,
{
    assert(appended(history, payload).take(history.len() as int) =~= history);
}

/// A run of appends extends a history by one event per payload, in order,
/// numbered on from the history's length.
pub proof fn lemma_appended_all(history: Seq<EventRecord>, payloads: Seq<Seq<u8>>)
    requires
        gapless(history),
    ensures
        gapless(appended_all(history, payloads)),
        appended_all(history, payloads).len() == history.len() + payloads.len(),
        appended_all(history, payloads).take(history.len() as int) == history,
        forall|k: int|
            0 <= k < payloads.len() ==> #[trigger] appended_all(history, payloads)[history.len()
                + k] == (EventRecord {
                sequence: (history.len() + k) as nat,
                payload: payloads[k],
            }),
    decreases payloads.len(),
{
    if payloads.len() > 0 {
        let before = appended_all(history, payloads.drop_last());
        lemma_appended_all(history, payloads.drop_last());
        lemma_append_continues_numbering(before, payloads.last());
        let after = appended_all(history, payloads);
        assert(after.take(history.len() as int) =~= before.take(history.len() as int));
        assert forall|k: int| 0 <= k < payloads.len() implies #[trigger] after[history.len() + k]
            == (EventRecord { sequence: (history.len() + k) as nat, payload: payloads[k] }) by {
            if k < payloads.len() - 1 {
                assert(after[history.len() + k] == before[history.len() + k]);
                assert(payloads.drop_last()[k] == payloads[k]);
            }
        }
    } else {
        assert(appended_all(history, payloads).take(history.len() as int) =~= history);
    }
}

/// The sequence numbers that consecutive appends to a new log return are
/// 0, 1, 2, ... without a gap or a repeat: the append after `k` others
/// returns `k`, and stores its payload under that number.
pub proof fn lemma_appends_count_from_zero(payloads: Seq<Seq<u8>>, k: int)
    requires
        0 <= k < payloads.len(),
    ensures
        appended_all(Seq::empty(), payloads.take(k)).len() == k,
        appended_all(Seq::empty(), payloads)[k] == (EventRecord {
            sequence: k as nat,
            payload: payloads[k],
        }),
        gapless(appended_all(Seq::empty(), payloads)),
{
    lemma_appended_all(Seq::empty(), payloads.take(k));
    lemma_appended_all(Seq::empty(), payloads);
    assert(appended_all(Seq::empty(), payloads)[0 + k] == (EventRecord {
        sequence: (0 + k) as nat,
        payload: payloads[k],
    }));
}

/// The backlog of a subscriber at `cursor` is the stored history filtered
/// to the events numbered `cursor` or more, in the order of the history.
pub proof fn lemma_backlog_is_filter(history: Seq<EventRecord>, cursor: nat)
    requires
        gapless(history),
    ensures
        backlog_from(history, cursor) == history.filter(
            |record: EventRecord| record.sequence >= cursor,
        ),
    decreases history.len(),
{
    let wanted = |record: EventRecord| record.sequence >= cursor;
    reveal(Seq::filter);
    if history.len() > 0 {
        let earlier = history.drop_last();
        lemma_backlog_is_filter(earlier, cursor);
        assert(history.last() == history[history.len() - 1]);
        if cursor < history.len() {
            assert(history.filter(wanted) == earlier.filter(wanted).push(history.last()));
            assert(earlier.skip(cursor as int).push(history.last()) =~= history.skip(
                cursor as int,
            ));
        } else {
            assert(history.filter(wanted) == earlier.filter(wanted));
            assert(backlog_from(history, cursor) =~= Seq::<EventRecord>::empty());
            assert(backlog_from(earlier, cursor) =~= Seq::<EventRecord>::empty());
        }
    } else {
        assert(backlog_from(history, cursor) =~= history.filter(wanted));
    }
}

/// A subscriber from the start of a log with `n` events finds exactly
/// those `n` events as its backlog, in the order in which they were
/// appended, numbered 0 to `n - 1`.
pub proof fn lemma_backlog_from_start(history: Seq<EventRecord>)
    requires
        gapless(history),
    ensures
        backlog_from(history, 0) == history,
        forall|i: int|
            0 <= i < backlog_from(history, 0).len() ==> (#[trigger] backlog_from(
                history,
                0,
            )[i]).sequence == i,
{
    assert(backlog_from(history, 0) =~= history);
}

/// The live tail of a subscription is what is appended after it was
/// taken. Backlog and live tail together are the events numbered `cursor`
/// or more of the whole history, each once and in order: nothing is seen
/// twice and nothing is skipped. Every live event is numbered with the
/// length of the history at the subscription or more, and every event of
/// the backlog with less.
pub proof fn lemma_backlog_then_live(
    history: Seq<EventRecord>,
    cursor: nat,
    later: Seq<Seq<u8>>,
)
    requires
        gapless(history),
        cursor <= history.len(),
    ensures
        backlog_from(history, cursor) + appended_all(history, later).skip(history.len() as int)
            == backlog_from(appended_all(history, later), cursor),
        forall|i: int|
            0 <= i < backlog_from(history, cursor).len() ==> cursor <= (#[trigger] backlog_from(
                history,
                cursor,
            )[i]).sequence < history.len(),
        forall|k: int|
            0 <= k < later.len() ==> (#[trigger] appended_all(history, later).skip(
                history.len() as int,
            )[k]) == (EventRecord { sequence: (history.len() + k) as nat, payload: later[k] }),
{
    let whole = appended_all(history, later);
    lemma_appended_all(history, later);
    assert(whole.take(history.len() as int) == history);
    assert forall|i: int| 0 <= i < history.len() implies whole[i] == history[i] by {
        assert(whole.take(history.len() as int)[i] == whole[i]);
    }
    assert(backlog_from(history, cursor) + whole.skip(history.len() as int) =~= backlog_from(
        whole,
        cursor,
    ));
    assert forall|k: int| 0 <= k < later.len() implies (#[trigger] whole.skip(
        history.len() as int,
    )[k]) == (EventRecord { sequence: (history.len() + k) as nat, payload: later[k] }) by {
        assert(whole[history.len() + k] == (EventRecord {
            sequence: (history.len() + k) as nat,
            payload: later[k],
        }));
    }
}

/// The ordered, append-only history of one run, with its live fanout.
#[derive(Debug)]
pub struct InMemoryEventLog {
    payloads: Vec<Vec<u8>>,
    sender: Sender<RunEvent>,
}

/// A subscriber's view of a log: what was stored when it subscribed, and a
/// handle on everything appended afterwards.
#[derive(Debug)]
pub struct Subscription {
    pub backlog: Vec<RunEvent>,
    pub receiver: Receiver<RunEvent>,
}

impl InMemoryEventLog {
    /// The history stored so far, oldest first.
    pub closed spec fn view(&self) -> Seq<EventRecord> {
        history_of(self.payloads@)
    }

    /// The stored history numbers its events 0, 1, 2, ... in the order in
    /// which they were appended.
    pub proof fn lemma_history_gapless(&self)
        ensures
            gapless(self@),
    {
    }

    /// An empty log.
    pub fn new() -> (log: InMemoryEventLog)
        ensures
            log@ == Seq::<EventRecord>::empty(),
    {
        let log = InMemoryEventLog { payloads: Vec::new(), sender: fanout_new(LIVE_CAPACITY) };
        assert(log@ =~= Seq::<EventRecord>::empty());
        log
    }

    /// The number of events stored.
    pub fn len(&self) -> (len: usize)
        ensures
            len == self@.len(),
    {
        self.payloads.len()
    }

    /// Stores `event` at the end of the history and hands it to the live
    /// subscribers. The event's sequence number is assigned here, whatever
    /// the caller wrote into it: it is the number of events stored before,
    /// and it is returned.
    pub fn append(&mut self, event: RunEvent) -> (sequence: u64)
        ensures
            sequence == old(self)@.len(),
            final(self)@ == appended(old(self)@, event.payload@),
    {
        let sequence = self.payloads.len() as u64;
        let live = RunEvent { event_seq: sequence, payload: event.payload.clone() };
        self.payloads.push(event.payload);
        fanout_send(&self.sender, live);
        proof {
            assert(self@ =~= appended(old(self)@, event.payload@));
        }
        sequence
    }

    /// The stored events from sequence number `since` on, and a handle on
    /// the live tail. Both are taken in one step: while `self` is borrowed
    /// here nothing can be appended, so every event is in exactly one of the
    /// two.
    pub fn subscribe(&self, since: u64) -> (subscription: Subscription)
        ensures
            records(subscription.backlog@) == backlog_from(self@, since as nat),
    {
        let mut backlog: Vec<RunEvent> = Vec::new();
        let total = self.payloads.len();
        let mut i: usize = if since < total as u64 {
            since as usize
        } else {
            total
        };
        let ghost start = i as int;
        let ghost history = self@;
        assert(history.len() == total);
        assert(records(backlog@) =~= history.subrange(start, i as int));
        while i < total
            invariant
                0 <= start <= i <= total,
                total == self.payloads@.len(),
                history == history_of(self.payloads@),
                history.len() == total,
                records(backlog@) == history.subrange(start, i as int),
            decreases total - i,
        {
            let ghost before = backlog@;
            let event = RunEvent { event_seq: i as u64, payload: self.payloads[i].clone() };
            assert(event@ == history[i as int]);
            backlog.push(event);
            proof {
                assert(backlog@ == before.push(event));
                assert(records(backlog@) =~= records(before).push(event@));
                assert(records(backlog@) =~= history.subrange(start, i + 1));
            }
            i += 1;
        }
        let receiver = fanout_subscribe(&self.sender);
        proof {
            assert(self@.subrange(start, total as int) =~= backlog_from(self@, since as nat));
        }
        Subscription { backlog, receiver }
    }
}

impl Subscription {
    /// Looks at the live tail without waiting. What is found there depends
    /// on what was appended to the log since the subscription was taken,
    /// which no contract over this value can tell. The backlog is left as
    /// it was, whatever is found.
    pub fn poll_live(&mut self) -> (item: LiveItem)
        ensures
            final(self).backlog == old(self).backlog,
    {
        fanout_try_recv(&mut self.receiver)
    }
}

} // verus!
