//! An unbounded first-in first-out queue of events, with a closed flag.
use vstd::prelude::*;
use std::collections::VecDeque;

verus! {

/// The queue's contents and whether its producing side has gone.
pub struct QueueView {
    pub events: Seq<String>,
    pub closed: bool,
}

/// What one poll of the queue finds.
#[derive(Clone, Debug, PartialEq, Eq)]
pub enum PollOutcome {
    /// The oldest event, now removed from the queue.
    Event(String),
    /// Nothing is queued yet: wait for a push and poll again.
    Pending,
    /// Nothing is queued and nothing will be: the stream has ended.
    Closed,
}

/// The outcome and queue after one poll of `q`.
pub open spec fn spec_poll(q: QueueView) -> (PollOutcome, QueueView) {
    if q.events.len() > 0 {
        (PollOutcome::Event(q.events[0]), QueueView { events: q.events.drop_first(), ..q })
    } else if q.closed {
        (PollOutcome::Closed, q)
    } else {
        (PollOutcome::Pending, q)
    }
}

/// The queue after `q` receives `e`.
pub open spec fn spec_push(q: QueueView, e: String) -> QueueView {
    QueueView { events: q.events.push(e), ..q }
}

/// Events in arrival order, handed out once each from the front.
pub struct EventQueue {
    events: VecDeque<String>,
    closed: bool,
}

impl View for EventQueue {
    type V = QueueView;

    closed spec fn view(&self) -> QueueView {
        QueueView { events: self.events@, closed: self.closed }
    }
}

impl EventQueue {
    /// An empty, open queue.
    pub fn new() -> (r: EventQueue)
        ensures
            r@.events == Seq::<String>::empty(),
            !r@.closed,
    {
        EventQueue { events: VecDeque::new(), closed: false }
    }

    /// Appends `event` at the back; never blocks and never drops an event.
    pub fn push(&mut self, event: String)
        ensures
            final(self)@ == spec_push(old(self)@, event),
    {
        self.events.push_back(event);
    }

    /// Marks that no producer is left; queued events are still handed out.
    pub fn close(&mut self)
        ensures
            final(self)@ == (QueueView { closed: true, ..old(self)@ }),
    {
        self.closed = true;
    }

    /// Removes and returns the oldest event, or says why there is none.
    pub fn poll(&mut self) -> (r: PollOutcome)
        ensures
            (r, final(self)@) == spec_poll(old(self)@),
    {
        match self.events.pop_front() {
            Some(e) => {
                proof {
                    assert(self.events@ =~= old(self)@.events.drop_first());
                }
                PollOutcome::Event(e)
            },
            None => {
                if self.closed {
                    PollOutcome::Closed
                } else {
                    PollOutcome::Pending
                }
            },
        }
    }

    /// The number of events waiting.
    pub fn len(&self) -> (r: usize)
        ensures
            r as nat == self@.events.len(),
    {
        self.events.len()
    }
}

/// The queue after `k` polls of `q`, each made while an event waits.
pub open spec fn poll_times(q: QueueView, k: nat) -> QueueView
    decreases k,
{
    if k == 0 {
        q
    } else {
        spec_poll(poll_times(q, (k - 1) as nat)).1
    }
}

/// Pushing events in order and then polling hands them back in that same order:
/// the `i`-th poll after the queued ones returns the `i`-th pushed event.
pub proof fn lemma_fifo_order(q: QueueView, pushed: Seq<String>, i: nat)
    requires
        i < pushed.len(),
    ensures
        spec_poll(poll_times(QueueView { events: q.events + pushed, ..q }, q.events.len() + i)).0
            == PollOutcome::Event(pushed[i as int]),
{
    let all = QueueView { events: q.events + pushed, ..q };
    lemma_poll_times_drops(all, q.events.len() + i);
}

/// Successive polls take events from the front one by one: after `k` polls of a
/// queue that holds at least `k` events, the `i`-th poll (for `i < k`) returned
/// the `i`-th event, no event was returned twice or skipped, and the rest waits.
pub proof fn lemma_polls_distinct(q: QueueView, k: nat)
    requires
        k <= q.events.len(),
    ensures
        poll_times(q, k).events == q.events.skip(k as int),
        poll_times(q, k).closed == q.closed,
        forall|i: nat|
            i < k ==> spec_poll(#[trigger] poll_times(q, i)).0 == PollOutcome::Event(
                q.events[i as int],
            ),
{
    lemma_poll_times_drops(q, k);
    assert forall|i: nat| i < k implies spec_poll(#[trigger] poll_times(q, i)).0
        == PollOutcome::Event(q.events[i as int]) by {
        lemma_poll_times_drops(q, i);
    }
}

proof fn lemma_poll_times_drops(q: QueueView, k: nat)
    requires
        k <= q.events.len(),
    ensures
        poll_times(q, k).events =~= q.events.skip(k as int),
        poll_times(q, k).closed == q.closed,
    decreases k,
{
    if k > 0 {
        lemma_poll_times_drops(q, (k - 1) as nat);
    }
}

} // verus!
